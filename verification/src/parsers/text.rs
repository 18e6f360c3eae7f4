//! Text extractor: plain UTF-8 buffers (TXT, CSV, JSON, ...) decode to
//! their own content.
//!
//! The validator is verified against vstd's model of UTF-8; only the
//! final conversion of a validated buffer into a `String` is trusted.

use vstd::prelude::*;
use vstd::utf8::*;

use crate::errors::ParserError;

verus! {

/// The buffer holds a NUL byte.
pub open spec fn has_nul(bytes: Seq<u8>) -> bool {
    exists|i: int| 0 <= i < bytes.len() && bytes[i] == 0
}

/// What text extraction returns for a buffer: the decoded characters
/// when the buffer is valid UTF-8, and a decoding error otherwise.
/// Extracted text carries no embedded NUL, so a buffer holding a NUL
/// byte is rejected rather than decoded.
pub open spec fn text_outcome(bytes: Seq<u8>) -> Result<Seq<char>, Seq<char>> {
    if !valid_utf8(bytes) {
        Err("input is not valid UTF-8"@)
    } else if has_nul(bytes) {
        Err("text input holds an embedded NUL byte"@)
    } else {
        Ok(decode_utf8(bytes))
    }
}

/// Whether the buffer holds a NUL byte.
fn contains_nul(data: &[u8]) -> (r: bool)
    ensures
        r == has_nul(data@),
{
    let n = data.len();
    let mut i: usize = 0;
    while i < n
        invariant
            i <= n,
            n == data@.len(),
            forall|j: int| 0 <= j < i ==> data@[j] != 0,
        decreases n - i,
    {
        if data[i] == 0 {
            return true;
        }
        i = i + 1;
    }
    false
}

/// Decides `valid_utf8` for a byte buffer: one pass over the leading and
/// continuation bytes, rejecting overlong encodings and surrogates.
pub fn validate_utf8(data: &[u8]) -> (r: bool)
    ensures
        r == valid_utf8(data@),
{
    let n = data.len();
    let mut i: usize = 0;
    proof {
        assert(data@.skip(0) =~= data@);
    }
    while i < n
        invariant
            i <= n,
            n == data@.len(),
            valid_utf8(data@) == valid_utf8(data@.skip(i as int)),
        decreases n - i,
    {
        let ghost rest = data@.skip(i as int);
        proof {
            assert(rest.len() == n - i);
            assert(forall|k: int| 0 <= k < rest.len() ==> rest[k] == data@[i + k]);
        }
        let b0 = data[i];
        let w: usize;
        let cp: u32;
        if b0 < 0x80 {
            w = 1;
            cp = (b0 & 0x7f) as u32;
        } else if b0 < 0xc0 {
            // a continuation byte cannot lead a scalar
            assert(!valid_first_scalar(rest));
            return false;
        } else if b0 < 0xe0 {
            if n - i < 2 {
                assert(!valid_first_scalar(rest));
                return false;
            }
            let b1 = data[i + 1];
            if !(0x80 <= b1 && b1 <= 0xbf) {
                assert(!valid_first_scalar(rest));
                return false;
            }
            w = 2;
            cp = (((b0 & 0x1f) as u32) << 6u32) | ((b1 & 0x3f) as u32);
            assert(cp == codepoint_width_2(b0, b1));
        } else if b0 < 0xf0 {
            if n - i < 3 {
                assert(!valid_first_scalar(rest));
                return false;
            }
            let b1 = data[i + 1];
            let b2 = data[i + 2];
            if !(0x80 <= b1 && b1 <= 0xbf) || !(0x80 <= b2 && b2 <= 0xbf) {
                assert(!valid_first_scalar(rest));
                return false;
            }
            w = 3;
            cp = (((b0 & 0x0f) as u32) << 12u32) | (((b1 & 0x3f) as u32) << 6u32) | ((b2
                & 0x3f) as u32);
            assert(cp == codepoint_width_3(b0, b1, b2));
        } else if b0 < 0xf8 {
            if n - i < 4 {
                assert(!valid_first_scalar(rest));
                return false;
            }
            let b1 = data[i + 1];
            let b2 = data[i + 2];
            let b3 = data[i + 3];
            if !(0x80 <= b1 && b1 <= 0xbf) || !(0x80 <= b2 && b2 <= 0xbf) || !(0x80 <= b3 && b3
                <= 0xbf) {
                assert(!valid_first_scalar(rest));
                return false;
            }
            w = 4;
            cp = (((b0 & 0x07) as u32) << 18u32) | (((b1 & 0x3f) as u32) << 12u32) | (((b2
                & 0x3f) as u32) << 6u32) | ((b3 & 0x3f) as u32);
            assert(cp == codepoint_width_4(b0, b1, b2, b3));
        } else {
            assert(!valid_first_scalar(rest));
            return false;
        }
        assert(cp == decode_first_codepoint(rest));
        assert(w == length_of_first_codepoint(rest));
        // reject overlong encodings and values outside the scalar range
        if w == 2 && cp < 0x80 {
            assert(!valid_first_scalar(rest));
            return false;
        }
        if w == 3 && cp < 0x800 {
            assert(!valid_first_scalar(rest));
            return false;
        }
        if w == 4 && !(0x10000 <= cp && cp <= 0x10ffff) {
            assert(!valid_first_scalar(rest));
            return false;
        }
        if 0xd800 <= cp && cp <= 0xdfff {
            assert(!valid_first_scalar(rest));
            return false;
        }
        proof {
            assert(valid_first_scalar(rest));
            assert(pop_first_scalar(rest) =~= data@.skip(i + w as int));
        }
        i = i + w;
    }
    proof {
        assert(data@.skip(n as int) =~= Seq::<u8>::empty());
    }
    true
}

/// Extracted text holds no embedded NUL: decoding a buffer without a
/// NUL byte yields no NUL character, so what the text extractor hands
/// out never holds one.
pub proof fn lemma_decoded_text_has_no_nul(bytes: Seq<u8>)
    requires
        valid_utf8(bytes),
        !has_nul(bytes),
    ensures
        forall|i: int|
            0 <= i < decode_utf8(bytes).len() ==> #[trigger] decode_utf8(bytes)[i] != '\u{0}',
    decreases bytes.len(),
{
    if bytes.len() > 0 {
        let cp = decode_first_scalar(bytes);
        let w = length_of_first_scalar(bytes);
        let b0 = bytes[0];
        assert(b0 != 0);
        if is_leading_byte_width_1(b0) {
            assert((b0 & 0x7f) == b0 && (b0 & 0x7f) < 0x80) by (bit_vector)
                requires
                    b0 < 0x80,
            ;
            assert(cp == b0 as u32);
        } else if is_leading_byte_width_2(b0) {
            // not overlong, and five plus six data bits stay under 0x800
            let b1 = bytes[1];
            assert(((((b0 & 0x1f) as u32) << 6u32) | ((b1 & 0x3f) as u32)) < 0x800)
                by (bit_vector);
            assert(cp >= 0x80 && cp < 0x800);
        } else if is_leading_byte_width_3(b0) {
            let b1 = bytes[1];
            let b2 = bytes[2];
            assert(((((b0 & 0x0f) as u32) << 12u32) | (((b1 & 0x3f) as u32) << 6u32) | ((b2
                & 0x3f) as u32)) < 0x10000) by (bit_vector);
            assert(cp >= 0x800 && cp < 0x10000);
        } else {
            assert(cp >= 0x10000 && cp <= 0x10ffff);
        }
        assert(cp != 0 && is_scalar(cp));
        assert((cp as char) != '\u{0}') by {
            if (cp as char) == '\u{0}' {
                char_is_scalar('\u{0}');
                char_u32_cast('\u{0}', 0);
                assert(valid_first_scalar(bytes));
                assert(is_scalar(cp));
                assert(((cp as char) as u32) == cp);
            }
        }
        let rest = pop_first_scalar(bytes);
        assert(forall|j: int| 0 <= j < rest.len() ==> rest[j] == bytes[w + j]);
        assert(!has_nul(rest));
        lemma_decoded_text_has_no_nul(rest);
        assert(decode_utf8(bytes) == seq![cp as char] + decode_utf8(rest));
        assert(forall|i: int|
            1 <= i < decode_utf8(bytes).len() ==> #[trigger] decode_utf8(bytes)[i] == decode_utf8(
                rest,
            )[i - 1]);
    }
}

/// Relies on std's `str::from_utf8`: it accepts exactly the buffers that
/// are valid UTF-8, and the accepted buffer is the UTF-8 encoding of the
/// returned characters.
#[verifier::external_body]
fn utf8_to_string(data: &[u8]) -> (r: Option<String>)
    ensures
        r is Some <==> valid_utf8(data@),
        r matches Some(s) ==> encode_utf8(s@) == data@,
{
    match std::str::from_utf8(data) {
        Ok(s) => Some(s.to_owned()),
        Err(_) => None,
    }
}

/// Decodes a UTF-8 text buffer into its content, unchanged; a buffer
/// that is not UTF-8, or that holds a NUL byte, surfaces as
/// `ParseError`.
pub fn parse_text(data: &[u8]) -> (r: Result<String, ParserError>)
    ensures
        r matches Ok(t) ==> text_outcome(data@) == Ok::<Seq<char>, Seq<char>>(t@),
        r matches Err(e) ==> text_outcome(data@) matches Err(m) && e matches
            ParserError::ParseError(s) && s@ == m,
        r is Ok <==> (valid_utf8(data@) && !has_nul(data@)),
{
    match utf8_to_string(data) {
        Some(s) => {
            if contains_nul(data) {
                return Err(
                    ParserError::ParseError(
                        String::from_str("text input holds an embedded NUL byte"),
                    ),
                );
            }
            proof {
                broadcast use encode_utf8_decode_utf8;

                assert(decode_utf8(data@) == s@);
            }
            Ok(s)
        },
        None => Err(ParserError::ParseError(String::from_str("input is not valid UTF-8"))),
    }
}

} // verus!
