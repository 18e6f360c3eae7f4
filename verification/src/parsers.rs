//! The extractor capability set and its dispatcher.
//!
//! Each supported format has one extraction function with the same
//! shape: bytes in, text or a typed error out.  The dispatcher is a
//! total routing table from the sniffer's tag to the extractor; it adds
//! no classification of its own.

use vstd::prelude::*;

pub mod docx;
pub mod image;
pub mod pdf;
pub mod pptx;
pub mod text;
pub mod xlsx;

use crate::catalog::DetectedFormat;
use crate::errors::{outcome_view, ParserError, SpecError};
use crate::sniff::{name_view, sniff, sniff_spec};

use self::docx::{docx_outcome, parse_docx};
use self::image::{image_rejection_msg, parse_image};
use self::pdf::{parse_pdf, pdf_rejection_msg};
use self::pptx::{parse_pptx, pptx_outcome};
use self::text::{parse_text, text_outcome};
use self::xlsx::{parse_xlsx, xlsx_outcome};

verus! {

/// Lifts an extractor's outcome into the error taxonomy: a failure
/// inside a recognized format is a `ParseError`.
pub open spec fn as_parse(r: Result<Seq<char>, Seq<char>>) -> Result<Seq<char>, SpecError> {
    match r {
        Ok(t) => Ok(t),
        Err(m) => Err(SpecError::Parse(m)),
    }
}

/// The message an unclassifiable buffer is rejected with.
pub open spec fn unknown_rejection_msg() -> Seq<char> {
    "Could not determine file type."@
}

/// What the dispatcher returns for a buffer carrying a format tag.
pub open spec fn dispatch_outcome(f: DetectedFormat, bytes: Seq<u8>) -> Result<
    Seq<char>,
    SpecError,
> {
    match f {
        DetectedFormat::Pdf => Err(SpecError::Invalid(pdf_rejection_msg())),
        DetectedFormat::Docx => as_parse(docx_outcome(bytes)),
        DetectedFormat::Xlsx => as_parse(xlsx_outcome(bytes)),
        DetectedFormat::Pptx => as_parse(pptx_outcome(bytes)),
        DetectedFormat::Text => as_parse(text_outcome(bytes)),
        DetectedFormat::Image => Err(SpecError::Invalid(image_rejection_msg())),
        DetectedFormat::Unknown => Err(SpecError::Invalid(unknown_rejection_msg())),
    }
}

/// What the whole pipeline returns for one buffer with an optional
/// filename: sniff, then dispatch.
pub open spec fn item_outcome(bytes: Seq<u8>, filename: Option<Seq<char>>) -> Result<
    Seq<char>,
    SpecError,
> {
    dispatch_outcome(sniff_spec(bytes, filename), bytes)
}

/// Routes a classified buffer to the extractor registered for its
/// format; `Unknown` is rejected unconditionally.
pub fn dispatch(format: DetectedFormat, data: &[u8]) -> (r: Result<String, ParserError>)
    ensures
        outcome_view(r) == dispatch_outcome(format, data@),
{
    match format {
        DetectedFormat::Pdf => parse_pdf(data),
        DetectedFormat::Docx => parse_docx(data),
        DetectedFormat::Xlsx => parse_xlsx(data),
        DetectedFormat::Pptx => parse_pptx(data),
        DetectedFormat::Text => parse_text(data),
        DetectedFormat::Image => parse_image(data),
        DetectedFormat::Unknown => Err(
            ParserError::InvalidFormat(String::from_str("Could not determine file type.")),
        ),
    }
}

/// Detects the format of the buffer from its content and extracts its
/// text.
pub fn parse(data: &[u8]) -> (r: Result<String, ParserError>)
    ensures
        outcome_view(r) == item_outcome(data@, None),
{
    let f = sniff(data, None);
    dispatch(f, data)
}

/// Detects the format of the buffer, aided by a filename hint, and
/// extracts its text.
pub fn parse_named(data: &[u8], filename: Option<&str>) -> (r: Result<String, ParserError>)
    ensures
        outcome_view(r) == item_outcome(data@, name_view(filename)),
{
    let f = sniff(data, filename);
    dispatch(f, data)
}

/// Text fallback: a buffer with no recognized signature that is valid
/// UTF-8 is extracted as its own decoded content.  A buffer holding a
/// NUL byte is left out: extracted text carries no embedded NUL, so the
/// text extractor rejects such a buffer instead of decoding it.
pub proof fn lemma_parse_text_fallback(bytes: Seq<u8>)
    requires
        crate::catalog::signature_format(bytes) is None,
        vstd::utf8::valid_utf8(bytes),
        !self::text::has_nul(bytes),
    ensures
        item_outcome(bytes, None) == Ok::<Seq<char>, SpecError>(vstd::utf8::decode_utf8(bytes)),
{
}

/// Extracted text carries no embedded NUL, whichever extractor made it:
/// the text path rejects buffers holding a NUL byte, and every other
/// extractor strips NUL characters from its output.
pub proof fn lemma_no_embedded_nul(f: DetectedFormat, bytes: Seq<u8>, i: int)
    requires
        dispatch_outcome(f, bytes) matches Ok(t),
        0 <= i < dispatch_outcome(f, bytes)->Ok_0.len(),
    ensures
        dispatch_outcome(f, bytes)->Ok_0[i] != '\u{0}',
{
    match f {
        DetectedFormat::Text => {
            crate::parsers::text::lemma_decoded_text_has_no_nul(bytes);
        },
        DetectedFormat::Docx => {
            let xml = crate::parsers::docx::docx_find(
                bytes,
                0,
                crate::container::zip_count_result(bytes)->Ok_0,
            )->Ok_0;
            crate::strutil::lemma_strip_nul_free(
                crate::strutil::trim_spec(
                    crate::parsers::docx::xml_unescape(
                        crate::parsers::docx::docx_scan(xml, 0, false, 0, 0),
                        0,
                    ),
                ),
                0,
                i,
            );
        },
        DetectedFormat::Xlsx => {
            let sheets = crate::parsers::xlsx::xlsx_read_result(bytes)->Ok_0;
            crate::strutil::lemma_strip_nul_free(
                crate::parsers::xlsx::render_sheets(sheets, Seq::empty()),
                0,
                i,
            );
        },
        DetectedFormat::Pptx => {
            let n = crate::container::zip_count_result(bytes)->Ok_0;
            let walked = crate::parsers::pptx::pptx_walk(bytes, 0, n, 0, Seq::empty())->Ok_0;
            crate::strutil::lemma_strip_nul_free(crate::strutil::trim_spec(walked), 0, i);
        },
        _ => {
        },
    }
}

/// Unknown rejection: a buffer with no recognized signature that is not
/// valid UTF-8 yields `InvalidFormat`.
pub proof fn lemma_parse_unknown_rejection(bytes: Seq<u8>)
    requires
        crate::catalog::signature_format(bytes) is None,
        !vstd::utf8::valid_utf8(bytes),
    ensures
        item_outcome(bytes, None) == Err::<Seq<char>, SpecError>(
            SpecError::Invalid(unknown_rejection_msg()),
        ),
{
}

} // verus!
