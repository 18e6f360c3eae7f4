//! Format sniffer: assigns a `DetectedFormat` to a byte buffer.
//!
//! Strict priority order: a signature match from the catalog wins; with
//! no signature match a filename extension may serve as a weak hint; a
//! buffer that is valid UTF-8 falls back to `Text`; everything else is
//! `Unknown`.  An extension hint never overrides a signature match, and
//! a hint is only consulted for the non-text formats, since the UTF-8
//! fallback already classifies text.
//!
//! A ZIP container whose local headers defer their sizes to data
//! descriptors cannot be refined by the catalog's local-header walk;
//! such a container is refined through its central directory instead,
//! read by the trusted container wrappers.

use vstd::prelude::*;
use vstd::utf8::valid_utf8;

use crate::catalog::{signature_format, signature_lookup, DetectedFormat};
use crate::container::{zip_count_result, zip_entry_count, zip_entry_name, zip_entry_name_of};
use crate::parsers::text::validate_utf8;
use crate::strutil::{has_prefix, str_has_prefix};

verus! {

/// The codepoint of a character with ASCII uppercase folded to
/// lowercase.
pub open spec fn lower_u32(c: char) -> u32 {
    if 'A' <= c && c <= 'Z' {
        (c as u32 + 32) as u32
    } else {
        c as u32
    }
}

/// Case-insensitive equality against a lowercase ASCII target.
pub open spec fn eq_ci(s: Seq<char>, t: Seq<char>) -> bool {
    s.len() == t.len() && (forall|j: int| 0 <= j < s.len() ==> lower_u32(s[j]) == t[j] as u32)
}

/// The position of the last `.` in a filename.
pub open spec fn last_dot(name: Seq<char>) -> Option<int>
    decreases name.len(),
{
    if name.len() == 0 {
        None
    } else if name.last() == '.' {
        Some(name.len() - 1)
    } else {
        last_dot(name.drop_last())
    }
}

/// The extension after the last dot; empty when there is no dot.
pub open spec fn ext_of(name: Seq<char>) -> Seq<char> {
    match last_dot(name) {
        Some(i) => name.subrange(i + 1, name.len() as int),
        None => Seq::empty(),
    }
}

/// The weak format hint an extension gives: the known document and image
/// extensions, compared case-insensitively.
pub open spec fn hint_format(name: Seq<char>) -> Option<DetectedFormat> {
    let e = ext_of(name);
    if eq_ci(e, "pdf"@) {
        Some(DetectedFormat::Pdf)
    } else if eq_ci(e, "docx"@) {
        Some(DetectedFormat::Docx)
    } else if eq_ci(e, "xlsx"@) {
        Some(DetectedFormat::Xlsx)
    } else if eq_ci(e, "pptx"@) {
        Some(DetectedFormat::Pptx)
    } else if eq_ci(e, "png"@) || eq_ci(e, "jpg"@) || eq_ci(e, "jpeg"@) || eq_ci(e, "webp"@)
        || eq_ci(e, "gif"@) || eq_ci(e, "bmp"@) || eq_ci(e, "tif"@) || eq_ci(e, "tiff"@) {
        Some(DetectedFormat::Image)
    } else {
        None
    }
}

/// The view of an optional filename.
pub open spec fn name_view(filename: Option<&str>) -> Option<Seq<char>> {
    match filename {
        Some(n) => Some(n@),
        None => None,
    }
}

/// The hint an optional filename gives.
pub open spec fn hint_of(filename: Option<Seq<char>>) -> Option<DetectedFormat> {
    match filename {
        Some(n) => hint_format(n),
        None => None,
    }
}

/// Refines a container through its central directory: the first entry
/// name under a `word/`, `xl/` or `ppt/` path decides.
pub open spec fn central_refine(bytes: Seq<u8>, i: int, n: int) -> DetectedFormat
    decreases n - i,
{
    if i >= n {
        DetectedFormat::Unknown
    } else {
        match zip_entry_name_of(bytes, i) {
            Err(_) => DetectedFormat::Unknown,
            Ok(name) => if has_prefix(name, "word/"@) {
                DetectedFormat::Docx
            } else if has_prefix(name, "xl/"@) {
                DetectedFormat::Xlsx
            } else if has_prefix(name, "ppt/"@) {
                DetectedFormat::Pptx
            } else {
                central_refine(bytes, i + 1, n)
            },
        }
    }
}

/// What the central directory assigns to a container the local-header
/// walk left unclassified.
pub open spec fn container_refined(bytes: Seq<u8>) -> DetectedFormat {
    match zip_count_result(bytes) {
        Ok(n) => central_refine(bytes, 0, n),
        Err(_) => DetectedFormat::Unknown,
    }
}

/// What the sniffer assigns to a buffer with an optional filename hint:
/// signature first — an unclassified container refined through its
/// central directory — then the extension hint, then the UTF-8
/// fallback.
pub open spec fn sniff_spec(bytes: Seq<u8>, filename: Option<Seq<char>>) -> DetectedFormat {
    match signature_format(bytes) {
        Some(DetectedFormat::Unknown) => container_refined(bytes),
        Some(f) => f,
        None => match hint_of(filename) {
            Some(f) => f,
            None => if valid_utf8(bytes) {
                DetectedFormat::Text
            } else {
                DetectedFormat::Unknown
            },
        },
    }
}

fn eq_ci_exec(s: &str, t: &str) -> (r: bool)
    ensures
        r == eq_ci(s@, t@),
{
    let sn = s.unicode_len();
    let tn = t.unicode_len();
    if sn != tn {
        return false;
    }
    let mut i: usize = 0;
    while i < sn
        invariant
            i <= sn,
            sn == s@.len(),
            sn == t@.len(),
            forall|j: int| 0 <= j < i ==> lower_u32(s@[j]) == t@[j] as u32,
        decreases sn - i,
    {
        let c = s.get_char(i);
        let d = t.get_char(i);
        let cu = c as u32;
        let lc: u32 = if 65 <= cu && cu <= 90 {
            cu + 32
        } else {
            cu
        };
        proof {
            assert(('A' <= c && c <= 'Z') == (65 <= cu && cu <= 90));
            assert(lc == lower_u32(s@[i as int]));
        }
        if lc != d as u32 {
            return false;
        }
        i = i + 1;
    }
    true
}

proof fn lemma_last_dot_take(s: Seq<char>, k: int)
    requires
        0 <= k <= s.len(),
        forall|j: int| k <= j < s.len() ==> s[j] != '.',
    ensures
        last_dot(s) == last_dot(s.take(k)),
    decreases s.len() - k,
{
    if k == s.len() {
        assert(s.take(k) =~= s);
    } else {
        assert(s.last() != '.');
        assert(s.drop_last() =~= s.take(s.len() - 1));
        lemma_last_dot_take(s.take(s.len() - 1), k);
        assert(s.take(s.len() - 1).take(k) =~= s.take(k));
    }
}

/// Looks the filename's extension up in the hint table.
fn ext_lookup(name: &str) -> (r: Option<DetectedFormat>)
    ensures
        r == hint_format(name@),
{
    let n = name.unicode_len();
    let mut j: usize = n;
    while j > 0 && name.get_char(j - 1) != '.'
        invariant
            j <= n,
            n == name@.len(),
            forall|k: int| j <= k < n ==> name@[k] != '.',
        decreases j,
    {
        j = j - 1;
    }
    proof {
        lemma_last_dot_take(name@, j as int);
    }
    if j == 0 {
        // no dot: the extension is empty and matches no target
        proof {
            assert(name@.take(0) =~= Seq::<char>::empty());
            assert(last_dot(name@) is None);
            assert(ext_of(name@) =~= Seq::<char>::empty());
            reveal_strlit("pdf");
            reveal_strlit("docx");
            reveal_strlit("xlsx");
            reveal_strlit("pptx");
            reveal_strlit("png");
            reveal_strlit("jpg");
            reveal_strlit("jpeg");
            reveal_strlit("webp");
            reveal_strlit("gif");
            reveal_strlit("bmp");
            reveal_strlit("tif");
            reveal_strlit("tiff");
        }
        return None;
    }
    proof {
        assert(name@.take(j as int).last() == name@[j - 1]);
        assert(last_dot(name@) == Some(j - 1));
        assert(ext_of(name@) == name@.subrange(j as int, n as int));
    }
    let ext = name.substring_char(j, n);
    if eq_ci_exec(ext, "pdf") {
        Some(DetectedFormat::Pdf)
    } else if eq_ci_exec(ext, "docx") {
        Some(DetectedFormat::Docx)
    } else if eq_ci_exec(ext, "xlsx") {
        Some(DetectedFormat::Xlsx)
    } else if eq_ci_exec(ext, "pptx") {
        Some(DetectedFormat::Pptx)
    } else if eq_ci_exec(ext, "png") || eq_ci_exec(ext, "jpg") || eq_ci_exec(ext, "jpeg")
        || eq_ci_exec(ext, "webp") || eq_ci_exec(ext, "gif") || eq_ci_exec(ext, "bmp")
        || eq_ci_exec(ext, "tif") || eq_ci_exec(ext, "tiff") {
        Some(DetectedFormat::Image)
    } else {
        None
    }
}

/// Refines a container through its central directory.
fn refine_by_central_directory(data: &[u8]) -> (r: DetectedFormat)
    ensures
        r == container_refined(data@),
{
    let n = match zip_entry_count(data) {
        Ok(n) => n,
        Err(_) => {
            return DetectedFormat::Unknown;
        },
    };
    let mut i: usize = 0;
    while i < n
        invariant
            i <= n,
            zip_count_result(data@) == Ok::<int, Seq<char>>(n as int),
            central_refine(data@, 0, n as int) == central_refine(data@, i as int, n as int),
        decreases n - i,
    {
        let name = match zip_entry_name(data, i) {
            Ok(name) => name,
            Err(_) => {
                return DetectedFormat::Unknown;
            },
        };
        if str_has_prefix(name.as_str(), "word/") {
            return DetectedFormat::Docx;
        }
        if str_has_prefix(name.as_str(), "xl/") {
            return DetectedFormat::Xlsx;
        }
        if str_has_prefix(name.as_str(), "ppt/") {
            return DetectedFormat::Pptx;
        }
        i = i + 1;
    }
    DetectedFormat::Unknown
}

/// Classifies a byte buffer, optionally aided by a filename hint.
pub fn sniff(data: &[u8], filename: Option<&str>) -> (f: DetectedFormat)
    ensures
        f == sniff_spec(data@, name_view(filename)),
{
    match signature_lookup(data) {
        Some(DetectedFormat::Unknown) => refine_by_central_directory(data),
        Some(f) => f,
        None => {
            let hint = match filename {
                Some(name) => ext_lookup(name),
                None => None,
            };
            match hint {
                Some(f) => f,
                None => {
                    if validate_utf8(data) {
                        DetectedFormat::Text
                    } else {
                        DetectedFormat::Unknown
                    }
                },
            }
        },
    }
}

/// A positive signature match always wins over a filename hint: a buffer
/// with a PDF header classifies as `Pdf` whatever its filename says.
pub proof fn lemma_signature_overrides_hint(bytes: Seq<u8>, filename: Option<Seq<char>>)
    requires
        crate::catalog::is_pdf_sig(bytes),
    ensures
        sniff_spec(bytes, filename) == DetectedFormat::Pdf,
{
}

/// With no signature match and no filename hint, a buffer of valid UTF-8
/// classifies as `Text`.
pub proof fn lemma_text_fallback(bytes: Seq<u8>)
    requires
        signature_format(bytes) is None,
        valid_utf8(bytes),
    ensures
        sniff_spec(bytes, None) == DetectedFormat::Text,
{
}

/// With no signature match, no filename hint and no UTF-8 decoding, a
/// buffer stays `Unknown`.
pub proof fn lemma_unknown_rejection(bytes: Seq<u8>)
    requires
        signature_format(bytes) is None,
        !valid_utf8(bytes),
    ensures
        sniff_spec(bytes, None) == DetectedFormat::Unknown,
{
}

} // verus!
