//! DOCX extractor: finds the `word/document.xml` part of the container
//! and scans it for paragraphs (`<w:p ...>`) and their text elements
//! (`<w:t ...>text</w:t>`).  Paragraphs are joined with line breaks,
//! text inside tables and hyperlinks contributes nothing — as a
//! traversal taking only the document's paragraphs and their direct
//! runs would have it — the five predefined XML entities are decoded,
//! and the result is trimmed.
//!
//! The container is read through the shared zip wrappers, whose failure
//! paths all return errors; the scan itself is verified, so extraction
//! cannot abort on malformed input.

use vstd::prelude::*;

use crate::container::{
    zip_count_result, zip_entry_count, zip_entry_name, zip_entry_name_of, zip_entry_text,
    zip_entry_text_of,
};
use crate::errors::ParserError;
use crate::strutil::{
    find_char, find_char_exec, lemma_find_char_bounds, lit_at, str_eq, str_lit_at, strip_nul_spec,
    strip_nul_str, trim_spec, trim_str,
};

verus! {

/// A paragraph element opens at `pos`: `<w:p` closed off by a tag
/// boundary, so that `<w:pPr` and the like do not count.
pub open spec fn is_para_open(s: Seq<char>, pos: int) -> bool {
    &&& lit_at(s, pos, "<w:p"@)
    &&& pos + 5 <= s.len()
    &&& (s[pos + 4] == '>' || s[pos + 4] == ' ' || s[pos + 4] == '/')
}

/// A text element opens at `pos`: `<w:t` closed off by a tag boundary.
pub open spec fn is_text_open(s: Seq<char>, pos: int) -> bool {
    &&& lit_at(s, pos, "<w:t"@)
    &&& pos + 5 <= s.len()
    &&& (s[pos + 4] == '>' || s[pos + 4] == ' ' || s[pos + 4] == '/')
}

/// A table element opens at `pos`: `<w:tbl` closed off by a tag
/// boundary, so that `<w:tblPr` and the like do not count.
pub open spec fn is_tbl_open(s: Seq<char>, pos: int) -> bool {
    &&& lit_at(s, pos, "<w:tbl"@)
    &&& pos + 7 <= s.len()
    &&& (s[pos + 6] == '>' || s[pos + 6] == ' ' || s[pos + 6] == '/')
}

/// A hyperlink element opens at `pos`: `<w:hyperlink` closed off by a
/// tag boundary.
pub open spec fn is_link_open(s: Seq<char>, pos: int) -> bool {
    &&& lit_at(s, pos, "<w:hyperlink"@)
    &&& pos + 13 <= s.len()
    &&& (s[pos + 12] == '>' || s[pos + 12] == ' ' || s[pos + 12] == '/')
}

/// The scan of the document part from `pos`, carrying the nesting
/// depths of tables and hyperlinks: outside both, every paragraph open
/// tag after the first seen contributes a line break, and every
/// non-self-closing text element contributes the characters up to the
/// next `<`; inside either, nothing is emitted.
pub open spec fn docx_scan(s: Seq<char>, pos: int, seen: bool, tbl: int, lnk: int) -> Seq<char>
    decreases s.len() - pos,
{
    if !(0 <= pos && pos < s.len()) {
        Seq::empty()
    } else if is_tbl_open(s, pos) {
        docx_scan(s, pos + 6, seen, tbl + 1, lnk)
    } else if lit_at(s, pos, "</w:tbl>"@) && pos + 8 <= s.len() {
        docx_scan(
            s,
            pos + 8,
            seen,
            if tbl > 0 {
                tbl - 1
            } else {
                0
            },
            lnk,
        )
    } else if is_link_open(s, pos) {
        docx_scan(s, pos + 12, seen, tbl, lnk + 1)
    } else if lit_at(s, pos, "</w:hyperlink>"@) && pos + 14 <= s.len() {
        docx_scan(
            s,
            pos + 14,
            seen,
            tbl,
            if lnk > 0 {
                lnk - 1
            } else {
                0
            },
        )
    } else if is_para_open(s, pos) && tbl == 0 && lnk == 0 {
        (if seen {
            "\n"@
        } else {
            Seq::empty()
        }) + docx_scan(s, pos + 4, true, tbl, lnk)
    } else if is_text_open(s, pos) && tbl == 0 && lnk == 0 {
        match find_char(s, pos + 4, '>') {
            None => docx_scan(s, pos + 1, seen, tbl, lnk),
            Some(g) => if !(pos + 4 <= g && g < s.len()) {
                Seq::empty()
            } else if s[g - 1] == '/' {
                docx_scan(s, g + 1, seen, tbl, lnk)
            } else {
                let l = match find_char(s, g + 1, '<') {
                    Some(l) => l,
                    None => s.len() as int,
                };
                if !(g + 1 <= l && l <= s.len()) {
                    Seq::empty()
                } else {
                    s.subrange(g + 1, l) + docx_scan(s, l, seen, tbl, lnk)
                }
            },
        }
    } else {
        docx_scan(s, pos + 1, seen, tbl, lnk)
    }
}

/// The predefined XML entity standing at `pos`, with its width.
pub open spec fn entity_at(s: Seq<char>, pos: int) -> Option<(char, int)> {
    if lit_at(s, pos, "&amp;"@) {
        Some(('&', 5))
    } else if lit_at(s, pos, "&lt;"@) {
        Some(('<', 4))
    } else if lit_at(s, pos, "&gt;"@) {
        Some(('>', 4))
    } else if lit_at(s, pos, "&quot;"@) {
        Some(('"', 6))
    } else if lit_at(s, pos, "&apos;"@) {
        Some(('\'', 6))
    } else {
        None
    }
}

/// The text with the five predefined XML entities decoded, in one pass
/// from the left; everything else — numeric character references and
/// CDATA sections included — is kept as it stands.
pub open spec fn xml_unescape(s: Seq<char>, pos: int) -> Seq<char>
    decreases s.len() - pos,
{
    if !(0 <= pos && pos < s.len()) {
        Seq::empty()
    } else {
        match entity_at(s, pos) {
            Some(cw) => if !(1 <= cw.1 && pos + cw.1 <= s.len()) {
                Seq::empty()
            } else {
                seq![cw.0] + xml_unescape(s, pos + cw.1)
            },
            None => seq![s[pos]] + xml_unescape(s, pos + 1),
        }
    }
}

/// The text of the document part at entry `i` onward: the first entry
/// named `word/document.xml` decides; a container without one cannot be
/// extracted.
pub open spec fn docx_find(bytes: Seq<u8>, i: int, n: int) -> Result<Seq<char>, Seq<char>>
    decreases n - i,
{
    if i >= n {
        Err(docx_missing_msg())
    } else {
        match zip_entry_name_of(bytes, i) {
            Err(m) => Err(m),
            Ok(name) => if name == "word/document.xml"@ {
                zip_entry_text_of(bytes, i)
            } else {
                docx_find(bytes, i + 1, n)
            },
        }
    }
}

/// The message a container without a document part is rejected with.
pub open spec fn docx_missing_msg() -> Seq<char> {
    "the container holds no word/document.xml part"@
}

/// What DOCX extraction returns: the scanned paragraph text of the
/// document part, entities decoded, trimmed, and freed of NUL
/// characters.
pub open spec fn docx_outcome(bytes: Seq<u8>) -> Result<Seq<char>, Seq<char>> {
    match zip_count_result(bytes) {
        Err(m) => Err(m),
        Ok(n) => match docx_find(bytes, 0, n) {
            Err(m) => Err(m),
            Ok(xml) => Ok(
                strip_nul_spec(trim_spec(xml_unescape(docx_scan(xml, 0, false, 0, 0), 0)), 0),
            ),
        },
    }
}

/// Scans the document part for paragraphs and their text elements.
fn scan_document_xml(xml: &str) -> (r: String)
    ensures
        r@ == docx_scan(xml@, 0, false, 0, 0),
{
    let n = xml.unicode_len();
    let mut pos: usize = 0;
    let mut seen = false;
    let mut tbl: usize = 0;
    let mut lnk: usize = 0;
    let mut out = String::new();
    while pos < n
        invariant
            pos <= n,
            tbl + lnk <= pos,
            n == xml@.len(),
            docx_scan(xml@, 0, false, 0, 0) == out@ + docx_scan(
                xml@,
                pos as int,
                seen,
                tbl as int,
                lnk as int,
            ),
        decreases n - pos,
    {
        let ghost sv = xml@;
        proof {
            reveal_strlit("\n");
        }
        if str_lit_at(xml, pos, "<w:tbl") && n - pos >= 7 && (xml.get_char(pos + 6) == '>'
            || xml.get_char(pos + 6) == ' ' || xml.get_char(pos + 6) == '/') {
            assert(is_tbl_open(sv, pos as int));
            tbl = tbl + 1;
            pos = pos + 6;
            continue ;
        }
        assert(!is_tbl_open(sv, pos as int));
        if str_lit_at(xml, pos, "</w:tbl>") && n - pos >= 8 {
            tbl = if tbl > 0 {
                tbl - 1
            } else {
                0
            };
            pos = pos + 8;
            continue ;
        }
        if str_lit_at(xml, pos, "<w:hyperlink") && n - pos >= 13 && (xml.get_char(pos + 12) == '>'
            || xml.get_char(pos + 12) == ' ' || xml.get_char(pos + 12) == '/') {
            assert(is_link_open(sv, pos as int));
            lnk = lnk + 1;
            pos = pos + 12;
            continue ;
        }
        assert(!is_link_open(sv, pos as int));
        if str_lit_at(xml, pos, "</w:hyperlink>") && n - pos >= 14 {
            lnk = if lnk > 0 {
                lnk - 1
            } else {
                0
            };
            pos = pos + 14;
            continue ;
        }
        let para_open = str_lit_at(xml, pos, "<w:p") && n - pos >= 5 && (xml.get_char(pos + 4)
            == '>' || xml.get_char(pos + 4) == ' ' || xml.get_char(pos + 4) == '/');
        proof {
            assert(para_open == is_para_open(sv, pos as int));
        }
        if para_open && tbl == 0 && lnk == 0 {
            if seen {
                out.append("\n");
            }
            seen = true;
            pos = pos + 4;
            continue ;
        }
        let text_open = str_lit_at(xml, pos, "<w:t") && n - pos >= 5 && (xml.get_char(pos + 4)
            == '>' || xml.get_char(pos + 4) == ' ' || xml.get_char(pos + 4) == '/');
        proof {
            assert(text_open == is_text_open(sv, pos as int));
        }
        if text_open && tbl == 0 && lnk == 0 {
            let g = match find_char_exec(xml, pos + 4, '>') {
                Some(g) => g,
                None => {
                    pos = pos + 1;
                    continue ;
                },
            };
            proof {
                lemma_find_char_bounds(sv, pos + 4, '>');
            }
            if xml.get_char(g - 1) == '/' {
                // a self-closing text element holds no text
                pos = g + 1;
                continue ;
            }
            let l = match find_char_exec(xml, g + 1, '<') {
                Some(l) => l,
                None => n,
            };
            proof {
                lemma_find_char_bounds(sv, g + 1, '<');
            }
            let cap = xml.substring_char(g + 1, l);
            out.append(cap);
            pos = l;
            continue ;
        }
        pos = pos + 1;
    }
    proof {
        assert(docx_scan(xml@, pos as int, seen, tbl as int, lnk as int) =~= Seq::<char>::empty());
        assert(out@ + Seq::<char>::empty() =~= out@);
    }
    out
}

/// Decodes the five predefined XML entities.
fn unescape_xml_str(s: &str) -> (r: String)
    ensures
        r@ == xml_unescape(s@, 0),
{
    let n = s.unicode_len();
    let mut pos: usize = 0;
    let mut out = String::new();
    while pos < n
        invariant
            pos <= n,
            n == s@.len(),
            xml_unescape(s@, 0) == out@ + xml_unescape(s@, pos as int),
        decreases n - pos,
    {
        let ghost sv = s@;
        proof {
            reveal_strlit("&amp;");
            reveal_strlit("&lt;");
            reveal_strlit("&gt;");
            reveal_strlit("&quot;");
            reveal_strlit("&apos;");
            reveal_strlit("&");
            reveal_strlit("<");
            reveal_strlit(">");
            reveal_strlit("\"");
            reveal_strlit("'");
        }
        let w: usize;
        if str_lit_at(s, pos, "&amp;") {
            out.append("&");
            w = 5;
        } else if str_lit_at(s, pos, "&lt;") {
            out.append("<");
            w = 4;
        } else if str_lit_at(s, pos, "&gt;") {
            out.append(">");
            w = 4;
        } else if str_lit_at(s, pos, "&quot;") {
            out.append("\"");
            w = 6;
        } else if str_lit_at(s, pos, "&apos;") {
            out.append("'");
            w = 6;
        } else {
            let c = s.substring_char(pos, pos + 1);
            out.append(c);
            proof {
                assert(c@ =~= seq![sv[pos as int]]);
            }
            w = 1;
        }
        pos = pos + w;
    }
    proof {
        assert(xml_unescape(s@, pos as int) =~= Seq::<char>::empty());
        assert(out@ + Seq::<char>::empty() =~= out@);
    }
    out
}

/// Extracts the paragraph text of a DOCX document; a container that
/// cannot be read, or one without a document part, surfaces as
/// `ParseError`.
pub fn parse_docx(data: &[u8]) -> (r: Result<String, ParserError>)
    ensures
        r matches Ok(t) ==> docx_outcome(data@) == Ok::<Seq<char>, Seq<char>>(t@),
        r matches Err(e) ==> docx_outcome(data@) matches Err(m) && e matches
            ParserError::ParseError(s) && s@ == m,
{
    let n = match zip_entry_count(data) {
        Ok(n) => n,
        Err(e) => {
            return Err(ParserError::ParseError(e));
        },
    };
    let mut i: usize = 0;
    while i < n
        invariant
            i <= n,
            zip_count_result(data@) == Ok::<int, Seq<char>>(n as int),
            docx_find(data@, 0, n as int) == docx_find(data@, i as int, n as int),
        decreases n - i,
    {
        let name = match zip_entry_name(data, i) {
            Ok(name) => name,
            Err(e) => {
                return Err(ParserError::ParseError(e));
            },
        };
        if str_eq(name.as_str(), "word/document.xml") {
            let xml = match zip_entry_text(data, i) {
                Ok(xml) => xml,
                Err(e) => {
                    return Err(ParserError::ParseError(e));
                },
            };
            let raw = scan_document_xml(xml.as_str());
            let unescaped = unescape_xml_str(raw.as_str());
            let trimmed = trim_str(unescaped.as_str());
            return Ok(strip_nul_str(trimmed.as_str()));
        }
        i = i + 1;
    }
    Err(ParserError::ParseError(String::from_str("the container holds no word/document.xml part")))
}

} // verus!
