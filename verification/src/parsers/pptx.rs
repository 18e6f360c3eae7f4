//! PPTX extractor: walks the entries of the ZIP container and scans
//! each slide's XML for the text elements written as `<a:t ...>t</a:t>`.
//! Captured texts are emitted one per line; slides after the first are
//! introduced by a numbered separator; the result is trimmed and freed
//! of NUL characters.

use vstd::prelude::*;

use crate::container::{
    zip_count_result, zip_entry_count, zip_entry_name, zip_entry_name_of, zip_entry_text,
    zip_entry_text_of,
};
use crate::errors::ParserError;
use crate::strutil::{
    dec_str, find_char, find_char_exec, has_prefix, has_suffix, lemma_find_char_bounds,
    str_has_prefix, str_has_suffix, strip_nul_spec, strip_nul_str, trim_spec, trim_str,
    usize_to_string,
};

verus! {

/// A container entry that holds a slide: `ppt/slides/slide*.xml`.
pub open spec fn is_slide_name(name: Seq<char>) -> bool {
    has_prefix(name, "ppt/slides/slide"@) && has_suffix(name, ".xml"@)
}

/// One attempted match of the slide-text element at position `pos`,
/// where `pos` holds `<a:t`: any run of characters other than `>` may
/// follow the tag name, then `>`, then a non-empty capture of
/// characters other than `<`, closed by `</a:t>`.  Returns the capture
/// and the position after the closing tag.
pub open spec fn atext_attempt(s: Seq<char>, pos: int) -> Option<(Seq<char>, int)> {
    match find_char(s, pos + 4, '>') {
        None => None,
        Some(g) => match find_char(s, g + 1, '<') {
            None => None,
            Some(l) => if l > g + 1 && l + 6 <= s.len() && s.subrange(l, l + 6) == "</a:t>"@ {
                Some((s.subrange(g + 1, l), l + 6))
            } else {
                None
            },
        },
    }
}

/// The scan of a slide's XML from position `pos`: each captured text
/// followed by a line break.  A failed attempt moves one position on,
/// as a leftmost-match search does.
pub open spec fn atext_scan(s: Seq<char>, pos: int) -> Seq<char>
    decreases s.len() - pos,
{
    if !(0 <= pos && pos + 4 <= s.len()) {
        Seq::empty()
    } else if s.subrange(pos, pos + 4) == "<a:t"@ {
        match atext_attempt(s, pos) {
            Some(cap_end) => if pos < cap_end.1 <= s.len() {
                cap_end.0 + "\n"@ + atext_scan(s, cap_end.1)
            } else {
                Seq::empty()
            },
            None => atext_scan(s, pos + 1),
        }
    } else {
        atext_scan(s, pos + 1)
    }
}

/// Extracts the slide texts of one slide's XML.
fn scan_slide_xml(xml: &str) -> (r: String)
    ensures
        r@ == atext_scan(xml@, 0),
{
    let n = xml.unicode_len();
    let mut pos: usize = 0;
    let mut out = String::new();
    while pos < n && n - pos >= 4
        invariant
            pos <= n,
            n == xml@.len(),
            atext_scan(xml@, 0) == out@ + atext_scan(xml@, pos as int),
        decreases n - pos,
    {
        let ghost sv = xml@;
        proof {
            reveal_strlit("<a:t");
            reveal_strlit("</a:t>");
            reveal_strlit("\n");
        }
        let is_open = xml.get_char(pos) == '<' && xml.get_char(pos + 1) == 'a' && xml.get_char(
            pos + 2,
        ) == ':' && xml.get_char(pos + 3) == 't';
        proof {
            assert("<a:t"@.len() == 4);
            if is_open {
                assert(sv.subrange(pos as int, pos + 4) =~= "<a:t"@);
            } else {
                assert(sv.subrange(pos as int, pos + 4) == "<a:t"@ ==> sv.subrange(
                    pos as int,
                    pos + 4,
                )[0] == '<' && sv.subrange(pos as int, pos + 4)[1] == 'a' && sv.subrange(
                    pos as int,
                    pos + 4,
                )[2] == ':' && sv.subrange(pos as int, pos + 4)[3] == 't');
            }
        }
        if !is_open {
            pos = pos + 1;
            continue ;
        }
        // find the end of the opening tag
        let g = match find_char_exec(xml, pos + 4, '>') {
            Some(g) => g,
            None => {
                proof {
                    assert(atext_scan(sv, pos as int) == atext_scan(sv, pos + 1));
                }
                pos = pos + 1;
                continue ;
            },
        };
        proof {
            lemma_find_char_bounds(sv, pos + 4, '>');
        }
        // find the end of the capture
        let l = match find_char_exec(xml, g + 1, '<') {
            Some(l) => l,
            None => {
                pos = pos + 1;
                continue ;
            },
        };
        proof {
            lemma_find_char_bounds(sv, g + 1, '<');
        }
        // the capture must be non-empty and closed by the end tag
        let closed = l > g + 1 && n - l >= 6 && xml.get_char(l) == '<' && xml.get_char(l + 1) == '/'
            && xml.get_char(l + 2) == 'a' && xml.get_char(l + 3) == ':' && xml.get_char(l + 4)
            == 't' && xml.get_char(l + 5) == '>';
        proof {
            assert("</a:t>"@.len() == 6);
            if l > g + 1 && n - l >= 6 {
                if closed {
                    assert(sv.subrange(l as int, l + 6) =~= "</a:t>"@);
                } else {
                    assert(sv.subrange(l as int, l + 6) == "</a:t>"@ ==> sv.subrange(
                        l as int,
                        l + 6,
                    )[0] == '<' && sv.subrange(l as int, l + 6)[1] == '/' && sv.subrange(
                        l as int,
                        l + 6,
                    )[2] == 'a' && sv.subrange(l as int, l + 6)[3] == ':' && sv.subrange(
                        l as int,
                        l + 6,
                    )[4] == 't' && sv.subrange(l as int, l + 6)[5] == '>');
                }
            }
        }
        if !closed {
            pos = pos + 1;
            continue ;
        }
        let cap = xml.substring_char(g + 1, l);
        out.append(cap);
        out.append("\n");
        proof {
            assert(atext_attempt(sv, pos as int) == Some((sv.subrange(g + 1, l as int), l + 6)));
        }
        pos = l + 6;
    }
    proof {
        assert(atext_scan(xml@, pos as int) =~= Seq::<char>::empty());
        assert(out@ + Seq::<char>::empty() =~= out@);
    }
    out
}

/// The walk of the container's entries from `i`, carrying the number of
/// slides seen and the text gathered so far: a slide entry contributes
/// its scanned text, preceded by a numbered separator when it is not
/// the first slide; an entry that cannot be opened stops the walk with
/// its error.
pub open spec fn pptx_walk(
    bytes: Seq<u8>,
    i: int,
    n: int,
    count: int,
    acc: Seq<char>,
) -> Result<Seq<char>, Seq<char>>
    decreases n - i,
{
    if i >= n {
        Ok(acc)
    } else {
        match zip_entry_name_of(bytes, i) {
            Err(m) => Err(m),
            Ok(name) => if is_slide_name(name) {
                match zip_entry_text_of(bytes, i) {
                    Err(m) => Err(m),
                    Ok(xml) => {
                        let acc2 = if count + 1 > 1 {
                            acc + "\n--- Slide "@ + dec_str((count + 1) as nat) + " ---\n"@
                        } else {
                            acc
                        };
                        pptx_walk(bytes, i + 1, n, count + 1, acc2 + atext_scan(xml, 0))
                    },
                }
            } else {
                pptx_walk(bytes, i + 1, n, count, acc)
            },
        }
    }
}

/// What PPTX extraction returns: the walked slide text, trimmed and
/// freed of NUL characters.
pub open spec fn pptx_outcome(bytes: Seq<u8>) -> Result<Seq<char>, Seq<char>> {
    match zip_count_result(bytes) {
        Err(m) => Err(m),
        Ok(n) => match pptx_walk(bytes, 0, n, 0, Seq::empty()) {
            Ok(t) => Ok(strip_nul_spec(trim_spec(t), 0)),
            Err(m) => Err(m),
        },
    }
}

/// Extracts the slide text of a PPTX presentation; a container or slide
/// that cannot be decoded surfaces as `ParseError`.
pub fn parse_pptx(data: &[u8]) -> (r: Result<String, ParserError>)
    ensures
        r matches Ok(t) ==> pptx_outcome(data@) == Ok::<Seq<char>, Seq<char>>(t@),
        r matches Err(e) ==> pptx_outcome(data@) matches Err(m) && e matches
            ParserError::ParseError(s) && s@ == m,
{
    let n = match zip_entry_count(data) {
        Ok(n) => n,
        Err(e) => {
            return Err(ParserError::ParseError(e));
        },
    };
    let mut text = String::new();
    let mut count: usize = 0;
    let mut i: usize = 0;
    while i < n
        invariant
            i <= n,
            count <= i,
            zip_count_result(data@) == Ok::<int, Seq<char>>(n as int),
            pptx_walk(data@, 0, n as int, 0, Seq::empty()) == pptx_walk(
                data@,
                i as int,
                n as int,
                count as int,
                text@,
            ),
        decreases n - i,
    {
        let name = match zip_entry_name(data, i) {
            Ok(name) => name,
            Err(e) => {
                return Err(ParserError::ParseError(e));
            },
        };
        if str_has_prefix(name.as_str(), "ppt/slides/slide") && str_has_suffix(
            name.as_str(),
            ".xml",
        ) {
            let xml = match zip_entry_text(data, i) {
                Ok(xml) => xml,
                Err(e) => {
                    return Err(ParserError::ParseError(e));
                },
            };
            count = count + 1;
            if count > 1 {
                text.append("\n--- Slide ");
                let num = usize_to_string(count);
                text.append(num.as_str());
                text.append(" ---\n");
            }
            let slide = scan_slide_xml(xml.as_str());
            text.append(slide.as_str());
        }
        i = i + 1;
    }
    let trimmed = trim_str(text.as_str());
    Ok(strip_nul_str(trimmed.as_str()))
}

} // verus!
