//! PDF handling.  Decoding PDF content streams needs an engine that
//! aborts, rather than errs, on some malformed documents, and this
//! library's verified functions do not panic; no contract admitting
//! every buffer can be true of such a call, so the engine runs at the
//! application edge, where ordinary code catches the unwind and maps it
//! to an error.  The library's own capability set registers no PDF
//! extractor: the dispatcher rejects a PDF input with `InvalidFormat`,
//! and a caller that holds the engine classifies with `sniff`, runs the
//! engine itself, finishes the text with `finish_pdf_extraction`, and
//! consolidates with `reduce_outcomes`.

use vstd::prelude::*;

use crate::errors::{str_result_view, ParserError};
use crate::strutil::{strip_nul_spec, strip_nul_str, trim_spec, trim_str};

verus! {

/// The message a PDF input is rejected with.
pub open spec fn pdf_rejection_msg() -> Seq<char> {
    "no extractor is registered for PDF input"@
}

/// Rejects a PDF input: the engine runs at the application edge.
pub fn parse_pdf(data: &[u8]) -> (r: Result<String, ParserError>)
    ensures
        r matches Err(e) && e matches ParserError::InvalidFormat(s) && s@ == pdf_rejection_msg(),
        r is Err,
{
    Err(ParserError::InvalidFormat(String::from_str("no extractor is registered for PDF input")))
}

/// What finishing an engine outcome returns: the engine's text, trimmed
/// of surrounding whitespace and with NUL characters removed, or the
/// engine's error text.
pub open spec fn pdf_finish_outcome(engine: Result<Seq<char>, Seq<char>>) -> Result<
    Seq<char>,
    Seq<char>,
> {
    match engine {
        Ok(t) => Ok(strip_nul_spec(trim_spec(t), 0)),
        Err(m) => Err(m),
    }
}

/// Finishes what the PDF engine handed back: the text trimmed and freed
/// of NUL characters, or the engine's error as a `ParseError`.
pub fn finish_pdf_extraction(engine: Result<String, String>) -> (r: Result<String, ParserError>)
    ensures
        r matches Ok(t) ==> pdf_finish_outcome(str_result_view(engine)) == Ok::<
            Seq<char>,
            Seq<char>,
        >(t@),
        r matches Err(e) ==> pdf_finish_outcome(str_result_view(engine)) matches Err(m) && e
            matches ParserError::ParseError(s) && s@ == m,
        r is Ok <==> engine is Ok,
{
    match engine {
        Ok(t) => {
            let trimmed = trim_str(t.as_str());
            Ok(strip_nul_str(trimmed.as_str()))
        },
        Err(e) => Err(ParserError::ParseError(e)),
    }
}

} // verus!
