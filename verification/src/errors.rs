//! Error taxonomy of the parsing pipeline.
//!
//! Every failure of the pipeline is one of three kinds: an I/O failure, a
//! decoding failure inside a recognized format, or an input whose format
//! could not be classified.

use vstd::prelude::*;

verus! {

/// An error produced while turning a byte buffer into text.
#[derive(Debug)]
pub enum ParserError {
    /// Reading or writing bytes failed.
    IoError(String),
    /// The format was recognized but its content could not be decoded.
    ParseError(String),
    /// The input could not be classified, or no extractor is registered
    /// for its format.
    InvalidFormat(String),
}

impl ParserError {
    /// The human-readable message of this error, with its kind as a prefix.
    pub fn message(&self) -> (r: String)
        ensures
            r@ == self.spec_message(),
    {
        match self {
            ParserError::IoError(msg) => String::from_str("IO error: ").concat(msg.as_str()),
            ParserError::ParseError(msg) => String::from_str("Parse error: ").concat(
                msg.as_str(),
            ),
            ParserError::InvalidFormat(msg) => String::from_str("Invalid format: ").concat(
                msg.as_str(),
            ),
        }
    }

    /// What `message` returns: the kind's prefix followed by the detail text.
    pub open spec fn spec_message(&self) -> Seq<char> {
        match self {
            ParserError::IoError(msg) => "IO error: "@ + msg@,
            ParserError::ParseError(msg) => "Parse error: "@ + msg@,
            ParserError::InvalidFormat(msg) => "Invalid format: "@ + msg@,
        }
    }
}

/// The mathematical shape of a `ParserError`: its kind and message.
pub enum SpecError {
    Io(Seq<char>),
    Parse(Seq<char>),
    Invalid(Seq<char>),
}

/// The model of an error value.
pub open spec fn err_view(e: ParserError) -> SpecError {
    match e {
        ParserError::IoError(m) => SpecError::Io(m@),
        ParserError::ParseError(m) => SpecError::Parse(m@),
        ParserError::InvalidFormat(m) => SpecError::Invalid(m@),
    }
}

/// The model of a result whose two sides are plain strings.
pub open spec fn str_result_view(r: Result<String, String>) -> Result<Seq<char>, Seq<char>> {
    match r {
        Ok(t) => Ok(t@),
        Err(e) => Err(e@),
    }
}

/// The model of an extraction outcome.
pub open spec fn outcome_view(r: Result<String, ParserError>) -> Result<Seq<char>, SpecError> {
    match r {
        Ok(s) => Ok(s@),
        Err(e) => Err(err_view(e)),
    }
}

} // verus!
