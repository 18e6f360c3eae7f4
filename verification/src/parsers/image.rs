//! Image handling.  Turning an image into text needs an OCR engine,
//! which runs as an external process at the application edge, outside
//! this library; the library's own capability set registers no
//! extractor for images, so the dispatcher rejects an image input with
//! `InvalidFormat`.  A caller that holds an engine classifies with
//! `sniff`, runs the engine on image-classified buffers itself, and
//! consolidates with `reduce_outcomes`.

use vstd::prelude::*;

use crate::errors::ParserError;

verus! {

/// The message an image input is rejected with.
pub open spec fn image_rejection_msg() -> Seq<char> {
    "no extractor is registered for image input"@
}

/// Rejects an image input: the pipeline classifies images but registers
/// no OCR extractor for them.
pub fn parse_image(data: &[u8]) -> (r: Result<String, ParserError>)
    ensures
        r matches Err(e) && e matches ParserError::InvalidFormat(s) && s@ == image_rejection_msg(),
        r is Err,
{
    Err(ParserError::InvalidFormat(String::from_str("no extractor is registered for image input")))
}

} // verus!
