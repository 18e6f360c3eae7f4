//! Document parsing library: classifies opaque byte buffers by their
//! content, routes each to a format-specific text extractor, runs a
//! batch of such extractions concurrently, and consolidates the results
//! while preserving the caller's input order.

pub mod api;
pub mod batch;
pub mod catalog;
pub mod config;
pub mod container;
pub mod errors;
pub mod parsers;
pub mod sniff;
pub mod strutil;
pub mod test_utils;

pub use batch::{process_batch, InputFiles, InputItem};
pub use errors::ParserError;
pub use parsers::parse;
