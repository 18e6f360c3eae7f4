//! Tests of the single-buffer pipeline: text extraction, rejection of
//! unclassifiable inputs, and the shared path helpers.

use parser_core::errors::ParserError;
use parser_core::parsers::parse;
use parser_core::test_utils::{test_file_path, test_inputs_dir};

#[test]
fn parsers_parse_success() {
    // Already tested in the specific parser tests
    // Test case for coverage only
}

#[test]
fn text_parse_txt_success() {
    let data = "Hello, this is a test txt for the parsing API.".as_bytes();
    let result = parse(data).unwrap();

    assert!(!result.is_empty());
    assert_eq!(result, "Hello, this is a test txt for the parsing API.".to_string());
}

#[test]
fn text_parse_csv_success() {
    let content = "Username; Identifier;First name;Last name
booker12;9012;Rachel;Booker
grey07;2070;Laura;Grey";
    let result = parse(content.as_bytes()).unwrap();

    assert!(!result.is_empty());
    assert_eq!(result, content.to_string());
}

#[test]
fn text_parse_json_success() {
    let content = r#"{
    "name": "John Doe",
    "age": 30,
    "email": "john@example.com"
}"#;
    let result = parse(content.as_bytes()).unwrap();

    assert!(!result.is_empty());
    assert_eq!(result, content.to_string());
}

#[test]
fn unknown_bytes_rejected() {
    // random bytes with no signature and no UTF-8 decoding
    let data = [0xfe, 0xff, 0x00, 0xd8, 0x92, 0x13];
    let result = parse(&data);
    assert!(matches!(result, Err(ParserError::InvalidFormat(_))));
}

#[test]
fn empty_buffer_is_empty_text() {
    assert_eq!(parse(b"").unwrap(), "");
}

#[test]
fn pdf_rejected_without_engine() {
    // classified as PDF, but the engine runs at the application edge
    let result = parse(b"%PDF-1.4 this is not a real document");
    assert!(matches!(result, Err(ParserError::InvalidFormat(_))));
}

#[test]
fn embedded_nul_rejected() {
    // valid UTF-8, but extracted text carries no embedded NUL
    let result = parse(b"abc\x00def");
    assert!(matches!(result, Err(ParserError::ParseError(_))));
}

#[test]
fn image_without_ocr_engine_rejected() {
    // classified as an image, but no OCR extractor is registered
    let result = parse(b"\x89PNG\r\n\x1a\npixels");
    assert!(matches!(result, Err(ParserError::InvalidFormat(_))));
}

#[test]
fn test_paths() {
    assert_eq!(test_inputs_dir(), "tests/assets");
    assert_eq!(test_file_path("sample.pdf"), "tests/assets/sample.pdf");
}
