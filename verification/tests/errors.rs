//! Tests of the error taxonomy: messages, status codes and the
//! conversion from pipeline errors to endpoint errors.

use parser_core::api::{reject_empty_batch, ApiError};
use parser_core::errors::ParserError;

#[test]
fn test_error_display() {
    // Test each error variant's message
    let io_err = ParserError::IoError("failed to read file".to_string());
    let parse_err = ParserError::ParseError("failed to parse content".to_string());
    let format_err = ParserError::InvalidFormat("invalid file format".to_string());

    assert_eq!(io_err.message(), "IO error: failed to read file");
    assert_eq!(parse_err.message(), "Parse error: failed to parse content");
    assert_eq!(format_err.message(), "Invalid format: invalid file format");
}

#[test]
fn errors_test_error_display() {
    // Test each endpoint error variant's message
    let bad_request = ApiError::BadRequest("invalid request".to_string());
    let internal_error = ApiError::InternalError("server error".to_string());

    assert_eq!(bad_request.message(), "Bad Request: invalid request");
    assert_eq!(internal_error.message(), "Internal Error: server error");
}

#[test]
fn errors_test_status_codes() {
    // Test each endpoint error variant's status code
    assert_eq!(ApiError::BadRequest("test".to_string()).status_code(), 400);
    assert_eq!(ApiError::InternalError("test".to_string()).status_code(), 500);
    assert_eq!(ApiError::ConfigError("test".to_string()).status_code(), 500);
}

#[test]
fn error_response_carries_message() {
    let e = ApiError::BadRequest("no files provided".to_string());
    let body = e.error_response();
    assert_eq!(body.message, "Bad Request: no files provided");
}

#[test]
fn from_parser_maps_kinds() {
    let invalid = ParserError::InvalidFormat("mystery bytes".to_string());
    let api = ApiError::from_parser(invalid);
    assert_eq!(api.status_code(), 400);
    assert_eq!(api.message(), "Bad Request: Invalid format: mystery bytes");

    let broken = ParserError::ParseError("bad stream".to_string());
    let api = ApiError::from_parser(broken);
    assert_eq!(api.status_code(), 500);
    assert_eq!(api.message(), "Internal Error: Parse error: bad stream");

    let io = ParserError::IoError("disk gone".to_string());
    let api = ApiError::from_parser(io);
    assert_eq!(api.status_code(), 500);
    assert_eq!(api.message(), "Internal Error: IO error: disk gone");
}

#[test]
fn empty_batch_rejected() {
    let e = reject_empty_batch(0).unwrap();
    assert_eq!(e.status_code(), 400);
    assert_eq!(e.message(), "Bad Request: No files provided");
    assert!(reject_empty_batch(3).is_none());
}
