//! Tests of the parallel batch pipeline: order preservation, the
//! fail-fast rule, idempotence, and the end-to-end scenarios, the PDF
//! ones composed the way an application holding the engine does.

use parser_core::batch::{process_batch, reduce_outcomes, InputFiles, InputItem};
use parser_core::errors::ParserError;
use parser_core::parsers::parse;
use parser_core::parsers::pdf::finish_pdf_extraction;

/// Builds a small single-page PDF whose page shows the given text, with
/// a correct cross-reference table.
fn minimal_pdf(text: &str) -> Vec<u8> {
    let content = format!("BT /F1 18 Tf 36 740 Td ({}) Tj ET", text);
    let objects = vec![
        "<< /Type /Catalog /Pages 2 0 R >>".to_string(),
        "<< /Type /Pages /Kids [3 0 R] /Count 1 >>".to_string(),
        "<< /Type /Page /Parent 2 0 R /MediaBox [0 0 612 792] \
         /Resources << /Font << /F1 5 0 R >> >> /Contents 4 0 R >>"
            .to_string(),
        format!("<< /Length {} >> stream\n{}\nendstream", content.len(), content),
        "<< /Type /Font /Subtype /Type1 /BaseFont /Helvetica >>".to_string(),
    ];
    let mut out = String::new();
    out.push_str("%PDF-1.4\n");
    let mut offsets = Vec::new();
    for (i, obj) in objects.iter().enumerate() {
        offsets.push(out.len());
        out.push_str(&format!("{} 0 obj\n{}\nendobj\n", i + 1, obj));
    }
    let xref_pos = out.len();
    out.push_str(&format!("xref\n0 {}\n", objects.len() + 1));
    out.push_str("0000000000 65535 f \n");
    for off in &offsets {
        out.push_str(&format!("{:010} 00000 n \n", off));
    }
    out.push_str(&format!(
        "trailer\n<< /Size {} /Root 1 0 R >>\nstartxref\n{}\n%%EOF\n",
        objects.len() + 1,
        xref_pos
    ));
    out.into_bytes()
}

fn text_item(content: &str) -> InputItem {
    InputItem { bytes: content.as_bytes().to_vec(), filename: None }
}

/// The engine call as the application edge makes it.
fn engine_extract(data: &[u8]) -> Result<String, String> {
    pdf_extract::extract_text_from_mem(data).map_err(|e| e.to_string())
}

/// An Office container signature over a broken archive.
fn corrupt_office_container() -> Vec<u8> {
    let mut data = Vec::new();
    data.extend_from_slice(b"PK\x03\x04");
    data.extend_from_slice(&[20, 0, 0, 0, 8, 0, 0, 0, 0, 0]); // version, flags, deflate, time, date
    data.extend_from_slice(&[0, 0, 0, 0]); // crc
    data.extend_from_slice(&4u32.to_le_bytes()); // compressed size
    data.extend_from_slice(&100u32.to_le_bytes()); // uncompressed size
    data.extend_from_slice(&17u16.to_le_bytes()); // name length
    data.extend_from_slice(&[0, 0]); // extra length
    data.extend_from_slice(b"word/document.xml");
    data.extend_from_slice(&[0xde, 0xad, 0xbe, 0xef]); // garbage, no central directory
    data
}

#[test]
fn batch_preserves_input_order() {
    // many runs, so that different pool schedules are exercised
    let contents: Vec<String> = (0..24).map(|i| format!("text number {}", i)).collect();
    for _ in 0..100 {
        let items: Vec<InputItem> = contents.iter().map(|c| text_item(c)).collect();
        let texts = process_batch(items).unwrap();
        assert_eq!(texts.len(), contents.len());
        for (i, text) in texts.iter().enumerate() {
            assert_eq!(*text, contents[i]);
        }
    }
}

#[test]
fn batch_fails_fast_on_lowest_index() {
    // index 0 is a malformed container (a parse error), index 2 is
    // unclassifiable (an invalid-format error): the batch must surface
    // the index-0 error, never the index-2 one
    let items = vec![
        InputItem { bytes: corrupt_office_container(), filename: None },
        text_item("fine"),
        InputItem { bytes: vec![0xff, 0xfe, 0x80], filename: None },
    ];
    let result = process_batch(items);
    assert!(matches!(result, Err(ParserError::ParseError(_))));
}

#[test]
fn batch_error_is_error_of_failing_item() {
    let items = vec![
        text_item("fine"),
        InputItem { bytes: vec![0xff, 0xfe, 0x80], filename: None },
    ];
    let result = process_batch(items);
    assert!(matches!(result, Err(ParserError::InvalidFormat(_))));
}

#[test]
fn batch_is_idempotent() {
    let make_items = || {
        vec![
            text_item("alpha"),
            text_item("beta"),
            InputItem { bytes: corrupt_office_container(), filename: Some("x.txt".to_string()) },
        ]
    };
    let first = process_batch(make_items());
    let second = process_batch(make_items());
    match (first, second) {
        (Err(ParserError::ParseError(a)), Err(ParserError::ParseError(b))) => assert_eq!(a, b),
        _ => panic!("both runs must fail the same way"),
    }

    let ok_items = || vec![text_item("alpha"), text_item("beta")];
    assert_eq!(process_batch(ok_items()).unwrap(), process_batch(ok_items()).unwrap());
}

#[test]
fn pdf_parse_pdf_success() {
    let data = minimal_pdf("Hello, this is a test pdf for the parsing API.");
    let result = finish_pdf_extraction(engine_extract(&data)).unwrap();

    assert!(!result.is_empty());
    assert_eq!(result, "Hello, this is a test pdf for the parsing API.".to_string());
}

#[test]
fn pdf_engine_error_becomes_parse_error() {
    let result = finish_pdf_extraction(engine_extract(b"%PDF-1.4 this is not a real document"));
    assert!(matches!(result, Err(ParserError::ParseError(_))));
}

#[test]
fn batch_of_pdf_and_text_succeeds_in_order() {
    // a PDF with a known signature next to plain text content, composed
    // as the application edge does: the engine's outcome and the
    // library's, consolidated in input order
    let pdf = minimal_pdf("Hello, this is a test pdf for the parsing API.");
    let outcomes = vec![
        finish_pdf_extraction(engine_extract(&pdf)),
        parse("plain text content".as_bytes()),
    ];
    let texts = reduce_outcomes(outcomes).unwrap();
    assert_eq!(texts.len(), 2);
    assert_eq!(texts[0], "Hello, this is a test pdf for the parsing API.");
    assert_eq!(texts[1], "plain text content");
}

#[test]
fn corrupted_office_container_is_parse_error() {
    // the sniffer classifies the broken container, the extractor must
    // reject it
    let data = corrupt_office_container();
    let result = process_batch(vec![InputItem { bytes: data, filename: None }]);
    assert!(matches!(result, Err(ParserError::ParseError(_))));
}

#[test]
fn parsing_parse_success() {
    let files = vec![
        "Hello, this is a test txt for the parsing API.".as_bytes().to_vec(),
        "Hello, this is another test txt for the parsing API.".as_bytes().to_vec(),
    ];
    let result = InputFiles::new(files).parse().unwrap();

    assert_eq!(result.len(), 2);
    assert_eq!(
        result,
        vec![
            "Hello, this is a test txt for the parsing API.".to_string(),
            "Hello, this is another test txt for the parsing API.".to_string(),
        ]
    );
}

#[test]
fn filename_hint_reaches_the_dispatcher() {
    // without a signature, the filename decides: a DOCX extension sends
    // junk bytes to the DOCX extractor, which rejects them
    let items = vec![InputItem { bytes: vec![0u8, 1, 2], filename: Some("a.docx".to_string()) }];
    let result = process_batch(items);
    assert!(matches!(result, Err(ParserError::ParseError(_))));
}
