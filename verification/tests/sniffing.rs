//! Tests of the format sniffer: signature matches, ZIP-interior
//! refinement of the Office container, filename hints and the UTF-8
//! fallback.

use parser_core::catalog::DetectedFormat;
use parser_core::sniff::sniff;

/// A ZIP local file header for one stored (uncompressed) entry.
fn zip_local_entry(name: &str, data: &[u8]) -> Vec<u8> {
    let mut out = Vec::new();
    out.extend_from_slice(b"PK\x03\x04");
    out.extend_from_slice(&[20, 0]); // version needed
    out.extend_from_slice(&[0, 0]); // flags
    out.extend_from_slice(&[0, 0]); // method: stored
    out.extend_from_slice(&[0, 0, 0, 0]); // time and date
    out.extend_from_slice(&[0, 0, 0, 0]); // crc
    out.extend_from_slice(&(data.len() as u32).to_le_bytes()); // compressed size
    out.extend_from_slice(&(data.len() as u32).to_le_bytes()); // uncompressed size
    out.extend_from_slice(&(name.len() as u16).to_le_bytes());
    out.extend_from_slice(&[0, 0]); // extra length
    out.extend_from_slice(name.as_bytes());
    out.extend_from_slice(data);
    out
}

#[test]
fn pdf_signature_detected() {
    assert_eq!(sniff(b"%PDF-1.7 junk", None), DetectedFormat::Pdf);
}

#[test]
fn signature_overrides_extension_hint() {
    // a PDF header with a text filename still classifies as PDF
    assert_eq!(sniff(b"%PDF-1.4 junk", Some("notes.txt")), DetectedFormat::Pdf);
}

#[test]
fn image_signatures_detected() {
    assert_eq!(sniff(b"\x89PNG\r\n\x1a\nrest", None), DetectedFormat::Image);
    assert_eq!(sniff(b"\xff\xd8\xffrest", None), DetectedFormat::Image);
    let mut webp = Vec::new();
    webp.extend_from_slice(b"RIFF\x10\x00\x00\x00WEBPdata");
    assert_eq!(sniff(&webp, None), DetectedFormat::Image);
    assert_eq!(sniff(b"GIF89a", None), DetectedFormat::Image);
    assert_eq!(sniff(b"II*\x00rest", None), DetectedFormat::Image);
    assert_eq!(sniff(b"MM\x00*rest", None), DetectedFormat::Image);
}

#[test]
fn office_containers_refined_by_interior() {
    let mut docx = zip_local_entry("[Content_Types].xml", b"types");
    docx.extend_from_slice(&zip_local_entry("word/document.xml", b"doc"));
    assert_eq!(sniff(&docx, None), DetectedFormat::Docx);

    let mut xlsx = zip_local_entry("[Content_Types].xml", b"types");
    xlsx.extend_from_slice(&zip_local_entry("xl/workbook.xml", b"wb"));
    assert_eq!(sniff(&xlsx, None), DetectedFormat::Xlsx);

    let mut pptx = zip_local_entry("_rels/.rels", b"rels");
    pptx.extend_from_slice(&zip_local_entry("ppt/presentation.xml", b"p"));
    assert_eq!(sniff(&pptx, None), DetectedFormat::Pptx);
}

#[test]
fn plain_zip_stays_unknown() {
    let zip = zip_local_entry("notes/readme.md", b"hi");
    assert_eq!(sniff(&zip, None), DetectedFormat::Unknown);
}

#[test]
fn extension_hint_used_without_signature() {
    assert_eq!(sniff(b"\x00\x01\x02", Some("report.pdf")), DetectedFormat::Pdf);
    assert_eq!(sniff(b"\x00\x01\x02", Some("REPORT.PDF")), DetectedFormat::Pdf);
    assert_eq!(sniff(b"\x00\x01\x02", Some("a.docx")), DetectedFormat::Docx);
    assert_eq!(sniff(b"\x00\x01\x02", Some("a.XlSx")), DetectedFormat::Xlsx);
    assert_eq!(sniff(b"\x00\x01\x02", Some("deck.pptx")), DetectedFormat::Pptx);
    assert_eq!(sniff(b"\x00\x01\x02", Some("pic.jpeg")), DetectedFormat::Image);
    assert_eq!(sniff(b"\x00\x01\x02", Some("pic.webp")), DetectedFormat::Image);
}

#[test]
fn unhelpful_names_fall_through() {
    // no dot, unknown extension, or no name at all
    assert_eq!(sniff(b"plain words", Some("README")), DetectedFormat::Text);
    assert_eq!(sniff(b"plain words", Some("data.bin")), DetectedFormat::Text);
    assert_eq!(sniff(b"\x80\x81", Some("data.bin")), DetectedFormat::Unknown);
}

#[test]
fn utf8_fallback_and_unknown() {
    assert_eq!(sniff("Hello, world".as_bytes(), None), DetectedFormat::Text);
    assert_eq!(sniff("héllo ünïcode…".as_bytes(), None), DetectedFormat::Text);
    // 0xff can never appear in UTF-8
    assert_eq!(sniff(&[0xff, 0x00, 0x41], None), DetectedFormat::Unknown);
    // a lone continuation byte is not UTF-8
    assert_eq!(sniff(&[0x80], None), DetectedFormat::Unknown);
    // an overlong encoding of '/' is rejected
    assert_eq!(sniff(&[0xc0, 0xaf], None), DetectedFormat::Unknown);
    // a surrogate encoding is rejected
    assert_eq!(sniff(&[0xed, 0xa0, 0x80], None), DetectedFormat::Unknown);
    // a truncated two-byte sequence is rejected
    assert_eq!(sniff(&[0xc3], None), DetectedFormat::Unknown);
}

#[test]
fn empty_buffer_is_text() {
    assert_eq!(sniff(b"", None), DetectedFormat::Text);
}

/// A ZIP local file header that defers its sizes to a data descriptor
/// (general-purpose flag bit 3), holding an empty entry.
fn zip_streaming_entry(name: &str) -> Vec<u8> {
    let mut out = Vec::new();
    out.extend_from_slice(b"PK\x03\x04");
    out.extend_from_slice(&[20, 0]); // version needed
    out.extend_from_slice(&[8, 0]); // flags: sizes in the data descriptor
    out.extend_from_slice(&[0, 0]); // method: stored
    out.extend_from_slice(&[0, 0, 0, 0]); // time and date
    out.extend_from_slice(&[0, 0, 0, 0]); // crc: deferred
    out.extend_from_slice(&[0, 0, 0, 0]); // compressed size: deferred
    out.extend_from_slice(&[0, 0, 0, 0]); // uncompressed size: deferred
    out.extend_from_slice(&(name.len() as u16).to_le_bytes());
    out.extend_from_slice(&[0, 0]); // extra length
    out.extend_from_slice(name.as_bytes());
    // the (empty) data, then the descriptor
    out.extend_from_slice(b"PK\x07\x08");
    out.extend_from_slice(&[0, 0, 0, 0]); // crc of the empty data
    out.extend_from_slice(&[0, 0, 0, 0]); // compressed size
    out.extend_from_slice(&[0, 0, 0, 0]); // uncompressed size
    out
}

/// A central-directory header for one of the entries above.
fn zip_central_header(name: &str, flags: u16, offset: u32) -> Vec<u8> {
    let mut out = Vec::new();
    out.extend_from_slice(b"PK\x01\x02");
    out.extend_from_slice(&[20, 0, 20, 0]); // versions made by and needed
    out.extend_from_slice(&flags.to_le_bytes());
    out.extend_from_slice(&[0, 0]); // method: stored
    out.extend_from_slice(&[0, 0, 0, 0]); // time and date
    out.extend_from_slice(&[0, 0, 0, 0]); // crc
    out.extend_from_slice(&[0, 0, 0, 0]); // compressed size
    out.extend_from_slice(&[0, 0, 0, 0]); // uncompressed size
    out.extend_from_slice(&(name.len() as u16).to_le_bytes());
    out.extend_from_slice(&[0, 0, 0, 0]); // extra and comment lengths
    out.extend_from_slice(&[0, 0, 0, 0]); // disk start, internal attributes
    out.extend_from_slice(&[0, 0, 0, 0]); // external attributes
    out.extend_from_slice(&offset.to_le_bytes());
    out.extend_from_slice(name.as_bytes());
    out
}

#[test]
fn data_descriptor_container_refined_by_central_directory() {
    // the first local header defers its sizes, so the local-header walk
    // cannot pass it; the central directory still names the xl/ part
    let mut data = zip_streaming_entry("[Content_Types].xml");
    let off1 = data.len() as u32;
    data.extend_from_slice(&zip_local_entry("xl/workbook.xml", b""));
    let cd_offset = data.len() as u32;
    let mut cd = zip_central_header("[Content_Types].xml", 8, 0);
    cd.extend_from_slice(&zip_central_header("xl/workbook.xml", 0, off1));
    let cd_size = cd.len() as u32;
    data.extend_from_slice(&cd);
    data.extend_from_slice(b"PK\x05\x06");
    data.extend_from_slice(&[0, 0, 0, 0]); // disk numbers
    data.extend_from_slice(&[2, 0, 2, 0]); // entries on this disk, in total
    data.extend_from_slice(&cd_size.to_le_bytes());
    data.extend_from_slice(&cd_offset.to_le_bytes());
    data.extend_from_slice(&[0, 0]); // comment length
    assert_eq!(sniff(&data, None), DetectedFormat::Xlsx);
}
