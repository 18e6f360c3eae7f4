//! Tests of the XLSX extractor on workbooks built in memory.

use std::io::Write;

use parser_core::parsers::parse;

const PACKAGE_RELS: &str = r#"<?xml version="1.0" encoding="UTF-8" standalone="yes"?>
<Relationships xmlns="http://schemas.openxmlformats.org/package/2006/relationships">
<Relationship Id="rId1" Type="http://schemas.openxmlformats.org/officeDocument/2006/relationships/officeDocument" Target="xl/workbook.xml"/>
</Relationships>"#;

fn workbook_xml(sheets: &[&str]) -> String {
    let mut entries = String::new();
    for (i, name) in sheets.iter().enumerate() {
        entries.push_str(&format!(
            r#"<sheet name="{}" sheetId="{}" r:id="rId{}"/>"#,
            name,
            i + 1,
            i + 1
        ));
    }
    format!(
        r#"<?xml version="1.0" encoding="UTF-8" standalone="yes"?>
<workbook xmlns="http://schemas.openxmlformats.org/spreadsheetml/2006/main" xmlns:r="http://schemas.openxmlformats.org/officeDocument/2006/relationships">
<sheets>{}</sheets>
</workbook>"#,
        entries
    )
}

fn workbook_rels(n: usize) -> String {
    let mut entries = String::new();
    for i in 0..n {
        entries.push_str(&format!(
            r#"<Relationship Id="rId{}" Type="http://schemas.openxmlformats.org/officeDocument/2006/relationships/worksheet" Target="worksheets/sheet{}.xml"/>"#,
            i + 1,
            i + 1
        ));
    }
    format!(
        r#"<?xml version="1.0" encoding="UTF-8" standalone="yes"?>
<Relationships xmlns="http://schemas.openxmlformats.org/package/2006/relationships">{}</Relationships>"#,
        entries
    )
}

/// One worksheet: rows of cells, each cell either an inline string or a
/// number.
fn sheet_xml(rows: &[Vec<&str>]) -> String {
    let mut body = String::new();
    for (r, row) in rows.iter().enumerate() {
        body.push_str(&format!(r#"<row r="{}">"#, r + 1));
        for (c, cell) in row.iter().enumerate() {
            let col = (b'A' + c as u8) as char;
            if cell.chars().all(|ch| ch.is_ascii_digit()) {
                body.push_str(&format!(r#"<c r="{}{}"><v>{}</v></c>"#, col, r + 1, cell));
            } else {
                body.push_str(&format!(
                    r#"<c r="{}{}" t="inlineStr"><is><t>{}</t></is></c>"#,
                    col,
                    r + 1,
                    cell
                ));
            }
        }
        body.push_str("</row>");
    }
    format!(
        r#"<?xml version="1.0" encoding="UTF-8" standalone="yes"?>
<worksheet xmlns="http://schemas.openxmlformats.org/spreadsheetml/2006/main">
<sheetData>{}</sheetData>
</worksheet>"#,
        body
    )
}

/// Packs a workbook with the given sheets into an XLSX container.
fn build_xlsx(sheets: &[(&str, Vec<Vec<&str>>)]) -> Vec<u8> {
    let mut cursor = std::io::Cursor::new(Vec::new());
    let mut writer = zip::write::ZipWriter::new(&mut cursor);
    let options = zip::write::SimpleFileOptions::default();
    writer.start_file("xl/workbook.xml", options).unwrap();
    let names: Vec<&str> = sheets.iter().map(|s| s.0).collect();
    writer.write_all(workbook_xml(&names).as_bytes()).unwrap();
    writer.start_file("_rels/.rels", options).unwrap();
    writer.write_all(PACKAGE_RELS.as_bytes()).unwrap();
    writer.start_file("xl/_rels/workbook.xml.rels", options).unwrap();
    writer.write_all(workbook_rels(sheets.len()).as_bytes()).unwrap();
    for (i, (_, rows)) in sheets.iter().enumerate() {
        writer.start_file(format!("xl/worksheets/sheet{}.xml", i + 1), options).unwrap();
        writer.write_all(sheet_xml(rows).as_bytes()).unwrap();
    }
    writer.finish().unwrap();
    cursor.into_inner()
}

#[test]
fn xlsx_parse_xlsx_single_sheet_success() {
    let data = build_xlsx(&[(
        "Sheet1",
        vec![
            vec!["username", "identifier", "first_name"],
            vec!["johndoe123", "4281", "John"],
            vec!["alice23", "8425", "Alice"],
        ],
    )]);
    let result = parse(&data).unwrap();

    assert!(!result.is_empty());
    assert_eq!(
        result,
        "username,identifier,first_name
johndoe123,4281,John
alice23,8425,Alice"
            .to_string()
    );
}

#[test]
fn xlsx_parse_xlsx_multiple_sheets_success() {
    let data = build_xlsx(&[
        (
            "Sheet1",
            vec![
                vec!["username", "identifier", "first_name"],
                vec!["alice23", "8425", "Alice"],
            ],
        ),
        (
            "Sheet2",
            vec![
                vec!["username", "identifier", "first_name"],
                vec!["johndoe123", "4281", "John"],
            ],
        ),
    ]);
    let result = parse(&data).unwrap();

    assert!(!result.is_empty());
    assert_eq!(
        result,
        "username,identifier,first_name
alice23,8425,Alice
--- Sheet: Sheet2 ---
username,identifier,first_name
johndoe123,4281,John"
            .to_string()
    );
}
