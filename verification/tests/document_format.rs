use openfang_runtime::document_format::{
    docx_text_from_xml, document_kind, document_size_error, extraction_limits,
    extraction_output, sheet_heading, sheet_name, sheet_shape_error, sheet_window,
    spreadsheet_header, spreadsheet_request_error, spreadsheet_row_line,
    spreadsheet_written_message, string_cell, truncate_output, DocKind, MAX_OUTPUT_CHARS,
};

#[test]
fn output_cap_keeps_short_and_cuts_long() {
    assert_eq!(truncate_output("short".to_string()), "short");
    let long = "a".repeat(MAX_OUTPUT_CHARS + 10);
    let out = truncate_output(long);
    assert!(out.starts_with(&"a".repeat(MAX_OUTPUT_CHARS)));
    assert!(out.ends_with("\n\n[Output truncated to 450000 characters.]"));
    assert_eq!(out.len(), MAX_OUTPUT_CHARS + "\n\n[Output truncated to 450000 characters.]".len());
}

#[test]
fn limits_are_defaulted_and_clamped() {
    assert_eq!(extraction_limits(None, None, None), (8, 400, 40));
    assert_eq!(extraction_limits(Some(0), Some(99999), Some(50)), (1, 2000, 50));
}

#[test]
fn kinds_by_extension() {
    assert_eq!(document_kind("/tmp/report.xlsx"), Ok(DocKind::Spreadsheet));
    assert_eq!(document_kind("a/b.ods"), Ok(DocKind::Spreadsheet));
    assert_eq!(document_kind("a/b.pdf"), Ok(DocKind::Pdf));
    assert_eq!(document_kind("a/b.docx"), Ok(DocKind::Docx));
    assert_eq!(
        document_kind("notes.txt"),
        Err("Unsupported extension 'txt'. Use document_extract with .xlsx, .xls, .xlsb, .ods, .pdf, or .docx.".to_string())
    );
    assert!(document_kind("README").unwrap_err().starts_with("Unsupported extension ''"));
}

#[test]
fn size_limit_and_header() {
    assert!(document_size_error(20 * 1024 * 1024).is_none());
    assert_eq!(
        document_size_error(20 * 1024 * 1024 + 1).as_deref(),
        Some("File too large (20971521 bytes; max 20 MB).")
    );
    assert_eq!(extraction_output("x.pdf", "hello"), "document_extract: x.pdf\n---\nhello");
}

#[test]
fn spreadsheet_text_layout() {
    assert_eq!(
        spreadsheet_header(3, 8),
        "Format: spreadsheet (3 sheet(s) total; showing up to 8).\nNote: extracted values are usually cached results; original Excel formulas may not appear.\n\n"
    );
    assert_eq!(sheet_heading("Q1"), "## Sheet: Q1\n");
    let row = vec!["a".to_string(), "b\tc".to_string(), "say \"hi\"\n".to_string(), "".to_string()];
    assert_eq!(spreadsheet_row_line(&row), "a\t\"b\tc\"\t\"say \"\"hi\"\"\n\"\t\n");
    let (r, c, note) = sheet_window(500, 10, 400, 40);
    assert_eq!((r, c), (400, 10));
    assert_eq!(note.as_deref(), Some("(truncated: sheet size 500×10, showing 400×10)\n"));
    assert!(sheet_window(5, 5, 400, 40).2.is_none());
}

#[test]
fn docx_runs_are_joined() {
    let xml = "<w:p><w:r><w:t>Hello</w:t></w:r><w:r><w:t xml:space=\"preserve\">world</w:t></w:r></w:p>";
    assert_eq!(docx_text_from_xml(xml), Ok("Hello world".to_string()));
    assert_eq!(docx_text_from_xml(""), Err("docx: missing word/document.xml".to_string()));
}

#[test]
fn spreadsheet_build_checks() {
    assert_eq!(spreadsheet_request_error(0, "a.xlsx").as_deref(), Some("sheets must contain at least one sheet"));
    assert_eq!(spreadsheet_request_error(33, "a.xlsx").as_deref(), Some("Too many sheets (max 32)"));
    assert_eq!(spreadsheet_request_error(1, "a.csv").as_deref(), Some("path must end with .xlsx"));
    assert!(spreadsheet_request_error(1, "OUT.XLSX").is_none());
    assert_eq!(sheet_name(None, 3), "Sheet1");
    assert_eq!(sheet_name(Some(""), 3), "Sheet4");
    assert_eq!(sheet_name(Some("Data"), 0), "Data");
    assert!(sheet_shape_error(10001, 1).unwrap().contains("rows"));
    assert!(sheet_shape_error(1, 513).unwrap().contains("columns"));
    assert!(sheet_shape_error(10, 10).is_none());
    assert_eq!(string_cell("  =SUM(A1:A3) "), (true, "=SUM(A1:A3)".to_string()));
    assert_eq!(string_cell(" x "), (false, "x".to_string()));
    assert_eq!(spreadsheet_written_message("/w/a.xlsx"), "Wrote spreadsheet to /w/a.xlsx");
}

#[test]
fn kinds_follow_the_last_dot_of_the_file_name() {
    assert!(document_kind("/tmp/.xlsx").unwrap_err().starts_with("Unsupported extension ''"));
    assert_eq!(document_kind("dir.pdf/report.v2.docx"), Ok(DocKind::Docx));
    assert_eq!(document_kind("report.pdf/."), Ok(DocKind::Pdf));
    assert!(document_kind("report.pdf/..").unwrap_err().starts_with("Unsupported extension ''"));
}
