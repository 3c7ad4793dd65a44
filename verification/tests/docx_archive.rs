use std::io::Write;

use openfang_runtime::document_format::{docx_document_xml, extract_docx_text};

fn zip_of(entries: &[(&str, &str)]) -> Vec<u8> {
    let mut w = zip::ZipWriter::new(std::io::Cursor::new(Vec::new()));
    for (name, body) in entries {
        w.start_file(*name, zip::write::SimpleFileOptions::default()).unwrap();
        w.write_all(body.as_bytes()).unwrap();
    }
    w.finish().unwrap().into_inner()
}

#[test]
fn docx_text_runs_from_archive() {
    let bytes = zip_of(&[
        ("[Content_Types].xml", "<Types/>"),
        ("word/document.xml", "<w:p><w:r><w:t>Hello</w:t></w:r><w:r><w:t xml:space=\"preserve\">world</w:t></w:r></w:p>"),
        ("word/styles.xml", "<w:t>not read</w:t>"),
    ]);
    assert_eq!(extract_docx_text(&bytes), Ok("Hello world".to_string()));
    assert!(docx_document_xml(&bytes).unwrap().starts_with("<w:p>"));
}

#[test]
fn docx_without_main_part() {
    let bytes = zip_of(&[("word/other.xml", "<w:t>x</w:t>")]);
    assert_eq!(docx_document_xml(&bytes), Ok(String::new()));
    assert_eq!(extract_docx_text(&bytes), Err("docx: missing word/document.xml".to_string()));
    let empty_main = zip_of(&[("word/document.xml", "")]);
    assert_eq!(extract_docx_text(&empty_main), Err("docx: missing word/document.xml".to_string()));
}

#[test]
fn docx_that_is_not_a_zip() {
    let e = extract_docx_text(b"plain text, not an archive").unwrap_err();
    assert!(e.starts_with("docx zip: "), "got {e}");
}
