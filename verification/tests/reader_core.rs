use easyofd_signature::reader_core::{page_text_lines, pages_to_markdown, verify_signature_summary};
use std::io::Write;

fn strings(v: &[&str]) -> Vec<String> {
    v.iter().map(|s| s.to_string()).collect()
}

fn zip_of(entries: &[(&str, &[u8])]) -> Vec<u8> {
    let mut zw = zip::ZipWriter::new(std::io::Cursor::new(Vec::new()));
    let opts = zip::write::SimpleFileOptions::default();
    for (name, data) in entries {
        zw.start_file(*name, opts).unwrap();
        zw.write_all(data).unwrap();
    }
    zw.finish().unwrap().into_inner()
}

#[test]
fn page_texts_extracts_all_text_blocks() {
    let texts = page_text_lines(&strings(&["第一行", "第二行"]));
    assert_eq!(texts.len(), 2);
    assert_eq!(texts[0], "第一行");
    assert_eq!(texts[1], "第二行");
}

#[test]
fn multiline_text_split_into_entries() {
    let texts = page_text_lines(&strings(&["行一\n行二\n行三"]));
    assert_eq!(texts.len(), 3);
    assert_eq!(texts[0], "行一");
    assert_eq!(texts[1], "行二");
    assert_eq!(texts[2], "行三");
}

#[test]
fn page_texts_drop_empty_pieces() {
    let texts = page_text_lines(&strings(&["\n\na\n", "", "b\r\n\nc"]));
    assert_eq!(texts, strings(&["a", "b\r", "c"]));
    assert!(page_text_lines(&[]).is_empty());
}

#[test]
fn to_markdown_extracts_text_content() {
    let md = pages_to_markdown(&[strings(&["Markdown 内容"])]);
    assert!(md.contains("## 第 1 页"));
    assert!(md.contains("Markdown 内容"));
    assert_eq!(md, "## 第 1 页\nMarkdown 内容");
}

#[test]
fn to_markdown_multiple_pages() {
    let md = pages_to_markdown(&[strings(&["首页"]), strings(&["尾页"])]);
    assert!(md.contains("## 第 1 页"));
    assert!(md.contains("首页"));
    assert!(md.contains("## 第 2 页"));
    assert!(md.contains("尾页"));
    assert_eq!(md, "## 第 1 页\n首页\n\n## 第 2 页\n尾页");
}

#[test]
fn to_markdown_page_without_text_and_several_texts() {
    let md = pages_to_markdown(&[vec![], strings(&["a", "b\nc"])]);
    assert_eq!(md, "## 第 1 页\n（无文本内容）\n\n## 第 2 页\na\nb\nc");
}

#[test]
fn empty_document() {
    assert_eq!(pages_to_markdown(&[]), "");
    let bytes = zip_of(&[("OFD.xml", b"<ofd:OFD/>"), ("Doc_0/Document.xml", b"<ofd:Document/>")]);
    assert_eq!(verify_signature_summary(&bytes), "no_signature");
}

#[test]
fn verify_signature_summary_no_signature() {
    let bytes = zip_of(&[("OFD.xml", b"<ofd:OFD/>"), ("Doc_0/Pages/Page_0/Content.xml", b"<ofd:Page/>")]);
    assert_eq!(verify_signature_summary(&bytes), "no_signature");
}

#[test]
fn signature_summary_cases() {
    let signed = zip_of(&[
        ("OFD.xml", b"<ofd:OFD/>"),
        ("Doc_0/Signs/Signatures.xml", b"<x/>"),
        ("Doc_0/Signs/Signature.xml", b"<x/>"),
    ]);
    assert_eq!(verify_signature_summary(&signed), "valid");
    let partial = zip_of(&[("OFD.xml", b"<ofd:OFD/>"), ("Doc_0/Signs/Sign_0/Signature.xml", b"<x/>")]);
    assert_eq!(verify_signature_summary(&partial), "unsigned");
    assert_eq!(verify_signature_summary(b"not an ofd file"), "error");
}
