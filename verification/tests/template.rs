use easyofd_signature::ofd_template_filler::{fill_placeholders, OfdTemplateFiller};
use std::io::{Read, Write};

fn make_template(placeholders: &[&str]) -> Vec<u8> {
    let mut content = String::from("<?xml version=\"1.0\" encoding=\"UTF-8\"?><ofd:Page xmlns:ofd=\"http://www.ofdspec.org/2016\"><ofd:Content><ofd:Layer>");
    for p in placeholders {
        content.push_str(&format!("<ofd:TextObject><ofd:TextCode X=\"0\" Y=\"0\">{{{p}}}</ofd:TextCode></ofd:TextObject>"));
    }
    content.push_str("</ofd:Layer></ofd:Content></ofd:Page>");
    let mut zw = zip::ZipWriter::new(std::io::Cursor::new(Vec::new()));
    let opts = zip::write::SimpleFileOptions::default();
    zw.start_file("OFD.xml", opts).unwrap();
    zw.write_all(b"<ofd:OFD/>").unwrap();
    zw.start_file("Doc_0/Pages/Page_0/Content.xml", opts).unwrap();
    zw.write_all(content.as_bytes()).unwrap();
    zw.start_file("Doc_0/Res/image.png", opts).unwrap();
    zw.write_all(b"{name}").unwrap();
    zw.finish().unwrap().into_inner()
}

fn page_text(ofd: &[u8]) -> String {
    let mut za = zip::ZipArchive::new(std::io::Cursor::new(ofd)).unwrap();
    let mut f = za.by_name("Doc_0/Pages/Page_0/Content.xml").unwrap();
    let mut s = String::new();
    f.read_to_string(&mut s).unwrap();
    s
}

fn entry(ofd: &[u8], name: &str) -> Vec<u8> {
    let mut za = zip::ZipArchive::new(std::io::Cursor::new(ofd)).unwrap();
    let mut f = za.by_name(name).unwrap();
    let mut v = Vec::new();
    f.read_to_end(&mut v).unwrap();
    v
}

fn data(pairs: &[(&str, &str)]) -> Vec<(String, String)> {
    pairs.iter().map(|(k, v)| (k.to_string(), v.to_string())).collect()
}

#[test]
fn test_fill_single_placeholder() {
    let template = make_template(&["name"]);
    let filler = OfdTemplateFiller::fill_bytes(&template, &data(&[("name", "Alice")])).unwrap();
    let output = filler.into_bytes();
    let archive = zip::ZipArchive::new(std::io::Cursor::new(&output)).unwrap();
    assert!(!archive.is_empty());
    let text = page_text(&output);
    assert!(text.contains("Alice"));
    assert!(!text.contains("{name}"));
}

#[test]
fn test_fill_escapes_xml_values() {
    let template = make_template(&["value"]);
    let output = OfdTemplateFiller::fill_bytes(&template, &data(&[("value", "<A&B>")])).unwrap().into_bytes();
    assert!(page_text(&output).contains(">&lt;A&amp;B&gt;<"));
}

#[test]
fn test_fill_multiple_placeholders() {
    let template = make_template(&["title", "amount", "date"]);
    let d = data(&[("title", "Invoice #001"), ("amount", "$1,234.00"), ("date", "2026-01-15")]);
    let output = OfdTemplateFiller::fill_bytes(&template, &d).unwrap().into_bytes();
    let text = page_text(&output);
    assert!(text.contains("Invoice #001"));
    assert!(text.contains("$1,234.00"));
    assert!(text.contains("2026-01-15"));
    assert!(!text.contains("{title}"));
}

#[test]
fn test_fill_missing_key_preserves_placeholder() {
    let template = make_template(&["present", "missing"]);
    let output = OfdTemplateFiller::fill_bytes(&template, &data(&[("present", "value")])).unwrap().into_bytes();
    let text = page_text(&output);
    assert!(text.contains("value"));
    assert!(text.contains("{missing}"));
}

#[test]
fn fill_leaves_non_xml_files_alone() {
    let template = make_template(&["name"]);
    let output = OfdTemplateFiller::fill_bytes(&template, &data(&[("name", "Alice")])).unwrap().into_bytes();
    assert_eq!(entry(&output, "Doc_0/Res/image.png"), b"{name}".to_vec());
}

#[test]
fn fill_rejects_non_utf8_xml() {
    let mut zw = zip::ZipWriter::new(std::io::Cursor::new(Vec::new()));
    zw.start_file("Doc_0/Page.XML", zip::write::SimpleFileOptions::default()).unwrap();
    zw.write_all(&[0xFF, 0xFE]).unwrap();
    let template = zw.finish().unwrap().into_inner();
    match OfdTemplateFiller::fill_bytes(&template, &[]) {
        Err(e) => assert!(format!("{:?}", e).starts_with("Xml(\"Doc_0/Page.XML: ")),
        Ok(_) => panic!("expected an error"),
    }
}

#[test]
fn fill_rejects_non_zip() {
    assert!(OfdTemplateFiller::fill_bytes(b"plain", &[]).is_err());
}

#[test]
fn placeholders_are_replaced_in_order() {
    assert_eq!(fill_placeholders("{a}{b}{a}", &data(&[("a", "1"), ("b", "2")])), "121");
    assert_eq!(fill_placeholders("{a}", &data(&[("a", "{b}"), ("b", "x")])), "x");
    assert_eq!(fill_placeholders("{{a}}", &data(&[("a", "'")])), "{&apos;}");
}
