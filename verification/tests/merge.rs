use std::io::{Read, Write};
use easyofd_signature::merge::bare_ofd_doc::BareOFDDoc;
use easyofd_signature::merge::doc_context::DocContext;
use easyofd_signature::merge::page_entry::PageEntry;
use easyofd_signature::merge::resource_dedup::ResourceDedup;
use easyofd_signature::page_deleter::OfdPageDeleter;

#[test]
fn new_doc() {
    let doc = BareOFDDoc::new("/tmp/test.ofd", 5);
    assert_eq!(doc.path(), "/tmp/test.ofd");
    assert_eq!(doc.page_count(), 5);
}

#[test]
fn clone_doc() {
    let doc = BareOFDDoc::new("/tmp/a.ofd", 3);
    let cloned = doc.clone();
    assert_eq!(cloned.path(), "/tmp/a.ofd");
    assert_eq!(cloned.page_count(), 3);
}

#[test]
fn new_is_empty() {
    let ctx = DocContext::new();
    assert_eq!(ctx.source_count(), 0);
    assert_eq!(ctx.page_count(), 0);
}

#[test]
fn add_source_and_get() {
    let mut ctx = DocContext::new();
    ctx.add_source(0, "/tmp/doc1.ofd");
    ctx.add_source(1, "/tmp/doc2.ofd");
    assert_eq!(ctx.source_count(), 2);
    assert_eq!(ctx.source_path(0), Some("/tmp/doc1.ofd"));
    assert_eq!(ctx.source_path(1), Some("/tmp/doc2.ofd"));
    assert!(ctx.source_path(2).is_none());
}

#[test]
fn page_mapping_roundtrip() {
    let mut ctx = DocContext::new();
    ctx.add_page_mapping(0, 0, 0);
    ctx.add_page_mapping(1, 0, 1);
    ctx.add_page_mapping(2, 1, 0);
    assert_eq!(ctx.page_mapping(0), Some((0, 0)));
    assert_eq!(ctx.page_mapping(1), Some((0, 1)));
    assert_eq!(ctx.page_mapping(2), Some((1, 0)));
    assert_eq!(ctx.page_count(), 3);
}

#[test]
fn resource_remap() {
    let mut ctx = DocContext::new();
    ctx.add_resource_remap("res/font.ttf", "res/font_0.ttf");
    assert_eq!(ctx.resource_remap("res/font.ttf"), Some("res/font_0.ttf"));
    assert!(ctx.resource_remap("res/other.ttf").is_none());
}

#[test]
fn doc_context_replaces_existing_keys() {
    let mut ctx = DocContext::new();
    ctx.add_source(0, "/a");
    ctx.add_source(0, "/b");
    ctx.add_page_mapping(4, 1, 1);
    ctx.add_page_mapping(4, 2, 2);
    assert_eq!(ctx.source_count(), 1);
    assert_eq!(ctx.source_path(0), Some("/b"));
    assert_eq!(ctx.page_count(), 1);
    assert_eq!(ctx.page_mapping(4), Some((2, 2)));
}

#[test]
fn new_page_entry() {
    let entry = PageEntry::new(1, 0);
    assert_eq!(entry.page_index(), 1);
    assert_eq!(entry.doc_ctx_index(), 0);
    assert!(entry.should_copy_template());
    assert!(entry.should_copy_annotations());
    assert!(!entry.has_mix_pages());
}

#[test]
fn builder_chain() {
    let entry = PageEntry::new(3, 1).copy_template(false).copy_annotations(false);
    assert_eq!(entry.page_index(), 3);
    assert!(!entry.should_copy_template());
    assert!(!entry.should_copy_annotations());
}

#[test]
fn with_mix_pages() {
    let mix1 = PageEntry::new(2, 1);
    let mix2 = PageEntry::new(3, 1);
    let entry = PageEntry::with_mix_pages(1, 0, vec![mix1, mix2]);
    assert!(entry.has_mix_pages());
    assert_eq!(entry.tb_mix_pages().len(), 2);
    assert_eq!(entry.tb_mix_pages()[0].page_index(), 2);
    assert_eq!(entry.tb_mix_pages()[1].page_index(), 3);
}

#[test]
fn empty_mix_pages() {
    let entry = PageEntry::with_mix_pages(1, 0, vec![]);
    assert!(!entry.has_mix_pages());
}

#[test]
fn clone_page_entry() {
    let entry = PageEntry::new(5, 2).copy_template(false);
    let cloned = entry.clone();
    assert_eq!(cloned.page_index(), 5);
    assert_eq!(cloned.doc_ctx_index(), 2);
    assert!(!cloned.should_copy_template());
}

#[test]
fn nested_mix_pages() {
    let inner_mix = PageEntry::new(10, 2);
    let outer_mix = PageEntry::with_mix_pages(5, 1, vec![inner_mix]);
    let entry = PageEntry::with_mix_pages(1, 0, vec![outer_mix]);
    assert!(entry.has_mix_pages());
    assert!(entry.tb_mix_pages()[0].has_mix_pages());
    assert_eq!(entry.tb_mix_pages()[0].tb_mix_pages()[0].page_index(), 10);
}

#[test]
fn page_index_from_one() {
    let entry = PageEntry::new(1, 0);
    assert_eq!(entry.page_index(), 1);
}

#[test]
fn empty_and_len() {
    let dedup = ResourceDedup::new();
    assert!(dedup.is_empty());
    assert_eq!(dedup.len(), 0);
    assert_eq!(dedup.counter(), 0);
}

#[test]
fn compute_hash_deterministic() {
    let data = b"hello world";
    let h1 = ResourceDedup::compute_hash(data);
    let h2 = ResourceDedup::compute_hash(data);
    assert_eq!(h1, h2);
    assert_eq!(h1.len(), 64);
}

#[test]
fn compute_hash_different_content() {
    let h1 = ResourceDedup::compute_hash(b"aaa");
    let h2 = ResourceDedup::compute_hash(b"bbb");
    assert_ne!(h1, h2);
}

#[test]
fn compute_hash_known_value() {
    assert_eq!(
        ResourceDedup::compute_hash(b"abc"),
        "66c7f0f462eeedd9d1f2d46bdc10e4e24167c4875cf2f7a2297da02b8f4ba8e0"
    );
}

#[test]
fn register_and_reuse() {
    let mut dedup = ResourceDedup::new();
    dedup.register("h1".to_string(), "1.png".to_string());
    assert_eq!(dedup.get_by_hash("h1"), Some("1.png"));
    assert_eq!(dedup.counter(), 1);
    let (name, fresh) = dedup.reuse_or_assign("h1", ".png");
    assert_eq!((name.as_str(), fresh), ("1.png", false));
    let (name, fresh) = dedup.reuse_or_assign("h2", ".png");
    assert_eq!((name.as_str(), fresh), ("2.png", true));
    assert_eq!(dedup.len(), 2);
}

#[test]
fn new_deleter() {
    let deleter = OfdPageDeleter::new("/tmp/input.ofd", "/tmp/output.ofd");
    assert_eq!(deleter.input_path(), "/tmp/input.ofd");
    assert_eq!(deleter.output_path(), "/tmp/output.ofd");
    assert!(deleter.pages_to_delete().is_empty());
}

#[test]
fn delete_pages() {
    let mut deleter = OfdPageDeleter::new("/tmp/in.ofd", "/tmp/out.ofd");
    deleter.delete_page(0);
    deleter.delete_page(2);
    deleter.delete_page(0);
    assert_eq!(deleter.pages_to_delete().len(), 2);
    assert_eq!(deleter.pages_to_delete(), &[0, 2]);
}

#[test]
fn execute_fails_without_pages() {
    let deleter = OfdPageDeleter::new("/tmp/in.ofd", "/tmp/out.ofd");
    let result = deleter.execute(&three_page_ofd());
    assert!(result.is_err());
    assert!(result.unwrap_err().contains("页面"));
}

#[test]
fn execute_succeeds() {
    let mut deleter = OfdPageDeleter::new("/tmp/in.ofd", "/tmp/out.ofd");
    deleter.delete_page(1);
    let result = deleter.execute(&three_page_ofd());
    assert!(result.is_ok());
}

const THREE_PAGE_DOCUMENT: &str = "<ofd:Document><ofd:Pages><ofd:Page ID=\"1\" BaseLoc=\"Pages/Page_0/Content.xml\"/><ofd:Page ID=\"2\" BaseLoc=\"Pages/Page_1/Content.xml\"/><ofd:Page ID=\"3\" BaseLoc=\"Pages/Page_2/Content.xml\"/></ofd:Pages></ofd:Document>";

fn package_of(entries: &[(&str, &[u8])]) -> Vec<u8> {
    let mut zw = zip::ZipWriter::new(std::io::Cursor::new(Vec::new()));
    let opts = zip::write::SimpleFileOptions::default();
    for (name, data) in entries {
        zw.start_file(*name, opts).unwrap();
        zw.write_all(data).unwrap();
    }
    zw.finish().unwrap().into_inner()
}

fn entries_of(bytes: &[u8]) -> Vec<(String, Vec<u8>)> {
    let mut za = zip::ZipArchive::new(std::io::Cursor::new(bytes)).unwrap();
    let mut out = Vec::new();
    for i in 0..za.len() {
        let mut f = za.by_index(i).unwrap();
        let name = f.name().unwrap().to_string();
        let mut buf = Vec::new();
        f.read_to_end(&mut buf).unwrap();
        out.push((name, buf));
    }
    out
}

fn three_page_ofd() -> Vec<u8> {
    package_of(&[
        ("OFD.xml", b"<ofd:OFD/>"),
        ("Doc_0/Document.xml", THREE_PAGE_DOCUMENT.as_bytes()),
        ("Doc_0/Pages/Page_0/Content.xml", b"p0"),
        ("Doc_0/Pages/Page_1/Content.xml", b"p1"),
        ("Doc_0/Pages/Page_1/Res/img.png", b"i1"),
        ("Doc_0/Pages/Page_2/Content.xml", b"p2"),
    ])
}

#[test]
fn execute_removes_the_listed_page_and_its_files() {
    let mut deleter = OfdPageDeleter::new("in.ofd", "out.ofd");
    deleter.delete_page(1);
    let out = entries_of(&deleter.execute(&three_page_ofd()).unwrap());
    let names: Vec<&str> = out.iter().map(|(n, _)| n.as_str()).collect();
    assert_eq!(
        names,
        vec!["OFD.xml", "Doc_0/Document.xml", "Doc_0/Pages/Page_0/Content.xml", "Doc_0/Pages/Page_2/Content.xml"]
    );
    let doc = String::from_utf8(out[1].1.clone()).unwrap();
    assert_eq!(
        doc,
        "<ofd:Document><ofd:Pages><ofd:Page ID=\"1\" BaseLoc=\"Pages/Page_0/Content.xml\"/><ofd:Page ID=\"3\" BaseLoc=\"Pages/Page_2/Content.xml\"/></ofd:Pages></ofd:Document>"
    );
    assert_eq!(out[2].1, b"p0".to_vec());
    assert_eq!(out[3].1, b"p2".to_vec());
}

#[test]
fn execute_removes_several_pages() {
    let mut deleter = OfdPageDeleter::new("in.ofd", "out.ofd");
    deleter.delete_page(2);
    deleter.delete_page(0);
    let out = entries_of(&deleter.execute(&three_page_ofd()).unwrap());
    let names: Vec<&str> = out.iter().map(|(n, _)| n.as_str()).collect();
    assert_eq!(
        names,
        vec!["OFD.xml", "Doc_0/Document.xml", "Doc_0/Pages/Page_1/Content.xml", "Doc_0/Pages/Page_1/Res/img.png"]
    );
    let doc = String::from_utf8(out[1].1.clone()).unwrap();
    assert_eq!(
        doc,
        "<ofd:Document><ofd:Pages><ofd:Page ID=\"2\" BaseLoc=\"Pages/Page_1/Content.xml\"/></ofd:Pages></ofd:Document>"
    );
}

#[test]
fn execute_ignores_pages_past_the_last() {
    let mut deleter = OfdPageDeleter::new("in.ofd", "out.ofd");
    deleter.delete_page(7);
    let out = entries_of(&deleter.execute(&three_page_ofd()).unwrap());
    assert_eq!(out.len(), 6);
    assert_eq!(out[1].1, THREE_PAGE_DOCUMENT.as_bytes().to_vec());
}

#[test]
fn execute_refuses_bytes_that_are_not_a_package() {
    let mut deleter = OfdPageDeleter::new("in.ofd", "out.ofd");
    deleter.delete_page(0);
    assert_eq!(deleter.execute(b"not a zip").unwrap_err(), "无法读取 OFD 文档");
}

#[test]
fn execute_refuses_a_package_without_document() {
    let mut deleter = OfdPageDeleter::new("in.ofd", "out.ofd");
    deleter.delete_page(0);
    let pkg = package_of(&[("OFD.xml", b"<ofd:OFD/>")]);
    assert_eq!(deleter.execute(&pkg).unwrap_err(), "缺少 Doc_0/Document.xml");
}

#[test]
fn execute_refuses_a_document_that_is_not_utf8() {
    let mut deleter = OfdPageDeleter::new("in.ofd", "out.ofd");
    deleter.delete_page(0);
    let pkg = package_of(&[("Doc_0/Document.xml", &[0xFF, 0xFE])]);
    assert_eq!(deleter.execute(&pkg).unwrap_err(), "Doc_0/Document.xml 不是 UTF-8 文本");
}

#[test]
fn get_by_hash_works() {
    let mut dedup = ResourceDedup::new();
    let hash = ResourceDedup::compute_hash(b"test");
    dedup.register(hash.clone(), "1.bin".to_string());
    assert_eq!(dedup.get_by_hash(&hash), Some("1.bin"));
    assert!(dedup.get_by_hash("nonexistent").is_none());
}

#[test]
fn test_sm3() {
    let d = ResourceDedup::compute_hash(b"hello");
    assert_eq!(d.len(), 64);
    assert!(d.bytes().all(|b| b.is_ascii_hexdigit() && !b.is_ascii_uppercase()));
}
