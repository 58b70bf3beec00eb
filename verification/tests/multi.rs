use easyofd_signature::algorithm::SignatureAlgorithm;
use easyofd_signature::multi::{
    build_indexed_signature_xml, extract_between, inject_signatures_element, sign_multiple_impl, SignerEntry,
};
use sm2::elliptic_curve::Generate;
use std::io::Read;

#[test]
fn extract_between_finds_content() {
    let xml = "<a>hello</a>";
    assert_eq!(extract_between(xml, "<a>", "</a>"), Some("hello".into()));
}

#[test]
fn extract_between_returns_none_when_missing() {
    assert_eq!(extract_between("<a>x</a>", "<b>", "</b>"), None);
}

#[test]
fn extract_between_returns_none_for_unclosed() {
    assert_eq!(extract_between("<a>hello", "<a>", "</a>"), None);
}

#[test]
fn extract_between_empty_content() {
    assert_eq!(extract_between("<a></a>", "<a>", "</a>"), Some(String::new()));
}

#[test]
fn inject_inserts_before_doc_body() {
    let ofd = "<?xml version=\"1.0\"?><ofd:OFD><ofd:DocBody></ofd:DocBody></ofd:OFD>";
    let refs = vec!["Doc_0/Signs/Signature_0.xml".into()];
    let result = inject_signatures_element(ofd, &refs);
    assert!(result.contains("<ofd:Signatures>"));
    assert!(result.contains("Signature_0.xml"));
    let sig_pos = result.find("<ofd:Signatures>").unwrap();
    let body_pos = result.find("</ofd:DocBody>").unwrap();
    assert!(sig_pos < body_pos);
}

#[test]
fn inject_inserts_before_ofd_close_when_no_doc_body() {
    let ofd = "<?xml version=\"1.0\"?><ofd:OFD></ofd:OFD>";
    let refs = vec!["Sig.xml".into()];
    let result = inject_signatures_element(ofd, &refs);
    assert!(result.contains("<ofd:Signatures>"));
    let sig_pos = result.find("<ofd:Signatures>").unwrap();
    let ofd_pos = result.find("</ofd:OFD>").unwrap();
    assert!(sig_pos < ofd_pos);
}

#[test]
fn inject_appends_when_no_closing_tags() {
    let ofd = "<root/>";
    let refs = vec!["Sig.xml".into()];
    let result = inject_signatures_element(ofd, &refs);
    assert!(result.contains("<ofd:Signatures>"));
    assert!(result.ends_with("</ofd:Signatures>\n"));
}

#[test]
fn inject_replaces_existing_signatures() {
    let ofd = "<ofd:OFD><ofd:Signatures>\n<ofd:SignatureRef>old.xml</ofd:SignatureRef>\n</ofd:Signatures></ofd:OFD>";
    let refs = vec!["new.xml".into()];
    let result = inject_signatures_element(ofd, &refs);
    assert!(result.contains("new.xml"));
    assert!(!result.contains("old.xml"));
}

#[test]
fn inject_exact_block_text() {
    let refs = vec!["a.xml".to_string(), "b.xml".to_string()];
    let result = inject_signatures_element("<x></ofd:OFD>", &refs);
    assert_eq!(
        result,
        "<x>  <ofd:Signatures>\n    <ofd:SignatureRef>a.xml</ofd:SignatureRef>\n    <ofd:SignatureRef>b.xml</ofd:SignatureRef>\n  </ofd:Signatures>\n</ofd:OFD>"
    );
}

#[test]
fn extract_between_takes_first_end_after_start() {
    assert_eq!(extract_between("</b><a>1</b>2</b>", "<a>", "</b>"), Some("1".to_string()));
}

#[test]
fn build_indexed_signature_xml_contains_expected_fields() {
    let signed_info = r#"<?xml version="1.0"?>
<ofd:SignedInfo>
  <ofd:Provider Version="1.0">easyofd-rust</ofd:Provider>
  <ofd:SignatureMethod>SM2WithSM3</ofd:SignatureMethod>
  <ofd:SignatureDateTime>2026-01-01T00:00:00</ofd:SignatureDateTime>
</ofd:SignedInfo>"#;
    let seals: Vec<Vec<u8>> = vec![];
    let xml = build_indexed_signature_xml(signed_info, &seals, 0, "AABB", "CCDD");
    assert!(xml.contains("Signature_0"), "xml: {xml}");
    assert!(xml.contains("SignedInfo_0.xml"), "xml: {xml}");
    assert!(xml.contains("SignedValue_0.dat"), "xml: {xml}");
    assert!(xml.contains("AABB"), "pub key missing: {xml}");
    assert!(xml.contains("CCDD"), "sig value missing: {xml}");
    assert!(xml.contains("SM2WithSM3"), "method missing: {xml}");
    assert!(xml.contains("easyofd-rust"), "provider missing: {xml}");
}

#[test]
fn build_indexed_signature_xml_with_seals() {
    let signed_info = r#"<?xml version="1.0"?>
<ofd:SignedInfo>
  <ofd:SignatureMethod>SM2WithSM3</ofd:SignatureMethod>
  <ofd:SignatureDateTime>2026-01-01T00:00:00</ofd:SignatureDateTime>
</ofd:SignedInfo>"#;
    let seals = vec![vec![0x89u8], vec![0x50u8]];
    let xml = build_indexed_signature_xml(signed_info, &seals, 1, "AA", "BB");
    assert!(xml.contains("Seal_1_0"), "seal0 missing: {xml}");
    assert!(xml.contains("Seal_1_1"), "seal1 missing: {xml}");
}

#[test]
fn sign_multiple_impl_produces_valid_zip() {
    let entry_data: Vec<(String, Vec<u8>)> = vec![
        ("OFD.xml".into(), b"<ofd:OFD><ofd:DocBody></ofd:DocBody></ofd:OFD>".to_vec()),
        ("Doc_0/Document.xml".into(), b"<doc/>".to_vec()),
    ];
    let entries: Vec<SignerEntry> = (0..2)
        .map(|_| SignerEntry {
            secret_key: sm2::SecretKey::generate().to_bytes().to_vec(),
            seal_images: vec![vec![0x89, 0x50]],
        })
        .collect();

    let (zip_data, refs) =
        sign_multiple_impl(&entry_data, &entries, SignatureAlgorithm::Sm2WithSm3, "2026-01-01T00:00:00").unwrap();

    assert_eq!(refs.len(), 2);
    assert!(refs[0].contains("Signature_0.xml"));
    assert!(refs[1].contains("Signature_1.xml"));

    let cur = std::io::Cursor::new(&zip_data);
    let mut archive = zip::ZipArchive::new(cur).unwrap();
    let names: Vec<String> =
        (0..archive.len()).map(|i| archive.by_index(i).unwrap().name().unwrap().to_string()).collect();
    assert!(names.contains(&"Doc_0/Signs/Signature_0.xml".to_string()));
    assert!(names.contains(&"Doc_0/Signs/Signature_1.xml".to_string()));
    assert!(names.contains(&"Doc_0/Signs/SignedInfo_0.xml".to_string()));
    assert!(names.contains(&"Doc_0/Signs/SignedValue_0.dat".to_string()));
    assert!(names.contains(&"Doc_0/Res/Seal_0_0.png".to_string()));

    let mut ofd_file = archive.by_name("OFD.xml").unwrap();
    let mut ofd_content = String::new();
    ofd_file.read_to_string(&mut ofd_content).unwrap();
    assert!(ofd_content.contains("<ofd:Signatures>"));
}
