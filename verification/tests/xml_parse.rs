use easyofd_signature::xml::{parse_ofd_root, parse_signature_top, parse_signed_info};

#[test]
fn parse_signed_info_extracts_file_refs() {
    let xml = r#"<?xml version="1.0" encoding="UTF-8"?>
<ofd:SignedInfo xmlns:ofd="http://www.ofdspec.org/2016">
  <ofd:References>
    <ofd:FileRef CheckMethod="SM3" CheckValue="aabb">Doc_0/Document.xml</ofd:FileRef>
    <ofd:FileRef CheckMethod="SM3" CheckValue="ccdd">Doc_0/Content.xml</ofd:FileRef>
  </ofd:References>
</ofd:SignedInfo>"#;
    let entries = parse_signed_info(xml).unwrap();
    assert_eq!(entries.len(), 2);
    assert_eq!(entries[0].name, "Doc_0/Document.xml");
    assert_eq!(entries[0].check_method, "SM3");
    assert_eq!(entries[0].check_value, "aabb");
    assert_eq!(entries[1].name, "Doc_0/Content.xml");
    assert_eq!(entries[1].check_value, "ccdd");
}

#[test]
fn parse_signed_info_handles_self_closing_elements() {
    let xml = r#"<?xml version="1.0"?>
<ofd:SignedInfo xmlns:ofd="http://www.ofdspec.org/2016">
  <ofd:References>
    <ofd:FileRef CheckMethod="SM3" CheckValue="1234" />
  </ofd:References>
</ofd:SignedInfo>"#;
    let entries = parse_signed_info(xml).unwrap();
    assert_eq!(entries.len(), 1);
    assert_eq!(entries[0].check_value, "1234");
}

#[test]
fn parse_signed_info_handles_root_file_element() {
    let xml = r#"<?xml version="1.0"?>
<ofd:SignedInfo xmlns:ofd="http://www.ofdspec.org/2016">
  <ofd:References>
    <ofd:RootFile CheckMethod="SM3" CheckValue="abcd">Doc_0/Document.xml</ofd:RootFile>
  </ofd:References>
</ofd:SignedInfo>"#;
    let entries = parse_signed_info(xml).unwrap();
    assert_eq!(entries.len(), 1);
    assert_eq!(entries[0].name, "Doc_0/Document.xml");
}

#[test]
fn parse_signed_info_empty_references() {
    let xml = r#"<?xml version="1.0"?>
<ofd:SignedInfo xmlns:ofd="http://www.ofdspec.org/2016">
  <ofd:References>
  </ofd:References>
</ofd:SignedInfo>"#;
    let entries = parse_signed_info(xml).unwrap();
    assert!(entries.is_empty());
}

#[test]
fn parse_signed_info_malformed_xml_returns_error() {
    let xml = "<not valid xml <<";
    let result = parse_signed_info(xml);
    assert!(result.is_err());
}

#[test]
fn parse_signed_info_nested_file_ref() {
    let xml = r#"<?xml version="1.0"?>
<ofd:SignedInfo xmlns:ofd="http://www.ofdspec.org/2016">
  <ofd:References>
    <ofd:FileRef CheckMethod="SM3" CheckValue="aa">
      <ofd:FileRef CheckMethod="SM3" CheckValue="bb">inner.xml</ofd:FileRef>
    </ofd:FileRef>
  </ofd:References>
</ofd:SignedInfo>"#;
    let entries = parse_signed_info(xml).unwrap();
    assert!(!entries.is_empty());
    assert_eq!(entries.len(), 1);
    assert_eq!(entries[0].check_value, "aa");
    assert_eq!(entries[0].name, "inner.xml");
}

#[test]
fn parse_signature_top_extracts_all_fields() {
    let xml = r#"<?xml version="1.0" encoding="UTF-8"?>
<ofd:Signature xmlns:ofd="http://www.ofdspec.org/2016" ID="Signature_0">
  <ofd:SignedInfoRef>Doc_0/Signs/SignedInfo.xml</ofd:SignedInfoRef>
  <ofd:SignedValue>Doc_0/Signs/SignedValue.dat</ofd:SignedValue>
  <ofd:Provider Version="1.0">easyofd-rust</ofd:Provider>
  <ofd:SignatureMethod>SM2WithSM3</ofd:SignatureMethod>
  <ofd:SignatureDateTime>2026-01-01T00:00:00</ofd:SignatureDateTime>
  <ofd:PublicKey>AABBCCDD</ofd:PublicKey>
</ofd:Signature>"#;
    let top = parse_signature_top(xml).unwrap();
    assert_eq!(top.signed_info_ref.unwrap(), "Doc_0/Signs/SignedInfo.xml");
    assert_eq!(top.signed_value.unwrap(), "Doc_0/Signs/SignedValue.dat");
    assert_eq!(top.method.unwrap(), "SM2WithSM3");
    assert_eq!(top.datetime.unwrap(), "2026-01-01T00:00:00");
    assert_eq!(top.public_key.unwrap(), "AABBCCDD");
    assert!(top.provider.unwrap().contains("easyofd-rust"));
}

#[test]
fn parse_signature_top_empty_xml_returns_defaults() {
    let xml = "<root/>";
    let top = parse_signature_top(xml).unwrap();
    assert!(top.signed_info_ref.is_none());
    assert!(top.signed_value.is_none());
    assert!(top.public_key.is_none());
    assert!(top.method.is_none());
}

#[test]
fn parse_signature_top_partial_fields() {
    let xml = r#"<?xml version="1.0"?>
<ofd:Signature xmlns:ofd="http://www.ofdspec.org/2016">
  <ofd:PublicKey>EEFF</ofd:PublicKey>
</ofd:Signature>"#;
    let top = parse_signature_top(xml).unwrap();
    assert_eq!(top.public_key.unwrap(), "EEFF");
    assert!(top.method.is_none());
}

#[test]
fn parse_signature_top_malformed_xml_returns_error() {
    let result = parse_signature_top("<not valid <<<<");
    assert!(result.is_err());
}

#[test]
fn parse_signature_top_provider_text() {
    let xml = r#"<?xml version="1.0"?>
<ofd:Signature xmlns:ofd="http://www.ofdspec.org/2016">
  <ofd:Provider Version="1.0">my-provider</ofd:Provider>
</ofd:Signature>"#;
    let top = parse_signature_top(xml).unwrap();
    let provider = top.provider.unwrap();
    assert!(provider.contains("my-provider"), "provider: {provider}");
}

#[test]
fn parse_ofd_root_extracts_signature_refs() {
    let xml = r#"<?xml version="1.0" encoding="UTF-8"?>
<ofd:OFD xmlns:ofd="http://www.ofdspec.org/2016">
  <ofd:DocBody>
    <ofd:Signatures>
      <ofd:SignatureRef>Doc_0/Signs/Signature_0.xml</ofd:SignatureRef>
      <ofd:SignatureRef>Doc_0/Signs/Signature_1.xml</ofd:SignatureRef>
      <ofd:SignatureRef>Doc_0/Signs/Signature_2.xml</ofd:SignatureRef>
    </ofd:Signatures>
  </ofd:DocBody>
</ofd:OFD>"#;
    let root = parse_ofd_root(xml).unwrap();
    assert_eq!(root.signatures.len(), 3);
    assert_eq!(root.signatures[0].path, "Doc_0/Signs/Signature_0.xml");
    assert_eq!(root.signatures[1].path, "Doc_0/Signs/Signature_1.xml");
    assert_eq!(root.signatures[2].path, "Doc_0/Signs/Signature_2.xml");
}

#[test]
fn parse_ofd_root_no_signatures_returns_empty() {
    let xml = r#"<?xml version="1.0"?>
<ofd:OFD xmlns:ofd="http://www.ofdspec.org/2016">
  <ofd:DocBody></ofd:DocBody>
</ofd:OFD>"#;
    let root = parse_ofd_root(xml).unwrap();
    assert!(root.signatures.is_empty());
}

#[test]
fn parse_ofd_root_malformed_xml_returns_error() {
    let result = parse_ofd_root("<not valid <<<<");
    assert!(result.is_err());
}

#[test]
fn parse_ofd_root_empty_signatures_element() {
    let xml = r#"<?xml version="1.0"?>
<ofd:OFD xmlns:ofd="http://www.ofdspec.org/2016">
  <ofd:Signatures>
  </ofd:Signatures>
</ofd:OFD>"#;
    let root = parse_ofd_root(xml).unwrap();
    assert!(root.signatures.is_empty());
}

#[test]
fn parse_ofd_root_self_closing_ref_uses_base_loc() {
    let xml = r#"<ofd:OFD><ofd:Signatures><ofd:SignatureRef BaseLoc="a.xml"/></ofd:Signatures><ofd:SignatureRef>outside.xml</ofd:SignatureRef></ofd:OFD>"#;
    let root = parse_ofd_root(xml).unwrap();
    assert_eq!(root.signatures.len(), 1);
    assert_eq!(root.signatures[0].path, "a.xml");
}

#[test]
fn parse_signature_top_seal_with_base_loc() {
    let xml = r#"<?xml version="1.0" encoding="UTF-8"?>
<ofd:Signature xmlns:ofd="http://www.ofdspec.org/2016">
  <ofd:SignedInfo>
    <ofd:Seal BaseLoc="Doc_0/Signs/Sign_0/Seal.esl"/>
  </ofd:SignedInfo>
  <ofd:SignedValue>Doc_0/Signs/SignedValue.dat</ofd:SignedValue>
</ofd:Signature>"#;
    let top = parse_signature_top(xml).unwrap();
    assert_eq!(top.seal_path.as_deref(), Some("Doc_0/Signs/Sign_0/Seal.esl"));
}

#[test]
fn parse_signature_top_seal_with_ref_attr() {
    let xml = r#"<?xml version="1.0" encoding="UTF-8"?>
<ofd:Signature xmlns:ofd="http://www.ofdspec.org/2016">
  <ofd:Seal ID="Seal_0" Type="Seal" Ref="Doc_0/Seal_0.esl">Doc_0/Res/Seal_0.png</ofd:Seal>
  <ofd:SignedValue>Doc_0/Signs/SignedValue.dat</ofd:SignedValue>
</ofd:Signature>"#;
    let top = parse_signature_top(xml).unwrap();
    assert_eq!(top.seal_path.as_deref(), Some("Doc_0/Seal_0.esl"));
}

#[test]
fn parse_signature_top_no_seal_returns_none() {
    let xml = r#"<?xml version="1.0" encoding="UTF-8"?>
<ofd:Signature xmlns:ofd="http://www.ofdspec.org/2016">
  <ofd:SignedValue>Doc_0/Signs/SignedValue.dat</ofd:SignedValue>
</ofd:Signature>"#;
    let top = parse_signature_top(xml).unwrap();
    assert!(top.seal_path.is_none());
}

#[test]
fn parse_signature_top_error_message_has_prefix() {
    let err = parse_signature_top("<a></b>").unwrap_err();
    let text = format!("{err:?}");
    assert!(text.starts_with("Conversion(\"Signature XML 解析失败: "), "{text}");
}

#[test]
fn parse_signature_top_provider_keeps_attributes() {
    let xml = r#"<ofd:Signature><ofd:Provider Version="1.0">easyofd-rust</ofd:Provider><ofd:SignatureMethod>SM2WithSM3</ofd:SignatureMethod><ofd:PublicKey>AABBCCDD</ofd:PublicKey></ofd:Signature>"#;
    let t = parse_signature_top(xml).unwrap();
    assert_eq!(t.provider, Some(r#"Version="1.0">easyofd-rust"#.to_string()));
    assert_eq!(t.method, Some("SM2WithSM3".to_string()));
    assert_eq!(t.public_key, Some("AABBCCDD".to_string()));
    assert!(t.signed_info_ref.is_none());
    assert!(t.seal_path.is_none());
}

#[test]
fn parse_signature_top_provider_without_attributes() {
    let xml = "<ofd:Signature><ofd:Provider> me </ofd:Provider></ofd:Signature>";
    let t = parse_signature_top(xml).unwrap();
    assert_eq!(t.provider, Some(">me".to_string()));
}
