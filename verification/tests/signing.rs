use easyofd_signature::algorithm::SignatureAlgorithm;
use easyofd_signature::crl::der_sequence;
use easyofd_signature::multi::build_indexed_signature_xml;
use easyofd_signature::ofd_signature_builder::{
    build_signed_info, build_signature_xml, DigitalSignContainer, OfdSignatureBuilder, SignMode,
};
use easyofd_signature::seal::SealInfo;
use easyofd_signature::sm2_sig::SM2_DIST_ID;
use easyofd_signature::timestamp::create_timestamp;
use easyofd_signature::utc_time::UtcDateTime;
use easyofd_signature::verify_signature::{
    read_signature, seal_check_inputs_of, signature_paths_of, verify_signature,
    verify_signature_checked, verify_signature_multi_checked,
};
use sm2::elliptic_curve::Generate;
use std::io::{Read, Write};

const OFD_XML: &str = "<?xml version=\"1.0\" encoding=\"UTF-8\"?>\n<ofd:OFD xmlns:ofd=\"http://www.ofdspec.org/2016\" Version=\"1.1\" DocType=\"OFD\"><ofd:DocBody><ofd:DocRoot>Doc_0/Document.xml</ofd:DocRoot></ofd:DocBody></ofd:OFD>";

fn zip_of(entries: &[(&str, &[u8])]) -> Vec<u8> {
    let mut zw = zip::ZipWriter::new(std::io::Cursor::new(Vec::new()));
    let opts = zip::write::SimpleFileOptions::default();
    for (name, data) in entries {
        zw.start_file(*name, opts).unwrap();
        zw.write_all(data).unwrap();
    }
    zw.finish().unwrap().into_inner()
}

fn public_key_of(secret: &[u8]) -> Vec<u8> {
    let sk = sm2::SecretKey::from_slice(secret).unwrap();
    let key = sm2::dsa::SigningKey::new(SM2_DIST_ID, &sk).unwrap();
    key.verifying_key().to_sec1_bytes().to_vec()
}

fn unzip(bytes: &[u8]) -> Vec<(String, Vec<u8>)> {
    let mut za = zip::ZipArchive::new(std::io::Cursor::new(bytes)).unwrap();
    let mut out = Vec::new();
    for i in 0..za.len() {
        let mut f = za.by_index(i).unwrap();
        let name = f.name().unwrap().to_string();
        let mut buf = Vec::new();
        f.read_to_end(&mut buf).unwrap();
        out.push((name, buf));
    }
    out
}

fn sample_ofd() -> Vec<u8> {
    zip_of(&[
        ("OFD.xml", OFD_XML.as_bytes()),
        ("Doc_0/Document.xml", b"<ofd:Document/>"),
        ("Doc_0/Pages/Page_0/Content.xml", b"<ofd:Page/>"),
    ])
}

fn key(b: u8) -> Vec<u8> {
    vec![b; 32]
}

fn seal(name: &str) -> SealInfo {
    SealInfo {
        name: name.into(),
        created_at: UtcDateTime::epoch(),
        valid_until: UtcDateTime::epoch(),
        cert_der: Vec::new(),
        image: vec![0x89, 0x50, 0x4E, 0x47],
        version: 1,
    }
}

#[test]
fn signed_document_verifies() {
    let input = sample_ofd();
    let signed = OfdSignatureBuilder::new("in.ofd")
        .sign_with(&input, &key(7), "2026-08-10T12:30:00")
        .unwrap();
    let digest = signed.digest.clone();
    let value = signed.signature_value.clone();
    let bytes = signed.into_bytes();
    assert_eq!(verify_signature_checked(&bytes, true).unwrap().unwrap(), true);
    let r = read_signature(&bytes).unwrap();
    assert_eq!(r.digest, digest);
    assert_eq!(r.signature_value, value);
    assert!(r.reference_failures.is_empty());
    assert_eq!(r.algorithm, SignatureAlgorithm::Sm2WithSm3);
    assert!(!r.valid);
}

#[test]
fn signed_package_layout() {
    let input = sample_ofd();
    let signed = OfdSignatureBuilder::new("in.ofd")
        .seal(seal("A"))
        .sign_with(&input, &key(3), "2026-08-10T12:30:00")
        .unwrap();
    let names: Vec<String> = unzip(&signed.into_bytes()).into_iter().map(|(n, _)| n).collect();
    assert_eq!(
        names,
        vec![
            "OFD.xml",
            "Doc_0/Document.xml",
            "Doc_0/Pages/Page_0/Content.xml",
            "Doc_0/Res/Seal_0.png",
            "Doc_0/Seal_0.esl",
            "Doc_0/Signs/SignedValue.dat",
            "Doc_0/Signs/SignedInfo.xml",
            "Doc_0/Signs/Signature.xml",
        ]
    );
}

#[test]
fn signed_package_keeps_input_entries() {
    let input = sample_ofd();
    let before = unzip(&input);
    let signed = OfdSignatureBuilder::new("in.ofd").sign(&input).unwrap();
    let after = unzip(&signed.into_bytes());
    assert_eq!(after.len(), before.len() + 3);
    assert_eq!(&after[..before.len()], &before[..]);
    assert_eq!(after[before.len() + 2].0, "Doc_0/Signs/Signature.xml");
}

#[test]
fn signing_with_a_fresh_key_verifies() {
    let input = sample_ofd();
    let signed = OfdSignatureBuilder::new("in.ofd").sign(&input).unwrap();
    let bytes = signed.into_bytes();
    assert_eq!(verify_signature(&bytes, true).unwrap(), true);
}

#[test]
fn tampered_entry_fails_verification() {
    let input = sample_ofd();
    let bytes = OfdSignatureBuilder::new("in.ofd")
        .sign_with(&input, &key(9), "2026-08-10T12:30:00")
        .unwrap()
        .into_bytes();
    let mut entries = unzip(&bytes);
    for e in entries.iter_mut() {
        if e.0 == "Doc_0/Document.xml" {
            e.1 = b"<ofd:Document changed=\"1\"/>".to_vec();
        }
    }
    let refs: Vec<(&str, &[u8])> = entries.iter().map(|(n, d)| (n.as_str(), d.as_slice())).collect();
    let tampered = zip_of(&refs);
    let r = read_signature(&tampered).unwrap();
    assert_eq!(r.reference_failures, vec!["Doc_0/Document.xml".to_string()]);
    assert_eq!(verify_signature(&tampered, true).unwrap(), false);
}

#[test]
fn failed_seal_verdict_fails_verification() {
    let input = sample_ofd();
    let bytes = OfdSignatureBuilder::new("in.ofd")
        .seal(seal("A"))
        .sign_with(&input, &key(5), "2026-08-10T12:30:00")
        .unwrap()
        .into_bytes();
    assert!(seal_check_inputs_of(&bytes, "Doc_0/Signs/Signature.xml").unwrap().is_some());
    assert_eq!(verify_signature(&bytes, true).unwrap(), true);
    assert_eq!(verify_signature(&bytes, false).unwrap(), false);
}

#[test]
fn unsigned_document_reports_missing_signature() {
    let input = sample_ofd();
    match read_signature(&input) {
        Err(e) => assert_eq!(format!("{:?}", e), "Conversion(\"签名文件不存在\")"),
        Ok(_) => panic!("expected an error"),
    }
}

#[test]
fn not_a_zip_is_refused() {
    assert!(read_signature(b"not a zip").is_err());
    assert!(OfdSignatureBuilder::new("x").sign_with(b"not a zip", &key(1), "t").is_err());
}

#[test]
fn continue_sign_leaves_signature_files_out() {
    let input = zip_of(&[
        ("OFD.xml", OFD_XML.as_bytes()),
        ("Doc_0/Signs/Signature.xml", b"<old/>"),
    ]);
    let signed = OfdSignatureBuilder::new("in.ofd")
        .sign_mode(SignMode::ContinueSign)
        .sign_with(&input, &key(2), "2026-08-10T12:30:00");
    // The old signature file and the new one share a path, so the archive cannot be written.
    assert!(signed.is_err());
}

#[test]
fn signed_info_text_is_exact() {
    let si = build_signed_info("SM2WithSM3", "2026-08-10T12:30:00", 0, &[("a&b".to_string(), Vec::new())]);
    let expected = "<?xml version=\"1.0\" encoding=\"UTF-8\"?>\n<ofd:SignedInfo xmlns:ofd=\"http://www.ofdspec.org/2016\">\n  <ofd:Provider Version=\"1.0\">easyofd-rust</ofd:Provider>\n  <ofd:SignatureMethod>SM2WithSM3</ofd:SignatureMethod>\n  <ofd:SignatureDateTime>2026-08-10T12:30:00</ofd:SignatureDateTime>\n  <ofd:SealCount>0</ofd:SealCount>\n  <ofd:References>\n    <ofd:FileRef CheckMethod=\"SM3\" CheckValue=\"1ab21d8355cfa17f8e61194831e81a8f22bec8c728fefb747ed035eb5082aa2b\">a&amp;b</ofd:FileRef>\n  </ofd:References>\n</ofd:SignedInfo>";
    assert_eq!(si, expected);
}

#[test]
fn signature_xml_carries_timestamp_and_certificate() {
    let si = build_signed_info("SM2WithSM3", "2026-08-10T12:30:00", 1, &[]);
    let mut s = seal("A");
    s.cert_der = vec![0x30, 0x00];
    let ts = create_timestamp(UtcDateTime::from_ymd_hms(2026, 8, 10, 12, 30, 0).unwrap(), "TSA");
    let x = build_signature_xml(&si, &[s], SignatureAlgorithm::Sm2WithSm3, "04ab", "cd", Some(&ts)).unwrap();
    assert!(x.contains("<ofd:TimeStamp>"));
    assert!(x.contains("<ofd:Certificate>MAA=</ofd:Certificate>"));
    assert!(x.contains("<ofd:SignatureDateTime>2026-08-10T12:30:00</ofd:SignatureDateTime>"));
    assert!(x.contains("<ofd:Seal ID=\"Seal_0\" Type=\"Seal\" Ref=\"Doc_0/Seal_0.esl\">Doc_0/Res/Seal_0.png</ofd:Seal>"));
    assert!(x.contains("<ofd:PublicKey>04ab</ofd:PublicKey>"));
    assert!(x.contains("  <ofd:Provider Version=\"1.0\">easyofd-rust</ofd:Provider>\n"));
}

#[test]
fn container_signs_and_verifies() {
    let c = DigitalSignContainer::default();
    let sk = key(4);
    let sig = c.build_signed_value(b"message", &sk).unwrap();
    assert_eq!(sig.len(), 64);
    let pk = public_key_of(&sk);
    assert!(c.verify(b"message", &sig, &pk));
    assert!(!c.verify(b"other message", &sig, &pk));
    assert!(!c.verify(b"message", &[0u8; 3], &pk));
    assert_eq!(c.build_signed_value(b"message", &sk).unwrap(), sig);
}

#[test]
fn multiple_signers_each_verify() {
    let input = sample_ofd();
    let signed = OfdSignatureBuilder::new("in.ofd")
        .with_multiple_seals(true)
        .add_signature(key(1), vec![vec![1, 2, 3]])
        .add_signature(key(2), Vec::new())
        .sign_multiple_with(&input, "2026-08-10T12:30:00")
        .unwrap();
    let bytes = signed.into_bytes();
    let paths = signature_paths_of(&bytes).unwrap();
    assert_eq!(paths, vec!["Doc_0/Signs/Signature_0.xml", "Doc_0/Signs/Signature_1.xml"]);
    let results = verify_signature_multi_checked(&bytes, &[]).unwrap().unwrap();
    assert_eq!(results.len(), 2);
    assert_eq!(results[0].name, "Signature_0.xml");
    assert!(results[0].valid);
    assert!(results[1].valid);
    assert_eq!(results[1].signed_info_digest.len(), 64);
}

#[test]
fn sign_multiple_empty_signers_returns_error() {
    let input = sample_ofd();
    match OfdSignatureBuilder::new("in.ofd").sign_multiple_with(&input, "t") {
        Err(e) => assert_eq!(format!("{:?}", e), "Conversion(\"multi-signer mode requires at least one signer\")"),
        Ok(_) => panic!("expected an error"),
    }
}

#[test]
fn verify_multi_no_ofd_xml_returns_empty() {
    let input = zip_of(&[("Doc_0/Document.xml", b"<x/>")]);
    assert!(verify_signature_multi_checked(&input, &[]).unwrap().unwrap().is_empty());
}

#[test]
fn verify_multi_empty_signatures_returns_empty() {
    let input = sample_ofd();
    assert!(verify_signature_multi_checked(&input, &[]).unwrap().unwrap().is_empty());
}

#[test]
fn verify_multi_handles_all_broken_signature_paths() {
    let ofd = "<ofd:OFD xmlns:ofd=\"http://www.ofdspec.org/2016\"><ofd:DocBody/><ofd:Signatures><ofd:SignatureRef>Doc_0/Signs/Missing.xml</ofd:SignatureRef></ofd:Signatures></ofd:OFD>";
    let input = zip_of(&[("OFD.xml", ofd.as_bytes())]);
    let results = verify_signature_multi_checked(&input, &[]).unwrap().unwrap();
    assert_eq!(results.len(), 1);
    assert_eq!(results[0].name, "Missing.xml");
    assert!(!results[0].valid);
    assert_eq!(results[0].signed_info_digest, "");
}

#[test]
fn indexed_signature_xml_keeps_provider_attribute() {
    let si = build_signed_info("SM2WithSM3", "T", 0, &[]);
    let x = build_indexed_signature_xml(&si, &[vec![1u8]], 3, "pk", "sv");
    assert!(x.contains("ID=\"Signature_3\""));
    assert!(x.contains("<ofd:Provider Version=\"1.0\"> Version=\"1.0\">easyofd-rust</ofd:Provider>"));
    assert!(x.contains("<ofd:Seal ID=\"Seal_3_0\" Type=\"Seal\">Doc_0/Res/Seal_3_0.png</ofd:Seal>"));
    let _ = der_sequence(&[]);
}

#[test]
fn build_indexed_signature_xml_defaults_method_when_missing() {
    let x = build_indexed_signature_xml("<x/>", &[], 0, "p", "s");
    assert!(x.contains("<ofd:SignatureMethod>SM2WithSM3</ofd:SignatureMethod>"));
    assert!(x.contains("<ofd:Provider Version=\"1.0\">easyofd-rust</ofd:Provider>"));
    assert!(x.contains("<ofd:SignatureDateTime></ofd:SignatureDateTime>"));
}

fn fresh_key_pair() -> (Vec<u8>, Vec<u8>) {
    let sk = sm2::SecretKey::generate();
    let signing_key = sm2::dsa::SigningKey::new("1234567812345678", &sk).unwrap();
    (sk.to_bytes().to_vec(), signing_key.verifying_key().to_sec1_bytes().to_vec())
}

#[test]
fn digital_sign_container_build_and_verify_roundtrip() {
    let container = DigitalSignContainer::default();
    let (sk, pk) = fresh_key_pair();
    let data = b"test signed info bytes";
    let signed_value = container.build_signed_value(data, &sk).unwrap();
    assert_eq!(signed_value.len(), 64, "SM2 signature should be 64 bytes");
    assert!(container.verify(data, &signed_value, &pk), "verify should pass");
}

#[test]
fn digital_sign_container_verify_rejects_wrong_data() {
    let container = DigitalSignContainer::default();
    let (sk, pk) = fresh_key_pair();
    let data = b"original data";
    let signed_value = container.build_signed_value(data, &sk).unwrap();
    assert!(!container.verify(b"tampered data", &signed_value, &pk), "verify should fail for wrong data");
}

#[test]
fn digital_sign_container_verify_rejects_wrong_key() {
    let container = DigitalSignContainer::default();
    let (sk1, _) = fresh_key_pair();
    let (_, pk2) = fresh_key_pair();
    let data = b"some data";
    let signed_value = container.build_signed_value(data, &sk1).unwrap();
    assert!(!container.verify(data, &signed_value, &pk2), "verify should fail for wrong key");
}

#[test]
fn digital_sign_container_verify_rejects_invalid_signature_bytes() {
    let container = DigitalSignContainer::default();
    let (_, pk) = fresh_key_pair();
    let bad_sig = vec![0xFF; 64];
    assert!(!container.verify(b"data", &bad_sig, &pk), "verify should reject garbage signature");
}
