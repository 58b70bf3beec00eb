use easyofd_signature::algorithm::SignatureAlgorithm;
use easyofd_signature::ofd_signature_builder::{is_signature_file, DigitalSignContainer, SignMode};

#[test]
fn sign_mode_default_is_whole_protected() {
    assert_eq!(SignMode::default(), SignMode::WholeProtected);
}

#[test]
fn sign_mode_debug_clone_copy() {
    let mode = SignMode::ContinueSign;
    let mode2 = mode;
    assert_eq!(format!("{mode:?}"), "ContinueSign");
    assert_eq!(mode, mode2);
}

#[test]
fn digital_sign_container_default_algorithm() {
    let container = DigitalSignContainer::default();
    assert_eq!(container.signature_method(), SignatureAlgorithm::Sm2WithSm3);
    assert_eq!(container.algorithm_oid(), "1.2.156.10197.1.501");
}

#[test]
fn digital_sign_container_sha256_rsa() {
    let container = DigitalSignContainer::new(SignatureAlgorithm::Sha256WithRsa);
    assert_eq!(container.signature_method(), SignatureAlgorithm::Sha256WithRsa);
    assert_eq!(container.algorithm_oid(), "1.2.840.113549.1.1.11");
}

#[test]
fn is_signature_file_matches_patterns() {
    assert!(is_signature_file("Doc_0/Signs/Signature.xml"));
    assert!(is_signature_file("Doc_0/Signs/Signature_0.xml"));
    assert!(is_signature_file("Doc_0/Signs/Signature_99.xml"));
    assert!(!is_signature_file("Doc_0/Signs/SignedInfo.xml"));
    assert!(!is_signature_file("Doc_0/Signs/SignedValue.dat"));
    assert!(!is_signature_file("Doc_0/Document.xml"));
}

#[test]
fn is_signature_file_extension_any_case() {
    assert!(is_signature_file("Doc_0/Signs/Signature_1.XML"));
    assert!(!is_signature_file("Doc_0/Signs/Signature_1.xmlx"));
    assert!(!is_signature_file("Doc_0/Signs/Signature_1"));
}
