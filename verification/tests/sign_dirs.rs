use easyofd_signature::sign_dir::{
    SignDir, SEAL_FILE_NAME, SIGNATURE_FILE_NAME, SIGNED_VALUE_FILE_NAME, SIGN_CONTAINER_PREFIX,
};
use easyofd_signature::signs_dir::{SignsDir, SIGNATURES_FILE_NAME};

#[test]
fn test_sign_dir_new() {
    let sd = SignDir::new("/Doc_0/Signs/Sign_0");
    assert_eq!(sd.index_str(), "0");
    assert_eq!(sd.index().unwrap(), 0);
    assert_eq!(sd.container_name(), "Sign_0");
}

#[test]
fn test_sign_dir_paths() {
    let sd = SignDir::new("/Doc_0/Signs/Sign_1");
    assert_eq!(sd.signature_path(), "/Doc_0/Signs/Sign_1/Signature.xml");
    assert_eq!(sd.seal_path(), "/Doc_0/Signs/Sign_1/Seal.esl");
    assert_eq!(sd.signed_value_path(), "/Doc_0/Signs/Sign_1/SignedValue.dat");
}

#[test]
fn test_sign_dir_constants() {
    assert_eq!(SIGN_CONTAINER_PREFIX, "Sign_");
    assert_eq!(SEAL_FILE_NAME, "Seal.esl");
    assert_eq!(SIGNATURE_FILE_NAME, "Signature.xml");
    assert_eq!(SIGNED_VALUE_FILE_NAME, "SignedValue.dat");
}

#[test]
fn test_sign_dir_index_str() {
    let sd = SignDir::new("/Doc_0/Signs/Sign_abc");
    assert!(sd.index().is_err());
    assert_eq!(sd.index_str(), "abc");
}

#[test]
fn sign_dir_index_error_message() {
    let sd = SignDir::new("/Doc_0/Signs/Sign_abc");
    assert_eq!(sd.index().unwrap_err(), "解析签名索引失败: invalid digit found in string");
    let empty = SignDir::new("/");
    assert_eq!(empty.container_name(), "");
    assert_eq!(empty.index().unwrap_err(), "解析签名索引失败: cannot parse integer from empty string");
}

#[test]
fn sign_dir_trailing_slash_and_dot() {
    let sd = SignDir::new("/Doc_0/Signs/Sign_7/./");
    assert_eq!(sd.container_name(), "Sign_7");
    assert_eq!(sd.index().unwrap(), 7);
}

#[test]
fn test_signs_dir_new() {
    let sd = SignsDir::new("/Doc_0/Signs");
    assert_eq!(sd.path, "/Doc_0/Signs");
    assert_eq!(sd.max_sign_index, 0);
    assert_eq!(sd.sign_count(), 0);
}

#[test]
fn test_signs_dir_new_sign_dir() {
    let mut sd = SignsDir::new("/Doc_0/Signs");
    let sign0 = sd.new_sign_dir();
    assert_eq!(sign0.container_name(), "Sign_0");
    assert_eq!(sd.sign_count(), 1);

    let sign1 = sd.new_sign_dir();
    assert_eq!(sign1.container_name(), "Sign_1");
    assert_eq!(sd.sign_count(), 2);
}

#[test]
fn test_signs_dir_get_by_index() {
    let sd = SignsDir::new("/Doc_0/Signs");
    let sign = sd.get_by_index(3);
    assert_eq!(sign.container_name(), "Sign_3");
    assert_eq!(sign.path, "/Doc_0/Signs/Sign_3");
}

#[test]
fn test_signs_dir_signatures_path() {
    let sd = SignsDir::new("/Doc_0/Signs");
    assert_eq!(sd.signatures_path(), "/Doc_0/Signs/Signatures.xml");
}

#[test]
fn test_signs_dir_constants() {
    assert_eq!(SIGNATURES_FILE_NAME, "Signatures.xml");
}

#[test]
fn signs_dir_from_entry_names_counts_past_highest() {
    let names = vec![
        "Sign_0".to_string(),
        "Sign_4".to_string(),
        "other".to_string(),
        "Sign_x".to_string(),
        "Sign_2".to_string(),
    ];
    let sd = SignsDir::from_entry_names("/Doc_0/Signs", &names);
    assert_eq!(sd.sign_count(), 5);
}
