use easyofd_signature::sign_containers::{ProtectFileFilter, SigType, SignCleaner, ToDigestFileInfo};

struct AlwaysProtect;

impl ProtectFileFilter for AlwaysProtect {
    fn should_protect(&self, _path: &str) -> bool {
        true
    }
}

#[test]
fn sign_containers_sig_type_display() {
    assert_eq!(SigType::Seal.to_string(), "Seal");
    assert_eq!(SigType::Sign.to_string(), "Sign");
}

#[test]
fn sign_containers_to_digest_file_info() {
    let info = ToDigestFileInfo::new("/Doc_0/Content.xml", "/tmp/content.xml");
    assert_eq!(info.abs_path(), "/Doc_0/Content.xml");
    assert_eq!(info.sys_path(), "/tmp/content.xml");
}

#[test]
fn sign_containers_to_digest_file_info_setters() {
    let mut info = ToDigestFileInfo::new("/a", "/b");
    info.set_abs_path("/c");
    info.set_sys_path("/d");
    assert_eq!(info.abs_path(), "/c");
    assert_eq!(info.sys_path(), "/d");
}

#[test]
fn sign_containers_protect_file_filter_trait() {
    let filter = AlwaysProtect;
    assert!(filter.should_protect("/Doc_0/Content.xml"));
}

#[test]
fn sign_containers_sign_cleaner_default() {
    let cleaner = SignCleaner::default();
    assert!(!cleaner.has_signs());
    assert!(cleaner.sign_dirs().is_empty());
}

#[test]
fn sign_containers_sign_cleaner_add_dirs() {
    let mut cleaner = SignCleaner::new();
    cleaner.add_sign_dir("Doc_0/Signs/Sign_0");
    cleaner.add_sign_dir("Doc_0/Signs/Sign_1");
    assert!(cleaner.has_signs());
    assert_eq!(cleaner.sign_dirs().len(), 2);
}

#[test]
fn mod_sig_type_display() {
    assert_eq!(SigType::Seal.to_string(), "Seal");
    assert_eq!(SigType::Sign.to_string(), "Sign");
}

#[test]
fn mod_to_digest_file_info() {
    let info = ToDigestFileInfo::new("/Doc_0/Content.xml", "/tmp/content.xml");
    assert_eq!(info.abs_path(), "/Doc_0/Content.xml");
    assert_eq!(info.sys_path(), "/tmp/content.xml");
}

#[test]
fn mod_to_digest_file_info_setters() {
    let mut info = ToDigestFileInfo::new("/a", "/b");
    info.set_abs_path("/c");
    info.set_sys_path("/d");
    assert_eq!(info.abs_path(), "/c");
    assert_eq!(info.sys_path(), "/d");
}

#[test]
fn mod_protect_file_filter_trait() {
    let filter = AlwaysProtect;
    assert!(filter.should_protect("/Doc_0/Content.xml"));
}

#[test]
fn mod_sign_cleaner_default() {
    let cleaner = SignCleaner::default();
    assert!(!cleaner.has_signs());
    assert!(cleaner.sign_dirs().is_empty());
}

#[test]
fn mod_sign_cleaner_add_dirs() {
    let mut cleaner = SignCleaner::new();
    cleaner.add_sign_dir("Doc_0/Signs/Sign_0");
    cleaner.add_sign_dir("Doc_0/Signs/Sign_1");
    assert!(cleaner.has_signs());
    assert_eq!(cleaner.sign_dirs().len(), 2);
}
