use easyofd_signature::errors::{
    DocNotSignException, FileIntegrityException, InvalidSignedValueException, OfdVerifyException,
    SignatureException, SignatureTerminateException,
};

#[test]
fn signature_exception_display() {
    let e = SignatureException::new("签名失败");
    assert_eq!(e.to_string(), "签名异常: 签名失败");
    assert!(e.source().is_none());
}

#[test]
fn signature_exception_with_source() {
    let inner = std::io::Error::other("IO error");
    let e = SignatureException::with_source("读取失败", inner.to_string());
    assert!(e.source().is_some());
}

#[test]
fn signature_terminate_exception() {
    let e = SignatureTerminateException::new("文档已整体保护");
    assert_eq!(e.to_string(), "签名终止: 文档已整体保护");
}

#[test]
fn ofd_verify_exception() {
    let e = OfdVerifyException::new("验证失败");
    assert_eq!(e.to_string(), "OFD 验证异常: 验证失败");
}

#[test]
fn invalid_signed_value_exception() {
    let e = InvalidSignedValueException::new("签名值不匹配").with_code(403);
    assert_eq!(e.to_string(), "电子签章数据失效: 签名值不匹配");
    assert_eq!(e.reason(), "签名值不匹配");
    assert_eq!(e.code(), Some(403));
}

#[test]
fn file_integrity_exception() {
    let e = FileIntegrityException::new("/Doc_0/Content.xml", vec![0x01, 0x02], vec![0x03, 0x04]);
    assert_eq!(e.to_string(), "文件被篡改: /Doc_0/Content.xml");
    assert_eq!(e.file_path(), "/Doc_0/Content.xml");
    assert_eq!(e.expected_hash(), &[0x01, 0x02]);
    assert_eq!(e.actual_hash(), &[0x03, 0x04]);
}

#[test]
fn doc_not_sign_exception() {
    let e = DocNotSignException::default();
    assert_eq!(e.to_string(), "文件未签章: 文档未签章");

    let e = DocNotSignException::new("无签名目录");
    assert_eq!(e.to_string(), "文件未签章: 无签名目录");
}

#[test]
fn ofd_verify_exception_with_source_keeps_cause() {
    let e = OfdVerifyException::with_source("验证失败", "底层原因".to_string());
    assert_eq!(e.source().map(|s| s.as_str()), Some("底层原因"));
    assert_eq!(e.to_string(), "OFD 验证异常: 验证失败");
}

#[test]
fn invalid_signed_value_without_code() {
    let e = InvalidSignedValueException::new("x");
    assert_eq!(e.code(), None);
}
