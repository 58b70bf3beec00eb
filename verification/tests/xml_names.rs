use easyofd_signature::xml::local_name;

#[test]
fn local_name_strips_namespace() {
    assert_eq!(local_name(b"ofd:FileRef"), "FileRef");
}

#[test]
fn local_name_returns_full_when_no_prefix() {
    assert_eq!(local_name(b"FileRef"), "FileRef");
}

#[test]
fn local_name_handles_empty() {
    assert_eq!(local_name(b""), "");
}

#[test]
fn local_name_uses_last_colon_and_rejects_bad_utf8() {
    assert_eq!(local_name(b"a:b:c"), "c");
    assert_eq!(local_name(&[0xFF, b':', b'x']), "");
}
