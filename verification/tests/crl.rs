use easyofd_signature::crl::{
    build_ocsp_request, check_revoked, der_integer_positive, der_octet_string, der_sequence, der_wrap,
    extract_ocsp_issuer_fields, ocsp_check, ocsp_verdict, parse_crl_der, parse_ocsp_response, read_ocsp_response,
    read_tl, sha1, CrlInfo,
};
use easyofd_signature::utc_time::UtcDateTime;

fn crl_with(serials: Vec<Vec<u8>>) -> CrlInfo {
    CrlInfo {
        issuer: "CN=TestCA".into(),
        revoked_serials: serials,
        this_update: UtcDateTime::now(),
        next_update: UtcDateTime::now(),
    }
}

#[test]
fn der_integer_positive_strips_leading_zeros() {
    assert_eq!(der_integer_positive(&[0x00, 0x01]), vec![0x02, 0x01, 0x01]);
    assert_eq!(der_integer_positive(&[0x00, 0x00, 0xFF]), vec![0x02, 0x02, 0x00, 0xFF]);
    assert_eq!(der_integer_positive(&[]), vec![0x02, 0x01, 0x00]);
    assert_eq!(der_integer_positive(&[0x00]), vec![0x02, 0x01, 0x00]);
}

#[test]
fn check_revoked_finds_serial() {
    let crl = crl_with(vec![vec![0x01, 0x02], vec![0x03, 0x04]]);
    assert!(check_revoked(&crl, &[0x01, 0x02]));
    assert!(check_revoked(&crl, &[0x03, 0x04]));
    assert!(!check_revoked(&crl, &[0x05, 0x06]));
}

#[test]
fn check_revoked_empty_crl() {
    let crl = crl_with(vec![]);
    assert!(!check_revoked(&crl, &[0x01]));
}

#[test]
fn check_revoked_exact_match_only() {
    let crl = crl_with(vec![vec![0x0A, 0x0B]]);
    assert!(!check_revoked(&crl, &[0x0A]));
    assert!(check_revoked(&crl, &[0x0A, 0x0B]));
}

#[test]
fn ocsp_check_always_not_revoked() {
    assert!(!ocsp_check(&[0x01, 0x02, 0x03]).unwrap());
    assert!(!ocsp_check(&[]).unwrap());
}

#[test]
fn ocsp_check_with_empty_serial() {
    assert!(!ocsp_check(&[]).unwrap());
}

#[test]
fn der_wrap_length_forms() {
    assert_eq!(der_wrap(0x04, &[0xAA]), vec![0x04, 0x01, 0xAA]);
    let long = vec![0u8; 0x90];
    assert_eq!(&der_octet_string(&long)[..3], &[0x04, 0x81, 0x90]);
    let longer = vec![0u8; 0x123];
    assert_eq!(&der_sequence(&longer)[..4], &[0x30, 0x82, 0x01, 0x23]);
}

const TEST_CRL_DER: &[u8] = &[
        0x30, 0x82, 0x01, 0x7d, 0x30, 0x67, 0x02, 0x01, 0x01, 0x30, 0x0d, 0x06, 0x09, 0x2a, 0x86,
        0x48, 0x86, 0xf7, 0x0d, 0x01, 0x01, 0x0b, 0x05, 0x00, 0x30, 0x25, 0x31, 0x11, 0x30, 0x0f,
        0x06, 0x03, 0x55, 0x04, 0x03, 0x0c, 0x08, 0x54, 0x65, 0x73, 0x74, 0x43, 0x65, 0x72, 0x74,
        0x31, 0x10, 0x30, 0x0e, 0x06, 0x03, 0x55, 0x04, 0x0a, 0x0c, 0x07, 0x54, 0x65, 0x73, 0x74,
        0x4f, 0x72, 0x67, 0x17, 0x0d, 0x32, 0x36, 0x30, 0x38, 0x31, 0x30, 0x31, 0x33, 0x34, 0x39,
        0x30, 0x30, 0x5a, 0x17, 0x0d, 0x32, 0x36, 0x30, 0x39, 0x30, 0x39, 0x31, 0x33, 0x34, 0x39,
        0x30, 0x30, 0x5a, 0xa0, 0x0e, 0x30, 0x0c, 0x30, 0x0a, 0x06, 0x03, 0x55, 0x1d, 0x14, 0x04,
        0x03, 0x02, 0x01, 0x01, 0x30, 0x0d, 0x06, 0x09, 0x2a, 0x86, 0x48, 0x86, 0xf7, 0x0d, 0x01,
        0x01, 0x0b, 0x05, 0x00, 0x03, 0x82, 0x01, 0x01, 0x00, 0x09, 0x5f, 0x86, 0xc6, 0x18, 0x45,
        0x27, 0xd2, 0x3d, 0xc8, 0x36, 0xac, 0xbc, 0xb9, 0x57, 0x79, 0x85, 0x8d, 0x7e, 0xb0, 0xa4,
        0xb5, 0x6b, 0xb9, 0x7d, 0xc3, 0xff, 0xf7, 0x49, 0x99, 0xba, 0x78, 0xbe, 0xd1, 0xee, 0x53,
        0x85, 0x9a, 0xb6, 0xc0, 0xc4, 0xe6, 0x3e, 0x53, 0x65, 0x0c, 0xf7, 0xab, 0xa3, 0x80, 0xb7,
        0xfa, 0x7d, 0xf3, 0xd1, 0x29, 0xc3, 0xd1, 0x40, 0x25, 0x8a, 0xbf, 0xb6, 0xf2, 0xad, 0x0a,
        0x42, 0xe3, 0xa2, 0xb4, 0x53, 0xb0, 0x57, 0x06, 0x88, 0x33, 0xb5, 0xc7, 0x08, 0xa8, 0x22,
        0xef, 0x2c, 0xd6, 0xd0, 0x18, 0xb8, 0x40, 0x33, 0x0e, 0xa9, 0x92, 0x6c, 0x68, 0xc8, 0x9e,
        0xf9, 0x30, 0xee, 0xff, 0x52, 0x05, 0x3b, 0x86, 0x47, 0x43, 0x3d, 0x24, 0xa1, 0xd5, 0xbe,
        0x16, 0xe0, 0x85, 0x64, 0xbe, 0x2b, 0x51, 0xc5, 0x04, 0xf5, 0x7b, 0x69, 0x2d, 0xbe, 0x45,
        0x6e, 0x93, 0xd1, 0x4b, 0x05, 0x3d, 0x8a, 0xf6, 0x82, 0xf8, 0xfd, 0x57, 0x00, 0x0f, 0xd8,
        0x9e, 0x36, 0x6a, 0x22, 0x6d, 0x0d, 0x91, 0x2f, 0x87, 0x97, 0x79, 0x3f, 0xb9, 0x8a, 0xdc,
        0xf0, 0x4a, 0x36, 0xd0, 0x05, 0xa0, 0x56, 0x53, 0xf5, 0x80, 0x7e, 0x59, 0x5c, 0x52, 0x28,
        0x76, 0xfe, 0x33, 0x1b, 0x8a, 0xb5, 0xe0, 0x6b, 0x6d, 0xa8, 0xf0, 0xb5, 0xf2, 0x45, 0x82,
        0xe7, 0xb0, 0xe2, 0xc3, 0x45, 0x1e, 0x45, 0xdb, 0x43, 0xf2, 0x11, 0x4b, 0xab, 0x57, 0x0b,
        0x80, 0x8f, 0xda, 0xea, 0xc3, 0x0e, 0x28, 0xd0, 0x37, 0x40, 0xec, 0x04, 0x13, 0x56, 0xe7,
        0x97, 0xc0, 0xf7, 0x24, 0xaa, 0x64, 0x22, 0xa9, 0xfa, 0x43, 0x2f, 0xeb, 0xfa, 0x5f, 0xc4,
        0x3a, 0xab, 0xf0, 0xf2, 0xd9, 0xfb, 0x37, 0x76, 0x4d, 0xbe, 0xe2, 0x12, 0x0d, 0x87, 0x06,
        0xe6, 0xa1, 0x08, 0x6e, 0x89, 0x27, 0x6f, 0xc1, 0x1d, 0xc1,
    ];

const TEST_CRL_REVOKED_DER: &[u8] = &[
        0x30, 0x82, 0x01, 0x93, 0x30, 0x7d, 0x02, 0x01, 0x01, 0x30, 0x0d, 0x06, 0x09, 0x2a, 0x86,
        0x48, 0x86, 0xf7, 0x0d, 0x01, 0x01, 0x0b, 0x05, 0x00, 0x30, 0x25, 0x31, 0x11, 0x30, 0x0f,
        0x06, 0x03, 0x55, 0x04, 0x03, 0x0c, 0x08, 0x54, 0x65, 0x73, 0x74, 0x43, 0x65, 0x72, 0x74,
        0x31, 0x10, 0x30, 0x0e, 0x06, 0x03, 0x55, 0x04, 0x0a, 0x0c, 0x07, 0x54, 0x65, 0x73, 0x74,
        0x4f, 0x72, 0x67, 0x17, 0x0d, 0x32, 0x36, 0x30, 0x38, 0x31, 0x30, 0x31, 0x33, 0x35, 0x32,
        0x30, 0x31, 0x5a, 0x17, 0x0d, 0x32, 0x36, 0x30, 0x39, 0x30, 0x39, 0x31, 0x33, 0x35, 0x32,
        0x30, 0x31, 0x5a, 0x30, 0x14, 0x30, 0x12, 0x02, 0x01, 0x01, 0x17, 0x0d, 0x32, 0x36, 0x30,
        0x38, 0x31, 0x30, 0x31, 0x33, 0x34, 0x39, 0x30, 0x30, 0x5a, 0xa0, 0x0e, 0x30, 0x0c, 0x30,
        0x0a, 0x06, 0x03, 0x55, 0x1d, 0x14, 0x04, 0x03, 0x02, 0x01, 0x01, 0x30, 0x0d, 0x06, 0x09,
        0x2a, 0x86, 0x48, 0x86, 0xf7, 0x0d, 0x01, 0x01, 0x0b, 0x05, 0x00, 0x03, 0x82, 0x01, 0x01,
        0x00, 0x6c, 0xeb, 0x62, 0x59, 0x82, 0x0c, 0x4a, 0x6a, 0x26, 0x03, 0xdc, 0xc4, 0xc4, 0x53,
        0xef, 0x45, 0xbf, 0xd3, 0x9e, 0x28, 0xba, 0x4e, 0xd5, 0xb1, 0x23, 0x1f, 0xe4, 0x12, 0xdc,
        0x46, 0xc6, 0xdb, 0x35, 0xdb, 0xc5, 0x5b, 0x1c, 0x4f, 0x1b, 0x74, 0x8c, 0xa8, 0x05, 0x28,
        0x95, 0x83, 0x93, 0x28, 0xec, 0xb8, 0xb0, 0x8b, 0x35, 0x79, 0x81, 0xfd, 0xd6, 0xf7, 0x50,
        0x5d, 0x91, 0x89, 0x0e, 0xba, 0xe5, 0x8e, 0x43, 0x8c, 0x00, 0x24, 0xf8, 0xb9, 0x78, 0x2e,
        0x59, 0xe8, 0x5e, 0xe4, 0xae, 0x62, 0xbb, 0xb4, 0x94, 0x2e, 0x79, 0x3d, 0xe8, 0x46, 0x6f,
        0x0d, 0xb4, 0x3e, 0x1c, 0x2f, 0x06, 0xcf, 0x2c, 0xba, 0x53, 0x9c, 0xd1, 0xff, 0xe4, 0x53,
        0x4c, 0x05, 0xc4, 0x4f, 0xad, 0x1e, 0xec, 0xd0, 0xce, 0x48, 0x60, 0x1c, 0x07, 0x43, 0x96,
        0x18, 0x79, 0x1e, 0x92, 0x38, 0x71, 0x11, 0xd9, 0x94, 0x75, 0x81, 0x0b, 0xde, 0xf2, 0xe8,
        0xfb, 0x3d, 0xf5, 0x54, 0xae, 0x27, 0x77, 0xef, 0x1c, 0x4a, 0xfe, 0xcd, 0x0a, 0xd1, 0xbf,
        0xa3, 0xee, 0x7f, 0x82, 0xa3, 0xfc, 0x85, 0xc4, 0x93, 0x3e, 0x96, 0xb2, 0x1d, 0x64, 0xb8,
        0xbd, 0xe8, 0x64, 0x7b, 0x03, 0x72, 0x49, 0x5c, 0xbc, 0x79, 0x9a, 0x92, 0x6c, 0x95, 0x7a,
        0x03, 0xf7, 0x7a, 0xfa, 0x5b, 0xe8, 0xee, 0xca, 0x97, 0x42, 0xb0, 0x79, 0x72, 0x1a, 0x4e,
        0x24, 0x24, 0x21, 0x9a, 0xf7, 0x5c, 0xa3, 0x93, 0xf0, 0x51, 0x25, 0xe4, 0x65, 0xfb, 0x02,
        0x9c, 0x1a, 0x6c, 0xdc, 0xb6, 0x9b, 0xab, 0x11, 0xd9, 0xf5, 0xa3, 0xd2, 0x12, 0xd3, 0xeb,
        0x47, 0x84, 0x13, 0xc8, 0x75, 0xdb, 0xf2, 0xcc, 0xff, 0x08, 0x35, 0x6e, 0xe2, 0x88, 0x90,
        0x5e, 0xc8, 0xaf, 0xba, 0xdb, 0x92, 0x91, 0x3f, 0x06, 0xdf, 0xec, 0x1b, 0xbc, 0x1f, 0xe0,
        0x0f, 0xf6,
    ];

#[test]
fn parse_crl_der_smoke() {
    let garbage = &[0x30, 0x03, 0x01, 0x01, 0x00];
    assert!(parse_crl_der(garbage).is_err(), "garbage DER should fail CRL parsing");
}

#[test]
fn parse_crl_der_valid_empty() {
    let crl = parse_crl_der(TEST_CRL_DER).expect("valid CRL should parse");
    assert!(crl.issuer.contains("CN=TestCert"), "issuer: {}", crl.issuer);
    assert!(crl.issuer.contains("O=TestOrg"), "issuer: {}", crl.issuer);
    assert!(crl.revoked_serials.is_empty());
    assert!(crl.this_update.fields() < crl.next_update.fields());
}

#[test]
fn parse_crl_der_check_not_revoked() {
    let crl = parse_crl_der(TEST_CRL_DER).expect("valid CRL should parse");
    assert!(!check_revoked(&crl, &[0x01, 0x02, 0x03]));
}

#[test]
fn parse_crl_der_with_revoked_cert() {
    let crl = parse_crl_der(TEST_CRL_REVOKED_DER).expect("revoked CRL should parse");
    assert!(crl.issuer.contains("CN=TestCert"), "issuer: {}", crl.issuer);
    assert_eq!(crl.revoked_serials.len(), 1, "expected 1 revoked cert");
    assert_eq!(crl.revoked_serials[0], vec![0x01]);
}

#[test]
fn check_revoked_finds_serial_in_revoked_crl() {
    let crl = parse_crl_der(TEST_CRL_REVOKED_DER).expect("revoked CRL should parse");
    assert!(check_revoked(&crl, &[0x01]));
    assert!(!check_revoked(&crl, &[0x02]));
}

#[test]
fn parse_crl_der_truncated_input() {
    assert!(parse_crl_der(&[0x30, 0x82, 0x01, 0x00]).is_err());
}

#[test]
fn parse_crl_der_single_byte_input() {
    assert!(parse_crl_der(&[0x30]).is_err());
}

#[test]
fn crl_info_fields_after_parse() {
    let crl = parse_crl_der(TEST_CRL_DER).expect("valid CRL should parse");
    assert!(crl.issuer.contains("TestCert"));
    assert!(crl.this_update.year() >= 2026);
    assert!(crl.next_update.fields() > crl.this_update.fields());
}

#[test]
fn parse_crl_der_exact_update_times() {
    let crl = parse_crl_der(TEST_CRL_DER).unwrap();
    assert_eq!(crl.this_update.fields(), (2026, 8, 10, 13, 49, 0));
    assert_eq!(crl.next_update.fields(), (2026, 9, 9, 13, 49, 0));
}

#[test]
fn crl_parse_rejects_empty_input() {
    assert!(parse_crl_der(&[]).is_err(), "empty input should fail");
}

#[test]
fn crl_parse_rejects_truncated_input() {
    assert!(parse_crl_der(&[0x30, 0x10, 0x02, 0x01]).is_err(), "truncated input should fail");
}

#[test]
fn crl_parse_rejects_non_sequence() {
    assert!(parse_crl_der(&[0x01, 0x01, 0x00]).is_err(), "non-SEQUENCE should fail");
}

#[test]
fn sha1_known_hash() {
    assert_eq!(
        sha1(b""),
        [
            0xda, 0x39, 0xa3, 0xee, 0x5e, 0x6b, 0x4b, 0x0d, 0x32, 0x55, 0xbf, 0xef, 0x95, 0x60, 0x18,
            0x90, 0xaf, 0xd8, 0x07, 0x09,
        ]
    );
    assert_eq!(
        sha1(b"abc"),
        [
            0xa9, 0x99, 0x3e, 0x36, 0x47, 0x06, 0x81, 0x6a, 0xba, 0x3e, 0x25, 0x71, 0x78, 0x50, 0xc2,
            0x6c, 0x9c, 0xd0, 0xd8, 0x9d,
        ]
    );
}

#[test]
fn sha1_two_block_message() {
    let msg = b"abcdbcdecdefdefgefghfghighijhijkijkljklmklmnlmnomnopnopq";
    assert_eq!(
        sha1(msg),
        [
            0x84, 0x98, 0x3e, 0x44, 0x1c, 0x3b, 0xd2, 0x6e, 0xba, 0xae, 0x4a, 0xa1, 0xf9, 0x51, 0x29,
            0xe5, 0xe5, 0x46, 0x70, 0xf1,
        ]
    );
}

#[test]
fn build_ocsp_request_produces_valid_der() {
    let request = build_ocsp_request(&[0x01, 0x02], &[0x30, 0x00], &[0x30, 0x00]);
    assert_eq!(request[0], 0x30, "must start with SEQUENCE");
    let mut pos = 0;
    let (tag, _) = read_tl(&request, &mut pos).unwrap();
    assert_eq!(tag, 0x30);
}

#[test]
fn build_ocsp_request_nesting() {
    let request = build_ocsp_request(&[0x01], &[0x30, 0x00], &[0x30, 0x00]);
    let mut pos = 0;
    for _ in 0..5 {
        let (tag, _) = read_tl(&request, &mut pos).unwrap();
        assert_eq!(tag, 0x30);
    }
    assert_eq!(read_tl(&request, &mut pos).unwrap(), (0x30, 9));
    assert_eq!(read_tl(&request, &mut pos).unwrap(), (0x06, 5));
}

#[test]
fn read_tl_errors_move_the_cursor() {
    let mut pos = 0;
    assert!(read_tl(&[], &mut pos).is_err());
    assert_eq!(pos, 0);
    let mut pos = 0;
    assert!(read_tl(&[0x30], &mut pos).is_err());
    assert_eq!(pos, 1);
    let mut pos = 0;
    assert!(read_tl(&[0x30, 0x82, 0x01], &mut pos).is_err());
    assert_eq!(pos, 2);
    let mut pos = 0;
    assert_eq!(read_tl(&[0x04, 0x81, 0xC8], &mut pos).unwrap(), (0x04, 200));
    assert_eq!(pos, 3);
}

fn build_test_ocsp_response(status_tag: u8, status_value: &[u8]) -> Vec<u8> {
    let sha1_oid: &[u8] = &[0x06, 0x05, 0x2B, 0x0E, 0x03, 0x02, 0x1A];
    let null_bytes: &[u8] = &[0x05, 0x00];
    let mut alg_val = Vec::new();
    alg_val.extend_from_slice(sha1_oid);
    alg_val.extend_from_slice(null_bytes);
    let alg_id = der_sequence(&alg_val);
    let mut cid_val = Vec::new();
    cid_val.extend_from_slice(&alg_id);
    cid_val.extend_from_slice(&der_octet_string(&[0u8; 20]));
    cid_val.extend_from_slice(&der_octet_string(&[0u8; 20]));
    cid_val.extend_from_slice(&der_integer_positive(&[0x01]));
    let cert_id = der_sequence(&cid_val);
    let cert_status = der_wrap(status_tag, status_value);
    let this_update = der_wrap(0x18, b"260810000000Z");
    let mut sr_val = Vec::new();
    sr_val.extend_from_slice(&cert_id);
    sr_val.extend_from_slice(&cert_status);
    sr_val.extend_from_slice(&this_update);
    let single_response = der_sequence(&sr_val);
    let responses = der_sequence(&single_response);
    let responder_id = der_wrap(0xA2, &der_octet_string(&[0u8; 20]));
    let produced_at = der_wrap(0x18, b"260810000000Z");
    let mut rd_val = Vec::new();
    rd_val.extend_from_slice(&responder_id);
    rd_val.extend_from_slice(&produced_at);
    rd_val.extend_from_slice(&responses);
    let response_data = der_sequence(&rd_val);
    let mut sig_alg_val = Vec::new();
    sig_alg_val.extend_from_slice(sha1_oid);
    sig_alg_val.extend_from_slice(null_bytes);
    let sig_alg = der_sequence(&sig_alg_val);
    let signature = der_wrap(0x03, &[0x00, 0x40]);
    let mut bor_val = Vec::new();
    bor_val.extend_from_slice(&response_data);
    bor_val.extend_from_slice(&sig_alg);
    bor_val.extend_from_slice(&signature);
    let basic_response = der_sequence(&bor_val);
    let response_octet = der_octet_string(&basic_response);
    let ocsp_basic_oid: &[u8] = &[0x06, 0x09, 0x2B, 0x06, 0x01, 0x05, 0x05, 0x07, 0x30, 0x01, 0x01];
    let mut resp_bytes_val = Vec::new();
    resp_bytes_val.extend_from_slice(ocsp_basic_oid);
    resp_bytes_val.extend_from_slice(&response_octet);
    let response_bytes = der_sequence(&resp_bytes_val);
    let response_bytes_explicit = der_wrap(0xA0, &response_bytes);
    let response_status = der_wrap(0x0A, &[0x00]);
    let mut ocsp_val = Vec::new();
    ocsp_val.extend_from_slice(&response_status);
    ocsp_val.extend_from_slice(&response_bytes_explicit);
    der_sequence(&ocsp_val)
}

#[test]
fn parse_ocsp_response_good() {
    let response = build_test_ocsp_response(0x80, &[]);
    assert!(!parse_ocsp_response(&response).unwrap());
}

#[test]
fn parse_ocsp_response_revoked() {
    let rev_time = der_wrap(0x18, b"260810000000Z");
    let revoked_info = der_sequence(&rev_time);
    let response = build_test_ocsp_response(0xA1, &revoked_info);
    assert!(parse_ocsp_response(&response).unwrap());
}

#[test]
fn parse_ocsp_response_unknown() {
    let response = build_test_ocsp_response(0x82, &[]);
    assert!(!parse_ocsp_response(&response).unwrap());
}

#[test]
fn parse_ocsp_response_malformed() {
    assert!(parse_ocsp_response(&[]).is_err());
    assert!(parse_ocsp_response(&[0x30, 0x00]).is_err());
}

#[test]
fn parse_ocsp_response_non_successful_status() {
    let response_status = der_wrap(0x0A, &[0x02]);
    let mut val = Vec::new();
    val.extend_from_slice(&response_status);
    let response = der_sequence(&val);
    assert!(!parse_ocsp_response(&response).unwrap());
}

#[test]
fn parse_ocsp_response_error_messages() {
    match parse_ocsp_response(&[0x31, 0x00]) {
        Err(e) => assert_eq!(format!("{:?}", e), "Conversion(\"OCSP: not SEQUENCE\")"),
        Ok(_) => panic!("expected an error"),
    }
    match parse_ocsp_response(&[0x30, 0x03, 0x0A, 0x02, 0x00]) {
        Err(e) => assert_eq!(format!("{:?}", e), "Conversion(\"OCSP: bad responseStatus\")"),
        Ok(_) => panic!("expected an error"),
    }
}

#[test]
fn read_ocsp_response_flags_a_missing_status_byte() {
    assert!(read_ocsp_response(&[0x30, 0x03, 0x0A, 0x01]).is_none());
}

#[test]
fn ocsp_verdict_is_conservative() {
    assert_eq!(ocsp_verdict(None), Some(false));
    assert_eq!(ocsp_verdict(Some(&[0x31, 0x00])), Some(false));
    let revoked = build_test_ocsp_response(0x81, &[]);
    assert_eq!(ocsp_verdict(Some(&revoked)), Some(true));
}

#[test]
fn ocsp_check_full_invalid_cert_returns_error() {
    assert!(extract_ocsp_issuer_fields(&[0x30, 0x00]).is_err(), "invalid cert DER must return Err");
}

const OCSP_TEST_CERT_PEM: &str = "-----BEGIN CERTIFICATE-----\nMIIDKzCCAhOgAwIBAgIUdCE8I095XmtRZqsbOmt4u+oqg/cwDQYJKoZIhvcNAQEL\nBQAwJTERMA8GA1UEAwwIVGVzdENlcnQxEDAOBgNVBAoMB1Rlc3RPcmcwHhcNMjYw\nODEwMTMzNjAwWhcNMzYwODA3MTMzNjAwWjAlMREwDwYDVQQDDAhUZXN0Q2VydDEQ\nMA4GA1UECgwHVGVzdE9yZzCCASIwDQYJKoZIhvcNAQEBBQADggEPADCCAQoCggEB\nAJAUqZdgNuPf2BjtDkFJy2acVaXWnl6X8rDlvnLCuLWsCPE67nZJFFw1Mge/WyaD\nPs+e/UUeo/O3lfi8s6zICR7NCzV0f1KVFHw4oPGOqyLoHftYB8o97B5haC9SmmbD\nVyHbDw++8zDqHk03UKooSrglQv1kap3Kix6JD/ZV8YVNTynYevR7/Mxp31U5lQ19\njOBPF39+KTxO9lRiqIl7fp0ZP+QO/bCEBUdP6t8P6sWTPyPrdPUmUSjg+JCqNnDy\ncGiP2loTSIdDwtoV2FNhTLlZShO9dSGIaBHPgryeYPd6CofzF4OmE9c8dpDpq3bT\n/Z9Uo1wcx2Lq6JdOecAZSRcCAwEAAaNTMFEwHQYDVR0OBBYEFDmaH8gZQ5TEorRY\n8TooyQVBKgG6MB8GA1UdIwQYMBaAFDmaH8gZQ5TEorRY8TooyQVBKgG6MA8GA1Ud\nEwEB/wQFMAMBAf8wDQYJKoZIhvcNAQELBQADggEBAIlZI7gfpVRni0fdevifAouS\nI3Gz2bedWOzixeouYSsuuaxplrDgwWdDporihfIWSYjC+Yv4EJn0k3DvnP8ZCCfb\neLiYaWmKSiEqzGbQ6fiODYH1fuhiMs3wA8Xd0ChFYlcvYTIHHcJI+s2U3JanUPJF\nI/A1bFFDV0LBE7oOSzNSroWhGSUip7mU9S8KcTdv2MrVSTy5SGNkzDAHO8ZPtnWN\nDv34h7Ee6wJo2j68qv8k3L+YZH4/SoGNMf4e0/Zz5eH5uCjFY0qofEaYM+e5Xwz+\nQCVp1Lzu+cm1z8xC9cK738hV2ZNNZLQX89TIgcfaNJu6POEISvvtTJEFrNwtWi4=\n-----END CERTIFICATE-----";

#[test]
fn extract_ocsp_issuer_fields_from_valid_cert() {
    let pem = pem::parse(OCSP_TEST_CERT_PEM).expect("PEM");
    let der = pem.contents();
    let (name_der, spki_der) = extract_ocsp_issuer_fields(der).unwrap();
    assert_eq!(name_der[0], 0x30, "issuer name DER must start with SEQUENCE");
    assert_eq!(spki_der[0], 0x30, "SPKI DER must start with SEQUENCE");
    assert!(!name_der.is_empty());
    assert!(!spki_der.is_empty());
    assert_ne!(name_der, spki_der, "name and SPKI must differ");
}

#[test]
fn ocsp_request_der_from_real_cert_has_valid_structure() {
    let pem = pem::parse(OCSP_TEST_CERT_PEM).expect("PEM");
    let der = pem.contents();
    let (name_der, spki_der) = extract_ocsp_issuer_fields(der).unwrap();
    let request = build_ocsp_request(&[0x01, 0x02, 0x03], &name_der, &spki_der);
    assert_eq!(request[0], 0x30);
    let mut pos = 0;
    let (tag, _) = read_tl(&request, &mut pos).unwrap();
    assert_eq!(tag, 0x30, "outer SEQUENCE");
    let (tag, _) = read_tl(&request, &mut pos).unwrap();
    assert_eq!(tag, 0x30, "TBSRequest");
    let (tag, _) = read_tl(&request, &mut pos).unwrap();
    assert_eq!(tag, 0x30, "requestList");
    let (tag, _) = read_tl(&request, &mut pos).unwrap();
    assert_eq!(tag, 0x30, "Request");
    let (tag, cid_len) = read_tl(&request, &mut pos).unwrap();
    assert_eq!(tag, 0x30, "CertID");
    assert!(cid_len > 0, "CertID must have content");
    let (tag, alg_len) = read_tl(&request, &mut pos).unwrap();
    assert_eq!(tag, 0x30, "CertID alg_id");
    pos += alg_len;
    let (tag, nh_len) = read_tl(&request, &mut pos).unwrap();
    assert_eq!(tag, 0x04, "issuerNameHash OCTET STRING");
    assert_eq!(nh_len, 20, "SHA-1 hash must be 20 bytes");
}
