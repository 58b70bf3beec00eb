use easyofd_signature::seal::{decode_seal_esl, encode_seal_esl, riding_stamp_chunks, SealInfo, TAG_SEQUENCE};
use easyofd_signature::utc_time::UtcDateTime;

fn sample_seal_info() -> SealInfo {
    SealInfo {
        name: "TestSeal".into(),
        created_at: UtcDateTime::from_ymd_hms(2025, 1, 1, 0, 0, 0).unwrap(),
        valid_until: UtcDateTime::from_ymd_hms(2030, 1, 1, 0, 0, 0).unwrap(),
        cert_der: vec![0x30, 0x03, 0x02, 0x01, 0x01],
        image: vec![0x89, 0x50, 0x4E, 0x47],
        version: 1,
    }
}

#[test]
fn seal_esl_roundtrip() {
    let info = sample_seal_info();
    let der = encode_seal_esl(&info).unwrap();
    let decoded = decode_seal_esl(&der).unwrap();
    assert_eq!(decoded.version, info.version);
    assert_eq!(decoded.cert_der, info.cert_der);
}

#[test]
fn encode_starts_with_sequence_tag() {
    let der = encode_seal_esl(&sample_seal_info()).unwrap();
    assert_eq!(der[0], TAG_SEQUENCE);
}

#[test]
fn seal_decode_rejects_non_sequence() {
    let bad = &[0xA0, 0x03, 0x01, 0x01, 0x00];
    assert!(decode_seal_esl(bad).is_err());
}

#[test]
fn decode_rejects_truncated_input() {
    let bad = &[0x30, 0x05, 0x02, 0x01];
    assert!(decode_seal_esl(bad).is_err());
}

#[test]
fn encode_decode_roundtrip_version_zero() {
    let mut info = sample_seal_info();
    info.version = 0;
    let der = encode_seal_esl(&info).unwrap();
    let decoded = decode_seal_esl(&der).unwrap();
    assert_eq!(decoded.version, 0);
}

#[test]
fn encode_decode_roundtrip_large_version() {
    let mut info = sample_seal_info();
    info.version = 0x8000_0001;
    let der = encode_seal_esl(&info).unwrap();
    let decoded = decode_seal_esl(&der).unwrap();
    assert_eq!(decoded.version, 0x8000_0001);
}

#[test]
fn encode_decode_roundtrip_empty_cert_der() {
    let mut info = sample_seal_info();
    info.cert_der = Vec::new();
    let der = encode_seal_esl(&info).unwrap();
    let decoded = decode_seal_esl(&der).unwrap();
    assert!(decoded.cert_der.is_empty());
    assert_eq!(decoded.version, info.version);
}

#[test]
fn encode_decode_roundtrip_large_cert_der() {
    let mut info = sample_seal_info();
    info.cert_der = vec![0xAB; 300];
    let der = encode_seal_esl(&info).unwrap();
    let decoded = decode_seal_esl(&der).unwrap();
    assert_eq!(decoded.cert_der, info.cert_der);
}

#[test]
fn seal_decode_rejects_empty_input() {
    assert!(decode_seal_esl(&[]).is_err());
}

#[test]
fn decode_rejects_wrong_integer_tag() {
    let bad = &[0x30, 0x03, 0x04, 0x01, 0x00];
    assert!(decode_seal_esl(bad).is_err());
}

#[test]
fn decode_rejects_wrong_octet_string_tag() {
    let bad = &[0x30, 0x06, 0x02, 0x01, 0x01, 0x02, 0x01, 0x00];
    assert!(decode_seal_esl(bad).is_err());
}

#[test]
fn decode_rejects_wrong_bit_string_tag() {
    let bad = &[0x30, 0x08, 0x02, 0x01, 0x01, 0x04, 0x01, 0xAA, 0x02, 0x01, 0x00];
    assert!(decode_seal_esl(bad).is_err());
}

#[test]
fn encode_starts_with_sequence_for_zero_version() {
    let mut info = sample_seal_info();
    info.version = 0;
    let der = encode_seal_esl(&info).unwrap();
    assert_eq!(der[0], TAG_SEQUENCE);
}

#[test]
fn bytes_to_u32_empty_is_zero() {
    let mut info = sample_seal_info();
    info.version = 0;
    let der = encode_seal_esl(&info).unwrap();
    let decoded = decode_seal_esl(&der).unwrap();
    assert_eq!(decoded.version, 0);
}

#[test]
fn bytes_to_u32_multi_byte() {
    let mut info = sample_seal_info();
    info.version = 256;
    let der = encode_seal_esl(&info).unwrap();
    let decoded = decode_seal_esl(&der).unwrap();
    assert_eq!(decoded.version, 256);
}

#[test]
fn encode_der_length_short_form() {
    let mut info = sample_seal_info();
    info.cert_der = vec![0x00; 10];
    let der = encode_seal_esl(&info).unwrap();
    let decoded = decode_seal_esl(&der).unwrap();
    assert_eq!(decoded.cert_der.len(), 10);
}

#[test]
fn encode_der_length_two_byte_form() {
    let mut info = sample_seal_info();
    info.cert_der = vec![0x00; 200];
    let der = encode_seal_esl(&info).unwrap();
    let decoded = decode_seal_esl(&der).unwrap();
    assert_eq!(decoded.cert_der.len(), 200);
}

#[test]
fn encode_der_length_three_byte_form() {
    let mut info = sample_seal_info();
    info.cert_der = vec![0x00; 300];
    let der = encode_seal_esl(&info).unwrap();
    let decoded = decode_seal_esl(&der).unwrap();
    assert_eq!(decoded.cert_der.len(), 300);
}

#[test]
fn encode_exact_bytes() {
    let mut info = sample_seal_info();
    info.version = 0x80;
    info.cert_der = vec![0xAA];
    let der = encode_seal_esl(&info).unwrap();
    assert_eq!(der, vec![0x30, 0x0A, 0x02, 0x02, 0x00, 0x80, 0x04, 0x01, 0xAA, 0x03, 0x01, 0x00]);
}

#[test]
fn decode_fills_defaults_and_reports_tag() {
    let der = encode_seal_esl(&sample_seal_info()).unwrap();
    let decoded = decode_seal_esl(&der).unwrap();
    assert!(decoded.name.is_empty());
    assert!(decoded.image.is_empty());
    assert_eq!(decoded.created_at, UtcDateTime::epoch());
    assert_eq!(decoded.valid_until.year(), 1970);
    let err = decode_seal_esl(&[0xA0, 0x00]).unwrap_err();
    assert_eq!(
        format!("{err:?}"),
        "Conversion(\"SignerCertEs: expected SEQUENCE (0x30), got 0xA0\")"
    );
    let err = decode_seal_esl(&[0x30]).unwrap_err();
    assert_eq!(format!("{err:?}"), "Conversion(\"DER: truncated length\")");
    let err = decode_seal_esl(&[0x30, 0x80]).unwrap_err();
    assert_eq!(format!("{err:?}"), "Conversion(\"DER: invalid length encoding\")");
}

#[test]
fn decode_keeps_low_32_bits_of_version() {
    let der = [0x30, 0x0C, 0x02, 0x05, 0x01, 0x00, 0x00, 0x00, 0x07, 0x04, 0x00, 0x03, 0x01, 0x00];
    assert_eq!(decode_seal_esl(&der).unwrap().version, 7);
}

#[test]
fn riding_stamp_image_data_split_evenly() {
    let image: Vec<u8> = (0..100).collect();
    let chunks = riding_stamp_chunks(&image, 4);
    assert_eq!(chunks.len(), 4);
    assert_eq!(chunks[0].len(), 25);
    assert_eq!(chunks[0][0], 0);
    assert_eq!(chunks[3].len(), 25);
}

#[test]
fn riding_stamp_single_page() {
    let image = vec![0xEE; 100];
    let chunks = riding_stamp_chunks(&image, 1);
    assert_eq!(chunks.len(), 1);
    assert_eq!(chunks[0], image);
}

#[test]
fn riding_stamp_empty_pages_returns_empty() {
    assert!(riding_stamp_chunks(&[0x01; 100], 0).is_empty());
}

#[test]
fn riding_stamp_uneven_last_chunk_is_short() {
    let image: Vec<u8> = (0..10).collect();
    let chunks = riding_stamp_chunks(&image, 3);
    assert_eq!(chunks, vec![vec![0, 1, 2, 3], vec![4, 5, 6, 7], vec![8, 9]]);
}

#[test]
fn conformance_seal_esl() {
    let info = SealInfo {
        name: "ConformanceSeal".into(),
        created_at: UtcDateTime::now(),
        valid_until: UtcDateTime::now(),
        cert_der: vec![0x30, 0x82, 0x01, 0x22, 0x30, 0x0D],
        image: vec![0x89, 0x50, 0x4E, 0x47, 0x0D, 0x0A, 0x1A, 0x0A],
        version: 2,
    };
    let der = encode_seal_esl(&info).expect("encode_seal_esl must succeed");
    assert!(!der.is_empty(), "DER output must not be empty");
    assert_eq!(der[0], 0x30, "DER must start with SEQUENCE tag");
    let decoded = decode_seal_esl(&der).expect("decode_seal_esl must succeed");
    assert_eq!(decoded.version, info.version, "version must roundtrip");
    assert_eq!(decoded.cert_der, info.cert_der, "cert_der must roundtrip");
    assert!(decoded.name.is_empty(), "name is not in ASN.1, should be empty on decode");
    assert!(decoded.image.is_empty(), "image is not in ASN.1, should be empty on decode");
    let re_encoded = encode_seal_esl(&decoded).expect("re-encode must succeed");
    assert_eq!(der, re_encoded, "encode -> decode -> encode must be idempotent");
}

#[test]
fn conformance_seal_esl_large_cert() {
    let info = SealInfo {
        name: "LargeCertSeal".into(),
        created_at: UtcDateTime::now(),
        valid_until: UtcDateTime::now(),
        cert_der: vec![0xAB; 256],
        image: Vec::new(),
        version: 1,
    };
    let der = encode_seal_esl(&info).unwrap();
    let decoded = decode_seal_esl(&der).unwrap();
    assert_eq!(decoded.cert_der.len(), 256);
    assert_eq!(decoded.cert_der, info.cert_der);
    assert_eq!(decoded.version, 1);
}

#[test]
fn conformance_seal_esl_high_version() {
    let info = SealInfo {
        name: "HighVersionSeal".into(),
        created_at: UtcDateTime::now(),
        valid_until: UtcDateTime::now(),
        cert_der: vec![0x01, 0x02],
        image: Vec::new(),
        version: 0x8000_0001,
    };
    let der = encode_seal_esl(&info).unwrap();
    let decoded = decode_seal_esl(&der).unwrap();
    assert_eq!(decoded.version, 0x8000_0001);
}
