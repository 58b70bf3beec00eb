use der::Decode;
use sm2::dsa::signature::Signer;
use sm2::elliptic_curve::Generate;
use easyofd_signature::cert::{parse_x509_der, parse_x509_pem, verify_cert_signature, verify_chain, CertificateInfo};
use easyofd_signature::utc_time::UtcDateTime;
use x509_cert::Certificate;

const TEST_CERT_PEM: &str = "-----BEGIN CERTIFICATE-----\nMIIDKzCCAhOgAwIBAgIUdCE8I095XmtRZqsbOmt4u+oqg/cwDQYJKoZIhvcNAQEL\nBQAwJTERMA8GA1UEAwwIVGVzdENlcnQxEDAOBgNVBAoMB1Rlc3RPcmcwHhcNMjYw\nODEwMTMzNjAwWhcNMzYwODA3MTMzNjAwWjAlMREwDwYDVQQDDAhUZXN0Q2VydDEQ\nMA4GA1UECgwHVGVzdE9yZzCCASIwDQYJKoZIhvcNAQEBBQADggEPADCCAQoCggEB\nAJAUqZdgNuPf2BjtDkFJy2acVaXWnl6X8rDlvnLCuLWsCPE67nZJFFw1Mge/WyaD\nPs+e/UUeo/O3lfi8s6zICR7NCzV0f1KVFHw4oPGOqyLoHftYB8o97B5haC9SmmbD\nVyHbDw++8zDqHk03UKooSrglQv1kap3Kix6JD/ZV8YVNTynYevR7/Mxp31U5lQ19\njOBPF39+KTxO9lRiqIl7fp0ZP+QO/bCEBUdP6t8P6sWTPyPrdPUmUSjg+JCqNnDy\ncGiP2loTSIdDwtoV2FNhTLlZShO9dSGIaBHPgryeYPd6CofzF4OmE9c8dpDpq3bT\n/Z9Uo1wcx2Lq6JdOecAZSRcCAwEAAaNTMFEwHQYDVR0OBBYEFDmaH8gZQ5TEorRY\n8TooyQVBKgG6MB8GA1UdIwQYMBaAFDmaH8gZQ5TEorRY8TooyQVBKgG6MA8GA1Ud\nEwEB/wQFMAMBAf8wDQYJKoZIhvcNAQELBQADggEBAIlZI7gfpVRni0fdevifAouS\nI3Gz2bedWOzixeouYSsuuaxplrDgwWdDporihfIWSYjC+Yv4EJn0k3DvnP8ZCCfb\neLiYaWmKSiEqzGbQ6fiODYH1fuhiMs3wA8Xd0ChFYlcvYTIHHcJI+s2U3JanUPJF\nI/A1bFFDV0LBE7oOSzNSroWhGSUip7mU9S8KcTdv2MrVSTy5SGNkzDAHO8ZPtnWN\nDv34h7Ee6wJo2j68qv8k3L+YZH4/SoGNMf4e0/Zz5eH5uCjFY0qofEaYM+e5Xwz+\nQCVp1Lzu+cm1z8xC9cK738hV2ZNNZLQX89TIgcfaNJu6POEISvvtTJEFrNwtWi4=\n-----END CERTIFICATE-----";

fn info(subject: &str, issuer: &str, serial: Vec<u8>) -> CertificateInfo {
    CertificateInfo {
        subject: subject.into(),
        issuer: issuer.into(),
        serial,
        not_before: UtcDateTime::now(),
        not_after: UtcDateTime::now(),
        raw_der: vec![],
    }
}

#[test]
fn parse_x509_der_smoke() {
    let pem = pem::parse(TEST_CERT_PEM).expect("PEM should parse");
    let der = pem.contents();
    let info = parse_x509_der(der).expect("DER should parse");
    assert!(info.subject.contains("CN=TestCert"), "subject: {}", info.subject);
    assert!(info.subject.contains("O=TestOrg"), "subject: {}", info.subject);
    assert!(info.issuer.contains("CN=TestCert"), "issuer: {}", info.issuer);
    assert!(info.issuer.contains("O=TestOrg"), "issuer: {}", info.issuer);
    assert!(!info.serial.is_empty());
    assert!(!info.raw_der.is_empty());
    assert_eq!(info.raw_der, der);
}

#[test]
fn parse_x509_pem_extracts_fields() {
    let info = parse_x509_pem(TEST_CERT_PEM).expect("PEM should parse");
    assert!(info.subject.contains("CN=TestCert"), "subject: {}", info.subject);
    assert!(info.subject.contains("O=TestOrg"), "subject: {}", info.subject);
    assert!(info.issuer.contains("CN=TestCert"), "issuer: {}", info.issuer);
    assert!(info.issuer.contains("O=TestOrg"), "issuer: {}", info.issuer);
    assert!(!info.serial.is_empty());
    assert!(info.not_before.fields() < info.not_after.fields());
    assert!(!info.raw_der.is_empty());
}

#[test]
fn parse_x509_der_rejects_garbage() {
    assert!(parse_x509_der(&[0x00, 0x01, 0x02]).is_err());
}

#[test]
fn parse_x509_pem_rejects_garbage() {
    assert!(parse_x509_pem("not a valid PEM").is_err());
}

#[test]
fn verify_chain_rejects_mismatched_issuer() {
    let leaf = info("CN=leaf", "CN=wrong", vec![1]);
    let root = info("CN=root", "CN=root", vec![2]);
    assert!(!verify_chain(&leaf, &[], &root, None).unwrap());
}

#[test]
fn verify_chain_rejects_duplicate_serial() {
    let leaf = info("CN=leaf", "CN=root", vec![1]);
    let root = info("CN=root", "CN=root", vec![1]);
    assert!(!verify_chain(&leaf, &[], &root, None).unwrap());
}

#[test]
fn verify_chain_accepts_valid_chain() {
    let leaf = info("CN=leaf", "CN=inter", vec![1]);
    let inter = info("CN=inter", "CN=root", vec![2]);
    let root = info("CN=root", "CN=root", vec![3]);
    assert!(verify_chain(&leaf, &[inter], &root, None).unwrap());
}

#[test]
fn verify_chain_rejects_intermediate_link_mismatch() {
    let leaf = info("CN=leaf", "CN=inter1", vec![1]);
    let inter = info("CN=inter2", "CN=root", vec![2]);
    let root = info("CN=root", "CN=root", vec![3]);
    assert!(!verify_chain(&leaf, &[inter], &root, None).unwrap());
}

#[test]
fn verify_chain_rejects_intermediate_duplicate_serial() {
    let leaf = info("CN=leaf", "CN=inter", vec![1]);
    let inter = info("CN=inter", "CN=root", vec![3]);
    let root = info("CN=root", "CN=root", vec![3]);
    assert!(!verify_chain(&leaf, &[inter], &root, None).unwrap());
}

#[test]
fn parse_x509_der_returns_correct_raw_der() {
    let pem = pem::parse(TEST_CERT_PEM).expect("PEM should parse");
    let der = pem.contents();
    let info = parse_x509_der(der).expect("DER should parse");
    assert_eq!(info.raw_der.len(), der.len());
    assert_eq!(info.raw_der, der);
}

#[test]
fn parse_x509_der_validity_period_order() {
    let info = parse_x509_pem(TEST_CERT_PEM).expect("PEM should parse");
    assert!(info.not_before.fields() < info.not_after.fields(), "not_before must precede not_after");
    assert_eq!(info.not_before.year(), 2026);
    assert_eq!(info.not_after.year(), 2036);
}

#[test]
fn verify_chain_rejects_self_signed_with_wrong_signature() {
    let pem = pem::parse(TEST_CERT_PEM).expect("PEM should parse");
    let der = pem.contents();
    let cert_info = parse_x509_der(der).unwrap();
    let mut root = cert_info.clone();
    root.serial = vec![0xFF];
    assert!(
        verify_chain(&cert_info, &[], &root, None).unwrap(),
        "valid self-signed chain with different serials should be accepted"
    );
    let mut corrupted = cert_info.clone();
    let sig_start = corrupted.raw_der.len() * 4 / 5;
    for b in &mut corrupted.raw_der[sig_start..] {
        *b ^= 0xFF;
    }
    let result = verify_chain(&corrupted, &[], &root, None);
    assert!(result.is_ok(), "corrupted DER should not cause a hard error");
    let mut bad_root = cert_info.clone();
    bad_root.subject = "CN=wrong".into();
    bad_root.serial = vec![0xFE];
    assert!(
        !verify_chain(&cert_info, &[], &bad_root, None).unwrap(),
        "mismatched subject/issuer must be rejected even with raw_der"
    );
}

#[test]
fn verify_chain_with_ocsp_endpoint_placeholder() {
    let leaf = info("CN=leaf", "CN=root", vec![1]);
    let root = info("CN=root", "CN=root", vec![2]);
    assert!(verify_chain(&leaf, &[], &root, Some("http://ocsp.example.com")).unwrap());
}

#[test]
fn verify_cert_signature_needs_both_encodings() {
    let leaf = info("CN=leaf", "CN=root", vec![1]);
    let mut root = info("CN=root", "CN=root", vec![2]);
    root.raw_der = vec![0x30, 0x00];
    assert!(verify_cert_signature(&leaf, &root).unwrap());
}

#[test]
fn verify_cert_signature_reports_bad_child_der() {
    let mut leaf = info("CN=leaf", "CN=root", vec![1]);
    leaf.raw_der = vec![0x01, 0x02];
    let mut root = info("CN=root", "CN=root", vec![2]);
    root.raw_der = vec![0x30, 0x00];
    let e = verify_cert_signature(&leaf, &root).unwrap_err();
    assert!(format!("{:?}", e).contains("child cert DER parse error: "));
}

/// Raw OID bytes for SM2-with-SM3 signature (1.2.156.10197.1.501).
const OID_SM2_SM3: &[u8] = &[0x2A, 0x81, 0x1C, 0xCF, 0x55, 0x01, 0x83, 0x75];
/// Raw OID bytes for SM2 elliptic curve (1.2.156.10197.1.301).
const OID_SM2_CURVE: &[u8] = &[0x2A, 0x81, 0x1C, 0xCF, 0x55, 0x01, 0x82, 0x2D];
/// Raw OID bytes for id-ecPublicKey (1.2.840.10045.2.1).
const OID_EC_PUBKEY: &[u8] = &[0x2A, 0x86, 0x48, 0xCE, 0x3D, 0x02, 0x01];
/// OID bytes for commonName (2.5.4.3).
const OID_CN: &[u8] = &[0x55, 0x04, 0x03];
/// OID bytes for organizationName (2.5.4.10).
const OID_O: &[u8] = &[0x55, 0x04, 0x0A];

// ---- low-level DER encoding helpers ----

fn der_push_len(len: usize, out: &mut Vec<u8>) {
    if len < 0x80 {
        out.push(len as u8);
    } else if len < 0x100 {
        out.extend_from_slice(&[0x81, len as u8]);
    } else {
        out.extend_from_slice(&[0x82, (len >> 8) as u8, (len & 0xFF) as u8]);
    }
}

fn der_tlv(tag: u8, content: &[u8]) -> Vec<u8> {
    let mut v = Vec::with_capacity(4 + content.len());
    v.push(tag);
    der_push_len(content.len(), &mut v);
    v.extend_from_slice(content);
    v
}

fn der_seq(c: &[u8]) -> Vec<u8> {
    der_tlv(0x30, c)
}
fn der_set(c: &[u8]) -> Vec<u8> {
    der_tlv(0x31, c)
}
fn der_oid(oid: &[u8]) -> Vec<u8> {
    der_tlv(0x06, oid)
}
fn der_utf8(s: &str) -> Vec<u8> {
    der_tlv(0x0C, s.as_bytes())
}
fn der_utc(s: &str) -> Vec<u8> {
    der_tlv(0x17, s.as_bytes())
}

/// Encode a small positive integer (0..127).
fn der_int_small(v: u8) -> Vec<u8> {
    der_tlv(0x02, &[v])
}

fn der_bitstring(raw: &[u8]) -> Vec<u8> {
    // BIT STRING with 0 unused bits: prepend 0x00 byte.
    let mut content = Vec::with_capacity(1 + raw.len());
    content.push(0x00);
    content.extend_from_slice(raw);
    der_tlv(0x03, &content)
}

/// Context-specific constructed tag [tag_num].
fn der_ctx(tag_num: u8, content: &[u8]) -> Vec<u8> {
    der_tlv(0xA0 | tag_num, content)
}

// ---- X.509 structure helpers ----

/// Build a Name with CN and O attributes.
fn build_name(cn: &str, org: &str) -> Vec<u8> {
    let cn_atv = der_seq(&[der_oid(OID_CN), der_utf8(cn)].concat());
    let o_atv = der_seq(&[der_oid(OID_O), der_utf8(org)].concat());
    // Name ::= SEQUENCE OF RDN; RDN ::= SET OF AttributeTypeAndValue
    let cn_rdn = der_set(&cn_atv);
    let o_rdn = der_set(&o_atv);
    der_seq(&[cn_rdn, o_rdn].concat())
}

/// SM2-with-SM3 AlgorithmIdentifier.
fn sm2_alg_id() -> Vec<u8> {
    der_seq(&der_oid(OID_SM2_SM3))
}

/// SubjectPublicKeyInfo for SM2 public key (SEC1 uncompressed point).
fn build_spki(sec1_bytes: &[u8]) -> Vec<u8> {
    // AlgorithmIdentifier ::= SEQUENCE { OID id-ecPublicKey, OID SM2 curve }
    let alg_id = der_seq(&[der_oid(OID_EC_PUBKEY), der_oid(OID_SM2_CURVE)].concat());
    der_seq(&[alg_id, der_bitstring(sec1_bytes)].concat())
}

/// Build TBSCertificate DER for an SM2-signed cert.
fn build_tbs(
    serial: u8,
    subject_cn: &str,
    subject_org: &str,
    issuer_cn: &str,
    issuer_org: &str,
    pub_key_sec1: &[u8],
) -> Vec<u8> {
    let version = der_ctx(0, &der_int_small(2)); // v3 = INTEGER 2
    let serial_number = der_int_small(serial);
    let sig_alg = sm2_alg_id(); // AlgorithmIdentifier in TBS
    let issuer = build_name(issuer_cn, issuer_org);
    let validity = der_seq(&[der_utc("260101000000Z"), der_utc("361231235959Z")].concat());
    let subject = build_name(subject_cn, subject_org);
    let spki = build_spki(pub_key_sec1);
    der_seq(
        &[
            version,
            serial_number,
            sig_alg,
            issuer,
            validity,
            subject,
            spki,
        ]
        .concat(),
    )
}

/// Sign `msg` with SM2-DSA and return the raw 64-byte (r||s) signature.
fn sm2_sign_raw(sk: &sm2::SecretKey, msg: &[u8]) -> Vec<u8> {
    let signing_key = sm2::dsa::SigningKey::new("1234567812345678", sk)
        .expect("SM2 SigningKey construction must succeed");
    let sig = signing_key.sign(msg);
    sig.to_bytes().to_vec()
}

/// Assemble a full X.509 Certificate DER from TBS and raw SM2 signature.
fn assemble_cert(tbs_der: &[u8], sig_raw64: &[u8]) -> Vec<u8> {
    let sig_alg = sm2_alg_id();
    let sig_bitstring = der_bitstring(sig_raw64);
    der_seq(&[tbs_der, &sig_alg, &sig_bitstring].concat())
}

/// Generate a self-signed SM2 CA cert. Returns (cert_der, secret_key).
fn gen_sm2_ca() -> (Vec<u8>, sm2::SecretKey) {
    let sk = sm2::SecretKey::generate();
    let pk = sk.public_key();
    let sec1 = pk.to_sec1_bytes();
    let tbs = build_tbs(1, "SM2TestCA", "TestOrg", "SM2TestCA", "TestOrg", &sec1);
    let sig = sm2_sign_raw(&sk, &tbs);
    let cert = assemble_cert(&tbs, &sig);

    // Sanity: verify the cert parses.
    Certificate::from_der(&cert).expect("SM2 CA cert must parse as valid X.509");

    (cert, sk)
}

/// Generate an SM2 leaf cert signed by `ca_sk`, with issuer matching the CA's subject.
fn gen_sm2_leaf(ca_sk: &sm2::SecretKey) -> Vec<u8> {
    let sk = sm2::SecretKey::generate();
    let pk = sk.public_key();
    let sec1 = pk.to_sec1_bytes();
    let tbs = build_tbs(2, "SM2TestLeaf", "TestOrg", "SM2TestCA", "TestOrg", &sec1);
    let sig = sm2_sign_raw(ca_sk, &tbs);
    let cert = assemble_cert(&tbs, &sig);

    // Sanity: verify the cert parses.
    Certificate::from_der(&cert).expect("SM2 leaf cert must parse as valid X.509");

    cert
}


/// Verify that `verify_chain` accepts a valid SM2-signed certificate chain
/// (leaf signed by CA, both carrying SM2-with-SM3 OIDs).
#[test]
fn verify_chain_sm2_valid() {
    let (ca_der, ca_sk) = gen_sm2_ca();
    let leaf_der = gen_sm2_leaf(&ca_sk);

    // Confirm SM2 OID is present in the leaf's signature algorithm.
    let leaf_cert = Certificate::from_der(&leaf_der).expect("leaf re-parse");
    let sig_oid = leaf_cert.signature_algorithm().oid.to_string();
    assert!(
        sig_oid.starts_with("1.2.156.10197"),
        "leaf must carry SM2 signature OID, got: {sig_oid}"
    );

    let leaf = parse_x509_der(&leaf_der).expect("SM2 leaf must parse");
    let root = parse_x509_der(&ca_der).expect("SM2 CA must parse");

    assert!(
        verify_chain(&leaf, &[], &root, None).unwrap(),
        "valid SM2 certificate chain must pass verify_chain"
    );
}

/// Verify that `verify_chain` rejects an SM2-signed certificate whose
/// signature has been tampered with.
#[test]
fn verify_chain_rejects_sm2_with_tampered_signature() {
    let (ca_der, ca_sk) = gen_sm2_ca();
    let leaf_der = gen_sm2_leaf(&ca_sk);

    // Tamper: flip a byte inside the signature BIT STRING content.
    // The signature is the last64 bytes of the outer SEQUENCE, preceded
    // by the 0x00 unused-bits marker.  We flip a byte in the signature.
    let mut tampered = leaf_der.clone();
    // Find the last occurrence of the signature: it's near the end.
    // The BIT STRING tag (0x03) + length (0x41=65) + 0x00 + 64 bytes of sig.
    // So the last 64 bytes are the raw signature.
    if tampered.len() >= 64 {
        let sig_start = tampered.len() - 64;
        tampered[sig_start] ^= 0xFF;
    }

    let leaf = parse_x509_der(&tampered).expect("tampered DER must still parse");
    let root = parse_x509_der(&ca_der).expect("SM2 CA must parse");

    let result = verify_chain(&leaf, &[], &root, None).unwrap();
    assert!(
        !result,
        "SM2 chain with tampered signature must fail verify_chain"
    );
}
