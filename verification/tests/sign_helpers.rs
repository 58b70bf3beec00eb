use easyofd_signature::sm2_sig::{sm2_sign_with_sm3, sm2_try_sign_with_sm3, SM2_DIST_ID};
use easyofd_signature::timestamp::generalized_time_now;
use easyofd_signature::verify_signature::seal_match_verdict;
use sm2::dsa::signature::Verifier;
use sm2::elliptic_curve::Generate;

#[test]
fn sm2_sign_with_sm3_produces_signature() {
    let sk = sm2::SecretKey::generate();
    let sig = sm2_sign_with_sm3(&sk.to_bytes(), b"test data");
    assert!(!sig.is_empty());
    assert_eq!(sig.len(), 64);
    let vk = sm2::dsa::SigningKey::new(SM2_DIST_ID, &sk).unwrap().verifying_key().clone();
    let s = sm2::dsa::Signature::from_slice(&sig).unwrap();
    assert!(vk.verify(b"test data", &s).is_ok());
    assert!(vk.verify(b"other data", &s).is_err());
}

#[test]
fn sm2_try_sign_refuses_a_bad_key() {
    assert!(sm2_try_sign_with_sm3(&[0u8; 32], b"data").is_err());
    assert!(sm2_try_sign_with_sm3(&[1u8; 5], b"data").is_err());
    let mut k = [0u8; 32];
    k[31] = 7;
    assert_eq!(sm2_try_sign_with_sm3(&k, b"data").unwrap().len(), 64);
}

#[test]
fn generalized_time_now_format() {
    let gt = generalized_time_now();
    assert!(gt.ends_with('Z'));
    assert_eq!(gt.len(), 15);
    assert!(gt[..14].bytes().all(|b| b.is_ascii_digit()));
}

#[test]
fn seal_match_verdict_cases() {
    assert!(seal_match_verdict(None, &[1, 2, 3]));
    assert!(seal_match_verdict(Some(&[1, 2, 3]), &[1, 2, 3]));
    assert!(!seal_match_verdict(Some(&[1, 2]), &[1, 2, 3]));
    assert!(!seal_match_verdict(Some(&[]), &[0]));
}
