//! SM2 signatures (GB/T 32918) with the distinguishing identifier `1234567812345678`, made
//! and checked by the `sm2` crate. Keys travel as bytes: a secret key as its 32-byte scalar,
//! a public key in SEC1 encoding, a signature as the 64 bytes `r || s`.
use vstd::prelude::*;
use sm2::dsa::signature::{Signer, Verifier};
use sm2::elliptic_curve::Generate;

verus! {

/// The distinguishing identifier used for every SM2 key.
pub const SM2_DIST_ID: &'static str = "1234567812345678";

/// The SEC1 public key of a secret key, or the text of the error that refused the key.
pub uninterp spec fn sm2_public_key_of(secret: Seq<u8>) -> Result<Seq<u8>, Seq<char>>;

/// The signature of `msg` under a secret key (RFC 6979 makes it a function of the key and the
/// message), or the text of the error that refused the key.
pub uninterp spec fn sm2_signature_of(secret: Seq<u8>, msg: Seq<u8>) -> Result<Seq<u8>, Seq<char>>;

/// Why `sm2::dsa::VerifyingKey::from_sec1_bytes` refuses a public key, if it does.
pub uninterp spec fn sm2_key_error(public_key: Seq<u8>) -> Option<Seq<char>>;

/// Why `sm2::dsa::Signature::from_slice` refuses a signature, if it does.
pub uninterp spec fn sm2_signature_error(signature: Seq<u8>) -> Option<Seq<char>>;

/// Whether `signature` verifies `msg` under `public_key`.
pub uninterp spec fn sm2_verifies(public_key: Seq<u8>, msg: Seq<u8>, signature: Seq<u8>) -> bool;

/// `sm2::SecretKey::generate` (the system's random source), as its 32 scalar bytes. The key
/// is random, so which key it is is not stated; it is a non-zero scalar below the group
/// order (what `SecretKey` holds), so `SecretKey::from_slice` and `SigningKey::new` accept
/// its bytes and it has a public key.
#[verifier::external_body]
pub(crate) fn generate_secret_key() -> (r: Vec<u8>)
    ensures
        r@.len() == 32,
        sm2_public_key_of(r@) is Ok,
{
    sm2::SecretKey::generate().to_bytes().to_vec()
}

/// `sm2::dsa::SigningKey::new` on `sm2::SecretKey::from_slice(secret)`, then
/// `verifying_key().to_sec1_bytes()`: the public key, or the display text of the error. The
/// curve does not compress points, so the key is the 65-byte uncompressed encoding.
#[verifier::external_body]
pub(crate) fn sm2_public_key(secret: &[u8]) -> (r: Result<Vec<u8>, String>)
    ensures
        match sm2_public_key_of(secret@) {
            Ok(k) => r matches Ok(v) && v@ == k,
            Err(m) => r matches Err(e) && e@ == m,
        },
        r matches Ok(v) ==> v@.len() == 65,
{
    let sk = sm2::SecretKey::from_slice(secret).map_err(|e| e.to_string())?;
    let key = sm2::dsa::SigningKey::new(SM2_DIST_ID, &sk).map_err(|e| e.to_string())?;
    Ok(key.verifying_key().to_sec1_bytes().to_vec())
}

/// `Signer::try_sign` of `sm2::dsa::SigningKey` (made as for `sm2_public_key`) over `msg`:
/// the signature bytes (`r || s`, 64 of them), or the display text of the error. As the
/// crate's documented usage shows, a signature made by a signing key verifies `msg` under that key's SEC1 public key
/// read back with `VerifyingKey::from_sec1_bytes`, and its bytes read back with
/// `Signature::from_slice`.
#[verifier::external_body]
pub(crate) fn sm2_sign(secret: &[u8], msg: &[u8]) -> (r: Result<Vec<u8>, String>)
    ensures
        match sm2_signature_of(secret@, msg@) {
            Ok(s) => r matches Ok(v) && v@ == s,
            Err(m) => r matches Err(e) && e@ == m,
        },
        r matches Ok(v) ==> {
            &&& v@.len() == 64
            &&& sm2_signature_error(v@) is None
            &&& sm2_public_key_of(secret@) matches Ok(pk) && sm2_key_error(pk) is None && sm2_verifies(
                pk,
                msg@,
                v@,
            )
        },
{
    let sk = sm2::SecretKey::from_slice(secret).map_err(|e| e.to_string())?;
    let key = sm2::dsa::SigningKey::new(SM2_DIST_ID, &sk).map_err(|e| e.to_string())?;
    let sig: sm2::dsa::Signature = key.try_sign(msg).map_err(|e| e.to_string())?;
    Ok(sig.to_bytes().to_vec())
}

/// `sm2::dsa::VerifyingKey::from_sec1_bytes`: `None` when it accepts the key, else the
/// display text of its error.
#[verifier::external_body]
pub(crate) fn sm2_check_public_key(public_key: &[u8]) -> (r: Option<String>)
    ensures
        match sm2_key_error(public_key@) {
            None => r is None,
            Some(m) => r matches Some(e) && e@ == m,
        },
{
    sm2::dsa::VerifyingKey::from_sec1_bytes(SM2_DIST_ID, public_key).err().map(|e| e.to_string())
}

/// `sm2::dsa::Signature::from_slice`: `None` when it accepts the bytes, else the display
/// text of its error.
#[verifier::external_body]
pub(crate) fn sm2_check_signature(signature: &[u8]) -> (r: Option<String>)
    ensures
        match sm2_signature_error(signature@) {
            None => r is None,
            Some(m) => r matches Some(e) && e@ == m,
        },
{
    sm2::dsa::Signature::from_slice(signature).err().map(|e| e.to_string())
}

/// `Verifier::verify` of `sm2::dsa::VerifyingKey` on a key and a signature that both parse:
/// whether the signature verifies the message.
#[verifier::external_body]
pub(crate) fn sm2_verify(public_key: &[u8], msg: &[u8], signature: &[u8]) -> (r: bool)
    requires
        sm2_key_error(public_key@) is None,
        sm2_signature_error(signature@) is None,
    ensures
        r == sm2_verifies(public_key@, msg@, signature@),
{
    match (
        sm2::dsa::VerifyingKey::from_sec1_bytes(SM2_DIST_ID, public_key),
        sm2::dsa::Signature::from_slice(signature),
    ) {
        (Ok(k), Ok(s)) => k.verify(msg, &s).is_ok(),
        _ => false,
    }
}

/// The SM2 signature (SM3 digest, default user id) of `data` under the secret scalar
/// `secret_key`, for a key and message that sign.
pub fn sm2_sign_with_sm3(secret_key: &[u8], data: &[u8]) -> (r: Vec<u8>)
    requires
        sm2_signature_of(secret_key@, data@) is Ok,
    ensures
        sm2_signature_of(secret_key@, data@) == Ok::<Seq<u8>, Seq<char>>(r@),
{
    match sm2_sign(secret_key, data) {
        Ok(sig) => sig,
        Err(_) => Vec::new(),
    }
}

/// As `sm2_sign_with_sm3`, for any key: the signature, or the reason it could not be made.
pub fn sm2_try_sign_with_sm3(secret_key: &[u8], data: &[u8]) -> (r: Result<Vec<u8>, String>)
    ensures
        match sm2_signature_of(secret_key@, data@) {
            Ok(s) => r matches Ok(v) && v@ == s,
            Err(m) => r matches Err(e) && e@ == m,
        },
{
    match sm2_sign(secret_key, data) {
        Ok(_) => Ok(sm2_sign_with_sm3(secret_key, data)),
        Err(e) => Err(e),
    }
}

} // verus!
