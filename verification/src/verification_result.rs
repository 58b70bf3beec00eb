//! The outcome of verifying one signature.
use vstd::prelude::*;
use crate::algorithm::SignatureAlgorithm;

verus! {

/// What verifying a signature found.
#[derive(Debug)]
pub struct VerificationResult {
    /// The signature value verifies and every referenced file is intact.
    pub valid: bool,
    /// Digest of the signed description, in hexadecimal.
    pub digest: String,
    /// The signature value, as stored.
    pub signature_value: String,
    /// The signer's public key, as stored.
    pub public_key: String,
    /// The signature algorithm.
    pub algorithm: SignatureAlgorithm,
    /// Package paths whose digest did not match.
    pub reference_failures: Vec<String>,
}

} // verus!
