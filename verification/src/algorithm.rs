//! Signature algorithms a document can be signed with.
use vstd::prelude::*;

verus! {

/// Supported signature algorithms.
#[derive(Debug, Clone, Copy, PartialEq, Eq, Structural)]
pub enum SignatureAlgorithm {
    /// SM2 signature over an SM3 digest (GM/T 0009).
    Sm2WithSm3,
    /// RSA signature over a SHA-256 digest.
    Sha256WithRsa,
}

} // verus!
