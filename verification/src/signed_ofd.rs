//! A signed document held in memory.
use vstd::prelude::*;

verus! {

/// The bytes of a signed document with the digest and signature value of its new signature.
#[derive(Debug)]
pub struct SignedOfd {
    pub(crate) data: Vec<u8>,
    /// Digest of the signed description, in hexadecimal.
    pub digest: String,
    /// The signature value, in hexadecimal.
    pub signature_value: String,
}

impl View for SignedOfd {
    /// The document's bytes, the digest text and the signature value text.
    type V = (Seq<u8>, Seq<char>, Seq<char>);

    closed spec fn view(&self) -> (Seq<u8>, Seq<char>, Seq<char>) {
        (self.data@, self.digest@, self.signature_value@)
    }
}

impl SignedOfd {
    /// A signed document from its parts.
    pub fn from_parts(data: Vec<u8>, digest: String, signature_value: String) -> (r: Self)
        ensures
            r@ == (data@, digest@, signature_value@),
    {
        SignedOfd { data, digest, signature_value }
    }

    /// The document's bytes, consuming it.
    pub fn into_bytes(self) -> (r: Vec<u8>)
        ensures
            r@ == self@.0,
    {
        self.data
    }
}

} // verus!
