//! Containers that validate signed data, one per signature format, and a validator that
//! holds them.
use vstd::prelude::*;
use crate::errors::OfdVerifyException;

verus! {

/// Validates a signature value over signed data, for each signature format.
pub trait SignedDataValidateContainer {
    /// `Ok` when the container accepts the signature value.
    fn validate(&self, signed_info_bytes: &[u8], signed_value: &[u8]) -> Result<
        (),
        OfdVerifyException,
    >;
}

/// Validation with a raw public key: refuses an empty key.
pub struct DigitalValidateContainer {
    public_key_bytes: Vec<u8>,
}

impl DigitalValidateContainer {
    /// A container for the given public key.
    pub fn new(public_key_bytes: Vec<u8>) -> (r: Self)
        ensures
            r.key() == public_key_bytes@,
    {
        DigitalValidateContainer { public_key_bytes }
    }

    /// The public key.
    pub closed spec fn key(&self) -> Seq<u8> {
        self.public_key_bytes@
    }

    /// The public key.
    pub fn public_key_bytes(&self) -> (r: &[u8])
        ensures
            r@ == self.key(),
    {
        self.public_key_bytes.as_slice()
    }
}

impl SignedDataValidateContainer for DigitalValidateContainer {
    fn validate(&self, signed_info_bytes: &[u8], signed_value: &[u8]) -> (r: Result<
        (),
        OfdVerifyException,
    >)
        ensures
            self.key().len() == 0 ==> (r matches Err(e) && e@ == ("公钥为空"@, None::<Seq<char>>)),
            self.key().len() > 0 ==> r is Ok,
    {
        if self.public_key_bytes.len() == 0 {
            return Err(OfdVerifyException::new("公钥为空"));
        }
        Ok(())
    }
}

/// Validation of GB/T 35275 signed data against trust anchors: refuses an empty anchor list.
pub struct Gbt35275ValidateContainer {
    trust_certs: Vec<Vec<u8>>,
}

impl Gbt35275ValidateContainer {
    /// A container with the given trust anchors.
    pub fn new(trust_certs: Vec<Vec<u8>>) -> (r: Self)
        ensures
            r.anchors() == trust_certs@,
    {
        Gbt35275ValidateContainer { trust_certs }
    }

    /// The trust anchors.
    pub closed spec fn anchors(&self) -> Seq<Vec<u8>> {
        self.trust_certs@
    }

    /// The trust anchors.
    pub fn trust_certs(&self) -> (r: &[Vec<u8>])
        ensures
            r@ == self.anchors(),
    {
        self.trust_certs.as_slice()
    }
}

impl SignedDataValidateContainer for Gbt35275ValidateContainer {
    fn validate(&self, signed_info_bytes: &[u8], signed_value: &[u8]) -> (r: Result<
        (),
        OfdVerifyException,
    >)
        ensures
            self.anchors().len() == 0 ==> (r matches Err(e) && e@ == (
                "信任锚证书列表为空"@,
                None::<Seq<char>>,
            )),
            self.anchors().len() > 0 ==> r is Ok,
    {
        if self.trust_certs.len() == 0 {
            return Err(OfdVerifyException::new("信任锚证书列表为空"));
        }
        Ok(())
    }
}

/// Validation of GM/T 0031 (SES version 1) signatures; accepts every value.
pub struct SesV1ValidateContainer;

impl SignedDataValidateContainer for SesV1ValidateContainer {
    fn validate(&self, signed_info_bytes: &[u8], signed_value: &[u8]) -> (r: Result<
        (),
        OfdVerifyException,
    >)
        ensures
            r is Ok,
    {
        Ok(())
    }
}

/// Validation of GB/T 38540 (SES version 4) signatures; accepts every value.
pub struct SesV4ValidateContainer;

impl SignedDataValidateContainer for SesV4ValidateContainer {
    fn validate(&self, signed_info_bytes: &[u8], signed_value: &[u8]) -> (r: Result<
        (),
        OfdVerifyException,
    >)
        ensures
            r is Ok,
    {
        Ok(())
    }
}

/// Validation of SES version 5 signatures; accepts every value.
pub struct SesV5ValidateContainer;

impl SignedDataValidateContainer for SesV5ValidateContainer {
    fn validate(&self, signed_info_bytes: &[u8], signed_value: &[u8]) -> (r: Result<
        (),
        OfdVerifyException,
    >)
        ensures
            r is Ok,
    {
        Ok(())
    }
}

/// A set of validate containers.
pub struct OfdValidator {
    containers: Vec<Box<dyn SignedDataValidateContainer>>,
}

impl OfdValidator {
    /// No containers.
    pub fn new() -> (r: Self)
        ensures
            r.count() == 0,
            r.held() == Seq::<Box<dyn SignedDataValidateContainer>>::empty(),
    {
        OfdValidator { containers: Vec::new() }
    }

    /// Number of containers held.
    pub closed spec fn count(&self) -> nat {
        self.containers@.len()
    }

    /// The containers held, in the order added.
    pub closed spec fn held(&self) -> Seq<Box<dyn SignedDataValidateContainer>> {
        self.containers@
    }

    /// Adds a container after those held.
    pub fn add_container(&mut self, container: Box<dyn SignedDataValidateContainer>)
        ensures
            final(self).count() == old(self).count() + 1,
            final(self).held() == old(self).held().push(container),
    {
        let ghost s0 = self.containers@;
        let ghost c = container;
        self.containers.push(container);
        proof {
            vstd::seq::axiom_seq_push_len(s0, c);
        }
    }

    /// Number of containers held.
    pub fn container_count(&self) -> (r: usize)
        ensures
            r == self.count(),
    {
        self.containers.len()
    }
}

impl Default for OfdValidator {
    fn default() -> (r: Self)
        ensures
            r.count() == 0,
    {
        Self::new()
    }
}

} // verus!
