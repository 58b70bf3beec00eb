//! The seal file (`Seal.esl`): the `SignerCertEs` structure of GB/T 38540
//! (`SEQUENCE { version INTEGER, cert OCTET STRING, signature BIT STRING }`), and the
//! riding-seal split of a seal image over the pages of a document.
use vstd::prelude::*;
use crate::der_tlv::{
    be_value, bytes_to_u32, decode_der_tlv, der_bit_string_bytes, der_integer_content, der_tlv_at,
    der_tlv_bytes, der_tlv_overflows, encode_der_bit_string, encode_der_integer, encode_der_tlv,
    lemma_der_integer_content_value, lemma_tlv_roundtrip,
};
use crate::ofd_error::{OfdError, OfdResult};
use crate::text::{hex_upper2, push_hex_upper2, push_str};
use crate::utc_time::UtcDateTime;

verus! {

/// Tag of an ASN.1 SEQUENCE.
pub const TAG_SEQUENCE: u8 = 0x30;

/// Tag of an ASN.1 INTEGER.
pub const TAG_INTEGER: u8 = 0x02;

/// Tag of an ASN.1 OCTET STRING.
pub const TAG_OCTET_STRING: u8 = 0x04;

/// Tag of an ASN.1 BIT STRING.
pub const TAG_BIT_STRING: u8 = 0x03;

/// Seal information as carried by a seal file.
#[derive(Debug, Clone)]
pub struct SealInfo {
    /// Human-readable seal name.
    pub name: String,
    /// When the seal was made.
    pub created_at: UtcDateTime,
    /// End of the seal's validity.
    pub valid_until: UtcDateTime,
    /// DER-encoded X.509 certificate of the signer.
    pub cert_der: Vec<u8>,
    /// Seal image data (e.g. PNG).
    pub image: Vec<u8>,
    /// Schema version number.
    pub version: u32,
}

/// The seal file written for a version and a certificate: the signature field is an empty
/// BIT STRING.
pub open spec fn seal_esl_bytes(version: u32, cert: Seq<u8>) -> Seq<u8> {
    der_tlv_bytes(
        TAG_SEQUENCE,
        der_tlv_bytes(TAG_INTEGER, der_integer_content(version as nat)) + der_tlv_bytes(
            TAG_OCTET_STRING,
            cert,
        ) + der_bit_string_bytes(Seq::empty()),
    )
}

/// What a seal file decodes to: the version (low 32 bits of the INTEGER) and the certificate
/// bytes, or the message of the first check that fails.
pub open spec fn seal_esl_decode(der: Seq<u8>) -> Result<(u32, Seq<u8>), Seq<char>> {
    match der_tlv_at(der, 0) {
        Err(m) => Err(m),
        Ok((tag, body, _)) => if tag != TAG_SEQUENCE {
            Err("SignerCertEs: expected SEQUENCE (0x30), got 0x"@ + hex_upper2(tag))
        } else {
            match der_tlv_at(body, 0) {
                Err(m) => Err(m),
                Ok((t1, v, n1)) => if t1 != TAG_INTEGER {
                    Err("SignerCertEs: expected INTEGER for version"@)
                } else {
                    match der_tlv_at(body, n1) {
                        Err(m) => Err(m),
                        Ok((t2, cert, n2)) => if t2 != TAG_OCTET_STRING {
                            Err("SignerCertEs: expected OCTET STRING for cert"@)
                        } else {
                            match der_tlv_at(body, n2) {
                                Err(m) => Err(m),
                                Ok((t3, _, _)) => if t3 != TAG_BIT_STRING {
                                    Err("SignerCertEs: expected BIT STRING for signature"@)
                                } else {
                                    Ok(((be_value(v) % 0x1_0000_0000) as u32, cert))
                                },
                            }
                        },
                    }
                },
            }
        },
    }
}

/// Decoding would compute a TLV end position past `usize::MAX` at some step it reaches.
pub open spec fn seal_esl_decode_overflows(der: Seq<u8>) -> bool {
    ||| der_tlv_overflows(der, 0)
    ||| match der_tlv_at(der, 0) {
        Ok((tag, body, _)) => tag == TAG_SEQUENCE && {
            ||| der_tlv_overflows(body, 0)
            ||| match der_tlv_at(body, 0) {
                Ok((t1, _, n1)) => t1 == TAG_INTEGER && {
                    ||| der_tlv_overflows(body, n1)
                    ||| match der_tlv_at(body, n1) {
                        Ok((t2, _, n2)) => t2 == TAG_OCTET_STRING && der_tlv_overflows(body, n2),
                        Err(_) => false,
                    }
                },
                Err(_) => false,
            }
        },
        Err(_) => false,
    }
}

/// Encodes the version and certificate of `info` as a seal file.
pub fn encode_seal_esl(info: &SealInfo) -> (r: OfdResult<Vec<u8>>)
    ensures
        r matches Ok(b) && b@ == seal_esl_bytes(info.version, info.cert_der@),
{
    let mut inner: Vec<u8> = Vec::new();
    encode_der_integer(info.version, &mut inner);
    encode_der_tlv(TAG_OCTET_STRING, info.cert_der.as_slice(), &mut inner);
    let placeholder: Vec<u8> = Vec::new();
    encode_der_bit_string(placeholder.as_slice(), &mut inner);
    let mut out: Vec<u8> = Vec::new();
    encode_der_tlv(TAG_SEQUENCE, inner.as_slice(), &mut out);
    assert(placeholder@ == Seq::<u8>::empty());
    Ok(out)
}

fn conversion_error(msg: &str) -> (e: OfdError)
    ensures
        e matches OfdError::Conversion(m) && m@ == msg@,
{
    OfdError::Conversion(String::from_str(msg))
}

/// Decodes a seal file. Only the version and certificate travel in it: the name and image
/// come back empty and both times are the Unix epoch.
pub fn decode_seal_esl(der: &[u8]) -> (r: OfdResult<SealInfo>)
    requires
        !seal_esl_decode_overflows(der@),
    ensures
        match seal_esl_decode(der@) {
            Ok((version, cert)) => r matches Ok(info) && {
                &&& info.version == version
                &&& info.cert_der@ == cert
                &&& info.name@ == Seq::<char>::empty()
                &&& info.image@ == Seq::<u8>::empty()
                &&& info.created_at@ == UtcDateTime::epoch_fields()
                &&& info.valid_until@ == UtcDateTime::epoch_fields()
            },
            Err(msg) => r matches Err(OfdError::Conversion(m)) && m@ == msg,
        },
{
    let (tag, body, _) = match decode_der_tlv(der, 0) {
        Ok(v) => v,
        Err(e) => return Err(e),
    };
    if tag != TAG_SEQUENCE {
        let mut m = String::from_str("SignerCertEs: expected SEQUENCE (0x30), got 0x");
        push_hex_upper2(&mut m, tag);
        return Err(OfdError::Conversion(m));
    }
    let (t1, val, n1) = match decode_der_tlv(body.as_slice(), 0) {
        Ok(v) => v,
        Err(e) => return Err(e),
    };
    if t1 != TAG_INTEGER {
        return Err(conversion_error("SignerCertEs: expected INTEGER for version"));
    }
    let version = bytes_to_u32(val.as_slice());
    let (t2, cert_der, n2) = match decode_der_tlv(body.as_slice(), n1) {
        Ok(v) => v,
        Err(e) => return Err(e),
    };
    if t2 != TAG_OCTET_STRING {
        return Err(conversion_error("SignerCertEs: expected OCTET STRING for cert"));
    }
    let (t3, _bits, _) = match decode_der_tlv(body.as_slice(), n2) {
        Ok(v) => v,
        Err(e) => return Err(e),
    };
    if t3 != TAG_BIT_STRING {
        return Err(conversion_error("SignerCertEs: expected BIT STRING for signature"));
    }
    Ok(
        SealInfo {
            name: String::new(),
            created_at: UtcDateTime::epoch(),
            valid_until: UtcDateTime::epoch(),
            cert_der,
            image: Vec::new(),
            version,
        },
    )
}

/// Decoding an encoded seal file gives back its version and certificate, for every
/// certificate short enough for the three-byte DER length form.
pub proof fn lemma_seal_esl_roundtrip(version: u32, cert: Seq<u8>)
    requires
        cert.len() + 16 < 0x100_0000,
    ensures
        seal_esl_decode(seal_esl_bytes(version, cert)) == Ok::<(u32, Seq<u8>), Seq<char>>(
            (version, cert),
        ),
        !seal_esl_decode_overflows(seal_esl_bytes(version, cert)),
{
    let ic = der_integer_content(version as nat);
    lemma_der_integer_content_value(version as nat);
    let a = der_tlv_bytes(TAG_INTEGER, ic);
    let b = der_tlv_bytes(TAG_OCTET_STRING, cert);
    let c = der_bit_string_bytes(Seq::empty());
    let inner = a + b + c;
    let e = Seq::<u8>::empty();
    assert(e + der_tlv_bytes(TAG_SEQUENCE, inner) + e == seal_esl_bytes(version, cert));
    lemma_tlv_roundtrip(e, TAG_SEQUENCE, inner, e);
    assert(inner == e + a + (b + c));
    lemma_tlv_roundtrip(e, TAG_INTEGER, ic, b + c);
    assert(inner == a + b + c);
    lemma_tlv_roundtrip(a, TAG_OCTET_STRING, cert, c);
    assert(inner == (a + b) + c + e);
    lemma_tlv_roundtrip(a + b, TAG_BIT_STRING, seq![0u8] + Seq::<u8>::empty(), e);
    vstd::arithmetic::div_mod::lemma_small_mod(version as nat, 0x1_0000_0000);
}

/// The side of the page a riding seal is placed on.
#[derive(Debug, Clone, Copy, PartialEq, Eq)]
pub enum StampSide {
    /// Left edge.
    Left,
    /// Right edge.
    Right,
    /// Top edge.
    Top,
    /// Bottom edge.
    Bottom,
}

/// Size of each page's share of an image of `len` bytes split over `pages` pages.
pub open spec fn riding_chunk_size(len: nat, pages: nat) -> nat {
    if pages == 0 { 0 } else { ((len + pages - 1) / pages as int) as nat }
}

/// Page `i`'s share of the image: its `riding_chunk_size` bytes from `i` times that size,
/// cut at the end of the image.
pub open spec fn riding_chunk(image: Seq<u8>, pages: nat, i: int) -> Seq<u8> {
    let cs = riding_chunk_size(image.len(), pages);
    let start = i * cs;
    let end = if start + cs < image.len() { start + cs } else { image.len() as int };
    image.subrange(start, end)
}

/// Splitting panics when some page's share would start past the end of the image.
pub open spec fn riding_split_in_range(len: nat, pages: nat) -> bool {
    pages == 0 || (pages - 1) * riding_chunk_size(len, pages) <= len
}

/// Splits a seal image into one share per page, in page order.
pub fn riding_stamp_chunks(image: &[u8], page_count: usize) -> (r: Vec<Vec<u8>>)
    requires
        riding_split_in_range(image@.len(), page_count as nat),
    ensures
        r@.len() == page_count,
        forall|i: int| 0 <= i < page_count ==> #[trigger] r@[i]@ == riding_chunk(
            image@,
            page_count as nat,
            i,
        ),
{
    let mut r: Vec<Vec<u8>> = Vec::new();
    if page_count == 0 {
        return r;
    }
    let len = image.len();
    let q = len / page_count;
    assert(len % page_count != 0 ==> q < usize::MAX) by (nonlinear_arith)
        requires
            q == len / page_count,
            page_count > 0,
    {
        if len % page_count != 0 {
            assert(page_count != 1);
            assert(q * page_count <= len);
            assert(q * 2 <= q * page_count);
        }
    }
    let chunk_size = if len % page_count == 0 { q } else { q + 1 };
    assert(chunk_size == riding_chunk_size(len as nat, page_count as nat)) by (nonlinear_arith)
        requires
            q == len / page_count,
            chunk_size == q + if len % page_count == 0 { 0int } else { 1int },
            page_count > 0,
    {
        vstd::arithmetic::div_mod::lemma_fundamental_div_mod(len as int, page_count as int);
        vstd::arithmetic::div_mod::lemma_fundamental_div_mod(
            (len + page_count - 1) as int,
            page_count as int,
        );
    }
    let mut i: usize = 0;
    while i < page_count
        invariant
            0 < page_count,
            i <= page_count,
            len == image@.len(),
            chunk_size == riding_chunk_size(len as nat, page_count as nat),
            riding_split_in_range(len as nat, page_count as nat),
            r@.len() == i,
            forall|k: int| 0 <= k < i ==> #[trigger] r@[k]@ == riding_chunk(
                image@,
                page_count as nat,
                k,
            ),
        decreases page_count - i,
    {
        assert(i * chunk_size <= (page_count - 1) * chunk_size) by (nonlinear_arith)
            requires
                i <= page_count - 1,
        ;
        let start = i * chunk_size;
        let end = if chunk_size < len - start { start + chunk_size } else { len };
        let mut chunk: Vec<u8> = Vec::new();
        let mut j = start;
        while j < end
            invariant
                start <= j <= end <= image@.len(),
                chunk@ == image@.subrange(start as int, j as int),
            decreases end - j,
        {
            assert(image@.subrange(start as int, j + 1) == chunk@.push(image@[j as int]));
            chunk.push(image[j]);
            j = j + 1;
        }
        r.push(chunk);
        i = i + 1;
    }
    r
}

} // verus!
