//! X.509 certificates: the fields seal verification reads, and the checks of a chain
//! (issuer links, distinct serial numbers, and SM2 signatures of each link where they can be
//! checked).
use vstd::prelude::*;
use der::{Decode, Encode};
use crate::crl::{der_datetime_to_utc, ocsp_check, time_or_epoch, DerTime};
use crate::ofd_error::{OfdError, OfdResult};
use crate::sm2_sig::{sm2_check_public_key, sm2_check_signature, sm2_key_error, sm2_signature_error, sm2_verifies, sm2_verify};
use crate::text::{push_str, str_eq};
use crate::utc_time::UtcDateTime;

verus! {

/// Certificate fields used when validating seals.
#[derive(Debug, Clone)]
pub struct CertificateInfo {
    /// Subject distinguished name (RFC 4514 text).
    pub subject: String,
    /// Issuer distinguished name (RFC 4514 text).
    pub issuer: String,
    /// Serial number, big-endian.
    pub serial: Vec<u8>,
    /// Start of validity.
    pub not_before: UtcDateTime,
    /// End of validity.
    pub not_after: UtcDateTime,
    /// The certificate's DER encoding.
    pub raw_der: Vec<u8>,
}

/// What `x509_cert` reads from a DER certificate: subject and issuer as RFC 4514 text, the
/// serial number bytes and the validity bounds; or the display text of its decoding error.
pub uninterp spec fn certificate_fields_of(der: Seq<u8>) -> Result<(Seq<char>, Seq<char>, Seq<u8>, DerTime, DerTime), Seq<char>>;

/// `x509_cert::Certificate::from_der`, then `to_string` of subject and issuer,
/// `serial_number().as_bytes()`, and `to_date_time` of the validity bounds.
#[verifier::external_body]
fn read_certificate_fields(der: &[u8]) -> (r: Result<(String, String, Vec<u8>, DerTime, DerTime), String>)
    ensures
        match certificate_fields_of(der@) {
            Ok((s, i, n, b, a)) => r matches Ok((rs, ri, rn, rb, ra)) && rs@ == s && ri@ == i && rn@ == n
                && rb == b && ra == a,
            Err(m) => r matches Err(e) && e@ == m,
        },
{
    let cert = x509_cert::Certificate::from_der(der).map_err(|e| e.to_string())?;
    let tbs = cert.tbs_certificate();
    let t = |x: &x509_cert::time::Time| {
        let d = x.to_date_time();
        (d.year(), d.month(), d.day(), d.hour(), d.minutes(), d.seconds())
    };
    let v = tbs.validity();
    let serial = tbs.serial_number().as_bytes().to_vec();
    Ok((tbs.subject().to_string(), tbs.issuer().to_string(), serial, t(&v.not_before), t(&v.not_after)))
}

/// What `pem::parse` gives for a text: the contents, or the display text of its error.
pub uninterp spec fn pem_contents_of(text: Seq<char>) -> Result<Seq<u8>, Seq<char>>;

/// `pem::parse`, then `contents()`.
#[verifier::external_body]
fn read_pem(text: &str) -> (r: Result<Vec<u8>, String>)
    ensures
        match pem_contents_of(text@) {
            Ok(c) => r matches Ok(v) && v@ == c,
            Err(m) => r matches Err(e) && e@ == m,
        },
{
    pem::parse(text).map(|p| p.contents().to_vec()).map_err(|e| e.to_string())
}

/// The parts of a DER certificate that checking its signature needs: the signature
/// algorithm OID as dotted text, the DER of its `TBSCertificate` (`None` when re-encoding
/// fails), its signature bits and its subject public key bits; or the display text of the
/// decoding error.
pub uninterp spec fn cert_parts_of(der: Seq<u8>) -> Result<(Seq<char>, Option<Seq<u8>>, Seq<u8>, Seq<u8>), Seq<char>>;

/// `x509_cert::Certificate::from_der`, then `signature_algorithm().oid.to_string()`,
/// `tbs_certificate().to_der()`, `signature().raw_bytes()` and the raw bytes of
/// `subject_public_key_info().subject_public_key`.
#[verifier::external_body]
fn read_cert_parts(der: &[u8]) -> (r: Result<(String, Option<Vec<u8>>, Vec<u8>, Vec<u8>), String>)
    ensures
        match cert_parts_of(der@) {
            Ok((o, t, s, k)) => r matches Ok((ro, rt, rs, rk)) && ro@ == o && rs@ == s && rk@ == k
                && match t {
                Some(tb) => rt matches Some(x) && x@ == tb,
                None => rt is None,
            },
            Err(m) => r matches Err(e) && e@ == m,
        },
{
    let cert = x509_cert::Certificate::from_der(der).map_err(|e| e.to_string())?;
    let oid = cert.signature_algorithm().oid.to_string();
    let tbs = cert.tbs_certificate().to_der().ok();
    let sig = cert.signature().raw_bytes().to_vec();
    let key = cert.tbs_certificate().subject_public_key_info().subject_public_key.raw_bytes().to_vec();
    Ok((oid, tbs, sig, key))
}

/// A certificate as plain values: subject, issuer, serial, validity bounds and DER.
pub open spec fn cert_view(c: CertificateInfo) -> (Seq<char>, Seq<char>, Seq<u8>, crate::utc_time::DateTimeFields, crate::utc_time::DateTimeFields, Seq<u8>) {
    (c.subject@, c.issuer@, c.serial@, c.not_before@, c.not_after@, c.raw_der@)
}

fn copy_bytes(b: &[u8]) -> (r: Vec<u8>)
    ensures
        r@ == b@,
{
    let mut v: Vec<u8> = Vec::new();
    crate::der_tlv::extend_bytes(&mut v, b);
    v
}

fn conversion_with(prefix: &str, detail: &str) -> (e: OfdError)
    ensures
        e matches OfdError::Conversion(m) && m@ == prefix@ + detail@,
{
    let mut m = String::from_str(prefix);
    push_str(&mut m, detail);
    OfdError::Conversion(m)
}

/// Reads a DER certificate (times that name no valid second read as the Unix epoch).
pub fn parse_x509_der(der: &[u8]) -> (r: OfdResult<CertificateInfo>)
    ensures
        match certificate_fields_of(der@) {
            Ok((s, i, n, b, a)) => r matches Ok(c) && cert_view(c) == (s, i, n, time_or_epoch(b), time_or_epoch(a), der@),
            Err(m) => r matches Err(OfdError::Conversion(e)) && e@ == "X.509 DER parse error: "@ + m,
        },
{
    match read_certificate_fields(der) {
        Err(m) => Err(conversion_with("X.509 DER parse error: ", m.as_str())),
        Ok((subject, issuer, serial, b, a)) => {
            let not_before = der_datetime_to_utc(b);
            let not_after = der_datetime_to_utc(a);
            Ok(CertificateInfo { subject, issuer, serial, not_before, not_after, raw_der: copy_bytes(der) })
        },
    }
}

/// Reads a PEM certificate.
pub fn parse_x509_pem(pem_str: &str) -> (r: OfdResult<CertificateInfo>)
    ensures
        match pem_contents_of(pem_str@) {
            Ok(c) => match certificate_fields_of(c) {
                Ok((s, i, n, b, a)) => r matches Ok(x) && cert_view(x) == (s, i, n, time_or_epoch(b), time_or_epoch(a), c),
                Err(m) => r matches Err(OfdError::Conversion(e)) && e@ == "X.509 DER parse error: "@ + m,
            },
            Err(m) => r matches Err(OfdError::Conversion(e)) && e@ == "PEM parse error: "@ + m,
        },
{
    match read_pem(pem_str) {
        Err(m) => Err(conversion_with("PEM parse error: ", m.as_str())),
        Ok(c) => parse_x509_der(c.as_slice()),
    }
}

/// The OID text names an SM2 algorithm: it starts with `1.2.156.10197`.
pub open spec fn is_sm2_oid(o: Seq<char>) -> bool {
    o.len() >= 13 && o.subrange(0, 13) == "1.2.156.10197"@
}

/// Checking the SM2 signature of a child certificate under its parent's key: `Err` where a
/// part cannot be prepared (re-encoding, key or signature parsing).
pub open spec fn sm2_cert_outcome(child: (Seq<char>, Option<Seq<u8>>, Seq<u8>, Seq<u8>), parent: (Seq<char>, Option<Seq<u8>>, Seq<u8>, Seq<u8>)) -> Result<bool, Seq<char>> {
    match child.1 {
        None => Err("TBS DER encode error"@),
        Some(tbs) => match sm2_key_error(parent.3) {
            Some(e) => Err("SM2 public key parse error: "@ + e),
            None => match sm2_signature_error(child.2) {
                Some(e) => Err("SM2 signature parse error: "@ + e),
                None => Ok(sm2_verifies(parent.3, tbs, child.2)),
            },
        },
    }
}

/// The verdict on one link: passes without DER, or for a non-SM2 signature, or when the
/// SM2 check cannot be prepared; fails only when an SM2 signature is checked and is wrong.
pub open spec fn cert_link_outcome(child_der: Seq<u8>, parent_der: Seq<u8>) -> Result<bool, Seq<char>> {
    if child_der.len() == 0 || parent_der.len() == 0 {
        Ok(true)
    } else {
        match cert_parts_of(child_der) {
            Err(m) => Err("child cert DER parse error: "@ + m),
            Ok(cp) => match cert_parts_of(parent_der) {
                Err(m) => Err("parent cert DER parse error: "@ + m),
                Ok(pp) => if !is_sm2_oid(cp.0) {
                    Ok(true)
                } else {
                    match sm2_cert_outcome(cp, pp) {
                        Ok(v) => Ok(v),
                        Err(_) => Ok(true),
                    }
                },
            },
        }
    }
}

fn is_sm2_oid_exec(o: &str) -> (b: bool)
    ensures
        b == is_sm2_oid(o@),
{
    let cs = crate::text::chars_of(o);
    let p = crate::text::chars_of("1.2.156.10197");
    proof {
        reveal_strlit("1.2.156.10197");
    }
    if cs.len() < 13 {
        return false;
    }
    let mut i: usize = 0;
    while i < 13
        invariant
            i <= 13 <= cs@.len(),
            cs@ == o@,
            p@ == "1.2.156.10197"@,
            p@.len() == 13,
            forall|k: int| 0 <= k < i ==> cs@[k] == p@[k],
        decreases 13 - i,
    {
        if cs[i] != p[i] {
            return false;
        }
        i = i + 1;
    }
    assert(cs@.subrange(0, 13) =~= p@);
    true
}

fn verify_sm2_cert_signature(
    child: &(String, Option<Vec<u8>>, Vec<u8>, Vec<u8>),
    parent: &(String, Option<Vec<u8>>, Vec<u8>, Vec<u8>),
) -> (r: OfdResult<bool>)
    ensures
        match sm2_cert_outcome(
            (child.0@, match &child.1 { Some(t) => Some(t@), None => None }, child.2@, child.3@),
            (parent.0@, match &parent.1 { Some(t) => Some(t@), None => None }, parent.2@, parent.3@),
        ) {
            Ok(v) => r == Ok::<bool, OfdError>(v),
            Err(m) => r matches Err(OfdError::Conversion(e)) && e@ == m,
        },
{
    let tbs = match &child.1 {
        Some(t) => t,
        None => return Err(OfdError::Conversion(String::from_str("TBS DER encode error"))),
    };
    match sm2_check_public_key(parent.3.as_slice()) {
        Some(e) => return Err(conversion_with("SM2 public key parse error: ", e.as_str())),
        None => {},
    }
    match sm2_check_signature(child.2.as_slice()) {
        Some(e) => return Err(conversion_with("SM2 signature parse error: ", e.as_str())),
        None => {},
    }
    Ok(sm2_verify(parent.3.as_slice(), tbs.as_slice(), child.2.as_slice()))
}

/// Checks the signature of `child` under `parent`'s key where it can be checked.
pub fn verify_cert_signature(child: &CertificateInfo, parent: &CertificateInfo) -> (r: OfdResult<bool>)
    ensures
        match cert_link_outcome(child.raw_der@, parent.raw_der@) {
            Ok(v) => r == Ok::<bool, OfdError>(v),
            Err(m) => r matches Err(OfdError::Conversion(e)) && e@ == m,
        },
{
    if child.raw_der.len() == 0 || parent.raw_der.len() == 0 {
        return Ok(true);
    }
    let cp = match read_cert_parts(child.raw_der.as_slice()) {
        Ok(p) => p,
        Err(m) => return Err(conversion_with("child cert DER parse error: ", m.as_str())),
    };
    let pp = match read_cert_parts(parent.raw_der.as_slice()) {
        Ok(p) => p,
        Err(m) => return Err(conversion_with("parent cert DER parse error: ", m.as_str())),
    };
    if !is_sm2_oid_exec(cp.0.as_str()) {
        return Ok(true);
    }
    match verify_sm2_cert_signature(&cp, &pp) {
        Ok(v) => Ok(v),
        Err(_) => Ok(true),
    }
}

/// The chain in verification order: leaf, intermediates, root.
pub open spec fn chain_of(leaf: CertificateInfo, intermediates: Seq<CertificateInfo>, root: CertificateInfo) -> Seq<CertificateInfo> {
    seq![leaf] + intermediates + seq![root]
}

/// Each certificate's issuer is the next one's subject.
pub open spec fn links_ok(chain: Seq<CertificateInfo>) -> bool {
    forall|i: int| 0 <= i < chain.len() - 1 ==> #[trigger] chain[i].issuer@ == chain[i + 1].subject@
}

/// No two certificates share a serial number.
pub open spec fn serials_distinct(chain: Seq<CertificateInfo>) -> bool {
    forall|i: int, j: int| 0 <= i < j < chain.len() ==> chain[i].serial@ != chain[j].serial@
}

/// The signature verdicts of the links from `k` on: the first failing or erring link
/// decides.
pub open spec fn links_from(chain: Seq<CertificateInfo>, k: int) -> Result<bool, Seq<char>>
    decreases chain.len() - k,
{
    if k < 0 || k >= chain.len() - 1 {
        Ok(true)
    } else {
        match cert_link_outcome(chain[k].raw_der@, chain[k + 1].raw_der@) {
            Err(m) => Err(m),
            Ok(false) => Ok(false),
            Ok(true) => links_from(chain, k + 1),
        }
    }
}

/// The verdict on a chain: the issuer links, then distinct serials, then the link
/// signatures (the OCSP step asks a responder that always answers "not revoked").
pub open spec fn chain_outcome(chain: Seq<CertificateInfo>) -> Result<bool, Seq<char>> {
    if !links_ok(chain) {
        Ok(false)
    } else if !serials_distinct(chain) {
        Ok(false)
    } else {
        links_from(chain, 0)
    }
}

fn bytes_eq(a: &[u8], b: &[u8]) -> (r: bool)
    ensures
        r == (a@ == b@),
{
    if a.len() != b.len() {
        return false;
    }
    let mut i: usize = 0;
    while i < a.len()
        invariant
            a@.len() == b@.len(),
            i <= a@.len(),
            forall|k: int| 0 <= k < i ==> a@[k] == b@[k],
        decreases a@.len() - i,
    {
        if a[i] != b[i] {
            return false;
        }
        i = i + 1;
    }
    assert(a@ =~= b@);
    true
}

/// Verifies a certificate chain (leaf, intermediates, root): each issuer must be the next
/// subject, serial numbers must differ, and each link's SM2 signature must verify where it
/// can be checked. With an OCSP endpoint, each serial is also asked about (the responder is
/// a placeholder that answers "not revoked").
pub fn verify_chain(
    leaf: &CertificateInfo,
    intermediates: &[CertificateInfo],
    root: &CertificateInfo,
    ocsp_endpoint: Option<&str>,
) -> (r: OfdResult<bool>)
    ensures
        match chain_outcome(chain_of(*leaf, intermediates@, *root)) {
            Ok(v) => r == Ok::<bool, OfdError>(v),
            Err(m) => r matches Err(OfdError::Conversion(e)) && e@ == m,
        },
{
    let mut chain: Vec<&CertificateInfo> = Vec::new();
    chain.push(leaf);
    let mut i: usize = 0;
    while i < intermediates.len()
        invariant
            i <= intermediates@.len(),
            chain@.len() == i + 1,
            chain@[0] == leaf,
            forall|k: int| 0 <= k < i ==> chain@[k + 1] == intermediates@[k],
        decreases intermediates@.len() - i,
    {
        chain.push(&intermediates[i]);
        i = i + 1;
    }
    chain.push(root);
    let ghost c = chain_of(*leaf, intermediates@, *root);
    assert(chain@.len() == c.len());
    assert(forall|k: int| 0 <= k < c.len() ==> *chain@[k] == c[k]);
    let n = chain.len();
    let mut j: usize = 0;
    while j + 1 < n
        invariant
            c == chain_of(*leaf, intermediates@, *root),
            n == chain@.len() == c.len(),
            forall|k: int| 0 <= k < c.len() ==> *chain@[k] == c[k],
            j < n,
            forall|k: int| 0 <= k < j ==> #[trigger] c[k].issuer@ == c[k + 1].subject@,
        decreases n - j,
    {
        if !str_eq(chain[j].issuer.as_str(), chain[j + 1].subject.as_str()) {
            assert(c[j as int].issuer@ != c[j + 1].subject@);
            return Ok(false);
        }
        j = j + 1;
    }
    assert(links_ok(c));
    let mut a: usize = 0;
    while a < n
        invariant
            c == chain_of(*leaf, intermediates@, *root),
            links_ok(c),
            n == chain@.len() == c.len(),
            forall|k: int| 0 <= k < c.len() ==> *chain@[k] == c[k],
            a <= n,
            forall|x: int, y: int| 0 <= x < y < c.len() && x < a ==> c[x].serial@ != c[y].serial@,
        decreases n - a,
    {
        let mut b: usize = a + 1;
        while b < n
            invariant
                c == chain_of(*leaf, intermediates@, *root),
                links_ok(c),
                n == chain@.len() == c.len(),
                forall|k: int| 0 <= k < c.len() ==> *chain@[k] == c[k],
                a < b <= n,
                forall|y: int| a < y < b ==> c[a as int].serial@ != c[y].serial@,
            decreases n - b,
        {
            if bytes_eq(chain[a].serial.as_slice(), chain[b].serial.as_slice()) {
                assert(c[a as int].serial@ == c[b as int].serial@);
                assert(!serials_distinct(c));
                return Ok(false);
            }
            b = b + 1;
        }
        a = a + 1;
    }
    assert(serials_distinct(c));
    if ocsp_endpoint.is_some() {
        let mut k: usize = 0;
        while k < n
            invariant
                n == chain@.len(),
            decreases n - k,
        {
            match ocsp_check(chain[k].serial.as_slice()) {
                Ok(revoked) => {
                    if revoked {
                        return Ok(false);
                    }
                },
                Err(e) => return Err(e),
            }
            k = k + 1;
        }
    }
    let mut l: usize = 0;
    while l + 1 < n
        invariant
            c == chain_of(*leaf, intermediates@, *root),
            links_ok(c),
            serials_distinct(c),
            n == chain@.len() == c.len(),
            n >= 2,
            forall|k: int| 0 <= k < c.len() ==> *chain@[k] == c[k],
            l < n,
            links_from(c, 0) == links_from(c, l as int),
        decreases n - l,
    {
        assert(*chain@[l as int] == c[l as int] && *chain@[l + 1] == c[l + 1]);
        match verify_cert_signature(chain[l], chain[l + 1]) {
            Err(e) => return Err(e),
            Ok(false) => return Ok(false),
            Ok(true) => {},
        }
        l = l + 1;
    }
    Ok(true)
}

/// A chain is accepted only when, walking leaf, intermediates, root, each certificate's
/// issuer is the next one's subject (every adjacent pair, the last intermediate and the root
/// included) and no two certificates share a serial number.
pub proof fn lemma_accepted_chain_is_linked(
    leaf: CertificateInfo,
    intermediates: Seq<CertificateInfo>,
    root: CertificateInfo,
)
    requires
        chain_outcome(chain_of(leaf, intermediates, root)) == Ok::<bool, Seq<char>>(true),
    ensures
        forall|i: int| 0 <= i < intermediates.len() + 1 ==> #[trigger] (seq![leaf] + intermediates + seq![root])[i].issuer@
            == (seq![leaf] + intermediates + seq![root])[i + 1].subject@,
        forall|i: int, j: int| 0 <= i < j < intermediates.len() + 2 ==> (seq![leaf] + intermediates + seq![root])[i].serial@
            != (seq![leaf] + intermediates + seq![root])[j].serial@,
        intermediates.len() == 0 ==> leaf.issuer@ == root.subject@,
        intermediates.len() > 0 ==> intermediates.last().issuer@ == root.subject@ && leaf.issuer@
            == intermediates[0].subject@,
{
    let c = seq![leaf] + intermediates + seq![root];
    assert(c =~= chain_of(leaf, intermediates, root));
    assert(c.len() == intermediates.len() + 2);
    assert(c[0] == leaf);
    assert(c[c.len() - 1] == root);
    if intermediates.len() > 0 {
        assert(c[intermediates.len() as int] == intermediates.last());
        assert(c[1] == intermediates[0]);
        assert(c[intermediates.len() as int].issuer@ == c[intermediates.len() as int + 1].subject@);
        assert(c[0].issuer@ == c[1].subject@);
    } else {
        assert(c[0].issuer@ == c[1].subject@);
    }
}

} // verus!
