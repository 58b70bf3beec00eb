//! Certificate revocation: lists of revoked serial numbers, and the DER of OCSP requests and
//! responses (RFC 6960).
use vstd::prelude::*;
use der::{Decode, Encode};
use crate::der_tlv::{decode_der_length, der_length_at, extend_bytes};
use crate::ofd_error::{OfdError, OfdResult};
use crate::utc_time::{valid_fields, DateTimeFields, UtcDateTime};

verus! {

/// The length field `der_wrap` writes (lengths of 2^16 and more keep their low two bytes).
pub open spec fn wrap_length_bytes(n: nat) -> Seq<u8> {
    if n < 0x80 {
        seq![n as u8]
    } else if n < 0x100 {
        seq![0x81u8, n as u8]
    } else {
        seq![0x82u8, ((n / 0x100) % 0x100) as u8, (n % 0x100) as u8]
    }
}

/// The TLV `der_wrap` writes.
pub open spec fn wrap_bytes(tag: u8, value: Seq<u8>) -> Seq<u8> {
    seq![tag] + wrap_length_bytes(value.len()) + value
}

/// A DER TLV with the given tag around `value`.
pub fn der_wrap(tag: u8, value: &[u8]) -> (r: Vec<u8>)
    ensures
        r@ == wrap_bytes(tag, value@),
{
    let len = value.len();
    let mut out: Vec<u8> = Vec::new();
    out.push(tag);
    if len < 0x80 {
        out.push(len as u8);
    } else if len < 0x100 {
        out.push(0x81);
        out.push(len as u8);
    } else {
        out.push(0x82);
        assert((len >> 8usize) as u8 == ((len / 0x100) % 0x100) as u8) by (bit_vector);
        assert((len & 0xFF) as u8 == (len % 0x100) as u8) by (bit_vector);
        out.push((len >> 8) as u8);
        out.push((len & 0xFF) as u8);
    }
    extend_bytes(&mut out, value);
    out
}

/// A DER SEQUENCE around `value`.
pub fn der_sequence(value: &[u8]) -> (r: Vec<u8>)
    ensures
        r@ == wrap_bytes(0x30, value@),
{
    der_wrap(0x30, value)
}

/// A DER OCTET STRING around `value`.
pub fn der_octet_string(value: &[u8]) -> (r: Vec<u8>)
    ensures
        r@ == wrap_bytes(0x04, value@),
{
    der_wrap(0x04, value)
}

/// `b` without its leading zero bytes, keeping at least one byte.
pub open spec fn strip_leading_zeros(b: Seq<u8>) -> Seq<u8>
    decreases b.len(),
{
    if b.len() <= 1 {
        b
    } else if b[0] == 0 {
        strip_leading_zeros(b.skip(1))
    } else {
        b
    }
}

/// The DER INTEGER holding the unsigned big-endian number `b`: leading zeros stripped, a
/// zero byte put in front when the first byte has its high bit set; zero for no bytes.
pub open spec fn positive_integer_bytes(b: Seq<u8>) -> Seq<u8> {
    if b.len() == 0 {
        seq![0x02u8, 0x01, 0x00]
    } else {
        let s = strip_leading_zeros(b);
        if s[0] >= 0x80 {
            wrap_bytes(0x02, seq![0u8] + s)
        } else {
            wrap_bytes(0x02, s)
        }
    }
}

proof fn lemma_strip_nonempty(b: Seq<u8>)
    requires
        b.len() > 0,
    ensures
        strip_leading_zeros(b).len() > 0,
    decreases b.len(),
{
    if b.len() > 1 && b[0] == 0 {
        lemma_strip_nonempty(b.skip(1));
    }
}

/// Encodes the unsigned big-endian number `bytes` as a DER INTEGER.
pub fn der_integer_positive(bytes: &[u8]) -> (r: Vec<u8>)
    ensures
        r@ == positive_integer_bytes(bytes@),
{
    let n = bytes.len();
    if n == 0 {
        let mut r: Vec<u8> = Vec::new();
        r.push(0x02);
        r.push(0x01);
        r.push(0x00);
        return r;
    }
    let mut start: usize = 0;
    assert(bytes@.skip(0) == bytes@);
    while start + 1 < n && bytes[start] == 0
        invariant
            start < n == bytes@.len(),
            strip_leading_zeros(bytes@.skip(start as int)) == strip_leading_zeros(bytes@),
        decreases n - start,
    {
        assert(bytes@.skip(start as int).skip(1) == bytes@.skip(start + 1));
        start = start + 1;
    }
    let ghost rest = bytes@.skip(start as int);
    assert(strip_leading_zeros(rest) == rest);
    let mut value: Vec<u8> = Vec::new();
    if bytes[start] & 0x80 != 0 {
        value.push(0);
    }
    let b0 = bytes[start];
    assert(b0 & 0x80 != 0 <==> b0 >= 0x80) by (bit_vector);
    let mut i = start;
    let ghost prefix = value@;
    while i < n
        invariant
            start <= i <= n == bytes@.len(),
            value@ == prefix + bytes@.subrange(start as int, i as int),
        decreases n - i,
    {
        assert(bytes@.subrange(start as int, i + 1) == bytes@.subrange(start as int, i as int).push(
            bytes@[i as int],
        ));
        value.push(bytes[i]);
        i = i + 1;
    }
    assert(bytes@.subrange(start as int, n as int) == rest);
    der_wrap(0x02, value.as_slice())
}

/// Revocation list fields used when validating certificates.
#[derive(Debug, Clone)]
pub struct CrlInfo {
    /// Issuer distinguished name (RFC 4514 text).
    pub issuer: String,
    /// Serial numbers of revoked certificates, big-endian.
    pub revoked_serials: Vec<Vec<u8>>,
    /// When the list was issued.
    pub this_update: UtcDateTime,
    /// When the next list is due.
    pub next_update: UtcDateTime,
}

/// `serial` is listed, byte for byte.
pub open spec fn listed(serials: Seq<Vec<u8>>, serial: Seq<u8>) -> bool {
    exists|i: int| 0 <= i < serials.len() && #[trigger] serials[i]@ == serial
}

pub(crate) fn bytes_eq(a: &[u8], b: &[u8]) -> (r: bool)
    ensures
        r == (a@ == b@),
{
    if a.len() != b.len() {
        return false;
    }
    let mut i: usize = 0;
    while i < a.len()
        invariant
            a@.len() == b@.len(),
            i <= a@.len(),
            forall|k: int| 0 <= k < i ==> a@[k] == b@[k],
        decreases a@.len() - i,
    {
        if a[i] != b[i] {
            return false;
        }
        i = i + 1;
    }
    assert(a@ =~= b@);
    true
}

/// Whether `serial` appears among the revoked serial numbers of `crl`.
pub fn check_revoked(crl: &CrlInfo, serial: &[u8]) -> (r: bool)
    ensures
        r == listed(crl.revoked_serials@, serial@),
{
    let mut i: usize = 0;
    while i < crl.revoked_serials.len()
        invariant
            i <= crl.revoked_serials@.len(),
            forall|k: int| 0 <= k < i ==> crl.revoked_serials@[k]@ != serial@,
        decreases crl.revoked_serials@.len() - i,
    {
        if bytes_eq(crl.revoked_serials[i].as_slice(), serial) {
            return true;
        }
        i = i + 1;
    }
    false
}

/// The OCSP check without a responder: every certificate counts as not revoked.
pub fn ocsp_check(serial: &[u8]) -> (r: OfdResult<bool>)
    ensures
        r == Ok::<bool, OfdError>(false),
{
    Ok(false)
}


// ---- reading a CRL ----

/// A date-time as `der::DateTime` carries it: year, month, day, hour, minutes, seconds.
pub type DerTime = (u16, u8, u8, u8, u8, u8);

/// What `x509_cert` reads from a DER CRL (profile RFC 5280): the issuer name as RFC 4514
/// text, the revoked serial numbers, this update and the next update; or the display text of
/// its decoding error.
pub uninterp spec fn crl_fields_of(der: Seq<u8>) -> Result<(Seq<char>, Seq<Seq<u8>>, DerTime, Option<DerTime>), Seq<char>>;

/// `x509_cert::crl::CertificateList::from_der`, then the issuer's `to_string`, each revoked
/// certificate's `serial_number.as_bytes()`, and `to_date_time` of both update times.
#[verifier::external_body]
fn read_crl_fields(der: &[u8]) -> (r: Result<(String, Vec<Vec<u8>>, DerTime, Option<DerTime>), String>)
    ensures
        match crl_fields_of(der@) {
            Ok((i, s, t, n)) => r matches Ok((ri, rs, rt, rn)) && ri@ == i && rs@.map_values(
                |v: Vec<u8>| v@,
            ) == s && rt == t && rn == n,
            Err(m) => r matches Err(e) && e@ == m,
        },
{
    let crl = x509_cert::crl::CertificateList::<x509_cert::certificate::Rfc5280>::from_der(der)
        .map_err(|e| e.to_string())?;
    let tbs = &crl.tbs_cert_list;
    let t = |x: &x509_cert::time::Time| {
        let d = x.to_date_time();
        (d.year(), d.month(), d.day(), d.hour(), d.minutes(), d.seconds())
    };
    let serials = tbs.revoked_certificates.as_ref().map_or_else(Vec::new, |r| {
        r.iter().map(|c| c.serial_number.as_bytes().to_vec()).collect()
    });
    Ok((tbs.issuer.to_string(), serials, t(&tbs.this_update), tbs.next_update.as_ref().map(t)))
}

/// The fields of a DER date-time as calendar fields.
pub open spec fn der_time_fields(t: DerTime) -> DateTimeFields {
    (t.0 as i32, t.1 as u32, t.2 as u32, t.3 as u32, t.4 as u32, t.5 as u32)
}

/// The date-time a DER time names, or the Unix epoch when it names none.
pub open spec fn time_or_epoch(t: DerTime) -> DateTimeFields {
    if valid_fields(der_time_fields(t)) {
        der_time_fields(t)
    } else {
        UtcDateTime::epoch_fields()
    }
}

/// A DER date-time as a UTC date-time (the Unix epoch when it names no valid second).
pub fn der_datetime_to_utc(t: DerTime) -> (r: UtcDateTime)
    ensures
        r@ == time_or_epoch(t),
{
    match UtcDateTime::from_ymd_hms(t.0 as i32, t.1 as u32, t.2 as u32, t.3 as u32, t.4 as u32, t.5 as u32) {
        Some(d) => d,
        None => UtcDateTime::epoch(),
    }
}

/// Reads a DER CRL: its issuer, revoked serial numbers and update times (a missing next
/// update reads as the last representable second).
pub fn parse_crl_der(der: &[u8]) -> (r: OfdResult<CrlInfo>)
    ensures
        match crl_fields_of(der@) {
            Ok((i, s, t, n)) => r matches Ok(c) && c.issuer@ == i && c.revoked_serials@.map_values(
                |v: Vec<u8>| v@,
            ) == s && c.this_update@ == time_or_epoch(t) && c.next_update@ == match n {
                Some(x) => time_or_epoch(x),
                None => UtcDateTime::max_fields(),
            },
            Err(m) => r matches Err(OfdError::Conversion(e)) && e@ == "CRL DER parse error: "@ + m,
        },
{
    match read_crl_fields(der) {
        Err(m) => {
            let mut e = String::from_str("CRL DER parse error: ");
            crate::text::push_str(&mut e, m.as_str());
            Err(OfdError::Conversion(e))
        },
        Ok((issuer, revoked_serials, t, n)) => {
            let this_update = der_datetime_to_utc(t);
            let next_update = match n {
                Some(x) => der_datetime_to_utc(x),
                None => UtcDateTime::max_utc(),
            };
            Ok(CrlInfo { issuer, revoked_serials, this_update, next_update })
        },
    }
}

// ---- the issuer of an OCSP request ----

/// What `x509_cert` gives for an issuer certificate: the DER of its issuer name and of its
/// `SubjectPublicKeyInfo`; or the failing step (0 decoding, 1 the name, 2 the key) and the
/// display text of its error.
pub uninterp spec fn issuer_fields_of(cert_der: Seq<u8>) -> Result<(Seq<u8>, Seq<u8>), (u8, Seq<char>)>;

/// `x509_cert::Certificate::from_der`, then `to_der` of `tbs_certificate().issuer()` and of
/// `tbs_certificate().subject_public_key_info()`.
#[verifier::external_body]
fn read_issuer_fields(cert_der: &[u8]) -> (r: Result<(Vec<u8>, Vec<u8>), (u8, String)>)
    ensures
        match issuer_fields_of(cert_der@) {
            Ok((n, k)) => r matches Ok((rn, rk)) && rn@ == n && rk@ == k,
            Err((step, m)) => r matches Err((rs, e)) && rs == step && e@ == m,
        },
{
    let cert = x509_cert::Certificate::from_der(cert_der).map_err(|e| (0u8, e.to_string()))?;
    let tbs = cert.tbs_certificate();
    let name = tbs.issuer().to_der().map_err(|e| (1u8, e.to_string()))?;
    let spki = tbs.subject_public_key_info().to_der().map_err(|e| (2u8, e.to_string()))?;
    Ok((name, spki))
}

/// The message for a failing step of reading an issuer certificate.
pub open spec fn issuer_error_message(step: u8, m: Seq<char>) -> Seq<char> {
    if step == 0 {
        "Issuer cert parse error: "@ + m
    } else if step == 1 {
        "Issuer DN encode error: "@ + m
    } else {
        "SPKI encode error: "@ + m
    }
}

/// The DER issuer name and `SubjectPublicKeyInfo` of an issuer certificate, as an OCSP
/// certificate identifier needs them.
pub fn extract_ocsp_issuer_fields(issuer_cert_der: &[u8]) -> (r: OfdResult<(Vec<u8>, Vec<u8>)>)
    ensures
        match issuer_fields_of(issuer_cert_der@) {
            Ok((n, k)) => r matches Ok((rn, rk)) && rn@ == n && rk@ == k,
            Err((step, m)) => r matches Err(OfdError::Conversion(e)) && e@ == issuer_error_message(step, m),
        },
{
    match read_issuer_fields(issuer_cert_der) {
        Ok(f) => Ok(f),
        Err((step, m)) => {
            let mut e = if step == 0 {
                String::from_str("Issuer cert parse error: ")
            } else if step == 1 {
                String::from_str("Issuer DN encode error: ")
            } else {
                String::from_str("SPKI encode error: ")
            };
            crate::text::push_str(&mut e, m.as_str());
            Err(OfdError::Conversion(e))
        },
    }
}

// ---- SHA-1 (FIPS 180-4), for OCSP certificate identifiers ----

/// A 32-bit word rotated left by `n` (1 to 31) bits.
pub open spec fn rotl32(x: u32, n: u32) -> u32 {
    (x << n) | (x >> (32u32 - n))
}

/// Word `i` of a block, big-endian.
pub open spec fn be_word(b: Seq<u8>, i: int) -> u32 {
    ((b[4 * i] as u32) << 24u32) | ((b[4 * i + 1] as u32) << 16u32) | ((b[4 * i + 2] as u32) << 8u32)
        | (b[4 * i + 3] as u32)
}

/// Word `t` (below 80) of the message schedule of a block.
pub open spec fn schedule(block: Seq<u8>, t: nat) -> u32
    decreases t,
{
    if t < 16 {
        be_word(block, t as int)
    } else {
        rotl32(
            schedule(block, (t - 3) as nat) ^ schedule(block, (t - 8) as nat) ^ schedule(block, (t - 14) as nat)
                ^ schedule(block, (t - 16) as nat),
            1,
        )
    }
}

/// The round function of round `t`.
pub open spec fn round_f(t: nat, b: u32, c: u32, d: u32) -> u32 {
    if t < 20 {
        (b & c) | (!b & d)
    } else if t < 40 {
        b ^ c ^ d
    } else if t < 60 {
        (b & c) | (b & d) | (c & d)
    } else {
        b ^ c ^ d
    }
}

/// The constant of round `t`.
pub open spec fn round_k(t: nat) -> u32 {
    if t < 20 {
        0x5A82_7999
    } else if t < 40 {
        0x6ED9_EBA1
    } else if t < 60 {
        0x8F1B_BCDC
    } else {
        0xCA62_C1D6
    }
}

/// The five working words.
pub type Sha1State = (u32, u32, u32, u32, u32);

/// The initial hash value.
pub open spec fn sha1_init() -> Sha1State {
    (0x6745_2301, 0xEFCD_AB89, 0x98BA_DCFE, 0x1032_5476, 0xC3D2_E1F0)
}

/// The working words after the first `t` rounds on a block.
pub open spec fn rounds(block: Seq<u8>, h: Sha1State, t: nat) -> Sha1State
    decreases t,
{
    if t == 0 {
        h
    } else {
        let s = rounds(block, h, (t - 1) as nat);
        let temp = rotl32(s.0, 5).wrapping_add(round_f((t - 1) as nat, s.1, s.2, s.3)).wrapping_add(
            s.4,
        ).wrapping_add(round_k((t - 1) as nat)).wrapping_add(schedule(block, (t - 1) as nat));
        (temp, s.0, rotl32(s.1, 30), s.2, s.3)
    }
}

/// The hash value after one block.
pub open spec fn compress(h: Sha1State, block: Seq<u8>) -> Sha1State {
    let s = rounds(block, h, 80);
    (h.0.wrapping_add(s.0), h.1.wrapping_add(s.1), h.2.wrapping_add(s.2), h.3.wrapping_add(s.3), h.4.wrapping_add(s.4))
}

/// The hash value after the first `n` blocks of a padded message.
pub open spec fn sha1_state(m: Seq<u8>, n: nat) -> Sha1State
    decreases n,
{
    if n == 0 {
        sha1_init()
    } else {
        compress(sha1_state(m, (n - 1) as nat), m.subrange(64 * (n - 1), (64 * n) as int))
    }
}

/// Number of zero bytes that bring a message of `len` bytes plus `0x80` to 56 modulo 64.
pub open spec fn zero_pad_count(len: nat) -> nat {
    ((55 + 64 - (len % 64) as int) % 64) as nat
}

/// A 64-bit number as 8 big-endian bytes.
pub open spec fn be64(x: u64) -> Seq<u8> {
    seq![
        (x >> 56u64) as u8,
        (x >> 48u64) as u8,
        (x >> 40u64) as u8,
        (x >> 32u64) as u8,
        (x >> 24u64) as u8,
        (x >> 16u64) as u8,
        (x >> 8u64) as u8,
        x as u8,
    ]
}

/// A 32-bit word as 4 big-endian bytes.
pub open spec fn be32(x: u32) -> Seq<u8> {
    seq![(x >> 24u32) as u8, (x >> 16u32) as u8, (x >> 8u32) as u8, x as u8]
}

/// The padded message: the data, `0x80`, zeros, and the bit length in 64 bits.
pub open spec fn sha1_padded(data: Seq<u8>) -> Seq<u8> {
    data + seq![0x80u8] + Seq::new(zero_pad_count(data.len()), |i: int| 0u8) + be64(
        (data.len() * 8) as u64,
    )
}

/// The SHA-1 digest of `data` (fewer than 2^61 bytes).
pub open spec fn sha1_digest(data: Seq<u8>) -> Seq<u8> {
    let m = sha1_padded(data);
    let h = sha1_state(m, m.len() / 64);
    be32(h.0) + be32(h.1) + be32(h.2) + be32(h.3) + be32(h.4)
}

fn rotl(x: u32, n: u32) -> (r: u32)
    requires
        1 <= n < 32,
    ensures
        r == rotl32(x, n),
{
    (x << n) | (x >> (32 - n))
}

fn sha1_pad(data: &[u8]) -> (m: Vec<u8>)
    requires
        data@.len() * 8 <= u64::MAX,
    ensures
        m@ == sha1_padded(data@),
        m@.len() % 64 == 0,
{
    let mut m: Vec<u8> = Vec::new();
    crate::der_tlv::extend_bytes(&mut m, data);
    m.push(0x80);
    let k: usize = (55 + 64 - data.len() % 64) % 64;
    let ghost head = m@;
    let mut j: usize = 0;
    while j < k
        invariant
            j <= k,
            m@ == head + Seq::new(j as nat, |i: int| 0u8),
        decreases k - j,
    {
        m.push(0);
        assert(m@ =~= head + Seq::new((j + 1) as nat, |i: int| 0u8));
        j = j + 1;
    }
    let bit_len: u64 = (data.len() as u64) * 8;
    m.push((bit_len >> 56) as u8);
    m.push((bit_len >> 48) as u8);
    m.push((bit_len >> 40) as u8);
    m.push((bit_len >> 32) as u8);
    m.push((bit_len >> 24) as u8);
    m.push((bit_len >> 16) as u8);
    m.push((bit_len >> 8) as u8);
    m.push(bit_len as u8);
    assert(m@ =~= sha1_padded(data@));
    m
}

fn read_word(m: &Vec<u8>, base: usize, i: usize) -> (w: u32)
    requires
        i < 16,
        base + 64 <= m@.len(),
    ensures
        w == be_word(m@.subrange(base as int, base + 64), i as int),
{
    let len = m.len();
    assert(base + 4 * i + 3 < len);
    let o = base + 4 * i;
    ((m[o] as u32) << 24) | ((m[o + 1] as u32) << 16) | ((m[o + 2] as u32) << 8) | (m[o + 3] as u32)
}

fn message_schedule(m: &Vec<u8>, base: usize) -> (w: Vec<u32>)
    requires
        base + 64 <= m@.len(),
    ensures
        w@.len() == 80,
        forall|t: int| 0 <= t < 80 ==> #[trigger] w@[t] == schedule(m@.subrange(base as int, base + 64), t as nat),
{
    let ghost block = m@.subrange(base as int, base + 64);
    let mut w: Vec<u32> = Vec::new();
    let mut t: usize = 0;
    while t < 80
        invariant
            t <= 80,
            base + 64 <= m@.len(),
            block == m@.subrange(base as int, base + 64),
            w@.len() == t,
            forall|j: int| 0 <= j < t ==> #[trigger] w@[j] == schedule(block, j as nat),
        decreases 80 - t,
    {
        if t < 16 {
            let x = read_word(m, base, t);
            w.push(x);
        } else {
            let x = rotl(w[t - 3] ^ w[t - 8] ^ w[t - 14] ^ w[t - 16], 1);
            assert(x == schedule(block, t as nat));
            w.push(x);
        }
        t = t + 1;
    }
    w
}

fn compress_block(h: (u32, u32, u32, u32, u32), m: &Vec<u8>, base: usize) -> (r: (u32, u32, u32, u32, u32))
    requires
        base + 64 <= m@.len(),
    ensures
        r == compress(h, m@.subrange(base as int, base + 64)),
{
    let ghost block = m@.subrange(base as int, base + 64);
    let w = message_schedule(m, base);
    let (mut a, mut b, mut c, mut d, mut e) = h;
    let mut t: usize = 0;
    while t < 80
        invariant
            t <= 80,
            w@.len() == 80,
            forall|j: int| 0 <= j < 80 ==> #[trigger] w@[j] == schedule(block, j as nat),
            (a, b, c, d, e) == rounds(block, h, t as nat),
        decreases 80 - t,
    {
        let (f, k) = if t < 20 {
            ((b & c) | (!b & d), 0x5A82_7999u32)
        } else if t < 40 {
            (b ^ c ^ d, 0x6ED9_EBA1u32)
        } else if t < 60 {
            ((b & c) | (b & d) | (c & d), 0x8F1B_BCDCu32)
        } else {
            (b ^ c ^ d, 0xCA62_C1D6u32)
        };
        let temp = rotl(a, 5).wrapping_add(f).wrapping_add(e).wrapping_add(k).wrapping_add(w[t]);
        e = d;
        d = c;
        c = rotl(b, 30);
        b = a;
        a = temp;
        t = t + 1;
    }
    (h.0.wrapping_add(a), h.1.wrapping_add(b), h.2.wrapping_add(c), h.3.wrapping_add(d), h.4.wrapping_add(e))
}

/// The SHA-1 digest of `data` (FIPS 180-4), used for the hashes of an OCSP certificate
/// identifier.
pub fn sha1(data: &[u8]) -> (r: [u8; 20])
    requires
        data@.len() * 8 <= u64::MAX,
    ensures
        r@ == sha1_digest(data@),
{
    let m = sha1_pad(data);
    let len = m.len();
    let n = len / 64;
    let mut h: (u32, u32, u32, u32, u32) = (0x6745_2301, 0xEFCD_AB89, 0x98BA_DCFE, 0x1032_5476, 0xC3D2_E1F0);
    let mut blk: usize = 0;
    while blk < n
        invariant
            blk <= n,
            n == m@.len() / 64,
            len == m@.len(),
            m@.len() % 64 == 0,
            h == sha1_state(m@, blk as nat),
        decreases n - blk,
    {
        assert(64 * blk + 64 <= m@.len()) by (nonlinear_arith)
            requires
                blk < n,
                n == m@.len() / 64,
        ;
        h = compress_block(h, &m, 64 * blk);
        assert(64 * (blk + 1) == 64 * blk + 64);
        blk = blk + 1;
    }
    let out: [u8; 20] = [
        (h.0 >> 24) as u8,
        (h.0 >> 16) as u8,
        (h.0 >> 8) as u8,
        h.0 as u8,
        (h.1 >> 24) as u8,
        (h.1 >> 16) as u8,
        (h.1 >> 8) as u8,
        h.1 as u8,
        (h.2 >> 24) as u8,
        (h.2 >> 16) as u8,
        (h.2 >> 8) as u8,
        h.2 as u8,
        (h.3 >> 24) as u8,
        (h.3 >> 16) as u8,
        (h.3 >> 8) as u8,
        h.3 as u8,
        (h.4 >> 24) as u8,
        (h.4 >> 16) as u8,
        (h.4 >> 8) as u8,
        h.4 as u8,
    ];
    assert(out@ =~= be32(h.0) + be32(h.1) + be32(h.2) + be32(h.3) + be32(h.4));
    out
}

// ---- OCSP requests ----

/// The SHA-1 `AlgorithmIdentifier`: `SEQUENCE { OID 1.3.14.3.2.26, NULL }`.
pub open spec fn sha1_algorithm_id() -> Seq<u8> {
    wrap_bytes(0x30, seq![0x06u8, 0x05, 0x2B, 0x0E, 0x03, 0x02, 0x1A, 0x05, 0x00])
}

/// The OCSP request (RFC 6960) for one certificate: `OCSPRequest { TBSRequest { requestList {
/// Request { CertID } } } }`, the `CertID` holding SHA-1 of the issuer name and of the issuer
/// key, and the serial number.
pub open spec fn ocsp_request_bytes(serial: Seq<u8>, issuer_name_der: Seq<u8>, issuer_spki_der: Seq<u8>) -> Seq<u8> {
    let cert_id = wrap_bytes(
        0x30,
        sha1_algorithm_id() + wrap_bytes(0x04, sha1_digest(issuer_name_der)) + wrap_bytes(
            0x04,
            sha1_digest(issuer_spki_der),
        ) + positive_integer_bytes(serial),
    );
    wrap_bytes(0x30, wrap_bytes(0x30, wrap_bytes(0x30, wrap_bytes(0x30, cert_id))))
}

/// Builds the OCSP request for the certificate `serial` of the issuer with DER-encoded name
/// `issuer_name_der` and `SubjectPublicKeyInfo` `issuer_spki_der`.
pub fn build_ocsp_request(serial: &[u8], issuer_name_der: &[u8], issuer_spki_der: &[u8]) -> (r: Vec<u8>)
    requires
        issuer_name_der@.len() * 8 <= u64::MAX,
        issuer_spki_der@.len() * 8 <= u64::MAX,
    ensures
        r@ == ocsp_request_bytes(serial@, issuer_name_der@, issuer_spki_der@),
{
    let name_hash = sha1(issuer_name_der);
    let key_hash = sha1(issuer_spki_der);
    let mut alg_val: Vec<u8> = Vec::new();
    alg_val.push(0x06);
    alg_val.push(0x05);
    alg_val.push(0x2B);
    alg_val.push(0x0E);
    alg_val.push(0x03);
    alg_val.push(0x02);
    alg_val.push(0x1A);
    alg_val.push(0x05);
    alg_val.push(0x00);
    assert(alg_val@ =~= seq![0x06u8, 0x05, 0x2B, 0x0E, 0x03, 0x02, 0x1A, 0x05, 0x00]);
    let alg_id = der_sequence(alg_val.as_slice());
    let mut cid_val: Vec<u8> = Vec::new();
    extend_bytes(&mut cid_val, alg_id.as_slice());
    let nh = der_octet_string(&name_hash);
    extend_bytes(&mut cid_val, nh.as_slice());
    let kh = der_octet_string(&key_hash);
    extend_bytes(&mut cid_val, kh.as_slice());
    let sn = der_integer_positive(serial);
    extend_bytes(&mut cid_val, sn.as_slice());
    let cert_id = der_sequence(cid_val.as_slice());
    let request = der_sequence(cert_id.as_slice());
    let request_list = der_sequence(request.as_slice());
    let tbs_request = der_sequence(request_list.as_slice());
    der_sequence(tbs_request.as_slice())
}

// ---- OCSP responses ----

/// The tag-length header at `pos`: tag, length (reduced modulo the `usize` range) and the
/// position after the header; `Err` carries the message.
pub open spec fn tl_at(der: Seq<u8>, pos: int) -> Result<(u8, nat, int), Seq<char>> {
    if pos < 0 || pos >= der.len() {
        Err("DER: unexpected end"@)
    } else if pos + 1 >= der.len() {
        Err("DER: missing length"@)
    } else {
        match der_length_at(der, pos + 1) {
            None => Err("DER: bad length"@),
            Some((len, after)) => Ok((der[pos], len, after)),
        }
    }
}

/// Where the cursor stands after a failed header read at `pos`: past the bytes consumed.
pub open spec fn tl_error_pos(der: Seq<u8>, pos: int) -> int {
    if pos >= der.len() {
        pos
    } else if pos + 1 >= der.len() {
        pos + 1
    } else {
        pos + 2
    }
}

/// Reads a DER tag-length header at `*pos` and moves `*pos` past it.
pub fn read_tl(der: &[u8], pos: &mut usize) -> (r: OfdResult<(u8, usize)>)
    ensures
        match tl_at(der@, *old(pos) as int) {
            Ok((tag, len, after)) => r == Ok::<(u8, usize), OfdError>((tag, len as usize))
                && *final(pos) as int == after,
            Err(m) => r matches Err(OfdError::Conversion(e)) && e@ == m
                && *final(pos) as int == tl_error_pos(der@, *old(pos) as int),
        },
{
    if *pos >= der.len() {
        return Err(OfdError::Conversion(String::from_str("DER: unexpected end")));
    }
    let tag = der[*pos];
    *pos = *pos + 1;
    if *pos >= der.len() {
        return Err(OfdError::Conversion(String::from_str("DER: missing length")));
    }
    match decode_der_length(der, *pos) {
        Ok((len, after)) => {
            *pos = after;
            Ok((tag, len))
        },
        Err(_) => {
            *pos = *pos + 1;
            Err(OfdError::Conversion(String::from_str("DER: bad length")))
        },
    }
}

/// The header at `p` when its tag is `tag`: its length and the position after it; `msg`
/// when the tag differs.
pub open spec fn expect_tl(r: Seq<u8>, p: int, tag: u8, msg: Seq<char>) -> Result<(nat, int), Seq<char>> {
    match tl_at(r, p) {
        Err(m) => Err(m),
        Ok((t, l, q)) => if t != tag {
            Err(msg)
        } else {
            Ok((l, q))
        },
    }
}

/// The position after an optional element at `p` that is there when `present`; `None` where
/// the end position overflows.
pub open spec fn skip_optional(r: Seq<u8>, p: int, present: bool) -> Option<Result<int, Seq<char>>> {
    if present {
        match tl_at(r, p) {
            Err(m) => Some(Err(m)),
            Ok((_, l, q)) => if q + l > usize::MAX {
                None
            } else {
                Some(Ok(q + l))
            },
        }
    } else {
        Some(Ok(p))
    }
}

/// The status of the first single response, read from the `responses` header at `p`:
/// revoked when the status tag is `[1]`.
pub open spec fn ocsp_cert_status(r: Seq<u8>, p: int) -> Option<Result<bool, Seq<char>>> {
    match expect_tl(r, p, 0x30, "OCSP: bad responses"@) {
        Err(m) => Some(Err(m)),
        Ok((_, p1)) => match expect_tl(r, p1, 0x30, "OCSP: bad SingleResponse"@) {
            Err(m) => Some(Err(m)),
            Ok((_, p2)) => match expect_tl(r, p2, 0x30, "OCSP: bad CertID"@) {
                Err(m) => Some(Err(m)),
                Ok((l, p3)) => if p3 + l > usize::MAX {
                    None
                } else if p3 + l >= r.len() {
                    Some(Err("OCSP: missing certStatus"@))
                } else {
                    match tl_at(r, p3 + l) {
                        Err(m) => Some(Err(m)),
                        Ok((t, _, _)) => Some(Ok(t == 0x81 || t == 0xA1)),
                    }
                },
            },
        },
    }
}

/// The ResponseData contents from `p` on: optional version `[0]`, responder id `[1]`/`[2]`
/// and production time, then the responses.
pub open spec fn ocsp_response_data(r: Seq<u8>, p: int) -> Option<Result<bool, Seq<char>>> {
    match skip_optional(r, p, p < r.len() && r[p] == 0xA0) {
        None => None,
        Some(Err(m)) => Some(Err(m)),
        Some(Ok(p1)) => match skip_optional(r, p1, p1 < r.len() && r[p1] & 0xE0 == 0xA0) {
            None => None,
            Some(Err(m)) => Some(Err(m)),
            Some(Ok(p2)) => match skip_optional(r, p2, p2 < r.len() && r[p2] == 0x18) {
                None => None,
                Some(Err(m)) => Some(Err(m)),
                Some(Ok(p3)) => ocsp_cert_status(r, p3),
            },
        },
    }
}

/// From the optional `responseBytes` at `p` on; a response without them is not revoked.
pub open spec fn ocsp_response_bytes(r: Seq<u8>, p: int) -> Option<Result<bool, Seq<char>>> {
    if p >= r.len() || r[p] != 0xA0 {
        Some(Ok(false))
    } else {
        match tl_at(r, p) {
            Err(m) => Some(Err(m)),
            Ok((_, _, p1)) => match expect_tl(r, p1, 0x30, "OCSP: bad ResponseBytes"@) {
                Err(m) => Some(Err(m)),
                Ok((_, p2)) => match expect_tl(r, p2, 0x06, "OCSP: bad responseType"@) {
                    Err(m) => Some(Err(m)),
                    Ok((l, p3)) => if p3 + l > usize::MAX {
                        None
                    } else {
                        match expect_tl(r, p3 + l, 0x04, "OCSP: bad response OCTET STRING"@) {
                            Err(m) => Some(Err(m)),
                            Ok((_, p4)) => match expect_tl(r, p4, 0x30, "OCSP: bad BasicOCSPResponse"@) {
                                Err(m) => Some(Err(m)),
                                Ok((_, p5)) => match expect_tl(r, p5, 0x30, "OCSP: bad ResponseData"@) {
                                    Err(m) => Some(Err(m)),
                                    Ok((_, p6)) => ocsp_response_data(r, p6),
                                },
                            },
                        }
                    },
                },
            },
        }
    }
}

/// What reading an OCSP response gives: `Some(Ok(revoked))`, `Some(Err(message))`, or
/// `None` where reading would index past the end (a missing status byte) or overflow a
/// position. Only the first certificate status is read; a status other than successful
/// counts as not revoked.
pub open spec fn ocsp_outcome(r: Seq<u8>) -> Option<Result<bool, Seq<char>>> {
    match expect_tl(r, 0, 0x30, "OCSP: not SEQUENCE"@) {
        Err(m) => Some(Err(m)),
        Ok((_, p)) => match tl_at(r, p) {
            Err(m) => Some(Err(m)),
            Ok((t, l, q)) => if t != 0x0A || l != 1 {
                Some(Err("OCSP: bad responseStatus"@))
            } else if q >= r.len() {
                None
            } else if r[q] != 0 {
                Some(Ok(false))
            } else {
                ocsp_response_bytes(r, q + 1)
            },
        },
    }
}

/// `o` as an exec result.
pub open spec fn matches_outcome(x: Option<OfdResult<bool>>, o: Option<Result<bool, Seq<char>>>) -> bool {
    match o {
        None => x is None,
        Some(Ok(b)) => x == Some(Ok::<bool, OfdError>(b)),
        Some(Err(m)) => x matches Some(Err(OfdError::Conversion(e))) && e@ == m,
    }
}

fn conversion_error(msg: &str) -> (r: OfdError)
    ensures
        r matches OfdError::Conversion(e) && e@ == msg@,
{
    OfdError::Conversion(String::from_str(msg))
}

/// Reads the header at `*p`, checking its tag.
fn expect_header(r: &[u8], p: &mut usize, tag: u8, msg: &str) -> (x: OfdResult<usize>)
    ensures
        match expect_tl(r@, *old(p) as int, tag, msg@) {
            Ok((l, q)) => x == Ok::<usize, OfdError>(l as usize) && *final(p) as int == q,
            Err(m) => x matches Err(OfdError::Conversion(e)) && e@ == m,
        },
{
    match read_tl(r, p) {
        Err(e) => Err(e),
        Ok((t, l)) => if t != tag {
            Err(conversion_error(msg))
        } else {
            Ok(l)
        },
    }
}

/// Skips an optional element at `*p` when `present`.
fn skip_optional_exec(r: &[u8], p: &mut usize, present: bool) -> (x: Option<OfdResult<()>>)
    ensures
        match skip_optional(r@, *old(p) as int, present) {
            None => x is None,
            Some(Ok(q)) => x == Some(Ok::<(), OfdError>(())) && *final(p) as int == q,
            Some(Err(m)) => x matches Some(Err(OfdError::Conversion(e))) && e@ == m,
        },
{
    if !present {
        return Some(Ok(()));
    }
    match read_tl(r, p) {
        Err(e) => Some(Err(e)),
        Ok((_, l)) => {
            if l > usize::MAX - *p {
                return None;
            }
            *p = *p + l;
            Some(Ok(()))
        },
    }
}

fn ocsp_cert_status_exec(r: &[u8], p: usize) -> (x: Option<OfdResult<bool>>)
    ensures
        matches_outcome(x, ocsp_cert_status(r@, p as int)),
{
    let mut p = p;
    match expect_header(r, &mut p, 0x30, "OCSP: bad responses") {
        Err(e) => return Some(Err(e)),
        Ok(_) => {},
    }
    match expect_header(r, &mut p, 0x30, "OCSP: bad SingleResponse") {
        Err(e) => return Some(Err(e)),
        Ok(_) => {},
    }
    let cid_len = match expect_header(r, &mut p, 0x30, "OCSP: bad CertID") {
        Err(e) => return Some(Err(e)),
        Ok(l) => l,
    };
    if cid_len > usize::MAX - p {
        return None;
    }
    p = p + cid_len;
    if p >= r.len() {
        return Some(Err(conversion_error("OCSP: missing certStatus")));
    }
    match read_tl(r, &mut p) {
        Err(e) => Some(Err(e)),
        Ok((cs_tag, _)) => Some(Ok(cs_tag == 0x81 || cs_tag == 0xA1)),
    }
}

fn ocsp_response_data_exec(r: &[u8], p: usize) -> (x: Option<OfdResult<bool>>)
    ensures
        matches_outcome(x, ocsp_response_data(r@, p as int)),
{
    let mut p = p;
    let version = p < r.len() && r[p] == 0xA0;
    match skip_optional_exec(r, &mut p, version) {
        None => return None,
        Some(Err(e)) => return Some(Err(e)),
        Some(Ok(())) => {},
    }
    let responder = p < r.len() && (r[p] & 0xE0) == 0xA0;
    match skip_optional_exec(r, &mut p, responder) {
        None => return None,
        Some(Err(e)) => return Some(Err(e)),
        Some(Ok(())) => {},
    }
    let produced = p < r.len() && r[p] == 0x18;
    match skip_optional_exec(r, &mut p, produced) {
        None => return None,
        Some(Err(e)) => return Some(Err(e)),
        Some(Ok(())) => {},
    }
    ocsp_cert_status_exec(r, p)
}

fn ocsp_response_bytes_exec(r: &[u8], p: usize) -> (x: Option<OfdResult<bool>>)
    ensures
        matches_outcome(x, ocsp_response_bytes(r@, p as int)),
{
    if p >= r.len() || r[p] != 0xA0 {
        return Some(Ok(false));
    }
    let mut p = p;
    match read_tl(r, &mut p) {
        Err(e) => return Some(Err(e)),
        Ok(_) => {},
    }
    match expect_header(r, &mut p, 0x30, "OCSP: bad ResponseBytes") {
        Err(e) => return Some(Err(e)),
        Ok(_) => {},
    }
    let oid_len = match expect_header(r, &mut p, 0x06, "OCSP: bad responseType") {
        Err(e) => return Some(Err(e)),
        Ok(l) => l,
    };
    if oid_len > usize::MAX - p {
        return None;
    }
    p = p + oid_len;
    match expect_header(r, &mut p, 0x04, "OCSP: bad response OCTET STRING") {
        Err(e) => return Some(Err(e)),
        Ok(_) => {},
    }
    match expect_header(r, &mut p, 0x30, "OCSP: bad BasicOCSPResponse") {
        Err(e) => return Some(Err(e)),
        Ok(_) => {},
    }
    match expect_header(r, &mut p, 0x30, "OCSP: bad ResponseData") {
        Err(e) => return Some(Err(e)),
        Ok(_) => {},
    }
    ocsp_response_data_exec(r, p)
}

/// Reads an OCSP response, or `None` where reading it would index past its end or overflow a
/// position.
pub fn read_ocsp_response(response: &[u8]) -> (x: Option<OfdResult<bool>>)
    ensures
        matches_outcome(x, ocsp_outcome(response@)),
{
    let mut p: usize = 0;
    match expect_header(response, &mut p, 0x30, "OCSP: not SEQUENCE") {
        Err(e) => return Some(Err(e)),
        Ok(_) => {},
    }
    let (tag, len) = match read_tl(response, &mut p) {
        Err(e) => return Some(Err(e)),
        Ok(v) => v,
    };
    if tag != 0x0A || len != 1 {
        return Some(Err(conversion_error("OCSP: bad responseStatus")));
    }
    if p >= response.len() {
        return None;
    }
    let status = response[p];
    if status != 0 {
        return Some(Ok(false));
    }
    ocsp_response_bytes_exec(response, p + 1)
}

/// Reads an OCSP response: `Ok(true)` when the first certificate status is revoked. Only
/// that status is read; the response's signature is not checked.
pub fn parse_ocsp_response(response: &[u8]) -> (r: OfdResult<bool>)
    requires
        ocsp_outcome(response@) is Some,
    ensures
        matches_outcome(Some(r), ocsp_outcome(response@)),
{
    match read_ocsp_response(response) {
        Some(r) => r,
        None => Ok(false),
    }
}

/// The revocation verdict on an OCSP exchange: not revoked when no reply came or the reply
/// does not read; the first certificate status otherwise; `None` where reading the reply
/// would index past its end or overflow a position.
pub fn ocsp_verdict(reply: Option<&[u8]>) -> (r: Option<bool>)
    ensures
        match reply {
            None => r == Some(false),
            Some(b) => match ocsp_outcome(b@) {
                None => r is None,
                Some(Ok(v)) => r == Some(v),
                Some(Err(_)) => r == Some(false),
            },
        },
{
    match reply {
        None => Some(false),
        Some(b) => match read_ocsp_response(b) {
            None => None,
            Some(Ok(v)) => Some(v),
            Some(Err(_)) => Some(false),
        },
    }
}

} // verus!
