//! Minimal ASN.1 DER tag/length/value encoding shared by the seal and time-stamp containers.
use vstd::prelude::*;
use crate::ofd_error::OfdError;

verus! {

/// Big-endian value of a byte sequence.
pub open spec fn be_value(bytes: Seq<u8>) -> nat
    decreases bytes.len(),
{
    if bytes.len() == 0 {
        0
    } else {
        be_value(bytes.drop_last()) * 256 + bytes.last() as nat
    }
}

/// The DER length field written for a content of `len` bytes (lengths of 2^24 and more keep
/// only their low three bytes).
pub open spec fn der_length_bytes(len: nat) -> Seq<u8> {
    if len < 0x80 {
        seq![len as u8]
    } else if len <= 0xFF {
        seq![0x81u8, len as u8]
    } else if len <= 0xFFFF {
        seq![0x82u8, (len / 0x100) as u8, (len % 0x100) as u8]
    } else {
        seq![0x83u8, ((len / 0x10000) % 0x100) as u8, ((len / 0x100) % 0x100) as u8, (len % 0x100) as u8]
    }
}

/// Number of distinct `usize` values.
pub open spec fn usize_modulus() -> nat {
    usize::MAX as nat + 1
}

/// A complete TLV: tag, length field and content.
pub open spec fn der_tlv_bytes(tag: u8, content: Seq<u8>) -> Seq<u8> {
    seq![tag] + der_length_bytes(content.len()) + content
}

/// The length field read at `pos`: the length (reduced modulo 2^64, as a `usize` accumulator
/// keeps it) and the position after the field; `None` when the field is missing or malformed.
pub open spec fn der_length_at(der: Seq<u8>, pos: int) -> Option<(nat, int)> {
    if pos < 0 || pos >= der.len() {
        None
    } else if der[pos] < 0x80 {
        Some((der[pos] as nat, pos + 1))
    } else {
        let n = der[pos] - 0x80;
        if n == 0 || pos + 1 + n > der.len() {
            None
        } else {
            Some((be_value(der.subrange(pos + 1, pos + 1 + n)) % usize_modulus(), pos + 1 + n))
        }
    }
}

/// Why reading a length field fails.
pub open spec fn der_length_error(der: Seq<u8>, pos: int) -> Seq<char> {
    if pos >= der.len() {
        "DER: truncated length"@
    } else {
        "DER: invalid length encoding"@
    }
}

/// Reading the TLV at `pos` would overflow the end position (the unchecked addition panics).
pub open spec fn der_tlv_overflows(der: Seq<u8>, pos: int) -> bool {
    &&& 0 <= pos < der.len()
    &&& der_length_at(der, pos + 1) matches Some((len, after))
    &&& after + len > usize::MAX
}

/// The TLV read at `pos`: tag, content and the position after it; `Err` carries the message.
pub open spec fn der_tlv_at(der: Seq<u8>, pos: int) -> Result<(u8, Seq<u8>, int), Seq<char>> {
    if pos < 0 || pos >= der.len() {
        Err("DER: truncated TLV"@)
    } else {
        match der_length_at(der, pos + 1) {
            None => Err(der_length_error(der, pos + 1)),
            Some((len, after)) => if after + len > der.len() {
                Err("DER: value extends past end"@)
            } else {
                Ok((der[pos], der.subrange(after, after + len), after + len))
            },
        }
    }
}

proof fn lemma_be_value_push(s: Seq<u8>, b: u8)
    ensures
        be_value(s.push(b)) == be_value(s) * 256 + b as nat,
{
    assert(s.push(b).drop_last() == s);
}

proof fn lemma_shift_or(x: u64, b: u8)
    ensures
        ((x << 8u64) | (b as u64)) as nat == (x as nat * 256 + b as nat) % 0x1_0000_0000_0000_0000,
{
    assert(((x << 8u64) | (b as u64)) == ((x * 256 + b) % 0x1_0000_0000_0000_0000) as u64)
        by (bit_vector);
}

proof fn lemma_u64_to_usize(acc: u64)
    ensures
        (#[verifier::truncate] (acc as usize)) as nat == acc as nat % usize_modulus(),
{
    let t: usize = #[verifier::truncate] (acc as usize);
    assert(usize::BITS == 32 || usize::BITS == 64);
    if usize::BITS == 64 {
        assert(usize::BITS == 64 ==> (#[verifier::truncate] (acc as usize)) as u64 == acc) by (bit_vector);
        assert(usize::MAX == 0xffff_ffff_ffff_ffff);
        assert(t as u64 == acc);
        assert(usize_modulus() == 0x1_0000_0000_0000_0000);
        vstd::arithmetic::div_mod::lemma_small_mod(acc as nat, usize_modulus());
    } else {
        assert(usize::BITS == 32 ==> (#[verifier::truncate] (acc as usize)) as u64 == acc % 0x1_0000_0000) by (bit_vector);
        assert(usize::MAX == 0xffff_ffff);
        assert(t as u64 == acc % 0x1_0000_0000);
        assert(usize_modulus() == 0x1_0000_0000);
    }
}

proof fn lemma_mod_mod(v: nat)
    ensures
        (v % 0x1_0000_0000_0000_0000) % usize_modulus() == v % usize_modulus(),
{
    assert(usize_modulus() == 0x1_0000_0000 || usize_modulus() == 0x1_0000_0000_0000_0000);
    if usize_modulus() == 0x1_0000_0000 {
        vstd::arithmetic::div_mod::lemma_mod_mod(v as int, 0x1_0000_0000, 0x1_0000_0000);
    } else {
        vstd::arithmetic::div_mod::lemma_mod_mod(v as int, 0x1_0000_0000_0000_0000, 1);
    }
}

proof fn lemma_mod_step(v: nat, b: nat)
    requires
        b < 256,
    ensures
        ((v % 0x1_0000_0000_0000_0000) * 256 + b) % 0x1_0000_0000_0000_0000
            == (v * 256 + b) % 0x1_0000_0000_0000_0000,
{
    let m: int = 0x1_0000_0000_0000_0000;
    vstd::arithmetic::div_mod::lemma_fundamental_div_mod(v as int, m);
    let q = v as int / m;
    let r = v as int % m;
    assert(v * 256 + b == r * 256 + b + (q * 256) * m) by (nonlinear_arith)
        requires v == q * m + r;
    vstd::arithmetic::div_mod::lemma_mod_multiples_vanish(q * 256, r * 256 + b, m);
}

/// Appends the DER length field for `len`.
pub fn encode_der_length(len: usize, out: &mut Vec<u8>)
    ensures
        final(out)@ == old(out)@ + der_length_bytes(len as nat),
{
    if len < 0x80 {
        out.push(len as u8);
    } else if len <= 0xFF {
        out.push(0x81);
        out.push(len as u8);
    } else if len <= 0xFFFF {
        out.push(0x82);
        assert((len >> 8usize) as u8 == (len / 0x100) as u8) by (bit_vector);
        assert(len as u8 == (len % 0x100) as u8) by (bit_vector);
        out.push((len >> 8) as u8);
        out.push(len as u8);
    } else {
        out.push(0x83);
        assert((len >> 16usize) as u8 == ((len / 0x10000) % 0x100) as u8) by (bit_vector);
        assert((len >> 8usize) as u8 == ((len / 0x100) % 0x100) as u8) by (bit_vector);
        assert(len as u8 == (len % 0x100) as u8) by (bit_vector);
        out.push((len >> 16) as u8);
        out.push((len >> 8) as u8);
        out.push(len as u8);
    }
}

/// Reads the DER length field at `pos`, returning the length and the position after it.
pub fn decode_der_length(der: &[u8], pos: usize) -> (r: Result<(usize, usize), OfdError>)
    ensures
        match der_length_at(der@, pos as int) {
            Some((len, after)) => r == Ok::<(usize, usize), OfdError>((len as usize, after as usize)),
            None => r matches Err(OfdError::Conversion(m)) && m@ == der_length_error(der@, pos as int),
        },
{
    if pos >= der.len() {
        return Err(OfdError::Conversion(String::from_str("DER: truncated length")));
    }
    let first = der[pos];
    if first < 0x80 {
        Ok((first as usize, pos + 1))
    } else {
        let num_bytes = (first & 0x7F) as usize;
        assert(first & 0x7F == first - 0x80) by (bit_vector) requires first >= 0x80;
        if num_bytes == 0 || num_bytes > der.len() - pos - 1 {
            return Err(OfdError::Conversion(String::from_str("DER: invalid length encoding")));
        }
        let mut len: u64 = 0;
        let mut i: usize = 0;
        while i < num_bytes
            invariant
                pos + 1 + num_bytes <= der.len(),
                i <= num_bytes,
                len as nat == be_value(der@.subrange(pos + 1, pos + 1 + i)) % 0x1_0000_0000_0000_0000,
            decreases num_bytes - i,
        {
            let b = der[pos + 1 + i];
            proof {
                let pre = der@.subrange(pos + 1, pos + 1 + i);
                assert(der@.subrange(pos + 1, pos + 1 + i + 1) == pre.push(b));
                lemma_be_value_push(pre, b);
                lemma_shift_or(len, b);
                lemma_mod_step(be_value(pre), b as nat);
            }
            len = (len << 8) | b as u64;
            i = i + 1;
        }
        proof {
            lemma_u64_to_usize(len);
            lemma_mod_mod(be_value(der@.subrange(pos + 1, pos + 1 + num_bytes)));
        }
        let len_usize: usize = #[verifier::truncate] (len as usize);
        Ok((len_usize, pos + 1 + num_bytes))
    }
}

/// Reads the TLV at `pos`: tag, a copy of the content, and the position after it.
pub fn decode_der_tlv(der: &[u8], pos: usize) -> (r: Result<(u8, Vec<u8>, usize), OfdError>)
    requires
        !der_tlv_overflows(der@, pos as int),
    ensures
        match der_tlv_at(der@, pos as int) {
            Ok((tag, content, end)) => r matches Ok((t, c, e)) && t == tag && c@ == content && e == end,
            Err(msg) => r matches Err(OfdError::Conversion(m)) && m@ == msg,
        },
{
    if pos >= der.len() {
        return Err(OfdError::Conversion(String::from_str("DER: truncated TLV")));
    }
    let tag = der[pos];
    let (len, after_len) = match decode_der_length(der, pos + 1) {
        Ok(v) => v,
        Err(e) => return Err(e),
    };
    let end = after_len + len;
    if end > der.len() {
        return Err(OfdError::Conversion(String::from_str("DER: value extends past end")));
    }
    let mut content: Vec<u8> = Vec::new();
    let mut i = after_len;
    while i < end
        invariant
            after_len <= i <= end <= der@.len(),
            content@ == der@.subrange(after_len as int, i as int),
        decreases end - i,
    {
        assert(der@.subrange(after_len as int, i + 1) == content@.push(der@[i as int]));
        content.push(der[i]);
        i = i + 1;
    }
    Ok((tag, content, end))
}

/// Minimal big-endian bytes of `v` (at least one byte).
pub open spec fn min_be_bytes(v: nat) -> Seq<u8>
    decreases v,
{
    if v < 256 {
        seq![v as u8]
    } else {
        min_be_bytes(v / 256).push((v % 256) as u8)
    }
}

/// Content octets of a DER INTEGER holding the non-negative `v`: the minimal big-endian
/// bytes, with a zero byte in front when the first would read as negative.
pub open spec fn der_integer_content(v: nat) -> Seq<u8> {
    if min_be_bytes(v)[0] >= 0x80 {
        seq![0u8] + min_be_bytes(v)
    } else {
        min_be_bytes(v)
    }
}

/// A DER BIT STRING with no unused bits around `data`.
pub open spec fn der_bit_string_bytes(data: Seq<u8>) -> Seq<u8> {
    der_tlv_bytes(0x03, seq![0u8] + data)
}

proof fn lemma_min_be_bytes(v: nat)
    ensures
        be_value(min_be_bytes(v)) == v,
        1 <= min_be_bytes(v).len(),
        v < 0x100 ==> min_be_bytes(v).len() <= 1,
        v < 0x1_0000 ==> min_be_bytes(v).len() <= 2,
        v < 0x100_0000 ==> min_be_bytes(v).len() <= 3,
        v < 0x1_0000_0000 ==> min_be_bytes(v).len() <= 4,
    decreases v,
{
    if v < 256 {
        let s = min_be_bytes(v);
        assert(s == seq![v as u8]);
        assert(s.drop_last() == Seq::<u8>::empty());
        assert(be_value(s) == be_value(s.drop_last()) * 256 + s.last() as nat);
    } else {
        let q = v / 256;
        let r = (v % 256) as u8;
        lemma_min_be_bytes(q);
        lemma_be_value_push(min_be_bytes(q), r);
        assert(min_be_bytes(v) == min_be_bytes(q).push(r));
        assert(r as nat == v % 256);
        assert(v == q * 256 + v % 256);
    }
}

proof fn lemma_be_value_zero_prefix(s: Seq<u8>)
    ensures
        be_value(seq![0u8] + s) == be_value(s),
    decreases s.len(),
{
    let z = seq![0u8] + s;
    if s.len() > 0 {
        lemma_be_value_zero_prefix(s.drop_last());
        assert(z.drop_last() == seq![0u8] + s.drop_last());
        assert(z.last() == s.last());
        assert(be_value(z) == be_value(z.drop_last()) * 256 + z.last() as nat);
        assert(be_value(s) == be_value(s.drop_last()) * 256 + s.last() as nat);
    } else {
        assert(z == seq![0u8]);
        assert(z.drop_last() == Seq::<u8>::empty());
        assert(be_value(z) == be_value(z.drop_last()) * 256 + z.last() as nat);
        assert(be_value(s) == 0);
    }
}

/// The integer content decodes back to the value it was made from.
pub proof fn lemma_der_integer_content_value(v: nat)
    ensures
        be_value(der_integer_content(v)) == v,
        der_integer_content(v).len() <= 5 || v >= 0x1_0000_0000,
{
    lemma_min_be_bytes(v);
    lemma_be_value_zero_prefix(min_be_bytes(v));
}

/// Appends `bytes` to `out`.
pub fn extend_bytes(out: &mut Vec<u8>, bytes: &[u8])
    ensures
        final(out)@ == old(out)@ + bytes@,
{
    let mut i: usize = 0;
    while i < bytes.len()
        invariant
            i <= bytes@.len(),
            out@ == old(out)@ + bytes@.take(i as int),
        decreases bytes@.len() - i,
    {
        assert(bytes@.take(i + 1) == bytes@.take(i as int).push(bytes@[i as int]));
        out.push(bytes[i]);
        i = i + 1;
    }
    assert(bytes@.take(bytes@.len() as int) == bytes@);
}

/// Appends a complete TLV with the given tag and content.
pub fn encode_der_tlv(tag: u8, content: &[u8], out: &mut Vec<u8>)
    ensures
        final(out)@ == old(out)@ + der_tlv_bytes(tag, content@),
{
    out.push(tag);
    encode_der_length(content.len(), out);
    extend_bytes(out, content);
    assert(old(out)@ + der_tlv_bytes(tag, content@) == old(out)@.push(tag) + der_length_bytes(
        content@.len(),
    ) + content@);
}

fn min_be_bytes_of(v: u32) -> (r: Vec<u8>)
    ensures
        r@ == min_be_bytes(v as nat),
    decreases v,
{
    if v < 256 {
        let mut r: Vec<u8> = Vec::new();
        r.push(v as u8);
        r
    } else {
        let mut r = min_be_bytes_of(v / 256);
        r.push((v % 256) as u8);
        r
    }
}

/// Appends a DER INTEGER holding `val`.
pub fn encode_der_integer(val: u32, out: &mut Vec<u8>)
    ensures
        final(out)@ == old(out)@ + der_tlv_bytes(0x02, der_integer_content(val as nat)),
{
    let payload = min_be_bytes_of(val);
    proof {
        lemma_min_be_bytes(val as nat);
    }
    let mut content: Vec<u8> = Vec::new();
    if payload[0] & 0x80 != 0 {
        content.push(0u8);
    }
    let first = payload[0];
    assert(first & 0x80 != 0 <==> first >= 0x80) by (bit_vector);
    extend_bytes(&mut content, payload.as_slice());
    assert(content@ == der_integer_content(val as nat));
    encode_der_tlv(0x02, content.as_slice(), out);
}

/// Appends a DER BIT STRING with no unused bits.
pub fn encode_der_bit_string(data: &[u8], out: &mut Vec<u8>)
    ensures
        final(out)@ == old(out)@ + der_bit_string_bytes(data@),
{
    let mut content: Vec<u8> = Vec::new();
    content.push(0);
    extend_bytes(&mut content, data);
    encode_der_tlv(0x03, content.as_slice(), out);
}

proof fn lemma_shift_or_u32(x: u32, b: u8)
    ensures
        (x.wrapping_shl(8) | (b as u32)) as nat == (x as nat * 256 + b as nat) % 0x1_0000_0000,
{
    assert((x << 8u32) | (b as u32) == ((x * 256 + b) % 0x1_0000_0000) as u32) by (bit_vector);
}

proof fn lemma_mod_step_u32(v: nat, b: nat)
    requires
        b < 256,
    ensures
        ((v % 0x1_0000_0000) * 256 + b) % 0x1_0000_0000 == (v * 256 + b) % 0x1_0000_0000,
{
    let m: int = 0x1_0000_0000;
    vstd::arithmetic::div_mod::lemma_fundamental_div_mod(v as int, m);
    let q = v as int / m;
    let r = v as int % m;
    assert(v * 256 + b == r * 256 + b + (q * 256) * m) by (nonlinear_arith)
        requires v == q * m + r;
    vstd::arithmetic::div_mod::lemma_mod_multiples_vanish(q * 256, r * 256 + b, m);
}

/// Big-endian value of `bytes`, keeping the low 32 bits.
pub fn bytes_to_u32(bytes: &[u8]) -> (v: u32)
    ensures
        v as nat == be_value(bytes@) % 0x1_0000_0000,
{
    let mut val: u32 = 0;
    let mut i: usize = 0;
    while i < bytes.len()
        invariant
            i <= bytes@.len(),
            val as nat == be_value(bytes@.take(i as int)) % 0x1_0000_0000,
        decreases bytes@.len() - i,
    {
        let b = bytes[i];
        proof {
            let pre = bytes@.take(i as int);
            assert(bytes@.take(i + 1) == pre.push(b));
            lemma_be_value_push(pre, b);
            lemma_shift_or_u32(val, b);
            lemma_mod_step_u32(be_value(pre), b as nat);
        }
        val = val.wrapping_shl(8) | b as u32;
        i = i + 1;
    }
    assert(bytes@.take(bytes@.len() as int) == bytes@);
    val
}

proof fn lemma_length_roundtrip(n: nat, rest: Seq<u8>)
    requires
        n < 0x100_0000,
    ensures
        der_length_at(der_length_bytes(n) + rest, 0) == Some((n, der_length_bytes(n).len() as int)),
{
    let w = der_length_bytes(n) + rest;
    assert(usize_modulus() >= 0x1_0000_0000);
    vstd::arithmetic::div_mod::lemma_small_mod(n, usize_modulus());
    if n < 0x80 {
        assert(w[0] == n as u8);
    } else if n <= 0xFF {
        let s1 = seq![n as u8];
        assert(w[0] == 0x81u8);
        assert(w.subrange(1, 2) == s1);
        assert(s1.drop_last() == Seq::<u8>::empty());
        assert(be_value(s1) == be_value(s1.drop_last()) * 256 + s1.last() as nat);
        assert(be_value(s1) == n);
    } else if n <= 0xFFFF {
        let a = (n / 0x100) as u8;
        let b = (n % 0x100) as u8;
        let s2 = seq![a, b];
        assert(w[0] == 0x82u8);
        assert(w.subrange(1, 3) == s2);
        assert(s2.drop_last() == seq![a]);
        assert(seq![a].drop_last() == Seq::<u8>::empty());
        assert(be_value(seq![a]) == be_value(seq![a].drop_last()) * 256 + a as nat);
        assert(be_value(s2) == be_value(s2.drop_last()) * 256 + s2.last() as nat);
        assert(n == (n / 0x100) * 0x100 + n % 0x100);
        assert(be_value(s2) == n);
    } else {
        let a = ((n / 0x10000) % 0x100) as u8;
        let b = ((n / 0x100) % 0x100) as u8;
        let c = (n % 0x100) as u8;
        let s3 = seq![a, b, c];
        assert(w[0] == 0x83u8);
        assert(w.subrange(1, 4) == s3);
        assert(s3.drop_last() == seq![a, b]);
        assert(seq![a, b].drop_last() == seq![a]);
        assert(seq![a].drop_last() == Seq::<u8>::empty());
        assert(be_value(seq![a]) == be_value(seq![a].drop_last()) * 256 + a as nat);
        assert(be_value(seq![a, b]) == be_value(seq![a, b].drop_last()) * 256 + b as nat);
        assert(be_value(s3) == be_value(s3.drop_last()) * 256 + c as nat);
        assert(n / 0x10000 < 0x100);
        assert(n == ((n / 0x10000) * 0x100 + (n / 0x100) % 0x100) * 0x100 + n % 0x100) by {
            vstd::arithmetic::div_mod::lemma_fundamental_div_mod(n as int, 0x100);
            vstd::arithmetic::div_mod::lemma_fundamental_div_mod(n as int / 0x100, 0x100);
            vstd::arithmetic::div_mod::lemma_div_denominator(n as int, 0x100, 0x100);
        }
        assert(be_value(s3) == n);
    }
}

/// A TLV written by `encode_der_tlv` reads back as the same tag and content, wherever it
/// stands in a longer byte string, when the content is shorter than 2^24 bytes.
pub proof fn lemma_tlv_roundtrip(prefix: Seq<u8>, tag: u8, content: Seq<u8>, suffix: Seq<u8>)
    requires
        content.len() < 0x100_0000,
        prefix.len() + der_tlv_bytes(tag, content).len() + suffix.len() <= usize::MAX,
    ensures
        ({
            let whole = prefix + der_tlv_bytes(tag, content) + suffix;
            &&& der_tlv_at(whole, prefix.len() as int) == Ok::<(u8, Seq<u8>, int), Seq<char>>(
                (tag, content, (prefix.len() + der_tlv_bytes(tag, content).len()) as int),
            )
            &&& !der_tlv_overflows(whole, prefix.len() as int)
        }),
{
    let whole = prefix + der_tlv_bytes(tag, content) + suffix;
    let p = prefix.len() as int;
    let lb = der_length_bytes(content.len());
    let tail = content + suffix;
    lemma_length_roundtrip(content.len(), tail);
    assert(whole == (prefix + seq![tag]) + (lb + tail));
    let w2 = lb + tail;
    assert forall|i: int| 0 <= i < w2.len() implies whole[p + 1 + i] == w2[i] by {}
    assert(whole.subrange(p + 1, whole.len() as int) == w2);
    let l = der_length_at(w2, 0);
    assert(whole[p] == tag);
    if w2[0] >= 0x80 {
        let n = w2[0] - 0x80;
        assert(whole.subrange(p + 2, p + 2 + n) == w2.subrange(1, 1 + n));
    }
    assert(der_length_at(whole, p + 1) == Some((content.len(), p + 1 + lb.len())));
    assert(whole.subrange(p + 1 + lb.len(), p + 1 + lb.len() + content.len()) == content);
}

} // verus!
