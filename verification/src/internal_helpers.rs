//! Text encodings and the digest used across the crate: XML escaping, hexadecimal, base64,
//! and SM3.
use vstd::prelude::*;
use sm3::{Digest, Sm3};
use crate::text::push_char;
use vstd::string::StringSliceAdditionalSpecFns;

verus! {

/// SM3 digest of `data` (GB/T 32905), as the `sm3` crate computes it.
pub uninterp spec fn sm3_digest(data: Seq<u8>) -> Seq<u8>;

/// The SM3 digest of `data`, computed by `sm3::Sm3` (`new`, `update`, `finalize`).
#[verifier::external_body]
pub(crate) fn compute_sm3(data: &[u8]) -> (r: [u8; 32])
    ensures
        r@ == sm3_digest(data@),
{
    let mut h = Sm3::new();
    h.update(data);
    let out = h.finalize();
    let mut o = [0u8; 32];
    o.copy_from_slice(&out);
    o
}

/// The XML text for one character: the five markup characters become entity references.
pub open spec fn xml_escape_char(c: char) -> Seq<char> {
    if c == '&' {
        "&amp;"@
    } else if c == '<' {
        "&lt;"@
    } else if c == '>' {
        "&gt;"@
    } else if c == '"' {
        "&quot;"@
    } else if c == '\'' {
        "&apos;"@
    } else {
        seq![c]
    }
}

/// `s` escaped for use in XML text and attribute values.
pub open spec fn xml_escaped(s: Seq<char>) -> Seq<char>
    decreases s.len(),
{
    if s.len() == 0 {
        Seq::empty()
    } else {
        xml_escaped(s.drop_last()) + xml_escape_char(s.last())
    }
}

/// Escapes `&`, `<`, `>`, `"` and `'` for XML.
pub fn xml_escape(s: &str) -> (r: String)
    ensures
        r@ == xml_escaped(s@),
{
    let mut out = String::new();
    for c in iter: s.chars()
        invariant
            iter.seq() == s@,
            out@ == xml_escaped(s@.take(iter.index() as int)),
    {
        let ghost pre = s@.take(iter.index() as int);
        assert(s@.take(iter.index() + 1).drop_last() == pre);
        if c == '&' {
            crate::text::push_str(&mut out, "&amp;");
        } else if c == '<' {
            crate::text::push_str(&mut out, "&lt;");
        } else if c == '>' {
            crate::text::push_str(&mut out, "&gt;");
        } else if c == '"' {
            crate::text::push_str(&mut out, "&quot;");
        } else if c == '\'' {
            crate::text::push_str(&mut out, "&apos;");
        } else {
            push_char(&mut out, c);
        }
    }
    assert(s@.take(s@.len() as int) == s@);
    out
}

/// Lower-case hexadecimal digit for `n` < 16.
pub open spec fn hex_lower_digit(n: int) -> char {
    if n < 10 {
        (48 + n) as char
    } else {
        (87 + n) as char
    }
}

/// Two lower-case hexadecimal digits per byte, as `{:02x}` writes them.
pub open spec fn hex_text(b: Seq<u8>) -> Seq<char>
    decreases b.len(),
{
    if b.len() == 0 {
        Seq::empty()
    } else {
        hex_text(b.drop_last()) + seq![
            hex_lower_digit(b.last() as int / 16),
            hex_lower_digit(b.last() as int % 16),
        ]
    }
}

fn hex_lower_char(n: u8) -> (c: char)
    requires
        n < 16,
    ensures
        c == hex_lower_digit(n as int),
{
    if n < 10 {
        (48u8 + n) as char
    } else {
        (87u8 + n) as char
    }
}

/// Lower-case hexadecimal text of `b`.
pub fn hex(b: &[u8]) -> (r: String)
    ensures
        r@ == hex_text(b@),
{
    let mut out = String::new();
    let mut i: usize = 0;
    while i < b.len()
        invariant
            i <= b@.len(),
            out@ == hex_text(b@.take(i as int)),
        decreases b@.len() - i,
    {
        assert(b@.take(i + 1).drop_last() == b@.take(i as int));
        push_char(&mut out, hex_lower_char(b[i] / 16));
        push_char(&mut out, hex_lower_char(b[i] % 16));
        i = i + 1;
    }
    assert(b@.take(b@.len() as int) == b@);
    out
}

/// Value of an ASCII hexadecimal digit byte (either case).
pub open spec fn hex_digit_value(c: u8) -> Option<u8> {
    if 48 <= c <= 57 {
        Some((c - 48) as u8)
    } else if 97 <= c <= 102 {
        Some((c - 87) as u8)
    } else if 65 <= c <= 70 {
        Some((c - 55) as u8)
    } else {
        None
    }
}

/// `u8::from_str_radix` with radix 16 on a two-byte text: an optional `+`, then digits.
pub open spec fn hex_pair_value(a: u8, b: u8) -> Option<u8> {
    if a == 43 {
        hex_digit_value(b)
    } else {
        match (hex_digit_value(a), hex_digit_value(b)) {
            (Some(x), Some(y)) => Some((x * 16 + y) as u8),
            _ => None,
        }
    }
}

/// The bytes spelled by a hexadecimal text, two digits each; `None` at the first pair that
/// is not a hexadecimal number.
pub open spec fn unhex_bytes(s: Seq<u8>) -> Option<Seq<u8>>
    decreases s.len(),
{
    if s.len() < 2 {
        Some(Seq::empty())
    } else {
        match hex_pair_value(s[0], s[1]) {
            None => None,
            Some(v) => match unhex_bytes(s.skip(2)) {
                None => None,
                Some(rest) => Some(seq![v] + rest),
            },
        }
    }
}

/// Slicing a text at every even byte offset is allowed: the length is even and no even
/// offset falls inside a multi-byte character.
pub open spec fn even_offsets_are_boundaries(s: Seq<u8>) -> bool {
    &&& s.len() % 2 == 0
    &&& forall|i: int| 0 <= i < s.len() && i % 2 == 0 ==> !(0x80 <= #[trigger] s[i] < 0xC0)
}

/// Whether a text can be sliced at every even byte offset (see `unhex`).
pub fn even_offsets_exec(s: &str) -> (b: bool)
    ensures
        b == even_offsets_are_boundaries(s.spec_bytes()),
{
    let bytes = s.as_bytes();
    if bytes.len() % 2 != 0 {
        return false;
    }
    let mut i: usize = 0;
    while i < bytes.len()
        invariant
            bytes@ == s.spec_bytes(),
            bytes@.len() % 2 == 0,
            i % 2 == 0,
            i <= bytes@.len(),
            forall|k: int| 0 <= k < i && k % 2 == 0 ==> !(0x80 <= #[trigger] bytes@[k] < 0xC0),
        decreases bytes@.len() - i,
    {
        if 0x80 <= bytes[i] && bytes[i] < 0xC0 {
            return false;
        }
        i = i + 2;
    }
    true
}

fn hex_digit_of(c: u8) -> (r: Option<u8>)
    ensures
        r == hex_digit_value(c),
{
    if 48 <= c && c <= 57 {
        Some(c - 48)
    } else if 97 <= c && c <= 102 {
        Some(c - 87)
    } else if 65 <= c && c <= 70 {
        Some(c - 55)
    } else {
        None
    }
}

/// The bytes spelled by a hexadecimal text (`None` when a pair is not a hexadecimal number).
pub fn unhex(s: &str) -> (r: Option<Vec<u8>>)
    requires
        even_offsets_are_boundaries(s.spec_bytes()),
    ensures
        match unhex_bytes(s.spec_bytes()) {
            Some(b) => r matches Some(v) && v@ == b,
            None => r is None,
        },
{
    let bytes = s.as_bytes();
    let n = bytes.len();
    let mut out: Vec<u8> = Vec::new();
    let mut i: usize = 0;
    assert(bytes@.skip(0) == bytes@);
    while i + 1 < n
        invariant
            bytes@ == s.spec_bytes(),
            n == bytes@.len(),
            n % 2 == 0,
            i % 2 == 0,
            i <= n,
            match unhex_bytes(bytes@) {
                Some(all) => match unhex_bytes(bytes@.skip(i as int)) {
                    Some(rest) => all == out@ + rest,
                    None => false,
                },
                None => unhex_bytes(bytes@.skip(i as int)) is None,
            },
        decreases n - i,
    {
        let ghost t = bytes@.skip(i as int);
        assert(t[0] == bytes@[i as int] && t[1] == bytes@[i + 1]);
        assert(t.skip(2) == bytes@.skip(i + 2));
        let a = bytes[i];
        let b = bytes[i + 1];
        let v: u8 = if a == 43 {
            match hex_digit_of(b) {
                Some(y) => y,
                None => {
                    return None;
                },
            }
        } else {
            match (hex_digit_of(a), hex_digit_of(b)) {
                (Some(x), Some(y)) => x * 16 + y,
                _ => {
                    return None;
                },
            }
        };
        assert(hex_pair_value(a, b) == Some(v));
        proof {
            if let Some(all) = unhex_bytes(bytes@) {
                if let Some(rest) = unhex_bytes(bytes@.skip(i + 2)) {
                    assert(all == out@ + (seq![v] + rest));
                    assert(out@ + (seq![v] + rest) == out@.push(v) + rest);
                }
            }
        }
        out.push(v);
        i = i + 2;
    }
    assert(bytes@.skip(i as int).len() < 2);
    Some(out)
}

/// The base64 alphabet.
pub open spec fn base64_char(n: int) -> char {
    if n < 26 {
        (65 + n) as char
    } else if n < 52 {
        (71 + n) as char
    } else if n < 62 {
        (n - 4) as char
    } else if n == 62 {
        '+'
    } else {
        '/'
    }
}

/// Standard base64 with `=` padding.
pub open spec fn base64_text(d: Seq<u8>) -> Seq<char>
    decreases d.len(),
{
    if d.len() == 0 {
        Seq::empty()
    } else if d.len() == 1 {
        seq![base64_char(d[0] as int / 4), base64_char((d[0] as int % 4) * 16), '=', '=']
    } else if d.len() == 2 {
        seq![
            base64_char(d[0] as int / 4),
            base64_char((d[0] as int % 4) * 16 + d[1] as int / 16),
            base64_char((d[1] as int % 16) * 4),
            '=',
        ]
    } else {
        seq![
            base64_char(d[0] as int / 4),
            base64_char((d[0] as int % 4) * 16 + d[1] as int / 16),
            base64_char((d[1] as int % 16) * 4 + d[2] as int / 64),
            base64_char(d[2] as int % 64),
        ] + base64_text(d.skip(3))
    }
}

fn base64_char_of(n: u8) -> (c: char)
    requires
        n < 64,
    ensures
        c == base64_char(n as int),
{
    if n < 26 {
        (65u8 + n) as char
    } else if n < 52 {
        (71u8 + n) as char
    } else if n < 62 {
        (n - 4) as char
    } else if n == 62 {
        '+'
    } else {
        '/'
    }
}

/// Standard base64 text of `data`, with `=` padding.
pub fn base64_encode(data: &[u8]) -> (r: String)
    ensures
        r@ == base64_text(data@),
{
    let mut out = String::new();
    let n = data.len();
    let mut i: usize = 0;
    assert(data@.skip(0) == data@);
    while i < n
        invariant
            n == data@.len(),
            i <= n,
            out@ + base64_text(data@.skip(i as int)) == base64_text(data@),
        decreases n - i,
    {
        let ghost t = data@.skip(i as int);
        let rem = n - i;
        let b0 = data[i];
        assert(t[0] == b0);
        let ghost before = out@;
        push_char(&mut out, base64_char_of(b0 / 4));
        if rem == 1 {
            push_char(&mut out, base64_char_of((b0 % 4) * 16));
            push_char(&mut out, '=');
            push_char(&mut out, '=');
            assert(out@ == before + base64_text(t));
            i = n;
        } else {
            let b1 = data[i + 1];
            assert(t[1] == b1);
            push_char(&mut out, base64_char_of((b0 % 4) * 16 + b1 / 16));
            if rem == 2 {
                push_char(&mut out, base64_char_of((b1 % 16) * 4));
                push_char(&mut out, '=');
                assert(out@ == before + base64_text(t));
                i = n;
            } else {
                let b2 = data[i + 2];
                assert(t[2] == b2);
                push_char(&mut out, base64_char_of((b1 % 16) * 4 + b2 / 64));
                push_char(&mut out, base64_char_of(b2 % 64));
                assert(t.skip(3) == data@.skip(i + 3));
                i = i + 3;
            }
        }
    }
    assert(base64_text(data@.skip(n as int)) == Seq::<char>::empty());
    out
}

/// The hexadecimal text of bytes has two digits per byte: the high and the low half.
proof fn lemma_hex_text_digits(b: Seq<u8>)
    ensures
        hex_text(b).len() == 2 * b.len(),
        forall|i: int| 0 <= i < b.len() ==> hex_text(b)[2 * i] == hex_lower_digit(b[i] as int / 16)
            && hex_text(b)[2 * i + 1] == hex_lower_digit(b[i] as int % 16),
    decreases b.len(),
{
    if b.len() > 0 {
        lemma_hex_text_digits(b.drop_last());
        assert forall|i: int| 0 <= i < b.len() implies hex_text(b)[2 * i] == hex_lower_digit(
            b[i] as int / 16,
        ) && hex_text(b)[2 * i + 1] == hex_lower_digit(b[i] as int % 16) by {
            if i < b.len() - 1 {
                assert(b.drop_last()[i] == b[i]);
            }
        }
    }
}

proof fn lemma_unhex_digits(s: Seq<u8>, b: Seq<u8>)
    requires
        s.len() == 2 * b.len(),
        forall|i: int| 0 <= i < b.len() ==> s[2 * i] == hex_lower_digit(b[i] as int / 16) as u8
            && s[2 * i + 1] == hex_lower_digit(b[i] as int % 16) as u8,
    ensures
        unhex_bytes(s) == Some(b),
    decreases b.len(),
{
    if b.len() > 0 {
        let x = b[0];
        let hi = x as int / 16;
        let lo = x as int % 16;
        assert(s[0] == hex_lower_digit(hi) as u8);
        assert(s[1] == hex_lower_digit(lo) as u8);
        assert(hex_digit_value(s[0]) == Some(hi as u8));
        assert(hex_digit_value(s[1]) == Some(lo as u8));
        assert(hi * 16 + lo == x);
        assert forall|i: int| 0 <= i < b.skip(1).len() implies s.skip(2)[2 * i] == hex_lower_digit(
            b.skip(1)[i] as int / 16,
        ) as u8 && s.skip(2)[2 * i + 1] == hex_lower_digit(b.skip(1)[i] as int % 16) as u8 by {
            assert(s.skip(2)[2 * i] == s[2 * (i + 1)]);
            assert(s.skip(2)[2 * i + 1] == s[2 * (i + 1) + 1]);
            assert(b.skip(1)[i] == b[i + 1]);
        }
        lemma_unhex_digits(s.skip(2), b.skip(1));
        assert(seq![x] + b.skip(1) =~= b);
    } else {
        assert(b =~= Seq::<u8>::empty());
    }
}

/// The hexadecimal text of bytes is ASCII, so it can be cut at every even byte offset, and
/// it reads back as the bytes.
pub proof fn lemma_hex_round_trip(b: Seq<u8>)
    ensures
        hex_text(b).len() == 2 * b.len(),
        even_offsets_are_boundaries(vstd::utf8::encode_utf8(hex_text(b))),
        unhex_bytes(vstd::utf8::encode_utf8(hex_text(b))) == Some(b),
{
    let h = hex_text(b);
    lemma_hex_text_digits(b);
    assert(vstd::utf8::is_ascii_chars(h)) by {
        assert forall|k: int| 0 <= k < h.len() implies '\0' <= #[trigger] h[k] <= '\u{7f}' by {
            let i = k / 2;
            if k % 2 == 0 {
                assert(k == 2 * i);
                assert(h[k] == hex_lower_digit(b[i] as int / 16));
            } else {
                assert(k == 2 * i + 1);
                assert(h[k] == hex_lower_digit(b[i] as int % 16));
            }
        }
    }
    vstd::utf8::is_ascii_chars_encode_utf8(h);
    let e = vstd::utf8::encode_utf8(h);
    assert forall|k: int| 0 <= k < e.len() && k % 2 == 0 implies !(0x80 <= #[trigger] e[k] < 0xC0) by {
        assert(h[k] as u8 == e[k]);
        assert('\0' <= h[k] <= '\u{7f}');
    }
    assert forall|i: int| 0 <= i < b.len() implies e[2 * i] == hex_lower_digit(b[i] as int / 16) as u8
        && e[2 * i + 1] == hex_lower_digit(b[i] as int % 16) as u8 by {
        assert(h[2 * i] as u8 == e[2 * i]);
        assert(h[2 * i + 1] as u8 == e[2 * i + 1]);
    }
    lemma_unhex_digits(e, b);
}

} // verus!
