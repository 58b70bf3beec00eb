//! A minimal time-stamp token, `SEQUENCE { genTime GeneralizedTime, tsaName UTF8String,
//! sigOID OBJECT IDENTIFIER }`, made locally (no time-stamp authority is contacted).
use vstd::prelude::*;
use chrono::TimeZone;
use crate::der_tlv::{decode_der_tlv, der_tlv_at, der_tlv_bytes, der_tlv_overflows, encode_der_tlv};
use crate::numtext::{decimal_chars, parse_u32, parse_u32_spec, push_decimal};
use crate::ofd_error::{OfdError, OfdResult};
use crate::paths::last_dot;
use crate::text::{chars_of, hex_upper2, push_char, push_hex_upper2, push_str, substring_of};
use crate::utc_time::{valid_date_time, valid_fields, DateTimeFields, UtcDateTime};
use vstd::string::StringSliceAdditionalSpecFns;

verus! {

/// Tag of an ASN.1 SEQUENCE.
pub const TAG_SEQUENCE: u8 = 0x30;

/// Tag of an ASN.1 GeneralizedTime.
pub const TAG_GENERALIZED_TIME: u8 = 0x18;

/// Tag of an ASN.1 UTF8String.
pub const TAG_UTF8_STRING: u8 = 0x0C;

/// Tag of an ASN.1 OBJECT IDENTIFIER.
pub const TAG_OID: u8 = 0x06;

/// A time-stamp token.
#[derive(Debug, Clone)]
pub struct TimeStamp {
    /// When the token was made.
    pub gen_time: UtcDateTime,
    /// Name of the time-stamp authority.
    pub tsa_name: String,
    /// Signature algorithm identifier, dotted.
    pub signature_oid: String,
}

/// A token for `gen_time` and `tsa_name`, with the identifier `1.2.3.4.5`.
pub fn create_timestamp(gen_time: UtcDateTime, tsa_name: &str) -> (t: TimeStamp)
    ensures
        t.gen_time == gen_time,
        t.tsa_name@ == tsa_name@,
        t.signature_oid@ == "1.2.3.4.5"@,
{
    TimeStamp {
        gen_time,
        tsa_name: String::from_str(tsa_name),
        signature_oid: String::from_str("1.2.3.4.5"),
    }
}

// ---- GeneralizedTime ----
/// The ASCII byte of a decimal digit.
pub open spec fn digit_byte(d: int) -> u8 {
    (48 + d) as u8
}

/// Decimal digits of `n`, as bytes.
pub open spec fn dec_bytes(n: nat) -> Seq<u8>
    decreases n,
{
    if n < 10 {
        seq![digit_byte(n as int)]
    } else {
        dec_bytes(n / 10).push(digit_byte((n % 10) as int))
    }
}

/// `s` padded on the left with `0` bytes to at least `w` bytes.
pub open spec fn pad_zero_bytes(s: Seq<u8>, w: nat) -> Seq<u8> {
    if s.len() >= w {
        s
    } else {
        Seq::new((w - s.len()) as nat, |i: int| 48u8) + s
    }
}

/// Two decimal digits of `n` < 100.
pub open spec fn two_digits(n: int) -> Seq<u8> {
    seq![digit_byte(n / 10), digit_byte(n % 10)]
}

/// The year as `%Y` writes it: four digits for 0 to 9999, otherwise a sign and at least
/// four digits.
pub open spec fn year_bytes(y: int) -> Seq<u8> {
    if 0 <= y <= 9999 {
        pad_zero_bytes(dec_bytes(y as nat), 4)
    } else {
        seq![if y >= 0 { 43u8 } else { 45u8 }] + pad_zero_bytes(
            dec_bytes((if y >= 0 { y } else { -y }) as nat),
            4,
        )
    }
}

/// The text `%Y%m%d%H%M%SZ` for a date-time.
pub open spec fn generalized_time_bytes(f: DateTimeFields) -> Seq<u8> {
    year_bytes(f.0 as int) + two_digits(f.1 as int) + two_digits(f.2 as int) + two_digits(
        f.3 as int,
    ) + two_digits(f.4 as int) + two_digits(f.5 as int) + seq![90u8]
}

/// `DateTime::format("%Y%m%d%H%M%SZ")` of `chrono`, as bytes: year (four digits, or a sign
/// and at least four digits outside 0 to 9999), then month, day, hour, minute and second in
/// two digits each, and `Z`.
#[verifier::external_body]
fn generalized_time_text(dt: &UtcDateTime) -> (r: Vec<u8>)
    ensures
        r@ == generalized_time_bytes(dt@),
{
    let f = dt.fields();
    let t = chrono::Utc.with_ymd_and_hms(f.0, f.1, f.2, f.3, f.4, f.5).unwrap();
    t.format("%Y%m%d%H%M%SZ").to_string().into_bytes()
}

/// The characters of ASCII bytes.
pub open spec fn ascii_text(b: Seq<u8>) -> Seq<char> {
    b.map_values(|x: u8| x as char)
}

/// The current time of the system clock as GeneralizedTime text (`YYYYMMDDHHMMSSZ`). The
/// time itself is whatever the clock gives.
pub fn generalized_time_now() -> (r: String)
    ensures
        exists|f: DateTimeFields| valid_fields(f) && r@ == ascii_text(generalized_time_bytes(f)),
{
    let now = UtcDateTime::now();
    let f = now.fields();
    let b = generalized_time_text(&now);
    let mut s = String::new();
    let mut i: usize = 0;
    while i < b.len()
        invariant
            i <= b@.len(),
            s@ == ascii_text(b@.take(i as int)),
        decreases b@.len() - i,
    {
        push_char(&mut s, b[i] as char);
        assert(ascii_text(b@.take(i + 1)) =~= ascii_text(b@.take(i as int)).push(b@[i as int] as char));
        i = i + 1;
    }
    assert(b@.take(b@.len() as int) == b@);
    s
}

/// The text `%Y-%m-%dT%H:%M:%S` for a date-time.
pub open spec fn iso_seconds_text(f: DateTimeFields) -> Seq<char> {
    ascii_text(
        year_bytes(f.0 as int) + seq![45u8] + two_digits(f.1 as int) + seq![45u8] + two_digits(
            f.2 as int,
        ) + seq![84u8] + two_digits(f.3 as int) + seq![58u8] + two_digits(f.4 as int) + seq![58u8]
            + two_digits(f.5 as int),
    )
}

/// `DateTime::format("%Y-%m-%dT%H:%M:%S")` of `chrono`: year as for `%Y`, then month and day
/// after `-`, `T`, and hour, minute and second after `:`, two digits each.
#[verifier::external_body]
pub(crate) fn signature_time_text(dt: &UtcDateTime) -> (r: String)
    ensures
        r@ == iso_seconds_text(dt@),
{
    let f = dt.fields();
    let t = chrono::Utc.with_ymd_and_hms(f.0, f.1, f.2, f.3, f.4, f.5).unwrap();
    t.format("%Y-%m-%dT%H:%M:%S").to_string()
}

/// An ASCII decimal digit byte.
pub open spec fn is_digit_byte(b: u8) -> bool {
    48 <= b <= 57
}

/// The value of decimal digit bytes.
pub open spec fn digits_value(s: Seq<u8>) -> nat
    decreases s.len(),
{
    if s.len() == 0 {
        0
    } else {
        digits_value(s.drop_last()) * 10 + (s.last() - 48) as nat
    }
}

/// All bytes are decimal digits.
pub open spec fn all_digit_bytes(s: Seq<u8>) -> bool {
    forall|i: int| 0 <= i < s.len() ==> is_digit_byte(#[trigger] s[i])
}

/// `str::parse` of a short integer field (no overflow possible): an optional `+` (or `-`
/// when `signed`), then digits.
pub open spec fn parse_field(s: Seq<u8>, signed: bool) -> Option<int> {
    if s.len() == 0 {
        None
    } else if s.len() == 1 && (s[0] == 43 || s[0] == 45) {
        None
    } else if s[0] == 43 {
        if all_digit_bytes(s.skip(1)) { Some(digits_value(s.skip(1)) as int) } else { None }
    } else if s[0] == 45 && signed {
        if all_digit_bytes(s.skip(1)) { Some(-(digits_value(s.skip(1)) as int)) } else { None }
    } else {
        if all_digit_bytes(s) { Some(digits_value(s) as int) } else { None }
    }
}

/// A continuation byte of UTF-8.
pub open spec fn is_continuation(b: u8) -> bool {
    0x80 <= b < 0xC0
}

/// What a GeneralizedTime value decodes to, or the message of the first failing check.
#[verifier::opaque]
pub open spec fn gt_decode(b: Seq<u8>) -> Result<DateTimeFields, Seq<char>> {
    if !vstd::utf8::valid_utf8(b) {
        Err("GeneralizedTime: non-UTF-8"@)
    } else if b.len() < 15 || b.last() != 90 {
        Err("GeneralizedTime: unexpected format: "@ + vstd::utf8::decode_utf8(b))
    } else {
        match parse_field(b.subrange(0, 4), true) {
            None => Err("GeneralizedTime: bad year"@),
            Some(y) => match parse_field(b.subrange(4, 6), false) {
                None => Err("GeneralizedTime: bad month"@),
                Some(mo) => match parse_field(b.subrange(6, 8), false) {
                    None => Err("GeneralizedTime: bad day"@),
                    Some(d) => match parse_field(b.subrange(8, 10), false) {
                        None => Err("GeneralizedTime: bad hour"@),
                        Some(h) => match parse_field(b.subrange(10, 12), false) {
                            None => Err("GeneralizedTime: bad minute"@),
                            Some(mi) => match parse_field(b.subrange(12, 14), false) {
                                None => Err("GeneralizedTime: bad second"@),
                                Some(s) => if valid_date_time(y, mo, d, h, mi, s) {
                                    Ok((y as i32, mo as u32, d as u32, h as u32, mi as u32, s as u32))
                                } else {
                                    Err("GeneralizedTime: invalid date"@)
                                },
                            },
                        },
                    },
                },
            },
        }
    }
}

/// Decoding slices the text inside a multi-byte character (which panics): some field
/// boundary it reaches falls on a continuation byte.
#[verifier::opaque]
pub open spec fn gt_decode_panics(b: Seq<u8>) -> bool {
    &&& vstd::utf8::valid_utf8(b)
    &&& b.len() >= 15
    &&& b.last() == 90
    &&& {
        ||| is_continuation(b[4])
        ||| (parse_field(b.subrange(0, 4), true) is Some && {
            ||| is_continuation(b[6])
            ||| (parse_field(b.subrange(4, 6), false) is Some && {
                ||| is_continuation(b[8])
                ||| (parse_field(b.subrange(6, 8), false) is Some && {
                    ||| is_continuation(b[10])
                    ||| (parse_field(b.subrange(8, 10), false) is Some && {
                        ||| is_continuation(b[12])
                        ||| (parse_field(b.subrange(10, 12), false) is Some && is_continuation(
                            b[14],
                        ))
                    })
                })
            })
        })
    }
}

fn parse_field_exec(b: &[u8], start: usize, end: usize, signed: bool) -> (r: Option<i32>)
    requires
        start < end <= b@.len(),
        end - start <= 4,
    ensures
        match parse_field(b@.subrange(start as int, end as int), signed) {
            Some(v) => r matches Some(x) && x as int == v,
            None => r is None,
        },
        !signed ==> (r matches Some(v) ==> v >= 0),
{
    let ghost s = b@.subrange(start as int, end as int);
    let len = end - start;
    if len == 1 && (b[start] == 43 || b[start] == 45) {
        return None;
    }
    let mut neg = false;
    let mut i = start;
    if b[start] == 43 {
        i = start + 1;
    } else if b[start] == 45 && signed {
        neg = true;
        i = start + 1;
    }
    let ghost first = i;
    let ghost ds = b@.subrange(first as int, end as int);
    assert(s[0] == b@[start as int]);
    assert(i == start ==> ds == s);
    assert(i == start + 1 ==> ds == s.skip(1));
    assert(parse_field(s, signed) == if all_digit_bytes(ds) {
        Some(if neg { -(digits_value(ds) as int) } else { digits_value(ds) as int })
    } else {
        None::<int>
    });
    let mut v: i32 = 0;
    while i < end
        invariant
            first <= i <= end <= b@.len(),
            end - first <= 4,
            ds == b@.subrange(first as int, end as int),
            s == b@.subrange(start as int, end as int),
            parse_field(s, signed) == if all_digit_bytes(ds) {
                Some(if neg { -(digits_value(ds) as int) } else { digits_value(ds) as int })
            } else {
                None::<int>
            },
            all_digit_bytes(b@.subrange(first as int, i as int)),
            v as int == digits_value(b@.subrange(first as int, i as int)),
            0 <= v,
            v as int <= pow10_minus1(i - first),
        decreases end - i,
    {
        let c = b[i];
        if !(48 <= c && c <= 57) {
            assert(ds[i - first] == c);
            assert(!is_digit_byte(ds[i - first]));
            return None;
        }
        assert(b@.subrange(first as int, i + 1).drop_last() == b@.subrange(first as int, i as int));
        v = v * 10 + (c - 48) as i32;
        i = i + 1;
    }
    assert(b@.subrange(first as int, end as int) == ds);
    if neg {
        Some(-v)
    } else {
        Some(v)
    }
}

/// `10^k - 1` for small `k`.
pub open spec fn pow10_minus1(k: int) -> int {
    if k <= 0 {
        0
    } else if k == 1 {
        9
    } else if k == 2 {
        99
    } else if k == 3 {
        999
    } else {
        9999
    }
}

/// Decodes a GeneralizedTime value (`YYYYMMDDHHMMSSZ`).
pub fn decode_generalized_time(bytes: &[u8]) -> (r: OfdResult<UtcDateTime>)
    requires
        !gt_decode_panics(bytes@),
    ensures
        match gt_decode(bytes@) {
            Ok(f) => r matches Ok(t) && t@ == f,
            Err(m) => r matches Err(OfdError::Conversion(e)) && e@ == m,
        },
{
    proof {
        reveal(gt_decode);
        reveal(gt_decode_panics);
    }
    let s = match crate::text::utf8_decode(bytes) {
        Some(s) => s,
        None => return Err(OfdError::Conversion(String::from_str("GeneralizedTime: non-UTF-8"))),
    };
    let n = bytes.len();
    if n < 15 || bytes[n - 1] != 90 {
        let mut m = String::from_str("GeneralizedTime: unexpected format: ");
        push_str(&mut m, s.as_str());
        return Err(OfdError::Conversion(m));
    }
    let year = match parse_field_exec(bytes, 0, 4, true) {
        Some(v) => v,
        None => return Err(OfdError::Conversion(String::from_str("GeneralizedTime: bad year"))),
    };
    let month = match parse_field_exec(bytes, 4, 6, false) {
        Some(v) => v,
        None => return Err(OfdError::Conversion(String::from_str("GeneralizedTime: bad month"))),
    };
    let day = match parse_field_exec(bytes, 6, 8, false) {
        Some(v) => v,
        None => return Err(OfdError::Conversion(String::from_str("GeneralizedTime: bad day"))),
    };
    let hour = match parse_field_exec(bytes, 8, 10, false) {
        Some(v) => v,
        None => return Err(OfdError::Conversion(String::from_str("GeneralizedTime: bad hour"))),
    };
    let minute = match parse_field_exec(bytes, 10, 12, false) {
        Some(v) => v,
        None => return Err(OfdError::Conversion(String::from_str("GeneralizedTime: bad minute"))),
    };
    let second = match parse_field_exec(bytes, 12, 14, false) {
        Some(v) => v,
        None => return Err(OfdError::Conversion(String::from_str("GeneralizedTime: bad second"))),
    };
    match UtcDateTime::from_ymd_hms(year, month as u32, day as u32, hour as u32, minute as u32, second as u32) {
        Some(t) => Ok(t),
        None => Err(OfdError::Conversion(String::from_str("GeneralizedTime: invalid date"))),
    }
}

// ---- OBJECT IDENTIFIER ----
/// One base-128 arc read from the front of `s` onto `val` (kept to 32 bits): its value and
/// the bytes it takes; `None` when the bytes end inside it.
pub open spec fn read_arc(s: Seq<u8>, val: nat) -> Option<(nat, nat)>
    decreases s.len(),
{
    if s.len() == 0 {
        None
    } else {
        let v2 = (val * 128 + (s[0] as nat % 128)) % 0x1_0000_0000;
        if s[0] < 128 {
            Some((v2, 1))
        } else {
            match read_arc(s.skip(1), v2) {
                None => None,
                Some((v, n)) => Some((v, n + 1)),
            }
        }
    }
}

/// An arc read takes at least one byte and at most all of them.
pub proof fn lemma_read_arc_len(s: Seq<u8>, val: nat)
    ensures
        read_arc(s, val) matches Some((v, n)) ==> 1 <= n <= s.len() && v < 0x1_0000_0000,
    decreases s.len(),
{
    if s.len() > 0 && s[0] >= 128 {
        lemma_read_arc_len(s.skip(1), (val * 128 + (s[0] as nat % 128)) % 0x1_0000_0000);
    }
}

/// All base-128 arcs of `s`, or `None` when the last one is cut off.
pub open spec fn read_arcs(s: Seq<u8>) -> Option<Seq<nat>>
    decreases s.len(),
{
    if s.len() == 0 {
        Some(Seq::empty())
    } else {
        proof {
            lemma_read_arc_len(s, 0);
        }
        match read_arc(s, 0) {
            None => None,
            Some((v, n)) => match read_arcs(s.skip(n as int)) {
                None => None,
                Some(rest) => Some(seq![v] + rest),
            },
        }
    }
}

/// Numbers in decimal, joined with dots.
pub open spec fn join_dots(nums: Seq<nat>) -> Seq<char>
    decreases nums.len(),
{
    if nums.len() == 0 {
        Seq::empty()
    } else if nums.len() == 1 {
        decimal_chars(nums[0])
    } else {
        join_dots(nums.drop_last()) + seq!['.'] + decimal_chars(nums.last())
    }
}

/// The dotted text of an OID value: the first byte gives two arcs (its quotient and
/// remainder by 40), the rest base-128 arcs.
pub open spec fn oid_decode(b: Seq<u8>) -> Result<Seq<char>, Seq<char>> {
    if b.len() == 0 {
        Err("OID: empty value"@)
    } else {
        match read_arcs(b.skip(1)) {
            None => Err("OID: truncated base-128"@),
            Some(arcs) => Ok(join_dots(seq![b[0] as nat / 40, b[0] as nat % 40] + arcs)),
        }
    }
}

proof fn lemma_shift7(v: u32, b: u8)
    ensures
        ((v << 7u32) | ((b & 0x7F) as u32)) as nat == (v as nat * 128 + (b as nat % 128)) % 0x1_0000_0000,
{
    assert(((v << 7u32) | ((b & 0x7F) as u32)) == ((v * 128 + (b % 128)) % 0x1_0000_0000) as u32)
        by (bit_vector);
}

fn push_dotted(out: &mut String, n: u32, first: bool)
    ensures
        final(out)@ == old(out)@ + (if first { Seq::empty() } else { seq!['.'] }) + decimal_chars(n as nat),
{
    if !first {
        push_char(out, '.');
    }
    push_decimal(out, n);
}

/// Decodes an OID value to its dotted text.
pub fn decode_oid_value(bytes: &[u8]) -> (r: OfdResult<String>)
    ensures
        match oid_decode(bytes@) {
            Ok(t) => r matches Ok(s) && s@ == t,
            Err(m) => r matches Err(OfdError::Conversion(e)) && e@ == m,
        },
{
    let n = bytes.len();
    if n == 0 {
        return Err(OfdError::Conversion(String::from_str("OID: empty value")));
    }
    let first = bytes[0];
    let ghost head = seq![first as nat / 40, first as nat % 40];
    let mut out = String::new();
    push_dotted(&mut out, (first / 40) as u32, true);
    push_dotted(&mut out, (first % 40) as u32, false);
    proof {
        assert(head.drop_last() == seq![first as nat / 40]);
        reveal_with_fuel(join_dots, 2);
    }
    let mut i: usize = 1;
    let ghost mut done: Seq<nat> = Seq::empty();
    assert(bytes@.skip(1) == bytes@.skip(1).skip(0));
    assert(head + done == head);
    while i < n
        invariant
            1 <= i <= n == bytes@.len(),
            head == seq![first as nat / 40, first as nat % 40],
            first == bytes@[0],
            out@ == join_dots(head + done),
            read_arcs(bytes@.skip(1)) == match read_arcs(bytes@.skip(i as int)) {
                None => None::<Seq<nat>>,
                Some(rest) => Some(done + rest),
            },
        decreases n - i,
    {
        let ghost start = i;
        let ghost t = bytes@.skip(i as int);
        proof {
            lemma_read_arc_len(t, 0);
        }
        let mut val: u32 = 0;
        let mut finished = false;
        while !finished
            invariant
                start <= i <= n == bytes@.len(),
                start < n,
                t == bytes@.skip(start as int),
                read_arcs(bytes@.skip(1)) == match read_arcs(t) {
                    None => None::<Seq<nat>>,
                    Some(rest) => Some(done + rest),
                },
                !finished ==> read_arc(t, 0) == match read_arc(bytes@.skip(i as int), val as nat) {
                    None => None::<(nat, nat)>,
                    Some((v, k)) => Some((v, (k + (i - start)) as nat)),
                },
                finished ==> read_arc(t, 0) == Some((val as nat, (i - start) as nat)),
            decreases n - i,
        {
            if i >= n {
                assert(bytes@.skip(i as int).len() == 0);
                assert(read_arc(t, 0) is None);
                assert(read_arcs(t) is None);
                return Err(OfdError::Conversion(String::from_str("OID: truncated base-128")));
            }
            let b = bytes[i];
            let ghost u = bytes@.skip(i as int);
            assert(u[0] == b);
            assert(u.skip(1) == bytes@.skip(i + 1));
            proof {
                lemma_shift7(val, b);
            }
            val = (val << 7) | ((b & 0x7F) as u32);
            i = i + 1;
            assert(b & 0x80 == 0 <==> b < 128) by (bit_vector);
            if b & 0x80 == 0 {
                finished = true;
            }
        }
        proof {
            let k = (i - start) as nat;
            assert(t.skip(k as int) == bytes@.skip(i as int));
            assert(read_arcs(t) == match read_arcs(bytes@.skip(i as int)) {
                None => None::<Seq<nat>>,
                Some(rest) => Some(seq![val as nat] + rest),
            });
            assert(head + done.push(val as nat) == (head + done).push(val as nat));
            assert((head + done).push(val as nat).drop_last() == head + done);
            assert forall|rest: Seq<nat>| #![auto] done + (seq![val as nat] + rest) == done.push(val as nat) + rest by {
                assert(done + (seq![val as nat] + rest) =~= done.push(val as nat) + rest);
            }
        }
        push_dotted(&mut out, val, false);
        proof {
            done = done.push(val as nat);
            assert(done == done.drop_last().push(val as nat));
        }
    }
    assert(bytes@.skip(n as int).len() == 0);
    assert(done + Seq::<nat>::empty() == done);
    Ok(out)
}

/// The dot-separated pieces of `s` (one piece when there is no dot).
pub open spec fn split_dots(s: Seq<char>) -> Seq<Seq<char>>
    decreases s.len(),
{
    proof {
        crate::paths::lemma_last_dot_bounds(s);
    }
    let d = last_dot(s);
    if d < 0 {
        seq![s]
    } else {
        split_dots(s.subrange(0, d)).push(s.subrange(d + 1, s.len() as int))
    }
}

/// The arc a piece gives: its number, or 0 when it is not one.
pub open spec fn arc_of(t: Seq<char>) -> u32 {
    match parse_u32_spec(t) {
        Ok(v) => v,
        Err(_) => 0,
    }
}

/// The arcs of a dotted text.
pub open spec fn arcs_of(s: Seq<char>) -> Seq<u32> {
    split_dots(s).map_values(|t: Seq<char>| arc_of(t))
}

/// Base-128 bytes of one arc, as written for arcs below 2^28 (the top byte keeps only its
/// low eight bits above that).
pub open spec fn encode_arc(c: u32) -> Seq<u8> {
    if c < 0x80 {
        seq![c as u8]
    } else if c < 0x4000 {
        seq![(0x80u32 | (c >> 7u32)) as u8, (c & 0x7Fu32) as u8]
    } else if c < 0x20_0000 {
        seq![(0x80u32 | (c >> 14u32)) as u8, (0x80u32 | ((c >> 7u32) & 0x7Fu32)) as u8, (c & 0x7Fu32) as u8]
    } else {
        seq![
            (0x80u32 | (c >> 21u32)) as u8,
            (0x80u32 | ((c >> 14u32) & 0x7Fu32)) as u8,
            (0x80u32 | ((c >> 7u32) & 0x7Fu32)) as u8,
            (c & 0x7Fu32) as u8,
        ]
    }
}

/// The bytes of consecutive arcs.
pub open spec fn encode_arcs(cs: Seq<u32>) -> Seq<u8>
    decreases cs.len(),
{
    if cs.len() == 0 {
        Seq::empty()
    } else {
        encode_arcs(cs.drop_last()) + encode_arc(cs.last())
    }
}

/// The OID value written for a dotted text: `40 * first + second` (low eight bits), then the
/// other arcs in base 128; two zero bytes when there are fewer than two arcs.
pub open spec fn oid_value_bytes(s: Seq<char>) -> Seq<u8> {
    let a = arcs_of(s);
    if a.len() < 2 {
        seq![0u8, 0u8]
    } else {
        seq![((a[0] * 40 + a[1]) % 256) as u8] + encode_arcs(a.skip(2))
    }
}

/// Encoding panics: `40 * first + second` does not fit in 32 bits.
pub open spec fn oid_encode_overflows(s: Seq<char>) -> bool {
    arcs_of(s).len() >= 2 && arcs_of(s)[0] * 40 + arcs_of(s)[1] > u32::MAX
}

proof fn lemma_split_push(s: Seq<char>, c: char)
    ensures
        split_dots(s.push(c)) == if c == '.' {
            split_dots(s).push(Seq::empty())
        } else {
            split_dots(s).drop_last().push(split_dots(s).last().push(c))
        },
        split_dots(s).len() >= 1,
    decreases s.len(),
{
    let p = s.push(c);
    crate::paths::lemma_last_dot_bounds(s);
    crate::paths::lemma_last_dot_bounds(p);
    assert(p.drop_last() == s);
    assert(p.subrange(0, s.len() as int) == s);
    let d = last_dot(s);
    if d >= 0 {
        lemma_split_len(s.subrange(0, d));
    }
    if c != '.' {
        assert(last_dot(p) == d);
        if d >= 0 {
            assert(p.subrange(0, d) == s.subrange(0, d));
            assert(p.subrange(d + 1, p.len() as int) == s.subrange(d + 1, s.len() as int).push(c));
        }
    } else {
        assert(p.subrange(s.len() as int + 1, p.len() as int) == Seq::<char>::empty());
    }
}

proof fn lemma_split_len(s: Seq<char>)
    ensures
        split_dots(s).len() >= 1,
    decreases s.len(),
{
    crate::paths::lemma_last_dot_bounds(s);
    let d = last_dot(s);
    if d >= 0 {
        lemma_split_len(s.subrange(0, d));
    }
}

fn encode_arc_exec(c: u32, out: &mut Vec<u8>)
    ensures
        final(out)@ == old(out)@ + encode_arc(c),
{
    if c < 0x80 {
        out.push(c as u8);
    } else if c < 0x4000 {
        out.push((0x80 | (c >> 7)) as u8);
        out.push((c & 0x7F) as u8);
    } else if c < 0x20_0000 {
        out.push((0x80 | (c >> 14)) as u8);
        out.push((0x80 | ((c >> 7) & 0x7F)) as u8);
        out.push((c & 0x7F) as u8);
    } else {
        out.push((0x80 | (c >> 21)) as u8);
        out.push((0x80 | ((c >> 14) & 0x7F)) as u8);
        out.push((0x80 | ((c >> 7) & 0x7F)) as u8);
        out.push((c & 0x7F) as u8);
    }
}

fn arc_of_exec(cs: &Vec<char>) -> (r: u32)
    ensures
        r == arc_of(cs@),
{
    assert(cs@.skip(0) == cs@);
    match crate::numtext::parse_u32_from(cs.as_slice(), 0) {
        Ok(v) => v,
        Err(_) => 0,
    }
}

/// The arcs of a dotted text (a piece that is not a number counts as 0).
pub fn oid_arcs(oid_str: &str) -> (r: Vec<u32>)
    ensures
        r@ == arcs_of(oid_str@),
{
    let cs = chars_of(oid_str);
    let mut arcs: Vec<u32> = Vec::new();
    let mut cur: Vec<char> = Vec::new();
    let ghost mut pieces: Seq<Seq<char>> = Seq::empty();
    let mut i: usize = 0;
    assert(split_dots(cs@.take(0)) == seq![Seq::<char>::empty()]) by {
        assert(cs@.take(0) =~= Seq::<char>::empty());
        assert(last_dot(Seq::<char>::empty()) == -1);
        assert(Seq::<char>::empty().subrange(0, 0) =~= Seq::<char>::empty());
    }
    assert(pieces.push(cur@) == seq![Seq::<char>::empty()]);
    while i < cs.len()
        invariant
            i <= cs@.len(),
            split_dots(cs@.take(i as int)) == pieces.push(cur@),
            arcs@ == pieces.map_values(|t: Seq<char>| arc_of(t)),
        decreases cs@.len() - i,
    {
        let c = cs[i];
        proof {
            lemma_split_push(cs@.take(i as int), c);
            assert(cs@.take(i + 1) == cs@.take(i as int).push(c));
        }
        if c == '.' {
            let a = arc_of_exec(&cur);
            arcs.push(a);
            proof {
                pieces = pieces.push(cur@);
            }
            cur = Vec::new();
            assert(cur@ == Seq::<char>::empty());
        } else {
            cur.push(c);
            assert(pieces.push(cur@.drop_last()).drop_last() == pieces);
        }
        i = i + 1;
    }
    assert(cs@.take(cs@.len() as int) == cs@);
    let last = arc_of_exec(&cur);
    arcs.push(last);
    assert(arcs@ == pieces.push(cur@).map_values(|t: Seq<char>| arc_of(t)));
    arcs
}

/// Whether a dotted OID text can be encoded: `40 * first + second` fits in 32 bits.
pub fn oid_fits(oid_str: &str) -> (b: bool)
    ensures
        b == !oid_encode_overflows(oid_str@),
{
    let arcs = oid_arcs(oid_str);
    arcs.len() < 2 || (arcs[0] as u64) * 40 + (arcs[1] as u64) <= 0xFFFF_FFFF
}

/// Encodes a dotted OID text as an OID value (no tag or length).
pub fn encode_oid_value(oid_str: &str) -> (r: Vec<u8>)
    requires
        !oid_encode_overflows(oid_str@),
    ensures
        r@ == oid_value_bytes(oid_str@),
{
    let arcs = oid_arcs(oid_str);
    let mut value: Vec<u8> = Vec::new();
    if arcs.len() < 2 {
        value.push(0);
        value.push(0);
        return value;
    }
    let lead = arcs[0] * 40 + arcs[1];
    value.push((lead % 256) as u8);
    let mut i: usize = 2;
    assert(arcs@.skip(2).take(0) == Seq::<u32>::empty());
    while i < arcs.len()
        invariant
            2 <= i <= arcs@.len(),
            value@ == seq![((arcs@[0] * 40 + arcs@[1]) % 256) as u8] + encode_arcs(arcs@.skip(2).take(i - 2)),
        decreases arcs@.len() - i,
    {
        assert(arcs@.skip(2).take(i + 1 - 2).drop_last() == arcs@.skip(2).take(i - 2));
        assert(arcs@.skip(2).take(i + 1 - 2).last() == arcs@[i as int]);
        encode_arc_exec(arcs[i], &mut value);
        i = i + 1;
    }
    assert(arcs@.skip(2).take(arcs@.len() - 2) == arcs@.skip(2));
    value
}

/// The token written for a time, an authority name and an OID text.
pub open spec fn timestamp_der_bytes(t: DateTimeFields, name: Seq<char>, oid: Seq<char>) -> Seq<u8> {
    der_tlv_bytes(
        TAG_SEQUENCE,
        der_tlv_bytes(TAG_GENERALIZED_TIME, generalized_time_bytes(t)) + der_tlv_bytes(
            TAG_UTF8_STRING,
            vstd::utf8::encode_utf8(name),
        ) + der_tlv_bytes(TAG_OID, oid_value_bytes(oid)),
    )
}

/// Encodes a token.
pub fn encode_der(ts: &TimeStamp) -> (r: OfdResult<Vec<u8>>)
    requires
        !oid_encode_overflows(ts.signature_oid@),
    ensures
        r matches Ok(b) && b@ == timestamp_der_bytes(ts.gen_time@, ts.tsa_name@, ts.signature_oid@),
{
    let mut inner: Vec<u8> = Vec::new();
    let gt = generalized_time_text(&ts.gen_time);
    encode_der_tlv(TAG_GENERALIZED_TIME, gt.as_slice(), &mut inner);
    encode_der_tlv(TAG_UTF8_STRING, ts.tsa_name.as_str().as_bytes(), &mut inner);
    let oid = encode_oid_value(ts.signature_oid.as_str());
    encode_der_tlv(TAG_OID, oid.as_slice(), &mut inner);
    let mut out: Vec<u8> = Vec::new();
    encode_der_tlv(TAG_SEQUENCE, inner.as_slice(), &mut out);
    Ok(out)
}

/// The OID part of a token body from `pos` on, after the time and the name.
pub open spec fn decode_oid_part(body: Seq<u8>, pos: int, f: DateTimeFields, name: Seq<char>) -> Result<(DateTimeFields, Seq<char>, Seq<char>), Seq<char>> {
    match der_tlv_at(body, pos) {
        Err(m) => Err(m),
        Ok((t3, ob, _)) => if t3 != TAG_OID {
            Err("TimeStamp: expected OID for sigOID"@)
        } else {
            match oid_decode(ob) {
                Err(m) => Err(m),
                Ok(o) => Ok((f, name, o)),
            }
        },
    }
}

/// The name and OID parts of a token body from `pos` on, after the time.
pub open spec fn decode_name_part(body: Seq<u8>, pos: int, f: DateTimeFields) -> Result<(DateTimeFields, Seq<char>, Seq<char>), Seq<char>> {
    match der_tlv_at(body, pos) {
        Err(m) => Err(m),
        Ok((t2, nb, n2)) => if t2 != TAG_UTF8_STRING {
            Err("TimeStamp: expected UTF8String for tsaName"@)
        } else if !vstd::utf8::valid_utf8(nb) {
            Err("TimeStamp: tsaName not UTF-8: "@ + crate::text::utf8_error_text(nb))
        } else {
            decode_oid_part(body, n2, f, vstd::utf8::decode_utf8(nb))
        },
    }
}

/// The contents of a token's SEQUENCE.
pub open spec fn decode_body(body: Seq<u8>) -> Result<(DateTimeFields, Seq<char>, Seq<char>), Seq<char>> {
    match der_tlv_at(body, 0) {
        Err(m) => Err(m),
        Ok((t1, tb, n1)) => if t1 != TAG_GENERALIZED_TIME {
            Err("TimeStamp: expected GeneralizedTime"@)
        } else {
            match gt_decode(tb) {
                Err(m) => Err(m),
                Ok(f) => decode_name_part(body, n1, f),
            }
        },
    }
}

/// What a token decodes to: time, authority name and OID text, or the message of the first
/// failing check.
pub open spec fn timestamp_decode(der: Seq<u8>) -> Result<(DateTimeFields, Seq<char>, Seq<char>), Seq<char>> {
    match der_tlv_at(der, 0) {
        Err(m) => Err(m),
        Ok((tag, body, _)) => if tag != TAG_SEQUENCE {
            Err("TimeStamp: expected SEQUENCE (0x30), got 0x"@ + hex_upper2(tag))
        } else {
            decode_body(body)
        },
    }
}

/// Reading the body's name and OID from `pos` on would overflow.
pub open spec fn name_part_panics(body: Seq<u8>, pos: int) -> bool {
    ||| der_tlv_overflows(body, pos)
    ||| match der_tlv_at(body, pos) {
        Ok((t2, nb, n2)) => t2 == TAG_UTF8_STRING && vstd::utf8::valid_utf8(nb) && der_tlv_overflows(body, n2),
        Err(_) => false,
    }
}

/// Reading the body would panic at some step it reaches.
pub open spec fn body_panics(body: Seq<u8>) -> bool {
    ||| der_tlv_overflows(body, 0)
    ||| match der_tlv_at(body, 0) {
        Ok((t1, tb, n1)) => t1 == TAG_GENERALIZED_TIME && {
            ||| gt_decode_panics(tb)
            ||| (gt_decode(tb) is Ok && name_part_panics(body, n1))
        },
        Err(_) => false,
    }
}

/// Decoding panics at some step it reaches: a TLV end past `usize::MAX`, or a time field cut
/// inside a multi-byte character.
pub open spec fn timestamp_decode_panics(der: Seq<u8>) -> bool {
    ||| der_tlv_overflows(der, 0)
    ||| match der_tlv_at(der, 0) {
        Ok((tag, body, _)) => tag == TAG_SEQUENCE && body_panics(body),
        Err(_) => false,
    }
}

/// Decodes a token.
pub fn decode_der(bytes: &[u8]) -> (r: OfdResult<TimeStamp>)
    requires
        !timestamp_decode_panics(bytes@),
    ensures
        match timestamp_decode(bytes@) {
            Ok((t, name, oid)) => r matches Ok(ts) && ts.gen_time@ == t && ts.tsa_name@ == name
                && ts.signature_oid@ == oid,
            Err(m) => r matches Err(OfdError::Conversion(e)) && e@ == m,
        },
{
    let (tag, body, _) = match decode_der_tlv(bytes, 0) {
        Ok(v) => v,
        Err(e) => return Err(e),
    };
    if tag != TAG_SEQUENCE {
        let mut m = String::from_str("TimeStamp: expected SEQUENCE (0x30), got 0x");
        push_hex_upper2(&mut m, tag);
        return Err(OfdError::Conversion(m));
    }
    let (t1, time_bytes, n1) = match decode_der_tlv(body.as_slice(), 0) {
        Ok(v) => v,
        Err(e) => return Err(e),
    };
    if t1 != TAG_GENERALIZED_TIME {
        return Err(OfdError::Conversion(String::from_str("TimeStamp: expected GeneralizedTime")));
    }
    let gen_time = match decode_generalized_time(time_bytes.as_slice()) {
        Ok(t) => t,
        Err(e) => return Err(e),
    };
    let (t2, name_bytes, n2) = match decode_der_tlv(body.as_slice(), n1) {
        Ok(v) => v,
        Err(e) => return Err(e),
    };
    if t2 != TAG_UTF8_STRING {
        return Err(OfdError::Conversion(String::from_str("TimeStamp: expected UTF8String for tsaName")));
    }
    let tsa_name = match crate::text::string_from_utf8(name_bytes) {
        Ok(s) => s,
        Err(detail) => {
            let mut m = String::from_str("TimeStamp: tsaName not UTF-8: ");
            push_str(&mut m, detail.as_str());
            return Err(OfdError::Conversion(m));
        },
    };
    let (t3, oid_bytes, _) = match decode_der_tlv(body.as_slice(), n2) {
        Ok(v) => v,
        Err(e) => return Err(e),
    };
    if t3 != TAG_OID {
        return Err(OfdError::Conversion(String::from_str("TimeStamp: expected OID for sigOID")));
    }
    let signature_oid = match decode_oid_value(oid_bytes.as_slice()) {
        Ok(o) => o,
        Err(e) => return Err(e),
    };
    Ok(TimeStamp { gen_time, tsa_name, signature_oid })
}

proof fn lemma_four_digits(y: int)
    requires
        0 <= y <= 9999,
    ensures
        year_bytes(y) == seq![
            digit_byte(y / 1000),
            digit_byte((y / 100) % 10),
            digit_byte((y / 10) % 10),
            digit_byte(y % 10),
        ],
{
    let n = y as nat;
    if n < 10 {
        assert(dec_bytes(n) == seq![digit_byte(y)]);
    } else if n < 100 {
        assert(dec_bytes(n / 10) == seq![digit_byte(y / 10)]);
        assert(dec_bytes(n) == seq![digit_byte(y / 10), digit_byte(y % 10)]);
    } else if n < 1000 {
        assert(dec_bytes(n / 100) == seq![digit_byte(y / 100)]);
        assert((n / 10) / 10 == n / 100);
        assert(dec_bytes(n / 10) == seq![digit_byte(y / 100), digit_byte((y / 10) % 10)]);
        assert(dec_bytes(n) == seq![digit_byte(y / 100), digit_byte((y / 10) % 10), digit_byte(y % 10)]);
    } else {
        assert((n / 10) / 10 == n / 100);
        assert((n / 100) / 10 == n / 1000);
        assert(dec_bytes(n / 1000) == seq![digit_byte(y / 1000)]);
        assert(dec_bytes(n / 100) == seq![digit_byte(y / 1000), digit_byte((y / 100) % 10)]);
        assert(dec_bytes(n / 10) == seq![
            digit_byte(y / 1000),
            digit_byte((y / 100) % 10),
            digit_byte((y / 10) % 10),
        ]);
    }
    assert(year_bytes(y) =~= seq![
        digit_byte(y / 1000),
        digit_byte((y / 100) % 10),
        digit_byte((y / 10) % 10),
        digit_byte(y % 10),
    ]);
}

proof fn lemma_digit_byte(k: int)
    requires
        0 <= k < 10,
    ensures
        digit_byte(k) as int == 48 + k,
        is_digit_byte(digit_byte(k)),
        vstd::utf8::is_leading_byte_width_1(digit_byte(k)),
        !is_continuation(digit_byte(k)),
{
}

proof fn lemma_parse_digits2(n: int)
    requires
        0 <= n < 100,
    ensures
        parse_field(two_digits(n), false) == Some(n),
        parse_field(two_digits(n), true) == Some(n),
{
    let s = two_digits(n);
    lemma_digit_byte(n / 10);
    lemma_digit_byte(n % 10);
    let s1 = seq![digit_byte(n / 10)];
    assert(s.drop_last() == s1);
    assert(s1.drop_last() == Seq::<u8>::empty());
    assert(all_digit_bytes(s));
    assert(digits_value(s1) == digits_value(s1.drop_last()) * 10 + (s1.last() - 48) as nat);
    assert(digits_value(s1) == n / 10);
    assert(digits_value(s) == digits_value(s.drop_last()) * 10 + (s.last() - 48) as nat);
}

proof fn lemma_parse_year(y: int)
    requires
        0 <= y <= 9999,
    ensures
        parse_field(year_bytes(y), true) == Some(y),
{
    lemma_four_digits(y);
    lemma_digit_byte(y / 1000);
    lemma_digit_byte((y / 100) % 10);
    lemma_digit_byte((y / 10) % 10);
    lemma_digit_byte(y % 10);
    let s = year_bytes(y);
    let s3 = s.drop_last();
    let s2 = s3.drop_last();
    let s1 = s2.drop_last();
    assert(s1 == seq![digit_byte(y / 1000)]);
    assert(s1.drop_last() == Seq::<u8>::empty());
    assert(all_digit_bytes(s));
    assert(digits_value(s1) == digits_value(s1.drop_last()) * 10 + (s1.last() - 48) as nat);
    assert(digits_value(s2) == digits_value(s1) * 10 + (s2.last() - 48) as nat);
    assert(digits_value(s3) == digits_value(s2) * 10 + (s3.last() - 48) as nat);
    assert(digits_value(s) == digits_value(s3) * 10 + (s.last() - 48) as nat);
    assert(((y / 1000) * 10 + (y / 100) % 10) * 10 + (y / 10) % 10 == y / 10) by (nonlinear_arith)
        requires
            0 <= y <= 9999,
    ;
    assert((y / 10) * 10 + y % 10 == y);
}

proof fn lemma_gt_shape(f: DateTimeFields)
    requires
        crate::utc_time::valid_fields(f),
        0 <= f.0 <= 9999,
    ensures
        ({
            let b = generalized_time_bytes(f);
            &&& b.len() == 15
            &&& b.subrange(0, 4) == year_bytes(f.0 as int)
            &&& b.subrange(4, 6) == two_digits(f.1 as int)
            &&& b.subrange(6, 8) == two_digits(f.2 as int)
            &&& b.subrange(8, 10) == two_digits(f.3 as int)
            &&& b.subrange(10, 12) == two_digits(f.4 as int)
            &&& b.subrange(12, 14) == two_digits(f.5 as int)
            &&& b.last() == 90
            &&& forall|i: int| 0 <= i < 15 ==> #[trigger] vstd::utf8::is_leading_byte_width_1(b[i])
        }),
{
    let y = f.0 as int;
    lemma_four_digits(y);
    lemma_digit_byte(y / 1000);
    lemma_digit_byte((y / 100) % 10);
    lemma_digit_byte((y / 10) % 10);
    lemma_digit_byte(y % 10);
    lemma_digit_byte(f.1 as int / 10);
    lemma_digit_byte(f.1 as int % 10);
    lemma_digit_byte(f.2 as int / 10);
    lemma_digit_byte(f.2 as int % 10);
    lemma_digit_byte(f.3 as int / 10);
    lemma_digit_byte(f.3 as int % 10);
    lemma_digit_byte(f.4 as int / 10);
    lemma_digit_byte(f.4 as int % 10);
    lemma_digit_byte(f.5 as int / 10);
    lemma_digit_byte(f.5 as int % 10);
    let b = generalized_time_bytes(f);
    let yb = year_bytes(y);
    let t1 = two_digits(f.1 as int);
    let t2 = two_digits(f.2 as int);
    let t3 = two_digits(f.3 as int);
    let t4 = two_digits(f.4 as int);
    let t5 = two_digits(f.5 as int);
    assert(b == yb + t1 + t2 + t3 + t4 + t5 + seq![90u8]);
    assert(b.subrange(0, 4) =~= yb);
    assert(b.subrange(4, 6) =~= t1);
    assert(b.subrange(6, 8) =~= t2);
    assert(b.subrange(8, 10) =~= t3);
    assert(b.subrange(10, 12) =~= t4);
    assert(b.subrange(12, 14) =~= t5);
}

#[verifier::rlimit(30)]
proof fn lemma_gt_roundtrip(f: DateTimeFields)
    requires
        crate::utc_time::valid_fields(f),
        0 <= f.0 <= 9999,
    ensures
        gt_decode(generalized_time_bytes(f)) == Ok::<DateTimeFields, Seq<char>>(f),
        !gt_decode_panics(generalized_time_bytes(f)),
{
    reveal(gt_decode);
    reveal(gt_decode_panics);
    let b = generalized_time_bytes(f);
    lemma_gt_shape(f);
    lemma_parse_year(f.0 as int);
    lemma_parse_digits2(f.1 as int);
    lemma_parse_digits2(f.2 as int);
    lemma_parse_digits2(f.3 as int);
    lemma_parse_digits2(f.4 as int);
    lemma_parse_digits2(f.5 as int);
    assert(b.subrange(0, 0) =~= Seq::<u8>::empty());
    vstd::utf8::partial_valid_utf8_extend_ascii_block(b, 0, b.len() as int);
    assert(b.subrange(0, b.len() as int) == b);
    assert(!is_continuation(b[4]) && !is_continuation(b[6]) && !is_continuation(b[8]));
    assert(!is_continuation(b[10]) && !is_continuation(b[12]) && !is_continuation(b[14]));
}

/// The TLV in the middle of `p + tlv + q` reads back in place.
proof fn lemma_tlv_in_place(p: Seq<u8>, tag: u8, content: Seq<u8>, q: Seq<u8>, whole: Seq<u8>)
    requires
        whole == p + der_tlv_bytes(tag, content) + q,
        content.len() < 0x100_0000,
        whole.len() <= usize::MAX,
    ensures
        der_tlv_at(whole, p.len() as int) == Ok::<(u8, Seq<u8>, int), Seq<char>>(
            (tag, content, (p.len() + der_tlv_bytes(tag, content).len()) as int),
        ),
        !der_tlv_overflows(whole, p.len() as int),
{
    crate::der_tlv::lemma_tlv_roundtrip(p, tag, content, q);
}

/// The OID part of a token body, read where the encoder put it.
proof fn lemma_oid_part_roundtrip(inner: Seq<u8>, ab: Seq<u8>, ob: Seq<u8>, t: DateTimeFields, name: Seq<char>)
    requires
        inner == ab + der_tlv_bytes(TAG_OID, ob),
        ob.len() < 0x100_0000,
        inner.len() <= usize::MAX,
    ensures
        !der_tlv_overflows(inner, ab.len() as int),
        decode_oid_part(inner, ab.len() as int, t, name) == match oid_decode(ob) {
            Ok(o) => Ok::<(DateTimeFields, Seq<char>, Seq<char>), Seq<char>>((t, name, o)),
            Err(m) => Err(m),
        },
{
    let e = Seq::<u8>::empty();
    assert(inner =~= ab + der_tlv_bytes(TAG_OID, ob) + e);
    lemma_tlv_in_place(ab, TAG_OID, ob, e, inner);
}

/// The name and OID parts of a token body, read where the encoder put them.
proof fn lemma_name_part_roundtrip(
    inner: Seq<u8>,
    a: Seq<u8>,
    name: Seq<char>,
    ob: Seq<u8>,
    t: DateTimeFields,
)
    requires
        inner == a + der_tlv_bytes(TAG_UTF8_STRING, vstd::utf8::encode_utf8(name)) + der_tlv_bytes(TAG_OID, ob),
        vstd::utf8::encode_utf8(name).len() < 0x100_0000,
        ob.len() < 0x100_0000,
        inner.len() <= usize::MAX,
    ensures
        !name_part_panics(inner, a.len() as int),
        decode_name_part(inner, a.len() as int, t) == match oid_decode(ob) {
            Ok(o) => Ok::<(DateTimeFields, Seq<char>, Seq<char>), Seq<char>>((t, name, o)),
            Err(m) => Err(m),
        },
{
    let nb = vstd::utf8::encode_utf8(name);
    let b = der_tlv_bytes(TAG_UTF8_STRING, nb);
    let c = der_tlv_bytes(TAG_OID, ob);
    vstd::utf8::encode_utf8_valid_utf8(name);
    vstd::utf8::encode_utf8_decode_utf8(name);
    lemma_tlv_in_place(a, TAG_UTF8_STRING, nb, c, inner);
    assert(a.len() + b.len() == (a + b).len());
    assert(inner == (a + b) + c);
    lemma_oid_part_roundtrip(inner, a + b, ob, t, vstd::utf8::decode_utf8(nb));
}

/// A token body, read back.
proof fn lemma_body_roundtrip(inner: Seq<u8>, t: DateTimeFields, name: Seq<char>, ob: Seq<u8>)
    requires
        crate::utc_time::valid_fields(t),
        0 <= t.0 <= 9999,
        inner == der_tlv_bytes(TAG_GENERALIZED_TIME, generalized_time_bytes(t)) + der_tlv_bytes(
            TAG_UTF8_STRING,
            vstd::utf8::encode_utf8(name),
        ) + der_tlv_bytes(TAG_OID, ob),
        vstd::utf8::encode_utf8(name).len() < 0x100_0000,
        ob.len() < 0x100_0000,
        inner.len() <= usize::MAX,
    ensures
        !body_panics(inner),
        decode_body(inner) == match oid_decode(ob) {
            Ok(o) => Ok::<(DateTimeFields, Seq<char>, Seq<char>), Seq<char>>((t, name, o)),
            Err(m) => Err(m),
        },
{
    let gb = generalized_time_bytes(t);
    let a = der_tlv_bytes(TAG_GENERALIZED_TIME, gb);
    let b = der_tlv_bytes(TAG_UTF8_STRING, vstd::utf8::encode_utf8(name));
    let c = der_tlv_bytes(TAG_OID, ob);
    let e = Seq::<u8>::empty();
    lemma_gt_roundtrip(t);
    lemma_gt_shape(t);
    assert(inner =~= e + a + (b + c));
    lemma_tlv_in_place(e, TAG_GENERALIZED_TIME, gb, b + c, inner);
    lemma_name_part_roundtrip(inner, a, name, ob, t);
}

/// The contents of a token's SEQUENCE: time, name and OID value.
pub open spec fn token_body_bytes(t: DateTimeFields, name: Seq<char>, ob: Seq<u8>) -> Seq<u8> {
    der_tlv_bytes(TAG_GENERALIZED_TIME, generalized_time_bytes(t)) + der_tlv_bytes(
        TAG_UTF8_STRING,
        vstd::utf8::encode_utf8(name),
    ) + der_tlv_bytes(TAG_OID, ob)
}

proof fn lemma_token_body_len(t: DateTimeFields, nb: Seq<u8>, ob: Seq<u8>)
    requires
        crate::utc_time::valid_fields(t),
        0 <= t.0 <= 9999,
        nb.len() + ob.len() + 80 < 0x100_0000,
    ensures
        der_tlv_bytes(TAG_GENERALIZED_TIME, generalized_time_bytes(t)).len()
            + der_tlv_bytes(TAG_UTF8_STRING, nb).len() + der_tlv_bytes(TAG_OID, ob).len() < 0x100_0000,
{
    lemma_gt_shape(t);
    assert(crate::der_tlv::der_length_bytes(generalized_time_bytes(t).len()).len() <= 4);
    assert(crate::der_tlv::der_length_bytes(nb.len()).len() <= 4);
    assert(crate::der_tlv::der_length_bytes(ob.len()).len() <= 4);
}

/// Decoding an encoded token gives back its time (for years 0 to 9999, the ones written with
/// four digits) and its authority name, and the OID as its encoding decodes; tokens of at
/// most 2^24 bytes of content.
#[verifier::spinoff_prover]
#[verifier::rlimit(60)]
pub proof fn lemma_timestamp_roundtrip(t: DateTimeFields, name: Seq<char>, oid: Seq<char>)
    requires
        crate::utc_time::valid_fields(t),
        0 <= t.0 <= 9999,
        vstd::utf8::encode_utf8(name).len() + oid_value_bytes(oid).len() + 80 < 0x100_0000,
    ensures
        !timestamp_decode_panics(timestamp_der_bytes(t, name, oid)),
        timestamp_decode(timestamp_der_bytes(t, name, oid)) == match oid_decode(oid_value_bytes(oid)) {
            Ok(o) => Ok::<(DateTimeFields, Seq<char>, Seq<char>), Seq<char>>((t, name, o)),
            Err(m) => Err(m),
        },
{
    let nb = vstd::utf8::encode_utf8(name);
    let ob = oid_value_bytes(oid);
    let inner = token_body_bytes(t, name, ob);
    lemma_token_body_len(t, nb, ob);
    let whole = der_tlv_bytes(TAG_SEQUENCE, inner);
    let e = Seq::<u8>::empty();
    assert(whole =~= e + whole + e);
    lemma_tlv_in_place(e, TAG_SEQUENCE, inner, e, whole);
    lemma_body_roundtrip(inner, t, name, ob);
}

} // verus!
