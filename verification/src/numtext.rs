//! Decimal text of unsigned integers: writing them, padding them, and reading them back the
//! way `str::parse::<u32>` does.
use vstd::prelude::*;
use crate::text::{push_char, chars_of};

verus! {

/// The character of a decimal digit.
pub open spec fn digit_char(d: nat) -> char {
    (48 + d) as char
}

/// Decimal digits of `n`, most significant first, without leading zeros.
pub open spec fn decimal_chars(n: nat) -> Seq<char>
    decreases n,
{
    if n < 10 {
        seq![digit_char(n)]
    } else {
        decimal_chars(n / 10).push(digit_char(n % 10))
    }
}

/// `n` zeros.
pub open spec fn zeros(n: nat) -> Seq<char> {
    Seq::new(n, |i: int| '0')
}

/// `s` padded on the left with zeros to at least `width` characters.
pub open spec fn zero_pad(s: Seq<char>, width: nat) -> Seq<char> {
    if s.len() >= width {
        s
    } else {
        zeros((width - s.len()) as nat) + s
    }
}

/// Why a text is not the decimal text of a `u32`, as `core::num::IntErrorKind` names it.
#[derive(Debug, Clone, Copy, PartialEq, Eq)]
pub enum IntParseError {
    /// The text is empty.
    Empty,
    /// A character is not a digit (or a sign stands alone).
    InvalidDigit,
    /// The value exceeds `u32::MAX`.
    PosOverflow,
}

impl IntParseError {
    /// The message `ParseIntError` displays for this kind.
    pub open spec fn message_spec(self) -> Seq<char> {
        match self {
            IntParseError::Empty => "cannot parse integer from empty string"@,
            IntParseError::InvalidDigit => "invalid digit found in string"@,
            IntParseError::PosOverflow => "number too large to fit in target type"@,
        }
    }

    /// The message `ParseIntError` displays for this kind.
    pub fn message(&self) -> (s: String)
        ensures
            s@ == self.message_spec(),
    {
        match self {
            IntParseError::Empty => String::from_str("cannot parse integer from empty string"),
            IntParseError::InvalidDigit => String::from_str("invalid digit found in string"),
            IntParseError::PosOverflow => String::from_str("number too large to fit in target type"),
        }
    }
}

/// An ASCII decimal digit.
pub open spec fn is_digit(c: char) -> bool {
    '0' <= c <= '9'
}

/// Reads the digits of `s` onto the value `acc`, left to right, failing on the first
/// character that is not a digit or the first step past `u32::MAX`.
pub open spec fn parse_digits(s: Seq<char>, acc: nat) -> Result<u32, IntParseError>
    decreases s.len(),
{
    if s.len() == 0 {
        Ok(acc as u32)
    } else if !is_digit(s[0]) {
        Err(IntParseError::InvalidDigit)
    } else if acc * 10 + (s[0] as nat - 48) > u32::MAX {
        Err(IntParseError::PosOverflow)
    } else {
        parse_digits(s.skip(1), (acc * 10 + (s[0] as nat - 48)) as nat)
    }
}

/// `str::parse::<u32>` on the text `s`: an optional leading `+`, then decimal digits.
pub open spec fn parse_u32_spec(s: Seq<char>) -> Result<u32, IntParseError> {
    if s.len() == 0 {
        Err(IntParseError::Empty)
    } else if s.len() == 1 && (s[0] == '+' || s[0] == '-') {
        Err(IntParseError::InvalidDigit)
    } else if s[0] == '+' {
        parse_digits(s.skip(1), 0)
    } else {
        parse_digits(s, 0)
    }
}

/// Appends the decimal digits of `n`.
pub fn push_decimal(s: &mut String, n: u32)
    ensures
        final(s)@ == old(s)@ + decimal_chars(n as nat),
    decreases n,
{
    if n >= 10 {
        push_decimal(s, n / 10);
    }
    let d: u8 = (n % 10) as u8;
    push_char(s, (48u8 + d) as char);
}

/// Appends the decimal digits of `n`.
pub fn push_usize(s: &mut String, n: usize)
    ensures
        final(s)@ == old(s)@ + decimal_chars(n as nat),
    decreases n,
{
    if n >= 10 {
        push_usize(s, n / 10);
    }
    let d: u8 = (n % 10) as u8;
    push_char(s, (48u8 + d) as char);
}

/// The decimal text of `n`, as `u32::to_string` writes it.
pub fn u32_to_string(n: u32) -> (s: String)
    ensures
        s@ == decimal_chars(n as nat),
{
    let mut s = String::new();
    push_decimal(&mut s, n);
    s
}

/// Appends `count` zeros.
pub fn push_zeros(s: &mut String, count: usize)
    ensures
        final(s)@ == old(s)@ + zeros(count as nat),
{
    let mut i: usize = 0;
    while i < count
        invariant
            i <= count,
            s@ == old(s)@ + zeros(i as nat),
        decreases count - i,
    {
        push_char(s, '0');
        assert(zeros((i + 1) as nat) == zeros(i as nat).push('0'));
        i = i + 1;
    }
}

/// Appends the decimal text of `n` padded with zeros to at least `width` characters, as
/// `format!("{:0>width$}", n)` writes it.
pub fn push_zero_padded(s: &mut String, n: u32, width: usize)
    ensures
        final(s)@ == old(s)@ + zero_pad(decimal_chars(n as nat), width as nat),
{
    let digits = u32_to_string(n);
    let len = chars_of(digits.as_str()).len();
    if len < width {
        push_zeros(s, width - len);
    }
    crate::text::push_str(s, digits.as_str());
}

/// `str::parse::<u32>` on the characters of `cs` from `start` on.
pub fn parse_u32_from(cs: &[char], start: usize) -> (r: Result<u32, IntParseError>)
    requires
        start <= cs@.len(),
    ensures
        r == parse_u32_spec(cs@.skip(start as int)),
{
    let n = cs.len();
    let ghost t = cs@.skip(start as int);
    if start == n {
        return Err(IntParseError::Empty);
    }
    assert(t[0] == cs@[start as int]);
    if n - start == 1 && (cs[start] == '+' || cs[start] == '-') {
        return Err(IntParseError::InvalidDigit);
    }
    let mut i: usize = if cs[start] == '+' { start + 1 } else { start };
    let mut acc: u32 = 0;
    assert(t.skip(1) == cs@.skip(start + 1));
    while i < n
        invariant
            n == cs@.len(),
            start <= i <= n,
            t == cs@.skip(start as int),
            parse_digits(cs@.skip(i as int), acc as nat) == parse_u32_spec(t),
        decreases n - i,
    {
        let c = cs[i];
        let ghost rest = cs@.skip(i as int);
        assert(rest[0] == c);
        assert(rest.skip(1) == cs@.skip(i + 1));
        if !('0' <= c && c <= '9') {
            return Err(IntParseError::InvalidDigit);
        }
        let d: u32 = (c as u32) - 48;
        if acc > 429496729 || (acc == 429496729 && d > 5) {
            return Err(IntParseError::PosOverflow);
        }
        acc = acc * 10 + d;
        i = i + 1;
    }
    Ok(acc)
}

/// `str::parse::<u32>` on `t`.
pub fn parse_u32(t: &str) -> (r: Result<u32, IntParseError>)
    ensures
        r == parse_u32_spec(t@),
{
    let cs = chars_of(t);
    assert(cs@.skip(0) =~= cs@);
    parse_u32_from(cs.as_slice(), 0)
}

/// The value of decimal digits read left to right onto `acc`.
pub open spec fn digits_value(s: Seq<char>, acc: nat) -> nat
    decreases s.len(),
{
    if s.len() == 0 {
        acc
    } else {
        digits_value(s.skip(1), (acc * 10 + (s[0] as nat - 48)) as nat)
    }
}

/// Every character is a decimal digit.
pub open spec fn all_digits(s: Seq<char>) -> bool {
    forall|i: int| 0 <= i < s.len() ==> is_digit(#[trigger] s[i])
}

proof fn lemma_digits_value_grows(s: Seq<char>, acc: nat)
    requires
        all_digits(s),
    ensures
        digits_value(s, acc) >= acc,
        s.len() > 0 ==> digits_value(s, acc) >= acc * 10 + (s[0] as nat - 48),
    decreases s.len(),
{
    if s.len() > 0 {
        assert(is_digit(s[0]));
        let next = (acc * 10 + (s[0] as nat - 48)) as nat;
        assert(all_digits(s.skip(1))) by {
            assert forall|i: int| 0 <= i < s.skip(1).len() implies is_digit(#[trigger] s.skip(1)[i]) by {
                assert(s.skip(1)[i] == s[i + 1]);
            }
        }
        lemma_digits_value_grows(s.skip(1), next);
        assert(next >= acc) by (nonlinear_arith)
            requires
                next == acc * 10 + (s[0] as nat - 48),
                s[0] as nat >= 48,
        ;
    }
}

proof fn lemma_parse_digits_value(s: Seq<char>, acc: nat)
    requires
        all_digits(s),
        digits_value(s, acc) <= u32::MAX,
    ensures
        parse_digits(s, acc) == Ok::<u32, IntParseError>(digits_value(s, acc) as u32),
    decreases s.len(),
{
    if s.len() > 0 {
        lemma_digits_value_grows(s, acc);
        assert(all_digits(s.skip(1))) by {
            assert forall|i: int| 0 <= i < s.skip(1).len() implies is_digit(#[trigger] s.skip(1)[i]) by {
                assert(s.skip(1)[i] == s[i + 1]);
            }
        }
        lemma_parse_digits_value(s.skip(1), (acc * 10 + (s[0] as nat - 48)) as nat);
    }
}

proof fn lemma_digits_value_push(s: Seq<char>, c: char, acc: nat)
    requires
        is_digit(c),
    ensures
        digits_value(s.push(c), acc) == digits_value(s, acc) * 10 + (c as nat - 48),
    decreases s.len(),
{
    if s.len() == 0 {
        assert(s.push(c).skip(1) =~= Seq::<char>::empty());
        assert(s.push(c)[0] == c);
        let next = (acc * 10 + (c as nat - 48)) as nat;
        assert(digits_value(Seq::<char>::empty(), next) == next);
        assert(digits_value(s.push(c), acc) == digits_value(s.push(c).skip(1), next));
        assert(digits_value(s, acc) == acc);
    } else {
        assert(s.push(c).skip(1) =~= s.skip(1).push(c));
        assert(s.push(c)[0] == s[0]);
        let next = (acc * 10 + (s[0] as nat - 48)) as nat;
        lemma_digits_value_push(s.skip(1), c, next);
        assert(digits_value(s.push(c), acc) == digits_value(s.push(c).skip(1), next));
        assert(digits_value(s, acc) == digits_value(s.skip(1), next));
    }
}

/// The decimal digits of `n` are digits and read back as `n`.
pub proof fn lemma_decimal_chars_value(n: nat)
    ensures
        all_digits(decimal_chars(n)),
        decimal_chars(n).len() > 0,
        digits_value(decimal_chars(n), 0) == n,
    decreases n,
{
    if n >= 10 {
        lemma_decimal_chars_value(n / 10);
        let d = digit_char(n % 10);
        assert(is_digit(d));
        lemma_digits_value_push(decimal_chars(n / 10), d, 0);
        assert(d as nat - 48 == n % 10);
        assert(decimal_chars(n) == decimal_chars(n / 10).push(d));
        assert((n / 10) * 10 + n % 10 == n);
        assert forall|i: int| 0 <= i < decimal_chars(n).len() implies is_digit(#[trigger] decimal_chars(n)[i]) by {
            if i < decimal_chars(n / 10).len() {
                assert(decimal_chars(n)[i] == decimal_chars(n / 10)[i]);
            }
        }
    } else {
        assert(decimal_chars(n) =~= seq![digit_char(n)]);
        assert(seq![digit_char(n)].skip(1) =~= Seq::<char>::empty());
        assert(digits_value(Seq::<char>::empty(), n) == n);
        assert(digits_value(seq![digit_char(n)], 0) == digits_value(seq![digit_char(n)].skip(1), n));
    }
}

proof fn lemma_zeros_value(k: nat, s: Seq<char>)
    ensures
        digits_value(zeros(k) + s, 0) == digits_value(s, 0),
    decreases k,
{
    if k > 0 {
        assert((zeros(k) + s)[0] == '0');
        assert((zeros(k) + s).skip(1) =~= zeros((k - 1) as nat) + s);
        lemma_zeros_value((k - 1) as nat, s);
    } else {
        assert(zeros(0) + s =~= s);
    }
}

/// The decimal text of a `u32`, padded with zeros to any width, reads back as the number.
pub proof fn lemma_parse_zero_padded(v: u32, width: nat)
    ensures
        parse_u32_spec(zero_pad(decimal_chars(v as nat), width)) == Ok::<u32, IntParseError>(v),
{
    let d = decimal_chars(v as nat);
    lemma_decimal_chars_value(v as nat);
    let p = zero_pad(d, width);
    if d.len() < width {
        lemma_zeros_value((width - d.len()) as nat, d);
        assert forall|i: int| 0 <= i < p.len() implies is_digit(#[trigger] p[i]) by {
            if i >= width - d.len() {
                assert(p[i] == d[i - (width - d.len())]);
            }
        }
    }
    assert(all_digits(p));
    lemma_parse_digits_value(p, 0);
    assert(is_digit(p[0]));
}

} // verus!
