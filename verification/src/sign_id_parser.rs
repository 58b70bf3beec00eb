//! Signature identifiers: reading them back, and handing out new ones in the plain
//! (`1`, `2`, ...) and the standard (`s001`, `s002`, ...) formats.
use vstd::prelude::*;
use crate::numtext::{
    decimal_chars, lemma_parse_zero_padded, parse_u32_from, parse_u32_spec, push_zero_padded, u32_to_string,
    zero_pad,
};
use crate::text::chars_of;

verus! {

/// `id` without one leading `s`, if it has one.
pub open spec fn strip_s(id: Seq<char>) -> Seq<char> {
    if id.len() > 0 && id[0] == 's' {
        id.skip(1)
    } else {
        id
    }
}

/// The number in a standard identifier (`s` then digits, the `s` optional).
pub open spec fn standard_id_value(id: Seq<char>) -> Option<u32> {
    match parse_u32_spec(strip_s(id)) {
        Ok(v) => Some(v),
        Err(_) => None,
    }
}

/// The number in a plain identifier.
pub open spec fn number_id_value(id: Seq<char>) -> Option<u32> {
    match parse_u32_spec(id) {
        Ok(v) => Some(v),
        Err(_) => None,
    }
}

/// A standard identifier: `s` and the number padded with zeros to `width` digits.
pub open spec fn standard_id_text(value: u32, width: usize) -> Seq<char> {
    seq!['s'] + zero_pad(decimal_chars(value as nat), width as nat)
}

/// Reads the number out of a standard identifier.
pub fn parse_standard_id(id: &str) -> (r: Option<u32>)
    ensures
        r == standard_id_value(id@),
{
    let cs = chars_of(id);
    let start: usize = if cs.len() > 0 && cs[0] == 's' { 1 } else { 0 };
    assert(cs@.skip(0) =~= cs@);
    match parse_u32_from(cs.as_slice(), start) {
        Ok(v) => Some(v),
        Err(_) => None,
    }
}

/// Writes a standard identifier.
pub fn format_standard_id(value: u32, width: usize) -> (s: String)
    ensures
        s@ == standard_id_text(value, width),
{
    let mut s = String::from_str("s");
    proof {
        reveal_strlit("s");
    }
    push_zero_padded(&mut s, value, width);
    s
}

/// Reads signature identifiers.
pub struct SignIdParser;

impl SignIdParser {
    /// The number in a standard identifier (`s001` gives 1); the `s` may be missing.
    pub fn parse_standard(id: &str) -> (r: Option<u32>)
        ensures
            r == standard_id_value(id@),
    {
        parse_standard_id(id)
    }

    /// The number in a plain identifier.
    pub fn parse_number(id: &str) -> (r: Option<u32>)
        ensures
            r == number_id_value(id@),
    {
        let cs = chars_of(id);
        assert(cs@.skip(0) =~= cs@);
        match parse_u32_from(cs.as_slice(), 0) {
            Ok(v) => Some(v),
            Err(_) => None,
        }
    }
}

/// Hands out plain identifiers from a counter, starting at 1.
#[derive(Debug)]
pub struct NumberFormatAtomicSignId {
    counter: u32,
}

impl View for NumberFormatAtomicSignId {
    /// The next value handed out.
    type V = u32;

    closed spec fn view(&self) -> u32 {
        self.counter
    }
}

impl NumberFormatAtomicSignId {
    /// A counter at 1.
    pub fn new() -> (r: Self)
        ensures
            r@ == 1,
    {
        NumberFormatAtomicSignId { counter: 1 }
    }

    /// A counter at `start`.
    pub fn with_start(start: u32) -> (r: Self)
        ensures
            r@ == start,
    {
        NumberFormatAtomicSignId { counter: start }
    }

    /// The current value as text; the counter moves on by one (wrapping at `u32::MAX`).
    pub fn next_id(&mut self) -> (s: String)
        ensures
            s@ == decimal_chars(old(self)@ as nat),
            final(self)@ == old(self)@.wrapping_add(1),
    {
        let val = self.counter;
        self.counter = self.counter.wrapping_add(1);
        u32_to_string(val)
    }

    /// Makes `max_id + 1` the next value.
    pub fn set_current_max(&mut self, max_id: u32)
        requires
            max_id < u32::MAX,
        ensures
            final(self)@ == max_id + 1,
    {
        self.counter = max_id + 1;
    }
}

impl Default for NumberFormatAtomicSignId {
    fn default() -> (r: Self)
        ensures
            r@ == 1,
    {
        Self::new()
    }
}

/// Hands out standard identifiers (`s001`, ...) from a counter, starting at 1.
#[derive(Debug)]
pub struct StandFormatAtomicSignId {
    counter: u32,
    width: usize,
}

impl View for StandFormatAtomicSignId {
    /// The next value handed out and the number of digits written.
    type V = (u32, usize);

    closed spec fn view(&self) -> (u32, usize) {
        (self.counter, self.width)
    }
}

impl StandFormatAtomicSignId {
    /// A counter at 1 writing three digits.
    pub fn new() -> (r: Self)
        ensures
            r@ == (1u32, 3usize),
    {
        StandFormatAtomicSignId { counter: 1, width: 3 }
    }

    /// The same counter writing `width` digits.
    pub fn with_width(self, width: usize) -> (r: Self)
        ensures
            r@ == (self@.0, width),
    {
        StandFormatAtomicSignId { counter: self.counter, width }
    }

    /// The current value as a standard identifier; the counter moves on by one (wrapping).
    pub fn next_id(&mut self) -> (s: String)
        ensures
            s@ == standard_id_text(old(self)@.0, old(self)@.1),
            final(self)@ == (old(self)@.0.wrapping_add(1), old(self)@.1),
    {
        let val = self.counter;
        self.counter = self.counter.wrapping_add(1);
        format_standard_id(val, self.width)
    }

    /// Makes `max_id + 1` the next value.
    pub fn set_current_max(&mut self, max_id: u32)
        requires
            max_id < u32::MAX,
        ensures
            final(self)@ == ((max_id + 1) as u32, old(self)@.1),
    {
        self.counter = max_id + 1;
    }
}

impl Default for StandFormatAtomicSignId {
    fn default() -> (r: Self)
        ensures
            r@ == (1u32, 3usize),
    {
        Self::new()
    }
}

/// A standard identifier, at any width, reads back as its number.
pub proof fn lemma_standard_id_roundtrip(value: u32, width: usize)
    ensures
        standard_id_value(standard_id_text(value, width)) == Some(value),
{
    let t = standard_id_text(value, width);
    lemma_parse_zero_padded(value, width as nat);
    assert(t[0] == 's');
    assert(t.skip(1) =~= zero_pad(decimal_chars(value as nat), width as nat));
}

/// A plain identifier reads back as its number.
pub proof fn lemma_number_id_roundtrip(value: u32)
    ensures
        number_id_value(decimal_chars(value as nat)) == Some(value),
{
    lemma_parse_zero_padded(value, 0);
    assert(zero_pad(decimal_chars(value as nat), 0) == decimal_chars(value as nat));
}

} // verus!
