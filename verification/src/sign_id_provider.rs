//! Providers of signature identifiers, with a counter of the next identifier to hand out.
use vstd::prelude::*;
use crate::numtext::{decimal_chars, parse_u32, IntParseError, u32_to_string};
use crate::sign_id_parser::{format_standard_id, parse_standard_id, standard_id_text, standard_id_value};
use crate::text::push_str;

verus! {

/// The number in a standard identifier (`s001` gives 1; the `s` may be missing).
pub fn parse_sign_id_number(id: &str) -> (r: Option<u32>)
    ensures
        r == standard_id_value(id@),
{
    parse_standard_id(id)
}

/// Hands out signature identifiers.
pub trait SignIdProvider {
    /// The provider's state allows `set_current_max_sign_id` with this identifier.
    spec fn accepts_max(&self, max_sign_id: Seq<char>) -> bool;

    /// The provider's state allows `increment_and_get`.
    spec fn can_increment(&self) -> bool;

    /// Makes the identifier after `max_sign_id` the next one, when it can be read.
    fn set_current_max_sign_id(&mut self, max_sign_id: &str)
        requires
            old(self).accepts_max(max_sign_id@),
    ;

    /// Moves on to a new identifier and returns it.
    fn increment_and_get(&mut self) -> String
        requires
            old(self).can_increment(),
    ;

    /// The current identifier.
    fn get(&mut self) -> String;

    /// Reads the number out of an identifier of this provider's format.
    fn parse_id(&self, id: &str) -> Result<u32, String>;
}

/// Standard identifiers (`s001`, ...): each `get` or `increment_and_get` hands out the
/// counter and moves it on.
#[derive(Debug)]
pub struct StandardSignIdProvider {
    counter: u32,
    width: usize,
}

impl View for StandardSignIdProvider {
    /// The next value handed out and the number of digits written.
    type V = (u32, usize);

    closed spec fn view(&self) -> (u32, usize) {
        (self.counter, self.width)
    }
}

/// The message for an identifier that cannot be read.
pub open spec fn unreadable_id_message(detail: Seq<char>) -> Seq<char> {
    "无法解析签章 ID: "@ + detail
}

fn unreadable_id(detail: &str) -> (s: String)
    ensures
        s@ == unreadable_id_message(detail@),
{
    let mut s = String::from_str("无法解析签章 ID: ");
    push_str(&mut s, detail);
    s
}

impl StandardSignIdProvider {
    /// Counter at 1, three digits.
    pub fn new() -> (r: Self)
        ensures
            r@ == (1u32, 3usize),
    {
        StandardSignIdProvider { counter: 1, width: 3 }
    }

    /// The same counter writing `width` digits.
    pub fn with_width(self, width: usize) -> (r: Self)
        ensures
            r@ == (self@.0, width),
    {
        StandardSignIdProvider { counter: self.counter, width }
    }

    fn take_next(&mut self) -> (s: String)
        ensures
            s@ == standard_id_text(old(self)@.0, old(self)@.1),
            final(self)@ == (old(self)@.0.wrapping_add(1), old(self)@.1),
    {
        let val = self.counter;
        self.counter = self.counter.wrapping_add(1);
        format_standard_id(val, self.width)
    }
}

impl Default for StandardSignIdProvider {
    fn default() -> (r: Self)
        ensures
            r@ == (1u32, 3usize),
    {
        Self::new()
    }
}

impl SignIdProvider for StandardSignIdProvider {
    open spec fn accepts_max(&self, max_sign_id: Seq<char>) -> bool {
        standard_id_value(max_sign_id) != Some(u32::MAX)
    }

    open spec fn can_increment(&self) -> bool {
        true
    }

    fn set_current_max_sign_id(&mut self, max_sign_id: &str)
        ensures
            final(self)@ == match standard_id_value(max_sign_id@) {
                Some(n) => ((n + 1) as u32, old(self)@.1),
                None => old(self)@,
            },
    {
        if let Some(num) = parse_sign_id_number(max_sign_id) {
            self.counter = num + 1;
        }
    }

    fn increment_and_get(&mut self) -> (s: String)
        ensures
            s@ == standard_id_text(old(self)@.0, old(self)@.1),
            final(self)@ == (old(self)@.0.wrapping_add(1), old(self)@.1),
    {
        self.take_next()
    }

    fn get(&mut self) -> (s: String)
        ensures
            s@ == standard_id_text(old(self)@.0, old(self)@.1),
            final(self)@ == (old(self)@.0.wrapping_add(1), old(self)@.1),
    {
        self.take_next()
    }

    fn parse_id(&self, id: &str) -> (r: Result<u32, String>)
        ensures
            match standard_id_value(id@) {
                Some(n) => r == Ok::<u32, String>(n),
                None => r matches Err(m) && m@ == unreadable_id_message(id@),
            },
    {
        match parse_sign_id_number(id) {
            Some(n) => Ok(n),
            None => Err(unreadable_id(id)),
        }
    }
}

/// Plain identifiers (`1`, `2`, ...): `get` reads the counter, `increment_and_get` first
/// moves it on.
#[derive(Debug)]
pub struct NumberSignIdProvider {
    counter: u32,
}

impl View for NumberSignIdProvider {
    /// The current value.
    type V = u32;

    closed spec fn view(&self) -> u32 {
        self.counter
    }
}

impl NumberSignIdProvider {
    /// Counter at 1.
    pub fn new() -> (r: Self)
        ensures
            r@ == 1,
    {
        NumberSignIdProvider { counter: 1 }
    }
}

impl Default for NumberSignIdProvider {
    fn default() -> (r: Self)
        ensures
            r@ == 1,
    {
        Self::new()
    }
}

impl SignIdProvider for NumberSignIdProvider {
    open spec fn accepts_max(&self, max_sign_id: Seq<char>) -> bool {
        crate::numtext::parse_u32_spec(max_sign_id) != Ok::<u32, IntParseError>(u32::MAX)
    }

    open spec fn can_increment(&self) -> bool {
        self@ < u32::MAX
    }

    fn set_current_max_sign_id(&mut self, max_sign_id: &str)
        ensures
            final(self)@ == match crate::numtext::parse_u32_spec(max_sign_id@) {
                Ok(n) => (n + 1) as u32,
                Err(_) => old(self)@,
            },
    {
        if let Ok(num) = parse_u32(max_sign_id) {
            self.counter = num + 1;
        }
    }

    fn increment_and_get(&mut self) -> (s: String)
        ensures
            final(self)@ == old(self)@ + 1,
            s@ == decimal_chars(final(self)@ as nat),
    {
        self.counter = self.counter + 1;
        u32_to_string(self.counter)
    }

    fn get(&mut self) -> (s: String)
        ensures
            final(self)@ == old(self)@,
            s@ == decimal_chars(old(self)@ as nat),
    {
        u32_to_string(self.counter)
    }

    fn parse_id(&self, id: &str) -> (r: Result<u32, String>)
        ensures
            match crate::numtext::parse_u32_spec(id@) {
                Ok(n) => r == Ok::<u32, String>(n),
                Err(e) => r matches Err(m) && m@ == unreadable_id_message(e.message_spec()),
            },
    {
        match parse_u32(id) {
            Ok(n) => Ok(n),
            Err(e) => {
                let msg = e.message();
                Err(unreadable_id(msg.as_str()))
            },
        }
    }
}

} // verus!
