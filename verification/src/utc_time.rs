//! Calendar date-times in UTC, as carried by seals, time stamps and certificates.
use vstd::prelude::*;
use chrono::{Datelike, TimeZone, Timelike, Utc};

verus! {

/// Earliest year a date-time can carry.
pub const MIN_YEAR: i32 = -262143;

/// Latest year a date-time can carry.
pub const MAX_YEAR: i32 = 262142;

/// Gregorian leap-year rule.
pub open spec fn is_leap_year(y: int) -> bool {
    (y % 4 == 0 && y % 100 != 0) || y % 400 == 0
}

/// Number of days of month `m` (1-based) in year `y`.
pub open spec fn days_in_month(y: int, m: int) -> int {
    if m == 2 {
        if is_leap_year(y) { 29 } else { 28 }
    } else if m == 4 || m == 6 || m == 9 || m == 11 {
        30
    } else {
        31
    }
}

/// The fields name an existing second of the proleptic Gregorian calendar within the
/// supported year range (no leap seconds).
pub open spec fn valid_date_time(y: int, mo: int, d: int, h: int, mi: int, s: int) -> bool {
    &&& MIN_YEAR <= y <= MAX_YEAR
    &&& 1 <= mo <= 12
    &&& 1 <= d <= days_in_month(y, mo)
    &&& 0 <= h < 24
    &&& 0 <= mi < 60
    &&& 0 <= s < 60
}

/// The fields of a date-time as a tuple: year, month, day, hour, minute, second.
pub type DateTimeFields = (i32, u32, u32, u32, u32, u32);

/// `valid_date_time` on a field tuple.
pub open spec fn valid_fields(f: DateTimeFields) -> bool {
    valid_date_time(f.0 as int, f.1 as int, f.2 as int, f.3 as int, f.4 as int, f.5 as int)
}

/// A UTC date-time with one-second resolution.
#[derive(Debug, Clone, Copy, PartialEq, Eq)]
pub struct UtcDateTime {
    year: i32,
    month: u32,
    day: u32,
    hour: u32,
    minute: u32,
    second: u32,
}

impl View for UtcDateTime {
    type V = DateTimeFields;

    closed spec fn view(&self) -> DateTimeFields {
        (self.year, self.month, self.day, self.hour, self.minute, self.second)
    }
}

/// `chrono::TimeZone::with_ymd_and_hms` on `Utc`, followed by `LocalResult::single`:
/// a value exists exactly when the fields name a valid calendar second in chrono's year range.
#[verifier::external_body]
fn chrono_ymd_hms_exists(y: i32, mo: u32, d: u32, h: u32, mi: u32, s: u32) -> (b: bool)
    ensures
        b == valid_date_time(y as int, mo as int, d as int, h as int, mi as int, s as int),
{
    Utc.with_ymd_and_hms(y, mo, d, h, mi, s).single().is_some()
}

/// `chrono::Utc::now`, read field by field; the value depends on the clock, so only its
/// validity is stated.
#[verifier::external_body]
fn chrono_now_fields() -> (f: DateTimeFields)
    ensures
        valid_fields(f),
{
    let n = Utc::now();
    (n.year(), n.month(), n.day(), n.hour(), n.minute(), n.second())
}

impl UtcDateTime {
    #[verifier::type_invariant]
    spec fn well_formed(self) -> bool {
        valid_date_time(
            self.year as int,
            self.month as int,
            self.day as int,
            self.hour as int,
            self.minute as int,
            self.second as int,
        )
    }

    /// The date-time with the given fields, when they name a valid calendar second.
    pub fn from_ymd_hms(year: i32, month: u32, day: u32, hour: u32, minute: u32, second: u32) -> (r:
        Option<UtcDateTime>)
        ensures
            r is Some <==> valid_date_time(
                year as int,
                month as int,
                day as int,
                hour as int,
                minute as int,
                second as int,
            ),
            r matches Some(t) ==> t@ == (year, month, day, hour, minute, second),
    {
        if chrono_ymd_hms_exists(year, month, day, hour, minute, second) {
            Some(UtcDateTime { year, month, day, hour, minute, second })
        } else {
            None
        }
    }

    /// The fields of 1970-01-01T00:00:00Z.
    pub open spec fn epoch_fields() -> DateTimeFields {
        (1970i32, 1u32, 1u32, 0u32, 0u32, 0u32)
    }

    /// 1970-01-01T00:00:00Z.
    pub fn epoch() -> (r: UtcDateTime)
        ensures
            r@ == Self::epoch_fields(),
    {
        UtcDateTime { year: 1970, month: 1, day: 1, hour: 0, minute: 0, second: 0 }
    }

    /// The fields of the last second chrono can represent, 262142-12-31T23:59:59Z.
    pub open spec fn max_fields() -> DateTimeFields {
        (262142i32, 12u32, 31u32, 23u32, 59u32, 59u32)
    }

    /// The last second chrono can represent.
    pub fn max_utc() -> (r: UtcDateTime)
        ensures
            r@ == Self::max_fields(),
    {
        UtcDateTime { year: 262142, month: 12, day: 31, hour: 23, minute: 59, second: 59 }
    }

    /// The current time of the system clock.
    pub fn now() -> (r: UtcDateTime)
        ensures
            valid_fields(r@),
    {
        let f = chrono_now_fields();
        UtcDateTime { year: f.0, month: f.1, day: f.2, hour: f.3, minute: f.4, second: f.5 }
    }

    /// All fields at once; they always form a valid date-time.
    pub fn fields(&self) -> (f: DateTimeFields)
        ensures
            f == self@,
            valid_fields(f),
    {
        proof {
            use_type_invariant(self);
        }
        (self.year, self.month, self.day, self.hour, self.minute, self.second)
    }

    /// The year.
    pub fn year(&self) -> (y: i32)
        ensures
            y == self@.0,
    {
        self.year
    }

    /// The month, 1 to 12.
    pub fn month(&self) -> (m: u32)
        ensures
            m == self@.1,
    {
        self.month
    }

    /// The day of the month, from 1.
    pub fn day(&self) -> (d: u32)
        ensures
            d == self@.2,
    {
        self.day
    }

    /// The hour, 0 to 23.
    pub fn hour(&self) -> (h: u32)
        ensures
            h == self@.3,
    {
        self.hour
    }

    /// The minute, 0 to 59.
    pub fn minute(&self) -> (m: u32)
        ensures
            m == self@.4,
    {
        self.minute
    }

    /// The second, 0 to 59.
    pub fn second(&self) -> (s: u32)
        ensures
            s == self@.5,
    {
        self.second
    }
}

} // verus!
