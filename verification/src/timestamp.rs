//! The 16-byte UTC timestamp carried by date records: text of the fixed
//! layout `yymmddhhmmss.sss`, covering the years 2000 to 2099, parsed into
//! a plain calendar value.

use vstd::prelude::*;
use crate::wire::chars_of;
use crate::wire::push_char;

verus! {

/// A UTC calendar date and time with millisecond precision.
///
/// `year` counts from 2000: a stored year of 23 means 2023. A value is
/// meaningful only when it satisfies [`UtcTime::wf`], which every value
/// produced by the decoder does.
#[derive(Clone, Copy, Debug, PartialEq, Eq, Structural)]
pub struct UtcTime {
    /// Year within the century, 0 to 99, counted from 2000.
    pub year: u8,
    /// Month, 1 to 12.
    pub month: u8,
    /// Day of the month, 1 to the month's length.
    pub day: u8,
    /// Hour, 0 to 23.
    pub hour: u8,
    /// Minute, 0 to 59.
    pub minute: u8,
    /// Second, 0 to 59.
    pub second: u8,
    /// Millisecond, 0 to 999.
    pub millisecond: u16,
}

/// Whether the year `2000 + year` is a leap year. Within 2000 to 2099 the
/// century rules collapse: 2000 itself is divisible by 400, so divisibility
/// by 4 alone decides.
pub open spec fn spec_is_leap_year(year: u8) -> bool {
    year % 4 == 0
}

/// The number of days of the given month in the year `2000 + year`.
pub open spec fn spec_days_in_month(year: u8, month: u8) -> u8
    recommends
        1 <= month <= 12,
{
    if month == 2 {
        if spec_is_leap_year(year) {
            29
        } else {
            28
        }
    } else if month == 4 || month == 6 || month == 9 || month == 11 {
        30
    } else {
        31
    }
}

/// The number of days of the given month in the year `2000 + year`.
pub fn days_in_month(year: u8, month: u8) -> (d: u8)
    ensures
        d == spec_days_in_month(year, month),
{
    if month == 2 {
        if year % 4 == 0 {
            29
        } else {
            28
        }
    } else if month == 4 || month == 6 || month == 9 || month == 11 {
        30
    } else {
        31
    }
}

impl UtcTime {
    /// Whether this value names a real UTC calendar time of the years 2000
    /// to 2099: every field in range and the day within its month's length.
    pub open spec fn wf(self) -> bool {
        &&& self.year <= 99
        &&& 1 <= self.month <= 12
        &&& 1 <= self.day <= spec_days_in_month(self.year, self.month)
        &&& self.hour <= 23
        &&& self.minute <= 59
        &&& self.second <= 59
        &&& self.millisecond <= 999
    }

    /// Whether this value names a real UTC calendar time.
    pub fn is_wf(&self) -> (r: bool)
        ensures
            r == self.wf(),
    {
        self.year <= 99 && 1 <= self.month && self.month <= 12 && 1 <= self.day && self.day
            <= days_in_month(self.year, self.month) && self.hour <= 23 && self.minute <= 59
            && self.second <= 59 && self.millisecond <= 999
    }
}

/// Whether `c` is the code of an ASCII decimal digit.
pub open spec fn spec_is_digit(c: u8) -> bool {
    48 <= c <= 57
}

/// The two-digit decimal number at bytes `i` and `i + 1`.
pub open spec fn spec_two_digits(b: Seq<u8>, i: int) -> int
    recommends
        0 <= i,
        i + 2 <= b.len(),
{
    (b[i] - 48) * 10 + (b[i + 1] - 48)
}

/// Whether a 16-byte field has the timestamp layout: twelve digits, a dot,
/// and three more digits.
pub open spec fn spec_timestamp_layout(b: Seq<u8>) -> bool {
    &&& b.len() == 16
    &&& forall|j: int| 0 <= j < 12 ==> spec_is_digit(#[trigger] b[j])
    &&& b[12] == 46
    &&& forall|j: int| 13 <= j < 16 ==> spec_is_digit(#[trigger] b[j])
}

/// The calendar fields spelled by a field of timestamp layout, before any
/// validity check.
pub open spec fn spec_timestamp_fields(b: Seq<u8>) -> UtcTime
    recommends
        spec_timestamp_layout(b),
{
    UtcTime {
        year: spec_two_digits(b, 0) as u8,
        month: spec_two_digits(b, 2) as u8,
        day: spec_two_digits(b, 4) as u8,
        hour: spec_two_digits(b, 6) as u8,
        minute: spec_two_digits(b, 8) as u8,
        second: spec_two_digits(b, 10) as u8,
        millisecond: ((b[13] - 48) * 100 + (b[14] - 48) * 10 + (b[15] - 48)) as u16,
    }
}

/// The UTC time named by a 16-byte timestamp field, or `None` when the
/// field is not digit text of the fixed layout or does not name a real
/// calendar time.
pub open spec fn spec_parse_timestamp(b: Seq<u8>) -> Option<UtcTime> {
    if spec_timestamp_layout(b) && spec_timestamp_fields(b).wf() {
        Some(spec_timestamp_fields(b))
    } else {
        None
    }
}

/// Read the two-digit decimal number at bytes `i` and `i + 1`.
fn two_digits(b: &[u8], i: usize) -> (v: u8)
    requires
        i + 2 <= b@.len(),
        spec_is_digit(b@[i as int]),
        spec_is_digit(b@[i as int + 1]),
    ensures
        v == spec_two_digits(b@, i as int),
{
    (b[i] - 48) * 10 + (b[i + 1] - 48)
}

impl UtcTime {
    /// Parse a 16-byte timestamp field. Returns `None` when the field is
    /// not digit text of the layout `yymmddhhmmss.sss` or does not name a
    /// real UTC calendar time.
    pub fn parse(b: &[u8]) -> (r: Option<UtcTime>)
        ensures
            r == spec_parse_timestamp(b@),
    {
        if b.len() != 16 {
            return None;
        }
        let mut j: usize = 0;
        while j < 12
            invariant
                j <= 12,
                b@.len() == 16,
                forall|k: int| 0 <= k < j ==> spec_is_digit(#[trigger] b@[k]),
            decreases 12 - j,
        {
            let c = b[j];
            if c < 48 || c > 57 {
                return None;
            }
            j = j + 1;
        }
        if b[12] != 46 {
            return None;
        }
        let mut j: usize = 13;
        while j < 16
            invariant
                13 <= j <= 16,
                b@.len() == 16,
                forall|k: int| 13 <= k < j ==> spec_is_digit(#[trigger] b@[k]),
            decreases 16 - j,
        {
            let c = b[j];
            if c < 48 || c > 57 {
                return None;
            }
            j = j + 1;
        }
        let t = UtcTime {
            year: two_digits(b, 0),
            month: two_digits(b, 2),
            day: two_digits(b, 4),
            hour: two_digits(b, 6),
            minute: two_digits(b, 8),
            second: two_digits(b, 10),
            millisecond: (b[13] - 48) as u16 * 100 + (b[14] - 48) as u16 * 10 + (b[15] - 48)
                as u16,
        };
        if t.is_wf() {
            Some(t)
        } else {
            None
        }
    }
}

/// The 16 bytes of timestamp text that spell a calendar value: twelve
/// digits, a dot, and the three millisecond digits.
pub open spec fn spec_timestamp_bytes(t: UtcTime) -> Seq<u8>
    recommends
        t.wf(),
{
    seq![
        (48 + t.year / 10) as u8,
        (48 + t.year % 10) as u8,
        (48 + t.month / 10) as u8,
        (48 + t.month % 10) as u8,
        (48 + t.day / 10) as u8,
        (48 + t.day % 10) as u8,
        (48 + t.hour / 10) as u8,
        (48 + t.hour % 10) as u8,
        (48 + t.minute / 10) as u8,
        (48 + t.minute % 10) as u8,
        (48 + t.second / 10) as u8,
        (48 + t.second % 10) as u8,
        46u8,
        (48 + t.millisecond / 100) as u8,
        (48 + (t.millisecond / 10) % 10) as u8,
        (48 + t.millisecond % 10) as u8,
    ]
}

impl UtcTime {
    /// Spell this calendar value as its 16 characters of timestamp text.
    pub fn to_text(&self) -> (s: String)
        requires
            self.wf(),
        ensures
            s@ == chars_of(spec_timestamp_bytes(*self)),
    {
        let mut s = String::new();
        push_char(&mut s, (48 + self.year / 10) as char);
        push_char(&mut s, (48 + self.year % 10) as char);
        push_char(&mut s, (48 + self.month / 10) as char);
        push_char(&mut s, (48 + self.month % 10) as char);
        push_char(&mut s, (48 + self.day / 10) as char);
        push_char(&mut s, (48 + self.day % 10) as char);
        push_char(&mut s, (48 + self.hour / 10) as char);
        push_char(&mut s, (48 + self.hour % 10) as char);
        push_char(&mut s, (48 + self.minute / 10) as char);
        push_char(&mut s, (48 + self.minute % 10) as char);
        push_char(&mut s, (48 + self.second / 10) as char);
        push_char(&mut s, (48 + self.second % 10) as char);
        push_char(&mut s, '.');
        let m = self.millisecond;
        push_char(&mut s, (48 + m / 100) as u8 as char);
        push_char(&mut s, (48 + (m / 10) % 10) as u8 as char);
        push_char(&mut s, (48 + m % 10) as u8 as char);
        proof {
            assert(s@ =~= chars_of(spec_timestamp_bytes(*self)));
        }
        s
    }
}

/// Spelling a well-formed calendar value as timestamp text and parsing the
/// text back yields the value again: the text decode loses nothing.
pub proof fn lemma_timestamp_roundtrip(t: UtcTime)
    requires
        t.wf(),
    ensures
        spec_parse_timestamp(spec_timestamp_bytes(t)) == Some(t),
{
    let b = spec_timestamp_bytes(t);
    assert(spec_timestamp_layout(b));
    let u = spec_timestamp_fields(b);
    assert(u.year == t.year);
    assert(u.month == t.month);
    assert(u.day == t.day);
    assert(u.hour == t.hour);
    assert(u.minute == t.minute);
    assert(u.second == t.second);
    assert((t.millisecond / 100) * 100 + ((t.millisecond / 10) % 10) * 10 + t.millisecond % 10
        == t.millisecond) by (nonlinear_arith)
        requires
            t.millisecond <= 999,
    ;
    assert(u.millisecond == t.millisecond);
    assert(u == t);
}

} // verus!
