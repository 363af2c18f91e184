//! A date and time of day in seven bytes, with no time zone: every value
//! is taken to be UTC.
use crate::clock::{
    day_in, day_of, hour_in, hour_of, minute_in, minute_of, month_in, month_of, second_in,
    second_of, year_in, year_of,
};
use crate::endian::{le_u16, lemma_le_u16_inverse, lemma_u16_le_inverse, read_u16, u16_le, write_u16};
use chrono::NaiveDateTime;
use core::cmp::Ordering;
use vstd::prelude::*;
use vstd::std_specs::cmp::PartialOrdSpecImpl;

verus! {

/// The number of bytes that a [`Timestamp`] takes.
pub const TIMESTAMP_SIZE: usize = 7;

/// A calendar date and a time of day.
///
/// Any combination of fields can be held, also one that is no date:
/// [`Timestamp::is_valid`] tells them apart.
#[derive(Debug, Copy, Clone, PartialEq, Eq, Ord, Structural)]
pub struct Timestamp {
    pub year: u16,
    pub month: u8,
    pub day: u8,
    pub hour: u8,
    pub minute: u8,
    pub second: u8,
}

/// Whether `year` has a 29th of February.
pub open spec fn is_leap_year(year: int) -> bool {
    year % 4 == 0 && (year % 100 != 0 || year % 400 == 0)
}

/// The number of days of `month` in `year`, for a month from 1 to 12.
pub open spec fn days_in_month(year: int, month: int) -> int
    recommends
        1 <= month <= 12,
{
    if month == 2 {
        if is_leap_year(year) {
            29
        } else {
            28
        }
    } else if month == 4 || month == 6 || month == 9 || month == 11 {
        30
    } else {
        31
    }
}

impl Timestamp {
    /// Whether the fields name a day of the calendar and a second of that day.
    pub open spec fn valid(self) -> bool {
        &&& 1 <= self.month <= 12
        &&& 1 <= self.day <= days_in_month(self.year as int, self.month as int)
        &&& self.hour < 24
        &&& self.minute < 60
        &&& self.second < 60
    }

    /// Whether each field but the year lies in the range that a calendar
    /// and a clock give it. Less than [`Timestamp::valid`]: the day is
    /// held against 31, not against the length of the month.
    pub open spec fn in_calendar_ranges(self) -> bool {
        &&& 1 <= self.month <= 12
        &&& 1 <= self.day <= 31
        &&& self.hour < 24
        &&& self.minute < 60
        &&& self.second < 60
    }

    /// The seven bytes that stand for `self`: the year as a little-endian
    /// 16-bit number, then month, day, hour, minute and second, a byte each.
    pub open spec fn encode(self) -> Seq<u8> {
        u16_le(self.year) + seq![self.month, self.day, self.hour, self.minute, self.second]
    }

    /// The timestamp that the first seven bytes of `bytes` stand for.
    pub open spec fn decode(bytes: Seq<u8>) -> Timestamp
        recommends
            bytes.len() >= TIMESTAMP_SIZE,
    {
        Timestamp {
            year: le_u16(bytes),
            month: bytes[2],
            day: bytes[3],
            hour: bytes[4],
            minute: bytes[5],
            second: bytes[6],
        }
    }

    /// What the six numbers of a calendar date and time become: each is
    /// taken modulo the size of its field, so a number that fits stays as
    /// it is.
    pub open spec fn of_calendar(
        year: i32,
        month: u32,
        day: u32,
        hour: u32,
        minute: u32,
        second: u32,
    ) -> Timestamp {
        Timestamp {
            year: (year as int % 65536) as u16,
            month: (month as int % 256) as u8,
            day: (day as int % 256) as u8,
            hour: (hour as int % 256) as u8,
            minute: (minute as int % 256) as u8,
            second: (second as int % 256) as u8,
        }
    }

    /// Whether `self` is earlier than `other`: the fields are compared in
    /// the order year, month, day, hour, minute, second, and the first that
    /// differs decides.
    pub open spec fn earlier_than(self, other: Timestamp) -> bool {
        ||| self.year < other.year
        ||| self.year == other.year && self.month < other.month
        ||| self.year == other.year && self.month == other.month && self.day < other.day
        ||| self.year == other.year && self.month == other.month && self.day == other.day
            && self.hour < other.hour
        ||| self.year == other.year && self.month == other.month && self.day == other.day
            && self.hour == other.hour && self.minute < other.minute
        ||| self.year == other.year && self.month == other.month && self.day == other.day
            && self.hour == other.hour && self.minute == other.minute && self.second
            < other.second
    }

    /// Builds a timestamp from the numbers of a calendar date and time,
    /// keeping the low bits of a number too wide for its field.
    pub fn from_calendar(
        year: i32,
        month: u32,
        day: u32,
        hour: u32,
        minute: u32,
        second: u32,
    ) -> (t: Timestamp)
        ensures
            t == Timestamp::of_calendar(year, month, day, hour, minute, second),
    {
        proof {
            lemma_low_bits_of_year(year);
            lemma_low_bits_of_field(month);
            lemma_low_bits_of_field(day);
            lemma_low_bits_of_field(hour);
            lemma_low_bits_of_field(minute);
            lemma_low_bits_of_field(second);
        }
        Timestamp {
            year: #[verifier::truncate] (year as u16),
            month: #[verifier::truncate] (month as u8),
            day: #[verifier::truncate] (day as u8),
            hour: #[verifier::truncate] (hour as u8),
            minute: #[verifier::truncate] (minute as u8),
            second: #[verifier::truncate] (second as u8),
        }
    }

    /// The timestamp of a date and time of `chrono`, cut to the second and
    /// taken as UTC: its fields are the year, month, day, hour, minute and
    /// second that `chrono` reads out of `d`.
    ///
    /// The year is kept modulo 65536; the other fields lie in their ranges
    /// and are kept as they are.
    pub fn from_datetime(d: NaiveDateTime) -> (t: Timestamp)
        ensures
            t == Timestamp::of_calendar(
                year_in(d),
                month_in(d),
                day_in(d),
                hour_in(d),
                minute_in(d),
                second_in(d),
            ),
            t.month == month_in(d),
            t.day == day_in(d),
            t.hour == hour_in(d),
            t.minute == minute_in(d),
            t.second == second_in(d),
            t.in_calendar_ranges(),
    {
        let year = year_of(&d);
        let month = month_of(&d);
        let day = day_of(&d);
        let hour = hour_of(&d);
        let minute = minute_of(&d);
        let second = second_of(&d);
        Timestamp::from_calendar(year, month, day, hour, minute, second)
    }

    /// Reads a timestamp from the first seven bytes of `d`.
    pub fn from_bytes(d: &[u8]) -> (t: Timestamp)
        requires
            d@.len() >= TIMESTAMP_SIZE,
        ensures
            t == Timestamp::decode(d@),
    {
        Timestamp {
            year: read_u16(d),
            month: d[2],
            day: d[3],
            hour: d[4],
            minute: d[5],
            second: d[6],
        }
    }

    /// The seven bytes that stand for `self`.
    pub fn as_bytes(&self) -> (store: Vec<u8>)
        ensures
            store@ == self.encode(),
            store@.len() == TIMESTAMP_SIZE,
    {
        let mut store: Vec<u8> = vec![0u8; TIMESTAMP_SIZE];
        write_u16(store.as_mut_slice(), self.year);
        store[2] = self.month;
        store[3] = self.day;
        store[4] = self.hour;
        store[5] = self.minute;
        store[6] = self.second;
        assert(store@ =~= self.encode());
        store
    }

    /// Check if a date is valid.
    pub fn is_valid(&self) -> (valid: bool)
        ensures
            valid == self.valid(),
    {
        let in_range = 1 <= self.month && self.month <= 12 && 1 <= self.day && self.hour < 24
            && self.minute < 60 && self.second < 60;

        // February is the one month whose length depends on the year.
        let month_length: u8 = if self.month == 2 {
            let leap = self.year % 4 == 0 && (self.year % 100 != 0 || self.year % 400 == 0);
            if leap {
                29
            } else {
                28
            }
        } else if self.month == 4 || self.month == 6 || self.month == 9 || self.month == 11 {
            30
        } else {
            31
        };

        in_range && self.day <= month_length
    }
}

/// The low 16 bits of a year are the year modulo 65536.
proof fn lemma_low_bits_of_year(year: i32)
    ensures
        (year as u16) as int == year as int % 65536,
{
    assert(0 <= year ==> (year as u16) == year % 65536) by (bit_vector);
    assert(year < 0 ==> (year as u16) == (year + 2147483648) % 65536) by (bit_vector);
}

/// The low 8 bits of a number are the number modulo 256.
proof fn lemma_low_bits_of_field(n: u32)
    ensures
        (n as u8) as int == n as int % 256,
{
    assert((n as u8) == n % 256) by (bit_vector);
}

impl PartialOrd for Timestamp {
    fn partial_cmp(&self, other: &Timestamp) -> (r: Option<Ordering>) {
        if self.year != other.year {
            Some(if self.year < other.year { Ordering::Less } else { Ordering::Greater })
        } else if self.month != other.month {
            Some(if self.month < other.month { Ordering::Less } else { Ordering::Greater })
        } else if self.day != other.day {
            Some(if self.day < other.day { Ordering::Less } else { Ordering::Greater })
        } else if self.hour != other.hour {
            Some(if self.hour < other.hour { Ordering::Less } else { Ordering::Greater })
        } else if self.minute != other.minute {
            Some(if self.minute < other.minute { Ordering::Less } else { Ordering::Greater })
        } else if self.second != other.second {
            Some(if self.second < other.second { Ordering::Less } else { Ordering::Greater })
        } else {
            Some(Ordering::Equal)
        }
    }
}

impl PartialOrdSpecImpl for Timestamp {
    open spec fn obeys_partial_cmp_spec() -> bool {
        true
    }

    open spec fn partial_cmp_spec(&self, other: &Timestamp) -> Option<Ordering> {
        if self.earlier_than(*other) {
            Some(Ordering::Less)
        } else if *self == *other {
            Some(Ordering::Equal)
        } else {
            Some(Ordering::Greater)
        }
    }
}

/// Decoding the bytes of a timestamp gives the timestamp back.
pub proof fn lemma_timestamp_decode_encode(t: Timestamp)
    ensures
        t.encode().len() == TIMESTAMP_SIZE,
        Timestamp::decode(t.encode()) == t,
{
    lemma_u16_le_inverse(t.year);
}

/// Encoding the timestamp that seven bytes stand for gives the seven bytes
/// back.
pub proof fn lemma_timestamp_encode_decode(bytes: Seq<u8>)
    requires
        bytes.len() == TIMESTAMP_SIZE,
    ensures
        Timestamp::decode(bytes).encode() == bytes,
{
    lemma_le_u16_inverse(bytes.subrange(0, 2));
    assert(Timestamp::decode(bytes).encode() =~= bytes);
}

/// A valid timestamp has every field in its range, and names the 29th of
/// February in a leap year only.
pub proof fn lemma_valid_fields(t: Timestamp)
    requires
        t.valid(),
    ensures
        t.in_calendar_ranges(),
        t.month == 2 ==> t.day <= 29,
        t.month == 2 && t.day == 29 ==> is_leap_year(t.year as int),
{
}

/// Of two timestamps exactly one holds: the first is earlier, they are
/// equal, or the second is earlier.
pub proof fn lemma_timestamp_order_total(a: Timestamp, b: Timestamp)
    ensures
        a.earlier_than(b) || a == b || b.earlier_than(a),
        !(a.earlier_than(b) && a == b),
        !(a.earlier_than(b) && b.earlier_than(a)),
{
}

/// Earlier than something earlier is earlier.
pub proof fn lemma_timestamp_order_transitive(a: Timestamp, b: Timestamp, c: Timestamp)
    requires
        a.earlier_than(b),
        b.earlier_than(c),
    ensures
        a.earlier_than(c),
{
}

} // verus!
