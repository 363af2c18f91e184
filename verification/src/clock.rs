//! The calendar, as `chrono` tells it.
//!
//! A `NaiveDateTime` is opaque here. What `chrono` reads out of one has a
//! name each, and the functions below are the only way to it: each states
//! that it returns what its name stands for, and the range that `chrono`
//! documents of it.
use chrono::{Datelike, NaiveDateTime, Timelike};
use vstd::prelude::*;

verus! {

/// `chrono`'s `NaiveDateTime`, a date and a time of day without a time
/// zone: a value of it is held and handed on, never looked into.
#[verifier::external_type_specification]
#[verifier::external_body]
pub struct ExNaiveDateTime(chrono::NaiveDateTime);

/// The year of the calendar date of `d`, as `chrono`'s `Datelike::year`
/// tells it.
pub uninterp spec fn year_in(d: NaiveDateTime) -> i32;

/// The month of the calendar date of `d`, as `chrono`'s `Datelike::month`
/// tells it.
pub uninterp spec fn month_in(d: NaiveDateTime) -> u32;

/// The day of the month of the calendar date of `d`, as `chrono`'s
/// `Datelike::day` tells it.
pub uninterp spec fn day_in(d: NaiveDateTime) -> u32;

/// The hour of the time of day of `d`, as `chrono`'s `Timelike::hour`
/// tells it.
pub uninterp spec fn hour_in(d: NaiveDateTime) -> u32;

/// The minute of the time of day of `d`, as `chrono`'s `Timelike::minute`
/// tells it.
pub uninterp spec fn minute_in(d: NaiveDateTime) -> u32;

/// The second of the time of day of `d`, as `chrono`'s `Timelike::second`
/// tells it.
pub uninterp spec fn second_in(d: NaiveDateTime) -> u32;

/// `chrono`'s `Datelike::year` on a `NaiveDateTime`: the year of its calendar
/// date, of which no bound is stated.
#[verifier::external_body]
pub(crate) fn year_of(d: &NaiveDateTime) -> (year: i32)
    ensures
        year == year_in(*d),
{
    d.year()
}

/// `chrono`'s `Datelike::month` on a `NaiveDateTime`: the month of its
/// calendar date, from 1 to 12.
#[verifier::external_body]
pub(crate) fn month_of(d: &NaiveDateTime) -> (month: u32)
    ensures
        month == month_in(*d),
        1 <= month <= 12,
{
    d.month()
}

/// `chrono`'s `Datelike::day` on a `NaiveDateTime`: the day of the month of
/// its calendar date, from 1 to 31.
#[verifier::external_body]
pub(crate) fn day_of(d: &NaiveDateTime) -> (day: u32)
    ensures
        day == day_in(*d),
        1 <= day <= 31,
{
    d.day()
}

/// `chrono`'s `Timelike::hour` on a `NaiveDateTime`: the hour of its time
/// of day, from 0 to 23.
#[verifier::external_body]
pub(crate) fn hour_of(d: &NaiveDateTime) -> (hour: u32)
    ensures
        hour == hour_in(*d),
        hour <= 23,
{
    d.hour()
}

/// `chrono`'s `Timelike::minute` on a `NaiveDateTime`: the minute of its
/// time of day, from 0 to 59.
#[verifier::external_body]
pub(crate) fn minute_of(d: &NaiveDateTime) -> (minute: u32)
    ensures
        minute == minute_in(*d),
        minute <= 59,
{
    d.minute()
}

/// `chrono`'s `Timelike::second` on a `NaiveDateTime`: the second of its
/// time of day, from 0 to 59; a leap second shows as 59.
#[verifier::external_body]
pub(crate) fn second_of(d: &NaiveDateTime) -> (second: u32)
    ensures
        second == second_in(*d),
        second <= 59,
{
    d.second()
}

} // verus!
