//! Points in time as the library sees them: milliseconds since the Unix
//! epoch for scheduling, and the UTC calendar minute that names a run.

use vstd::prelude::*;

use chrono::{Datelike, Timelike};

use crate::text::{decimal, digit, digit_char, push_char, push_decimal};

verus! {

/// The last millisecond of the year 9999, in milliseconds since the Unix
/// epoch. Later points in time are not handled.
pub const MAX_TIME: i64 = 253_402_300_799_999;

/// Whether `millis` is a point in time that the library handles: between the
/// Unix epoch and the end of the year 9999.
pub open spec fn is_time(millis: i64) -> bool {
    0 <= millis <= MAX_TIME
}

/// Decides `is_time`.
pub fn time_in_range(millis: i64) -> (ok: bool)
    ensures
        ok == is_time(millis),
{
    0 <= millis && millis <= MAX_TIME
}

/// `chrono::Utc::now`, as milliseconds since the Unix epoch. Nothing is
/// claimed of the value: it is whatever the system clock says.
#[verifier::external_body]
fn utc_now_millis() -> (millis: i64) {
    chrono::Utc::now().timestamp_millis()
}

/// The fields of the UTC calendar minute that a point in time falls in, as
/// `chrono` computes them: year, month, day of month, hour, minute. `None`
/// for a point in time that `chrono::DateTime` cannot hold.
pub uninterp spec fn utc_fields(millis: i64) -> Option<(i32, u32, u32, u32, u32)>;

/// `chrono::DateTime::from_timestamp_millis`, read through the accessors of
/// `Datelike` and `Timelike`.
#[verifier::external_body]
fn utc_fields_of(millis: i64) -> (fields: Option<(i32, u32, u32, u32, u32)>)
    ensures
        fields == utc_fields(millis),
{
    match chrono::DateTime::<chrono::Utc>::from_timestamp_millis(millis) {
        Some(t) => Some((t.year(), t.month(), t.day(), t.hour(), t.minute())),
        None => None,
    }
}

/// The stamp whose fields are `fields`, if they are those of a calendar
/// minute.
pub open spec fn stamp_of(fields: Option<(i32, u32, u32, u32, u32)>) -> Option<
    (int, int, int, int, int),
> {
    match fields {
        Some((year, month, day, hour, minute)) => if is_calendar_minute(
            year as int,
            month as int,
            day as int,
            hour as int,
            minute as int,
        ) {
            Some((year as int, month as int, day as int, hour as int, minute as int))
        } else {
            None
        },
        None => None,
    }
}

/// The current time in milliseconds since the Unix epoch: what
/// `accept_reading` makes of the system clock's reading, whatever that is.
pub fn current_time() -> (now: Option<i64>)
    ensures
        now matches Some(t) ==> is_time(t),
{
    accept_reading(utc_now_millis())
}

/// What a clock reading counts as: the reading itself if it is a point in
/// time that the library handles, nothing otherwise.
pub open spec fn reading(millis: i64) -> Option<i64> {
    if is_time(millis) {
        Some(millis)
    } else {
        None
    }
}

/// Takes a clock reading, in milliseconds since the Unix epoch, and hands it
/// on if it lies in the range that the library handles.
pub fn accept_reading(millis: i64) -> (time: Option<i64>)
    ensures
        time == reading(millis),
{
    if time_in_range(millis) {
        Some(millis)
    } else {
        None
    }
}

/// Two decimal digits, zero-padded.
pub open spec fn two_digits(v: int) -> Seq<char> {
    seq![digit(v / 10), digit(v % 10)]
}

/// Four decimal digits, zero-padded.
pub open spec fn four_digits(v: int) -> Seq<char> {
    seq![digit(v / 1000), digit(v / 100 % 10), digit(v / 10 % 10), digit(v % 10)]
}

/// The text `YYYY-MM-DD.HH:MM` of a calendar minute.
pub open spec fn stamp_text(year: int, month: int, day: int, hour: int, minute: int) -> Seq<char> {
    four_digits(year) + seq!['-'] + two_digits(month) + seq!['-'] + two_digits(day) + seq!['.']
        + two_digits(hour) + seq![':'] + two_digits(minute)
}

/// Whether the five numbers are the fields of a calendar minute in the years
/// 0 to 9999. Month lengths are not checked.
pub open spec fn is_calendar_minute(year: int, month: int, day: int, hour: int, minute: int) -> bool {
    &&& 0 <= year <= 9999
    &&& 1 <= month <= 12
    &&& 1 <= day <= 31
    &&& 0 <= hour <= 23
    &&& 0 <= minute <= 59
}

/// A UTC calendar minute: the granularity at which runs are named.
#[derive(Clone, Copy, Debug)]
pub struct RunStamp {
    year: u16,
    month: u8,
    day: u8,
    hour: u8,
    minute: u8,
}

impl RunStamp {
    #[verifier::type_invariant]
    spec fn inv(self) -> bool {
        is_calendar_minute(
            self.year as int,
            self.month as int,
            self.day as int,
            self.hour as int,
            self.minute as int,
        )
    }

    /// The year.
    pub closed spec fn year(self) -> int {
        self.year as int
    }

    /// The month, from 1.
    pub closed spec fn month(self) -> int {
        self.month as int
    }

    /// The day of the month, from 1.
    pub closed spec fn day(self) -> int {
        self.day as int
    }

    /// The hour of the day.
    pub closed spec fn hour(self) -> int {
        self.hour as int
    }

    /// The minute of the hour.
    pub closed spec fn minute(self) -> int {
        self.minute as int
    }

    /// The text `YYYY-MM-DD.HH:MM` of this minute.
    pub open spec fn text(self) -> Seq<char> {
        stamp_text(self.year(), self.month(), self.day(), self.hour(), self.minute())
    }

    /// Makes a stamp from its fields, if they are those of a calendar minute.
    pub fn new(year: i32, month: u32, day: u32, hour: u32, minute: u32) -> (stamp: Option<RunStamp>)
        ensures
            stamp is Some <==> is_calendar_minute(
                year as int,
                month as int,
                day as int,
                hour as int,
                minute as int,
            ),
            stamp matches Some(s) ==> s.year() == year && s.month() == month && s.day() == day
                && s.hour() == hour && s.minute() == minute,
    {
        if 0 <= year && year <= 9999 && 1 <= month && month <= 12 && 1 <= day && day <= 31 && hour
            <= 23 && minute <= 59 {
            Some(
                RunStamp {
                    year: year as u16,
                    month: month as u8,
                    day: day as u8,
                    hour: hour as u8,
                    minute: minute as u8,
                },
            )
        } else {
            None
        }
    }

    /// The five fields.
    pub open spec fn fields(self) -> (int, int, int, int, int) {
        (self.year(), self.month(), self.day(), self.hour(), self.minute())
    }

    /// The stamp of the UTC minute that the point in time `millis` falls in,
    /// or `None` when that minute lies outside the years 0 to 9999.
    pub fn at(millis: i64) -> (stamp: Option<RunStamp>)
        ensures
            stamp is Some <==> stamp_of(utc_fields(millis)) is Some,
            stamp matches Some(s) ==> Some(s.fields()) == stamp_of(utc_fields(millis)),
    {
        match utc_fields_of(millis) {
            Some((year, month, day, hour, minute)) => RunStamp::new(year, month, day, hour, minute),
            None => None,
        }
    }

    /// The name of the run directory of a run triggered in this minute.
    pub fn directory_name(&self) -> (name: String)
        ensures
            name@ == self.text(),
    {
        proof {
            use_type_invariant(self);
        }
        let mut out = String::new();
        push_four_digits(&mut out, self.year);
        push_char(&mut out, '-');
        push_two_digits(&mut out, self.month);
        push_char(&mut out, '-');
        push_two_digits(&mut out, self.day);
        push_char(&mut out, '.');
        push_two_digits(&mut out, self.hour);
        push_char(&mut out, ':');
        push_two_digits(&mut out, self.minute);
        out
    }
}

/// The text `H hours M minutes S seconds` of a span of `seconds` seconds.
pub open spec fn duration_text(seconds: nat) -> Seq<char> {
    decimal(seconds / 60 / 60) + " hours "@ + decimal(seconds / 60 % 60) + " minutes "@ + decimal(
        seconds % 60,
    ) + " seconds"@
}

/// Writes a span of time out in hours, minutes and seconds.
pub fn format_duration(seconds: u64) -> (text: String)
    ensures
        text@ == duration_text(seconds as nat),
{
    let mut text = String::new();
    push_decimal(&mut text, seconds / 60 / 60);
    text.append(" hours ");
    push_decimal(&mut text, seconds / 60 % 60);
    text.append(" minutes ");
    push_decimal(&mut text, seconds % 60);
    text.append(" seconds");
    text
}

/// Appends the two decimal digits of `v` to `out`.
fn push_two_digits(out: &mut String, v: u8)
    requires
        v < 100,
    ensures
        final(out)@ == old(out)@ + two_digits(v as int),
{
    push_char(out, digit_char(v / 10));
    push_char(out, digit_char(v % 10));
}

/// Appends the four decimal digits of `v` to `out`.
fn push_four_digits(out: &mut String, v: u16)
    requires
        v < 10000,
    ensures
        final(out)@ == old(out)@ + four_digits(v as int),
{
    push_char(out, digit_char((v / 1000) as u8));
    push_char(out, digit_char((v / 100 % 10) as u8));
    push_char(out, digit_char((v / 10 % 10) as u8));
    push_char(out, digit_char((v % 10) as u8));
}

} // verus!
