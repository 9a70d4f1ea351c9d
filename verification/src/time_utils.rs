//! The calendar: a clock reading held as plain numbers, and the day and
//! weekday that `chrono` assigns to an instant.

use chrono::{DateTime, Datelike, NaiveDate};
use vstd::prelude::*;

verus! {

/// Seconds in one calendar day.
pub const SECONDS_PER_DAY: i64 = 86_400;

/// Day number of 1 January 1970, counting 1 January of year 1 as day 1.
pub const UNIX_EPOCH_DAY: i64 = 719_163;

/// Day number of the first day that `chrono` can represent: 1 January of year -262143.
pub const MIN_DAY_NUMBER: i64 = -95_746_129;

/// Day number of the last day that `chrono` can represent: 31 December of year 262142.
pub const MAX_DAY_NUMBER: i64 = 95_745_399;

/// A reading of the host clock: the instant, in seconds since the epoch, and
/// the local time zone's offset from UTC at that instant, in seconds.
#[derive(Clone, Copy, Debug, PartialEq, Eq, Structural)]
pub struct Clock {
    pub now: i64,
    pub utc_offset: i32,
}

/// The day number (1 January of year 1 is day 1) of the UTC date on which
/// `secs` seconds since the epoch falls, where that date can be represented.
pub open spec fn utc_day_number(secs: i64) -> Option<i32> {
    let day = secs as int / SECONDS_PER_DAY as int + UNIX_EPOCH_DAY;
    if MIN_DAY_NUMBER <= day <= MAX_DAY_NUMBER {
        Some(day as i32)
    } else {
        None
    }
}

/// The ISO weekday number (Monday is 1, Sunday is 7) of the day with this
/// number, where `chrono` can represent that day.
pub uninterp spec fn iso_weekday(day: i32) -> Option<u32>;

/// The local day number of an instant under the clock's offset.
pub open spec fn local_day(clock: Clock, secs: i64) -> Option<int> {
    if i64::MIN <= secs + clock.utc_offset <= i64::MAX {
        match utc_day_number((secs + clock.utc_offset) as i64) {
            Some(d) => Some(d as int),
            None => None,
        }
    } else {
        None
    }
}

/// The local day number of the day `adjustment` days away from the clock's today.
pub open spec fn target_day(clock: Clock, adjustment: i64) -> Option<int> {
    match local_day(clock, clock.now) {
        Some(d) => Some(d + adjustment),
        None => None,
    }
}

/// Whether an instant falls on the local day `adjustment` days away from today.
pub open spec fn on_day(clock: Clock, secs: i64, adjustment: i64) -> bool {
    local_day(clock, secs) is Some && local_day(clock, secs) == target_day(clock, adjustment)
}

/// The ISO weekday number of the day `adjustment` days away from today.
pub open spec fn weekday_at(clock: Clock, adjustment: i64) -> Option<u32> {
    match target_day(clock, adjustment) {
        Some(d) => if i32::MIN <= d <= i32::MAX {
            iso_weekday(d as i32)
        } else {
            None
        },
        None => None,
    }
}

/// Calls `chrono::DateTime::from_timestamp` with no nanoseconds, then
/// `date_naive` and `num_days_from_ce` on what it gives. Trusted: the day
/// number is the floor of `secs / 86400` moved by the epoch's day number,
/// and it is there exactly when that day lies in the range of `chrono`'s dates.
#[verifier::external_body]
fn timestamp_day(secs: i64) -> (r: Option<i32>)
    ensures
        r == utc_day_number(secs),
{
    match DateTime::from_timestamp(secs, 0) {
        Some(t) => Some(t.date_naive().num_days_from_ce()),
        None => None,
    }
}

/// Calls `chrono::NaiveDate::from_num_days_from_ce_opt`, then `weekday` and
/// `number_from_monday` on what it gives. Trusted: a weekday is there
/// exactly when the day lies in the range of `chrono`'s dates, and its
/// number lies between 1 and 7.
#[verifier::external_body]
fn day_weekday(day: i32) -> (r: Option<u32>)
    ensures
        r == iso_weekday(day),
        r is Some <==> MIN_DAY_NUMBER <= day <= MAX_DAY_NUMBER,
        r matches Some(w) ==> 1 <= w <= 7,
{
    match NaiveDate::from_num_days_from_ce_opt(day) {
        Some(d) => Some(d.weekday().number_from_monday()),
        None => None,
    }
}

impl Clock {
    /// A reading of `now` seconds since the epoch in a zone `utc_offset` seconds east of UTC.
    pub fn new(now: i64, utc_offset: i32) -> (clock: Clock)
        ensures
            clock == (Clock { now, utc_offset }),
    {
        Clock { now, utc_offset }
    }

    /// The local day number of an instant, if it has one.
    pub fn local_date(&self, secs: i64) -> (r: Option<i64>)
        ensures
            r is Some == local_day(*self, secs) is Some,
            r matches Some(d) ==> local_day(*self, secs) == Some(d as int),
    {
        let offset: i64 = self.utc_offset as i64;
        if (offset > 0 && secs > i64::MAX - offset) || (offset < 0 && secs < i64::MIN - offset) {
            return None;
        }
        match timestamp_day(secs + offset) {
            Some(d) => Some(d as i64),
            None => None,
        }
    }

    /// The local day number of the day `adjustment` days away from today,
    /// if it has one that fits the machine's integers.
    pub fn date_at(&self, adjustment: i64) -> (r: Option<i64>)
        ensures
            r matches Some(d) ==> target_day(*self, adjustment) == Some(d as int),
            r is None ==> (target_day(*self, adjustment) matches Some(d) ==> !(i64::MIN <= d
                <= i64::MAX)),
    {
        match self.local_date(self.now) {
            Some(today) => {
                if (adjustment > 0 && today > i64::MAX - adjustment) || (adjustment < 0 && today
                    < i64::MIN - adjustment) {
                    None
                } else {
                    Some(today + adjustment)
                }
            },
            None => None,
        }
    }
}

/// The clock's instant, in seconds since the epoch.
pub fn current_time_timestamp(clock: &Clock) -> (now: i64)
    ensures
        now == clock.now,
{
    clock.now
}

/// The local day number of the clock's today, if it has one.
pub fn current_date(clock: &Clock) -> (r: Option<i64>)
    ensures
        r is Some == target_day(*clock, 0) is Some,
        r matches Some(d) ==> target_day(*clock, 0) == Some(d as int),
{
    clock.local_date(clock.now)
}

/// Whether the instant `timestamp` falls on the local day `adjustment` days away from today.
pub fn is_timestamp_on_day(clock: &Clock, timestamp: i64, adjustment: i64) -> (r: bool)
    ensures
        r == on_day(*clock, timestamp, adjustment),
{
    match clock.local_date(timestamp) {
        Some(day) => match clock.date_at(adjustment) {
            Some(target) => day == target,
            None => false,
        },
        None => false,
    }
}

/// The ISO weekday number (Monday is 1, Sunday is 7) of the day `adjustment`
/// days away from today, if that day has one.
pub fn todays_weekday(clock: &Clock, adjustment: i64) -> (r: Option<u32>)
    ensures
        r == weekday_at(*clock, adjustment),
        r is Some <==> (target_day(*clock, adjustment) matches Some(d) && MIN_DAY_NUMBER <= d
            <= MAX_DAY_NUMBER),
        r matches Some(w) ==> 1 <= w <= 7,
{
    match clock.date_at(adjustment) {
        Some(day) => {
            if day < -2_147_483_648 || day > 2_147_483_647 {
                None
            } else {
                day_weekday(day as i32)
            }
        },
        None => None,
    }
}

/// Whether `day` is the local day number of the clock's today.
pub fn is_same_date(clock: &Clock, day: i64) -> (r: bool)
    ensures
        r == (target_day(*clock, 0) == Some(day as int)),
{
    match current_date(clock) {
        Some(today) => today == day,
        None => false,
    }
}

} // verus!
