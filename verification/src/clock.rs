//! A model of local wall-clock time as plain values.
//!
//! A `Moment` is a local date and time-of-day: a day number (consecutive
//! calendar days, where day numbers congruent to 0 modulo 7 fall on the
//! first weekday of the scheduling week) together with an hour and a
//! minute. Callers that read the machine clock convert to and from this
//! representation at the boundary; all scheduling arithmetic happens here.

use vstd::prelude::*;

verus! {

/// Number of weekdays in a week; weekday numbers range over `0..7`.
pub const DAYS_PER_WEEK: u64 = 7;

/// A local date and time-of-day, to minute precision.
#[derive(Clone, Copy, PartialEq, Eq, Structural, Debug)]
pub struct Moment {
    /// Consecutive day number; congruence modulo 7 determines the weekday.
    pub day: u64,
    /// Hour of the day, `0..24`.
    pub hour: u8,
    /// Minute of the hour, `0..60`.
    pub minute: u8,
}

impl Moment {
    /// A `Moment` is well formed when its hour and minute are in range.
    pub open spec fn wf(self) -> bool {
        self.hour < 24 && self.minute < 60
    }

    /// The moment as a total count of minutes, for comparing and for
    /// relating a start time to an end time.
    pub open spec fn total_minutes(self) -> int {
        (self.day as int) * 1440 + (self.hour as int) * 60 + (self.minute as int)
    }
}

/// The weekday of a day number: its residue modulo 7.
pub open spec fn weekday_of(day: u64) -> u64 {
    day % 7
}

/// The weekday that follows `weekday`, wrapping at the end of the week.
pub open spec fn weekday_after(weekday: u8) -> u8
    recommends
        weekday < 7,
{
    if weekday + 1 < 7 {
        (weekday + 1) as u8
    } else {
        0u8
    }
}

/// How many days lie between `day` and the next strictly future day that
/// falls on `target_weekday`: between 1 and 7, and 7 exactly when `day`
/// itself falls on the target weekday.
pub open spec fn spec_days_ahead(day: u64, target_weekday: u8) -> int
    recommends
        target_weekday < 7,
{
    let wd = day % 7;
    if target_weekday > wd {
        target_weekday - wd
    } else {
        target_weekday + 7 - wd
    }
}

/// The next strictly future moment on `target_weekday` at `target_hour:00`.
pub open spec fn spec_next_occurrence(now: Moment, target_weekday: u8, target_hour: u8) -> Moment
    recommends
        target_weekday < 7,
        now.day + 7 <= u64::MAX,
{
    Moment {
        day: (now.day + spec_days_ahead(now.day, target_weekday)) as u64,
        hour: target_hour,
        minute: 0,
    }
}

/// The moment exactly one hour later.
pub open spec fn spec_one_hour_after(start: Moment) -> Moment
    recommends
        start.wf(),
        start.day + 1 <= u64::MAX,
{
    if start.hour < 23 {
        Moment { day: start.day, hour: (start.hour + 1) as u8, minute: start.minute }
    } else {
        Moment { day: (start.day + 1) as u64, hour: 0, minute: start.minute }
    }
}

/// The next future moment that falls on `target_weekday` at
/// `target_hour:00`. The result is always strictly in the future:
/// when `now` already falls on the target weekday, the occurrence one
/// full week ahead is chosen, never one later the same day.
pub fn next_occurrence(now: &Moment, target_weekday: u8, target_hour: u8) -> (r: Moment)
    requires
        now.wf(),
        target_weekday < 7,
        target_hour < 24,
        now.day + 7 <= u64::MAX,
    ensures
        r == spec_next_occurrence(*now, target_weekday, target_hour),
        r.wf(),
        weekday_of(r.day) == target_weekday,
        r.hour == target_hour,
        r.minute == 0,
        now.day < r.day <= now.day + 7,
{
    let wd: u64 = now.day % 7;
    let tw: u64 = target_weekday as u64;
    let ahead: u64 = if tw > wd {
        tw - wd
    } else {
        tw + 7 - wd
    };
    let r = Moment { day: now.day + ahead, hour: target_hour, minute: 0 };
    proof {
        let d = now.day as int;
        let q = d / 7;
        vstd::arithmetic::div_mod::lemma_fundamental_div_mod(d, 7);
        if tw > wd {
            assert(r.day as int == 7 * q + tw);
        } else {
            assert(r.day as int == 7 * (q + 1) + tw);
        }
        vstd::arithmetic::div_mod::lemma_mod_multiples_vanish(q, tw as int, 7);
        vstd::arithmetic::div_mod::lemma_mod_multiples_vanish(q + 1, tw as int, 7);
        vstd::arithmetic::div_mod::lemma_small_mod(tw as nat, 7nat);
    }
    r
}

/// The end of an event that starts at `start`: exactly one hour later,
/// rolling over to the next day when the start hour is the last of the day.
pub fn one_hour_after(start: &Moment) -> (r: Moment)
    requires
        start.wf(),
        start.day + 1 <= u64::MAX,
    ensures
        r == spec_one_hour_after(*start),
        r.wf(),
        r.total_minutes() == start.total_minutes() + 60,
{
    if start.hour < 23 {
        Moment { day: start.day, hour: start.hour + 1, minute: start.minute }
    } else {
        Moment { day: start.day + 1, hour: 0, minute: start.minute }
    }
}

} // verus!
