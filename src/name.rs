//! Calendar names of instants, and the reference instants of this crate.

use vstd::prelude::*;

use chrono::Datelike;

use crate::epoch::Epoch;
use crate::scale::TT;
use crate::time_delta::{lemma_div_unique, nanos_in_range, TimeDelta, NANOS_PER_SEC, SECS_PER_DAY, SECS_PER_HOUR, SECS_PER_MIN};

verus! {

/// A date and time of day in the proleptic Gregorian calendar, without a
/// scale: the name of an instant.
///
/// The date is a day number, counted as chrono counts it: January 1 of
/// year 1 CE is day 1. `secs` are the seconds since midnight and `nanos`
/// the nanoseconds past them; a well-formed name has `secs < 86400` and
/// `nanos < 1_000_000_000`.
#[derive(Clone, Copy, Debug, PartialEq, Eq, Structural)]
pub struct DateTimeName {
    pub day: i64,
    pub secs: u32,
    pub nanos: u32,
}

/// Day number of January 1, 1900 CE.
pub const FRAMESHIFT_0_DAY: i64 = 693_596;

/// Day number of November 17, 1858 CE.
pub const MODIFIED_JULIAN_DAY_0_DAY: i64 = 678_576;

/// Day number of November 24, 4714 BCE (January 1, 4713 BCE in the
/// proleptic Julian calendar).
pub const JULIAN_DAY_0_DAY: i64 = -1_721_425;

/// Day number of January 1, 2000 CE.
pub const J2000_DAY: i64 = 730_120;

/// Nanoseconds in a day.
pub open spec fn nanos_per_day() -> int {
    86_400_000_000_000
}

impl DateTimeName {
    /// Whether the time of day is reduced into one day.
    pub open spec fn well_formed(&self) -> bool {
        self.secs < SECS_PER_DAY && self.nanos < NANOS_PER_SEC
    }
}

/// Nanoseconds from 1900-01-01 00:00 to the named instant.
pub open spec fn name_offset(name: DateTimeName) -> int {
    (name.day - FRAMESHIFT_0_DAY) * nanos_per_day() + name.secs as int * NANOS_PER_SEC as int
        + name.nanos as int
}

/// The name of the instant `n` nanoseconds after 1900-01-01 00:00.
pub open spec fn name_at(n: int) -> DateTimeName {
    DateTimeName {
        day: (n / nanos_per_day() + FRAMESHIFT_0_DAY) as i64,
        secs: ((n % nanos_per_day()) / NANOS_PER_SEC as int) as u32,
        nanos: (n % NANOS_PER_SEC as int) as u32,
    }
}

/// Naming an instant and reading the name back gives the instant again,
/// and the name is well formed.
pub proof fn lemma_name_round_trip(n: int)
    requires
        nanos_in_range(n),
    ensures
        name_offset(name_at(n)) == n,
        name_at(n).well_formed(),
{
    let d = nanos_per_day();
    let s = NANOS_PER_SEC as int;
    let q = n / d;
    let r = n % d;
    assert(q * d + r == n && 0 <= r < d) by (nonlinear_arith)
        requires
            d > 0,
            q == n / d,
            r == n % d,
    ;
    assert(r / s * s + r % s == r && 0 <= r % s < s && 0 <= r / s < 86400) by (nonlinear_arith)
        requires
            0 <= r < d,
            d == 86400 * s,
            s == 1_000_000_000,
    ;
    assert(r % s == n % s) by (nonlinear_arith)
        requires
            q * d + r == n,
            d == 86400 * s,
            s == 1_000_000_000,
    ;
    assert(-0x8000_0000_0000_0000 * s <= n <= 0x7fff_ffff_ffff_ffff * s + s) by {
        assert(nanos_in_range(n));
    }
    assert(-0x8000_0000_0000 <= q <= 0x8000_0000_0000) by (nonlinear_arith)
        requires
            q * d + r == n,
            0 <= r < d,
            d == 86400 * s,
            s == 1_000_000_000,
            -0x8000_0000_0000_0000 * s <= n <= 0x7fff_ffff_ffff_ffff * s + s,
    ;
}

/// Naming an instant with [Epoch::to_name] and reading the name back with
/// [Epoch::from_name] gives the instant again: the name meets the
/// requirement of `from_name` and stands for the same count.
pub proof fn lemma_epoch_name_round_trip<S>(i: Epoch<S>)
    ensures
        nanos_in_range(name_offset(name_at(i@))),
        name_offset(name_at(i@)) == i@,
{
    i.lemma_in_range();
    lemma_name_round_trip(i@);
}

/// Day number of a proleptic Gregorian date, or `None` where chrono has no
/// such date.
pub uninterp spec fn gregorian_day_number(year: i32, month: u32, day: u32) -> Option<i32>;

/// Relies on chrono's `NaiveDate::from_ymd_opt` and
/// `Datelike::num_days_from_ce`: the day number (1 for January 1 of 1 CE)
/// of a Gregorian date, `None` for a date that does not exist or lies
/// outside chrono's range.
#[verifier::external_body]
fn gregorian_day(year: i32, month: u32, day: u32) -> (r: Option<i32>)
    ensures
        r == gregorian_day_number(year, month, day),
{
    match chrono::NaiveDate::from_ymd_opt(year, month, day) {
        Some(date) => Some(date.num_days_from_ce()),
        None => None,
    }
}

/// A proleptic Julian date given as a proleptic Gregorian date, or `None`
/// where the julian crate has no such date.
pub uninterp spec fn julian_as_gregorian(year: i32, month: u32, day: u32) -> Option<(i32, u32, u32)>;

/// Relies on the julian crate: `Month::try_from`, `Calendar::at_ymd` in the
/// Julian calendar, `Date::convert_to` the Gregorian one, and the year,
/// month number and day of the result.
#[verifier::external_body]
fn julian_to_gregorian(year: i32, month: u32, day: u32) -> (r: Option<(i32, u32, u32)>)
    ensures
        r == julian_as_gregorian(year, month, day),
{
    let month = match julian::Month::try_from(month) {
        Ok(m) => m,
        Err(_) => return None,
    };
    match julian::Calendar::JULIAN.at_ymd(year, month, day) {
        Ok(date) => {
            let date = date.convert_to(julian::Calendar::GREGORIAN);
            Some((date.year(), date.month().number(), date.day()))
        },
        Err(_) => None,
    }
}

/// Whether an hour, minute and second name a time of day.
pub open spec fn is_time_of_day(hour: u32, min: u32, sec: u32) -> bool {
    hour < 24 && min < 60 && sec < 60
}

/// The name given by a Gregorian date whose day number is `day_number`, and
/// a time of day.
pub open spec fn name_of(day_number: Option<i32>, hour: u32, min: u32, sec: u32) -> Option<DateTimeName> {
    match day_number {
        Some(d) => if is_time_of_day(hour, min, sec) {
            Some(
                DateTimeName {
                    day: d as i64,
                    secs: (hour * 3600 + min * 60 + sec) as u32,
                    nanos: 0,
                },
            )
        } else {
            None
        },
        None => None,
    }
}

/// Names a date and time of day in the proleptic Gregorian calendar.
///
/// Returns `None` if the date does not exist, or the hour, minute or second
/// is out of range.
pub fn name_gregorian(year: i32, month: u32, day: u32, hour: u32, min: u32, sec: u32) -> (r: Option<
    DateTimeName,
>)
    ensures
        r == name_of(gregorian_day_number(year, month, day), hour, min, sec),
        r matches Some(n) ==> n.well_formed(),
{
    match gregorian_day(year, month, day) {
        Some(d) => if hour < 24 && min < 60 && sec < 60 {
            Some(
                DateTimeName {
                    day: d as i64,
                    secs: hour * SECS_PER_HOUR + min * SECS_PER_MIN + sec,
                    nanos: 0,
                },
            )
        } else {
            None
        },
        None => None,
    }
}

/// Names a date of the proleptic Julian calendar and a time of day.
///
/// Returns `None` if the month is not in `1..=12`, the date does not exist,
/// or the hour, minute or second is out of range.
pub fn name_julian(year: i32, month: u32, day: u32, hour: u32, min: u32, sec: u32) -> (r: Option<
    DateTimeName,
>)
    ensures
        !(1 <= month <= 12) ==> r is None,
        1 <= month <= 12 ==> r == match julian_as_gregorian(year, month, day) {
            Some((y, m, d)) => name_of(gregorian_day_number(y, m, d), hour, min, sec),
            None => None,
        },
{
    if month < 1 || month > 12 {
        return None;
    }
    match julian_to_gregorian(year, month, day) {
        Some((y, m, d)) => name_gregorian(y, m, d, hour, min, sec),
        None => None,
    }
}

/// The reference date for this crate.
///
/// January 1, 1900 CE at 00:00 (proleptic Gregorian).
pub fn frameshift_0() -> (r: DateTimeName)
    ensures
        r == (DateTimeName { day: FRAMESHIFT_0_DAY, secs: 0, nanos: 0 }),
        name_offset(r) == 0,
{
    DateTimeName { day: FRAMESHIFT_0_DAY, secs: 0, nanos: 0 }
}

/// Julian day 0.
///
/// January 1, 4713 BCE at 12:00 (proleptic Julian).
pub fn julian_day_0() -> (r: DateTimeName)
    ensures
        r == julian_day_0_spec(),
{
    DateTimeName { day: JULIAN_DAY_0_DAY, secs: 12 * SECS_PER_HOUR, nanos: 0 }
}

/// Modified Julian day 0.
///
/// November 17, 1858 CE at 00:00 (proleptic Gregorian).
pub fn modified_julian_day_0() -> (r: DateTimeName)
    ensures
        r == modified_julian_day_0_spec(),
{
    DateTimeName { day: MODIFIED_JULIAN_DAY_0_DAY, secs: 0, nanos: 0 }
}

/// Nanoseconds from 1900-01-01 00:00 to the named instant.
fn offset_of(name: &DateTimeName) -> (r: i128)
    ensures
        r == name_offset(*name),
{
    let days: i128 = name.day as i128 - FRAMESHIFT_0_DAY as i128;
    assert(-0x1_0000_0000_0000_0000 <= days <= 0x1_0000_0000_0000_0000);
    assert(-0x1_0000_0000_0000_0000 * 86_400_000_000_000 <= days * 86_400_000_000_000
        <= 0x1_0000_0000_0000_0000 * 86_400_000_000_000) by (nonlinear_arith)
        requires
            -0x1_0000_0000_0000_0000 <= days <= 0x1_0000_0000_0000_0000,
    ;
    let secs: i128 = name.secs as i128;
    assert(0 <= secs * 1_000_000_000 <= 0x1_0000_0000 * 1_000_000_000) by (nonlinear_arith)
        requires
            0 <= secs <= 0x1_0000_0000,
    ;
    days * 86_400_000_000_000 + secs * NANOS_PER_SEC as i128 + name.nanos as i128
}

/// Julian day 0 as [julian_day_0] returns it.
pub open spec fn julian_day_0_spec() -> DateTimeName {
    DateTimeName { day: JULIAN_DAY_0_DAY, secs: 43_200, nanos: 0 }
}

/// Modified Julian day 0 as [modified_julian_day_0] returns it.
pub open spec fn modified_julian_day_0_spec() -> DateTimeName {
    DateTimeName { day: MODIFIED_JULIAN_DAY_0_DAY, secs: 0, nanos: 0 }
}

impl<S> Epoch<S> {
    /// The instant `delta` after the named instant, both read in this scale.
    pub fn from_name_delta(name: &DateTimeName, delta: TimeDelta<S>) -> (r: Self)
        requires
            nanos_in_range(name_offset(*name) + delta@),
        ensures
            r@ == name_offset(*name) + delta@,
            r == Self::from_nanos_spec(name_offset(*name) + delta@),
    {
        Self::from_frameshift(TimeDelta::from_nanos(offset_of(name) + delta.to_nanos()))
    }

    /// The duration from the named instant, read in this scale, to this one.
    pub fn to_name_delta(&self, name: &DateTimeName) -> (r: TimeDelta<S>)
        requires
            nanos_in_range(self@ - name_offset(*name)),
        ensures
            r@ == self@ - name_offset(*name),
    {
        TimeDelta::from_nanos(self.to_frameshift().to_nanos() - offset_of(name))
    }

    /// The named instant, read in this scale.
    pub fn from_name(name: DateTimeName) -> (r: Self)
        requires
            nanos_in_range(name_offset(name)),
        ensures
            r@ == name_offset(name),
    {
        Self::from_frameshift(TimeDelta::from_nanos(offset_of(&name)))
    }

    /// The name of this instant, read in this scale.
    pub fn to_name(&self) -> (r: DateTimeName)
        ensures
            r == name_at(self@),
            r.well_formed(),
            name_offset(r) == self@,
    {
        proof {
            self.lemma_in_range();
            lemma_name_round_trip(self@);
        }
        let n = self.to_frameshift().to_nanos();
        let per_day: i128 = 86_400_000_000_000;
        let mut days: i128 = n / per_day;
        let mut rem: i128 = n % per_day;
        if rem < 0 {
            days = days - 1;
            rem = rem + per_day;
        }
        proof {
            lemma_div_unique(n as int, per_day as int, days as int, rem as int);
        }
        DateTimeName {
            day: (days + FRAMESHIFT_0_DAY as i128) as i64,
            secs: (rem / NANOS_PER_SEC as i128) as u32,
            nanos: (rem % NANOS_PER_SEC as i128) as u32,
        }
    }

    /// The instant `delta` after Julian day 0, both read in this scale.
    pub fn from_julian_day(delta: TimeDelta<S>) -> (r: Self)
        requires
            nanos_in_range(name_offset(julian_day_0_spec()) + delta@),
        ensures
            r@ == name_offset(julian_day_0_spec()) + delta@,
    {
        Self::from_name_delta(&julian_day_0(), delta)
    }

    /// The duration since Julian day 0, read in this scale.
    pub fn to_julian_day(&self) -> (r: TimeDelta<S>)
        requires
            nanos_in_range(self@ - name_offset(julian_day_0_spec())),
        ensures
            r@ == self@ - name_offset(julian_day_0_spec()),
    {
        self.to_name_delta(&julian_day_0())
    }

    /// The instant `delta` after modified Julian day 0, both read in this
    /// scale.
    pub fn from_modified_julian_day(delta: TimeDelta<S>) -> (r: Self)
        requires
            nanos_in_range(name_offset(modified_julian_day_0_spec()) + delta@),
        ensures
            r@ == name_offset(modified_julian_day_0_spec()) + delta@,
            r == Self::from_nanos_spec(name_offset(modified_julian_day_0_spec()) + delta@),
    {
        Self::from_name_delta(&modified_julian_day_0(), delta)
    }

    /// The duration since modified Julian day 0, read in this scale.
    pub fn to_modified_julian_day(&self) -> (r: TimeDelta<S>)
        requires
            nanos_in_range(self@ - name_offset(modified_julian_day_0_spec())),
        ensures
            r@ == self@ - name_offset(modified_julian_day_0_spec()),
    {
        self.to_name_delta(&modified_julian_day_0())
    }
}

/// J2000.0
///
/// January 1, 2000 CE at 12:00 TT (proleptic Gregorian).
pub fn j2000() -> (r: Epoch<TT>)
    ensures
        r@ == name_offset(DateTimeName { day: J2000_DAY, secs: 43_200, nanos: 0 }),
{
    Epoch::from_name(DateTimeName { day: J2000_DAY, secs: 12 * SECS_PER_HOUR, nanos: 0 })
}

} // verus!
