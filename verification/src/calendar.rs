//! The parts of `chrono` that the library reads dates and durations through.
//!
//! Nothing in this module is proved: each contract below is taken on trust
//! from `chrono`.

use chrono::{NaiveDate, TimeDelta};
use vstd::prelude::*;

verus! {

/// `chrono::NaiveDate`, a calendar date without time of day or time zone.
/// Nothing is known of what is inside one.
#[verifier::external_type_specification]
#[verifier::external_body]
pub struct ExNaiveDate(NaiveDate);

/// `chrono::TimeDelta`, a signed span of time. Nothing is known of what is
/// inside one.
#[verifier::external_type_specification]
#[verifier::external_body]
pub struct ExTimeDelta(TimeDelta);

/// The number of days from January 1 of year 1 to `date`, that day counting
/// as day 1: what `chrono::Datelike::num_days_from_ce` returns for `date`.
///
/// Wherever the library speaks of the order of dates, it means the order of
/// these numbers. That a later date has the greater number is `chrono`'s
/// word; no contract here says so, and no proof needs it.
pub uninterp spec fn days_from_ce(date: NaiveDate) -> int;

/// The whole seconds in `duration`, rounded towards zero: what
/// `chrono::TimeDelta::num_seconds` returns for `duration`.
pub uninterp spec fn whole_seconds(duration: TimeDelta) -> int;

/// `chrono::TimeDelta::num_seconds`. Trusted: the result is a function of
/// the duration alone, named [`whole_seconds`].
pub assume_specification[ TimeDelta::num_seconds ](duration: &TimeDelta) -> (seconds: i64)
    ensures
        seconds == whole_seconds(*duration),
;

/// `chrono::Datelike::num_days_from_ce` on a `NaiveDate`. Trusted: the
/// result is a function of the date alone, named [`days_from_ce`].
#[verifier::external_body]
pub(crate) fn day_number(date: &NaiveDate) -> (days: i32)
    ensures
        days == days_from_ce(*date),
{
    chrono::Datelike::num_days_from_ce(date)
}

} // verus!
