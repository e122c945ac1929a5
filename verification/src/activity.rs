//! Activities and the staged builder that makes them.

use chrono::{NaiveDate, TimeDelta};
use vstd::prelude::*;

verus! {

/// What an [`Activity`] records: its name, the calendar date it took place
/// on, and how long it took. The duration is signed; a negative one records
/// a correction.
pub ghost struct ActivityView {
    pub name: Seq<char>,
    pub date: NaiveDate,
    pub duration: TimeDelta,
}

/// A named span of time on a calendar date. Once built it never changes.
pub struct Activity {
    name: String,
    date: NaiveDate,
    duration: TimeDelta,
}

impl View for Activity {
    type V = ActivityView;

    closed spec fn view(&self) -> ActivityView {
        ActivityView { name: self.name@, date: self.date, duration: self.duration }
    }
}

impl Activity {
    pub fn name(&self) -> (name: &str)
        ensures
            name@ == self@.name,
    {
        self.name.as_str()
    }

    pub fn date(&self) -> (date: NaiveDate)
        ensures
            date == self@.date,
    {
        self.date
    }

    pub fn duration(&self) -> (duration: TimeDelta)
        ensures
            duration == self@.duration,
    {
        self.duration
    }
}

/// The first stage of building an [`Activity`]: nothing is known yet, and
/// only a name can be given.
pub struct ActivityBuilder;

impl ActivityBuilder {
    pub fn name(self, name: String) -> (next: DateActivityBuilder)
        ensures
            next@ == name@,
    {
        DateActivityBuilder { name }
    }
}

/// The second stage: the name is known, and only a date can be given. The
/// view is the name.
pub struct DateActivityBuilder {
    name: String,
}

impl View for DateActivityBuilder {
    type V = Seq<char>;

    closed spec fn view(&self) -> Seq<char> {
        self.name@
    }
}

impl DateActivityBuilder {
    pub fn date(self, date: NaiveDate) -> (next: DurationActivityBuilder)
        ensures
            next@ == (self@, date),
    {
        DurationActivityBuilder { name: self.name, date }
    }
}

/// The last stage: name and date are known, and giving a duration finishes
/// the activity. The view is the name and the date.
pub struct DurationActivityBuilder {
    name: String,
    date: NaiveDate,
}

impl View for DurationActivityBuilder {
    type V = (Seq<char>, NaiveDate);

    closed spec fn view(&self) -> (Seq<char>, NaiveDate) {
        (self.name@, self.date)
    }
}

impl DurationActivityBuilder {
    pub fn duration(self, duration: TimeDelta) -> (activity: Activity)
        ensures
            activity@ == (ActivityView { name: self@.0, date: self@.1, duration }),
    {
        Activity { name: self.name, date: self.date, duration }
    }
}

} // verus!
