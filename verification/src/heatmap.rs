//! The calendar heatmap: one entry per activity, ordered by date.

use crate::activity::{Activity, ActivityView};
use crate::calendar::{day_number, whole_seconds};
use crate::entries::{
    ascending_by_date, entries_on, lemma_ascending_with_same_days,
    lemma_insert_keeps_ascending, lemma_insert_keeps_days, lemma_same_days_same_entries,
    same_on_every_day, HeatmapDayView,
};
use crate::intensity::{clamp_to_day, Intensity};
use crate::visualizer::DataVisualizer;
use chrono::NaiveDate;
use vstd::prelude::*;

verus! {

/// The entry that one activity gives: its own date, and its duration as a
/// part of the day. Only the whole seconds of the duration count.
pub open spec fn entry_of(activity: ActivityView) -> HeatmapDayView {
    HeatmapDayView {
        date: activity.date,
        intensity: clamp_to_day(whole_seconds(activity.duration)),
    }
}

/// One entry for each of `activities`, in their order. Activities on one date
/// are not summed: each keeps an entry of its own.
pub open spec fn entries_of(activities: Seq<ActivityView>) -> Seq<HeatmapDayView> {
    activities.map_values(|activity: ActivityView| entry_of(activity))
}

/// Whether `entries` is the heatmap of `activities`: one entry for each
/// activity, the entries ascending by date, and the entries of one date in
/// the order in which their activities were added.
pub open spec fn is_heatmap_of(
    activities: Seq<ActivityView>,
    entries: Seq<HeatmapDayView>,
) -> bool {
    &&& entries.len() == activities.len()
    &&& ascending_by_date(entries)
    &&& same_on_every_day(entries, entries_of(activities))
}

/// What each of `activities` records.
pub open spec fn activity_views(activities: Seq<Activity>) -> Seq<ActivityView> {
    activities.map_values(|activity: Activity| activity@)
}

/// What each of `days` says.
pub open spec fn day_views(days: Seq<HeatmapDay>) -> Seq<HeatmapDayView> {
    days.map_values(|day: HeatmapDay| day@)
}

/// One cell of a heatmap: a date and the intensity of one activity on it.
pub struct HeatmapDay {
    date: NaiveDate,
    intensity: Intensity,
}

impl View for HeatmapDay {
    type V = HeatmapDayView;

    closed spec fn view(&self) -> HeatmapDayView {
        HeatmapDayView { date: self.date, intensity: self.intensity@ }
    }
}

impl HeatmapDay {
    pub fn date(&self) -> (date: NaiveDate)
        ensures
            date == self@.date,
    {
        self.date
    }

    pub fn intensity(&self) -> (intensity: Intensity)
        ensures
            intensity@ == self@.intensity,
            0 <= intensity@ <= 86_400,
    {
        proof {
            use_type_invariant(&self.intensity);
        }
        self.intensity
    }
}

/// A heatmap as it was when it was asked for. It owns its entries, and no
/// later change to the [`Heatmap`] that made it reaches it. The view is what
/// its entries say, in order.
pub struct HeatmapVisualized {
    dates: Vec<HeatmapDay>,
}

impl View for HeatmapVisualized {
    type V = Seq<HeatmapDayView>;

    closed spec fn view(&self) -> Seq<HeatmapDayView> {
        day_views(self.dates@)
    }
}

impl HeatmapVisualized {
    /// The entries, ascending by date.
    pub fn dates(&self) -> (days: &[HeatmapDay])
        ensures
            day_views(days@) == self@,
    {
        self.dates.as_slice()
    }
}

/// Collects activities and shows them as a calendar heatmap. The view is
/// what the activities added so far record, in the order in which they were
/// added.
pub struct Heatmap {
    activities: Vec<Activity>,
}

impl View for Heatmap {
    type V = Seq<ActivityView>;

    closed spec fn view(&self) -> Seq<ActivityView> {
        activity_views(self.activities@)
    }
}

impl Default for Heatmap {
    /// A heatmap without activities.
    fn default() -> (heatmap: Heatmap)
        ensures
            heatmap@ == Seq::<ActivityView>::empty(),
    {
        Heatmap { activities: Vec::new() }
    }
}

/// Where an entry of the day numbered `day` goes among entries whose day
/// numbers are `days`: directly behind the last entry that is not of a later
/// day, and at the front if there is none.
pub fn insertion_point(days: &[i32], day: i32) -> (at: usize)
    ensures
        at <= days@.len(),
        forall|i: int| at <= i < days@.len() ==> days@[i] > day,
        at > 0 ==> days@[at - 1] <= day,
{
    let mut at: usize = days.len();
    while at > 0 && days[at - 1] > day
        invariant
            at <= days@.len(),
            forall|i: int| at <= i < days@.len() ==> days@[i] > day,
        decreases at,
    {
        at -= 1;
    }
    at
}

impl DataVisualizer for Heatmap {
    type Visualized = HeatmapVisualized;

    open spec fn activities(&self) -> Seq<ActivityView> {
        self@
    }

    open spec fn shows(activities: Seq<ActivityView>, shown: &HeatmapVisualized) -> bool {
        is_heatmap_of(activities, shown@)
    }

    fn add_activity(&mut self, activity: Activity)
        ensures
            final(self)@ == old(self)@.push(activity@),
    {
        self.activities.push(activity);
        assert(activity_views(old(self).activities@.push(activity)) =~= activity_views(
            old(self).activities@,
        ).push(activity@));
    }

    fn visualize(&self) -> (shown: HeatmapVisualized)
        ensures
            is_heatmap_of(self@, shown@),
            shown@.len() == self@.len(),
            ascending_by_date(shown@),
            same_on_every_day(shown@, entries_of(self@)),
            self@.len() == 0 ==> shown@ == Seq::<HeatmapDayView>::empty(),
    {
        let mut dates: Vec<HeatmapDay> = Vec::new();
        // The day number of each entry of `dates`, so that the calendar is
        // asked once for each activity.
        let mut numbers: Vec<i32> = Vec::new();
        let count: usize = self.activities.len();
        let mut done: usize = 0;
        proof {
            assert(entries_of(self@.take(0)) =~= day_views(dates@));
        }
        while done < count
            invariant
                count == self.activities@.len(),
                done <= count,
                dates@.len() == done,
                numbers@.len() == done,
                forall|i: int| 0 <= i < done ==> numbers@[i] == (#[trigger] dates@[i])@.day(),
                ascending_by_date(day_views(dates@)),
                same_on_every_day(day_views(dates@), entries_of(self@.take(done as int))),
            decreases count - done,
        {
            let activity = &self.activities[done];
            let day = HeatmapDay {
                date: activity.date(),
                intensity: Intensity::from_seconds(activity.duration().num_seconds()),
            };
            let number = day_number(&day.date);
            let at = insertion_point(numbers.as_slice(), number);
            proof {
                let before = day_views(dates@);
                let source = entries_of(self@.take(done as int));
                assert forall|k: int| 0 <= k < before.len() implies if k < at {
                    (#[trigger] before[k]).day() <= day@.day()
                } else {
                    before[k].day() > day@.day()
                } by {
                    if k < at {
                        assert(before[k].day() <= before[at - 1].day());
                    }
                }
                lemma_insert_keeps_days(source, before, day@, at as int);
                lemma_insert_keeps_ascending(before, day@, at as int);
                assert(day_views(dates@.insert(at as int, day)) =~= before.insert(at as int, day@));
                assert(entries_of(self@.take(done + 1)) =~= source.push(day@));
            }
            numbers.insert(at, number);
            dates.insert(at, day);
            done += 1;
        }
        proof {
            assert(self@.take(done as int) =~= self@);
        }
        HeatmapVisualized { dates }
    }
}

/// A heatmap holds the activities' entries and nothing else: each of its
/// entries is the entry of one of the activities, each activity's entry is
/// among them, and so every intensity lies between nothing and a whole day.
pub proof fn lemma_heatmap_holds_the_activities(
    activities: Seq<ActivityView>,
    entries: Seq<HeatmapDayView>,
)
    requires
        is_heatmap_of(activities, entries),
    ensures
        forall|i: int|
            0 <= i < entries.len() ==> entries_of(activities).contains(#[trigger] entries[i]),
        forall|j: int|
            0 <= j < activities.len() ==> entries.contains(entry_of(#[trigger] activities[j])),
        forall|i: int| 0 <= i < entries.len() ==> 0 <= (#[trigger] entries[i]).intensity <= 86_400,
{
    let source = entries_of(activities);
    lemma_same_days_same_entries(entries, source);
    lemma_same_days_same_entries(source, entries);
    assert forall|i: int| 0 <= i < entries.len() implies 0 <= (#[trigger] entries[i]).intensity
        <= 86_400 by {
        assert(source.contains(entries[i]));
        let j = choose|j: int| 0 <= j < source.len() && source[j] == entries[i];
        assert(entries[i] == entry_of(activities[j]));
    }
    assert forall|j: int| 0 <= j < activities.len() implies entries.contains(
        entry_of(#[trigger] activities[j]),
    ) by {
        assert(source[j] == entry_of(activities[j]));
    }
}

/// Asking twice shows the same: whatever two heatmaps [`Heatmap::visualize`]
/// returns for one and the same state of `heatmap`, their entries are equal,
/// one by one.
pub proof fn lemma_visualize_repeats(
    heatmap: Heatmap,
    first: HeatmapVisualized,
    second: HeatmapVisualized,
)
    requires
        is_heatmap_of(heatmap@, first@),
        is_heatmap_of(heatmap@, second@),
    ensures
        first@ == second@,
{
    lemma_heatmap_is_unique(heatmap@, first@, second@);
}

/// Activities have one heatmap only: being ascending by date and keeping
/// each day's entries in the order of the activities leaves no choice.
pub proof fn lemma_heatmap_is_unique(
    activities: Seq<ActivityView>,
    first: Seq<HeatmapDayView>,
    second: Seq<HeatmapDayView>,
)
    requires
        is_heatmap_of(activities, first),
        is_heatmap_of(activities, second),
    ensures
        first == second,
{
    assert forall|day: int| entries_on(first, day) == entries_on(second, day) by {
        assert(entries_on(first, day) == entries_on(entries_of(activities), day));
        assert(entries_on(second, day) == entries_on(entries_of(activities), day));
    }
    lemma_ascending_with_same_days(first, second);
}

} // verus!
