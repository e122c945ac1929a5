//! Sequences of heatmap entries: what it means for them to be ordered by
//! date, and to keep the entries of each day in their order.

use crate::calendar::days_from_ce;
use chrono::NaiveDate;
use vstd::prelude::*;

verus! {

/// What one cell of a heatmap says: a calendar date, and the seconds of that
/// day that one activity filled, between none and all 86 400 of them.
pub ghost struct HeatmapDayView {
    pub date: NaiveDate,
    pub intensity: int,
}

impl HeatmapDayView {
    /// The day number of this entry's date. Entries are ordered by it, so
    /// that an earlier date stands before a later one.
    pub open spec fn day(self) -> int {
        days_from_ce(self.date)
    }
}

/// Whether an entry falls on the day numbered `day`.
pub open spec fn falls_on(day: int) -> spec_fn(HeatmapDayView) -> bool {
    |entry: HeatmapDayView| entry.day() == day
}

/// The entries among `entries` that fall on the day numbered `day`, in the
/// order in which they stand in `entries`.
pub open spec fn entries_on(entries: Seq<HeatmapDayView>, day: int) -> Seq<HeatmapDayView> {
    entries.filter(falls_on(day))
}

/// No entry stands before one of an earlier date.
pub open spec fn ascending_by_date(entries: Seq<HeatmapDayView>) -> bool {
    forall|i: int, j: int|
        0 <= i <= j < entries.len() ==> (#[trigger] entries[i]).day() <= (#[trigger] entries[j]).day()
}

/// Whether `first` and `second` hold, for every day, the same entries of that
/// day in the same order. They may differ only in how entries of different
/// days follow one another.
pub open spec fn same_on_every_day(first: Seq<HeatmapDayView>, second: Seq<HeatmapDayView>) -> bool {
    forall|day: int|
        #![trigger entries_on(first, day)]
        #![trigger entries_on(second, day)]
        entries_on(first, day) == entries_on(second, day)
}

/// Ordering by date leaves no choice: two sequences of equal length that
/// both ascend by date, and that hold the same entries in the same order on
/// every day, are one and the same sequence.
pub proof fn lemma_ascending_with_same_days(first: Seq<HeatmapDayView>, second: Seq<HeatmapDayView>)
    requires
        first.len() == second.len(),
        ascending_by_date(first),
        ascending_by_date(second),
        same_on_every_day(first, second),
    ensures
        first == second,
    decreases first.len(),
{
    if first.len() > 0 {
        let a = first.last();
        let b = second.last();
        let shorter_first = first.drop_last();
        let shorter_second = second.drop_last();
        assert(first =~= shorter_first.push(a));
        assert(second =~= shorter_second.push(b));
        lemma_last_day_occurs(first, second);
        lemma_last_day_occurs(second, first);
        assert forall|day: int|
            entries_on(shorter_first, day) == entries_on(shorter_second, day) by {
            lemma_entries_on_push(shorter_first, a, day);
            lemma_entries_on_push(shorter_second, b, day);
            if a.day() == day {
                let on_first = entries_on(shorter_first, day);
                let on_second = entries_on(shorter_second, day);
                assert(on_first.push(a) == on_second.push(b));
                assert(on_first =~= on_first.push(a).drop_last());
                assert(on_second =~= on_second.push(b).drop_last());
            }
        }
        assert(a == b) by {
            lemma_entries_on_push(shorter_first, a, a.day());
            lemma_entries_on_push(shorter_second, b, a.day());
            assert(entries_on(shorter_first, a.day()).push(a).last() == a);
            assert(entries_on(shorter_second, a.day()).push(b).last() == b);
        }
        lemma_ascending_with_same_days(shorter_first, shorter_second);
    }
}

/// Sequences that hold the same entries on every day hold the same entries:
/// whatever stands in `first` stands in `second` too.
pub proof fn lemma_same_days_same_entries(first: Seq<HeatmapDayView>, second: Seq<HeatmapDayView>)
    requires
        same_on_every_day(first, second),
    ensures
        forall|i: int| 0 <= i < first.len() ==> second.contains(#[trigger] first[i]),
{
    assert forall|i: int| 0 <= i < first.len() implies second.contains(#[trigger] first[i]) by {
        let day = first[i].day();
        first.lemma_filter_contains(falls_on(day), i);
        assert(entries_on(first, day) == entries_on(second, day));
        second.lemma_filter_contains_rev(falls_on(day), first[i]);
    }
}

/// An entry put in front of entries that are all of other days takes the last
/// place among the entries of its own day, and leaves every other day as it
/// was.
pub proof fn lemma_insert_keeps_days(
    source: Seq<HeatmapDayView>,
    shown: Seq<HeatmapDayView>,
    entry: HeatmapDayView,
    at: int,
)
    requires
        same_on_every_day(shown, source),
        0 <= at <= shown.len(),
        forall|j: int| at <= j < shown.len() ==> (#[trigger] shown[j]).day() != entry.day(),
    ensures
        same_on_every_day(shown.insert(at, entry), source.push(entry)),
{
    let head = shown.take(at);
    let tail = shown.skip(at);
    assert(shown =~= head + tail);
    assert forall|day: int|
        entries_on(shown.insert(at, entry), day) == entries_on(source.push(entry), day) by {
        Seq::filter_distributes_over_add(head, tail, falls_on(day));
        Seq::filter_distributes_over_add(head.push(entry), tail, falls_on(day));
        lemma_entries_on_push(head, entry, day);
        lemma_entries_on_push(source, entry, day);
        if entry.day() == day {
            lemma_entries_on_other_days(tail, day);
        }
    }
}

/// Entries that ascend by date still do so after an entry was put behind all
/// that are not of a later day and in front of all that are.
pub proof fn lemma_insert_keeps_ascending(
    shown: Seq<HeatmapDayView>,
    entry: HeatmapDayView,
    at: int,
)
    requires
        ascending_by_date(shown),
        0 <= at <= shown.len(),
        forall|k: int| 0 <= k < at ==> (#[trigger] shown[k]).day() <= entry.day(),
        forall|k: int| at <= k < shown.len() ==> (#[trigger] shown[k]).day() > entry.day(),
    ensures
        ascending_by_date(shown.insert(at, entry)),
{
    let after = shown.insert(at, entry);
    assert forall|i: int, j: int| 0 <= i <= j < after.len() implies (#[trigger] after[i]).day() <= (
    #[trigger] after[j]).day() by {
        assert(after[i] == if i < at {
            shown[i]
        } else if i == at {
            entry
        } else {
            shown[i - 1]
        });
        assert(after[j] == if j < at {
            shown[j]
        } else if j == at {
            entry
        } else {
            shown[j - 1]
        });
    }
}

/// The entries of one day after one more entry was put at the end.
proof fn lemma_entries_on_push(entries: Seq<HeatmapDayView>, entry: HeatmapDayView, day: int)
    ensures
        entries_on(entries.push(entry), day) == if entry.day() == day {
            entries_on(entries, day).push(entry)
        } else {
            entries_on(entries, day)
        },
{
    reveal(Seq::filter);
    assert(entries.push(entry).drop_last() =~= entries);
}

/// Among entries of other days there is none of the day numbered `day`.
proof fn lemma_entries_on_other_days(entries: Seq<HeatmapDayView>, day: int)
    requires
        forall|i: int| 0 <= i < entries.len() ==> (#[trigger] entries[i]).day() != day,
    ensures
        entries_on(entries, day) == Seq::<HeatmapDayView>::empty(),
    decreases entries.len(),
{
    reveal(Seq::filter);
    if entries.len() > 0 {
        lemma_entries_on_other_days(entries.drop_last(), day);
    }
}

/// The day of the last of `entries` is no later than the day of the last of
/// `others`, where `others` ascend by date and hold the same entries on every
/// day.
proof fn lemma_last_day_occurs(entries: Seq<HeatmapDayView>, others: Seq<HeatmapDayView>)
    requires
        entries.len() > 0,
        others.len() > 0,
        ascending_by_date(others),
        same_on_every_day(entries, others),
    ensures
        entries.last().day() <= others.last().day(),
{
    let day = entries.last().day();
    lemma_entries_on_push(entries.drop_last(), entries.last(), day);
    assert(entries =~= entries.drop_last().push(entries.last()));
    let on_others = entries_on(others, day);
    let found = on_others.last();
    assert(on_others.contains(found));
    others.lemma_filter_contains_rev(falls_on(day), found);
    let at = choose|at: int| 0 <= at < others.len() && others[at] == found;
    assert(others[at].day() <= others.last().day());
}

} // verus!
