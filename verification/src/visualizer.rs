//! What every visualizer of activities offers.

use crate::activity::{Activity, ActivityView};
use vstd::prelude::*;

verus! {

/// Something that collects activities and shows them in a form of its own.
pub trait DataVisualizer {
    /// What this visualizer shows.
    type Visualized;

    /// The activities added so far, in the order in which they were added.
    spec fn activities(&self) -> Seq<ActivityView>;

    /// Whether `shown` is what this kind of visualizer shows of
    /// `activities`.
    spec fn shows(activities: Seq<ActivityView>, shown: &Self::Visualized) -> bool;

    /// Takes `activity` in, behind all that were added before.
    fn add_activity(&mut self, activity: Activity)
        ensures
            final(self).activities() == old(self).activities().push(activity@),
    ;

    /// Shows the activities added so far. Nothing is changed by it, and
    /// there need not be any activity.
    fn visualize(&self) -> (shown: Self::Visualized)
        ensures
            Self::shows(self.activities(), &shown),
    ;
}

} // verus!
