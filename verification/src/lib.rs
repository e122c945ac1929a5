//! Calendar heatmaps of logged activities.
//!
//! An [`Activity`] is a named span of time on a calendar date. A
//! [`heatmap::Heatmap`] collects activities and projects them into one
//! intensity per activity, ordered by date.

pub mod activity;
pub mod calendar;
pub mod entries;
pub mod heatmap;
pub mod intensity;
pub mod visualizer;

pub use activity::{
    Activity, ActivityBuilder, ActivityView, DateActivityBuilder, DurationActivityBuilder,
};
pub use intensity::Intensity;
pub use visualizer::DataVisualizer;
