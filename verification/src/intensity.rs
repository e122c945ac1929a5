//! How much of a day a duration fills.

use vstd::prelude::*;

verus! {

/// The seconds in a calendar day.
pub const SECONDS_PER_DAY: u32 = 86_400;

/// `seconds` limited to the span of one day: nothing below zero, nothing
/// above a full day.
pub open spec fn clamp_to_day(seconds: int) -> int {
    if seconds <= 0 {
        0
    } else if seconds >= 86_400 {
        86_400
    } else {
        seconds
    }
}

/// The fraction of a day that a duration fills, from none of it to all of it.
///
/// The fraction is held exactly, as a count of seconds out of
/// [`SECONDS_PER_DAY`]; the view is that count.
#[derive(Clone, Copy, Debug, PartialEq, Eq, Structural)]
pub struct Intensity {
    seconds: u32,
}

impl View for Intensity {
    type V = int;

    closed spec fn view(&self) -> int {
        self.seconds as int
    }
}

impl Intensity {
    /// No intensity is more than a whole day.
    #[verifier::type_invariant]
    pub open spec fn within_day(self) -> bool {
        0 <= self@ <= 86_400
    }

    /// The intensity of a duration of `seconds` seconds: the duration as a
    /// part of a day, with a negative duration counted as nothing and one
    /// longer than a day as the whole day.
    pub fn from_seconds(seconds: i64) -> (intensity: Intensity)
        ensures
            intensity@ == clamp_to_day(seconds as int),
            0 <= intensity@ <= 86_400,
            seconds <= 0 ==> intensity@ == 0,
            seconds >= 86_400 ==> intensity@ == 86_400,
            0 <= seconds <= 86_400 ==> intensity@ == seconds,
    {
        let clamped: u32 = if seconds <= 0 {
            0
        } else if seconds >= 86_400 {
            SECONDS_PER_DAY
        } else {
            seconds as u32
        };
        Intensity { seconds: clamped }
    }

    /// The seconds of the day that are filled, out of [`SECONDS_PER_DAY`].
    pub fn seconds(&self) -> (seconds: u32)
        ensures
            seconds == self@,
            seconds <= SECONDS_PER_DAY,
    {
        proof {
            use_type_invariant(self);
        }
        self.seconds
    }
}

} // verus!
