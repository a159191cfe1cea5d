//! The fixed windows a DAO can be configured with.

use vstd::prelude::*;
use crate::constants::{ONE_DAY_IN_SECONDS, TWO_DAY_IN_SECONDS, ONE_WEEK_IN_SECONDS};

verus! {

/// A lock or voting window.
#[derive(Debug, Clone, Copy, PartialEq, Eq, Structural)]
pub enum Time {
    /// Five seconds: for accelerated testing only.
    FiveSeconds,
    TwentyFourHours,
    FourtyEightHours,
    OneWeek,
}

impl Time {
    /// The window's length in seconds.
    pub open spec fn seconds(self) -> int {
        match self {
            Time::FiveSeconds => 5,
            Time::TwentyFourHours => 86400,
            Time::FourtyEightHours => 172800,
            Time::OneWeek => 604800,
        }
    }

    /// Whether the window may be used outside of tests.
    pub open spec fn for_production(self) -> bool {
        self != Time::FiveSeconds
    }

    pub fn value(&self) -> (secs: i64)
        ensures
            secs == self.seconds(),
            secs > 0,
    {
        match *self {
            Time::FiveSeconds => 5,
            Time::TwentyFourHours => ONE_DAY_IN_SECONDS,
            Time::FourtyEightHours => TWO_DAY_IN_SECONDS,
            Time::OneWeek => ONE_WEEK_IN_SECONDS,
        }
    }

    /// Tells the testing-only window from the others.
    pub fn is_production(&self) -> (ok: bool)
        ensures
            ok == self.for_production(),
    {
        match *self {
            Time::FiveSeconds => false,
            _ => true,
        }
    }
}

} // verus!
