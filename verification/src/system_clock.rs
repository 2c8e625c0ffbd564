//! The wall clock.

use crate::clock::Clock;
use crate::time::Instant;
use vstd::prelude::*;

verus! {

/// The clock of the system.
pub struct SystemClock {}

impl SystemClock {
    pub fn new() -> (clock: SystemClock) {
        SystemClock {  }
    }
}

impl Clock for SystemClock {
    fn current_time(&self) -> Instant {
        Instant::now()
    }
}

} // verus!
