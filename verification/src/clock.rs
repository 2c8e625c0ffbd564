//! The source of the current time.

use crate::time::Instant;
use vstd::prelude::*;

verus! {

/// Yields the current instant. Nothing is promised of the instant: those who
/// read a clock deal with whatever it shows.
pub trait Clock {
    fn current_time(&self) -> Instant;
}

} // verus!
