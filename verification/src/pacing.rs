//! Pacing of sampling against block production.
//!
//! Sampling lags the arrival of each block by a configured delay. The
//! gate turns the time already spent since the block arrived and the
//! configured delay into the remaining wait, never a negative one.

use vstd::prelude::*;

verus! {

/// An optional pacing delay, in milliseconds.
#[derive(Clone, Copy, PartialEq, Eq, Structural, Debug)]
pub struct Delay(pub Option<u64>);

impl Delay {
    /// How much longer to wait before sampling a block, given how many
    /// milliseconds have already elapsed since the block arrived.
    ///
    /// The wait closes the gap between the elapsed time and the
    /// configured delay exactly; a block whose delay has already
    /// elapsed, or a gate with no configured delay, waits nothing.
    pub fn sleep_duration(&self, elapsed_ms: u64) -> (r: Option<u64>)
        ensures
            match (self.0, r) {
                (Some(d), Some(w)) => elapsed_ms < d && elapsed_ms + w == d,
                (Some(d), None) => elapsed_ms >= d,
                (None, Some(_)) => false,
                (None, None) => true,
            },
    {
        match self.0 {
            Some(d) => if elapsed_ms < d {
                Some(d - elapsed_ms)
            } else {
                None
            },
            None => None,
        }
    }
}

} // verus!
