//! The number of subintervals the unit interval is cut into.

use vstd::prelude::*;
use crate::error::EstimateError;

verus! {

/// The number of subintervals used when none is asked for.
pub const DEFAULT_STEPS: u32 = 100_000_000;

/// A count of subintervals: an integer that is at least one.
///
/// The count is fixed when the value is made; every index `i` of a
/// subinterval satisfies `0 <= i < count`.
#[derive(Clone, Copy, Debug, PartialEq, Eq)]
pub struct StepCount {
    n: u32,
}

impl View for StepCount {
    type V = nat;

    /// The count as a natural number.
    closed spec fn view(&self) -> nat {
        self.n as nat
    }
}

impl StepCount {
    #[verifier::type_invariant]
    spec fn positive(self) -> bool {
        self.n >= 1
    }

    /// Accepts `n` as a count of subintervals when it is at least one, and
    /// refuses zero, so that a step width of `1 / n` is always defined.
    pub fn new(n: u32) -> (made: Result<StepCount, EstimateError>)
        ensures
            match made {
                Ok(steps) => n >= 1 && steps@ == n,
                Err(why) => n == 0 && why == EstimateError::InvalidArgument,
            },
    {
        if n == 0 {
            Err(EstimateError::InvalidArgument)
        } else {
            Ok(StepCount { n })
        }
    }

    /// The count as a machine integer.
    pub fn get(&self) -> (n: u32)
        ensures
            n == self@,
            n >= 1,
    {
        proof {
            use_type_invariant(self);
        }
        self.n
    }
}

} // verus!
