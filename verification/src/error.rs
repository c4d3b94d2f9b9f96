//! The one way an estimate can be refused.

use vstd::prelude::*;

verus! {

/// Why a request for an estimate was turned down.
#[derive(Clone, Copy, Debug, PartialEq, Eq, Structural)]
pub enum EstimateError {
    /// The number of subintervals was not at least one.
    InvalidArgument,
}

impl EstimateError {
    /// The text shown to a user for this error: it names the parameter and
    /// the constraint it broke.
    pub open spec fn message_text(self) -> Seq<char> {
        match self {
            EstimateError::InvalidArgument => "invalid argument: n must be >= 1"@,
        }
    }

    /// Renders the error for display.
    pub fn message(&self) -> (text: String)
        ensures
            text@ == self.message_text(),
    {
        match self {
            EstimateError::InvalidArgument => "invalid argument: n must be >= 1".to_owned(),
        }
    }
}

} // verus!
