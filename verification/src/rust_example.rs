//! The function offered to a host scripting environment as `square`.

use vstd::prelude::*;

verus! {

/// Returns the sum of its two arguments.
///
/// The sum has to fit in a `usize`; a caller that cannot know this tests it
/// before the call.
pub fn square(a: usize, b: usize) -> (sum: usize)
    requires
        a + b <= usize::MAX,
    ensures
        sum == a + b,
{
    a + b
}

} // verus!
