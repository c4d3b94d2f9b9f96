//! The sequential pass over the subintervals.
//!
//! An estimate is built by visiting the indices `0, 1, .., n - 1` once each,
//! in ascending order, and handing the running total from one index to the
//! next. The arithmetic of a single step belongs to the caller; the order and
//! the number of the steps are fixed here.

use vstd::prelude::*;
use crate::steps::StepCount;

verus! {

/// `totals` records a pass over the indices `0, 1, .., done - 1`: it starts
/// with `init`, and each later entry is a result of `step` applied to the
/// entry before it and to that entry's index.
pub open spec fn is_trace<T, F: Fn(T, u32) -> T>(
    step: F,
    init: T,
    done: nat,
    totals: Seq<T>,
) -> bool {
    &&& totals.len() == done + 1
    &&& totals[0] == init
    &&& forall|i: int|
        0 <= i < done ==> step.ensures((#[trigger] totals[i], i as u32), totals[i + 1])
}

/// `out` is a total that `step` can reach from `init` by taking the indices
/// `0, 1, .., done - 1` in ascending order, each exactly once.
pub open spec fn folds_to<T, F: Fn(T, u32) -> T>(step: F, init: T, done: nat, out: T) -> bool {
    exists|totals: Seq<T>| #[trigger] is_trace(step, init, done, totals) && totals[done as int] == out
}

/// Runs `step` over every index below the count, in ascending order, starting
/// from `init` and threading the running total through.
///
/// `step` has to accept each index together with any total that the indices
/// before it can have produced; nothing else is asked of it.
pub fn accumulate<T, F: Fn(T, u32) -> T>(steps: StepCount, init: T, step: F) -> (total: T)
    requires
        forall|done: u32, so_far: T|
            done < steps@ && #[trigger] folds_to(step, init, done as nat, so_far)
                ==> step.requires((so_far, done)),
    ensures
        folds_to(step, init, steps@, total),
{
    let n: u32 = steps.get();
    let mut total = init;
    let mut done: u32 = 0;
    let ghost mut totals: Seq<T> = seq![init];
    while done < n
        invariant
            done <= n,
            n == steps@,
            is_trace(step, init, done as nat, totals),
            totals[done as int] == total,
            forall|done: u32, so_far: T|
                done < steps@ && #[trigger] folds_to(step, init, done as nat, so_far)
                    ==> step.requires((so_far, done)),
        decreases n - done,
    {
        assert(folds_to(step, init, done as nat, total));
        total = step(total, done);
        proof {
            totals = totals.push(total);
        }
        done = done + 1;
    }
    total
}

/// Walks a recorded pass from its start: a predicate that holds of the first
/// entry and that every step carries forward holds of the entry at `upto`.
proof fn lemma_trace_invariant<T, F: Fn(T, u32) -> T>(
    step: F,
    init: T,
    done: nat,
    totals: Seq<T>,
    holds: spec_fn(nat, T) -> bool,
    upto: nat,
)
    requires
        done <= u32::MAX,
        upto <= done,
        is_trace(step, init, done, totals),
        holds(0, init),
        forall|i: u32, so_far: T, next: T|
            i < done && holds(i as nat, so_far) && #[trigger] step.ensures((so_far, i), next)
                ==> holds((i + 1) as nat, next),
    ensures
        holds(upto, totals[upto as int]),
    decreases upto,
{
    if upto > 0 {
        lemma_trace_invariant(step, init, done, totals, holds, (upto - 1) as nat);
    }
}

/// Induction over the pass: a predicate that holds of the starting total and
/// that every step carries from one index to the next holds of every total
/// the pass can end with.
pub proof fn lemma_fold_invariant<T, F: Fn(T, u32) -> T>(
    step: F,
    init: T,
    done: nat,
    out: T,
    holds: spec_fn(nat, T) -> bool,
)
    requires
        done <= u32::MAX,
        folds_to(step, init, done, out),
        holds(0, init),
        forall|i: u32, so_far: T, next: T|
            i < done && holds(i as nat, so_far) && #[trigger] step.ensures((so_far, i), next)
                ==> holds((i + 1) as nat, next),
    ensures
        holds(done, out),
{
    let totals = choose|totals: Seq<T>|
        #[trigger] is_trace(step, init, done, totals) && totals[done as int] == out;
    lemma_trace_invariant(step, init, done, totals, holds, done);
}

/// Two recorded passes of a step with only one possible result agree entry by
/// entry.
proof fn lemma_traces_agree<T, F: Fn(T, u32) -> T>(
    step: F,
    init: T,
    done: nat,
    first: Seq<T>,
    second: Seq<T>,
    upto: nat,
)
    requires
        done <= u32::MAX,
        upto <= done,
        is_trace(step, init, done, first),
        is_trace(step, init, done, second),
        forall|i: u32, so_far: T, a: T, b: T|
            i < done && #[trigger] step.ensures((so_far, i), a) && #[trigger] step.ensures(
                (so_far, i),
                b,
            ) ==> a == b,
    ensures
        first[upto as int] == second[upto as int],
    decreases upto,
{
    if upto > 0 {
        lemma_traces_agree(step, init, done, first, second, (upto - 1) as nat);
    }
}

/// A pass whose every step has only one possible result has only one possible
/// total: running it again from the same start over the same count gives the
/// same value.
pub proof fn lemma_total_is_determined<T, F: Fn(T, u32) -> T>(
    step: F,
    init: T,
    done: nat,
    first: T,
    second: T,
)
    requires
        done <= u32::MAX,
        folds_to(step, init, done, first),
        folds_to(step, init, done, second),
        forall|i: u32, so_far: T, a: T, b: T|
            i < done && #[trigger] step.ensures((so_far, i), a) && #[trigger] step.ensures(
                (so_far, i),
                b,
            ) ==> a == b,
    ensures
        first == second,
{
    let a = choose|totals: Seq<T>|
        #[trigger] is_trace(step, init, done, totals) && totals[done as int] == first;
    let b = choose|totals: Seq<T>|
        #[trigger] is_trace(step, init, done, totals) && totals[done as int] == second;
    lemma_traces_agree(step, init, done, a, b, done);
}

} // verus!
