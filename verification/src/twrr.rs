//! Validation of the inputs to the time-weighted rate of return.
//!
//! The metric reduces three parallel per-period sequences — ending values,
//! beginning values, and cash flows received — to one compounded rate.  The
//! reduction is only defined when the three sequences describe the same
//! periods: all lengths equal, and at least one period present (an empty
//! history has no compounded rate).  The caller performs the floating-point
//! chain only after this validation accepts the lengths.

use vstd::prelude::*;

verus! {

/// Holds when three period sequences of the given lengths admit a
/// time-weighted rate of return: one common length, and at least one
/// period.
pub open spec fn twrr_inputs_accepted(n_end: int, n_begin: int, n_flows: int) -> bool {
    n_end == n_begin && n_begin == n_flows && n_end > 0
}

/// Decides whether sequences of the given lengths admit a time-weighted
/// rate of return.
pub fn check_twrr_inputs(n_end: usize, n_begin: usize, n_flows: usize) -> (ok: bool)
    ensures
        ok == twrr_inputs_accepted(n_end as int, n_begin as int, n_flows as int),
{
    n_end == n_begin && n_begin == n_flows && n_end > 0
}

/// Whenever the three sequences disagree on their lengths — whichever pair
/// disagrees — the validation rejects them, so no rate is produced.
pub proof fn lemma_mismatched_lengths_rejected(n_end: int, n_begin: int, n_flows: int)
    requires
        n_end != n_begin || n_begin != n_flows,
    ensures
        !twrr_inputs_accepted(n_end, n_begin, n_flows),
{
}

} // verus!
