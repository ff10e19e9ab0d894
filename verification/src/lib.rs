//! Maximum-sum contiguous subarray (Kadane's algorithm), verified.
//!
//! Two operations over a slice of `i64` values: [`max_subarray_sum`] returns
//! the largest sum attained by any non-empty contiguous subarray, and
//! [`max_subarray`] returns one subarray attaining that sum. Both return
//! `None` exactly on empty input. The [`sums`] module holds the mathematical
//! model the contracts are stated over; [`support`] holds variants of the
//! same recurrence with different initialisation and result conventions.

pub mod kadane;
pub mod sums;
pub mod support;

use vstd::prelude::*;

verus! {

/// Maximum sum over all non-empty contiguous subarrays of `values`, or
/// `None` when `values` is empty.
pub fn max_subarray_sum(values: &[i64]) -> (r: Option<i64>)
    requires
        sums::sums_in_bounds(values@),
    ensures
        r is Some <==> values@.len() > 0,
        r is Some ==> sums::is_max_sum(values@, r.unwrap() as int),
{
    crate::kadane::max_subarray_sum(values)
}

/// A non-empty contiguous subarray of `values` of maximum sum, or `None`
/// when `values` is empty. Among subarrays of equal maximum sum the one
/// ending earliest is returned, and among those the one starting earliest.
pub fn max_subarray(values: &[i64]) -> (r: Option<&[i64]>)
    requires
        sums::sums_in_bounds(values@),
    ensures
        r is Some <==> values@.len() > 0,
        r is Some ==> exists|a: int, b: int|
            #[trigger] sums::is_best_range(values@, a, b) && r.unwrap()@ == values@.subrange(a, b),
{
    crate::kadane::max_subarray(values)
}

} // verus!
