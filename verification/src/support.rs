//! Variants of the same scan, kept under one roof: with a sentinel
//! initialisation that tolerates empty input by returning `i64::MIN`, with
//! the first element as initialisation (requiring non-empty input), and
//! with an `Option` result. All agree on the maximum subarray sum.

use vstd::prelude::*;
use crate::sums::{
    valid_range, range_sum, sums_in_bounds, is_max_sum, lemma_range_sum_single,
    lemma_range_sum_extend,
};

verus! {

/// Sentinel variant: scans the whole slice with `best_sum` starting at
/// `i64::MIN` and the running sum starting at zero. Returns `i64::MIN` on
/// empty input, else the maximum subarray sum.
pub fn kadane_00(values: &[i64]) -> (r: i64)
    requires
        sums_in_bounds(values@),
    ensures
        values@.len() == 0 ==> r == i64::MIN,
        values@.len() > 0 ==> is_max_sum(values@, r as int),
{
    kadane_00a(values)
}

/// Sentinel variant written with explicit comparisons in place of a `max`
/// combinator; same contract as [`kadane_00`].
pub fn kadane_00a(values: &[i64]) -> (r: i64)
    requires
        sums_in_bounds(values@),
    ensures
        values@.len() == 0 ==> r == i64::MIN,
        values@.len() > 0 ==> is_max_sum(values@, r as int),
{
    let mut best_sum: i64 = i64::MIN;
    let mut current_sum: i64 = 0;
    let ghost mut cur_start: int = 0;

    let mut k: usize = 0;
    while k < values.len()
        invariant
            sums_in_bounds(values@),
            0 <= k <= values@.len(),
            k == 0 ==> current_sum == 0 && best_sum == i64::MIN,
            k > 0 ==> 0 <= cur_start < k && current_sum == range_sum(
                values@, cur_start, k as int),
            forall|i: int| 0 <= i < k ==> #[trigger] range_sum(values@, i, k as int)
                <= current_sum,
            k > 0 ==> exists|i: int, j: int|
                valid_range(values@, i, j) && j <= k && #[trigger] range_sum(values@, i, j)
                    == best_sum,
            forall|i: int, j: int|
                valid_range(values@, i, j) && j <= k ==> #[trigger] range_sum(values@, i, j)
                    <= best_sum,
        decreases values@.len() - k,
    {
        let ghost s = values@;
        let ghost k0 = k as int;
        let v = values[k];
        proof {
            if k > 0 {
                lemma_range_sum_extend(s, cur_start, k0 + 1);
                assert(valid_range(s, cur_start, k0 + 1));
            }
            lemma_range_sum_single(s, k0);
        }
        let sum2 = current_sum + v;
        if v > sum2 {
            current_sum = v;
            proof {
                cur_start = k0;
            }
        } else {
            current_sum = sum2;
            proof {
                if k == 0 {
                    cur_start = k0;
                }
            }
        }
        proof {
            assert forall|i: int| 0 <= i < k0 + 1 implies #[trigger] range_sum(s, i, k0 + 1)
                <= current_sum by {
                if i < k0 {
                    lemma_range_sum_extend(s, i, k0 + 1);
                }
            }
        }
        if current_sum > best_sum {
            best_sum = current_sum;
        }
        proof {
            assert forall|i: int, j: int|
                valid_range(s, i, j) && j <= k0 + 1 implies #[trigger] range_sum(s, i, j)
                    <= best_sum by {};
        }
        k = k + 1;
    }

    best_sum
}

/// First-element initialisation: the slice must be non-empty, and the
/// result is the maximum subarray sum directly rather than an `Option`.
pub fn kadane_01(values: &[i64]) -> (r: i64)
    requires
        values@.len() > 0,
        sums_in_bounds(values@),
    ensures
        is_max_sum(values@, r as int),
{
    kadane_01a(values)
}

/// First-element initialisation written with explicit comparisons; same
/// contract as [`kadane_01`].
pub fn kadane_01a(values: &[i64]) -> (r: i64)
    requires
        values@.len() > 0,
        sums_in_bounds(values@),
    ensures
        is_max_sum(values@, r as int),
{
    crate::kadane::max_subarray_sum(values).unwrap()
}

/// Variant whose element type combines by value; on `i64` this is the same
/// computation as [`kadane_01`].
pub fn kadane_02(values: &[i64]) -> (r: i64)
    requires
        values@.len() > 0,
        sums_in_bounds(values@),
    ensures
        is_max_sum(values@, r as int),
{
    kadane_01a(values)
}

/// Variant whose element type combines by reference; on `i64` this is the
/// same computation as [`kadane_01`].
pub fn kadane_03(values: &[i64]) -> (r: i64)
    requires
        values@.len() > 0,
        sums_in_bounds(values@),
    ensures
        is_max_sum(values@, r as int),
{
    kadane_01a(values)
}

/// `Option` variant: `None` exactly on empty input, else the maximum
/// subarray sum.
pub fn kadane_04(values: &[i64]) -> (r: Option<i64>)
    requires
        sums_in_bounds(values@),
    ensures
        r is Some <==> values@.len() > 0,
        r is Some ==> is_max_sum(values@, r.unwrap() as int),
{
    crate::kadane::max_subarray_sum(values)
}

} // verus!
