//! Kadane's linear scan for the maximum-sum contiguous subarray.
//!
//! One pass, O(1) auxiliary space. `current_sum` is the best sum of a
//! subarray ending exactly at the scan position and is restarted at the
//! current element whenever that element alone beats the extended sum;
//! `best_sum` is the best `current_sum` seen so far. Both comparisons are
//! strict, so among equal-sum subarrays the earliest-ending and then
//! earliest-starting one wins.

use vstd::prelude::*;
use vstd::slice::slice_subrange;
use crate::sums::{
    valid_range, range_sum, sums_in_bounds, is_max_sum, is_best_range, lemma_range_sum_single,
    lemma_range_sum_extend,
};

verus! {

/// Maximum sum over all non-empty contiguous subarrays of `values`, or
/// `None` when `values` is empty.
pub fn max_subarray_sum(values: &[i64]) -> (r: Option<i64>)
    requires
        sums_in_bounds(values@),
    ensures
        r is Some <==> values@.len() > 0,
        r is Some ==> is_max_sum(values@, r.unwrap() as int),
{
    if values.is_empty() {
        return None;
    }

    let mut best_sum: i64 = values[0];
    let mut current_sum: i64 = values[0];
    let ghost mut cur_start: int = 0;
    proof {
        lemma_range_sum_single(values@, 0);
    }

    let mut k: usize = 1;
    while k < values.len()
        invariant
            sums_in_bounds(values@),
            1 <= k <= values@.len(),
            0 <= cur_start < k,
            current_sum == range_sum(values@, cur_start, k as int),
            forall|i: int| 0 <= i < k ==> #[trigger] range_sum(values@, i, k as int)
                <= current_sum,
            exists|i: int, j: int|
                valid_range(values@, i, j) && j <= k && #[trigger] range_sum(values@, i, j)
                    == best_sum,
            forall|i: int, j: int|
                valid_range(values@, i, j) && j <= k ==> #[trigger] range_sum(values@, i, j)
                    <= best_sum,
        decreases values@.len() - k,
    {
        let ghost s = values@;
        let ghost k0 = k as int;
        let v = values[k];
        proof {
            lemma_range_sum_extend(s, cur_start, k0 + 1);
            assert(valid_range(s, cur_start, k0 + 1));
            lemma_range_sum_single(s, k0);
        }
        let sum2 = current_sum + v;
        if v > sum2 {
            current_sum = v;
            proof {
                cur_start = k0;
            }
        } else {
            current_sum = sum2;
        }
        proof {
            assert forall|i: int| 0 <= i < k0 + 1 implies #[trigger] range_sum(s, i, k0 + 1)
                <= current_sum by {
                if i < k0 {
                    lemma_range_sum_extend(s, i, k0 + 1);
                }
            }
        }
        if current_sum > best_sum {
            best_sum = current_sum;
        }
        proof {
            assert forall|i: int, j: int|
                valid_range(s, i, j) && j <= k0 + 1 implies #[trigger] range_sum(s, i, j)
                    <= best_sum by {};
        }
        k = k + 1;
    }

    Some(best_sum)
}

/// A non-empty contiguous subarray of `values` of maximum sum, or `None`
/// when `values` is empty. Among subarrays of equal maximum sum the one
/// ending earliest is returned, and among those the one starting earliest.
pub fn max_subarray(values: &[i64]) -> (r: Option<&[i64]>)
    requires
        sums_in_bounds(values@),
    ensures
        r is Some <==> values@.len() > 0,
        r is Some ==> exists|a: int, b: int|
            #[trigger] is_best_range(values@, a, b) && r.unwrap()@ == values@.subrange(a, b),
{
    if values.is_empty() {
        return None;
    }

    let mut best_sum: i64 = values[0];
    let mut current_sum: i64 = values[0];
    let mut best_first: usize = 0;
    let mut best_last: usize = 1;
    let mut current_first: usize = 0;
    proof {
        lemma_range_sum_single(values@, 0);
    }

    let mut k: usize = 1;
    while k < values.len()
        invariant
            sums_in_bounds(values@),
            1 <= k <= values@.len(),
            0 <= current_first < k,
            current_sum == range_sum(values@, current_first as int, k as int),
            forall|i: int| 0 <= i < k ==> #[trigger] range_sum(values@, i, k as int)
                <= current_sum,
            forall|i: int| 0 <= i < current_first ==> #[trigger] range_sum(values@, i, k as int)
                < current_sum,
            0 <= best_first < best_last <= k,
            best_sum == range_sum(values@, best_first as int, best_last as int),
            forall|i: int, j: int|
                valid_range(values@, i, j) && j <= k ==> #[trigger] range_sum(values@, i, j)
                    <= best_sum,
            forall|i: int, j: int|
                valid_range(values@, i, j) && j < best_last ==> #[trigger] range_sum(values@, i, j)
                    < best_sum,
            forall|i: int| 0 <= i < best_first ==> #[trigger] range_sum(
                values@, i, best_last as int) < best_sum,
        decreases values@.len() - k,
    {
        let ghost s = values@;
        let ghost k0 = k as int;
        let v = values[k];
        proof {
            lemma_range_sum_extend(s, current_first as int, k0 + 1);
            assert(valid_range(s, current_first as int, k0 + 1));
            lemma_range_sum_single(s, k0);
        }
        let sum2 = current_sum + v;
        if v > sum2 {
            current_sum = v;
            current_first = k;
        } else {
            current_sum = sum2;
        }
        proof {
            assert forall|i: int| 0 <= i < k0 + 1 implies #[trigger] range_sum(s, i, k0 + 1)
                <= current_sum by {
                if i < k0 {
                    lemma_range_sum_extend(s, i, k0 + 1);
                }
            }
            assert forall|i: int| 0 <= i < current_first implies #[trigger] range_sum(
                s, i, k0 + 1) < current_sum by {
                lemma_range_sum_extend(s, i, k0 + 1);
            }
        }
        if current_sum > best_sum {
            best_sum = current_sum;
            best_first = current_first;
            best_last = k + 1;
        }
        proof {
            assert forall|i: int, j: int|
                valid_range(s, i, j) && j <= k0 + 1 implies #[trigger] range_sum(s, i, j)
                    <= best_sum by {};
        }
        k = k + 1;
    }

    proof {
        assert(is_best_range(values@, best_first as int, best_last as int));
    }
    Some(slice_subrange(values, best_first, best_last))
}

} // verus!
