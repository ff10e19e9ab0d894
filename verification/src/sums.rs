//! Mathematical model of contiguous-subarray sums.
//!
//! A subarray is named by a half-open index range `[i, j)` with
//! `0 <= i < j <= len`; its sum is [`range_sum`]. [`is_max_sum`] says that a
//! value is the maximum such sum, and [`is_best_range`] singles out the one
//! range the library returns: the maximum-sum range with the smallest end
//! index, and among those the smallest start index.

use vstd::prelude::*;

verus! {

/// `[i, j)` names a non-empty contiguous subarray of `s`.
pub open spec fn valid_range(s: Seq<i64>, i: int, j: int) -> bool {
    0 <= i < j <= s.len()
}

/// Sum of the elements of `s` at positions `i..j`.
pub open spec fn range_sum(s: Seq<i64>, i: int, j: int) -> int
    decreases j - i,
{
    if i >= j {
        0
    } else {
        range_sum(s, i, j - 1) + s[j - 1]
    }
}

/// Every contiguous subarray of `s` has a sum representable as `i64`.
/// This is the machine-arithmetic precondition of the algorithms; overflow
/// behaviour is otherwise not part of the contract.
pub open spec fn sums_in_bounds(s: Seq<i64>) -> bool {
    forall|i: int, j: int|
        valid_range(s, i, j) ==> i64::MIN <= #[trigger] range_sum(s, i, j) <= i64::MAX
}

/// `m` is the maximum sum over all non-empty contiguous subarrays of `s`:
/// some subarray attains it and no subarray exceeds it.
pub open spec fn is_max_sum(s: Seq<i64>, m: int) -> bool {
    &&& exists|i: int, j: int| valid_range(s, i, j) && #[trigger] range_sum(s, i, j) == m
    &&& forall|i: int, j: int| valid_range(s, i, j) ==> #[trigger] range_sum(s, i, j) <= m
}

/// `[a, b)` is the range the library returns: it attains the maximum
/// subarray sum, every range ending before `b` falls strictly short of that
/// sum, and so does every range `[i, b)` starting before `a`. These three
/// clauses determine `a` and `b` uniquely ([`lemma_best_range_unique`]).
pub open spec fn is_best_range(s: Seq<i64>, a: int, b: int) -> bool {
    &&& valid_range(s, a, b)
    &&& is_max_sum(s, range_sum(s, a, b))
    &&& forall|i: int, j: int|
        valid_range(s, i, j) && j < b ==> #[trigger] range_sum(s, i, j) < range_sum(s, a, b)
    &&& forall|i: int| 0 <= i < a ==> #[trigger] range_sum(s, i, b) < range_sum(s, a, b)
}

/// Every element of `s` is negative.
pub open spec fn all_negative(s: Seq<i64>) -> bool {
    forall|k: int| 0 <= k < s.len() ==> #[trigger] s[k] < 0
}

/// A one-element subarray sums to its element.
pub proof fn lemma_range_sum_single(s: Seq<i64>, k: int)
    requires
        0 <= k < s.len(),
    ensures
        range_sum(s, k, k + 1) == s[k],
{
    assert(range_sum(s, k, k) == 0);
}

/// Peeling the last element off a non-empty range.
pub proof fn lemma_range_sum_extend(s: Seq<i64>, i: int, j: int)
    requires
        0 <= i < j <= s.len(),
    ensures
        range_sum(s, i, j) == range_sum(s, i, j - 1) + s[j - 1],
{
}

/// Appending an element leaves the sums of existing ranges unchanged.
pub proof fn lemma_range_sum_push(s: Seq<i64>, x: i64, i: int, j: int)
    requires
        0 <= i <= j <= s.len(),
    ensures
        range_sum(s.push(x), i, j) == range_sum(s, i, j),
    decreases j - i,
{
    if i < j {
        lemma_range_sum_push(s, x, i, j - 1);
        assert(s.push(x)[j - 1] == s[j - 1]);
    }
}

/// The maximum subarray sum is unique. In particular the sum returned by
/// `max_subarray_sum` and the sum of the range returned by `max_subarray`
/// coincide, both being maximum sums of the same sequence.
pub proof fn lemma_max_sum_unique(s: Seq<i64>, m1: int, m2: int)
    requires
        is_max_sum(s, m1),
        is_max_sum(s, m2),
    ensures
        m1 == m2,
{
}

/// Consistency of the two operations: summing the range that `max_subarray`
/// returns gives exactly the value `max_subarray_sum` returns.
pub proof fn lemma_consistency(s: Seq<i64>, m: int, a: int, b: int)
    requires
        is_max_sum(s, m),
        is_best_range(s, a, b),
    ensures
        range_sum(s, a, b) == m,
{
    lemma_max_sum_unique(s, m, range_sum(s, a, b));
}

/// Tie-break determinism: at most one range of a given sequence is best,
/// so `max_subarray` returns the same range on every call.
pub proof fn lemma_best_range_unique(s: Seq<i64>, a1: int, b1: int, a2: int, b2: int)
    requires
        is_best_range(s, a1, b1),
        is_best_range(s, a2, b2),
    ensures
        a1 == a2,
        b1 == b2,
{
    lemma_max_sum_unique(s, range_sum(s, a1, b1), range_sum(s, a2, b2));
    if b1 < b2 {
        assert(range_sum(s, a1, b1) < range_sum(s, a2, b2));
    }
    if b2 < b1 {
        assert(range_sum(s, a2, b2) < range_sum(s, a1, b1));
    }
    if a1 < a2 {
        assert(range_sum(s, a1, b2) < range_sum(s, a2, b2));
    }
    if a2 < a1 {
        assert(range_sum(s, a2, b1) < range_sum(s, a1, b1));
    }
}

/// A singleton sequence's maximum subarray sum is its only element,
/// attained exactly on the range `[0, 1)`.
pub proof fn lemma_singleton(x: i64)
    ensures
        is_max_sum(seq![x], x as int),
        is_best_range(seq![x], 0, 1),
{
    let s = seq![x];
    lemma_range_sum_single(s, 0);
    assert(valid_range(s, 0, 1));
    assert forall|i: int, j: int| valid_range(s, i, j) implies #[trigger] range_sum(s, i, j)
        <= x as int by {
        assert(i == 0 && j == 1);
    }
}

/// In an all-negative sequence every subarray sum is negative and no larger
/// than the subarray's last element.
pub proof fn lemma_all_negative_sum(s: Seq<i64>, i: int, j: int)
    requires
        all_negative(s),
        valid_range(s, i, j),
    ensures
        range_sum(s, i, j) <= s[j - 1],
        range_sum(s, i, j) < 0,
    decreases j - i,
{
    if i < j - 1 {
        lemma_all_negative_sum(s, i, j - 1);
    } else {
        assert(range_sum(s, i, i) == 0);
    }
}

/// For a non-empty, all-negative sequence the maximum subarray sum is the
/// maximum single element: never an empty subarray's zero, never a
/// multi-element sum.
pub proof fn lemma_all_negative_max(s: Seq<i64>, m: int)
    requires
        s.len() > 0,
        all_negative(s),
        is_max_sum(s, m),
    ensures
        exists|k: int| 0 <= k < s.len() && #[trigger] s[k] == m,
        forall|k: int| 0 <= k < s.len() ==> #[trigger] s[k] <= m,
{
    assert forall|k: int| 0 <= k < s.len() implies #[trigger] s[k] <= m by {
        lemma_range_sum_single(s, k);
        assert(valid_range(s, k, k + 1));
    }
    let (i, j) = choose|i: int, j: int| valid_range(s, i, j) && #[trigger] range_sum(s, i, j) == m;
    lemma_all_negative_sum(s, i, j);
    lemma_range_sum_single(s, j - 1);
    assert(valid_range(s, j - 1, j));
    assert(s[j - 1] == m);
}

/// Maximum of `range_sum(s, i, j)` over the start positions `i` in `[lo, j)`.
pub open spec fn best_sum_ending_at(s: Seq<i64>, lo: int, j: int) -> int
    recommends
        0 <= lo < j <= s.len(),
    decreases j - lo,
{
    if lo >= j - 1 {
        range_sum(s, j - 1, j)
    } else {
        vstd::math::max(range_sum(s, lo, j), best_sum_ending_at(s, lo + 1, j))
    }
}

/// The maximum subarray sum of `s` restricted to subarrays ending at or
/// before `j`, computed by exhaustive enumeration: the outer recursion runs
/// over end positions, [`best_sum_ending_at`] over start positions.
pub open spec fn enumerated_max(s: Seq<i64>, j: int) -> int
    recommends
        1 <= j <= s.len(),
    decreases j,
{
    if j <= 1 {
        best_sum_ending_at(s, 0, 1)
    } else {
        vstd::math::max(enumerated_max(s, j - 1), best_sum_ending_at(s, 0, j))
    }
}

/// `best_sum_ending_at` is what its name says: the largest sum of a
/// subarray ending at `j` and starting no earlier than `lo`.
proof fn lemma_best_ending(s: Seq<i64>, lo: int, j: int)
    requires
        0 <= lo < j <= s.len(),
    ensures
        exists|i: int|
            lo <= i < j && #[trigger] range_sum(s, i, j) == best_sum_ending_at(s, lo, j),
        forall|i: int| lo <= i < j ==> #[trigger] range_sum(s, i, j) <= best_sum_ending_at(
            s, lo, j),
    decreases j - lo,
{
    if lo >= j - 1 {
        assert(range_sum(s, j - 1, j) == best_sum_ending_at(s, lo, j));
    } else {
        lemma_best_ending(s, lo + 1, j);
        if range_sum(s, lo, j) >= best_sum_ending_at(s, lo + 1, j) {
            assert(range_sum(s, lo, j) == best_sum_ending_at(s, lo, j));
        } else {
            let i = choose|i: int|
                lo + 1 <= i < j && #[trigger] range_sum(s, i, j) == best_sum_ending_at(
                    s, lo + 1, j);
            assert(range_sum(s, i, j) == best_sum_ending_at(s, lo, j));
        }
    }
}

/// `enumerated_max` is the maximum subarray sum over all subarrays ending
/// at or before `j`.
proof fn lemma_enumerated_prefix(s: Seq<i64>, j: int)
    requires
        1 <= j <= s.len(),
    ensures
        exists|i2: int, j2: int|
            valid_range(s, i2, j2) && j2 <= j && #[trigger] range_sum(s, i2, j2)
                == enumerated_max(s, j),
        forall|i2: int, j2: int|
            valid_range(s, i2, j2) && j2 <= j ==> #[trigger] range_sum(s, i2, j2)
                <= enumerated_max(s, j),
    decreases j,
{
    lemma_best_ending(s, 0, j);
    if j > 1 {
        lemma_enumerated_prefix(s, j - 1);
    }
}

/// Cross-check against exhaustive enumeration: the maximum subarray sum of
/// the contracts equals the maximum obtained by enumerating the sums of all
/// contiguous subarrays one by one.
pub proof fn lemma_enumeration(s: Seq<i64>, m: int)
    requires
        s.len() > 0,
        is_max_sum(s, m),
    ensures
        m == enumerated_max(s, s.len() as int),
{
    lemma_enumerated_prefix(s, s.len() as int);
    assert(is_max_sum(s, enumerated_max(s, s.len() as int)));
    lemma_max_sum_unique(s, m, enumerated_max(s, s.len() as int));
}

/// Appending a non-negative element never decreases the maximum subarray sum.
pub proof fn lemma_append_nonneg(s: Seq<i64>, x: i64, m1: int, m2: int)
    requires
        x >= 0,
        is_max_sum(s, m1),
        is_max_sum(s.push(x), m2),
    ensures
        m2 >= m1,
{
    let (i, j) = choose|i: int, j: int| valid_range(s, i, j) && #[trigger] range_sum(s, i, j) == m1;
    lemma_range_sum_push(s, x, i, j);
    assert(valid_range(s.push(x), i, j));
    assert(range_sum(s.push(x), i, j) == m1);
}

} // verus!
