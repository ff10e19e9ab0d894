// Behavioural tests: edge cases, cross-checks against exhaustive
// enumeration, and the tie-break pinned to an exact range.

use kadane::support::kadane_00;
use kadane::{max_subarray, max_subarray_sum};

fn brute_force_max_sum(values: &[i64]) -> Option<i64> {
    let mut best: Option<i64> = None;
    for start in 0..values.len() {
        let mut sum: i64 = 0;
        for end in start + 1..=values.len() {
            sum += values[end - 1];
            if best.is_none() || sum > best.unwrap() {
                best = Some(sum);
            }
        }
    }
    best
}

#[test]
fn empty_input() {
    assert_eq!(max_subarray_sum(&[]), None);
    assert_eq!(max_subarray(&[]), None);
}

#[test]
fn singleton() {
    for &x in &[0i64, 7, -7, i64::MAX, i64::MIN] {
        assert_eq!(max_subarray_sum(&[x]), Some(x));
        let values = [x];
        let range = max_subarray(&values).unwrap();
        assert_eq!(range, [x]);
        assert_eq!(range.len(), 1);
        assert_eq!(range.iter().sum::<i64>(), x);
    }
}

#[test]
fn all_negative() {
    let values = [-8, -3, -11, -3, -6];
    assert_eq!(max_subarray_sum(&values), Some(-3));
    let range = max_subarray(&values).unwrap();
    assert_eq!(range, [-3]);
    assert_eq!(kadane_00(&values), -3);
}

#[test]
fn sum_and_range_are_consistent() {
    let samples: Vec<Vec<i64>> = vec![
        vec![4],
        vec![-2, 1, -3, 4, -1, 2, 1, -5, 4],
        vec![-1, -2, -3],
        vec![0, 0, 0, 0],
        vec![3, -1, 4, -1, 5, -9, 2, 6],
        vec![1, -2, 3, -4, 5, -6, 7, -8, 9, -10, 11, -12],
    ];
    for values in &samples {
        let sum = max_subarray_sum(values).unwrap();
        let range = max_subarray(values).unwrap();
        assert_eq!(range.iter().sum::<i64>(), sum);
        assert!(!range.is_empty());
    }
}

#[test]
fn appending_nonnegative_never_decreases() {
    let samples: Vec<Vec<i64>> = vec![
        vec![5],
        vec![-5],
        vec![-2, 1, -3, 4, -1, 2, 1, -5, 4],
        vec![-1, -1, -1],
        vec![2, -7, 3],
    ];
    for values in &samples {
        let before = max_subarray_sum(values).unwrap();
        for &x in &[0i64, 1, 9] {
            let mut extended = values.clone();
            extended.push(x);
            let after = max_subarray_sum(&extended).unwrap();
            assert!(after >= before);
        }
    }
}

#[test]
fn brute_force_cross_check_exhaustive() {
    // Every sequence of length 0..=5 over a fixed alphabet of values.
    let alphabet: [i64; 4] = [-3, -1, 0, 2];
    for len in 0..=5usize {
        let mut digits = vec![0usize; len];
        loop {
            let values: Vec<i64> = digits.iter().map(|&d| alphabet[d]).collect();
            assert_eq!(max_subarray_sum(&values), brute_force_max_sum(&values));
            let range = max_subarray(&values);
            match brute_force_max_sum(&values) {
                None => assert!(range.is_none()),
                Some(best) => assert_eq!(range.unwrap().iter().sum::<i64>(), best),
            }
            let mut pos = 0;
            while pos < len && digits[pos] == alphabet.len() - 1 {
                digits[pos] = 0;
                pos += 1;
            }
            if pos == len {
                break;
            }
            digits[pos] += 1;
        }
    }
}

#[test]
fn brute_force_cross_check_length_twelve() {
    let samples: Vec<Vec<i64>> = vec![
        vec![31, -41, 59, 26, -53, 58, 97, -93, -23, 84, -15, 6],
        vec![-1, -1, -1, -1, -1, -1, -1, -1, -1, -1, -1, -1],
        vec![12, -3, 0, 7, -20, 5, 5, -1, 2, -8, 9, -4],
        vec![0, 0, 0, 0, 0, 0, 0, 0, 0, 0, 0, 0],
    ];
    for values in &samples {
        assert_eq!(max_subarray_sum(values), brute_force_max_sum(values));
        let range = max_subarray(values).unwrap();
        assert_eq!(range.iter().sum::<i64>(), brute_force_max_sum(values).unwrap());
    }
}

#[test]
fn tie_break_is_deterministic() {
    let values = [-1, 2, -1, 2, -1];
    let first = max_subarray(&values).unwrap();
    let second = max_subarray(&values).unwrap();
    assert_eq!(first, second);
    // The maximum sum 3 is attained only by the middle run [2, -1, 2],
    // the range [1, 4).
    assert_eq!(first, [2, -1, 2]);
    assert_eq!(max_subarray_sum(&values), Some(3));
}

#[test]
fn mixed_signs_example() {
    let values = [-2, 1, -3, 4, -1, 2, 1, -5, 4];
    assert_eq!(max_subarray_sum(&values), Some(6));
    let range = max_subarray(&values).unwrap();
    // The range [3, 7): elements [4, -1, 2, 1], summing to 6.
    assert_eq!(range, [4, -1, 2, 1]);
    assert_eq!(range.iter().sum::<i64>(), 6);
}

#[test]
fn earliest_shortest_range_wins() {
    // Two single-element subarrays attain the maximum; the earlier wins.
    let values = [2, -100, 2];
    assert_eq!(max_subarray(&values).unwrap(), [2]);
    assert_eq!(max_subarray_sum(&values), Some(2));
    // A zero prefix extends the winning range leftwards: the recurrence
    // keeps the earlier start on equal sums.
    let values = [0, 2];
    assert_eq!(max_subarray(&values).unwrap(), [0, 2]);
}
