use p4tg_controller::simple_stats::{average, isqrt, std_dev, sum, sum_of_squares};
use std::collections::VecDeque;

#[test]
fn square_roots_are_rounded_down() {
    assert_eq!(isqrt(0), 0);
    assert_eq!(isqrt(1), 1);
    assert_eq!(isqrt(15), 3);
    assert_eq!(isqrt(16), 4);
    assert_eq!(isqrt(17), 4);
    assert_eq!(isqrt(1_000_000), 1000);
    assert_eq!(isqrt(u128::MAX), u64::MAX);
}

#[test]
fn average_of_no_sample_is_zero() {
    assert_eq!(average(&VecDeque::new()), 0);
    assert_eq!(std_dev(&VecDeque::new()), 0);
}

#[test]
fn average_is_rounded_down() {
    let samples: VecDeque<u64> = VecDeque::from(vec![1, 2, 4]);
    assert_eq!(sum(&samples), 7);
    assert_eq!(average(&samples), 2);
}

#[test]
fn deviation_of_one_sample_is_zero() {
    let samples: VecDeque<u64> = VecDeque::from(vec![1000]);
    assert_eq!(std_dev(&samples), 0);
}

#[test]
fn sample_deviation_of_known_values() {
    // 2, 4, 4, 4, 5, 5, 7, 9: sum 40, sum of squares 232, n 8
    // sample variance (8 * 232 - 1600) / 56 = 4 (rounded down), deviation 2
    let samples: VecDeque<u64> = VecDeque::from(vec![2, 4, 4, 4, 5, 5, 7, 9]);
    assert_eq!(sum_of_squares(&samples), 232);
    assert_eq!(std_dev(&samples), 2);
}

#[test]
fn deviation_of_equal_samples_is_zero() {
    let samples: VecDeque<u64> = VecDeque::from(vec![1500; 100]);
    assert_eq!(average(&samples), 1500);
    assert_eq!(std_dev(&samples), 0);
}
