//! Mean and standard deviation of a buffer of samples, in whole numbers.

use std::collections::VecDeque;
use vstd::prelude::*;

verus! {

/// Sum of the samples.
pub open spec fn seq_sum(s: Seq<u64>) -> nat
    decreases s.len(),
{
    if s.len() == 0 {
        0
    } else {
        seq_sum(s.drop_last()) + s.last() as nat
    }
}

/// Sum of the squares of the samples.
pub open spec fn seq_sum_of_squares(s: Seq<u64>) -> nat
    decreases s.len(),
{
    if s.len() == 0 {
        0
    } else {
        seq_sum_of_squares(s.drop_last()) + (s.last() as nat) * (s.last() as nat)
    }
}

/// `r` is the square root of `n`, rounded down.
pub open spec fn is_floor_sqrt(n: nat, r: nat) -> bool {
    r * r <= n < (r + 1) * (r + 1)
}

/// Mean of the samples, rounded down; zero for no sample.
pub open spec fn mean_of(s: Seq<u64>) -> nat {
    if s.len() == 0 {
        0
    } else {
        seq_sum(s) / s.len()
    }
}

/// Sample variance of the samples, rounded down; zero for fewer than two.
/// With `n` samples of sum `s` and sum of squares `q` it is
/// `(n * q - s * s) / (n * (n - 1))`.
pub open spec fn sample_variance_of(s: Seq<u64>) -> nat {
    if s.len() < 2 {
        0
    } else {
        let n = s.len();
        ((n * seq_sum_of_squares(s) - seq_sum(s) * seq_sum(s)) / ((n * (n - 1)) as int)) as nat
    }
}

/// The sum of samples is at most their number times the largest of them.
pub proof fn lemma_seq_sum_bound(s: Seq<u64>, bound: nat)
    requires
        forall|i: int| 0 <= i < s.len() ==> (#[trigger] s[i]) <= bound,
    ensures
        seq_sum(s) <= s.len() * bound,
        seq_sum_of_squares(s) <= s.len() * (bound * bound),
    decreases s.len(),
{
    if s.len() > 0 {
        lemma_seq_sum_bound(s.drop_last(), bound);
        let x = s.last() as nat;
        let n = (s.len() - 1) as nat;
        assert(x * x <= bound * bound) by (nonlinear_arith)
            requires
                x <= bound,
        ;
        assert((n + 1) * bound == n * bound + bound && (n + 1) * (bound * bound) == n * (bound
            * bound) + bound * bound) by (nonlinear_arith);
    }
}

/// The square of a sum of `n` numbers is at most `n` times the sum of their
/// squares, so the variance is no negative number.
pub proof fn lemma_sum_of_squares_dominates(s: Seq<u64>)
    ensures
        seq_sum(s) * seq_sum(s) <= s.len() * seq_sum_of_squares(s),
    decreases s.len(),
{
    if s.len() > 0 {
        let rest = s.drop_last();
        lemma_sum_of_squares_dominates(rest);
        let x = s.last() as int;
        let a = seq_sum(rest) as int;
        let q = seq_sum_of_squares(rest) as int;
        let n = rest.len() as int;
        lemma_cross_term(rest, x);
        assert((a + x) * (a + x) <= (n + 1) * (q + x * x)) by (nonlinear_arith)
            requires
                a * a <= n * q,
                2 * a * x <= q + n * x * x,
        ;
    }
}

/// Twice the product of a number with a sum is at most the sum of squares
/// plus the number's square for each summand.
proof fn lemma_cross_term(s: Seq<u64>, x: int)
    ensures
        2 * seq_sum(s) * x <= seq_sum_of_squares(s) + s.len() * x * x,
    decreases s.len(),
{
    if s.len() > 0 {
        let rest = s.drop_last();
        lemma_cross_term(rest, x);
        let y = s.last() as int;
        let a = seq_sum(rest) as int;
        let q = seq_sum_of_squares(rest) as int;
        let n = rest.len() as int;
        assert(2 * (a + y) * x <= (q + y * y) + (n + 1) * x * x) by (nonlinear_arith)
            requires
                2 * a * x <= q + n * x * x,
        ;
    } else {
        assert(2 * 0 * x <= 0 + 0 * x * x) by (nonlinear_arith);
    }
}

/// Square root of `n`, rounded down.
pub fn isqrt(n: u128) -> (r: u64)
    ensures
        is_floor_sqrt(n as nat, r as nat),
{
    let mut lo: u128 = 0;
    let mut hi: u128 = 0x1_0000_0000_0000_0000;
    assert(0x1_0000_0000_0000_0000 * 0x1_0000_0000_0000_0000 > n) by (nonlinear_arith)
        requires
            n <= u128::MAX,
    ;
    while hi - lo > 1
        invariant
            lo < hi <= 0x1_0000_0000_0000_0000,
            lo * lo <= n < hi * hi,
        decreases hi - lo,
    {
        let mid: u128 = lo + (hi - lo) / 2;
        assert(mid * mid <= 0xFFFF_FFFF_FFFF_FFFF * 0xFFFF_FFFF_FFFF_FFFF) by (nonlinear_arith)
            requires
                mid <= 0xFFFF_FFFF_FFFF_FFFF,
        ;
        if mid * mid <= n {
            lo = mid;
        } else {
            hi = mid;
        }
    }
    lo as u64
}

/// Sum of the samples.
pub fn sum(numbers: &VecDeque<u64>) -> (total: u128)
    ensures
        total == seq_sum(numbers@),
{
    let mut total: u128 = 0;
    let mut i: usize = 0;
    while i < numbers.len()
        invariant
            i <= numbers@.len(),
            total == seq_sum(numbers@.subrange(0, i as int)),
            total <= i * u64::MAX,
        decreases numbers@.len() - i,
    {
        proof {
            assert(numbers@.subrange(0, i + 1).drop_last() =~= numbers@.subrange(0, i as int));
        }
        total = total + numbers[i] as u128;
        i = i + 1;
    }
    proof {
        assert(numbers@.subrange(0, i as int) =~= numbers@);
    }
    total
}

/// Sum of the squares of the samples, none of which is above `u32::MAX`.
pub fn sum_of_squares(numbers: &VecDeque<u64>) -> (total: u128)
    requires
        forall|i: int| 0 <= i < numbers@.len() ==> (#[trigger] numbers@[i]) <= u32::MAX,
    ensures
        total == seq_sum_of_squares(numbers@),
{
    let mut total: u128 = 0;
    let mut i: usize = 0;
    while i < numbers.len()
        invariant
            i <= numbers@.len(),
            forall|i: int| 0 <= i < numbers@.len() ==> (#[trigger] numbers@[i]) <= u32::MAX,
            total == seq_sum_of_squares(numbers@.subrange(0, i as int)),
            total <= i * 0xFFFF_FFFF_FFFF_FFFF,
        decreases numbers@.len() - i,
    {
        let x: u64 = numbers[i];
        proof {
            assert(numbers@.subrange(0, i + 1).drop_last() =~= numbers@.subrange(0, i as int));
            assert(x * x <= 0xFFFF_FFFF_FFFF_FFFF) by (nonlinear_arith)
                requires
                    x <= 0xFFFF_FFFF,
            ;
        }
        total = total + (x as u128) * (x as u128);
        i = i + 1;
    }
    proof {
        assert(numbers@.subrange(0, i as int) =~= numbers@);
    }
    total
}

/// Mean of the samples, rounded down; zero for no sample.
pub fn average(numbers: &VecDeque<u64>) -> (mean: u64)
    ensures
        mean == mean_of(numbers@),
{
    let n = numbers.len();
    if n == 0 {
        return 0;
    }
    let total = sum(numbers);
    proof {
        lemma_seq_sum_bound(numbers@, u64::MAX as nat);
        assert(total / (n as u128) <= u64::MAX) by (nonlinear_arith)
            requires
                total <= n * u64::MAX,
                n > 0,
        ;
    }
    (total / (n as u128)) as u64
}

/// Sample standard deviation of the samples: the square root, rounded down,
/// of their sample variance, rounded down. Zero for fewer than two samples.
pub fn std_dev(numbers: &VecDeque<u64>) -> (deviation: u64)
    requires
        numbers@.len() <= u32::MAX,
        forall|i: int| 0 <= i < numbers@.len() ==> (#[trigger] numbers@[i]) <= u32::MAX,
    ensures
        is_floor_sqrt(sample_variance_of(numbers@), deviation as nat),
{
    let n = numbers.len();
    if n < 2 {
        assert(0nat * 0nat == 0 && (0nat + 1) * (0nat + 1) == 1) by (nonlinear_arith);
        return 0;
    }
    let s = sum(numbers);
    let q = sum_of_squares(numbers);
    let n = n as u128;
    proof {
        lemma_seq_sum_bound(numbers@, u32::MAX as nat);
        lemma_sum_of_squares_dominates(numbers@);
        assert(n * q <= 0xFFFF_FFFF * (0xFFFF_FFFF * (0xFFFF_FFFF * 0xFFFF_FFFF)))
            by (nonlinear_arith)
            requires
                n <= 0xFFFF_FFFF,
                q <= n * (0xFFFF_FFFF * 0xFFFF_FFFF),
        ;
        assert(s * s <= n * q);
        assert(n * (n - 1) <= 0xFFFF_FFFF * 0xFFFF_FFFF && n * (n - 1) > 0) by (nonlinear_arith)
            requires
                2 <= n <= 0xFFFF_FFFF,
        ;
    }
    let variance = (n * q - s * s) / (n * (n - 1));
    isqrt(variance)
}

} // verus!
