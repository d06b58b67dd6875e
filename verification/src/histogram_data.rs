//! Estimates from the packet counts of a histogram's bins: percentiles, mean
//! and standard deviation of the round-trip time.
//!
//! Every packet of a bin is taken to lie in the middle of the bin. Times are
//! in half nanoseconds, so that the middle of every bin is a whole number.

use crate::histogram::{bin_start, lemma_bin_in_range};
use crate::simple_stats::{is_floor_sqrt, isqrt};
use crate::statistics::{RttHistogram, RttHistogramConfig, RttPercentile};
use vstd::prelude::*;

verus! {

/// Number of packets in the first `k` bins.
pub open spec fn prefix_count(counts: Seq<u128>, k: int) -> nat
    decreases k,
{
    if k <= 0 {
        0
    } else {
        prefix_count(counts, k - 1) + counts[k - 1] as nat
    }
}

/// Number of packets in all bins.
pub open spec fn total_count(counts: Seq<u128>) -> nat {
    prefix_count(counts, counts.len() as int)
}

/// Middle of bin `bin`, in half nanoseconds.
pub open spec fn midpoint(config: RttHistogramConfig, bin: int) -> int {
    2 * bin_start(config, bin) + config.bin_width()
}

/// The share of packets in the bins up to and including `bin` is at least
/// `percent` in a hundred.
pub open spec fn reaches(counts: Seq<u128>, bin: int, percent: u32) -> bool {
    prefix_count(counts, bin + 1) * 100 >= percent * total_count(counts)
}

/// Bin of the estimate before estimate `j`; the first bin for the first.
pub open spec fn previous_bin(estimates: Seq<RttPercentile>, j: int) -> int {
    if j <= 0 {
        0
    } else {
        estimates[j - 1].bin as int
    }
}

/// Estimate `j` stands for the requested percentile `percent`: its bin is the
/// first at or after the bin of the estimate before it in which the
/// cumulative share reaches the percentile, and its time is the middle of
/// that bin.
pub open spec fn is_estimate(
    config: RttHistogramConfig,
    counts: Seq<u128>,
    estimates: Seq<RttPercentile>,
    j: int,
    percent: u32,
) -> bool {
    let e = estimates[j];
    &&& e.percentile == percent
    &&& e.bin < counts.len()
    &&& reaches(counts, e.bin as int, percent)
    &&& previous_bin(estimates, j) <= e.bin
    &&& e.bin > previous_bin(estimates, j) ==> !reaches(counts, e.bin - 1, percent)
    &&& e.rtt_half_ns == midpoint(config, e.bin as int)
}

/// `estimates` is what a walk over the bins in index order gives for the
/// requested percentiles, taken in their order: an estimate for each up to
/// the first that the cumulative share never reaches, and none after it.
/// Without packets there is no estimate.
pub open spec fn is_percentile_walk(
    config: RttHistogramConfig,
    counts: Seq<u128>,
    percentiles: Seq<u32>,
    estimates: Seq<RttPercentile>,
) -> bool {
    if total_count(counts) == 0 {
        estimates.len() == 0
    } else {
        &&& estimates.len() <= percentiles.len()
        &&& forall|j: int|
            0 <= j < estimates.len() ==> #[trigger] is_estimate(
                config,
                counts,
                estimates,
                j,
                percentiles[j],
            )
        &&& estimates.len() < percentiles.len() ==> !reaches(
            counts,
            counts.len() - 1,
            percentiles[estimates.len() as int],
        )
    }
}

/// What a packet in bin `bin` adds to a weighted sum: the bin's middle, or
/// its square.
pub open spec fn weight(config: RttHistogramConfig, bin: int, squared: bool) -> int {
    if squared {
        midpoint(config, bin) * midpoint(config, bin)
    } else {
        midpoint(config, bin)
    }
}

/// Sum over the first `k` bins of the bin's weight times its count.
pub open spec fn weighted_sum(
    config: RttHistogramConfig,
    counts: Seq<u128>,
    k: int,
    squared: bool,
) -> nat
    decreases k,
{
    if k <= 0 {
        0
    } else {
        weighted_sum(config, counts, k - 1, squared) + (weight(config, k - 1, squared) * counts[k
            - 1]) as nat
    }
}

/// Mean round-trip time in half nanoseconds, rounded down: the weighted sum
/// of the bins' middles over the number of packets. There is none without
/// packets, nor where the weighted sum is beyond 128 bits.
pub open spec fn mean_of_bins(config: RttHistogramConfig, counts: Seq<u128>) -> Option<nat> {
    let n = counts.len() as int;
    if total_count(counts) == 0 || weighted_sum(config, counts, n, false) > u128::MAX {
        None
    } else {
        Some(weighted_sum(config, counts, n, false) / total_count(counts))
    }
}

/// Variance of the round-trip time in squares of half nanoseconds: the mean
/// of the squares, rounded down, less the square of the mean, and no less
/// than zero. There is none where there is no mean, nor where the weighted
/// sum of squares is beyond 128 bits.
pub open spec fn variance_of_bins(config: RttHistogramConfig, counts: Seq<u128>) -> Option<nat> {
    let n = counts.len() as int;
    match mean_of_bins(config, counts) {
        None => None,
        Some(mean) => {
            if weighted_sum(config, counts, n, true) > u128::MAX {
                None
            } else {
                let mean_of_squares = weighted_sum(config, counts, n, true) / total_count(counts);
                if mean_of_squares >= mean * mean {
                    Some((mean_of_squares - mean * mean) as nat)
                } else {
                    Some(0)
                }
            }
        },
    }
}

/// More bins hold at least as many packets.
pub proof fn lemma_prefix_count_monotone(counts: Seq<u128>, j: int, k: int)
    requires
        j <= k,
    ensures
        prefix_count(counts, j) <= prefix_count(counts, k),
    decreases k - j,
{
    if j < k {
        lemma_prefix_count_monotone(counts, j, k - 1);
    }
}

/// The middle of a bin of a valid configuration lies inside the
/// histogram's range, and the middles grow with the bin index.
pub proof fn lemma_midpoint_bounds(config: RttHistogramConfig, bin: int)
    requires
        config.valid(),
        0 <= bin < config.num_bins,
    ensures
        2 * config.min <= midpoint(config, bin) <= 2 * config.max,
        bin + 1 < config.num_bins ==> midpoint(config, bin) <= midpoint(config, bin + 1),
{
    lemma_bin_in_range(config, bin);
    if bin + 1 < config.num_bins {
        lemma_bin_in_range(config, bin + 1);
    }
}

/// Middles of bins are ordered as the bins are.
pub proof fn lemma_midpoint_monotone(config: RttHistogramConfig, i: int, j: int)
    requires
        config.valid(),
        0 <= i <= j < config.num_bins,
    ensures
        midpoint(config, i) <= midpoint(config, j),
    decreases j - i,
{
    if i < j {
        lemma_midpoint_monotone(config, i, j - 1);
        lemma_midpoint_bounds(config, j - 1);
    }
}

/// Percentile estimates are monotonic and bin-bounded: the estimates of a
/// walk do not fall from one to the next, and each lies between the
/// histogram's minimum and its maximum.
pub proof fn lemma_percentiles_monotone_and_bounded(
    config: RttHistogramConfig,
    counts: Seq<u128>,
    percentiles: Seq<u32>,
    estimates: Seq<RttPercentile>,
    i: int,
    j: int,
)
    requires
        config.valid(),
        counts.len() <= config.num_bins,
        is_percentile_walk(config, counts, percentiles, estimates),
        0 <= i <= j < estimates.len(),
    ensures
        estimates[i].rtt_half_ns <= estimates[j].rtt_half_ns,
        2 * config.min <= estimates[j].rtt_half_ns <= 2 * config.max,
    decreases j - i,
{
    assert(is_estimate(config, counts, estimates, j, percentiles[j]));
    lemma_midpoint_bounds(config, estimates[j].bin as int);
    if i < j {
        lemma_percentiles_monotone_and_bounded(config, counts, percentiles, estimates, i, j - 1);
        assert(is_estimate(config, counts, estimates, j - 1, percentiles[j - 1]));
        lemma_midpoint_monotone(config, estimates[j - 1].bin as int, estimates[j].bin as int);
    }
}

/// A higher percentile is never estimated below a lower one: where the
/// requested percentiles do not fall, each estimate is the middle of the
/// first bin of all in which the cumulative share reaches its percentile.
pub proof fn lemma_estimate_is_first_bin(
    config: RttHistogramConfig,
    counts: Seq<u128>,
    percentiles: Seq<u32>,
    estimates: Seq<RttPercentile>,
    j: int,
)
    requires
        is_percentile_walk(config, counts, percentiles, estimates),
        0 <= j < estimates.len(),
        forall|a: int, b: int|
            0 <= a <= b < percentiles.len() ==> percentiles[a] <= percentiles[b],
    ensures
        reaches(counts, estimates[j].bin as int, percentiles[j]),
        estimates[j].bin > 0 ==> !reaches(counts, estimates[j].bin - 1, percentiles[j]),
    decreases j,
{
    assert(is_estimate(config, counts, estimates, j, percentiles[j]));
    let e = estimates[j];
    if j > 0 && e.bin == previous_bin(estimates, j) && e.bin > 0 {
        lemma_estimate_is_first_bin(config, counts, percentiles, estimates, j - 1);
        let total = total_count(counts) as int;
        let low = percentiles[j - 1] as int;
        let high = percentiles[j] as int;
        assert(low * total <= high * total) by (nonlinear_arith)
            requires
                low <= high,
                total >= 0,
        ;
    }
}

/// Whether `cumulative` of `total` is at least `percent` in a hundred.
pub fn reaches_fraction(cumulative: u128, total: u128, percent: u32) -> (r: bool)
    requires
        cumulative <= total,
    ensures
        r == (cumulative * 100 >= percent * total),
{
    if percent > 100 {
        assert(total > 0 ==> cumulative * 100 < percent * total) by (nonlinear_arith)
            requires
                cumulative <= total,
                percent > 100,
        ;
        assert(total == 0 ==> percent * total == 0) by (nonlinear_arith);
        return total == 0;
    }
    let q: u128 = total / 100;
    let r: u128 = total % 100;
    let p: u128 = percent as u128;
    assert(p * q <= 100 * q && p * r <= 100 * r && p * total == 100 * (p * q) + p * r)
        by (nonlinear_arith)
        requires
            p <= 100,
            r < 100,
            total == 100 * q + r,
    ;
    let threshold: u128 = p * q + (p * r + 99) / 100;
    cumulative >= threshold
}

/// Estimates the requested percentiles from the bins' packet counts by one
/// walk over the bins in index order: the running share of all packets is
/// compared with the next requested percentile, and the middle of the current
/// bin is its estimate once the share reaches it. The estimates do not fall
/// from one to the next, and each lies in the histogram's range. Where the
/// packets are more than a `u128` counts there is no estimate.
pub fn estimate_percentiles_from_bins(
    bins_data: &Vec<u128>,
    percentiles: &Vec<u32>,
    hist: &RttHistogram,
) -> (estimates: Vec<RttPercentile>)
    requires
        hist.config.valid(),
        bins_data@.len() <= hist.config.num_bins,
    ensures
        total_count(bins_data@) <= u128::MAX ==> is_percentile_walk(
            hist.config,
            bins_data@,
            percentiles@,
            estimates@,
        ),
        total_count(bins_data@) > u128::MAX ==> estimates@.len() == 0,
        forall|i: int, j: int|
            0 <= i <= j < estimates@.len() ==> (#[trigger] estimates@[i]).rtt_half_ns <= (
            #[trigger] estimates@[j]).rtt_half_ns,
        forall|j: int|
            0 <= j < estimates@.len() ==> 2 * hist.config.min <= (
            #[trigger] estimates@[j]).rtt_half_ns <= 2 * hist.config.max,
{
    let estimates = match checked_count_total(bins_data) {
        Some(total) => percentile_walk(bins_data, percentiles, hist, total),
        None => Vec::new(),
    };
    proof {
        if total_count(bins_data@) <= u128::MAX {
            assert forall|i: int, j: int| 0 <= i <= j < estimates@.len() implies (
            #[trigger] estimates@[i]).rtt_half_ns <= (#[trigger] estimates@[j]).rtt_half_ns by {
                lemma_percentiles_monotone_and_bounded(
                    hist.config,
                    bins_data@,
                    percentiles@,
                    estimates@,
                    i,
                    j,
                );
            }
            assert forall|j: int| 0 <= j < estimates@.len() implies 2 * hist.config.min <= (
            #[trigger] estimates@[j]).rtt_half_ns <= 2 * hist.config.max by {
                lemma_percentiles_monotone_and_bounded(
                    hist.config,
                    bins_data@,
                    percentiles@,
                    estimates@,
                    j,
                    j,
                );
            }
        }
    }
    estimates
}

/// The walk over the bins that estimates the percentiles, for bins whose
/// packets number `total`.
fn percentile_walk(
    bins_data: &Vec<u128>,
    percentiles: &Vec<u32>,
    hist: &RttHistogram,
    total: u128,
) -> (estimates: Vec<RttPercentile>)
    requires
        hist.config.valid(),
        bins_data@.len() <= hist.config.num_bins,
        total == total_count(bins_data@),
    ensures
        is_percentile_walk(hist.config, bins_data@, percentiles@, estimates@),
{
    let config = hist.config;
    let width = config.get_bin_width();
    let mut estimates: Vec<RttPercentile> = Vec::new();
    if total == 0 {
        return estimates;
    }
    let ghost counts = bins_data@;
    let mut cumulative: u128 = 0;
    let mut next: usize = 0;
    let mut bin: usize = 0;
    while bin < bins_data.len() && next < percentiles.len()
        invariant
            config.valid(),
            width == config.bin_width(),
            counts == bins_data@,
            counts.len() <= config.num_bins,
            total == total_count(counts),
            total > 0,
            bin <= counts.len(),
            cumulative == prefix_count(counts, bin as int),
            next <= percentiles@.len(),
            estimates@.len() == next,
            forall|j: int|
                0 <= j < estimates@.len() ==> #[trigger] is_estimate(
                    config,
                    counts,
                    estimates@,
                    j,
                    percentiles@[j],
                ),
            previous_bin(estimates@, next as int) <= bin,
            next < percentiles@.len() && bin > previous_bin(estimates@, next as int)
                ==> cumulative * 100 < percentiles@[next as int] * total,
        decreases counts.len() - bin,
    {
        proof {
            lemma_prefix_count_monotone(counts, bin + 1, counts.len() as int);
            lemma_bin_in_range(config, bin as int);
            assert(bin as int * width as int == bin * width) by (nonlinear_arith);
        }
        let ghost before = cumulative;
        cumulative = cumulative + bins_data[bin];
        let middle: u64 = 2 * (config.min as u64 + (bin as u64) * (width as u64)) + width as u64;
        while next < percentiles.len() && reaches_fraction(cumulative, total, percentiles[next])
            invariant
                config.valid(),
                counts == bins_data@,
                total == total_count(counts),
                total > 0,
                bin < counts.len() <= config.num_bins,
                before == prefix_count(counts, bin as int),
                cumulative == prefix_count(counts, bin + 1),
                cumulative <= total,
                middle == midpoint(config, bin as int),
                next <= percentiles@.len(),
                estimates@.len() == next,
                forall|j: int|
                    0 <= j < estimates@.len() ==> #[trigger] is_estimate(
                        config,
                        counts,
                        estimates@,
                        j,
                        percentiles@[j],
                    ),
                previous_bin(estimates@, next as int) <= bin,
                next < percentiles@.len() && bin > previous_bin(estimates@, next as int)
                    ==> before * 100 < percentiles@[next as int] * total,
            decreases percentiles@.len() - next,
        {
            let ghost earlier = estimates@;
            estimates.push(
                RttPercentile { percentile: percentiles[next], bin: bin as u32, rtt_half_ns: middle },
            );
            proof {
                assert forall|j: int| 0 <= j < estimates@.len() implies #[trigger] is_estimate(
                    config,
                    counts,
                    estimates@,
                    j,
                    percentiles@[j],
                ) by {
                    if j < earlier.len() {
                        assert(is_estimate(config, counts, earlier, j, percentiles@[j]));
                        assert(estimates@[j] == earlier[j]);
                        assert(previous_bin(estimates@, j) == previous_bin(earlier, j));
                    } else {
                        assert(previous_bin(estimates@, j) == previous_bin(earlier, j));
                    }
                }
            }
            next = next + 1;
        }
        bin = bin + 1;
    }
    proof {
        if next < percentiles@.len() {
            assert(prefix_count(counts, 0) == 0);
            if next > 0 {
                assert(is_estimate(config, counts, estimates@, next - 1, percentiles@[next - 1]));
            }
        }
    }
    estimates
}

/// Number of packets in all bins, if a `u128` holds it.
pub fn checked_count_total(bins_data: &Vec<u128>) -> (total: Option<u128>)
    ensures
        match total {
            Some(t) => t == total_count(bins_data@),
            None => total_count(bins_data@) > u128::MAX,
        },
{
    let mut total: u128 = 0;
    let mut i: usize = 0;
    while i < bins_data.len()
        invariant
            i <= bins_data@.len(),
            total == prefix_count(bins_data@, i as int),
        decreases bins_data@.len() - i,
    {
        proof {
            lemma_prefix_count_monotone(bins_data@, i + 1, bins_data@.len() as int);
        }
        match total.checked_add(bins_data[i]) {
            Some(sum) => {
                total = sum;
            },
            None => {
                return None;
            },
        }
        i = i + 1;
    }
    Some(total)
}

/// Number of packets in all bins.
pub fn count_total(bins_data: &Vec<u128>) -> (total: u128)
    requires
        total_count(bins_data@) <= u128::MAX,
    ensures
        total == total_count(bins_data@),
{
    let mut total: u128 = 0;
    let mut i: usize = 0;
    while i < bins_data.len()
        invariant
            i <= bins_data@.len(),
            total == prefix_count(bins_data@, i as int),
            total_count(bins_data@) <= u128::MAX,
        decreases bins_data@.len() - i,
    {
        proof {
            lemma_prefix_count_monotone(bins_data@, i + 1, bins_data@.len() as int);
        }
        total = total + bins_data[i];
        i = i + 1;
    }
    total
}

/// A weighted sum over more bins is no smaller, and a weighted sum is at
/// most the largest weight times the number of packets.
pub proof fn lemma_weighted_sum_bounds(
    config: RttHistogramConfig,
    counts: Seq<u128>,
    j: int,
    k: int,
    squared: bool,
)
    requires
        config.valid(),
        0 <= j <= k <= counts.len() <= config.num_bins,
    ensures
        weighted_sum(config, counts, j, squared) <= weighted_sum(config, counts, k, squared),
        weighted_sum(config, counts, k, squared) <= weight_bound(config, squared) * prefix_count(
            counts,
            k,
        ),
    decreases k,
{
    if k > 0 {
        if j < k {
            lemma_weighted_sum_bounds(config, counts, j, k - 1, squared);
        } else {
            lemma_weighted_sum_bounds(config, counts, k - 1, k - 1, squared);
        }
        lemma_midpoint_bounds(config, k - 1);
        let m = midpoint(config, k - 1);
        let top = 2 * config.max as int;
        let w = weight(config, k - 1, squared);
        let bound = weight_bound(config, squared) as int;
        let c = counts[k - 1] as int;
        let before = prefix_count(counts, k - 1) as int;
        assert(0 <= m * m <= top * top) by (nonlinear_arith)
            requires
                0 <= m <= top,
        ;
        assert(0 <= w * c <= bound * c && bound * (before + c) == bound * before + bound * c)
            by (nonlinear_arith)
            requires
                0 <= w <= bound,
                0 <= c,
        ;
    } else {
        assert(weight_bound(config, squared) * 0 == 0) by (nonlinear_arith);
    }
}

/// Largest weight of a bin of the configuration: twice its maximum, or the
/// square of that.
pub open spec fn weight_bound(config: RttHistogramConfig, squared: bool) -> nat {
    if squared {
        ((2 * config.max) * (2 * config.max)) as nat
    } else {
        (2 * config.max) as nat
    }
}

/// The weighted sum over all bins, if it fits into 128 bits.
pub fn checked_weighted_sum(bins_data: &Vec<u128>, hist: &RttHistogram, squared: bool) -> (sum:
    Option<u128>)
    requires
        hist.config.valid(),
        bins_data@.len() <= hist.config.num_bins,
    ensures
        match sum {
            Some(s) => s == weighted_sum(
                hist.config,
                bins_data@,
                bins_data@.len() as int,
                squared,
            ),
            None => weighted_sum(hist.config, bins_data@, bins_data@.len() as int, squared)
                > u128::MAX,
        },
{
    let config = hist.config;
    let width = config.get_bin_width();
    let ghost counts = bins_data@;
    let mut acc: u128 = 0;
    let mut bin: usize = 0;
    while bin < bins_data.len()
        invariant
            config.valid(),
            width == config.bin_width(),
            counts == bins_data@,
            counts.len() <= config.num_bins,
            bin <= counts.len(),
            acc == weighted_sum(config, counts, bin as int, squared),
            config == hist.config,
        decreases counts.len() - bin,
    {
        proof {
            lemma_bin_in_range(config, bin as int);
            lemma_midpoint_bounds(config, bin as int);
            lemma_weighted_sum_bounds(config, counts, bin + 1, counts.len() as int, squared);
            assert(bin as int * width as int == bin * width) by (nonlinear_arith);
        }
        let middle: u64 = 2 * (config.min as u64 + (bin as u64) * (width as u64)) + width as u64;
        assert(middle * middle <= 0x1_FFFF_FFFE * 0x1_FFFF_FFFE) by (nonlinear_arith)
            requires
                middle <= 0x1_FFFF_FFFE,
        ;
        let factor: u128 = if squared {
            (middle as u128) * (middle as u128)
        } else {
            middle as u128
        };
        proof {
            let c = counts[bin as int];
            assert(factor == weight(config, bin as int, squared));
            assert(factor * c >= 0) by (nonlinear_arith)
                requires
                    factor >= 0,
                    c >= 0,
            ;
            assert(weighted_sum(config, counts, bin + 1, squared) == acc + factor * c);
        }
        let term = match factor.checked_mul(bins_data[bin]) {
            Some(t) => t,
            None => {
                return None;
            },
        };
        acc = match acc.checked_add(term) {
            Some(a) => a,
            None => {
                return None;
            },
        };
        bin = bin + 1;
    }
    Some(acc)
}

/// Mean round-trip time over the bins, in half nanoseconds.
pub fn histogram_mean(bins_data: &Vec<u128>, hist: &RttHistogram) -> (mean: Option<u64>)
    requires
        hist.config.valid(),
        bins_data@.len() <= hist.config.num_bins,
        total_count(bins_data@) <= u128::MAX,
    ensures
        match mean {
            Some(m) => mean_of_bins(hist.config, bins_data@) == Some(m as nat),
            None => mean_of_bins(hist.config, bins_data@) is None,
        },
        mean matches Some(m) ==> 2 * hist.config.min <= m <= 2 * hist.config.max,
{
    let total = count_total(bins_data);
    if total == 0 {
        return None;
    }
    match checked_weighted_sum(bins_data, hist, false) {
        None => None,
        Some(sum) => {
            proof {
                lemma_mean_bounds(hist.config, bins_data@);
            }
            Some((sum / total) as u64)
        },
    }
}

/// The mean lies between the histogram's minimum and its maximum.
pub proof fn lemma_mean_bounds(config: RttHistogramConfig, counts: Seq<u128>)
    requires
        config.valid(),
        counts.len() <= config.num_bins,
        total_count(counts) > 0,
    ensures
        2 * config.min <= weighted_sum(config, counts, counts.len() as int, false) / total_count(
            counts,
        ) <= 2 * config.max,
        weighted_sum(config, counts, counts.len() as int, true) / total_count(counts) <= (2
            * config.max) * (2 * config.max),
{
    let n = counts.len() as int;
    let total = total_count(counts) as int;
    let sum = weighted_sum(config, counts, n, false) as int;
    let squares = weighted_sum(config, counts, n, true) as int;
    lemma_weighted_sum_bounds(config, counts, n, n, false);
    lemma_weighted_sum_bounds(config, counts, n, n, true);
    lemma_weighted_sum_floor(config, counts, n);
    let top = 2 * config.max as int;
    let bottom = 2 * config.min as int;
    assert(bottom <= sum / total <= top) by (nonlinear_arith)
        requires
            total > 0,
            bottom * total <= sum <= top * total,
    ;
    let top2 = top * top;
    assert(squares / total <= top2) by (nonlinear_arith)
        requires
            total > 0,
            0 <= squares <= top2 * total,
    ;
}

/// A weighted sum of middles is at least the smallest middle times the
/// number of packets.
proof fn lemma_weighted_sum_floor(config: RttHistogramConfig, counts: Seq<u128>, k: int)
    requires
        config.valid(),
        0 <= k <= counts.len() <= config.num_bins,
    ensures
        2 * config.min * prefix_count(counts, k) <= weighted_sum(config, counts, k, false),
    decreases k,
{
    if k > 0 {
        lemma_weighted_sum_floor(config, counts, k - 1);
        lemma_midpoint_bounds(config, k - 1);
        let m = midpoint(config, k - 1);
        let bottom = 2 * config.min as int;
        let c = counts[k - 1] as int;
        let before = prefix_count(counts, k - 1) as int;
        assert(bottom * c <= m * c && bottom * (before + c) == bottom * before + bottom * c)
            by (nonlinear_arith)
            requires
                0 <= bottom <= m,
                0 <= c,
        ;
    } else {
        assert(2 * config.min * 0 == 0) by (nonlinear_arith);
    }
}

/// Standard deviation of the round-trip time over the bins, in half
/// nanoseconds: the square root, rounded down, of the variance.
pub fn histogram_std_dev(bins_data: &Vec<u128>, hist: &RttHistogram) -> (deviation: Option<u64>)
    requires
        hist.config.valid(),
        bins_data@.len() <= hist.config.num_bins,
        total_count(bins_data@) <= u128::MAX,
    ensures
        match deviation {
            Some(d) => variance_of_bins(hist.config, bins_data@) matches Some(v) && is_floor_sqrt(
                v,
                d as nat,
            ),
            None => variance_of_bins(hist.config, bins_data@) is None,
        },
{
    let mean = match histogram_mean(bins_data, hist) {
        None => {
            return None;
        },
        Some(m) => m as u128,
    };
    let total = count_total(bins_data);
    match checked_weighted_sum(bins_data, hist, true) {
        None => None,
        Some(squares) => {
            let mean_of_squares = squares / total;
            assert(mean * mean <= 0x1_FFFF_FFFE * 0x1_FFFF_FFFE) by (nonlinear_arith)
                requires
                    mean <= 0x1_FFFF_FFFE,
            ;
            let variance = if mean_of_squares >= mean * mean {
                mean_of_squares - mean * mean
            } else {
                0
            };
            Some(isqrt(variance))
        },
    }
}

} // verus!
