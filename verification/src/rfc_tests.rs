//! The decisions of the benchmark suite: which rate to probe next, when a
//! search is over, and what the measurements of a probe say.
//!
//! Rates are in bits per second. A loss is in thousandths of a percent of
//! the packets sent, so that a hundred thousand stands for every packet.

use crate::frame_size_monitor::FrameCounterEntry;
use crate::ports::{find_rx_recirculation, first_with_rx, PortMapping};
use vstd::prelude::*;

verus! {

/// The frame sizes, in bytes, that every test goes through.
pub const FRAME_SIZES: [u32; 5] = [64, 128, 512, 1024, 1518];

/// The burst that asks for even gaps between packets.
pub const IAT_PRECISION: u16 = 1;

/// The burst that asks for an exact rate.
pub const RATE_PRECISION: u16 = 100;

/// Highest rate that a search probes: 100 Gbit/s.
pub const MAX_TEST_RATE: u64 = 100_000_000_000;

/// Most probes of a binary search.
pub const MAX_BINARY_STEPS: u32 = 20;

/// A binary search ends once its bounds are closer than this: 1 Mbit/s.
pub const SEARCH_EPSILON: u64 = 1_000_000;

/// Largest loss at which a binary search accepts a rate: three percent.
pub const LOSS_TOLERANCE: u64 = 3_000;

/// The loss that stands for every packet.
pub const FULL_LOSS: u64 = 100_000;

/// Seconds that one probe lasts.
pub const PROBE_SECONDS: u32 = 10;

/// Number of probes from which the latency test collects round-trip times
/// for one frame size.
pub const LATENCY_REPETITIONS: u32 = 10;

/// Frame size of the reset test, in bytes: the smallest.
pub const RESET_FRAME_SIZE: u32 = 64;

/// Seconds that the reset test lasts.
pub const RESET_SECONDS: u32 = 120;

/// Milliseconds between two looks at the received packets in the reset
/// test.
pub const RESET_POLL_MILLIS: u64 = 100;

/// Loss in thousandths of a percent: `packet_loss` of `packets_sent`,
/// rounded to the nearest thousandth, a half upward, and no more than a
/// `u64` holds. Nothing sent is no loss.
pub open spec fn loss_of(packet_loss: u64, packets_sent: u64) -> int {
    let loss = (200_000 * packet_loss as int + packets_sent as int) / (2 * packets_sent as int);
    if packets_sent == 0 {
        0
    } else if loss > u64::MAX {
        u64::MAX as int
    } else {
        loss
    }
}

/// Loss of a probe in thousandths of a percent.
pub fn packet_loss_percent(packet_loss: u64, packets_sent: u64) -> (loss: u64)
    ensures
        loss == loss_of(packet_loss, packets_sent),
        packet_loss <= packets_sent ==> loss <= FULL_LOSS,
{
    if packets_sent == 0 {
        return 0;
    }
    let twice: u128 = 200_000 * (packet_loss as u128) + packets_sent as u128;
    let loss: u128 = twice / (2 * (packets_sent as u128));
    assert(packet_loss <= packets_sent ==> loss <= 100_000) by (nonlinear_arith)
        requires
            loss == (200_000 * packet_loss + packets_sent) / (2 * packets_sent as int),
            packets_sent > 0,
    ;
    if loss > u64::MAX as u128 {
        u64::MAX
    } else {
        loss as u64
    }
}

/// An interval of rates.
#[derive(Clone, Copy, Debug, PartialEq, Eq, Structural)]
pub struct RateInterval {
    pub lower: u64,
    pub upper: u64,
}

/// Where a search stands: a rate to probe next, or the interval found.
#[derive(Clone, Copy, Debug, PartialEq, Eq, Structural)]
pub enum SearchStep {
    /// Run a probe at this rate and report its loss.
    Probe { rate: u64 },
    /// The search is over: the rate sought lies between the two bounds.
    Done { lower: u64, upper: u64 },
}

/// An exponential search for an interval that holds the highest rate
/// without loss: the rate is doubled as long as a probe loses nothing and
/// the next rate is no more than the highest rate.
#[derive(Clone, Copy, Debug, PartialEq, Eq, Structural)]
pub struct ExponentialSearch {
    /// The rate of the last probe that lost nothing; zero while there is
    /// none.
    pub lower: u64,
    /// The rate to probe next.
    pub test_rate: u64,
    /// The interval found, once the search is over.
    pub found: Option<RateInterval>,
}

impl ExponentialSearch {
    /// The state before the first probe, at `initial_rate`.
    pub open spec fn start(initial_rate: u64) -> ExponentialSearch {
        ExponentialSearch { lower: 0, test_rate: initial_rate, found: None }
    }

    /// The next rate can be probed: it is above zero and no more than the
    /// highest rate.
    pub open spec fn in_range(self) -> bool {
        0 < self.test_rate <= MAX_TEST_RATE
    }

    /// What is to be done in this state. A search that is over says what it
    /// found. One whose next rate is above the highest rate, or is zero and
    /// cannot be doubled, ends with the highest rate as its upper bound.
    /// Any other probes its next rate.
    pub open spec fn step(self) -> SearchStep {
        match self.found {
            Some(interval) => SearchStep::Done { lower: interval.lower, upper: interval.upper },
            None => if self.in_range() {
                SearchStep::Probe { rate: self.test_rate }
            } else {
                SearchStep::Done { lower: self.lower, upper: MAX_TEST_RATE }
            },
        }
    }

    /// The state after a probe at the next rate has lost nothing: that rate
    /// is the last without loss, and the next is twice as high.
    pub open spec fn doubled(self) -> ExponentialSearch {
        ExponentialSearch { lower: self.test_rate, test_rate: (2 * self.test_rate) as u64, found: None }
    }

    /// The state after the probe that `step` asked for has lost `loss`.
    /// Without loss the rate is doubled. With loss the search is over: the
    /// rate sought lies between the last rate without loss, or zero if
    /// there is none, and the rate probed.
    pub open spec fn after(self, loss: u64) -> ExponentialSearch {
        if !(self.step() is Probe) {
            self
        } else if loss == 0 {
            self.doubled()
        } else {
            ExponentialSearch {
                found: Some(RateInterval { lower: self.lower, upper: self.test_rate }),
                ..self
            }
        }
    }

    /// How far the search is from its end at most: nothing once it asks
    /// for no probe, else what the next rate lacks to twice the highest
    /// rate.
    pub open spec fn distance_to_end(self) -> int {
        if self.step() is Probe {
            2 * MAX_TEST_RATE - self.test_rate
        } else {
            0
        }
    }

    /// The interval that the search ends with when every probe at rate `r`
    /// loses `loss(r)`.
    pub open spec fn outcome(self, loss: spec_fn(u64) -> u64) -> (u64, u64)
        decreases self.distance_to_end(),
    {
        match self.step() {
            SearchStep::Done { lower, upper } => (lower, upper),
            SearchStep::Probe { rate } => self.after(loss(rate)).outcome(loss),
        }
    }

    pub fn new(initial_rate: u64) -> (s: ExponentialSearch)
        ensures
            s == ExponentialSearch::start(initial_rate),
    {
        ExponentialSearch { lower: 0, test_rate: initial_rate, found: None }
    }

    /// What is to be done next.
    pub fn next_step(&self) -> (step: SearchStep)
        ensures
            step == self.step(),
    {
        match self.found {
            Some(interval) => SearchStep::Done { lower: interval.lower, upper: interval.upper },
            None => if 0 < self.test_rate && self.test_rate <= MAX_TEST_RATE {
                SearchStep::Probe { rate: self.test_rate }
            } else {
                SearchStep::Done { lower: self.lower, upper: MAX_TEST_RATE }
            },
        }
    }

    /// Takes in the loss of the probe that `next_step` asked for. In a state
    /// that asks for no probe it changes nothing.
    pub fn record_loss(&mut self, loss: u64)
        ensures
            *final(self) == old(self).after(loss),
            final(self).distance_to_end() < old(self).distance_to_end() || !(old(self).step() is Probe),
    {
        match self.next_step() {
            SearchStep::Done { .. } => {},
            SearchStep::Probe { rate } => {
                if loss == 0 {
                    self.lower = rate;
                    self.test_rate = 2 * rate;
                } else {
                    self.found = Some(RateInterval { lower: self.lower, upper: rate });
                }
            },
        }
    }
}

/// Exponential search bracketing, in any state of the search. Let every
/// probe below `limit` lose nothing and every probe at or above it lose
/// something. A search that is not over, and whose last rate without loss
/// is below the limit, ends with an interval whose lower bound is below
/// the limit and whose upper bound is the limit or above it, or the
/// highest rate.
pub proof fn lemma_search_brackets_from(
    search: ExponentialSearch,
    loss: spec_fn(u64) -> u64,
    limit: u64,
)
    requires
        forall|r: u64| (#[trigger] loss(r)) == 0 <==> r < limit,
        search.found is None,
        search.lower < limit,
    ensures
        ({
            let (lower, upper) = search.outcome(loss);
            lower < limit && (limit <= upper || upper == MAX_TEST_RATE)
        }),
    decreases search.distance_to_end(),
{
    match search.step() {
        SearchStep::Done { lower, upper } => {},
        SearchStep::Probe { rate } => {
            let next = search.after(loss(rate));
            if loss(rate) == 0 {
                assert(next == search.doubled());
                lemma_search_brackets_from(next, loss, limit);
            } else {
                assert(next.step() == SearchStep::Done { lower: search.lower, upper: rate });
                assert(next.outcome(loss) == (search.lower, rate));
            }
        },
    }
}

/// Exponential search bracketing. Let every probe below `limit` lose
/// nothing and every probe at or above it lose something, for a limit
/// above zero. A search from any rate ends with an interval whose lower
/// bound is below the limit and whose upper bound is the limit or above
/// it, or the highest rate.
pub proof fn lemma_search_brackets(initial_rate: u64, loss: spec_fn(u64) -> u64, limit: u64)
    requires
        forall|r: u64| (#[trigger] loss(r)) == 0 <==> r < limit,
        limit > 0,
    ensures
        ({
            let (lower, upper) = ExponentialSearch::start(initial_rate).outcome(loss);
            lower < limit && (limit <= upper || upper == MAX_TEST_RATE)
        }),
{
    lemma_search_brackets_from(ExponentialSearch::start(initial_rate), loss, limit);
}

/// Where no probe up to the highest rate loses anything, a search from a
/// rate above zero ends with the highest rate as its upper bound, and its
/// lower bound is the last rate probed, or zero if none was.
pub proof fn lemma_search_without_loss(search: ExponentialSearch, loss: spec_fn(u64) -> u64)
    requires
        forall|r: u64| r <= MAX_TEST_RATE ==> (#[trigger] loss(r)) == 0,
        search.found is None,
        search.lower <= MAX_TEST_RATE,
    ensures
        search.outcome(loss).1 == MAX_TEST_RATE,
        search.outcome(loss).0 <= MAX_TEST_RATE,
    decreases search.distance_to_end(),
{
    match search.step() {
        SearchStep::Done { lower, upper } => {},
        SearchStep::Probe { rate } => {
            assert(search.after(loss(rate)) == search.doubled());
            lemma_search_without_loss(search.doubled(), loss);
        },
    }
}

/// A binary search for the highest rate whose loss is within the
/// tolerance, between two bounds.
#[derive(Clone, Copy, Debug, PartialEq, Eq, Structural)]
pub struct BinarySearch {
    pub lower_bound: u64,
    pub upper_bound: u64,
    /// The highest rate that was accepted; zero while none was.
    pub max_successful_rate: u64,
    /// Number of probes made.
    pub iterations: u32,
    /// The bounds have come closer than the search distinguishes.
    pub converged: bool,
}

/// Distance between two rates.
pub open spec fn distance(a: u64, b: u64) -> int {
    if a >= b {
        a - b
    } else {
        b - a
    }
}

impl BinarySearch {
    /// The state before the first probe.
    pub open spec fn start(lower_bound: u64, upper_bound: u64) -> BinarySearch {
        BinarySearch {
            lower_bound,
            upper_bound,
            max_successful_rate: 0,
            iterations: 0,
            converged: false,
        }
    }

    /// The search is over: it has converged or has made all its probes.
    pub open spec fn is_done(self) -> bool {
        self.converged || self.iterations >= MAX_BINARY_STEPS
    }

    /// The rate in the middle of the bounds.
    pub open spec fn middle(self) -> u64 {
        ((self.lower_bound + self.upper_bound) / 2) as u64
    }

    /// The rate to probe next, if the search is not over.
    pub open spec fn next(self) -> Option<u64> {
        if self.is_done() {
            None
        } else {
            Some(self.middle())
        }
    }

    /// The state after the probe at the middle rate. A loss within the
    /// tolerance makes the rate the lower bound and the highest accepted
    /// rate, a higher loss makes it the upper bound, and a probe without a
    /// measurement leaves the bounds. Then the search has converged if the
    /// bounds are closer than it distinguishes.
    pub open spec fn after(self, loss: Option<u64>) -> BinarySearch {
        if self.is_done() {
            self
        } else {
            let probed = match loss {
                Some(l) => if l <= LOSS_TOLERANCE {
                    BinarySearch {
                        lower_bound: self.middle(),
                        max_successful_rate: self.middle(),
                        ..self
                    }
                } else {
                    BinarySearch { upper_bound: self.middle(), ..self }
                },
                None => self,
            };
            BinarySearch {
                iterations: (self.iterations + 1) as u32,
                converged: distance(probed.upper_bound, probed.lower_bound) < SEARCH_EPSILON,
                ..probed
            }
        }
    }

    pub fn new(lower_bound: u64, upper_bound: u64) -> (s: BinarySearch)
        ensures
            s == BinarySearch::start(lower_bound, upper_bound),
    {
        BinarySearch {
            lower_bound,
            upper_bound,
            max_successful_rate: 0,
            iterations: 0,
            converged: false,
        }
    }

    /// The rate to probe next; none once the search is over, when
    /// `max_successful_rate` is its result.
    pub fn next_rate(&self) -> (rate: Option<u64>)
        ensures
            rate == self.next(),
    {
        if self.converged || self.iterations >= MAX_BINARY_STEPS {
            None
        } else {
            Some(self.lower_bound / 2 + self.upper_bound / 2 + (self.lower_bound % 2
                + self.upper_bound % 2) / 2)
        }
    }

    /// Takes in the loss of the probe at the rate that `next_rate` gave;
    /// `None` where the probe gave no measurement.
    pub fn record_loss(&mut self, loss: Option<u64>)
        ensures
            *final(self) == old(self).after(loss),
    {
        let rate = match self.next_rate() {
            None => {
                return ;
            },
            Some(rate) => rate,
        };
        match loss {
            Some(l) => {
                if l <= LOSS_TOLERANCE {
                    self.lower_bound = rate;
                    self.max_successful_rate = rate;
                } else {
                    self.upper_bound = rate;
                }
            },
            None => {},
        }
        self.iterations = self.iterations + 1;
        let apart = if self.upper_bound >= self.lower_bound {
            self.upper_bound - self.lower_bound
        } else {
            self.lower_bound - self.upper_bound
        };
        self.converged = apart < SEARCH_EPSILON;
    }
}

/// A binary search between ordered bounds keeps them ordered, never leaves
/// its first interval, and accepts no rate outside of it.
pub proof fn lemma_binary_search_stays_inside(search: BinarySearch, loss: Option<u64>)
    requires
        search.lower_bound <= search.upper_bound,
        search.max_successful_rate == 0 || search.max_successful_rate == search.lower_bound,
    ensures
        search.after(loss).lower_bound <= search.after(loss).upper_bound,
        search.lower_bound <= search.after(loss).lower_bound,
        search.after(loss).upper_bound <= search.upper_bound,
        search.after(loss).max_successful_rate == 0 || search.after(loss).max_successful_rate
            == search.after(loss).lower_bound,
{
}

/// Frames per second that a rate of `rate` bits per second carries, of
/// frames of `frame_size` bytes.
pub open spec fn frames_per_second(rate: u64, frame_size: u32) -> int {
    rate as int / (8 * frame_size as int)
}

/// Frame rate of a rate in bits per second.
pub fn frame_rate(rate: u64, frame_size: u32) -> (frames: u64)
    requires
        frame_size > 0,
    ensures
        frames == frames_per_second(rate, frame_size),
{
    rate / (8 * (frame_size as u64))
}

/// Bits per second of `frames` frames of `frame_size` bytes a second, and
/// no more than a `u64` holds.
pub open spec fn bits_per_second(frames: u64, frame_size: u32) -> int {
    if frames * (8 * frame_size as int) > u64::MAX {
        u64::MAX as int
    } else {
        frames * (8 * frame_size as int)
    }
}

/// Rate in bits per second of a frame rate.
pub fn rate_of_frames(frames: u64, frame_size: u32) -> (rate: u64)
    ensures
        rate == bits_per_second(frames, frame_size),
{
    assert(frames * (8 * frame_size) <= 0xFFFF_FFFF_FFFF_FFFF * 0x7_FFFF_FFF8) by (nonlinear_arith)
        requires
            frames <= 0xFFFF_FFFF_FFFF_FFFF,
            frame_size <= 0xFFFF_FFFF,
    ;
    let bits: u128 = (frames as u128) * (8 * (frame_size as u128));
    if bits > u64::MAX as u128 {
        u64::MAX
    } else {
        bits as u64
    }
}

/// Sum of the round-trip times.
pub open spec fn rtt_sum(values: Seq<u64>) -> nat
    decreases values.len(),
{
    if values.len() == 0 {
        0
    } else {
        rtt_sum(values.drop_last()) + values.last() as nat
    }
}

/// One-way latency in picoseconds: half the mean of the round-trip times,
/// which are in nanoseconds, rounded down. Without a round-trip time there
/// is no latency.
pub open spec fn one_way_latency_of(values: Seq<u64>) -> Option<nat> {
    if values.len() == 0 {
        None
    } else {
        Some(rtt_sum(values) * 1000 / (2 * values.len()))
    }
}

/// One-way latency in picoseconds from the round-trip times of a test.
pub fn one_way_latency(rtt_values: &Vec<u64>) -> (latency: Option<u128>)
    ensures
        match latency {
            Some(l) => one_way_latency_of(rtt_values@) == Some(l as nat),
            None => one_way_latency_of(rtt_values@) is None,
        },
{
    let n = rtt_values.len();
    if n == 0 {
        return None;
    }
    let mut sum: u128 = 0;
    let mut i: usize = 0;
    while i < n
        invariant
            n == rtt_values@.len(),
            i <= n,
            sum == rtt_sum(rtt_values@.subrange(0, i as int)),
            sum <= i * u64::MAX,
        decreases n - i,
    {
        proof {
            assert(rtt_values@.subrange(0, i + 1).drop_last() =~= rtt_values@.subrange(0, i as int));
        }
        sum = sum + rtt_values[i] as u128;
        i = i + 1;
    }
    proof {
        assert(rtt_values@.subrange(0, n as int) =~= rtt_values@);
    }
    let whole: u128 = sum / (n as u128);
    let rest: u128 = sum % (n as u128);
    assert(whole <= u64::MAX) by (nonlinear_arith)
        requires
            whole == sum / (n as u128),
            sum <= n * u64::MAX,
            n > 0,
    ;
    assert(sum * 1000 / (2 * n) == 500 * whole + 500 * rest / (n as int)) by (nonlinear_arith)
        requires
            whole == sum / (n as u128),
            rest == sum % (n as u128),
            n > 0,
    ;
    Some(500 * whole + 500 * rest / (n as u128))
}

/// Highest of the port speeds, in bits per second; 1 Gbit/s where there is
/// no port.
pub open spec fn highest_speed(speeds: Seq<u64>) -> u64
    decreases speeds.len(),
{
    if speeds.len() == 0 {
        1_000_000_000
    } else if speeds.len() == 1 {
        speeds[0]
    } else if speeds.last() > highest_speed(speeds.drop_last()) {
        speeds.last()
    } else {
        highest_speed(speeds.drop_last())
    }
}

/// Highest of the port speeds.
pub fn max_speed(speeds: &Vec<u64>) -> (speed: u64)
    ensures
        speed == highest_speed(speeds@),
{
    if speeds.len() == 0 {
        return 1_000_000_000;
    }
    let mut speed = speeds[0];
    let mut i: usize = 1;
    proof {
        assert(speeds@.subrange(0, 1).drop_last() =~= Seq::<u64>::empty());
    }
    while i < speeds.len()
        invariant
            1 <= i <= speeds@.len(),
            speed == highest_speed(speeds@.subrange(0, i as int)),
        decreases speeds@.len() - i,
    {
        proof {
            assert(speeds@.subrange(0, i + 1).drop_last() =~= speeds@.subrange(0, i as int));
        }
        if speeds[i] > speed {
            speed = speeds[i];
        }
        i = i + 1;
    }
    proof {
        assert(speeds@.subrange(0, i as int) =~= speeds@);
    }
    speed
}

/// The loss measured at a share of the highest rate.
#[derive(Clone, Copy, Debug, PartialEq, Eq, Structural)]
pub struct LossAtRate {
    /// The share of the highest rate, in percent.
    pub percent: u32,
    /// The loss in thousandths of a percent.
    pub loss: u64,
}

/// The sweep of the frame-loss-rate test for one frame size: the rate goes
/// down from the highest in steps of a tenth of it, until two probes in a
/// row have lost nothing.
#[derive(Clone, Debug)]
pub struct FrameLossSweep {
    /// The highest rate, in bits per second.
    pub max_speed: u64,
    /// Number of probes made.
    pub step: u32,
    /// Number of probes without loss in a row.
    pub consecutive_zero_loss: u32,
    /// What has been measured.
    pub results: Vec<LossAtRate>,
}

/// Number of probes of a sweep.
pub const SWEEP_STEPS: u32 = 10;

/// The share of the highest rate, in percent, that probe `step` runs at.
pub open spec fn sweep_percent(step: u32) -> int {
    100 - 10 * step
}

/// The rate that is `percent` in a hundred of `max_speed`.
pub open spec fn share_of(max_speed: u64, percent: int) -> int {
    max_speed as int * percent / 100
}

/// A loss of no more than every packet.
pub open spec fn clamped_loss(loss: u64) -> u64 {
    if loss > FULL_LOSS {
        FULL_LOSS
    } else {
        loss
    }
}

impl FrameLossSweep {
    /// The sweep is over.
    pub open spec fn is_done(&self) -> bool {
        self.step >= SWEEP_STEPS || self.consecutive_zero_loss >= 2
    }

    pub fn new(max_speed: u64) -> (s: FrameLossSweep)
        ensures
            s.max_speed == max_speed,
            s.step == 0,
            s.consecutive_zero_loss == 0,
            s.results@.len() == 0,
    {
        FrameLossSweep { max_speed, step: 0, consecutive_zero_loss: 0, results: Vec::new() }
    }

    /// The share, in percent, and the rate of the next probe; none once the
    /// sweep is over.
    pub fn next_rate(&self) -> (next: Option<(u32, u64)>)
        ensures
            match next {
                Some((percent, rate)) => !self.is_done() && percent == sweep_percent(self.step)
                    && rate == share_of(self.max_speed, percent as int),
                None => self.is_done(),
            },
    {
        if self.step >= SWEEP_STEPS || self.consecutive_zero_loss >= 2 {
            return None;
        }
        let percent: u32 = 100 - 10 * self.step;
        assert(self.max_speed * percent <= 0xFFFF_FFFF_FFFF_FFFF * 100) by (nonlinear_arith)
            requires
                self.max_speed <= 0xFFFF_FFFF_FFFF_FFFF,
                percent <= 100,
        ;
        let rate: u128 = (self.max_speed as u128) * (percent as u128) / 100;
        assert(rate <= self.max_speed) by (nonlinear_arith)
            requires
                rate == self.max_speed * percent / 100,
                percent <= 100,
        ;
        Some((percent, rate as u64))
    }

    /// Takes in the loss of the probe that `next_rate` gave; `None` where
    /// the probe gave no measurement, which counts for a step and for
    /// nothing else. A loss is recorded as no more than every packet.
    pub fn record_loss(&mut self, loss: Option<u64>)
        ensures
            final(self).max_speed == old(self).max_speed,
            old(self).is_done() ==> *final(self) == *old(self),
            !old(self).is_done() ==> {
                &&& final(self).step == old(self).step + 1
                &&& match loss {
                    None => {
                        &&& final(self).results@ == old(self).results@
                        &&& final(self).consecutive_zero_loss == old(self).consecutive_zero_loss
                    },
                    Some(l) => {
                        &&& final(self).results@ == old(self).results@.push(
                            LossAtRate {
                                percent: sweep_percent(old(self).step) as u32,
                                loss: clamped_loss(l),
                            },
                        )
                        &&& final(self).consecutive_zero_loss == if l == 0 {
                            old(self).consecutive_zero_loss + 1
                        } else {
                            0
                        }
                    },
                }
            },
    {
        let percent = match self.next_rate() {
            None => {
                return ;
            },
            Some((percent, _)) => percent,
        };
        match loss {
            None => {},
            Some(l) => {
                let recorded = if l > FULL_LOSS {
                    FULL_LOSS
                } else {
                    l
                };
                self.results.push(LossAtRate { percent, loss: recorded });
                if l == 0 {
                    self.consecutive_zero_loss = self.consecutive_zero_loss + 1;
                } else {
                    self.consecutive_zero_loss = 0;
                }
            },
        }
        self.step = self.step + 1;
    }
}

/// A stretch of time without a packet: from `a`, when none came in, to
/// `b`, when packets came in again. Times are in nanoseconds since the
/// monitoring began.
#[derive(Clone, Copy, Debug, PartialEq, Eq, Structural)]
pub struct LossInterval {
    pub a: u64,
    pub b: u64,
}

impl LossInterval {
    /// Length of the stretch; zero where the clock went back.
    pub open spec fn duration(self) -> u64 {
        if self.b >= self.a {
            (self.b - self.a) as u64
        } else {
            0
        }
    }
}

/// Watches the number of received packets during the reset test and keeps
/// the longest stretch of time without a packet.
#[derive(Clone, Copy, Debug, PartialEq, Eq, Structural)]
pub struct RecoveryMonitor {
    /// Number of packets received at the last look.
    pub previous_packets_received: u64,
    /// Since when no packet has come in, if none has.
    pub time_point_a: Option<u64>,
    /// The longest stretch without a packet that has ended.
    pub longest: Option<LossInterval>,
}

impl RecoveryMonitor {
    /// The monitor after a look at time `now` that found `total` packets
    /// received. Where no packet has come in since the last look, a stretch
    /// without packets begins, unless one is on. Where packets have come in
    /// while a stretch was on, it ends, and is kept if it is longer than the
    /// longest so far.
    pub open spec fn after(self, total: u64, now: u64) -> RecoveryMonitor {
        let seen = RecoveryMonitor { previous_packets_received: total, ..self };
        if total == self.previous_packets_received && self.time_point_a is None {
            RecoveryMonitor { time_point_a: Some(now), ..seen }
        } else if total > self.previous_packets_received && self.time_point_a is Some {
            let ended = LossInterval { a: self.time_point_a->0, b: now };
            RecoveryMonitor {
                time_point_a: None,
                longest: if self.longest matches Some(l) && l.duration() >= ended.duration() {
                    self.longest
                } else {
                    Some(ended)
                },
                ..seen
            }
        } else {
            seen
        }
    }

    /// The recovery time in nanoseconds: the length of the longest stretch
    /// without a packet; zero where there was none.
    pub open spec fn recovery(self) -> u64 {
        match self.longest {
            Some(l) => l.duration(),
            None => 0,
        }
    }

    /// A monitor that starts when `first_packets` packets have been
    /// received.
    pub fn new(first_packets: u64) -> (m: RecoveryMonitor)
        ensures
            m == (RecoveryMonitor {
                previous_packets_received: first_packets,
                time_point_a: None,
                longest: None,
            }),
    {
        RecoveryMonitor { previous_packets_received: first_packets, time_point_a: None, longest: None }
    }

    /// Takes in a look at time `now`, in nanoseconds since the monitoring
    /// began, that found `total` packets received.
    pub fn observe(&mut self, total: u64, now: u64)
        ensures
            *final(self) == old(self).after(total, now),
    {
        if total == self.previous_packets_received && self.time_point_a.is_none() {
            self.time_point_a = Some(now);
        } else if total > self.previous_packets_received {
            match self.time_point_a {
                Some(a) => {
                    let ended = LossInterval { a, b: now };
                    let length = if now >= a {
                        now - a
                    } else {
                        0
                    };
                    let keep = match self.longest {
                        Some(l) => {
                            let longest = if l.b >= l.a {
                                l.b - l.a
                            } else {
                                0
                            };
                            longest >= length
                        },
                        None => false,
                    };
                    if !keep {
                        self.longest = Some(ended);
                    }
                    self.time_point_a = None;
                },
                None => {},
            }
        }
        self.previous_packets_received = total;
    }

    /// The monitoring is cancelled: nothing has been found.
    pub fn abort(&mut self)
        ensures
            final(self).longest is None,
            final(self).time_point_a is None,
            final(self).previous_packets_received == old(self).previous_packets_received,
    {
        self.longest = None;
        self.time_point_a = None;
    }

    /// The recovery time in nanoseconds.
    pub fn recovery_time(&self) -> (nanos: u64)
        ensures
            nanos == self.recovery(),
    {
        match self.longest {
            Some(l) => if l.b >= l.a {
                l.b - l.a
            } else {
                0
            },
            None => 0,
        }
    }
}

/// The longest stretch without a packet never gets shorter, and a stretch
/// that ends is never longer than the longest that is kept.
pub proof fn lemma_longest_stretch_is_kept(monitor: RecoveryMonitor, total: u64, now: u64)
    ensures
        monitor.after(total, now).recovery() >= monitor.recovery(),
        total > monitor.previous_packets_received && monitor.time_point_a is Some
            ==> monitor.after(total, now).recovery() >= (LossInterval {
            a: monitor.time_point_a->0,
            b: now,
        }).duration(),
{
}

/// What the reset test waits for before it watches for losses.
#[derive(Clone, Copy, Debug, PartialEq, Eq, Structural)]
pub enum FirstPacketWait {
    /// The experiment is to start running.
    ForExperiment,
    /// The first packet is to come in.
    ForPacket,
    /// The first packets have come in, so many of them; zero where the
    /// wait was cancelled.
    Done { packets: u64 },
}

impl FirstPacketWait {
    /// The wait after a look: once the experiment runs, the wait is for the
    /// first packet, and once packets have come in, it is over.
    pub open spec fn after(self, running: bool, total: u64) -> FirstPacketWait {
        match self {
            FirstPacketWait::ForExperiment => if running {
                FirstPacketWait::ForPacket
            } else {
                self
            },
            FirstPacketWait::ForPacket => if total > 0 {
                FirstPacketWait::Done { packets: total }
            } else {
                self
            },
            FirstPacketWait::Done { .. } => self,
        }
    }

    /// Takes in a look: whether the experiment runs, which matters while the
    /// wait is for the experiment, and how many packets have been received,
    /// which matters while the wait is for the first packet.
    pub fn observe(&mut self, running: bool, total: u64)
        ensures
            *final(self) == old(self).after(running, total),
    {
        match *self {
            FirstPacketWait::ForExperiment => {
                if running {
                    *self = FirstPacketWait::ForPacket;
                }
            },
            FirstPacketWait::ForPacket => {
                if total > 0 {
                    *self = FirstPacketWait::Done { packets: total };
                }
            },
            FirstPacketWait::Done { .. } => {},
        }
    }

    /// The wait is cancelled.
    pub fn abort(&mut self)
        ensures
            *final(self) == (FirstPacketWait::Done { packets: 0 }),
    {
        *self = FirstPacketWait::Done { packets: 0 };
    }
}


/// The entry counts packets that were received on some port.
pub open spec fn counts_received(mappings: Seq<PortMapping>, entry: FrameCounterEntry) -> bool {
    &&& entry.egress_port matches Some(port)
    &&& first_with_rx(mappings, port, 0) < mappings.len()
    &&& entry.range is Some
}

/// Number of packets that were received on all ports, and no more than a
/// `u64` holds.
pub open spec fn received_packets(mappings: Seq<PortMapping>, entries: Seq<FrameCounterEntry>) -> nat
    decreases entries.len(),
{
    if entries.len() == 0 {
        0
    } else {
        let sum = received_packets(mappings, entries.drop_last()) + if counts_received(
            mappings,
            entries.last(),
        ) {
            entries.last().packets as nat
        } else {
            0
        };
        if sum > u64::MAX {
            u64::MAX as nat
        } else {
            sum
        }
    }
}

/// Number of packets that were received on all ports: the sum of the
/// counters on the receive-path recirculation ports.
pub fn get_total_received_packets(
    mappings: &Vec<PortMapping>,
    entries: &Vec<FrameCounterEntry>,
) -> (total: u64)
    ensures
        total == received_packets(mappings@, entries@),
{
    let mut total: u64 = 0;
    let mut i: usize = 0;
    while i < entries.len()
        invariant
            i <= entries@.len(),
            total == received_packets(mappings@, entries@.subrange(0, i as int)),
        decreases entries@.len() - i,
    {
        proof {
            assert(entries@.subrange(0, i + 1).drop_last() =~= entries@.subrange(0, i as int));
        }
        let entry = entries[i];
        let counted = match entry.egress_port {
            Some(port) => entry.range.is_some() && find_rx_recirculation(mappings, port).is_some(),
            None => false,
        };
        if counted {
            total = total.saturating_add(entry.packets);
        }
        i = i + 1;
    }
    proof {
        assert(entries@.subrange(0, i as int) =~= entries@);
    }
    total
}

/// A value measured for one frame size.
#[derive(Clone, Copy, Debug, PartialEq, Eq, Structural)]
pub struct FrameValue {
    /// Frame size in bytes.
    pub frame_size: u32,
    pub value: u64,
}

/// The latency measured for one frame size.
#[derive(Clone, Copy, Debug, PartialEq, Eq, Structural)]
pub struct FrameLatency {
    /// Frame size in bytes.
    pub frame_size: u32,
    /// One-way latency in picoseconds; `None` where no round-trip time was
    /// measured.
    pub latency: Option<u128>,
}

/// The losses measured for one frame size.
#[derive(Clone, Debug)]
pub struct FrameLoss {
    /// Frame size in bytes.
    pub frame_size: u32,
    /// The loss at each share of the highest rate that was probed.
    pub losses: Vec<LossAtRate>,
}

/// The tests of the suite.
#[derive(Clone, Copy, Debug, PartialEq, Eq, Structural)]
pub enum RfcTest {
    Throughput,
    Latency,
    FrameLossRate,
    Reset,
}

/// What the suite is doing.
#[derive(Clone, Copy, Debug, PartialEq, Eq, Structural)]
pub enum TestLabel {
    /// A test is being run.
    Test { test: RfcTest },
    /// A test is being run at a frame size, in bytes.
    Frame { test: RfcTest, frame_size: u32 },
}

/// What the suite has found so far.
#[derive(Clone, Debug)]
pub struct TestResult {
    /// Highest rate without loss for each frame size, in frames per second.
    pub throughput: Option<Vec<FrameValue>>,
    /// One-way latency for each frame size.
    pub latency: Option<Vec<FrameLatency>>,
    /// Loss at each rate for each frame size.
    pub frame_loss_rate: Option<Vec<FrameLoss>>,
    /// Recovery time for each frame size, in nanoseconds.
    pub reset: Option<Vec<FrameValue>>,
    /// Whether the suite is running.
    pub running: bool,
    /// What the suite is doing.
    pub current_test: Option<TestLabel>,
}

/// The value of the first entry for `frame_size` at or after `from`.
pub open spec fn value_for(values: Seq<FrameValue>, frame_size: u32, from: int) -> Option<u64>
    decreases values.len() - from,
{
    if from < 0 || from >= values.len() {
        None
    } else if values[from].frame_size == frame_size {
        Some(values[from].value)
    } else {
        value_for(values, frame_size, from + 1)
    }
}

/// Looks up the value measured for `frame_size`.
pub fn lookup(values: &Vec<FrameValue>, frame_size: u32) -> (value: Option<u64>)
    ensures
        value == value_for(values@, frame_size, 0),
{
    let mut i: usize = 0;
    while i < values.len()
        invariant
            i <= values@.len(),
            value_for(values@, frame_size, 0) == value_for(values@, frame_size, i as int),
        decreases values@.len() - i,
    {
        if values[i].frame_size == frame_size {
            return Some(values[i].value);
        }
        i = i + 1;
    }
    None
}

impl TestResult {
    /// Nothing has been found and nothing runs.
    pub open spec fn is_reset(&self) -> bool {
        &&& self.throughput is None
        &&& self.latency is None
        &&& self.frame_loss_rate is None
        &&& self.reset is None
        &&& !self.running
        &&& self.current_test is None
    }

    /// The rate in bits per second at which a test replays traffic of
    /// `frame_size` bytes: the highest rate without loss that the throughput
    /// test found for that frame size, or `fallback` if it found none.
    pub open spec fn replay_rate_of(&self, frame_size: u32, fallback: u64) -> u64 {
        match self.throughput {
            Some(found) => match value_for(found@, frame_size, 0) {
                Some(frames) => bits_per_second(frames, frame_size) as u64,
                None => fallback,
            },
            None => fallback,
        }
    }

    pub fn new() -> (r: TestResult)
        ensures
            r.is_reset(),
    {
        TestResult {
            throughput: None,
            latency: None,
            frame_loss_rate: None,
            reset: None,
            running: false,
            current_test: None,
        }
    }

    /// Forgets everything that was found.
    pub fn reset_results(&mut self)
        ensures
            final(self).is_reset(),
    {
        self.throughput = None;
        self.latency = None;
        self.frame_loss_rate = None;
        self.reset = None;
        self.running = false;
        self.current_test = None;
    }

    pub fn set_running_flag(&mut self, running: bool)
        ensures
            final(self).running == running,
            final(self).throughput == old(self).throughput,
            final(self).latency == old(self).latency,
            final(self).frame_loss_rate == old(self).frame_loss_rate,
            final(self).reset == old(self).reset,
            final(self).current_test == old(self).current_test,
    {
        self.running = running;
    }

    pub fn set_name_flag(&mut self, name: TestLabel)
        ensures
            final(self).current_test == Some(name),
            final(self).running == old(self).running,
            final(self).throughput == old(self).throughput,
            final(self).latency == old(self).latency,
            final(self).frame_loss_rate == old(self).frame_loss_rate,
            final(self).reset == old(self).reset,
    {
        self.current_test = Some(name);
    }

    /// The rate at which a test replays traffic of `frame_size` bytes.
    pub fn replay_rate(&self, frame_size: u32, fallback: u64) -> (rate: u64)
        ensures
            rate == self.replay_rate_of(frame_size, fallback),
    {
        match &self.throughput {
            Some(found) => match lookup(found, frame_size) {
                Some(frames) => rate_of_frames(frames, frame_size),
                None => fallback,
            },
            None => fallback,
        }
    }
}

/// The rate in bits per second that the reset test runs at, for frames of
/// `frame_size` bytes: that of the highest frame rate without loss that the
/// throughput test found, or that of the whole frames per second that the
/// rate `fallback` carries.
pub fn reset_test_rate(result: &TestResult, frame_size: u32, fallback: u64) -> (rate: u64)
    requires
        frame_size > 0,
    ensures
        rate == result.replay_rate_of(
            frame_size,
            bits_per_second(frames_per_second(fallback, frame_size) as u64, frame_size) as u64,
        ),
{
    let frames = frame_rate(fallback, frame_size);
    result.replay_rate(frame_size, rate_of_frames(frames, frame_size))
}

} // verus!
