//! Live rate, loss, round-trip-time and inter-arrival-time statistics from
//! the digests that the data plane sends.

use crate::ports::{
    distinct_ports, ports_are_distinct,
    find_rx_recirculation, find_tx_recirculation, first_with_rx, first_with_tx,
    lemma_first_with_rx, lemma_first_with_tx, Direction, PortMapping,
};
use crate::simple_stats::{average, is_floor_sqrt, mean_of, sample_variance_of, std_dev};
use crate::time_series::{recorded, TimeSeries};
use crate::types::{GenerationMode, MonitoringMapping};
use std::collections::VecDeque;
use vstd::prelude::*;

verus! {

/// Number of round-trip-time or inter-arrival-time samples that are kept
/// for one port.
pub const RTT_STORAGE: usize = 50000;

/// Nanoseconds in a second.
pub const NANOS_PER_SECOND: u64 = 1_000_000_000;

/// A round-trip time or inter-arrival time is a sample only if it is below
/// this bound; a larger one comes from a timestamp that has wrapped around.
pub const SAMPLE_BOUND: u64 = 0x7FFF_FFFF;

/// Milliseconds of a run that pass before inter-arrival times are sampled.
pub const IAT_GRACE_MILLIS: u64 = 3000;

/// Number of application identifiers.
pub const APP_SLOTS: usize = 256;

/// The last sample of the byte counters of one path, with the rates that
/// were computed when it was taken. Rates are in bits per second.
#[derive(Clone, Copy, Debug, PartialEq, Eq, Structural)]
pub struct DataRate {
    pub byte_count_l1: u64,
    pub byte_count_l2: u64,
    /// Hardware time of the sample, in nanoseconds.
    pub timestamp: u64,
    pub rate_l1: u64,
    pub rate_l2: u64,
}

impl DataRate {
    pub fn new(byte_count_l1: u64, byte_count_l2: u64, timestamp: u64, rate_l1: u64, rate_l2: u64) -> (r:
        DataRate)
        ensures
            r == (DataRate { byte_count_l1, byte_count_l2, timestamp, rate_l1, rate_l2 }),
    {
        DataRate { byte_count_l1, byte_count_l2, timestamp, rate_l1, rate_l2 }
    }
}

/// By how much a byte counter has grown; zero where it has not.
pub open spec fn byte_increase(now: u64, before: u64) -> int {
    if now >= before {
        now - before
    } else {
        0
    }
}

/// Bits per second for `bytes` bytes in `nanos` nanoseconds, rounded down
/// and no more than a `u64` holds.
pub open spec fn rate_of(bytes: int, nanos: int) -> int {
    let rate = 8 * bytes * NANOS_PER_SECOND as int / nanos;
    if rate > u64::MAX {
        u64::MAX as int
    } else {
        rate
    }
}

/// The sample that follows `last` when the counters stand at `l1` and `l2`
/// bytes at hardware time `timestamp`. Once a second or more has passed, it
/// is the new sample with the rates over the time passed. Where the
/// hardware time has gone back, it has wrapped around: the counters start
/// from zero and the rates stay. Otherwise nothing changes.
pub open spec fn rate_after(l1: u64, l2: u64, timestamp: u64, last: DataRate) -> DataRate {
    if timestamp >= last.timestamp && timestamp - last.timestamp >= NANOS_PER_SECOND {
        DataRate {
            byte_count_l1: l1,
            byte_count_l2: l2,
            timestamp,
            rate_l1: rate_of(byte_increase(l1, last.byte_count_l1), timestamp - last.timestamp) as u64,
            rate_l2: rate_of(byte_increase(l2, last.byte_count_l2), timestamp - last.timestamp) as u64,
        }
    } else if last.timestamp > timestamp {
        DataRate {
            byte_count_l1: 0,
            byte_count_l2: 0,
            timestamp: 0,
            rate_l1: last.rate_l1,
            rate_l2: last.rate_l2,
        }
    } else {
        last
    }
}

/// Rate computation is idempotent within a second: a sample less than a
/// second after the last one changes nothing, and a sample whose hardware
/// time has gone back leaves the rates as they were.
pub proof fn lemma_rate_unchanged_within_a_second(
    l1: u64,
    l2: u64,
    timestamp: u64,
    last: DataRate,
)
    ensures
        last.timestamp <= timestamp < last.timestamp + NANOS_PER_SECOND ==> rate_after(
            l1,
            l2,
            timestamp,
            last,
        ) == last,
        timestamp < last.timestamp + NANOS_PER_SECOND ==> {
            &&& rate_after(l1, l2, timestamp, last).rate_l1 == last.rate_l1
            &&& rate_after(l1, l2, timestamp, last).rate_l2 == last.rate_l2
        },
{
}

/// Bits per second for `bytes` bytes in `nanos` nanoseconds.
pub fn compute_rate(bytes: u64, nanos: u64) -> (rate: u64)
    requires
        nanos > 0,
    ensures
        rate == rate_of(bytes as int, nanos as int),
{
    let bits_times_second: u128 = (bytes as u128) * 8_000_000_000;
    let rate: u128 = bits_times_second / (nanos as u128);
    if rate > u64::MAX as u128 {
        u64::MAX
    } else {
        rate as u64
    }
}

/// Computes the rates of both layers from the current counters and the
/// last sample.
pub fn calculate_rate(current: (u64, u64, u64), last_rate: &DataRate) -> (r: DataRate)
    ensures
        r == rate_after(current.0, current.1, current.2, *last_rate),
{
    let (l1, l2, timestamp) = current;
    if timestamp >= last_rate.timestamp && timestamp - last_rate.timestamp >= NANOS_PER_SECOND {
        let nanos = timestamp - last_rate.timestamp;
        let bytes_l1 = if l1 >= last_rate.byte_count_l1 {
            l1 - last_rate.byte_count_l1
        } else {
            0
        };
        let bytes_l2 = if l2 >= last_rate.byte_count_l2 {
            l2 - last_rate.byte_count_l2
        } else {
            0
        };
        DataRate::new(l1, l2, timestamp, compute_rate(bytes_l1, nanos), compute_rate(bytes_l2, nanos))
    } else if last_rate.timestamp > timestamp {
        DataRate::new(0, 0, 0, last_rate.rate_l1, last_rate.rate_l2)
    } else {
        *last_rate
    }
}

/// The number of packets that were lost: the data plane counts a packet
/// that came out of order as lost too, so these are taken off, down to zero.
pub open spec fn true_loss(packet_loss: u64, out_of_order: u64) -> u64 {
    if packet_loss >= out_of_order {
        (packet_loss - out_of_order) as u64
    } else {
        0
    }
}

/// Corrects the data plane's loss counter by the packets out of order.
pub fn correct_packet_loss(packet_loss: u64, out_of_order: u64) -> (loss: u64)
    ensures
        loss == true_loss(packet_loss, out_of_order),
{
    if packet_loss >= out_of_order {
        packet_loss - out_of_order
    } else {
        0
    }
}

/// The samples after `sample` has been stored in a buffer of `capacity`:
/// where the buffer is full, the oldest samples make room.
pub open spec fn stored(samples: Seq<u64>, sample: u64, capacity: int) -> Seq<u64> {
    if samples.len() >= capacity && capacity >= 1 {
        samples.subrange(samples.len() - capacity + 1, samples.len() as int).push(sample)
    } else {
        samples.push(sample)
    }
}

/// Stores a sample in a buffer that keeps the newest `RTT_STORAGE` samples.
pub fn store_sample(samples: &mut VecDeque<u64>, sample: u64)
    ensures
        final(samples)@ == stored(old(samples)@, sample, RTT_STORAGE as int),
        old(samples)@.len() <= RTT_STORAGE ==> final(samples)@.len() <= RTT_STORAGE,
{
    while samples.len() >= RTT_STORAGE
        invariant
            samples@.len() <= old(samples)@.len(),
            samples@.len() == old(samples)@.len() || samples@.len() >= RTT_STORAGE - 1,
            samples@ == old(samples)@.subrange(
                old(samples)@.len() - samples@.len(),
                old(samples)@.len() as int,
            ),
        decreases samples@.len(),
    {
        let ghost before = samples@;
        samples.pop_front();
        proof {
            assert(samples@ =~= old(samples)@.subrange(
                old(samples)@.len() - samples@.len(),
                old(samples)@.len() as int,
            ));
        }
    }
    proof {
        if old(samples)@.len() < RTT_STORAGE {
            assert(samples@ =~= old(samples)@);
        }
    }
    samples.push_back(sample);
}

/// A digest with the byte counters of a port's path.
#[derive(Clone, Copy, Debug, PartialEq, Eq, Structural)]
pub struct RateDigest {
    /// Recirculation port that the digest comes from.
    pub port: u32,
    /// Hardware time in nanoseconds.
    pub timestamp: u64,
    pub l1_byte_count: u64,
    pub l2_byte_count: u64,
    /// Byte counter of the stream that the digest speaks of.
    pub app_byte_count: u64,
    /// Monitoring index of that stream.
    pub app_index: u32,
    pub packet_loss_count: u64,
    pub out_of_order_count: u64,
}

/// A digest with a round-trip time and an inter-arrival time.
#[derive(Clone, Copy, Debug, PartialEq, Eq, Structural)]
pub struct SampleDigest {
    /// Recirculation port that the digest comes from.
    pub port: u32,
    /// Round-trip time in nanoseconds.
    pub rtt: u64,
    /// Inter-arrival time in nanoseconds.
    pub iat: u64,
}

/// What the data plane sends.
#[derive(Clone, Copy, Debug, PartialEq, Eq, Structural)]
pub enum Digest {
    Rate(RateDigest),
    Sample(SampleDigest),
}

/// Mean, deviation and count of the inter-arrival times of one path, in
/// nanoseconds.
#[derive(Clone, Copy, Debug, PartialEq, Eq, Structural)]
pub struct IATValues {
    /// Mean, from the samples or from the data plane's registers.
    pub mean: u64,
    /// Standard deviation of the samples; only in sample mode.
    pub std: Option<u64>,
    /// Mean absolute error, from the data plane's registers.
    pub mae: u64,
    /// Number of inter-arrival times.
    pub n: u32,
}

impl IATValues {
    pub fn default() -> (v: IATValues)
        ensures
            v == (IATValues { mean: 0, std: None, mae: 0, n: 1 }),
    {
        IATValues { mean: 0, std: None, mae: 0, n: 1 }
    }
}

/// Inter-arrival-time statistics of a port's two paths.
#[derive(Clone, Copy, Debug, PartialEq, Eq, Structural)]
pub struct IATStatistics {
    pub tx: IATValues,
    pub rx: IATValues,
}

impl IATStatistics {
    pub fn default() -> (s: IATStatistics)
        ensures
            s.tx == (IATValues { mean: 0, std: None, mae: 0, n: 1 }),
            s.rx == (IATValues { mean: 0, std: None, mae: 0, n: 1 }),
    {
        IATStatistics { tx: IATValues::default(), rx: IATValues::default() }
    }
}

/// Round-trip-time statistics of one port, in nanoseconds.
#[derive(Clone, Copy, Debug, PartialEq, Eq, Structural)]
pub struct RTTStatistics {
    pub mean: u64,
    pub min: u32,
    pub max: u32,
    pub current: u32,
    pub jitter: u64,
    pub n: u32,
}

/// Rates and counters of one port, with the last sample of each path.
#[derive(Clone, Copy, Debug, PartialEq, Eq, Structural)]
pub struct PortRates {
    pub last_tx: DataRate,
    pub last_rx: DataRate,
    pub tx_rate_l1: u64,
    pub tx_rate_l2: u64,
    pub rx_rate_l1: u64,
    pub rx_rate_l2: u64,
    pub packet_loss: u64,
    pub out_of_order: u64,
}

/// The sample from which the counting of a path starts.
pub open spec fn baseline(l1: u64, l2: u64, timestamp: u64) -> DataRate {
    DataRate { byte_count_l1: l1, byte_count_l2: l2, timestamp, rate_l1: 0, rate_l2: 0 }
}

impl PortRates {
    /// The last sample of the path `direction`.
    pub open spec fn last(self, direction: Direction) -> DataRate {
        match direction {
            Direction::Tx => self.last_tx,
            Direction::Rx => self.last_rx,
        }
    }

    /// A path reports a rate once its counting has started.
    pub open spec fn reports(self, direction: Direction) -> bool {
        self.last(direction).timestamp != 0
    }

    /// The rates and counters after a rate digest of the path `direction`.
    /// The first digest of a path only starts its counting. Every later one
    /// gives the path's rates; one of the receive path gives the loss and
    /// the packets out of order as well.
    pub open spec fn after(self, digest: RateDigest, direction: Direction) -> PortRates {
        let next = rate_after(
            digest.l1_byte_count,
            digest.l2_byte_count,
            digest.timestamp,
            self.last(direction),
        );
        let first = baseline(digest.l1_byte_count, digest.l2_byte_count, digest.timestamp);
        match direction {
            Direction::Tx => if self.reports(direction) {
                PortRates { last_tx: next, tx_rate_l1: next.rate_l1, tx_rate_l2: next.rate_l2, ..self }
            } else {
                PortRates { last_tx: first, ..self }
            },
            Direction::Rx => if self.reports(direction) {
                PortRates {
                    last_rx: next,
                    rx_rate_l1: next.rate_l1,
                    rx_rate_l2: next.rate_l2,
                    packet_loss: true_loss(digest.packet_loss_count, digest.out_of_order_count),
                    out_of_order: digest.out_of_order_count,
                    ..self
                }
            } else {
                PortRates { last_rx: first, ..self }
            },
        }
    }
}

/// Two digests with the same byte counters leave the reported rates of
/// their path as the first one left them, where the second comes less than
/// a second after the sample that the path holds once the first is taken
/// in. A path whose counting starts with the first digest reports zero from
/// the second on, so this holds of it only where it reported zero before.
pub proof fn lemma_repeated_digest_keeps_rates(
    rates: PortRates,
    first: RateDigest,
    second: RateDigest,
    direction: Direction,
)
    requires
        first.l1_byte_count == second.l1_byte_count,
        first.l2_byte_count == second.l2_byte_count,
        first.timestamp <= second.timestamp < first.timestamp + NANOS_PER_SECOND,
        rates.reports(direction) || first.timestamp == 0 || match direction {
            Direction::Tx => rates.tx_rate_l1 == 0 && rates.tx_rate_l2 == 0,
            Direction::Rx => rates.rx_rate_l1 == 0 && rates.rx_rate_l2 == 0,
        },
        rates.after(first, direction).reports(direction) ==> second.timestamp < rates.after(
            first,
            direction,
        ).last(direction).timestamp + NANOS_PER_SECOND,
    ensures
        ({
            let once = rates.after(first, direction);
            let twice = once.after(second, direction);
            &&& twice.tx_rate_l1 == once.tx_rate_l1
            &&& twice.tx_rate_l2 == once.tx_rate_l2
            &&& twice.rx_rate_l1 == once.rx_rate_l1
            &&& twice.rx_rate_l2 == once.rx_rate_l2
        }),
{
}

/// The buffer holds no more samples than there is room for, each below the
/// bound for samples.
pub open spec fn are_samples(samples: Seq<u64>) -> bool {
    &&& samples.len() <= RTT_STORAGE
    &&& forall|i: int| 0 <= i < samples.len() ==> 0 < #[trigger] samples[i] < SAMPLE_BOUND
}

/// Storing a sample keeps a buffer within its bounds.
pub proof fn lemma_stored_are_samples(samples: Seq<u64>, sample: u64)
    requires
        are_samples(samples),
        0 < sample < SAMPLE_BOUND,
    ensures
        are_samples(stored(samples, sample, RTT_STORAGE as int)),
{
}

/// The per-second histories of one port.
#[derive(Clone, Debug)]
pub struct PortHistory {
    pub tx_rate_l1: TimeSeries,
    pub rx_rate_l1: TimeSeries,
    pub packet_loss: TimeSeries,
    pub out_of_order: TimeSeries,
    pub rtt: TimeSeries,
}

/// The samples that are kept for one port.
#[derive(Clone, Debug)]
pub struct SampleStorage {
    pub rtt: VecDeque<u64>,
    pub tx_iat: VecDeque<u64>,
    pub rx_iat: VecDeque<u64>,
}

/// The layer-2 rates of a port's streams, by application identifier.
#[derive(Clone, Debug)]
pub struct AppRates {
    pub tx: Vec<u64>,
    pub rx: Vec<u64>,
}

/// Everything that is known of one front panel port.
#[derive(Clone, Debug)]
pub struct PortMonitor {
    /// Number of the front panel port.
    pub port: u32,
    pub rates: PortRates,
    pub apps: AppRates,
    pub iats: IATStatistics,
    pub samples: SampleStorage,
    pub history: PortHistory,
}

/// The last samples of one stream's byte counter, one for each path.
#[derive(Clone, Copy, Debug, PartialEq, Eq, Structural)]
pub struct AppBaseline {
    pub tx: DataRate,
    pub rx: DataRate,
}

impl AppBaseline {
    /// The last sample of the path `direction`.
    pub open spec fn last(self, direction: Direction) -> DataRate {
        match direction {
            Direction::Tx => self.tx,
            Direction::Rx => self.rx,
        }
    }

    /// The baseline with `sample` as the last sample of the path `direction`.
    pub open spec fn with(self, direction: Direction, sample: DataRate) -> AppBaseline {
        match direction {
            Direction::Tx => AppBaseline { tx: sample, ..self },
            Direction::Rx => AppBaseline { rx: sample, ..self },
        }
    }
}

/// The second of the run under which a value is recorded: none has passed
/// while nothing runs.
pub open spec fn run_second(running: bool, elapsed_millis: u64) -> u32 {
    if !running {
        0
    } else if elapsed_millis / 1000 > u32::MAX {
        u32::MAX
    } else {
        (elapsed_millis / 1000) as u32
    }
}

/// The history after a value has been recorded, or as it was.
pub open spec fn recorded_if(
    condition: bool,
    before: TimeSeries,
    after: TimeSeries,
    second: u32,
    value: u64,
) -> bool {
    if condition {
        after.points@ == recorded(before.points@, second, value)
    } else {
        after == before
    }
}

/// `after` is the port `before` once a rate digest of the path `direction`
/// has been taken in: the rates and counters are those after the digest,
/// and while a run is on, every value that the digest gave is recorded in
/// its history. The samples and the inter-arrival-time statistics are as
/// they were.
pub open spec fn rate_digest_applied(
    before: PortMonitor,
    after: PortMonitor,
    digest: RateDigest,
    direction: Direction,
    running: bool,
    second: u32,
) -> bool {
    let records = running && before.rates.reports(direction);
    let rates = before.rates.after(digest, direction);
    &&& after.port == before.port
    &&& after.rates == rates
    &&& after.iats == before.iats
    &&& after.samples == before.samples
    &&& after.history.rtt == before.history.rtt
    &&& recorded_if(
        records && direction == Direction::Tx,
        before.history.tx_rate_l1,
        after.history.tx_rate_l1,
        second,
        rates.tx_rate_l1,
    )
    &&& recorded_if(
        records && direction == Direction::Rx,
        before.history.rx_rate_l1,
        after.history.rx_rate_l1,
        second,
        rates.rx_rate_l1,
    )
    &&& recorded_if(
        records && direction == Direction::Rx,
        before.history.packet_loss,
        after.history.packet_loss,
        second,
        rates.packet_loss,
    )
    &&& recorded_if(
        records && direction == Direction::Rx,
        before.history.out_of_order,
        after.history.out_of_order,
        second,
        rates.out_of_order,
    )
}

impl PortMonitor {
    /// The streams' rates have a place for every application identifier,
    /// and no more samples are kept than there is room for, each below the
    /// bound for samples.
    pub open spec fn wf(&self) -> bool {
        &&& self.apps.tx@.len() == APP_SLOTS
        &&& self.apps.rx@.len() == APP_SLOTS
        &&& are_samples(self.samples.rtt@)
        &&& are_samples(self.samples.tx_iat@)
        &&& are_samples(self.samples.rx_iat@)
    }

    /// Nothing is known of the port `port` yet: every rate is zero, and
    /// there is no sample and no history.
    pub open spec fn is_fresh(&self, port: u32) -> bool {
        &&& self.port == port
        &&& self.rates == (PortRates {
            last_tx: baseline(0, 0, 0),
            last_rx: baseline(0, 0, 0),
            tx_rate_l1: 0,
            tx_rate_l2: 0,
            rx_rate_l1: 0,
            rx_rate_l2: 0,
            packet_loss: 0,
            out_of_order: 0,
        })
        &&& forall|a: int| 0 <= a < APP_SLOTS ==> self.apps.tx@[a] == 0 && self.apps.rx@[a] == 0
        &&& self.iats.tx == (IATValues { mean: 0, std: None, mae: 0, n: 1 })
        &&& self.iats.rx == (IATValues { mean: 0, std: None, mae: 0, n: 1 })
        &&& self.samples.rtt@.len() == 0
        &&& self.samples.tx_iat@.len() == 0
        &&& self.samples.rx_iat@.len() == 0
        &&& self.history.tx_rate_l1.points@.len() == 0
        &&& self.history.rx_rate_l1.points@.len() == 0
        &&& self.history.packet_loss.points@.len() == 0
        &&& self.history.out_of_order.points@.len() == 0
        &&& self.history.rtt.points@.len() == 0
    }

    /// A port of which nothing is known yet.
    pub fn new(port: u32) -> (m: PortMonitor)
        ensures
            m.wf(),
            m.is_fresh(port),
    {
        let zero = DataRate::new(0, 0, 0, 0, 0);
        let mut tx: Vec<u64> = Vec::new();
        let mut rx: Vec<u64> = Vec::new();
        let mut a: usize = 0;
        while a < APP_SLOTS
            invariant
                a <= APP_SLOTS,
                tx@.len() == a,
                rx@.len() == a,
                forall|k: int| 0 <= k < a ==> tx@[k] == 0 && rx@[k] == 0,
            decreases APP_SLOTS - a,
        {
            tx.push(0);
            rx.push(0);
            a = a + 1;
        }
        PortMonitor {
            port,
            rates: PortRates {
                last_tx: zero,
                last_rx: zero,
                tx_rate_l1: 0,
                tx_rate_l2: 0,
                rx_rate_l1: 0,
                rx_rate_l2: 0,
                packet_loss: 0,
                out_of_order: 0,
            },
            apps: AppRates { tx, rx },
            iats: IATStatistics::default(),
            samples: SampleStorage {
                rtt: VecDeque::new(),
                tx_iat: VecDeque::new(),
                rx_iat: VecDeque::new(),
            },
            history: PortHistory {
                tx_rate_l1: TimeSeries::new(),
                rx_rate_l1: TimeSeries::new(),
                packet_loss: TimeSeries::new(),
                out_of_order: TimeSeries::new(),
                rtt: TimeSeries::new(),
            },
        }
    }

    /// Takes in a rate digest of the path `direction`.
    pub fn rate_digest(&mut self, digest: &RateDigest, direction: Direction, running: bool, second: u32)
        ensures
            rate_digest_applied(*old(self), *final(self), *digest, direction, running, second),
            final(self).apps == old(self).apps,
    {
        let current = (digest.l1_byte_count, digest.l2_byte_count, digest.timestamp);
        match direction {
            Direction::Tx => {
                if self.rates.last_tx.timestamp != 0 {
                    let next = calculate_rate(current, &self.rates.last_tx);
                    self.rates.tx_rate_l1 = next.rate_l1;
                    self.rates.tx_rate_l2 = next.rate_l2;
                    if running {
                        self.history.tx_rate_l1.record(second, next.rate_l1);
                    }
                    self.rates.last_tx = next;
                } else {
                    self.rates.last_tx = DataRate::new(current.0, current.1, current.2, 0, 0);
                }
            },
            Direction::Rx => {
                if self.rates.last_rx.timestamp != 0 {
                    let next = calculate_rate(current, &self.rates.last_rx);
                    let loss = correct_packet_loss(
                        digest.packet_loss_count,
                        digest.out_of_order_count,
                    );
                    self.rates.rx_rate_l1 = next.rate_l1;
                    self.rates.rx_rate_l2 = next.rate_l2;
                    if running {
                        self.history.rx_rate_l1.record(second, next.rate_l1);
                        self.history.packet_loss.record(second, loss);
                        self.history.out_of_order.record(second, digest.out_of_order_count);
                    }
                    self.rates.packet_loss = loss;
                    self.rates.out_of_order = digest.out_of_order_count;
                    self.rates.last_rx = next;
                } else {
                    self.rates.last_rx = DataRate::new(current.0, current.1, current.2, 0, 0);
                }
            },
        }
    }
}

/// Index of the first monitoring mapping at or after `from` with index
/// `index`; the length of the list if there is none.
pub open spec fn first_with_index(mappings: Seq<MonitoringMapping>, index: int, from: int) -> int
    decreases mappings.len() - from,
{
    if from < 0 || from >= mappings.len() {
        mappings.len() as int
    } else if mappings[from].index == index {
        from
    } else {
        first_with_index(mappings, index, from + 1)
    }
}

/// `first_with_index` is the least position from `from` on with that
/// index.
pub proof fn lemma_first_with_index(mappings: Seq<MonitoringMapping>, index: int, from: int)
    requires
        0 <= from <= mappings.len(),
    ensures
        from <= first_with_index(mappings, index, from) <= mappings.len(),
        first_with_index(mappings, index, from) < mappings.len() ==> mappings[first_with_index(
            mappings,
            index,
            from,
        )].index == index,
        forall|k: int|
            from <= k < first_with_index(mappings, index, from) ==> (#[trigger] mappings[k]).index
                != index,
    decreases mappings.len() - from,
{
    if from < mappings.len() && mappings[from].index != index {
        lemma_first_with_index(mappings, index, from + 1);
    }
}

/// Finds the monitoring mapping with index `index`.
pub fn find_index(mappings: &Vec<MonitoringMapping>, index: u32) -> (found: Option<usize>)
    ensures
        match found {
            Some(k) => k == first_with_index(mappings@, index as int, 0) && k < mappings@.len(),
            None => first_with_index(mappings@, index as int, 0) == mappings@.len(),
        },
{
    let mut k: usize = 0;
    while k < mappings.len()
        invariant
            k <= mappings@.len(),
            first_with_index(mappings@, index as int, 0) == first_with_index(
                mappings@,
                index as int,
                k as int,
            ),
        decreases mappings@.len() - k,
    {
        if mappings[k].index == index {
            return Some(k);
        }
        k = k + 1;
    }
    None
}

/// The front panel port, by its position, and the path that a digest from
/// recirculation port `port` speaks of. A port that is the send-path port
/// of one mapping counts as that; a port of no mapping is of no interest.
pub open spec fn digest_source(mappings: Seq<PortMapping>, port: u32) -> Option<(int, Direction)> {
    if first_with_tx(mappings, port, 0) < mappings.len() {
        Some((first_with_tx(mappings, port, 0), Direction::Tx))
    } else if first_with_rx(mappings, port, 0) < mappings.len() {
        Some((first_with_rx(mappings, port, 0), Direction::Rx))
    } else {
        None
    }
}

/// Position in the monitoring mappings of the stream whose counter a rate
/// digest carries, if the digest's index is known: the index itself on the
/// send path, the index before it on the receive path, whose indices are
/// by one above those of the send path.
pub open spec fn digest_stream(
    mappings: Seq<MonitoringMapping>,
    digest: RateDigest,
    direction: Direction,
) -> Option<int> {
    let base = match direction {
        Direction::Tx => digest.app_index as int,
        Direction::Rx => digest.app_index - 1,
    };
    if first_with_index(mappings, digest.app_index as int, 0) < mappings.len() && first_with_index(
        mappings,
        base,
        0,
    ) < mappings.len() {
        Some(first_with_index(mappings, base, 0))
    } else {
        None
    }
}

/// A stream's counter gives a rate once its counting has started, unless
/// the counter has gone back, which it does when it wraps around.
pub open spec fn stream_reports(last: DataRate, digest: RateDigest) -> bool {
    last.timestamp != 0 && last.byte_count_l2 <= digest.app_byte_count
}

/// The last sample of a stream's counter after a rate digest.
pub open spec fn stream_after(last: DataRate, digest: RateDigest) -> DataRate {
    if stream_reports(last, digest) {
        rate_after(0, digest.app_byte_count, digest.timestamp, last)
    } else {
        baseline(0, digest.app_byte_count, digest.timestamp)
    }
}

/// The rates of a port's streams on the path `direction`.
pub open spec fn app_rates_of(apps: AppRates, direction: Direction) -> Seq<u64> {
    match direction {
        Direction::Tx => apps.tx@,
        Direction::Rx => apps.rx@,
    }
}

/// Consumes the digests and keeps the statistics of every port.
#[derive(Clone, Debug)]
pub struct RateMonitor {
    /// The recirculation ports of each front panel port.
    pub port_mapping: Vec<PortMapping>,
    /// What is known of each front panel port, in the order of
    /// `port_mapping`.
    pub ports: Vec<PortMonitor>,
    /// The monitoring index of each stream on each recirculation port.
    pub index_mapping: Vec<MonitoringMapping>,
    /// The last samples of each stream's counter, in the order of
    /// `index_mapping`.
    pub apps: Vec<AppBaseline>,
    pub running: bool,
}

impl RateMonitor {
    /// Every front panel port is mapped once, and there is one port monitor
    /// for each mapped port and one baseline for each monitoring index.
    pub open spec fn wf(&self) -> bool {
        &&& distinct_ports(self.port_mapping@)
        &&& self.ports@.len() == self.port_mapping@.len()
        &&& self.apps@.len() == self.index_mapping@.len()
        &&& forall|i: int|
            0 <= i < self.ports@.len() ==> {
                &&& (#[trigger] self.ports@[i]).wf()
                &&& self.ports@[i].port == self.port_mapping@[i].port
            }
    }

    /// A monitor that has seen no digest. It is well formed if every front
    /// panel port is mapped once.
    pub fn new(port_mapping: Vec<PortMapping>, index_mapping: Vec<MonitoringMapping>) -> (m:
        RateMonitor)
        ensures
            m.wf() <==> distinct_ports(port_mapping@),
            m.ports@.len() == port_mapping@.len(),
            m.apps@.len() == index_mapping@.len(),
            forall|i: int| 0 <= i < m.ports@.len() ==> (#[trigger] m.ports@[i]).wf(),
            m.port_mapping@ == port_mapping@,
            m.index_mapping@ == index_mapping@,
            m.running,
            forall|k: int|
                0 <= k < m.apps@.len() ==> #[trigger] m.apps@[k] == (AppBaseline {
                    tx: baseline(0, 0, 0),
                    rx: baseline(0, 0, 0),
                }),
            forall|i: int|
                0 <= i < m.ports@.len() ==> (#[trigger] m.ports@[i]).is_fresh(m.port_mapping@[i].port),
    {
        let mut ports: Vec<PortMonitor> = Vec::new();
        let mut i: usize = 0;
        while i < port_mapping.len()
            invariant
                i <= port_mapping@.len(),
                ports@.len() == i,
                forall|j: int|
                    0 <= j < i ==> {
                        &&& (#[trigger] ports@[j]).wf()
                        &&& ports@[j].is_fresh(port_mapping@[j].port)
                    },
            decreases port_mapping@.len() - i,
        {
            ports.push(PortMonitor::new(port_mapping[i].port));
            i = i + 1;
        }
        let zero = DataRate::new(0, 0, 0, 0, 0);
        let mut apps: Vec<AppBaseline> = Vec::new();
        let mut k: usize = 0;
        while k < index_mapping.len()
            invariant
                k <= index_mapping@.len(),
                apps@.len() == k,
                zero == baseline(0, 0, 0),
                forall|j: int| 0 <= j < k ==> #[trigger] apps@[j] == (AppBaseline { tx: zero, rx: zero }),
            decreases index_mapping@.len() - k,
        {
            apps.push(AppBaseline { tx: zero, rx: zero });
            k = k + 1;
        }
        RateMonitor { port_mapping, ports, index_mapping, apps, running: true }
    }

    /// Finds the front panel port and the path of a digest from
    /// recirculation port `port`.
    pub fn source_of(&self, port: u32) -> (source: Option<(usize, Direction)>)
        ensures
            match source {
                Some((i, direction)) => digest_source(self.port_mapping@, port) == Some(
                    (i as int, direction),
                ) && i < self.port_mapping@.len(),
                None => digest_source(self.port_mapping@, port) is None,
            },
    {
        match find_tx_recirculation(&self.port_mapping, port) {
            Some(i) => Some((i, Direction::Tx)),
            None => match find_rx_recirculation(&self.port_mapping, port) {
                Some(i) => Some((i, Direction::Rx)),
                None => None,
            },
        }
    }

    /// Finds the stream whose counter a rate digest carries.
    pub fn stream_of(&self, digest: &RateDigest, direction: Direction) -> (stream: Option<usize>)
        ensures
            match stream {
                Some(k) => digest_stream(self.index_mapping@, *digest, direction) == Some(k as int)
                    && k < self.index_mapping@.len(),
                None => digest_stream(self.index_mapping@, *digest, direction) is None,
            },
    {
        if find_index(&self.index_mapping, digest.app_index).is_none() {
            return None;
        }
        match direction {
            Direction::Tx => find_index(&self.index_mapping, digest.app_index),
            Direction::Rx => {
                if digest.app_index == 0 {
                    proof {
                        lemma_no_negative_index(self.index_mapping@, 0);
                    }
                    None
                } else {
                    find_index(&self.index_mapping, digest.app_index - 1)
                }
            },
        }
    }
}

/// No monitoring mapping has a negative index.
pub proof fn lemma_no_negative_index(mappings: Seq<MonitoringMapping>, from: int)
    requires
        0 <= from <= mappings.len(),
    ensures
        first_with_index(mappings, -1, from) == mappings.len(),
    decreases mappings.len() - from,
{
    if from < mappings.len() {
        lemma_no_negative_index(mappings, from + 1);
    }
}

/// The other path of a port.
pub open spec fn opposite(direction: Direction) -> Direction {
    match direction {
        Direction::Tx => Direction::Rx,
        Direction::Rx => Direction::Tx,
    }
}

/// What a rate digest of the path `direction` does to the streams'
/// baselines and to the port's stream rates. A digest whose stream is not
/// known changes nothing. Otherwise the stream's last sample on that path
/// moves on, and where the stream reports, its rate is that of the new
/// sample.
pub open spec fn stream_rate_applied(
    mappings: Seq<MonitoringMapping>,
    apps_before: Seq<AppBaseline>,
    apps_after: Seq<AppBaseline>,
    rates_before: AppRates,
    rates_after: AppRates,
    digest: RateDigest,
    direction: Direction,
) -> bool {
    match digest_stream(mappings, digest, direction) {
        None => apps_after == apps_before && rates_after == rates_before,
        Some(k) => {
            let last = apps_before[k].last(direction);
            let next = stream_after(last, digest);
            &&& apps_after == apps_before.update(k, apps_before[k].with(direction, next))
            &&& app_rates_of(rates_after, opposite(direction)) == app_rates_of(
                rates_before,
                opposite(direction),
            )
            &&& app_rates_of(rates_after, direction) == if stream_reports(last, digest) {
                app_rates_of(rates_before, direction).update(
                    mappings[k].app_id as int,
                    next.rate_l2,
                )
            } else {
                app_rates_of(rates_before, direction)
            }
        },
    }
}

/// Inter-arrival times are sampled in sample mode, while a run is on and its
/// first seconds have passed.
pub open spec fn is_sampling(sample_mode: bool, running: bool, elapsed_millis: u64) -> bool {
    sample_mode && running && elapsed_millis > IAT_GRACE_MILLIS
}

/// A time is a sample if it is above zero and below the bound for samples.
pub open spec fn is_sample(time: u64) -> bool {
    0 < time < SAMPLE_BOUND
}

/// `after` is the port at position `position` once a sample digest has been
/// taken in. The port whose receive path the digest comes from stores the
/// round-trip time and records it in its history. In sample mode the
/// inter-arrival time is stored for the path that the digest comes from,
/// while inter-arrival times are sampled; while they are not, every port
/// forgets those it has stored.
pub open spec fn sample_digest_applied(
    mappings: Seq<PortMapping>,
    position: int,
    before: PortMonitor,
    after: PortMonitor,
    digest: SampleDigest,
    running: bool,
    elapsed_millis: u64,
    sample_mode: bool,
) -> bool {
    let from_rx = first_with_rx(mappings, digest.port, 0) == position;
    let from_tx = first_with_rx(mappings, digest.port, 0) == mappings.len() && first_with_tx(
        mappings,
        digest.port,
        0,
    ) == position;
    let sampling = is_sampling(sample_mode, running, elapsed_millis) && is_sample(digest.iat);
    let forgetting = sample_mode && !is_sampling(sample_mode, running, elapsed_millis);
    &&& after.port == before.port
    &&& after.rates == before.rates
    &&& after.apps == before.apps
    &&& after.iats == before.iats
    &&& after.history.tx_rate_l1 == before.history.tx_rate_l1
    &&& after.history.rx_rate_l1 == before.history.rx_rate_l1
    &&& after.history.packet_loss == before.history.packet_loss
    &&& after.history.out_of_order == before.history.out_of_order
    &&& recorded_if(
        from_rx && is_sample(digest.rtt),
        before.history.rtt,
        after.history.rtt,
        run_second(running, elapsed_millis),
        digest.rtt,
    )
    &&& after.samples.rtt@ == if from_rx && is_sample(digest.rtt) {
        stored(before.samples.rtt@, digest.rtt, RTT_STORAGE as int)
    } else {
        before.samples.rtt@
    }
    &&& after.samples.rx_iat@ == if forgetting {
        Seq::empty()
    } else if from_rx && sampling {
        stored(before.samples.rx_iat@, digest.iat, RTT_STORAGE as int)
    } else {
        before.samples.rx_iat@
    }
    &&& after.samples.tx_iat@ == if forgetting {
        Seq::empty()
    } else if from_tx && sampling {
        stored(before.samples.tx_iat@, digest.iat, RTT_STORAGE as int)
    } else {
        before.samples.tx_iat@
    }
}

/// The second of the run under which a value is recorded.
pub fn current_second(running: bool, elapsed_millis: u64) -> (second: u32)
    ensures
        second == run_second(running, elapsed_millis),
{
    if !running {
        0
    } else if elapsed_millis / 1000 > u32::MAX as u64 {
        u32::MAX
    } else {
        (elapsed_millis / 1000) as u32
    }
}

impl RateMonitor {
    /// Takes the counter of the digest's stream into the baselines and into
    /// the stream rates of the port at position `i`.
    pub fn stream_digest(&mut self, i: usize, digest: &RateDigest, direction: Direction)
        requires
            old(self).wf(),
            i < old(self).ports@.len(),
        ensures
            final(self).wf(),
            final(self).port_mapping == old(self).port_mapping,
            final(self).index_mapping == old(self).index_mapping,
            final(self).running == old(self).running,
            final(self).ports@.len() == old(self).ports@.len(),
            forall|j: int|
                0 <= j < old(self).ports@.len() && j != i ==> #[trigger] final(self).ports@[j] == old(self).ports@[j],
            final(self).ports@[i as int].port == old(self).ports@[i as int].port,
            final(self).ports@[i as int].rates == old(self).ports@[i as int].rates,
            final(self).ports@[i as int].iats == old(self).ports@[i as int].iats,
            final(self).ports@[i as int].samples == old(self).ports@[i as int].samples,
            final(self).ports@[i as int].history == old(self).ports@[i as int].history,
            stream_rate_applied(
                old(self).index_mapping@,
                old(self).apps@,
                final(self).apps@,
                old(self).ports@[i as int].apps,
                final(self).ports@[i as int].apps,
                *digest,
                direction,
            ),
    {
        let k = match self.stream_of(digest, direction) {
            None => {
                return ;
            },
            Some(k) => k,
        };
        let last = match direction {
            Direction::Tx => self.apps[k].tx,
            Direction::Rx => self.apps[k].rx,
        };
        let app_id = self.index_mapping[k].app_id as usize;
        let next = if last.timestamp != 0 && last.byte_count_l2 <= digest.app_byte_count {
            let next = calculate_rate((0, digest.app_byte_count, digest.timestamp), &last);
            match direction {
                Direction::Tx => {
                    self.ports[i].apps.tx[app_id] = next.rate_l2;
                },
                Direction::Rx => {
                    self.ports[i].apps.rx[app_id] = next.rate_l2;
                },
            }
            next
        } else {
            DataRate::new(0, digest.app_byte_count, digest.timestamp, 0, 0)
        };
        match direction {
            Direction::Tx => {
                self.apps[k].tx = next;
            },
            Direction::Rx => {
                self.apps[k].rx = next;
            },
        }
        proof {
            assert(self.apps@ =~= old(self).apps@.update(
                k as int,
                old(self).apps@[k as int].with(direction, next),
            ));
        }
    }

    /// Takes in one digest. `running` says whether a run is on and
    /// `elapsed_millis` for how long it has been; `sample_mode` says whether
    /// inter-arrival times are sampled.
    ///
    /// A rate digest from a recirculation port gives the rates and counters
    /// of the port's path and the rate of the stream that it speaks of. A
    /// sample digest gives a round-trip time and an inter-arrival time. A
    /// digest from any other port changes nothing.
    pub fn monitor_digests(
        &mut self,
        digest: &Digest,
        running: bool,
        elapsed_millis: u64,
        sample_mode: bool,
    )
        requires
            old(self).wf(),
        ensures
            final(self).wf(),
            final(self).port_mapping == old(self).port_mapping,
            final(self).index_mapping == old(self).index_mapping,
            final(self).running == old(self).running,
            final(self).ports@.len() == old(self).ports@.len(),
            match *digest {
                Digest::Rate(rate) => match digest_source(old(self).port_mapping@, rate.port) {
                    None => final(self).ports@ == old(self).ports@ && final(self).apps@ == old(self).apps@,
                    Some((i, direction)) => {
                        &&& forall|j: int|
                            0 <= j < old(self).ports@.len() && j != i ==> #[trigger] final(self).ports@[j] == old(self).ports@[j]
                        &&& rate_digest_applied(
                            old(self).ports@[i],
                            final(self).ports@[i],
                            rate,
                            direction,
                            running,
                            run_second(running, elapsed_millis),
                        )
                        &&& stream_rate_applied(
                            old(self).index_mapping@,
                            old(self).apps@,
                            final(self).apps@,
                            old(self).ports@[i].apps,
                            final(self).ports@[i].apps,
                            rate,
                            direction,
                        )
                    },
                },
                Digest::Sample(sample) => {
                    &&& final(self).apps@ == old(self).apps@
                    &&& forall|j: int|
                        0 <= j < old(self).ports@.len() ==> #[trigger] sample_digest_applied(
                            old(self).port_mapping@,
                            j,
                            old(self).ports@[j],
                            final(self).ports@[j],
                            sample,
                            running,
                            elapsed_millis,
                            sample_mode,
                        )
                },
            },
    {
        let second = current_second(running, elapsed_millis);
        match *digest {
            Digest::Rate(rate) => {
                let (i, direction) = match self.source_of(rate.port) {
                    None => {
                        return ;
                    },
                    Some(source) => source,
                };
                self.ports[i].rate_digest(&rate, direction, running, second);
                self.stream_digest(i, &rate, direction);
            },
            Digest::Sample(sample) => {
                self.sample_digest(&sample, running, elapsed_millis, sample_mode);
            },
        }
    }

    /// Takes in a sample digest.
    pub fn sample_digest(
        &mut self,
        sample: &SampleDigest,
        running: bool,
        elapsed_millis: u64,
        sample_mode: bool,
    )
        requires
            old(self).wf(),
        ensures
            final(self).wf(),
            final(self).port_mapping == old(self).port_mapping,
            final(self).index_mapping == old(self).index_mapping,
            final(self).running == old(self).running,
            final(self).apps == old(self).apps,
            final(self).ports@.len() == old(self).ports@.len(),
            forall|j: int|
                0 <= j < old(self).ports@.len() ==> #[trigger] sample_digest_applied(
                    old(self).port_mapping@,
                    j,
                    old(self).ports@[j],
                    final(self).ports@[j],
                    *sample,
                    running,
                    elapsed_millis,
                    sample_mode,
                ),
    {
        let second = current_second(running, elapsed_millis);
        let from_rx = find_rx_recirculation(&self.port_mapping, sample.port);
        let from_tx = find_tx_recirculation(&self.port_mapping, sample.port);
        let ghost mappings = self.port_mapping@;
        proof {
            lemma_first_with_rx(mappings, sample.port, 0);
            lemma_first_with_tx(mappings, sample.port, 0);
        }
        if sample.rtt > 0 && sample.rtt < SAMPLE_BOUND {
            match from_rx {
                Some(i) => {
                    proof {
                        lemma_stored_are_samples(self.ports@[i as int].samples.rtt@, sample.rtt);
                    }
                    store_sample(&mut self.ports[i].samples.rtt, sample.rtt);
                    self.ports[i].history.rtt.record(second, sample.rtt);
                },
                None => {},
            }
        }
        if sample_mode {
            if running && elapsed_millis > IAT_GRACE_MILLIS {
                if sample.iat > 0 && sample.iat < SAMPLE_BOUND {
                    match from_rx {
                        Some(i) => {
                            proof {
                                lemma_stored_are_samples(
                                    self.ports@[i as int].samples.rx_iat@,
                                    sample.iat,
                                );
                            }
                            store_sample(&mut self.ports[i].samples.rx_iat, sample.iat);
                        },
                        None => match from_tx {
                            Some(i) => {
                                proof {
                                    lemma_stored_are_samples(
                                        self.ports@[i as int].samples.tx_iat@,
                                        sample.iat,
                                    );
                                }
                                store_sample(&mut self.ports[i].samples.tx_iat, sample.iat);
                            },
                            None => {},
                        },
                    }
                }
            } else {
                let ghost stored_rtt = self.ports@;
                let mut j: usize = 0;
                while j < self.ports.len()
                    invariant
                        j <= self.ports@.len(),
                        self.ports@.len() == stored_rtt.len(),
                        self.port_mapping == old(self).port_mapping,
                        self.index_mapping == old(self).index_mapping,
                        self.running == old(self).running,
                        self.apps == old(self).apps,
                        forall|k: int| j <= k < stored_rtt.len() ==> #[trigger] self.ports@[k] == stored_rtt[k],
                        forall|k: int|
                            0 <= k < j ==> {
                                let a = #[trigger] self.ports@[k];
                                let b = stored_rtt[k];
                                &&& a.port == b.port
                                &&& a.rates == b.rates
                                &&& a.apps == b.apps
                                &&& a.iats == b.iats
                                &&& a.history == b.history
                                &&& a.samples.rtt == b.samples.rtt
                                &&& a.samples.tx_iat@.len() == 0
                                &&& a.samples.rx_iat@.len() == 0
                            },
                    decreases stored_rtt.len() - j,
                {
                    self.ports[j].samples.tx_iat.clear();
                    self.ports[j].samples.rx_iat.clear();
                    j = j + 1;
                }
                proof {
                    assert forall|k: int| 0 <= k < old(self).ports@.len() implies #[trigger] sample_digest_applied(
                        old(self).port_mapping@,
                        k,
                        old(self).ports@[k],
                        self.ports@[k],
                        *sample,
                        running,
                        elapsed_millis,
                        sample_mode,
                    ) by {
                        assert(self.ports@[k].port == stored_rtt[k].port);
                        assert(self.ports@[k].samples.tx_iat@ =~= Seq::<u64>::empty());
                        assert(self.ports@[k].samples.rx_iat@ =~= Seq::<u64>::empty());
                    }
                }
            }
        }
    }
}

/// Committed rate of an active meter, in kilobits per second: 800 packets
/// of 64 bytes and 20 bytes between them in a second, rounded down.
pub const METER_RATE_KBPS: u32 = 67;

/// Number of meters, one for each port number.
pub const METER_COUNT: u32 = 512;

/// The configuration of the meter that limits the digests of one port.
#[derive(Clone, Copy, Debug, PartialEq, Eq, Structural)]
pub struct MeterEntry {
    /// Index of the meter: the number of the port.
    pub index: u32,
    pub cir_kbps: u32,
    pub pir_kbps: u32,
    pub cbs_kbits: u32,
    pub pbs_kbits: u32,
}

/// `port` is a recirculation port of some mapping.
pub open spec fn is_recirculation_port(mappings: Seq<PortMapping>, port: u32) -> bool {
    first_with_tx(mappings, port, 0) < mappings.len() || first_with_rx(mappings, port, 0)
        < mappings.len()
}

/// The meter of port `index`: active lets 800 small packets a second pass,
/// inactive none.
pub open spec fn meter_entry(index: u32, active: bool) -> MeterEntry {
    if active {
        MeterEntry {
            index,
            cir_kbps: METER_RATE_KBPS,
            pir_kbps: METER_RATE_KBPS,
            cbs_kbits: METER_RATE_KBPS,
            pbs_kbits: (2 * METER_RATE_KBPS) as u32,
        }
    } else {
        MeterEntry { index, cir_kbps: 0, pir_kbps: 0, cbs_kbits: 1, pbs_kbits: 1 }
    }
}

/// Quotient of `sum` by `n`, rounded to the nearest whole number, a half
/// upward.
pub open spec fn rounded_div(sum: int, n: int) -> int {
    sum / n + if sum % n >= n - sum % n {
        1int
    } else {
        0int
    }
}

/// `value`, or the largest `u64` if it is above that.
pub open spec fn saturate_u64(value: int) -> u64 {
    if value > u64::MAX {
        u64::MAX
    } else {
        value as u64
    }
}

/// `value`, or the largest `u32` if it is above that.
pub open spec fn saturate_u32(value: int) -> u32 {
    if value > u32::MAX {
        u32::MAX
    } else {
        value as u32
    }
}

/// Mean of a register pair of the data plane: the sum over the count,
/// where a count of zero stands for one, rounded and no more than a `u64`
/// holds.
pub open spec fn register_mean(sum: u128, n: u128) -> u64 {
    saturate_u64(rounded_div(sum as int, if n == 0 { 1 } else { n as int }))
}

/// Mean of a register pair of the data plane, in nanoseconds.
pub fn compute_register_mean(sum: u128, n: u128) -> (mean: u64)
    ensures
        mean == register_mean(sum, n),
{
    let n: u128 = if n == 0 { 1 } else { n };
    let quotient = sum / n;
    let rest = sum % n;
    assert(n >= 2 ==> quotient <= u128::MAX / 2) by (nonlinear_arith)
        requires
            quotient == sum / n,
            n > 0,
            sum <= u128::MAX,
    ;
    let rounded: u128 = if rest >= n - rest {
        quotient + 1
    } else {
        quotient
    };
    if rounded > u64::MAX as u128 {
        u64::MAX
    } else {
        rounded as u64
    }
}

/// The register value of the pipe that port `index` belongs to, if the
/// register has a value for it. The pipe is the port number without its
/// low seven bits.
pub fn pipe_value(values: &Vec<u128>, index: u32) -> (value: Option<u128>)
    ensures
        value == if (index >> 7u32) < values@.len() {
            Some(values@[(index >> 7u32) as int])
        } else {
            None
        },
{
    let pipe = (index >> 7u32) as usize;
    if pipe < values.len() {
        Some(values[pipe])
    } else {
        None
    }
}

/// Smallest of the samples; zero for none.
pub open spec fn min_of(samples: Seq<u64>) -> u64
    decreases samples.len(),
{
    if samples.len() == 0 {
        0
    } else if samples.len() == 1 {
        samples[0]
    } else if samples.last() < min_of(samples.drop_last()) {
        samples.last()
    } else {
        min_of(samples.drop_last())
    }
}

/// Largest of the samples; zero for none.
pub open spec fn max_of(samples: Seq<u64>) -> u64
    decreases samples.len(),
{
    if samples.len() == 0 {
        0
    } else if samples.last() > max_of(samples.drop_last()) {
        samples.last()
    } else {
        max_of(samples.drop_last())
    }
}

/// The smallest and the largest sample are among the samples' bounds.
pub proof fn lemma_min_max_bounds(samples: Seq<u64>, bound: u64)
    requires
        forall|i: int| 0 <= i < samples.len() ==> #[trigger] samples[i] <= bound,
    ensures
        min_of(samples) <= bound,
        max_of(samples) <= bound,
    decreases samples.len(),
{
    if samples.len() > 0 {
        lemma_min_max_bounds(samples.drop_last(), bound);
    }
}

/// Statistics of the stored round-trip times: mean, smallest, largest and
/// newest sample, the standard deviation as jitter, and their number.
pub fn rtt_statistics(samples: &VecDeque<u64>) -> (s: RTTStatistics)
    requires
        are_samples(samples@),
    ensures
        s.mean == mean_of(samples@),
        s.min == min_of(samples@),
        s.max == max_of(samples@),
        s.current == if samples@.len() == 0 {
            0
        } else {
            samples@.last()
        },
        is_floor_sqrt(sample_variance_of(samples@), s.jitter as nat),
        s.n == samples@.len(),
{
    let n = samples.len();
    let mut min: u64 = 0;
    let mut max: u64 = 0;
    let mut i: usize = 0;
    while i < n
        invariant
            n == samples@.len(),
            i <= n,
            min == min_of(samples@.subrange(0, i as int)),
            max == max_of(samples@.subrange(0, i as int)),
        decreases n - i,
    {
        proof {
            assert(samples@.subrange(0, i + 1).drop_last() =~= samples@.subrange(0, i as int));
        }
        let x = samples[i];
        if i == 0 || x < min {
            min = x;
        }
        if x > max {
            max = x;
        }
        i = i + 1;
    }
    proof {
        assert(samples@.subrange(0, n as int) =~= samples@);
        lemma_min_max_bounds(samples@, SAMPLE_BOUND);
    }
    let current = if n == 0 {
        0
    } else {
        samples[n - 1]
    };
    RTTStatistics {
        mean: average(samples),
        min: min as u32,
        max: max as u32,
        current: current as u32,
        jitter: std_dev(samples),
        n: n as u32,
    }
}

/// Statistics of the stored inter-arrival times of one path: mean,
/// standard deviation and number of the samples.
pub fn sampled_iat_values(samples: &VecDeque<u64>) -> (v: IATValues)
    requires
        are_samples(samples@),
    ensures
        v.mean == mean_of(samples@),
        v.std matches Some(d) && is_floor_sqrt(sample_variance_of(samples@), d as nat),
        v.mae == 0,
        v.n == samples@.len(),
{
    IATValues {
        mean: average(samples),
        std: Some(std_dev(samples)),
        mae: 0,
        n: samples.len() as u32,
    }
}

impl PortMonitor {
    /// Forgets the per-second histories, all five of them. Rates, counters
    /// and samples stay.
    pub fn clear_history(&mut self)
        ensures
            final(self).port == old(self).port,
            final(self).rates == old(self).rates,
            final(self).apps == old(self).apps,
            final(self).iats == old(self).iats,
            final(self).samples == old(self).samples,
            final(self).history.tx_rate_l1.points@.len() == 0,
            final(self).history.rx_rate_l1.points@.len() == 0,
            final(self).history.packet_loss.points@.len() == 0,
            final(self).history.out_of_order.points@.len() == 0,
            final(self).history.rtt.points@.len() == 0,
    {
        self.history.tx_rate_l1.clear();
        self.history.rx_rate_l1.clear();
        self.history.packet_loss.clear();
        self.history.out_of_order.clear();
        self.history.rtt.clear();
    }

    /// Forgets every sample and every history. Rates and counters stay.
    pub fn reset(&mut self)
        ensures
            final(self).port == old(self).port,
            final(self).rates == old(self).rates,
            final(self).apps == old(self).apps,
            final(self).iats == old(self).iats,
            final(self).samples.rtt@.len() == 0,
            final(self).samples.tx_iat@.len() == 0,
            final(self).samples.rx_iat@.len() == 0,
            final(self).history.tx_rate_l1.points@.len() == 0,
            final(self).history.rx_rate_l1.points@.len() == 0,
            final(self).history.packet_loss.points@.len() == 0,
            final(self).history.out_of_order.points@.len() == 0,
            final(self).history.rtt.points@.len() == 0,
    {
        self.samples.rtt.clear();
        self.samples.tx_iat.clear();
        self.samples.rx_iat.clear();
        self.history.tx_rate_l1.clear();
        self.history.rx_rate_l1.clear();
        self.history.packet_loss.clear();
        self.history.out_of_order.clear();
        self.history.rtt.clear();
    }
}

impl RateMonitor {
    /// A run starts: the per-second histories are forgotten. Says whether
    /// the rules that let round-trip times be measured are to be written,
    /// which they are unless outside traffic is analysed.
    pub fn on_start(&mut self, mode: GenerationMode) -> (write_monitoring_rules: bool)
        requires
            old(self).wf(),
        ensures
            final(self).wf(),
            write_monitoring_rules == (mode != GenerationMode::Analyze),
            final(self).port_mapping == old(self).port_mapping,
            final(self).index_mapping == old(self).index_mapping,
            final(self).apps == old(self).apps,
            final(self).running == old(self).running,
            final(self).ports@.len() == old(self).ports@.len(),
            forall|j: int|
                0 <= j < old(self).ports@.len() ==> {
                    let a = #[trigger] final(self).ports@[j];
                    let b = old(self).ports@[j];
                    &&& a.port == b.port
                    &&& a.rates == b.rates
                    &&& a.apps == b.apps
                    &&& a.iats == b.iats
                    &&& a.samples == b.samples
                    &&& a.history.tx_rate_l1.points@.len() == 0
                    &&& a.history.rx_rate_l1.points@.len() == 0
                    &&& a.history.packet_loss.points@.len() == 0
                    &&& a.history.out_of_order.points@.len() == 0
                    &&& a.history.rtt.points@.len() == 0
                },
    {
        let ghost before = self.ports@;
        let mut j: usize = 0;
        while j < self.ports.len()
            invariant
                j <= self.ports@.len(),
                self.ports@.len() == before.len(),
                before == old(self).ports@,
                old(self).wf(),
                self.port_mapping == old(self).port_mapping,
                self.index_mapping == old(self).index_mapping,
                self.apps == old(self).apps,
                self.running == old(self).running,
                forall|k: int| j <= k < before.len() ==> #[trigger] self.ports@[k] == before[k],
                forall|k: int|
                    0 <= k < j ==> {
                        let a = #[trigger] self.ports@[k];
                        let b = before[k];
                        &&& a.port == b.port
                        &&& a.rates == b.rates
                        &&& a.apps == b.apps
                        &&& a.iats == b.iats
                        &&& a.samples == b.samples
                        &&& a.history.tx_rate_l1.points@.len() == 0
                        &&& a.history.rx_rate_l1.points@.len() == 0
                        &&& a.history.packet_loss.points@.len() == 0
                        &&& a.history.out_of_order.points@.len() == 0
                        &&& a.history.rtt.points@.len() == 0
                    },
            decreases before.len() - j,
        {
            self.ports[j].clear_history();
            j = j + 1;
        }
        proof {
            assert forall|k: int| 0 <= k < self.ports@.len() implies (#[trigger] self.ports@[k]).wf()
                && self.ports@[k].port == self.port_mapping@[k].port by {
                assert(before[k].wf());
            }
        }
        match mode {
            GenerationMode::Analyze => false,
            _ => true,
        }
    }

    /// A run stops: nothing is forgotten.
    pub fn on_stop(&self) {
    }

    /// The statistics are reset: every sample and every history is
    /// forgotten. The counters of the data plane are to be cleared as well.
    pub fn on_reset(&mut self)
        requires
            old(self).wf(),
        ensures
            final(self).wf(),
            final(self).port_mapping == old(self).port_mapping,
            final(self).index_mapping == old(self).index_mapping,
            final(self).apps == old(self).apps,
            final(self).running == old(self).running,
            final(self).ports@.len() == old(self).ports@.len(),
            forall|j: int|
                0 <= j < old(self).ports@.len() ==> {
                    let a = #[trigger] final(self).ports@[j];
                    let b = old(self).ports@[j];
                    &&& a.port == b.port
                    &&& a.rates == b.rates
                    &&& a.apps == b.apps
                    &&& a.iats == b.iats
                    &&& a.samples.rtt@.len() == 0
                    &&& a.samples.tx_iat@.len() == 0
                    &&& a.samples.rx_iat@.len() == 0
                    &&& a.history.tx_rate_l1.points@.len() == 0
                    &&& a.history.rx_rate_l1.points@.len() == 0
                    &&& a.history.packet_loss.points@.len() == 0
                    &&& a.history.out_of_order.points@.len() == 0
                    &&& a.history.rtt.points@.len() == 0
                },
    {
        let ghost before = self.ports@;
        let mut j: usize = 0;
        while j < self.ports.len()
            invariant
                j <= self.ports@.len(),
                self.ports@.len() == before.len(),
                before == old(self).ports@,
                old(self).wf(),
                self.port_mapping == old(self).port_mapping,
                self.index_mapping == old(self).index_mapping,
                self.apps == old(self).apps,
                self.running == old(self).running,
                forall|k: int| j <= k < before.len() ==> #[trigger] self.ports@[k] == before[k],
                forall|k: int|
                    0 <= k < j ==> {
                        let a = #[trigger] self.ports@[k];
                        let b = before[k];
                        &&& a.port == b.port
                        &&& a.rates == b.rates
                        &&& a.apps == b.apps
                        &&& a.iats == b.iats
                        &&& a.samples.rtt@.len() == 0
                        &&& a.samples.tx_iat@.len() == 0
                        &&& a.samples.rx_iat@.len() == 0
                        &&& a.history.tx_rate_l1.points@.len() == 0
                        &&& a.history.rx_rate_l1.points@.len() == 0
                        &&& a.history.packet_loss.points@.len() == 0
                        &&& a.history.out_of_order.points@.len() == 0
                        &&& a.history.rtt.points@.len() == 0
                    },
            decreases before.len() - j,
        {
            self.ports[j].reset();
            j = j + 1;
        }
        proof {
            assert forall|k: int| 0 <= k < self.ports@.len() implies (#[trigger] self.ports@[k]).wf()
                && self.ports@[k].port == self.port_mapping@[k].port by {
                assert(before[k].wf());
            }
        }
    }

    /// The receive-path recirculation ports, on which the rules that let
    /// round-trip times be measured match.
    pub fn init_monitoring_rules(&self) -> (ports: Vec<u32>)
        ensures
            ports@.len() == self.port_mapping@.len(),
            forall|i: int|
                0 <= i < ports@.len() ==> #[trigger] ports@[i] == self.port_mapping@[i].rx_recirculation,
    {
        let mut ports: Vec<u32> = Vec::new();
        let mut i: usize = 0;
        while i < self.port_mapping.len()
            invariant
                i <= self.port_mapping@.len(),
                ports@.len() == i,
                forall|k: int|
                    0 <= k < i ==> #[trigger] ports@[k] == self.port_mapping@[k].rx_recirculation,
            decreases self.port_mapping@.len() - i,
        {
            ports.push(self.port_mapping[i].rx_recirculation);
            i = i + 1;
        }
        ports
    }

    /// The meters that limit the digests with round-trip times: active on
    /// the recirculation ports, inactive on every other port.
    pub fn init_rtt_meter(&self) -> (meters: Vec<MeterEntry>)
        ensures
            meters@.len() == METER_COUNT,
            forall|x: int|
                0 <= x < METER_COUNT ==> #[trigger] meters@[x] == meter_entry(
                    x as u32,
                    is_recirculation_port(self.port_mapping@, x as u32),
                ),
    {
        self.meter_entries(true)
    }

    /// The meters that limit the digests with inter-arrival times: as those
    /// for round-trip times in sample mode, all inactive otherwise.
    pub fn init_iat_meter(&self, sample_mode: bool) -> (meters: Vec<MeterEntry>)
        ensures
            meters@.len() == METER_COUNT,
            forall|x: int|
                0 <= x < METER_COUNT ==> #[trigger] meters@[x] == meter_entry(
                    x as u32,
                    sample_mode && is_recirculation_port(self.port_mapping@, x as u32),
                ),
    {
        self.meter_entries(sample_mode)
    }

    /// One meter for each port number: active on the recirculation ports if
    /// `enabled`, inactive everywhere else.
    pub fn meter_entries(&self, enabled: bool) -> (meters: Vec<MeterEntry>)
        ensures
            meters@.len() == METER_COUNT,
            forall|x: int|
                0 <= x < METER_COUNT ==> #[trigger] meters@[x] == meter_entry(
                    x as u32,
                    enabled && is_recirculation_port(self.port_mapping@, x as u32),
                ),
    {
        let mut meters: Vec<MeterEntry> = Vec::new();
        let mut x: u32 = 0;
        while x < METER_COUNT
            invariant
                x <= METER_COUNT,
                meters@.len() == x,
                forall|k: int|
                    0 <= k < x ==> #[trigger] meters@[k] == meter_entry(
                        k as u32,
                        enabled && is_recirculation_port(self.port_mapping@, k as u32),
                    ),
            decreases METER_COUNT - x,
        {
            let active = enabled && self.source_of(x).is_some();
            let entry = if active {
                MeterEntry {
                    index: x,
                    cir_kbps: METER_RATE_KBPS,
                    pir_kbps: METER_RATE_KBPS,
                    cbs_kbits: METER_RATE_KBPS,
                    pbs_kbits: 2 * METER_RATE_KBPS,
                }
            } else {
                MeterEntry { index: x, cir_kbps: 0, pir_kbps: 0, cbs_kbits: 1, pbs_kbits: 1 }
            };
            meters.push(entry);
            x = x + 1;
        }
        meters
    }

    /// Takes in the mean inter-arrival time that the data plane has summed
    /// up for recirculation port `index`: `sum` nanoseconds over `n`
    /// arrivals. Returns the mean that is to be written back, for the data
    /// plane to measure deviations against; nothing for a port that is no
    /// recirculation port.
    pub fn monitor_iat(&mut self, index: u32, sum: u128, n: u128) -> (write_back: Option<u32>)
        requires
            old(self).wf(),
        ensures
            final(self).wf(),
            final(self).port_mapping == old(self).port_mapping,
            final(self).index_mapping == old(self).index_mapping,
            final(self).apps == old(self).apps,
            final(self).running == old(self).running,
            final(self).ports@.len() == old(self).ports@.len(),
            match digest_source(old(self).port_mapping@, index) {
                None => write_back is None && final(self).ports@ == old(self).ports@,
                Some((i, direction)) => {
                    let values = IATValues {
                        mean: register_mean(sum, n),
                        n: saturate_u32(if n == 0 { 1 } else { n as int }),
                        ..match direction {
                            Direction::Tx => old(self).ports@[i].iats.tx,
                            Direction::Rx => old(self).ports@[i].iats.rx,
                        }
                    };
                    &&& write_back == Some(saturate_u32(register_mean(sum, n) as int))
                    &&& forall|j: int|
                        0 <= j < old(self).ports@.len() && j != i ==> #[trigger] final(self).ports@[j] == old(self).ports@[j]
                    &&& final(self).ports@[i].port == old(self).ports@[i].port
                    &&& final(self).ports@[i].rates == old(self).ports@[i].rates
                    &&& final(self).ports@[i].apps == old(self).ports@[i].apps
                    &&& final(self).ports@[i].samples == old(self).ports@[i].samples
                    &&& final(self).ports@[i].history == old(self).ports@[i].history
                    &&& final(self).ports@[i].iats == match direction {
                        Direction::Tx => IATStatistics { tx: values, ..old(self).ports@[i].iats },
                        Direction::Rx => IATStatistics { rx: values, ..old(self).ports@[i].iats },
                    }
                },
            },
    {
        let (i, direction) = match self.source_of(index) {
            None => {
                return None;
            },
            Some(source) => source,
        };
        let mean = compute_register_mean(sum, n);
        let count: u32 = if n == 0 {
            1
        } else if n > u32::MAX as u128 {
            u32::MAX
        } else {
            n as u32
        };
        match direction {
            Direction::Tx => {
                self.ports[i].iats.tx.mean = mean;
                self.ports[i].iats.tx.n = count;
            },
            Direction::Rx => {
                self.ports[i].iats.rx.mean = mean;
                self.ports[i].iats.rx.n = count;
            },
        }
        if mean > u32::MAX as u64 {
            Some(u32::MAX)
        } else {
            Some(mean as u32)
        }
    }

    /// Takes in the mean absolute error of the inter-arrival time that the
    /// data plane has summed up for recirculation port `index`.
    pub fn monitor_iat_mae(&mut self, index: u32, sum: u128, n: u128)
        requires
            old(self).wf(),
        ensures
            final(self).wf(),
            final(self).port_mapping == old(self).port_mapping,
            final(self).index_mapping == old(self).index_mapping,
            final(self).apps == old(self).apps,
            final(self).running == old(self).running,
            final(self).ports@.len() == old(self).ports@.len(),
            match digest_source(old(self).port_mapping@, index) {
                None => final(self).ports@ == old(self).ports@,
                Some((i, direction)) => {
                    &&& forall|j: int|
                        0 <= j < old(self).ports@.len() && j != i ==> #[trigger] final(self).ports@[j] == old(self).ports@[j]
                    &&& final(self).ports@[i].port == old(self).ports@[i].port
                    &&& final(self).ports@[i].rates == old(self).ports@[i].rates
                    &&& final(self).ports@[i].apps == old(self).ports@[i].apps
                    &&& final(self).ports@[i].samples == old(self).ports@[i].samples
                    &&& final(self).ports@[i].history == old(self).ports@[i].history
                    &&& final(self).ports@[i].iats == match direction {
                        Direction::Tx => IATStatistics {
                            tx: IATValues {
                                mae: register_mean(sum, n),
                                ..old(self).ports@[i].iats.tx
                            },
                            ..old(self).ports@[i].iats
                        },
                        Direction::Rx => IATStatistics {
                            rx: IATValues {
                                mae: register_mean(sum, n),
                                ..old(self).ports@[i].iats.rx
                            },
                            ..old(self).ports@[i].iats
                        },
                    }
                },
            },
    {
        let (i, direction) = match self.source_of(index) {
            None => {
                return ;
            },
            Some(source) => source,
        };
        let mae = compute_register_mean(sum, n);
        match direction {
            Direction::Tx => {
                self.ports[i].iats.tx.mae = mae;
            },
            Direction::Rx => {
                self.ports[i].iats.rx.mae = mae;
            },
        }
    }
}

/// Whether the buffer holds no more samples than there is room for, each
/// within the bounds for samples.
pub fn check_samples(samples: &VecDeque<u64>) -> (r: bool)
    ensures
        r == are_samples(samples@),
{
    if samples.len() > RTT_STORAGE {
        return false;
    }
    let mut i: usize = 0;
    while i < samples.len()
        invariant
            i <= samples@.len(),
            forall|k: int| 0 <= k < i ==> 0 < #[trigger] samples@[k] < SAMPLE_BOUND,
        decreases samples@.len() - i,
    {
        let sample = samples[i];
        if sample == 0 || sample >= SAMPLE_BOUND {
            return false;
        }
        i = i + 1;
    }
    true
}

impl PortMonitor {
    /// Whether the monitor is well formed.
    pub fn is_sound(&self) -> (r: bool)
        ensures
            r == self.wf(),
    {
        self.apps.tx.len() == APP_SLOTS && self.apps.rx.len() == APP_SLOTS && check_samples(
            &self.samples.rtt,
        ) && check_samples(&self.samples.tx_iat) && check_samples(&self.samples.rx_iat)
    }
}

impl RateMonitor {
    /// Whether the monitor is well formed.
    pub fn is_sound(&self) -> (r: bool)
        ensures
            r == self.wf(),
    {
        if !ports_are_distinct(&self.port_mapping) || self.ports.len() != self.port_mapping.len()
            || self.apps.len() != self.index_mapping.len() {
            return false;
        }
        let mut i: usize = 0;
        while i < self.ports.len()
            invariant
                i <= self.ports@.len(),
                self.ports@.len() == self.port_mapping@.len(),
                forall|k: int|
                    0 <= k < i ==> (#[trigger] self.ports@[k]).wf() && self.ports@[k].port
                        == self.port_mapping@[k].port,
            decreases self.ports@.len() - i,
        {
            if !self.ports[i].is_sound() || self.ports[i].port != self.port_mapping[i].port {
                return false;
            }
            i = i + 1;
        }
        true
    }
}

/// Packets that the first `n` ports have lost, together.
pub open spec fn lost_packets(ports: Seq<PortMonitor>, n: int) -> nat
    decreases n,
{
    if n <= 0 {
        0
    } else {
        lost_packets(ports, n - 1) + ports[n - 1].rates.packet_loss as nat
    }
}

impl RateMonitor {
    /// Packets that the ports have lost, together; no more than a `u64`
    /// holds.
    pub fn total_packet_loss(&self) -> (lost: u64)
        ensures
            lost == if lost_packets(self.ports@, self.ports@.len() as int) > u64::MAX {
                u64::MAX as nat
            } else {
                lost_packets(self.ports@, self.ports@.len() as int)
            },
    {
        let mut lost: u64 = 0;
        let mut i: usize = 0;
        while i < self.ports.len()
            invariant
                i <= self.ports@.len(),
                lost == if lost_packets(self.ports@, i as int) > u64::MAX {
                    u64::MAX as nat
                } else {
                    lost_packets(self.ports@, i as int)
                },
            decreases self.ports@.len() - i,
        {
            lost = lost.saturating_add(self.ports[i].rates.packet_loss);
            i = i + 1;
        }
        lost
    }
}

} // verus!
