//! Plain data of the statistics that the monitors publish.

use vstd::prelude::*;

verus! {

/// Packet counts per frame-size range, for each front panel port.
#[derive(Clone, Debug)]
pub struct FrameSizeStatistics {
    pub frame_size: Vec<PortRangeCount>,
}

/// The packet counts of one front panel port.
#[derive(Clone, Debug)]
pub struct PortRangeCount {
    /// Number of the front panel port.
    pub port: u32,
    pub counts: RangeCount,
}

/// Frame-size ranges with their counts, on the send and on the receive path.
#[derive(Clone, Debug)]
pub struct RangeCount {
    pub tx: Vec<RangeCountValue>,
    pub rx: Vec<RangeCountValue>,
}

impl RangeCount {
    /// No range on either path.
    pub fn default() -> (r: RangeCount)
        ensures
            r.tx@ == Seq::<RangeCountValue>::empty(),
            r.rx@ == Seq::<RangeCountValue>::empty(),
    {
        RangeCount { tx: Vec::new(), rx: Vec::new() }
    }
}

/// Number of packets whose frame size lies in `low..=high`.
#[derive(Clone, Copy, Debug, PartialEq, Eq, Structural)]
pub struct RangeCountValue {
    /// Lower bound on the frame size.
    pub low: u32,
    /// Upper bound on the frame size.
    pub high: u32,
    /// Number of packets with `low <= size <= high`.
    pub packets: u128,
}

impl RangeCountValue {
    pub fn new(low: u32, high: u32, packets: u128) -> (r: RangeCountValue)
        ensures
            r == (RangeCountValue { low, high, packets }),
    {
        RangeCountValue { low, high, packets }
    }
}

impl FrameSizeStatistics {
    /// Statistics without any port.
    pub fn default() -> (r: FrameSizeStatistics)
        ensures
            r.frame_size@.len() == 0,
    {
        FrameSizeStatistics { frame_size: Vec::new() }
    }
}

/// Packet counts per frame type, for each front panel port.
#[derive(Clone, Debug)]
pub struct FrameTypeStatistics {
    pub frame_type_data: Vec<PortTypeCount>,
}

/// The packet counts of one front panel port.
#[derive(Clone, Debug)]
pub struct PortTypeCount {
    /// Number of the front panel port.
    pub port: u32,
    pub counts: TypeCount,
}

/// The kinds of frames that are counted apart.
#[derive(Clone, Copy, Debug, PartialEq, Eq, Structural)]
pub enum FrameType {
    Multicast,
    Unicast,
    Vxlan,
    Ipv4,
    Ipv6,
    Vlan,
    QinQ,
    Arp,
    Mpls,
    Unknown,
}

/// Number of packets of one frame type.
#[derive(Clone, Copy, Debug, PartialEq, Eq, Structural)]
pub struct TypeCountValue {
    pub frame_type: FrameType,
    pub packets: u128,
}

/// Number of packets per frame type that have been sent and received.
#[derive(Clone, Debug)]
pub struct TypeCount {
    /// Send path.
    pub tx: Vec<TypeCountValue>,
    /// Receive path.
    pub rx: Vec<TypeCountValue>,
}

impl FrameTypeStatistics {
    /// Statistics without any port.
    pub fn default() -> (r: FrameTypeStatistics)
        ensures
            r.frame_type_data@.len() == 0,
    {
        FrameTypeStatistics { frame_type_data: Vec::new() }
    }
}

impl TypeCount {
    /// No frame type on either path.
    pub fn default() -> (r: TypeCount)
        ensures
            r.tx@.len() == 0,
            r.rx@.len() == 0,
    {
        TypeCount { tx: Vec::new(), rx: Vec::new() }
    }
}

/// Range and resolution of the round-trip-time histogram of one port.
#[derive(Clone, Copy, Debug, PartialEq, Eq, Structural)]
pub struct RttHistogramConfig {
    /// Smallest round-trip time, in nanoseconds, that falls into a bin.
    pub min: u32,
    /// End of the histogram's range, in nanoseconds.
    pub max: u32,
    /// Number of bins.
    pub num_bins: u32,
}

impl RttHistogramConfig {
    /// A configuration that the histogram table accepts: a non-empty range
    /// and at least one bin.
    pub open spec fn valid(&self) -> bool {
        self.max > self.min && self.num_bins > 0
    }

    /// Width of one bin: the range divided by the number of bins, rounded down.
    pub open spec fn bin_width(&self) -> int {
        (self.max - self.min) / (self.num_bins as int)
    }

    pub fn get_bin_width(&self) -> (w: u32)
        requires
            self.min <= self.max,
            self.num_bins > 0,
        ensures
            w == self.bin_width(),
    {
        (self.max - self.min) / self.num_bins
    }
}

impl Default for RttHistogramConfig {
    fn default() -> (r: Self)
        ensures
            r == (RttHistogramConfig { min: 1500, max: 2500, num_bins: 10 }),
    {
        RttHistogramConfig { min: 1500, max: 2500, num_bins: 10 }
    }
}

} // verus!

verus! {

/// One estimated percentile of the round-trip time.
#[derive(Clone, Copy, Debug, PartialEq, Eq, Structural)]
pub struct RttPercentile {
    /// The requested percentile, in percent.
    pub percentile: u32,
    /// Index of the bin in which the cumulative count reaches the percentile.
    pub bin: u32,
    /// Middle of that bin, in half nanoseconds.
    pub rtt_half_ns: u64,
}

/// Statistics derived from the counters of one port's histogram. Times are
/// in half nanoseconds, the unit in which the middle of every bin is whole.
#[derive(Clone, Debug)]
pub struct RttHistogramData {
    /// Packet count per bin, by bin index.
    pub data_bins: Vec<u128>,
    /// The estimated percentiles, in the order in which they were asked for.
    pub percentiles: Vec<RttPercentile>,
    /// Mean round-trip time; `None` while no packet has fallen into a bin.
    pub mean_rtt: Option<u64>,
    /// Standard deviation of the round-trip time; `None` where the mean is.
    pub std_dev_rtt: Option<u64>,
    /// Number of packets that fell into some bin.
    pub total_pkt_count: u128,
    /// Number of packets outside every bin.
    pub missed_bin_count: u128,
}

impl RttHistogramData {
    /// Nothing has been read yet.
    pub open spec fn is_empty(&self) -> bool {
        &&& self.data_bins@.len() == 0
        &&& self.percentiles@.len() == 0
        &&& self.mean_rtt is None
        &&& self.std_dev_rtt is None
        &&& self.total_pkt_count == 0
        &&& self.missed_bin_count == 0
    }
}

impl Default for RttHistogramData {
    fn default() -> (r: Self)
        ensures
            r.is_empty(),
    {
        RttHistogramData {
            data_bins: Vec::new(),
            percentiles: Vec::new(),
            mean_rtt: None,
            std_dev_rtt: None,
            total_pkt_count: 0,
            missed_bin_count: 0,
        }
    }
}

/// Configuration and derived statistics of one port's histogram.
#[derive(Clone, Debug)]
pub struct RttHistogram {
    pub config: RttHistogramConfig,
    pub data: RttHistogramData,
}

impl RttHistogram {
    /// The default configuration, with nothing read.
    pub fn default() -> (r: RttHistogram)
        ensures
            r.config == (RttHistogramConfig { min: 1500, max: 2500, num_bins: 10 }),
            r.data.is_empty(),
    {
        RttHistogram { config: RttHistogramConfig::default(), data: RttHistogramData::default() }
    }
}

} // verus!
