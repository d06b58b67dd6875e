//! Counts of the frames that are sent and received, by frame size.

use crate::ports::{
    find_port, find_rx_recirculation, first_with_port, first_with_rx, lemma_first_with_port,
    lemma_first_with_rx, PortMapping,
};
use crate::statistics::{FrameSizeStatistics, PortRangeCount, RangeCount, RangeCountValue};
use vstd::prelude::*;

verus! {

/// A range of frame sizes, in bytes, both ends included.
#[derive(Clone, Copy, Debug, PartialEq, Eq, Structural)]
pub struct FrameRange {
    pub lower: u32,
    pub upper: u32,
}

/// One rule of the table that counts frames by size.
#[derive(Clone, Copy, Debug, PartialEq, Eq, Structural)]
pub struct FrameSizeRule {
    /// Egress port that the rule matches.
    pub egress_port: u32,
    /// Frame sizes that the rule matches.
    pub range: FrameRange,
}

/// One entry of the table that counts frames by size, as it is read back.
#[derive(Clone, Copy, Debug, PartialEq, Eq, Structural)]
pub struct FrameCounterEntry {
    /// The egress port that the entry matches, if it matches on one.
    pub egress_port: Option<u32>,
    /// The range of frame sizes that the entry matches, if it matches on
    /// one.
    pub range: Option<FrameRange>,
    /// The entry's packet counter.
    pub packets: u64,
}

/// The ranges of frame sizes that are counted apart.
pub open spec fn frame_ranges() -> Seq<FrameRange> {
    seq![
        FrameRange { lower: 0, upper: 63 },
        FrameRange { lower: 64, upper: 64 },
        FrameRange { lower: 65, upper: 127 },
        FrameRange { lower: 128, upper: 255 },
        FrameRange { lower: 256, upper: 511 },
        FrameRange { lower: 512, upper: 1023 },
        FrameRange { lower: 1024, upper: 1518 },
        FrameRange { lower: 1519, upper: 21519 },
    ]
}

/// Counts the frames of each port by size.
#[derive(Clone, Debug)]
pub struct FrameSizeMonitor {
    /// The recirculation ports of each front panel port.
    pub port_mapping: Vec<PortMapping>,
    /// The ranges of frame sizes that are counted apart.
    pub frame_ranges: Vec<FrameRange>,
    pub statistics: FrameSizeStatistics,
}

/// The rules of the first `ports` ports and, of the port after them, of the
/// first `ranges` ranges: for each range one rule on the front panel port,
/// which counts what is sent, and one on the receive-path recirculation
/// port, which counts what is received.
pub open spec fn size_rules(
    mappings: Seq<PortMapping>,
    ranges: Seq<FrameRange>,
    count: int,
) -> Seq<FrameSizeRule>
    decreases count,
{
    if count <= 0 || ranges.len() == 0 {
        Seq::empty()
    } else {
        let port = (count - 1) / (ranges.len() as int);
        let range = ranges[(count - 1) % (ranges.len() as int)];
        size_rules(mappings, ranges, count - 1).push(
            FrameSizeRule { egress_port: mappings[port].port, range },
        ).push(FrameSizeRule { egress_port: mappings[port].rx_recirculation, range })
    }
}

/// What an entry adds to the counts of the front panel port `port`: a
/// count of sent frames if it matches that port, a count of received frames
/// if it matches the port's receive path and no front panel port.
pub open spec fn counted_as(mappings: Seq<PortMapping>, entry: FrameCounterEntry, port: u32) -> Option<
    (bool, RangeCountValue),
> {
    match (entry.egress_port, entry.range) {
        (Some(egress), Some(range)) => {
            let value = RangeCountValue {
                low: range.lower,
                high: range.upper,
                packets: entry.packets as u128,
            };
            if first_with_port(mappings, egress, 0) < mappings.len() {
                if egress == port {
                    Some((true, value))
                } else {
                    None
                }
            } else if first_with_rx(mappings, egress, 0) < mappings.len() && mappings[first_with_rx(
                mappings,
                egress,
                0,
            )].port == port {
                Some((false, value))
            } else {
                None
            }
        },
        _ => None,
    }
}

/// The counts of sent frames, if `sent`, or of received frames of the
/// front panel port `port` that the entries give, in their order.
pub open spec fn counts_of(
    mappings: Seq<PortMapping>,
    entries: Seq<FrameCounterEntry>,
    port: u32,
    sent: bool,
) -> Seq<RangeCountValue>
    decreases entries.len(),
{
    if entries.len() == 0 {
        Seq::empty()
    } else {
        let before = counts_of(mappings, entries.drop_last(), port, sent);
        match counted_as(mappings, entries.last(), port) {
            Some((s, value)) => if s == sent {
                before.push(value)
            } else {
                before
            },
            None => before,
        }
    }
}

/// Number of frames that the counts hold together, and no more than a
/// `u64` holds.
pub open spec fn packets_in(counts: Seq<RangeCountValue>) -> nat
    decreases counts.len(),
{
    if counts.len() == 0 {
        0
    } else {
        let sum = packets_in(counts.drop_last()) + counts.last().packets as nat;
        if sum > u64::MAX {
            u64::MAX as nat
        } else {
            sum
        }
    }
}

/// Number of frames that the first `n` ports have sent together, and no
/// more than a `u64` holds.
pub open spec fn packets_sent(ports: Seq<PortRangeCount>, n: int) -> nat
    decreases n,
{
    if n <= 0 {
        0
    } else {
        let sum = packets_sent(ports, n - 1) + packets_in(ports[n - 1].counts.tx@);
        if sum > u64::MAX {
            u64::MAX as nat
        } else {
            sum
        }
    }
}

/// Number of frames that the counts hold together.
pub fn count_packets(counts: &Vec<RangeCountValue>) -> (total: u64)
    ensures
        total == packets_in(counts@),
{
    let mut total: u64 = 0;
    let mut i: usize = 0;
    while i < counts.len()
        invariant
            i <= counts@.len(),
            total == packets_in(counts@.subrange(0, i as int)),
        decreases counts@.len() - i,
    {
        proof {
            assert(counts@.subrange(0, i + 1).drop_last() =~= counts@.subrange(0, i as int));
        }
        let packets = counts[i].packets;
        let clipped: u64 = if packets > u64::MAX as u128 {
            u64::MAX
        } else {
            packets as u64
        };
        total = total.saturating_add(clipped);
        i = i + 1;
    }
    proof {
        assert(counts@.subrange(0, i as int) =~= counts@);
    }
    total
}

/// Number of frames that all ports have sent together.
pub fn total_packets_sent(statistics: &FrameSizeStatistics) -> (total: u64)
    ensures
        total == packets_sent(statistics.frame_size@, statistics.frame_size@.len() as int),
{
    let mut total: u64 = 0;
    let mut i: usize = 0;
    while i < statistics.frame_size.len()
        invariant
            i <= statistics.frame_size@.len(),
            total == packets_sent(statistics.frame_size@, i as int),
        decreases statistics.frame_size@.len() - i,
    {
        total = total.saturating_add(count_packets(&statistics.frame_size[i].counts.tx));
        i = i + 1;
    }
    total
}

impl FrameSizeMonitor {
    /// A monitor for the given ports that has counted nothing.
    pub fn new(port_mapping: Vec<PortMapping>) -> (m: FrameSizeMonitor)
        ensures
            m.port_mapping@ == port_mapping@,
            m.frame_ranges@ == frame_ranges(),
            m.statistics.frame_size@.len() == 0,
    {
        let mut ranges: Vec<FrameRange> = Vec::new();
        ranges.push(FrameRange { lower: 0, upper: 63 });
        ranges.push(FrameRange { lower: 64, upper: 64 });
        ranges.push(FrameRange { lower: 65, upper: 127 });
        ranges.push(FrameRange { lower: 128, upper: 255 });
        ranges.push(FrameRange { lower: 256, upper: 511 });
        ranges.push(FrameRange { lower: 512, upper: 1023 });
        ranges.push(FrameRange { lower: 1024, upper: 1518 });
        ranges.push(FrameRange { lower: 1519, upper: 21519 });
        proof {
            assert(ranges@ =~= frame_ranges());
        }
        FrameSizeMonitor {
            port_mapping,
            frame_ranges: ranges,
            statistics: FrameSizeStatistics::default(),
        }
    }

    /// The rules of the table: for each port and each range, one rule that
    /// counts what is sent and one that counts what is received.
    pub fn configure(&self) -> (rules: Vec<FrameSizeRule>)
        requires
            self.port_mapping@.len() * self.frame_ranges@.len() <= usize::MAX,
        ensures
            rules@ == size_rules(
                self.port_mapping@,
                self.frame_ranges@,
                (self.port_mapping@.len() * self.frame_ranges@.len()) as int,
            ),
    {
        let mut rules: Vec<FrameSizeRule> = Vec::new();
        let n = self.frame_ranges.len();
        if n == 0 {
            return rules;
        }
        let mut p: usize = 0;
        while p < self.port_mapping.len()
            invariant
                n == self.frame_ranges@.len(),
                n > 0,
                p <= self.port_mapping@.len(),
                self.port_mapping@.len() * n <= usize::MAX,
                rules@ == size_rules(self.port_mapping@, self.frame_ranges@, (p * n) as int),
            decreases self.port_mapping@.len() - p,
        {
            let mapping = self.port_mapping[p];
            let mut r: usize = 0;
            while r < n
                invariant
                    n == self.frame_ranges@.len(),
                    n > 0,
                    r <= n,
                    p < self.port_mapping@.len(),
                    self.port_mapping@.len() * n <= usize::MAX,
                    mapping == self.port_mapping@[p as int],
                    rules@ == size_rules(self.port_mapping@, self.frame_ranges@, (p * n + r) as int),
                decreases n - r,
            {
                proof {
                    let c = p * n + r;
                    assert(c / (n as int) == p && c % (n as int) == r) by (nonlinear_arith)
                        requires
                            c == p * n + r,
                            0 <= r < n,
                            0 <= p,
                    ;
                }
                let range = self.frame_ranges[r];
                rules.push(FrameSizeRule { egress_port: mapping.port, range });
                rules.push(FrameSizeRule { egress_port: mapping.rx_recirculation, range });
                r = r + 1;
            }
            proof {
                assert(p * n + n == (p + 1) * n) by (nonlinear_arith);
            }
            p = p + 1;
        }
        rules
    }

    /// Takes a reading of the table: for each port, the counts of the
    /// frames that it has sent and received, by frame size.
    pub fn monitor_statistics(&mut self, entries: &Vec<FrameCounterEntry>)
        ensures
            final(self).port_mapping == old(self).port_mapping,
            final(self).frame_ranges == old(self).frame_ranges,
            final(self).statistics.frame_size@.len() == old(self).port_mapping@.len(),
            forall|i: int|
                0 <= i < old(self).port_mapping@.len() ==> {
                    let port = old(self).port_mapping@[i].port;
                    let counted = #[trigger] final(self).statistics.frame_size@[i];
                    &&& counted.port == port
                    &&& counted.counts.tx@ == counts_of(
                        old(self).port_mapping@,
                        entries@,
                        port,
                        true,
                    )
                    &&& counted.counts.rx@ == counts_of(
                        old(self).port_mapping@,
                        entries@,
                        port,
                        false,
                    )
                },
    {
        let mut counted: Vec<PortRangeCount> = Vec::new();
        let mut i: usize = 0;
        while i < self.port_mapping.len()
            invariant
                i <= self.port_mapping@.len(),
                self.port_mapping == old(self).port_mapping,
                self.frame_ranges == old(self).frame_ranges,
                counted@.len() == i,
                forall|k: int|
                    0 <= k < i ==> {
                        let port = self.port_mapping@[k].port;
                        let c = #[trigger] counted@[k];
                        &&& c.port == port
                        &&& c.counts.tx@ == counts_of(self.port_mapping@, entries@, port, true)
                        &&& c.counts.rx@ == counts_of(self.port_mapping@, entries@, port, false)
                    },
            decreases self.port_mapping@.len() - i,
        {
            let port = self.port_mapping[i].port;
            let counts = self.port_counts(entries, port);
            counted.push(PortRangeCount { port, counts });
            i = i + 1;
        }
        self.statistics = FrameSizeStatistics { frame_size: counted };
    }

    /// The counts of the front panel port `port` that the entries give.
    pub fn port_counts(&self, entries: &Vec<FrameCounterEntry>, port: u32) -> (counts: RangeCount)
        ensures
            counts.tx@ == counts_of(self.port_mapping@, entries@, port, true),
            counts.rx@ == counts_of(self.port_mapping@, entries@, port, false),
    {
        let mut counts = RangeCount::default();
        let mut i: usize = 0;
        proof {
            assert(entries@.subrange(0, 0) =~= Seq::<FrameCounterEntry>::empty());
        }
        while i < entries.len()
            invariant
                i <= entries@.len(),
                counts.tx@ == counts_of(
                    self.port_mapping@,
                    entries@.subrange(0, i as int),
                    port,
                    true,
                ),
                counts.rx@ == counts_of(
                    self.port_mapping@,
                    entries@.subrange(0, i as int),
                    port,
                    false,
                ),
            decreases entries@.len() - i,
        {
            proof {
                assert(entries@.subrange(0, i + 1).drop_last() =~= entries@.subrange(0, i as int));
                assert(entries@.subrange(0, i + 1).last() == entries@[i as int]);
            }
            let entry = entries[i];
            match (entry.egress_port, entry.range) {
                (Some(egress), Some(range)) => {
                    let value = RangeCountValue::new(range.lower, range.upper, entry.packets as u128);
                    proof {
                        lemma_first_with_port(self.port_mapping@, egress, 0);
                        lemma_first_with_rx(self.port_mapping@, egress, 0);
                    }
                    match find_port(&self.port_mapping, egress) {
                        Some(_) => {
                            if egress == port {
                                counts.tx.push(value);
                            }
                        },
                        None => match find_rx_recirculation(&self.port_mapping, egress) {
                            Some(m) => {
                                if self.port_mapping[m].port == port {
                                    counts.rx.push(value);
                                }
                            },
                            None => {},
                        },
                    }
                },
                _ => {},
            }
            i = i + 1;
        }
        proof {
            assert(entries@.subrange(0, i as int) =~= entries@);
        }
        counts
    }

    /// A run starts: the table is written anew.
    pub fn on_start(&self) -> (rules: Vec<FrameSizeRule>)
        requires
            self.port_mapping@.len() * self.frame_ranges@.len() <= usize::MAX,
        ensures
            rules@ == size_rules(
                self.port_mapping@,
                self.frame_ranges@,
                (self.port_mapping@.len() * self.frame_ranges@.len()) as int,
            ),
    {
        self.configure()
    }

    /// The statistics are reset: the table is written anew.
    pub fn on_reset(&self) -> (rules: Vec<FrameSizeRule>)
        requires
            self.port_mapping@.len() * self.frame_ranges@.len() <= usize::MAX,
        ensures
            rules@ == size_rules(
                self.port_mapping@,
                self.frame_ranges@,
                (self.port_mapping@.len() * self.frame_ranges@.len()) as int,
            ),
    {
        self.configure()
    }
}

} // verus!
