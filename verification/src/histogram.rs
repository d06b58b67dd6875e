//! The round-trip-time histogram: the match rules that sort a round-trip time
//! into its bin, and the statistics read back from the rules' counters.

use crate::histogram_data::{
    estimate_percentiles_from_bins, histogram_mean, histogram_std_dev, is_percentile_walk,
    mean_of_bins, prefix_count, total_count, variance_of_bins,
};
use crate::ports::{
    distinct_ports, find_port, first_with_port, lemma_first_with_port, ports_are_distinct, PortMapping,
};
use crate::simple_stats::is_floor_sqrt;
use crate::statistics::{RttHistogram, RttHistogramConfig, RttHistogramData};
use crate::types::{GenerationMode, PortHistogramConfig, TxRxMapping};
use crate::ternary::{greedy_cover, range_to_ternary, TernaryMatch};
use vstd::prelude::*;

verus! {

/// Number of entries that the histogram table can hold.
pub const RTT_HISTOGRAM_TABLE_CAPACITY: usize = 4096;

/// What a rule of the histogram table does with a packet that it matches.
#[derive(Clone, Copy, Debug, PartialEq, Eq, Structural)]
pub enum RuleAction {
    /// Count the packet in bin `bin_index`.
    CountBin { bin_index: u32 },
    /// Count the packet as outside of every bin.
    CountMissed,
}

/// One rule of the histogram table: an exact match on the ingress port, a
/// ternary match on the round-trip time, and an action.
#[derive(Clone, Copy, Debug, PartialEq, Eq, Structural)]
pub struct HistogramRule {
    /// Receive-path recirculation port on which the packet came in.
    pub port: u32,
    /// Match on the round-trip time in nanoseconds.
    pub rtt: TernaryMatch,
    pub action: RuleAction,
}

/// Why a histogram cannot be configured.
#[derive(Clone, Copy, Debug, PartialEq, Eq, Structural)]
pub enum HistogramError {
    /// The maximum of the port's histogram is not above its minimum.
    InvalidRange { port: u32 },
    /// The port's histogram has no bin.
    NoBins { port: u32 },
    /// The rules of all histograms do not fit into the table.
    TableFull,
    /// Traffic generation is running.
    Running,
    /// The port has no histogram.
    UnknownPort { port: u32 },
}

/// The histogram of one front panel port.
#[derive(Clone, Debug)]
pub struct PortHistogram {
    /// Number of the front panel port.
    pub port: u32,
    pub histogram: RttHistogram,
}

/// First round-trip time of bin `bin`.
pub open spec fn bin_start(config: RttHistogramConfig, bin: int) -> int {
    config.min + bin * config.bin_width()
}

/// Last round-trip time of bin `bin`. A bin of width zero is empty.
pub open spec fn bin_end(config: RttHistogramConfig, bin: int) -> int {
    bin_start(config, bin) + config.bin_width() - 1
}

/// The rule that counts on `port` what `rtt` matches in bin `bin_index`.
pub open spec fn bin_rule(port: u32, bin_index: u32, rtt: TernaryMatch) -> HistogramRule {
    HistogramRule { port, rtt, action: RuleAction::CountBin { bin_index } }
}

/// The rule that counts on `port` whatever no other rule matches.
pub open spec fn missed_rule(port: u32) -> HistogramRule {
    HistogramRule { port, rtt: TernaryMatch::wildcard(), action: RuleAction::CountMissed }
}

/// The given matches as rules of bin `bin_index` on `port`.
pub open spec fn tagged(port: u32, bin_index: u32, matches: Seq<TernaryMatch>) -> Seq<
    HistogramRule,
> {
    Seq::new(matches.len(), |i: int| bin_rule(port, bin_index, matches[i]))
}

/// The rules of bin `bin_index`: the greedy cover of the bin's range.
pub open spec fn bin_rules(port: u32, config: RttHistogramConfig, bin_index: u32) -> Seq<
    HistogramRule,
> {
    if config.bin_width() == 0 {
        Seq::empty()
    } else {
        tagged(
            port,
            bin_index,
            greedy_cover(
                bin_start(config, bin_index as int) as u32,
                bin_end(config, bin_index as int) as u32,
            ),
        )
    }
}

/// The rules of the first `n` bins, bin after bin.
pub open spec fn bins_rules(port: u32, config: RttHistogramConfig, n: int) -> Seq<HistogramRule>
    decreases n,
{
    if n <= 0 {
        Seq::empty()
    } else {
        bins_rules(port, config, n - 1) + bin_rules(port, config, (n - 1) as u32)
    }
}

/// All rules of one histogram on receive-path port `port`: those of its
/// bins, then the rule that catches what lies outside.
pub open spec fn port_rules(port: u32, config: RttHistogramConfig) -> Seq<HistogramRule> {
    bins_rules(port, config, config.num_bins as int).push(missed_rule(port))
}

/// The rules of one port's histogram. A histogram of a port without
/// recirculation ports has none.
pub open spec fn histogram_rules(mappings: Seq<PortMapping>, hist: PortHistogram) -> Seq<
    HistogramRule,
> {
    let i = first_with_port(mappings, hist.port, 0);
    if i < mappings.len() {
        port_rules(mappings[i].rx_recirculation, hist.histogram.config)
    } else {
        Seq::empty()
    }
}

/// The rules of the first `n` histograms, histogram after histogram.
pub open spec fn table_rules(mappings: Seq<PortMapping>, hists: Seq<PortHistogram>, n: int) -> Seq<
    HistogramRule,
>
    decreases n,
{
    if n <= 0 {
        Seq::empty()
    } else {
        table_rules(mappings, hists, n - 1) + histogram_rules(mappings, hists[n - 1])
    }
}

/// What is wrong with a configuration, if anything.
pub open spec fn config_error(port: u32, config: RttHistogramConfig) -> Option<HistogramError> {
    if config.max <= config.min {
        Some(HistogramError::InvalidRange { port })
    } else if config.num_bins == 0 {
        Some(HistogramError::NoBins { port })
    } else {
        None
    }
}

/// The error of the first histogram at or after `from` whose configuration
/// is not valid.
pub open spec fn first_config_error(hists: Seq<PortHistogram>, from: int) -> Option<HistogramError>
    decreases hists.len() - from,
{
    if from < 0 || from >= hists.len() {
        None
    } else if config_error(hists[from].port, hists[from].histogram.config) is Some {
        config_error(hists[from].port, hists[from].histogram.config)
    } else {
        first_config_error(hists, from + 1)
    }
}

/// Where no histogram has a configuration error, every configuration is valid.
pub proof fn lemma_no_config_error(hists: Seq<PortHistogram>, from: int, i: int)
    requires
        0 <= from <= i < hists.len(),
        first_config_error(hists, from) is None,
    ensures
        hists[i].histogram.config.valid(),
    decreases hists.len() - from,
{
    if from < i {
        lemma_no_config_error(hists, from + 1, i);
    }
}

/// The bins of a valid configuration lie inside its range.
pub proof fn lemma_bin_in_range(config: RttHistogramConfig, bin: int)
    requires
        config.valid(),
        0 <= bin < config.num_bins,
    ensures
        config.min <= bin_start(config, bin),
        bin_end(config, bin) < config.max,
        bin_start(config, bin) + config.bin_width() == bin_start(config, bin + 1),
{
    let d = config.max - config.min;
    let n = config.num_bins as int;
    let w = config.bin_width();
    assert(w == d / n);
    assert(0 <= w && w * n <= d) by (nonlinear_arith)
        requires
            w == d / n,
            n > 0,
            d >= 0,
    ;
    assert(0 <= bin * w && (bin + 1) * w <= n * w && (bin + 1) * w == bin * w + w
        && w * n == n * w) by (nonlinear_arith)
        requires
            0 <= bin < n,
            0 <= w,
    ;
}

/// The rules of more bins are at least as many.
pub proof fn lemma_bins_rules_len(port: u32, config: RttHistogramConfig, n: int, m: int)
    requires
        0 <= n <= m,
    ensures
        bins_rules(port, config, n).len() <= bins_rules(port, config, m).len(),
    decreases m - n,
{
    if n < m {
        lemma_bins_rules_len(port, config, n, m - 1);
    }
}

/// The rules of more histograms are at least as many.
pub proof fn lemma_table_rules_len(
    mappings: Seq<PortMapping>,
    hists: Seq<PortHistogram>,
    n: int,
    m: int,
)
    requires
        0 <= n <= m,
    ensures
        table_rules(mappings, hists, n).len() <= table_rules(mappings, hists, m).len(),
    decreases m - n,
{
    if n < m {
        lemma_table_rules_len(mappings, hists, n, m - 1);
    }
}

/// Checks one configuration: a range that is not empty, and at least one bin.
pub fn validate_histogram(port: u32, config: &RttHistogramConfig) -> (r: Result<
    (),
    HistogramError,
>)
    ensures
        match r {
            Ok(_) => config_error(port, *config) is None && config.valid(),
            Err(e) => config_error(port, *config) == Some(e),
        },
{
    if config.max <= config.min {
        Err(HistogramError::InvalidRange { port })
    } else if config.num_bins == 0 {
        Err(HistogramError::NoBins { port })
    } else {
        Ok(())
    }
}

/// Decomposes the range `start..=end` of bin `bin_index` into the rules that
/// count it on `port`.
pub fn range_to_ternary_entries(port: u32, start: u32, end: u32, bin_index: u32) -> (rules: Vec<
    HistogramRule,
>)
    ensures
        rules@ == tagged(port, bin_index, greedy_cover(start, end)),
{
    let matches = range_to_ternary(start, end);
    let mut rules: Vec<HistogramRule> = Vec::new();
    let mut i: usize = 0;
    while i < matches.len()
        invariant
            i <= matches@.len(),
            rules@ == tagged(port, bin_index, matches@.subrange(0, i as int)),
        decreases matches@.len() - i,
    {
        rules.push(
            HistogramRule { port, rtt: matches[i], action: RuleAction::CountBin { bin_index } },
        );
        proof {
            assert(rules@ =~= tagged(port, bin_index, matches@.subrange(0, i + 1)));
        }
        i = i + 1;
    }
    proof {
        assert(matches@.subrange(0, i as int) =~= matches@);
    }
    rules
}

/// Holds the histogram configuration of each port and what was last read
/// for it.
#[derive(Clone, Debug)]
pub struct HistogramMonitor {
    /// The recirculation ports of each front panel port.
    pub port_mapping: Vec<PortMapping>,
    /// The histograms, each of another port.
    pub histogram: Vec<PortHistogram>,
}

/// Index of the first histogram at or after `from` of front panel port
/// `port`; the length of the list if there is none.
pub open spec fn first_histogram_of(hists: Seq<PortHistogram>, port: u32, from: int) -> int
    decreases hists.len() - from,
{
    if from < 0 || from >= hists.len() {
        hists.len() as int
    } else if hists[from].port == port {
        from
    } else {
        first_histogram_of(hists, port, from + 1)
    }
}

/// `first_histogram_of` is the least index with that port.
pub proof fn lemma_first_histogram_of(hists: Seq<PortHistogram>, port: u32, from: int)
    requires
        0 <= from <= hists.len(),
    ensures
        from <= first_histogram_of(hists, port, from) <= hists.len(),
        first_histogram_of(hists, port, from) < hists.len() ==> hists[first_histogram_of(
            hists,
            port,
            from,
        )].port == port,
        forall|i: int|
            from <= i < first_histogram_of(hists, port, from) ==> (#[trigger] hists[i]).port
                != port,
    decreases hists.len() - from,
{
    if from < hists.len() && hists[from].port != port {
        lemma_first_histogram_of(hists, port, from + 1);
    }
}

/// The histograms after each of the first `n` mapped ports that had none
/// has been given the default one.
pub open spec fn with_defaults(hists: Seq<PortHistogram>, mappings: Seq<PortMapping>, n: int) -> Seq<
    (u32, RttHistogramConfig),
>
    decreases n,
{
    if n <= 0 {
        Seq::new(hists.len(), |i: int| (hists[i].port, hists[i].histogram.config))
    } else {
        let before = with_defaults(hists, mappings, n - 1);
        let port = mappings[n - 1].port;
        if exists|i: int| 0 <= i < before.len() && (#[trigger] before[i]).0 == port {
            before
        } else {
            before.push((port, RttHistogramConfig { min: 1500, max: 2500, num_bins: 10 }))
        }
    }
}

/// Port and configuration of each histogram.
pub open spec fn configs_of(hists: Seq<PortHistogram>) -> Seq<(u32, RttHistogramConfig)> {
    Seq::new(hists.len(), |i: int| (hists[i].port, hists[i].histogram.config))
}

/// No two histograms are of the same front panel port.
pub open spec fn distinct_histograms(hists: Seq<PortHistogram>) -> bool {
    forall|i: int, j: int|
        0 <= i < j < hists.len() ==> (#[trigger] hists[i]).port != (#[trigger] hists[j]).port
}

impl HistogramMonitor {
    /// Every front panel port is mapped once and has at most one histogram.
    pub open spec fn wf(&self) -> bool {
        &&& distinct_ports(self.port_mapping@)
        &&& distinct_histograms(self.histogram@)
    }

    /// Whether the monitor is well formed.
    pub fn is_sound(&self) -> (r: bool)
        ensures
            r == self.wf(),
    {
        if !ports_are_distinct(&self.port_mapping) {
            return false;
        }
        let mut j: usize = 0;
        while j < self.histogram.len()
            invariant
                j <= self.histogram@.len(),
                forall|a: int, b: int|
                    0 <= a < b < j ==> (#[trigger] self.histogram@[a]).port != (
                    #[trigger] self.histogram@[b]).port,
            decreases self.histogram@.len() - j,
        {
            let mut i: usize = 0;
            while i < j
                invariant
                    i <= j < self.histogram@.len(),
                    forall|a: int|
                        0 <= a < i ==> (#[trigger] self.histogram@[a]).port
                            != self.histogram@[j as int].port,
                decreases j - i,
            {
                if self.histogram[i].port == self.histogram[j].port {
                    return false;
                }
                i = i + 1;
            }
            j = j + 1;
        }
        true
    }

    /// A monitor for the given ports, without any histogram. It is well
    /// formed if every front panel port is mapped once.
    pub fn new(port_mapping: Vec<PortMapping>) -> (m: HistogramMonitor)
        ensures
            m.port_mapping@ == port_mapping@,
            m.histogram@.len() == 0,
            m.wf() <==> distinct_ports(port_mapping@),
    {
        HistogramMonitor { port_mapping, histogram: Vec::new() }
    }

    /// Finds the histogram of front panel port `port`.
    pub fn find_histogram(&self, port: u32) -> (found: Option<usize>)
        ensures
            match found {
                Some(i) => i == first_histogram_of(self.histogram@, port, 0) && i
                    < self.histogram@.len(),
                None => first_histogram_of(self.histogram@, port, 0) == self.histogram@.len(),
            },
    {
        let mut i: usize = 0;
        while i < self.histogram.len()
            invariant
                i <= self.histogram@.len(),
                first_histogram_of(self.histogram@, port, 0) == first_histogram_of(
                    self.histogram@,
                    port,
                    i as int,
                ),
            decreases self.histogram@.len() - i,
        {
            if self.histogram[i].port == port {
                return Some(i);
            }
            i = i + 1;
        }
        None
    }

    /// Checks the configuration of every histogram, in their order.
    pub fn validate(&self) -> (r: Result<(), HistogramError>)
        ensures
            match r {
                Ok(_) => first_config_error(self.histogram@, 0) is None,
                Err(e) => first_config_error(self.histogram@, 0) == Some(e),
            },
    {
        let mut i: usize = 0;
        while i < self.histogram.len()
            invariant
                i <= self.histogram@.len(),
                first_config_error(self.histogram@, 0) == first_config_error(
                    self.histogram@,
                    i as int,
                ),
            decreases self.histogram@.len() - i,
        {
            match validate_histogram(self.histogram[i].port, &self.histogram[i].histogram.config) {
                Ok(_) => {},
                Err(e) => {
                    return Err(e);
                },
            }
            i = i + 1;
        }
        Ok(())
    }

    /// The rules that the histogram table is to hold: for each histogram of
    /// a port with recirculation ports, the greedy cover of each bin and one
    /// rule for what lies outside. Fails on the first configuration that is
    /// not valid, and where the rules are more than the table holds.
    pub fn table_entries(&self) -> (r: Result<Vec<HistogramRule>, HistogramError>)
        ensures
            match r {
                Ok(rules) => {
                    &&& first_config_error(self.histogram@, 0) is None
                    &&& rules@ == table_rules(
                        self.port_mapping@,
                        self.histogram@,
                        self.histogram@.len() as int,
                    )
                    &&& rules@.len() <= RTT_HISTOGRAM_TABLE_CAPACITY
                },
                Err(e) => {
                    ||| first_config_error(self.histogram@, 0) == Some(e)
                    ||| {
                        &&& first_config_error(self.histogram@, 0) is None
                        &&& e == HistogramError::TableFull
                        &&& table_rules(
                            self.port_mapping@,
                            self.histogram@,
                            self.histogram@.len() as int,
                        ).len() > RTT_HISTOGRAM_TABLE_CAPACITY
                    }
                },
            },
    {
        match self.validate() {
            Ok(_) => {},
            Err(e) => {
                return Err(e);
            },
        }
        let ghost mappings = self.port_mapping@;
        let ghost hists = self.histogram@;
        let mut rules: Vec<HistogramRule> = Vec::new();
        let mut h: usize = 0;
        while h < self.histogram.len()
            invariant
                h <= self.histogram@.len(),
                mappings == self.port_mapping@,
                hists == self.histogram@,
                first_config_error(hists, 0) is None,
                rules@ == table_rules(mappings, hists, h as int),
                rules@.len() <= RTT_HISTOGRAM_TABLE_CAPACITY,
            decreases self.histogram@.len() - h,
        {
            let config = self.histogram[h].histogram.config;
            proof {
                lemma_no_config_error(hists, 0, h as int);
                lemma_first_with_port(mappings, hists[h as int].port, 0);
                lemma_table_rules_len(mappings, hists, h + 1, hists.len() as int);
            }
            match find_port(&self.port_mapping, self.histogram[h].port) {
                None => {},
                Some(m) => {
                    let rx = self.port_mapping[m].rx_recirculation;
                    let width = config.get_bin_width();
                    let ghost base = rules@;
                    let mut b: u32 = 0;
                    while b < config.num_bins
                        invariant
                            b <= config.num_bins,
                            config.valid(),
                            mappings == self.port_mapping@,
                            hists == self.histogram@,
                            first_config_error(hists, 0) is None,
                            width == config.bin_width(),
                            rules@ == base + bins_rules(rx, config, b as int),
                            rules@.len() <= RTT_HISTOGRAM_TABLE_CAPACITY,
                            base.len() + port_rules(rx, config).len() <= table_rules(
                                mappings,
                                hists,
                                hists.len() as int,
                            ).len(),
                        decreases config.num_bins - b,
                    {
                        proof {
                            lemma_bin_in_range(config, b as int);
                            lemma_bins_rules_len(rx, config, b + 1, config.num_bins as int);
                            assert(b as int * width as int == b * width) by (nonlinear_arith);
                        }
                        if width > 0 {
                            let start: u32 = config.min + b * width;
                            let end: u32 = start + width - 1;
                            let mut bin = range_to_ternary_entries(rx, start, end, b);
                            rules.append(&mut bin);
                        }
                        proof {
                            assert(rules@ =~= base + bins_rules(rx, config, b + 1));
                        }
                        if rules.len() > RTT_HISTOGRAM_TABLE_CAPACITY {
                            return Err(HistogramError::TableFull);
                        }
                        b = b + 1;
                    }
                    if rules.len() >= RTT_HISTOGRAM_TABLE_CAPACITY {
                        return Err(HistogramError::TableFull);
                    }
                    rules.push(
                        HistogramRule {
                            port: rx,
                            rtt: TernaryMatch { value: 0, mask: 0 },
                            action: RuleAction::CountMissed,
                        },
                    );
                    proof {
                        assert(rules@ =~= base + port_rules(rx, config));
                    }
                },
            }
            h = h + 1;
        }
        Ok(rules)
    }
}

/// One entry of the histogram table as it is read back: the key and action
/// that say which rule it is, and the rule's packet counter.
#[derive(Clone, Copy, Debug, PartialEq, Eq, Structural)]
pub struct CounterEntry {
    /// The ingress port that the entry matches, if it matches on one.
    pub port: Option<u32>,
    /// What the entry does, if it is a rule of the histogram.
    pub action: Option<RuleAction>,
    /// Number of packets that the entry has matched.
    pub packets: u64,
}

/// The percentiles that are estimated for every histogram.
pub open spec fn reported_percentiles() -> Seq<u32> {
    seq![25u32, 50u32, 75u32, 90u32]
}

/// The entry counts packets on `port` for a bin from `low` up to, but not
/// including, `high`.
pub open spec fn counts_in_bins(entry: CounterEntry, port: u32, low: int, high: int) -> bool {
    &&& entry.port == Some(port)
    &&& entry.action matches Some(RuleAction::CountBin { bin_index })
    &&& low <= bin_index < high
}

/// The entry counts on `port` the packets outside of every bin.
pub open spec fn counts_missed(entry: CounterEntry, port: u32) -> bool {
    entry.port == Some(port) && entry.action == Some(RuleAction::CountMissed)
}

/// Number of packets that the entries have counted on `port` in the bins from
/// `low` up to, but not including, `high`.
pub open spec fn bin_packets(entries: Seq<CounterEntry>, port: u32, low: int, high: int) -> nat
    decreases entries.len(),
{
    if entries.len() == 0 {
        0
    } else {
        bin_packets(entries.drop_last(), port, low, high) + if counts_in_bins(
            entries.last(),
            port,
            low,
            high,
        ) {
            entries.last().packets as nat
        } else {
            0
        }
    }
}

/// Number of packets that the entries have counted on `port` outside of
/// every bin.
pub open spec fn missed_packets(entries: Seq<CounterEntry>, port: u32) -> nat
    decreases entries.len(),
{
    if entries.len() == 0 {
        0
    } else {
        missed_packets(entries.drop_last(), port) + if counts_missed(entries.last(), port) {
            entries.last().packets as nat
        } else {
            0
        }
    }
}

/// Counting over a range of bins is counting over its two parts.
pub proof fn lemma_bin_packets_split(
    entries: Seq<CounterEntry>,
    port: u32,
    low: int,
    mid: int,
    high: int,
)
    requires
        low <= mid <= high,
    ensures
        bin_packets(entries, port, low, high) == bin_packets(entries, port, low, mid)
            + bin_packets(entries, port, mid, high),
    decreases entries.len(),
{
    if entries.len() > 0 {
        lemma_bin_packets_split(entries.drop_last(), port, low, mid, high);
    }
}

/// No more packets are counted than the entries can hold.
pub proof fn lemma_bin_packets_bound(entries: Seq<CounterEntry>, port: u32, low: int, high: int)
    ensures
        bin_packets(entries, port, low, high) <= entries.len() * u64::MAX,
        missed_packets(entries, port) <= entries.len() * u64::MAX,
    decreases entries.len(),
{
    if entries.len() > 0 {
        lemma_bin_packets_bound(entries.drop_last(), port, low, high);
    }
}

/// Bin counts that were read bin by bin add up to the count over all bins.
pub proof fn lemma_prefix_count_is_bin_packets(
    counts: Seq<u128>,
    entries: Seq<CounterEntry>,
    port: u32,
    k: int,
)
    requires
        0 <= k <= counts.len(),
        forall|b: int| 0 <= b < counts.len() ==> #[trigger] counts[b] == bin_packets(
            entries,
            port,
            b,
            b + 1,
        ),
    ensures
        prefix_count(counts, k) == bin_packets(entries, port, 0, k),
    decreases k,
{
    if k > 0 {
        lemma_prefix_count_is_bin_packets(counts, entries, port, k - 1);
        lemma_bin_packets_split(entries, port, 0, k - 1, k);
    } else {
        lemma_bin_packets_empty(entries, port, 0);
    }
}

/// No packet is counted in an empty range of bins.
pub proof fn lemma_bin_packets_empty(entries: Seq<CounterEntry>, port: u32, at: int)
    ensures
        bin_packets(entries, port, at, at) == 0,
    decreases entries.len(),
{
    if entries.len() > 0 {
        lemma_bin_packets_empty(entries.drop_last(), port, at);
    }
}

/// `data` is what the entries say of the histogram with configuration
/// `config` on receive-path port `port`: the count of each bin, their total,
/// the count outside, and the estimates from the bins' counts. A histogram
/// without a receive-path port has no data.
pub open spec fn is_reading(
    config: RttHistogramConfig,
    port: Option<u32>,
    entries: Seq<CounterEntry>,
    data: RttHistogramData,
) -> bool {
    match port {
        None => data.is_empty(),
        Some(port) => {
            &&& data.data_bins@.len() == config.num_bins
            &&& forall|b: int|
                0 <= b < config.num_bins ==> #[trigger] data.data_bins@[b] == bin_packets(
                    entries,
                    port,
                    b,
                    b + 1,
                )
            &&& data.total_pkt_count == bin_packets(entries, port, 0, config.num_bins as int)
            &&& data.total_pkt_count == total_count(data.data_bins@)
            &&& data.missed_bin_count == missed_packets(entries, port)
            &&& is_percentile_walk(
                config,
                data.data_bins@,
                reported_percentiles(),
                data.percentiles@,
            )
            &&& match data.mean_rtt {
                Some(m) => mean_of_bins(config, data.data_bins@) == Some(m as nat),
                None => mean_of_bins(config, data.data_bins@) is None,
            }
            &&& match data.std_dev_rtt {
                Some(d) => variance_of_bins(config, data.data_bins@) matches Some(v)
                    && is_floor_sqrt(v, d as nat),
                None => variance_of_bins(config, data.data_bins@) is None,
            }
        },
    }
}

/// Number of packets that the entries have counted on `port` in the bins
/// from `low` up to, but not including, `high`.
pub fn count_bin_packets(entries: &Vec<CounterEntry>, port: u32, low: u32, high: u32) -> (count:
    u128)
    ensures
        count == bin_packets(entries@, port, low as int, high as int),
{
    let mut count: u128 = 0;
    let mut i: usize = 0;
    while i < entries.len()
        invariant
            i <= entries@.len(),
            count == bin_packets(entries@.subrange(0, i as int), port, low as int, high as int),
            count <= i * u64::MAX,
        decreases entries@.len() - i,
    {
        proof {
            assert(entries@.subrange(0, i + 1).drop_last() =~= entries@.subrange(0, i as int));
        }
        let entry = entries[i];
        let counted = match (entry.port, entry.action) {
            (Some(p), Some(RuleAction::CountBin { bin_index })) => p == port && low <= bin_index
                && bin_index < high,
            _ => false,
        };
        if counted {
            count = count + entry.packets as u128;
        }
        i = i + 1;
    }
    proof {
        assert(entries@.subrange(0, i as int) =~= entries@);
    }
    count
}

/// Number of packets that the entries have counted on `port` outside of
/// every bin.
pub fn count_missed_packets(entries: &Vec<CounterEntry>, port: u32) -> (count: u128)
    ensures
        count == missed_packets(entries@, port),
{
    let mut count: u128 = 0;
    let mut i: usize = 0;
    while i < entries.len()
        invariant
            i <= entries@.len(),
            count == missed_packets(entries@.subrange(0, i as int), port),
            count <= i * u64::MAX,
        decreases entries@.len() - i,
    {
        proof {
            assert(entries@.subrange(0, i + 1).drop_last() =~= entries@.subrange(0, i as int));
        }
        let entry = entries[i];
        let counted = match (entry.port, entry.action) {
            (Some(p), Some(RuleAction::CountMissed)) => p == port,
            _ => false,
        };
        if counted {
            count = count + entry.packets as u128;
        }
        i = i + 1;
    }
    proof {
        assert(entries@.subrange(0, i as int) =~= entries@);
    }
    count
}

/// Reads the statistics of one histogram from the table's entries.
pub fn read_histogram(
    config: &RttHistogramConfig,
    port: Option<u32>,
    entries: &Vec<CounterEntry>,
) -> (data: RttHistogramData)
    requires
        config.valid(),
    ensures
        is_reading(*config, port, entries@, data),
{
    let port = match port {
        None => {
            return RttHistogramData::default();
        },
        Some(p) => p,
    };
    let mut bins: Vec<u128> = Vec::new();
    let mut b: u32 = 0;
    while b < config.num_bins
        invariant
            b <= config.num_bins,
            bins@.len() == b,
            forall|k: int|
                0 <= k < b ==> #[trigger] bins@[k] == bin_packets(entries@, port, k, k + 1),
        decreases config.num_bins - b,
    {
        let count = count_bin_packets(entries, port, b, b + 1);
        bins.push(count);
        b = b + 1;
    }
    let n = entries.len();
    proof {
        lemma_prefix_count_is_bin_packets(bins@, entries@, port, bins@.len() as int);
        lemma_bin_packets_bound(entries@, port, 0, config.num_bins as int);
        assert(n * u64::MAX <= u128::MAX) by (nonlinear_arith)
            requires
                n <= 0xFFFF_FFFF_FFFF_FFFF,
        ;
    }
    let hist = RttHistogram { config: *config, data: RttHistogramData::default() };
    let total = crate::histogram_data::count_total(&bins);
    let missed = count_missed_packets(entries, port);
    let mut percentiles: Vec<u32> = Vec::new();
    percentiles.push(25);
    percentiles.push(50);
    percentiles.push(75);
    percentiles.push(90);
    proof {
        assert(percentiles@ =~= reported_percentiles());
    }
    let estimates = estimate_percentiles_from_bins(&bins, &percentiles, &hist);
    let mean = histogram_mean(&bins, &hist);
    let deviation = histogram_std_dev(&bins, &hist);
    RttHistogramData {
        data_bins: bins,
        percentiles: estimates,
        mean_rtt: mean,
        std_dev_rtt: deviation,
        total_pkt_count: total,
        missed_bin_count: missed,
    }
}

/// The receive-path recirculation port of front panel port `port`, if the
/// port has recirculation ports.
pub open spec fn rx_port_of(mappings: Seq<PortMapping>, port: u32) -> Option<u32> {
    let i = first_with_port(mappings, port, 0);
    if i < mappings.len() {
        Some(mappings[i].rx_recirculation)
    } else {
        None
    }
}

impl HistogramMonitor {
    /// Gives the default histogram to every port with recirculation ports
    /// that has none yet, in the order of the ports. Histograms that are
    /// there stay as they are.
    pub fn add_default_histograms(&mut self)
        ensures
            old(self).wf() ==> final(self).wf(),
            final(self).port_mapping == old(self).port_mapping,
            configs_of(final(self).histogram@) == with_defaults(
                old(self).histogram@,
                old(self).port_mapping@,
                old(self).port_mapping@.len() as int,
            ),
            final(self).histogram@.len() >= old(self).histogram@.len(),
            forall|i: int|
                0 <= i < old(self).histogram@.len() ==> #[trigger] final(self).histogram@[i] == old(self).histogram@[i],
            forall|i: int|
                old(self).histogram@.len() <= i < final(self).histogram@.len() ==> (
                #[trigger] final(self).histogram@[i]).histogram.data.is_empty(),
    {
        let ghost before = self.histogram@;
        let ghost mappings = self.port_mapping@;
        let mut m: usize = 0;
        proof {
            assert(configs_of(self.histogram@) =~= with_defaults(before, mappings, 0));
        }
        while m < self.port_mapping.len()
            invariant
                m <= self.port_mapping@.len(),
                self.port_mapping@ == mappings,
                self.port_mapping == old(self).port_mapping,
                before == old(self).histogram@,
                configs_of(self.histogram@) == with_defaults(before, mappings, m as int),
                self.histogram@.len() >= before.len(),
                distinct_histograms(before) ==> distinct_histograms(self.histogram@),
                forall|i: int| 0 <= i < before.len() ==> #[trigger] self.histogram@[i] == before[i],
                forall|i: int|
                    before.len() <= i < self.histogram@.len() ==> (
                    #[trigger] self.histogram@[i]).histogram.data.is_empty(),
            decreases mappings.len() - m,
        {
            let port = self.port_mapping[m].port;
            let ghost configs = configs_of(self.histogram@);
            proof {
                lemma_first_histogram_of(self.histogram@, port, 0);
            }
            match self.find_histogram(port) {
                Some(i) => {
                    proof {
                        assert(configs[i as int].0 == port);
                    }
                },
                None => {
                    proof {
                        assert forall|i: int| 0 <= i < configs.len() implies (
                        #[trigger] configs[i]).0 != port by {
                            assert(self.histogram@[i].port != port);
                        }
                    }
                    self.histogram.push(PortHistogram { port, histogram: RttHistogram::default() });
                    proof {
                        assert(configs_of(self.histogram@) =~= configs.push(
                            (port, RttHistogramConfig { min: 1500, max: 2500, num_bins: 10 }),
                        ));
                    }
                },
            }
            m = m + 1;
        }
    }

    /// Prepares the histogram table: every port with recirculation ports
    /// gets a histogram, and the rules of all histograms are returned, to be
    /// written to the table once it has been cleared.
    pub fn init_rtt_histogram_table(&mut self) -> (r: Result<Vec<HistogramRule>, HistogramError>)
        ensures
            old(self).wf() ==> final(self).wf(),
            final(self).port_mapping == old(self).port_mapping,
            final(self).histogram@.len() >= old(self).histogram@.len(),
            configs_of(final(self).histogram@) == with_defaults(
                old(self).histogram@,
                old(self).port_mapping@,
                old(self).port_mapping@.len() as int,
            ),
            forall|i: int|
                0 <= i < old(self).histogram@.len() ==> #[trigger] final(self).histogram@[i] == old(self).histogram@[i],
            match r {
                Ok(rules) => {
                    &&& first_config_error(final(self).histogram@, 0) is None
                    &&& rules@ == table_rules(
                        final(self).port_mapping@,
                        final(self).histogram@,
                        final(self).histogram@.len() as int,
                    )
                    &&& rules@.len() <= RTT_HISTOGRAM_TABLE_CAPACITY
                },
                Err(e) => {
                    ||| first_config_error(final(self).histogram@, 0) == Some(e)
                    ||| {
                        &&& first_config_error(final(self).histogram@, 0) is None
                        &&& e == HistogramError::TableFull
                        &&& table_rules(
                            final(self).port_mapping@,
                            final(self).histogram@,
                            final(self).histogram@.len() as int,
                        ).len() > RTT_HISTOGRAM_TABLE_CAPACITY
                    }
                },
            },
    {
        self.add_default_histograms();
        self.table_entries()
    }

    /// Takes a reading of the table: the statistics of every histogram with
    /// a valid configuration are replaced by what the entries say.
    pub fn monitor_histogram(&mut self, entries: &Vec<CounterEntry>)
        ensures
            old(self).wf() ==> final(self).wf(),
            final(self).port_mapping == old(self).port_mapping,
            final(self).histogram@.len() == old(self).histogram@.len(),
            forall|i: int|
                0 <= i < old(self).histogram@.len() ==> {
                    let before = #[trigger] old(self).histogram@[i];
                    let after = final(self).histogram@[i];
                    &&& after.port == before.port
                    &&& after.histogram.config == before.histogram.config
                    &&& before.histogram.config.valid() ==> is_reading(
                        before.histogram.config,
                        rx_port_of(old(self).port_mapping@, before.port),
                        entries@,
                        after.histogram.data,
                    )
                    &&& !before.histogram.config.valid() ==> after == before
                },
    {
        let ghost before = self.histogram@;
        let mut i: usize = 0;
        while i < self.histogram.len()
            invariant
                i <= self.histogram@.len(),
                self.port_mapping == old(self).port_mapping,
                before == old(self).histogram@,
                self.histogram@.len() == before.len(),
                forall|j: int| i <= j < before.len() ==> #[trigger] self.histogram@[j] == before[j],
                forall|j: int|
                    0 <= j < i ==> {
                        let b = #[trigger] before[j];
                        let a = self.histogram@[j];
                        &&& a.port == b.port
                        &&& a.histogram.config == b.histogram.config
                        &&& b.histogram.config.valid() ==> is_reading(
                            b.histogram.config,
                            rx_port_of(self.port_mapping@, b.port),
                            entries@,
                            a.histogram.data,
                        )
                        &&& !b.histogram.config.valid() ==> a == b
                    },
            decreases before.len() - i,
        {
            let config = self.histogram[i].histogram.config;
            if config.max > config.min && config.num_bins > 0 {
                let rx = match find_port(&self.port_mapping, self.histogram[i].port) {
                    Some(m) => Some(self.port_mapping[m].rx_recirculation),
                    None => None,
                };
                let data = read_histogram(&config, rx, entries);
                self.histogram[i].histogram.data = data;
            }
            i = i + 1;
        }
        proof {
            if distinct_histograms(before) {
                assert forall|a: int, b: int| 0 <= a < b < self.histogram@.len() implies (
                #[trigger] self.histogram@[a]).port != (#[trigger] self.histogram@[b]).port by {
                    assert(before[a].port != before[b].port);
                }
            }
        }
    }

    /// Sets the configuration of the histogram of front panel port `port`
    /// and forgets the counts of its bins. Refused, with the monitor left as
    /// it is, where the configuration is not valid, while traffic generation
    /// is running, and for a port without a histogram.
    pub fn configure_histogram(&mut self, port: u32, config: RttHistogramConfig, running: bool) -> (r:
        Result<(), HistogramError>)
        ensures
            old(self).wf() ==> final(self).wf(),
            final(self).port_mapping == old(self).port_mapping,
            final(self).histogram@.len() == old(self).histogram@.len(),
            match r {
                Ok(_) => {
                    let i = first_histogram_of(old(self).histogram@, port, 0);
                    &&& config.valid()
                    &&& !running
                    &&& i < old(self).histogram@.len()
                    &&& final(self).histogram@[i].port == port
                    &&& final(self).histogram@[i].histogram.config == config
                    &&& final(self).histogram@[i].histogram.data.data_bins@.len() == 0
                    &&& final(self).histogram@[i].histogram.data.percentiles == old(self).histogram@[i].histogram.data.percentiles
                    &&& final(self).histogram@[i].histogram.data.mean_rtt == old(self).histogram@[i].histogram.data.mean_rtt
                    &&& final(self).histogram@[i].histogram.data.std_dev_rtt == old(self).histogram@[i].histogram.data.std_dev_rtt
                    &&& final(self).histogram@[i].histogram.data.total_pkt_count == old(self).histogram@[i].histogram.data.total_pkt_count
                    &&& final(self).histogram@[i].histogram.data.missed_bin_count == old(self).histogram@[i].histogram.data.missed_bin_count
                    &&& forall|j: int|
                        0 <= j < old(self).histogram@.len() && j != i ==> #[trigger] final(self).histogram@[j] == old(self).histogram@[j]
                },
                Err(e) => {
                    &&& final(self).histogram == old(self).histogram
                    &&& e == if config_error(port, config) is Some {
                        config_error(port, config)->0
                    } else if running {
                        HistogramError::Running
                    } else {
                        HistogramError::UnknownPort { port }
                    }
                    &&& config_error(port, config) is None && !running ==> first_histogram_of(
                        old(self).histogram@,
                        port,
                        0,
                    ) == old(self).histogram@.len()
                },
            },
    {
        match validate_histogram(port, &config) {
            Ok(_) => {},
            Err(e) => {
                return Err(e);
            },
        }
        if running {
            return Err(HistogramError::Running);
        }
        match self.find_histogram(port) {
            None => Err(HistogramError::UnknownPort { port }),
            Some(i) => {
                proof {
                    lemma_first_histogram_of(self.histogram@, port, 0);
                }
                self.histogram[i].histogram.config = config;
                self.histogram[i].histogram.data.data_bins.clear();
                Ok(())
            },
        }
    }

    /// Forgets the bins' counts and the percentile estimates of every
    /// histogram.
    pub fn clear_data(&mut self)
        ensures
            old(self).wf() ==> final(self).wf(),
            final(self).port_mapping == old(self).port_mapping,
            final(self).histogram@.len() == old(self).histogram@.len(),
            forall|i: int|
                0 <= i < old(self).histogram@.len() ==> {
                    let before = #[trigger] old(self).histogram@[i];
                    let after = final(self).histogram@[i];
                    &&& after.port == before.port
                    &&& after.histogram.config == before.histogram.config
                    &&& after.histogram.data.data_bins@.len() == 0
                    &&& after.histogram.data.percentiles@.len() == 0
                    &&& after.histogram.data.mean_rtt == before.histogram.data.mean_rtt
                    &&& after.histogram.data.std_dev_rtt == before.histogram.data.std_dev_rtt
                    &&& after.histogram.data.total_pkt_count
                        == before.histogram.data.total_pkt_count
                    &&& after.histogram.data.missed_bin_count
                        == before.histogram.data.missed_bin_count
                },
    {
        let ghost before = self.histogram@;
        let mut i: usize = 0;
        while i < self.histogram.len()
            invariant
                i <= self.histogram@.len(),
                self.port_mapping == old(self).port_mapping,
                before == old(self).histogram@,
                self.histogram@.len() == before.len(),
                forall|j: int| i <= j < before.len() ==> #[trigger] self.histogram@[j] == before[j],
                forall|j: int|
                    0 <= j < i ==> {
                        let b = #[trigger] before[j];
                        let a = self.histogram@[j];
                        &&& a.port == b.port
                        &&& a.histogram.config == b.histogram.config
                        &&& a.histogram.data.data_bins@.len() == 0
                        &&& a.histogram.data.percentiles@.len() == 0
                        &&& a.histogram.data.mean_rtt == b.histogram.data.mean_rtt
                        &&& a.histogram.data.std_dev_rtt == b.histogram.data.std_dev_rtt
                        &&& a.histogram.data.total_pkt_count == b.histogram.data.total_pkt_count
                        &&& a.histogram.data.missed_bin_count == b.histogram.data.missed_bin_count
                    },
            decreases before.len() - i,
        {
            self.histogram[i].histogram.data.data_bins.clear();
            self.histogram[i].histogram.data.percentiles.clear();
            i = i + 1;
        }
        proof {
            if distinct_histograms(before) {
                assert forall|a: int, b: int| 0 <= a < b < self.histogram@.len() implies (
                #[trigger] self.histogram@[a]).port != (#[trigger] self.histogram@[b]).port by {
                    assert(before[a].port != before[b].port);
                }
            }
        }
    }

    /// A run starts: the table is prepared anew and, where that succeeds,
    /// the bins' counts and the estimates are forgotten.
    pub fn on_start(&mut self, mode: GenerationMode) -> (r: Result<Vec<HistogramRule>, HistogramError>)
        ensures
            old(self).wf() ==> final(self).wf(),
            final(self).port_mapping == old(self).port_mapping,
            final(self).histogram@.len() >= old(self).histogram@.len(),
            configs_of(final(self).histogram@) == with_defaults(
                old(self).histogram@,
                old(self).port_mapping@,
                old(self).port_mapping@.len() as int,
            ),
            match r {
                Ok(rules) => {
                    &&& first_config_error(final(self).histogram@, 0) is None
                    &&& rules@ == table_rules(
                        final(self).port_mapping@,
                        final(self).histogram@,
                        final(self).histogram@.len() as int,
                    )
                    &&& rules@.len() <= RTT_HISTOGRAM_TABLE_CAPACITY
                    &&& forall|i: int|
                        0 <= i < final(self).histogram@.len() ==> {
                            &&& (#[trigger] final(self).histogram@[i]).histogram.data.data_bins@.len()
                                == 0
                            &&& final(self).histogram@[i].histogram.data.percentiles@.len() == 0
                        }
                },
                Err(e) => {
                    &&& forall|i: int|
                        0 <= i < old(self).histogram@.len() ==> #[trigger] final(self).histogram@[i] == old(self).histogram@[i]
                    &&& {
                        ||| first_config_error(final(self).histogram@, 0) == Some(e)
                        ||| {
                            &&& first_config_error(final(self).histogram@, 0) is None
                            &&& e == HistogramError::TableFull
                            &&& table_rules(
                                final(self).port_mapping@,
                                final(self).histogram@,
                                final(self).histogram@.len() as int,
                            ).len() > RTT_HISTOGRAM_TABLE_CAPACITY
                        }
                    }
                },
            },
    {
        let rules = match self.init_rtt_histogram_table() {
            Ok(rules) => rules,
            Err(e) => {
                return Err(e);
            },
        };
        let ghost prepared = self.histogram@;
        self.clear_data();
        proof {
            assert(configs_of(self.histogram@) =~= configs_of(prepared));
            lemma_rules_depend_on_configs(
                self.port_mapping@,
                prepared,
                self.histogram@,
                prepared.len() as int,
            );
            assert forall|i: int| 0 <= i < self.histogram@.len() implies {
                &&& (#[trigger] self.histogram@[i]).histogram.data.data_bins@.len() == 0
                &&& self.histogram@[i].histogram.data.percentiles@.len() == 0
            } by {
                assert(prepared[i].port == self.histogram@[i].port);
            }
        }
        Ok(rules)
    }

    /// A run stops: nothing changes.
    pub fn on_stop(&self) {
    }

    /// The statistics are reset: as at the start of a run.
    pub fn on_reset(&mut self) -> (r: Result<Vec<HistogramRule>, HistogramError>)
        ensures
            old(self).wf() ==> final(self).wf(),
            final(self).port_mapping == old(self).port_mapping,
            final(self).histogram@.len() >= old(self).histogram@.len(),
            configs_of(final(self).histogram@) == with_defaults(
                old(self).histogram@,
                old(self).port_mapping@,
                old(self).port_mapping@.len() as int,
            ),
            match r {
                Ok(rules) => {
                    &&& first_config_error(final(self).histogram@, 0) is None
                    &&& rules@ == table_rules(
                        final(self).port_mapping@,
                        final(self).histogram@,
                        final(self).histogram@.len() as int,
                    )
                    &&& rules@.len() <= RTT_HISTOGRAM_TABLE_CAPACITY
                    &&& forall|i: int|
                        0 <= i < final(self).histogram@.len() ==> {
                            &&& (#[trigger] final(self).histogram@[i]).histogram.data.data_bins@.len()
                                == 0
                            &&& final(self).histogram@[i].histogram.data.percentiles@.len() == 0
                        }
                },
                Err(e) => {
                    &&& forall|i: int|
                        0 <= i < old(self).histogram@.len() ==> #[trigger] final(self).histogram@[i] == old(self).histogram@[i]
                    &&& {
                        ||| first_config_error(final(self).histogram@, 0) == Some(e)
                        ||| {
                            &&& first_config_error(final(self).histogram@, 0) is None
                            &&& e == HistogramError::TableFull
                            &&& table_rules(
                                final(self).port_mapping@,
                                final(self).histogram@,
                                final(self).histogram@.len() as int,
                            ).len() > RTT_HISTOGRAM_TABLE_CAPACITY
                        }
                    }
                },
            },
    {
        self.on_start(GenerationMode::Cbr)
    }
}

/// The rules of the table and the errors of the configurations depend on
/// the ports and configurations of the histograms alone.
pub proof fn lemma_rules_depend_on_configs(
    mappings: Seq<PortMapping>,
    a: Seq<PortHistogram>,
    b: Seq<PortHistogram>,
    n: int,
)
    requires
        configs_of(a) == configs_of(b),
        0 <= n <= a.len(),
    ensures
        a.len() == b.len(),
        table_rules(mappings, a, n) == table_rules(mappings, b, n),
        first_config_error(a, a.len() - n) == first_config_error(b, b.len() - n),
    decreases n,
{
    assert(configs_of(a).len() == a.len());
    assert(configs_of(b).len() == b.len());
    if n > 0 {
        lemma_rules_depend_on_configs(mappings, a, b, n - 1);
        assert(configs_of(a)[n - 1] == configs_of(b)[n - 1]);
        assert(configs_of(a)[a.len() - n] == configs_of(b)[a.len() - n]);
    }
}

/// The histograms after the one of `port` has been set to `config`: it
/// takes the place of the port's histogram, or comes last if the port had
/// none.
pub open spec fn upserted(
    configs: Seq<(u32, RttHistogramConfig)>,
    port: u32,
    config: RttHistogramConfig,
) -> Seq<(u32, RttHistogramConfig)> {
    if exists|i: int| 0 <= i < configs.len() && (#[trigger] configs[i]).0 == port {
        let i = choose|i: int|
            0 <= i < configs.len() && (#[trigger] configs[i]).0 == port && forall|j: int|
                0 <= j < i ==> (#[trigger] configs[j]).0 != port;
        configs.update(i, (port, config))
    } else {
        configs.push((port, config))
    }
}

/// The histograms after the first `n` of the requested configurations have
/// been set, one after another, starting without any histogram.
pub open spec fn requested_histograms(requested: Seq<PortHistogramConfig>, n: int) -> Seq<
    (u32, RttHistogramConfig),
>
    decreases n,
{
    if n <= 0 {
        Seq::empty()
    } else {
        upserted(requested_histograms(requested, n - 1), requested[n - 1].port, requested[n - 1].config)
    }
}

/// The histograms after each of the first `n` receive ports that had none
/// has been given the default one.
pub open spec fn with_receive_defaults(
    configs: Seq<(u32, RttHistogramConfig)>,
    mapping: Seq<TxRxMapping>,
    n: int,
) -> Seq<(u32, RttHistogramConfig)>
    decreases n,
{
    if n <= 0 {
        configs
    } else {
        let before = with_receive_defaults(configs, mapping, n - 1);
        let port = mapping[n - 1].rx;
        if exists|i: int| 0 <= i < before.len() && (#[trigger] before[i]).0 == port {
            before
        } else {
            before.push((port, RttHistogramConfig { min: 1500, max: 2500, num_bins: 10 }))
        }
    }
}

/// Position of the first requested configuration at or after `from` whose
/// port has no recirculation ports; the number of configurations if there
/// is none.
pub open spec fn first_unknown_port(
    mappings: Seq<PortMapping>,
    requested: Seq<PortHistogramConfig>,
    from: int,
) -> int
    decreases requested.len() - from,
{
    if from < 0 || from >= requested.len() {
        requested.len() as int
    } else if first_with_port(mappings, requested[from].port, 0) >= mappings.len() {
        from
    } else {
        first_unknown_port(mappings, requested, from + 1)
    }
}

impl HistogramMonitor {
    /// Sets the histogram of front panel port `port` to `config`, with
    /// nothing read: in place of the port's histogram, or after all
    /// histograms if the port had none.
    pub fn set_histogram(&mut self, port: u32, config: RttHistogramConfig)
        ensures
            old(self).wf() ==> final(self).wf(),
            final(self).port_mapping == old(self).port_mapping,
            configs_of(final(self).histogram@) == upserted(
                configs_of(old(self).histogram@),
                port,
                config,
            ),
            forall|i: int|
                0 <= i < final(self).histogram@.len() ==> {
                    ||| (#[trigger] final(self).histogram@[i]).histogram.data.is_empty()
                    ||| i < old(self).histogram@.len() && final(self).histogram@[i] == old(self).histogram@[i]
                },
    {
        let ghost before = configs_of(self.histogram@);
        proof {
            lemma_first_histogram_of(self.histogram@, port, 0);
        }
        match self.find_histogram(port) {
            Some(i) => {
                proof {
                    assert(before[i as int].0 == port);
                    assert forall|j: int| 0 <= j < i implies (#[trigger] before[j]).0 != port by {
                        assert(self.histogram@[j].port != port);
                    }
                    let chosen = choose|k: int|
                        0 <= k < before.len() && (#[trigger] before[k]).0 == port && forall|j: int|
                            0 <= j < k ==> (#[trigger] before[j]).0 != port;
                    assert(chosen == i) by {
                        if chosen < i {
                            assert(before[chosen].0 != port);
                        }
                        if i < chosen {
                            assert(before[i as int].0 != port);
                        }
                    }
                }
                self.histogram[i].histogram = RttHistogram {
                    config,
                    data: RttHistogramData::default(),
                };
                proof {
                    assert(configs_of(self.histogram@) =~= before.update(i as int, (port, config)));
                }
            },
            None => {
                proof {
                    assert forall|j: int| 0 <= j < before.len() implies (#[trigger] before[j]).0
                        != port by {
                        assert(self.histogram@[j].port != port);
                    }
                }
                self.histogram.push(
                    PortHistogram {
                        port,
                        histogram: RttHistogram { config, data: RttHistogramData::default() },
                    },
                );
                proof {
                    assert(configs_of(self.histogram@) =~= before.push((port, config)));
                }
            },
        }
    }

    /// Takes the histograms of a request in place of those that are there:
    /// the requested configurations, each for a port with recirculation
    /// ports, and the default histogram for every receive port of the
    /// request that has none. Nothing has been read for any of them. At the
    /// first requested port without recirculation ports this fails, with
    /// the histograms that were requested before it in place.
    pub fn install(&mut self, requested: &Vec<PortHistogramConfig>, mapping: &Vec<TxRxMapping>) -> (r:
        Result<(), HistogramError>)
        ensures
            old(self).wf() ==> final(self).wf(),
            final(self).port_mapping == old(self).port_mapping,
            forall|i: int|
                0 <= i < final(self).histogram@.len() ==> (
                #[trigger] final(self).histogram@[i]).histogram.data.is_empty(),
            match r {
                Ok(_) => {
                    &&& first_unknown_port(old(self).port_mapping@, requested@, 0)
                        == requested@.len()
                    &&& configs_of(final(self).histogram@) == with_receive_defaults(
                        requested_histograms(requested@, requested@.len() as int),
                        mapping@,
                        mapping@.len() as int,
                    )
                },
                Err(e) => {
                    let k = first_unknown_port(old(self).port_mapping@, requested@, 0);
                    &&& k < requested@.len()
                    &&& e == HistogramError::UnknownPort { port: requested@[k].port }
                    &&& configs_of(final(self).histogram@) == requested_histograms(requested@, k)
                },
            },
    {
        self.histogram.clear();
        proof {
            assert(configs_of(self.histogram@) =~= requested_histograms(requested@, 0));
        }
        let mut i: usize = 0;
        while i < requested.len()
            invariant
                i <= requested@.len(),
                self.port_mapping == old(self).port_mapping,
                first_unknown_port(self.port_mapping@, requested@, 0) == first_unknown_port(
                    self.port_mapping@,
                    requested@,
                    i as int,
                ),
                configs_of(self.histogram@) == requested_histograms(requested@, i as int),
                old(self).wf() ==> self.wf(),
                forall|k: int|
                    0 <= k < self.histogram@.len() ==> (
                    #[trigger] self.histogram@[k]).histogram.data.is_empty(),
            decreases requested@.len() - i,
        {
            let request = requested[i];
            if find_port(&self.port_mapping, request.port).is_none() {
                return Err(HistogramError::UnknownPort { port: request.port });
            }
            self.set_histogram(request.port, request.config);
            i = i + 1;
        }
        let ghost base = configs_of(self.histogram@);
        let mut m: usize = 0;
        while m < mapping.len()
            invariant
                m <= mapping@.len(),
                self.port_mapping == old(self).port_mapping,
                first_unknown_port(self.port_mapping@, requested@, 0) == requested@.len(),
                base == requested_histograms(requested@, requested@.len() as int),
                configs_of(self.histogram@) == with_receive_defaults(base, mapping@, m as int),
                old(self).wf() ==> self.wf(),
                forall|k: int|
                    0 <= k < self.histogram@.len() ==> (
                    #[trigger] self.histogram@[k]).histogram.data.is_empty(),
            decreases mapping@.len() - m,
        {
            let port = mapping[m].rx;
            let ghost configs = configs_of(self.histogram@);
            proof {
                lemma_first_histogram_of(self.histogram@, port, 0);
            }
            match self.find_histogram(port) {
                Some(k) => {
                    proof {
                        assert(configs[k as int].0 == port);
                    }
                },
                None => {
                    proof {
                        assert forall|j: int| 0 <= j < configs.len() implies (
                        #[trigger] configs[j]).0 != port by {
                            assert(self.histogram@[j].port != port);
                        }
                    }
                    self.histogram.push(PortHistogram { port, histogram: RttHistogram::default() });
                    proof {
                        assert(configs_of(self.histogram@) =~= configs.push(
                            (port, RttHistogramConfig { min: 1500, max: 2500, num_bins: 10 }),
                        ));
                    }
                },
            }
            m = m + 1;
        }
        Ok(())
    }
}

} // verus!
