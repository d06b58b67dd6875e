//! The rules that steer frames through the switch: the path of the
//! monitoring packet, the way of received and generated frames, and what is
//! written into the headers of a stream's frames.

use crate::config::{mac_address, parse_mac};
use crate::ports::{find_port, first_with_port, Direction, PortMapping};
use crate::traffic_gen::{
    clip_u32, given_rate, lemma_given_rate_grows, monitoring_mappings, poisson_drop_range,
    poisson_share, TWO_PIPE_GENERATION_THRESHOLD,
};
use crate::types::{
    Encapsulation, GenerationMode, IPv4, MPLSHeader, MonitoringMapping, Stream, StreamSetting,
    TxRxMapping, Vlan,
};
use crate::validate::{setting_error, stream_error, MAX_NUM_MPLS_LABEL};
use vstd::prelude::*;

verus! {

/// Applications of a port that the monitoring packet visits.
pub const VISITED_APPS: u8 = 7;

/// The internal ports on which the device generates packets, one for each
/// pipe that generates.
pub open spec fn pipe_ports(is_tofino2: bool) -> Seq<u32> {
    if is_tofino2 {
        seq![6, 134, 262, 390]
    } else {
        seq![68, 196]
    }
}

/// The internal ports on which the device generates packets.
pub fn generation_ports(is_tofino2: bool) -> (ports: Vec<u32>)
    ensures
        ports@ == pipe_ports(is_tofino2),
{
    let mut ports: Vec<u32> = Vec::new();
    if is_tofino2 {
        ports.push(6);
        ports.push(134);
        ports.push(262);
        ports.push(390);
    } else {
        ports.push(68);
        ports.push(196);
    }
    ports
}

/// The monitoring index of the application `app_id` on one path of the port
/// at position `position`: every port has sixteen indices, two for each of
/// its eight applications, the send path first, and the indices are counted
/// from one.
pub open spec fn monitoring_index(position: int, app_id: int, direction: Direction) -> int {
    16 * position + 2 * (app_id - 1) + match direction {
        Direction::Tx => 1int,
        Direction::Rx => 2int,
    }
}

/// The recirculation port of one path of a port.
pub open spec fn path_port(mapping: PortMapping, direction: Direction) -> u32 {
    match direction {
        Direction::Tx => mapping.tx_recirculation,
        Direction::Rx => mapping.rx_recirculation,
    }
}

/// The index mapping holds every monitoring index at its place, with the
/// recirculation port and the application that the index stands for.
pub proof fn lemma_index_is_mapped(
    mappings: Seq<PortMapping>,
    count: int,
    position: int,
    app_id: int,
    direction: Direction,
)
    requires
        0 <= position,
        1 <= app_id <= 8,
        8 * position + app_id <= count,
        count <= 8 * mappings.len(),
        mappings.len() <= 0x0FFF_FFFF,
    ensures
        monitoring_mappings(mappings, count).len() == 2 * count,
        monitoring_mappings(mappings, count)[monitoring_index(position, app_id, direction) - 1] == (
        MonitoringMapping {
            index: monitoring_index(position, app_id, direction) as u32,
            port: path_port(mappings[position], direction),
            app_id: app_id as u8,
        }),
    decreases count,
{
    let stream = 8 * position + (app_id - 1);
    if stream < count - 1 {
        lemma_index_is_mapped(mappings, count - 1, position, app_id, direction);
    } else {
        lemma_mappings_len(mappings, count - 1);
    }
}

/// There are two monitoring mappings for each stream.
pub proof fn lemma_mappings_len(mappings: Seq<PortMapping>, count: int)
    requires
        0 <= count,
    ensures
        monitoring_mappings(mappings, count).len() == 2 * count,
    decreases count,
{
    if count > 0 {
        lemma_mappings_len(mappings, count - 1);
    }
}

/// The monitoring packet starts its round on the send path of a port with
/// the first index of that port.
#[derive(Clone, Copy, Debug, PartialEq, Eq, Structural)]
pub struct MonitorInitRule {
    /// Recirculation port of the send path.
    pub egress_port: u32,
    /// The index that the packet is given.
    pub index: u32,
}

/// The monitoring packet that arrives on `ingress_port` with `index`
/// reports the counters of that index, and goes on to `e_port` with
/// `next_index`.
#[derive(Clone, Copy, Debug, PartialEq, Eq, Structural)]
pub struct MonitorForwardRule {
    pub ingress_port: u32,
    pub index: u32,
    pub e_port: u32,
    pub next_index: u32,
}

/// Frames of the application `app_id` that leave through `egress_port` are
/// counted under `index`.
#[derive(Clone, Copy, Debug, PartialEq, Eq, Structural)]
pub struct StreamRateRule {
    pub egress_port: u32,
    pub app_id: u8,
    pub index: u32,
}

/// The rules of the monitoring path.
#[derive(Clone, Debug)]
pub struct MonitoringRules {
    /// The generation port from which the monitoring packet is handed to
    /// every send path.
    pub source_port: u32,
    pub init: Vec<MonitorInitRule>,
    pub forward: Vec<MonitorForwardRule>,
    pub stream_rate: Vec<StreamRateRule>,
}

/// Where the monitoring packet starts on each port.
pub open spec fn init_rules(mappings: Seq<PortMapping>) -> Seq<MonitorInitRule> {
    Seq::new(
        mappings.len(),
        |p: int|
            MonitorInitRule {
                egress_port: mappings[p].tx_recirculation,
                index: monitoring_index(p, 1, Direction::Tx) as u32,
            },
    )
}

/// The `k`-th step of the monitoring packet, where every port has fourteen
/// steps: from the send path of an application to its receive path, and
/// from there to the send path of the next application.
pub open spec fn forward_rule(mappings: Seq<PortMapping>, k: int) -> MonitorForwardRule {
    let p = k / 14;
    let app_id = (k % 14) / 2 + 1;
    if k % 2 == 0 {
        MonitorForwardRule {
            ingress_port: mappings[p].tx_recirculation,
            index: monitoring_index(p, app_id, Direction::Tx) as u32,
            e_port: mappings[p].rx_recirculation,
            next_index: monitoring_index(p, app_id, Direction::Rx) as u32,
        }
    } else {
        MonitorForwardRule {
            ingress_port: mappings[p].rx_recirculation,
            index: monitoring_index(p, app_id, Direction::Rx) as u32,
            e_port: mappings[p].tx_recirculation,
            next_index: monitoring_index(p, app_id + 1, Direction::Tx) as u32,
        }
    }
}

/// The way of the monitoring packet through the applications of every port.
pub open spec fn forward_rules(mappings: Seq<PortMapping>) -> Seq<MonitorForwardRule> {
    Seq::new(14 * mappings.len(), |k: int| forward_rule(mappings, k))
}

/// The `k`-th of the rules that count the frames of a stream, where every
/// port has fourteen: for each application one on the send path and one on
/// the receive path.
pub open spec fn stream_rate_rule(mappings: Seq<PortMapping>, k: int) -> StreamRateRule {
    let p = k / 14;
    let app_id = (k % 14) / 2 + 1;
    let direction = if k % 2 == 0 {
        Direction::Tx
    } else {
        Direction::Rx
    };
    StreamRateRule {
        egress_port: path_port(mappings[p], direction),
        app_id: app_id as u8,
        index: monitoring_index(p, app_id, direction) as u32,
    }
}

/// The rules that count the frames of every stream on every path.
pub open spec fn stream_rate_rules(mappings: Seq<PortMapping>) -> Seq<StreamRateRule> {
    Seq::new(14 * mappings.len(), |k: int| stream_rate_rule(mappings, k))
}

/// The rules of the monitoring path: the monitoring packet is handed from
/// the first generation port to the send path of every port, and visits the
/// two paths of the first seven applications of that port in turn.
pub fn monitoring_rules(mappings: &Vec<PortMapping>, is_tofino2: bool) -> (rules: MonitoringRules)
    requires
        mappings@.len() <= 0x0FFF_FFFF,
    ensures
        rules.source_port == pipe_ports(is_tofino2)[0],
        rules.init@ == init_rules(mappings@),
        rules.forward@ == forward_rules(mappings@),
        rules.stream_rate@ == stream_rate_rules(mappings@),
{
    let source_port: u32 = if is_tofino2 {
        6
    } else {
        68
    };
    let mut init: Vec<MonitorInitRule> = Vec::new();
    let mut forward: Vec<MonitorForwardRule> = Vec::new();
    let mut stream_rate: Vec<StreamRateRule> = Vec::new();
    let mut p: usize = 0;
    while p < mappings.len()
        invariant
            p <= mappings@.len(),
            mappings@.len() <= 0x0FFF_FFFF,
            init@ == init_rules(mappings@.subrange(0, p as int)),
            forward@ == forward_rules(mappings@.subrange(0, p as int)),
            stream_rate@ == stream_rate_rules(mappings@.subrange(0, p as int)),
        decreases mappings@.len() - p,
    {
        let mapping = mappings[p];
        let base: u32 = 16 * (p as u32);
        let ghost after = mappings@.subrange(0, p + 1);
        init.push(MonitorInitRule { egress_port: mapping.tx_recirculation, index: base + 1 });
        let mut app_id: u8 = 1;
        while app_id <= VISITED_APPS
            invariant
                p < mappings@.len(),
                mappings@.len() <= 0x0FFF_FFFF,
                mapping == mappings@[p as int],
                base == 16 * p,
                after == mappings@.subrange(0, p + 1),
                1 <= app_id <= 8,
                forward@.len() == 14 * p + 2 * (app_id - 1),
                stream_rate@.len() == 14 * p + 2 * (app_id - 1),
                forall|k: int| 0 <= k < forward@.len() ==> forward@[k] == forward_rule(after, k),
                forall|k: int|
                    0 <= k < stream_rate@.len() ==> stream_rate@[k] == stream_rate_rule(after, k),
            decreases 8 - app_id,
        {
            let tx_index: u32 = base + 2 * (app_id as u32 - 1) + 1;
            let ghost k = forward@.len() as int;
            forward.push(
                MonitorForwardRule {
                    ingress_port: mapping.tx_recirculation,
                    index: tx_index,
                    e_port: mapping.rx_recirculation,
                    next_index: tx_index + 1,
                },
            );
            forward.push(
                MonitorForwardRule {
                    ingress_port: mapping.rx_recirculation,
                    index: tx_index + 1,
                    e_port: mapping.tx_recirculation,
                    next_index: tx_index + 2,
                },
            );
            stream_rate.push(
                StreamRateRule { egress_port: mapping.tx_recirculation, app_id, index: tx_index },
            );
            stream_rate.push(
                StreamRateRule { egress_port: mapping.rx_recirculation, app_id, index: tx_index + 1 },
            );
            proof {
                assert(forward@[k] == forward_rule(after, k));
            }
            app_id = app_id + 1;
        }
        p = p + 1;
    }
    MonitoringRules { source_port, init, forward, stream_rate }
}

/// Frames that arrive on `ingress_port` leave through `e_port`.
#[derive(Clone, Copy, Debug, PartialEq, Eq, Structural)]
pub struct ForwardRule {
    pub ingress_port: u32,
    pub e_port: u32,
}

/// A rule cannot be written because of what it is asked for.
#[derive(Clone, Copy, Debug, PartialEq, Eq, Structural)]
pub enum RuleError {
    /// The device has no front panel port with this number.
    UnknownPort { port: u32 },
}

/// The `k`-th rule of the default forwarding, where every port has two:
/// what the port receives goes to its receive path, and what its send path
/// carries leaves through the port.
pub open spec fn default_forward_rule(mappings: Seq<PortMapping>, k: int) -> ForwardRule {
    let mapping = mappings[k / 2];
    if k % 2 == 0 {
        ForwardRule { ingress_port: mapping.port, e_port: mapping.rx_recirculation }
    } else {
        ForwardRule { ingress_port: mapping.tx_recirculation, e_port: mapping.port }
    }
}

/// The default forwarding of every port.
pub open spec fn default_forward_rules(mappings: Seq<PortMapping>) -> Seq<ForwardRule> {
    Seq::new(2 * mappings.len(), |k: int| default_forward_rule(mappings, k))
}

/// The default forwarding of every port: received frames go to the receive
/// path, where they are counted, and frames on the send path leave the
/// switch.
pub fn configure_default_forwarding_path(mappings: &Vec<PortMapping>) -> (rules: Vec<ForwardRule>)
    ensures
        rules@ == default_forward_rules(mappings@),
{
    let mut rules: Vec<ForwardRule> = Vec::new();
    let mut p: usize = 0;
    while p < mappings.len()
        invariant
            p <= mappings@.len(),
            rules@.len() == 2 * p,
            forall|k: int| 0 <= k < rules@.len() ==> rules@[k] == default_forward_rule(mappings@, k),
        decreases mappings@.len() - p,
    {
        let mapping = mappings[p];
        rules.push(ForwardRule { ingress_port: mapping.port, e_port: mapping.rx_recirculation });
        rules.push(ForwardRule { ingress_port: mapping.tx_recirculation, e_port: mapping.port });
        p = p + 1;
    }
    rules
}

/// The front panel ports, through which frames leave the switch.
pub open spec fn front_panel_ports(mappings: Seq<PortMapping>) -> Seq<u32> {
    Seq::new(mappings.len(), |p: int| mappings[p].port)
}

/// The recirculation ports of the send paths, on which generated frames
/// still carry the header of the packet generator.
pub open spec fn send_path_ports(mappings: Seq<PortMapping>) -> Seq<u32> {
    Seq::new(mappings.len(), |p: int| mappings[p].tx_recirculation)
}

/// The ports of the two egress rules: the front panel ports, and the
/// recirculation ports of the send paths.
pub fn configure_egress_rules(mappings: &Vec<PortMapping>) -> (ports: (Vec<u32>, Vec<u32>))
    ensures
        ports.0@ == front_panel_ports(mappings@),
        ports.1@ == send_path_ports(mappings@),
{
    let mut leaving: Vec<u32> = Vec::new();
    let mut sending: Vec<u32> = Vec::new();
    let mut p: usize = 0;
    while p < mappings.len()
        invariant
            p <= mappings@.len(),
            leaving@.len() == p,
            sending@.len() == p,
            forall|k: int| 0 <= k < p ==> leaving@[k] == mappings@[k].port,
            forall|k: int| 0 <= k < p ==> sending@[k] == mappings@[k].tx_recirculation,
        decreases mappings@.len() - p,
    {
        leaving.push(mappings[p].port);
        sending.push(mappings[p].tx_recirculation);
        p = p + 1;
    }
    (leaving, sending)
}

/// The device has a front panel port with the number `port`.
pub open spec fn has_port(mappings: Seq<PortMapping>, port: u32) -> bool {
    first_with_port(mappings, port, 0) < mappings.len()
}

/// The port of the first `n` pairs that the device does not have, if there
/// is one: of each pair the receiving port is looked up before the sending
/// port.
pub open spec fn first_unknown_pair(mappings: Seq<PortMapping>, pairs: Seq<TxRxMapping>, n: int) -> Option<
    u32,
>
    decreases n,
{
    if n <= 0 {
        None
    } else if first_unknown_pair(mappings, pairs, n - 1) is Some {
        first_unknown_pair(mappings, pairs, n - 1)
    } else if !has_port(mappings, pairs[n - 1].rx) {
        Some(pairs[n - 1].rx)
    } else if !has_port(mappings, pairs[n - 1].tx) {
        Some(pairs[n - 1].tx)
    } else {
        None
    }
}

/// What is received for a pair goes back out where the pair sends: from
/// the receive path of the receiving port to the send path of the sending
/// port.
pub open spec fn analyze_rule(mappings: Seq<PortMapping>, pair: TxRxMapping) -> ForwardRule {
    ForwardRule {
        ingress_port: mappings[first_with_port(mappings, pair.rx, 0)].rx_recirculation,
        e_port: mappings[first_with_port(mappings, pair.tx, 0)].tx_recirculation,
    }
}

/// The forwarding for the analysis of traffic from outside: one rule for
/// each pair of a sending and a receiving port. Fails with the first port
/// that the device does not have.
pub fn configure_analyze_forwarding(mappings: &Vec<PortMapping>, tx_rx_mapping: &Vec<TxRxMapping>) -> (r:
    Result<Vec<ForwardRule>, RuleError>)
    ensures
        match r {
            Ok(rules) => {
                &&& first_unknown_pair(mappings@, tx_rx_mapping@, tx_rx_mapping@.len() as int) is None
                &&& rules@.len() == tx_rx_mapping@.len()
                &&& forall|k: int|
                    0 <= k < rules@.len() ==> #[trigger] rules@[k] == analyze_rule(
                        mappings@,
                        tx_rx_mapping@[k],
                    )
            },
            Err(e) => first_unknown_pair(mappings@, tx_rx_mapping@, tx_rx_mapping@.len() as int) == Some(
                e->port,
            ),
        },
{
    let mut rules: Vec<ForwardRule> = Vec::new();
    let mut i: usize = 0;
    while i < tx_rx_mapping.len()
        invariant
            i <= tx_rx_mapping@.len(),
            first_unknown_pair(mappings@, tx_rx_mapping@, i as int) is None,
            rules@.len() == i,
            forall|k: int|
                0 <= k < i ==> #[trigger] rules@[k] == analyze_rule(mappings@, tx_rx_mapping@[k]),
        decreases tx_rx_mapping@.len() - i,
    {
        let pair = tx_rx_mapping[i];
        let rx = match find_port(mappings, pair.rx) {
            Some(p) => mappings[p].rx_recirculation,
            None => {
                proof {
                    lemma_unknown_pair_stays(mappings@, tx_rx_mapping@, i + 1, tx_rx_mapping@.len() as int);
                }
                return Err(RuleError::UnknownPort { port: pair.rx });
            },
        };
        let tx = match find_port(mappings, pair.tx) {
            Some(p) => mappings[p].tx_recirculation,
            None => {
                proof {
                    lemma_unknown_pair_stays(mappings@, tx_rx_mapping@, i + 1, tx_rx_mapping@.len() as int);
                }
                return Err(RuleError::UnknownPort { port: pair.tx });
            },
        };
        rules.push(ForwardRule { ingress_port: rx, e_port: tx });
        i = i + 1;
    }
    Ok(rules)
}

/// The first unknown port among some pairs is the first among more pairs.
pub proof fn lemma_unknown_pair_stays(mappings: Seq<PortMapping>, pairs: Seq<TxRxMapping>, n: int, m: int)
    requires
        0 <= n <= m,
        first_unknown_pair(mappings, pairs, n) is Some,
    ensures
        first_unknown_pair(mappings, pairs, m) == first_unknown_pair(mappings, pairs, n),
    decreases m - n,
{
    if n < m {
        lemma_unknown_pair_stays(mappings, pairs, n, m - 1);
    }
}

/// Packets of the application `app_id` that are generated on
/// `ingress_port` are handed to the stream's multicast group if their
/// random number is at most `random_limit`, and are dropped otherwise.
#[derive(Clone, Copy, Debug, PartialEq, Eq, Structural)]
pub struct StreamForwardRule {
    pub ingress_port: u32,
    pub app_id: u8,
    pub random_limit: u32,
}

/// The generation ports on which the streams are generated: all of them
/// for random traffic and from the threshold rate on, the first below it.
pub open spec fn stream_ports(streams: Seq<Stream>, mode: GenerationMode, is_tofino2: bool) -> Seq<u32> {
    if given_rate(streams, streams.len() as int) < TWO_PIPE_GENERATION_THRESHOLD && mode
        != GenerationMode::Poisson {
        seq![pipe_ports(is_tofino2)[0]]
    } else {
        pipe_ports(is_tofino2)
    }
}

/// The highest random number with which a packet of the stream is let
/// through: every number unless the traffic is random, where it is the
/// share of the target rate in the highest rate.
pub open spec fn random_limit(stream: Stream, mode: GenerationMode, is_tofino2: bool) -> u32 {
    if mode == GenerationMode::Poisson {
        clip_u32(poisson_share(stream.traffic_rate, is_tofino2))
    } else {
        0xFFFF
    }
}

/// The rules of one stream on the first `n` of the ports.
pub open spec fn stream_rules_on(
    stream: Stream,
    ports: Seq<u32>,
    mode: GenerationMode,
    is_tofino2: bool,
    n: int,
) -> Seq<StreamForwardRule> {
    Seq::new(
        n as nat,
        |j: int|
            StreamForwardRule {
                ingress_port: ports[j],
                app_id: stream.app_id,
                random_limit: random_limit(stream, mode, is_tofino2),
            },
    )
}

/// The rules of the first `n` streams: for each stream in turn, one rule
/// on each of the ports.
pub open spec fn stream_forward_rules(
    streams: Seq<Stream>,
    ports: Seq<u32>,
    mode: GenerationMode,
    is_tofino2: bool,
    n: int,
) -> Seq<StreamForwardRule>
    decreases n,
{
    if n <= 0 {
        Seq::empty()
    } else {
        stream_forward_rules(streams, ports, mode, is_tofino2, n - 1) + stream_rules_on(
            streams[n - 1],
            ports,
            mode,
            is_tofino2,
            ports.len() as int,
        )
    }
}

/// Whether the streams together reach the rate from which on every pipe
/// generates.
pub fn reaches_threshold(streams: &Vec<Stream>) -> (r: bool)
    ensures
        r == (given_rate(streams@, streams@.len() as int) >= TWO_PIPE_GENERATION_THRESHOLD),
{
    let mut total: u64 = 0;
    let mut i: usize = 0;
    while i < streams.len()
        invariant
            i <= streams@.len(),
            total == given_rate(streams@, i as int),
            total < TWO_PIPE_GENERATION_THRESHOLD,
        decreases streams@.len() - i,
    {
        total = total.saturating_add(streams[i].traffic_rate);
        i = i + 1;
        if total >= TWO_PIPE_GENERATION_THRESHOLD {
            proof {
                lemma_given_rate_grows(streams@, i as int, streams@.len() as int);
            }
            return true;
        }
    }
    false
}

/// The forwarding of generated packets: for each stream one rule on each
/// port that generates it. Random traffic is generated at the highest rate,
/// and the rule lets through the share that makes up the target rate.
pub fn configure_traffic_gen_forwarding_table(streams: &Vec<Stream>, mode: GenerationMode, is_tofino2: bool) -> (rules:
    Vec<StreamForwardRule>)
    ensures
        rules@ == stream_forward_rules(
            streams@,
            stream_ports(streams@, mode, is_tofino2),
            mode,
            is_tofino2,
            streams@.len() as int,
        ),
{
    let random = match mode {
        GenerationMode::Poisson => true,
        _ => false,
    };
    let all = generation_ports(is_tofino2);
    let ports = if !reaches_threshold(streams) && !random {
        let mut first: Vec<u32> = Vec::new();
        first.push(all[0]);
        first
    } else {
        all
    };
    let mut rules: Vec<StreamForwardRule> = Vec::new();
    let mut i: usize = 0;
    while i < streams.len()
        invariant
            i <= streams@.len(),
            random == (mode == GenerationMode::Poisson),
            rules@ == stream_forward_rules(streams@, ports@, mode, is_tofino2, i as int),
        decreases streams@.len() - i,
    {
        let stream = streams[i];
        let limit: u32 = if random {
            let share = poisson_drop_range(stream.traffic_rate, is_tofino2);
            if share > u32::MAX as u64 {
                u32::MAX
            } else {
                share as u32
            }
        } else {
            0xFFFF
        };
        let ghost before = rules@;
        let mut j: usize = 0;
        while j < ports.len()
            invariant
                j <= ports@.len(),
                i < streams@.len(),
                stream == streams@[i as int],
                limit == random_limit(stream, mode, is_tofino2),
                rules@ == before + stream_rules_on(stream, ports@, mode, is_tofino2, j as int),
            decreases ports@.len() - j,
        {
            rules.push(StreamForwardRule { ingress_port: ports[j], app_id: stream.app_id, random_limit: limit });
            j = j + 1;
        }
        i = i + 1;
    }
    rules
}

/// The port of the first of the first `n` settings that the device does
/// not have, if there is one.
pub open spec fn first_unknown_setting(mappings: Seq<PortMapping>, settings: Seq<StreamSetting>, n: int) -> Option<
    u32,
>
    decreases n,
{
    if n <= 0 {
        None
    } else if first_unknown_setting(mappings, settings, n - 1) is Some {
        first_unknown_setting(mappings, settings, n - 1)
    } else if !has_port(mappings, settings[n - 1].port) {
        Some(settings[n - 1].port)
    } else {
        None
    }
}

/// The recirculation port of the send path of the front panel port `port`.
pub open spec fn send_path_of(mappings: Seq<PortMapping>, port: u32) -> u32 {
    mappings[first_with_port(mappings, port, 0)].tx_recirculation
}

/// The send paths on which the first `n` settings send the stream
/// `stream_id`: each once, in the order in which the settings name them.
pub open spec fn group_ports(
    mappings: Seq<PortMapping>,
    settings: Seq<StreamSetting>,
    stream_id: u8,
    n: int,
) -> Seq<u32>
    decreases n,
{
    if n <= 0 {
        Seq::empty()
    } else {
        let before = group_ports(mappings, settings, stream_id, n - 1);
        let port = send_path_of(mappings, settings[n - 1].port);
        if settings[n - 1].stream_id == stream_id && !before.contains(port) {
            before.push(port)
        } else {
            before
        }
    }
}

/// Whether `port` is among the ports.
pub fn contains_port(ports: &Vec<u32>, port: u32) -> (r: bool)
    ensures
        r == ports@.contains(port),
{
    let mut i: usize = 0;
    while i < ports.len()
        invariant
            i <= ports@.len(),
            forall|k: int| 0 <= k < i ==> ports@[k] != port,
        decreases ports@.len() - i,
    {
        if ports[i] == port {
            return true;
        }
        i = i + 1;
    }
    false
}

/// The ports of the multicast group of a stream: the send paths of the
/// ports on which the settings send the stream, each once. Fails with the
/// first port of any setting that the device does not have.
pub fn multicast_ports(mappings: &Vec<PortMapping>, settings: &Vec<StreamSetting>, stream_id: u8) -> (r:
    Result<Vec<u32>, RuleError>)
    ensures
        match r {
            Ok(ports) => {
                &&& first_unknown_setting(mappings@, settings@, settings@.len() as int) is None
                &&& ports@ == group_ports(mappings@, settings@, stream_id, settings@.len() as int)
                &&& ports@.no_duplicates()
            },
            Err(e) => first_unknown_setting(mappings@, settings@, settings@.len() as int) == Some(e->port),
        },
{
    let mut ports: Vec<u32> = Vec::new();
    let mut i: usize = 0;
    while i < settings.len()
        invariant
            i <= settings@.len(),
            first_unknown_setting(mappings@, settings@, i as int) is None,
            ports@ == group_ports(mappings@, settings@, stream_id, i as int),
            ports@.no_duplicates(),
        decreases settings@.len() - i,
    {
        match find_port(mappings, settings[i].port) {
            Some(p) => {
                let port = mappings[p].tx_recirculation;
                if settings[i].stream_id == stream_id && !contains_port(&ports, port) {
                    ports.push(port);
                }
            },
            None => {
                proof {
                    lemma_unknown_setting_stays(mappings@, settings@, i + 1, settings@.len() as int);
                }
                return Err(RuleError::UnknownPort { port: settings[i].port });
            },
        }
        i = i + 1;
    }
    Ok(ports)
}

/// The first unknown port among some settings is the first among more
/// settings.
pub proof fn lemma_unknown_setting_stays(
    mappings: Seq<PortMapping>,
    settings: Seq<StreamSetting>,
    n: int,
    m: int,
)
    requires
        0 <= n <= m,
        first_unknown_setting(mappings, settings, n) is Some,
    ensures
        first_unknown_setting(mappings, settings, m) == first_unknown_setting(mappings, settings, n),
    decreases m - n,
{
    if n < m {
        lemma_unknown_setting_stays(mappings, settings, n, m - 1);
    }
}

/// What is written into the outer headers of a frame that is sent through
/// a tunnel.
#[derive(Clone, Debug)]
pub struct TunnelRewrite {
    /// Bytes of the outer source hardware address.
    pub outer_src_mac: Vec<u8>,
    /// Bytes of the outer destination hardware address.
    pub outer_dst_mac: Vec<u8>,
    pub outer_ip_src: u32,
    pub outer_ip_dst: u32,
    pub outer_tos: u8,
    pub udp_source: u16,
    pub vni: u32,
}

/// What is written into the tags or labels of a frame.
#[derive(Clone, Debug)]
pub enum TagRewrite {
    /// One tag: the outer fields of `tag`.
    Vlan { tag: Vlan },
    /// Two tags.
    QinQ { tags: Vlan },
    /// A label stack.
    Mpls { labels: Vec<MPLSHeader> },
}

/// What is written into the headers of the frames of one application that
/// leave on one send path.
#[derive(Clone, Debug)]
pub struct HeaderRewrite {
    /// Recirculation port of the send path.
    pub egress_port: u32,
    pub app_id: u8,
    /// Bytes of the source hardware address.
    pub src_mac: Vec<u8>,
    /// Bytes of the destination hardware address.
    pub dst_mac: Vec<u8>,
    /// The IPv4 header fields, as far as the setting gives them.
    pub ip: Option<IPv4>,
    /// The outer headers, for a stream that is sent through a tunnel.
    pub tunnel: Option<TunnelRewrite>,
    /// The tags or labels, for a stream that has them.
    pub tags: Option<TagRewrite>,
}

/// Why the headers of a stream cannot be rewritten.
#[derive(Clone, Copy, Debug, PartialEq, Eq, Structural)]
pub enum RewriteError {
    /// The device does not have the port of a setting.
    UnknownPort,
    /// The source address of a setting is no hardware address.
    SourceMac,
    /// The destination address of a setting is no hardware address.
    DestinationMac,
    /// The outer source address of a tunnel is no hardware address.
    TunnelSourceMac,
    /// The outer destination address of a tunnel is no hardware address.
    TunnelDestinationMac,
    /// A setting lacks the tunnel, the tags or the labels of its stream.
    MissingSettings,
}

/// Number of labels that are written for the stream: as many as it says,
/// and no more than a frame can carry.
pub open spec fn label_count(stream: Stream) -> int {
    if stream.number_of_lse->0 <= MAX_NUM_MPLS_LABEL {
        stream.number_of_lse->0 as int
    } else {
        MAX_NUM_MPLS_LABEL as int
    }
}

/// The setting lacks the tags or the labels that the stream's frames have.
pub open spec fn lacks_tags(stream: Stream, setting: StreamSetting) -> bool {
    match stream.encapsulation {
        Encapsulation::Vlan | Encapsulation::QinQ => setting.vlan is None,
        Encapsulation::Mpls => {
            ||| stream.number_of_lse is None
            ||| setting.mpls_stack is None
            ||| setting.mpls_stack->0@.len() < label_count(stream)
        },
        _ => false,
    }
}

/// Why the headers of the stream cannot be rewritten as the setting says,
/// if they cannot: the first of the reasons in the order of
/// [`RewriteError`].
pub open spec fn rewrite_error(mappings: Seq<PortMapping>, stream: Stream, setting: StreamSetting) -> Option<
    RewriteError,
> {
    if !has_port(mappings, setting.port) {
        Some(RewriteError::UnknownPort)
    } else if mac_address(setting.ethernet.eth_src@) is None {
        Some(RewriteError::SourceMac)
    } else if mac_address(setting.ethernet.eth_dst@) is None {
        Some(RewriteError::DestinationMac)
    } else if stream.vxlan && setting.vxlan is None {
        Some(RewriteError::MissingSettings)
    } else if stream.vxlan && mac_address(setting.vxlan->0.eth_src@) is None {
        Some(RewriteError::TunnelSourceMac)
    } else if stream.vxlan && mac_address(setting.vxlan->0.eth_dst@) is None {
        Some(RewriteError::TunnelDestinationMac)
    } else if lacks_tags(stream, setting) {
        Some(RewriteError::MissingSettings)
    } else {
        None
    }
}

/// The tunnel part of a rewrite is what the setting says of the tunnel.
pub open spec fn is_tunnel_rewrite(tunnel: Option<TunnelRewrite>, stream: Stream, setting: StreamSetting) -> bool {
    match tunnel {
        Some(t) => {
            &&& stream.vxlan
            &&& setting.vxlan matches Some(given)
            &&& mac_address(given.eth_src@) == Some(t.outer_src_mac@)
            &&& mac_address(given.eth_dst@) == Some(t.outer_dst_mac@)
            &&& t.outer_ip_src == given.ip_src
            &&& t.outer_ip_dst == given.ip_dst
            &&& t.outer_tos == given.ip_tos
            &&& t.udp_source == given.udp_source
            &&& t.vni == given.vni
        },
        None => !stream.vxlan,
    }
}

/// The tag part of a rewrite is what the setting says of the tags or
/// labels that the stream's frames have.
pub open spec fn is_tag_rewrite(tags: Option<TagRewrite>, stream: Stream, setting: StreamSetting) -> bool {
    match tags {
        Some(TagRewrite::Vlan { tag }) => stream.encapsulation == Encapsulation::Vlan && setting.vlan
            == Some(tag),
        Some(TagRewrite::QinQ { tags }) => stream.encapsulation == Encapsulation::QinQ && setting.vlan
            == Some(tags),
        Some(TagRewrite::Mpls { labels }) => {
            &&& stream.encapsulation == Encapsulation::Mpls
            &&& !lacks_tags(stream, setting)
            &&& labels@ == setting.mpls_stack->0@.subrange(0, label_count(stream))
        },
        None => stream.encapsulation == Encapsulation::Plain || stream.encapsulation
            == Encapsulation::SRv6,
    }
}

/// The rewrite is the one of the stream's frames on the port of the
/// setting.
pub open spec fn is_rewrite(
    rule: HeaderRewrite,
    mappings: Seq<PortMapping>,
    stream: Stream,
    setting: StreamSetting,
) -> bool {
    &&& rule.egress_port == send_path_of(mappings, setting.port)
    &&& rule.app_id == stream.app_id
    &&& mac_address(setting.ethernet.eth_src@) == Some(rule.src_mac@)
    &&& mac_address(setting.ethernet.eth_dst@) == Some(rule.dst_mac@)
    &&& rule.ip == setting.ip
    &&& is_tunnel_rewrite(rule.tunnel, stream, setting)
    &&& is_tag_rewrite(rule.tags, stream, setting)
}

/// A setting that breaks no rule with its stream lacks nothing that the
/// stream's frames have: what keeps their headers from being rewritten is
/// then an unknown port or a text that is no hardware address.
pub proof fn lemma_valid_setting_is_complete(
    mappings: Seq<PortMapping>,
    stream: Stream,
    setting: StreamSetting,
    is_tofino2: bool,
)
    requires
        setting.stream_id == stream.stream_id,
        stream_error(stream, is_tofino2) is None,
        setting_error(stream, setting, is_tofino2) is None,
    ensures
        !lacks_tags(stream, setting),
        stream.vxlan ==> setting.vxlan is Some,
        rewrite_error(mappings, stream, setting) != Some(RewriteError::MissingSettings),
        stream.encapsulation == Encapsulation::Mpls ==> label_count(stream)
            == setting.mpls_stack->0@.len(),
{
}

/// The first `count` labels of a stack.
fn first_labels(stack: &Vec<MPLSHeader>, count: usize) -> (labels: Vec<MPLSHeader>)
    requires
        count <= stack@.len(),
    ensures
        labels@ == stack@.subrange(0, count as int),
{
    let mut labels: Vec<MPLSHeader> = Vec::new();
    let mut j: usize = 0;
    while j < count
        invariant
            j <= count <= stack@.len(),
            labels@ == stack@.subrange(0, j as int),
        decreases count - j,
    {
        labels.push(stack[j]);
        j = j + 1;
    }
    labels
}

/// The tag part of the rewrite of a stream's frames, or nothing where the
/// setting lacks it.
fn tag_rewrite(stream: &Stream, setting: &StreamSetting) -> (r: Option<Option<TagRewrite>>)
    ensures
        match r {
            Some(tags) => !lacks_tags(*stream, *setting) && is_tag_rewrite(tags, *stream, *setting),
            None => lacks_tags(*stream, *setting),
        },
{
    match stream.encapsulation {
        Encapsulation::Vlan => match setting.vlan {
            Some(tag) => Some(Some(TagRewrite::Vlan { tag })),
            None => None,
        },
        Encapsulation::QinQ => match setting.vlan {
            Some(tags) => Some(Some(TagRewrite::QinQ { tags })),
            None => None,
        },
        Encapsulation::Mpls => match (stream.number_of_lse, &setting.mpls_stack) {
            (Some(lse), Some(stack)) => {
                let count: usize = if lse <= MAX_NUM_MPLS_LABEL {
                    lse as usize
                } else {
                    MAX_NUM_MPLS_LABEL as usize
                };
                if stack.len() < count {
                    None
                } else {
                    Some(Some(TagRewrite::Mpls { labels: first_labels(stack, count) }))
                }
            },
            _ => None,
        },
        _ => Some(None),
    }
}

/// What is written into the headers of the stream's frames on the port of
/// the setting: the hardware addresses as bytes, the IPv4 fields, the outer
/// headers of a tunnel, and the tags or labels.
pub fn header_rewrite(mappings: &Vec<PortMapping>, stream: &Stream, setting: &StreamSetting) -> (r: Result<
    HeaderRewrite,
    RewriteError,
>)
    ensures
        match r {
            Ok(rule) => rewrite_error(mappings@, *stream, *setting) is None && is_rewrite(
                rule,
                mappings@,
                *stream,
                *setting,
            ),
            Err(e) => rewrite_error(mappings@, *stream, *setting) == Some(e),
        },
{
    let egress_port = match find_port(mappings, setting.port) {
        Some(p) => mappings[p].tx_recirculation,
        None => {
            return Err(RewriteError::UnknownPort);
        },
    };
    let src_mac = match parse_mac(setting.ethernet.eth_src.as_str()) {
        Some(bytes) => bytes,
        None => {
            return Err(RewriteError::SourceMac);
        },
    };
    let dst_mac = match parse_mac(setting.ethernet.eth_dst.as_str()) {
        Some(bytes) => bytes,
        None => {
            return Err(RewriteError::DestinationMac);
        },
    };
    let tunnel = if stream.vxlan {
        match &setting.vxlan {
            Some(given) => {
                let outer_src_mac = match parse_mac(given.eth_src.as_str()) {
                    Some(bytes) => bytes,
                    None => {
                        return Err(RewriteError::TunnelSourceMac);
                    },
                };
                let outer_dst_mac = match parse_mac(given.eth_dst.as_str()) {
                    Some(bytes) => bytes,
                    None => {
                        return Err(RewriteError::TunnelDestinationMac);
                    },
                };
                Some(
                    TunnelRewrite {
                        outer_src_mac,
                        outer_dst_mac,
                        outer_ip_src: given.ip_src,
                        outer_ip_dst: given.ip_dst,
                        outer_tos: given.ip_tos,
                        udp_source: given.udp_source,
                        vni: given.vni,
                    },
                )
            },
            None => {
                return Err(RewriteError::MissingSettings);
            },
        }
    } else {
        None
    };
    let tags = match tag_rewrite(stream, setting) {
        Some(tags) => tags,
        None => {
            return Err(RewriteError::MissingSettings);
        },
    };
    Ok(HeaderRewrite { egress_port, app_id: stream.app_id, src_mac, dst_mac, ip: setting.ip, tunnel, tags })
}

/// The setting is in use and is for the stream.
pub open spec fn is_for(stream: Stream, setting: StreamSetting) -> bool {
    setting.stream_id == stream.stream_id && setting.active
}

/// The positions of the settings of the stream among the first `n`
/// settings, in their order.
pub open spec fn settings_of(stream: Stream, settings: Seq<StreamSetting>, n: int) -> Seq<int>
    decreases n,
{
    if n <= 0 {
        Seq::empty()
    } else if is_for(stream, settings[n - 1]) {
        settings_of(stream, settings, n - 1).push(n - 1)
    } else {
        settings_of(stream, settings, n - 1)
    }
}

/// Why the headers of the stream cannot be rewritten as the first `n`
/// settings say, if they cannot: the reason of the first setting of the
/// stream that has one.
pub open spec fn stream_rewrite_error(
    mappings: Seq<PortMapping>,
    stream: Stream,
    settings: Seq<StreamSetting>,
    n: int,
) -> Option<RewriteError>
    decreases n,
{
    if n <= 0 {
        None
    } else if stream_rewrite_error(mappings, stream, settings, n - 1) is Some {
        stream_rewrite_error(mappings, stream, settings, n - 1)
    } else if is_for(stream, settings[n - 1]) {
        rewrite_error(mappings, stream, settings[n - 1])
    } else {
        None
    }
}

/// The rewrites are those of the stream: one for each of its settings among
/// the first `n`, in the order of the settings.
pub open spec fn are_rewrites(
    rules: Seq<HeaderRewrite>,
    mappings: Seq<PortMapping>,
    stream: Stream,
    settings: Seq<StreamSetting>,
    n: int,
) -> bool {
    let of = settings_of(stream, settings, n);
    &&& rules.len() == of.len()
    &&& forall|k: int| 0 <= k < rules.len() ==> 0 <= #[trigger] of[k] < n
    &&& forall|k: int|
        0 <= k < rules.len() ==> is_rewrite(#[trigger] rules[k], mappings, stream, settings[of[k]])
}

/// The header rewrites of one stream: one for each setting that is in use
/// for it. Fails with the reason of the first setting that cannot be
/// written.
pub fn stream_header_rewrites(mappings: &Vec<PortMapping>, stream: &Stream, settings: &Vec<StreamSetting>) -> (r:
    Result<Vec<HeaderRewrite>, RewriteError>)
    ensures
        match r {
            Ok(rules) => {
                &&& stream_rewrite_error(mappings@, *stream, settings@, settings@.len() as int) is None
                &&& are_rewrites(rules@, mappings@, *stream, settings@, settings@.len() as int)
            },
            Err(e) => stream_rewrite_error(mappings@, *stream, settings@, settings@.len() as int) == Some(e),
        },
{
    let mut rules: Vec<HeaderRewrite> = Vec::new();
    let mut j: usize = 0;
    while j < settings.len()
        invariant
            j <= settings@.len(),
            stream_rewrite_error(mappings@, *stream, settings@, j as int) is None,
            are_rewrites(rules@, mappings@, *stream, settings@, j as int),
        decreases settings@.len() - j,
    {
        if settings[j].stream_id == stream.stream_id && settings[j].active {
            match header_rewrite(mappings, stream, &settings[j]) {
                Ok(rule) => {
                    rules.push(rule);
                },
                Err(e) => {
                    proof {
                        lemma_rewrite_error_stays(mappings@, *stream, settings@, j + 1, settings@.len() as int);
                    }
                    return Err(e);
                },
            }
        }
        j = j + 1;
    }
    Ok(rules)
}

/// The first reason among some settings is the first among more settings.
pub proof fn lemma_rewrite_error_stays(
    mappings: Seq<PortMapping>,
    stream: Stream,
    settings: Seq<StreamSetting>,
    n: int,
    m: int,
)
    requires
        0 <= n <= m,
        stream_rewrite_error(mappings, stream, settings, n) is Some,
    ensures
        stream_rewrite_error(mappings, stream, settings, m) == stream_rewrite_error(
            mappings,
            stream,
            settings,
            n,
        ),
    decreases m - n,
{
    if n < m {
        lemma_rewrite_error_stays(mappings, stream, settings, n, m - 1);
    }
}

/// Why the headers of the first `n` streams cannot be rewritten, if they
/// cannot: the reason of the first stream that has one.
pub open spec fn first_rewrite_error(
    mappings: Seq<PortMapping>,
    streams: Seq<Stream>,
    settings: Seq<StreamSetting>,
    n: int,
) -> Option<RewriteError>
    decreases n,
{
    if n <= 0 {
        None
    } else if first_rewrite_error(mappings, streams, settings, n - 1) is Some {
        first_rewrite_error(mappings, streams, settings, n - 1)
    } else {
        stream_rewrite_error(mappings, streams[n - 1], settings, settings.len() as int)
    }
}

/// The header rewrites of the streams: for each stream in turn, one for
/// each setting that is in use for it. Fails with the reason of the first
/// stream and setting that cannot be written.
pub fn configure_packet_header_rewrite(
    mappings: &Vec<PortMapping>,
    streams: &Vec<Stream>,
    settings: &Vec<StreamSetting>,
) -> (r: Result<Vec<Vec<HeaderRewrite>>, RewriteError>)
    ensures
        match r {
            Ok(rules) => {
                &&& first_rewrite_error(mappings@, streams@, settings@, streams@.len() as int) is None
                &&& rules@.len() == streams@.len()
                &&& forall|i: int|
                    0 <= i < rules@.len() ==> are_rewrites(
                        (#[trigger] rules@[i])@,
                        mappings@,
                        streams@[i],
                        settings@,
                        settings@.len() as int,
                    )
            },
            Err(e) => first_rewrite_error(mappings@, streams@, settings@, streams@.len() as int) == Some(e),
        },
{
    let mut rules: Vec<Vec<HeaderRewrite>> = Vec::new();
    let mut i: usize = 0;
    while i < streams.len()
        invariant
            i <= streams@.len(),
            first_rewrite_error(mappings@, streams@, settings@, i as int) is None,
            rules@.len() == i,
            forall|k: int|
                0 <= k < i ==> are_rewrites(
                    (#[trigger] rules@[k])@,
                    mappings@,
                    streams@[k],
                    settings@,
                    settings@.len() as int,
                ),
        decreases streams@.len() - i,
    {
        match stream_header_rewrites(mappings, &streams[i], settings) {
            Ok(of_stream) => {
                rules.push(of_stream);
            },
            Err(e) => {
                proof {
                    lemma_first_rewrite_error_stays(mappings@, streams@, settings@, i + 1, streams@.len() as int);
                }
                return Err(e);
            },
        }
        i = i + 1;
    }
    Ok(rules)
}

/// The first reason among some streams is the first among more streams.
pub proof fn lemma_first_rewrite_error_stays(
    mappings: Seq<PortMapping>,
    streams: Seq<Stream>,
    settings: Seq<StreamSetting>,
    n: int,
    m: int,
)
    requires
        0 <= n <= m,
        first_rewrite_error(mappings, streams, settings, n) is Some,
    ensures
        first_rewrite_error(mappings, streams, settings, m) == first_rewrite_error(
            mappings,
            streams,
            settings,
            n,
        ),
    decreases m - n,
{
    if n < m {
        lemma_first_rewrite_error_stays(mappings, streams, settings, n, m - 1);
    }
}

} // verus!
