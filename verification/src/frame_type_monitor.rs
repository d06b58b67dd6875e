//! Counts of the frames that pass the recirculation ports, by frame type.

use crate::ports::{Direction, PortMapping};
use crate::rate_monitor::digest_source;
use crate::statistics::{FrameType, FrameTypeStatistics, PortTypeCount, TypeCount, TypeCountValue};
use crate::ternary::TernaryMatch;
use vstd::prelude::*;

verus! {

/// A rule that tells frames apart by their destination address.
#[derive(Clone, Copy, Debug, PartialEq, Eq, Structural)]
pub struct AddressRule {
    /// Recirculation port that the rule matches.
    pub ingress_port: u32,
    /// Match on the IPv4 destination address.
    pub ipv4: TernaryMatch,
    /// Value of the match on the IPv6 destination address.
    pub ipv6_value: u128,
    /// Mask of the match on the IPv6 destination address.
    pub ipv6_mask: u128,
    /// Whether the frame came through a tunnel.
    pub vxlan: u8,
    /// Rules with the lower number are tried first.
    pub priority: i32,
    /// What the rule counts the frame as.
    pub frame_type: FrameType,
}

/// A rule that tells frames apart by their type field.
#[derive(Clone, Copy, Debug, PartialEq, Eq, Structural)]
pub struct EtherTypeRule {
    /// Recirculation port that the rule matches.
    pub ingress_port: u32,
    pub ether_type: u16,
    /// Number of leading bits of the type that are compared.
    pub prefix_length: u8,
    /// What the rule counts the frame as.
    pub frame_type: FrameType,
}

/// One entry of the tables that count frames by type, as it is read back.
#[derive(Clone, Copy, Debug, PartialEq, Eq, Structural)]
pub struct FrameTypeEntry {
    /// The recirculation port that the entry matches, if it matches on one.
    pub ingress_port: Option<u32>,
    /// What the entry counts frames as.
    pub frame_type: FrameType,
    /// The entry's packet counter.
    pub packets: u64,
}

/// The mask that keeps the first `prefix_length` bits of 32.
pub open spec fn prefix_mask(prefix_length: u32) -> u32 {
    if prefix_length == 0 {
        0
    } else {
        (((1u32 << prefix_length) - 1) as u32) << ((32 - prefix_length) as u32)
    }
}

/// The mask that keeps the first `prefix_length` bits of 128.
pub open spec fn prefix_mask_v6(prefix_length: u32) -> u128 {
    if prefix_length == 0 {
        0
    } else {
        (((1u128 << prefix_length) - 1) as u128) << ((128 - prefix_length) as u128)
    }
}

/// The mask that keeps the first `prefix_length` bits of an IPv4 address.
pub fn lpm_mask(prefix_length: u32) -> (mask: u32)
    requires
        prefix_length < 32,
    ensures
        mask == prefix_mask(prefix_length),
{
    if prefix_length == 0 {
        0
    } else {
        let ones: u32 = 1u32 << prefix_length;
        assert(ones >= 1) by (bit_vector)
            requires
                ones == 1u32 << prefix_length,
                prefix_length < 32,
        ;
        (ones - 1) << (32 - prefix_length)
    }
}

/// The mask that keeps the first `prefix_length` bits of an IPv6 address.
pub fn lpm_mask_v6(prefix_length: u32) -> (mask: u128)
    requires
        prefix_length < 128,
    ensures
        mask == prefix_mask_v6(prefix_length),
{
    if prefix_length == 0 {
        0
    } else {
        let ones: u128 = 1u128 << prefix_length;
        assert(ones >= 1) by (bit_vector)
            requires
                ones == 1u128 << prefix_length,
                prefix_length < 128,
        ;
        (ones - 1) << (128 - prefix_length)
    }
}

/// The rules by destination address for one recirculation port: multicast
/// addresses of both versions first, then any address, without and with a
/// tunnel.
pub open spec fn address_rules(port: u32) -> Seq<AddressRule> {
    seq![
        AddressRule {
            ingress_port: port,
            ipv4: TernaryMatch { value: 0xE000_0000, mask: prefix_mask(8) },
            ipv6_value: 0,
            ipv6_mask: 0,
            vxlan: 0,
            priority: 0,
            frame_type: FrameType::Multicast,
        },
        AddressRule {
            ingress_port: port,
            ipv4: TernaryMatch { value: 0, mask: 0 },
            ipv6_value: 0,
            ipv6_mask: 0,
            vxlan: 0,
            priority: 1,
            frame_type: FrameType::Unicast,
        },
        AddressRule {
            ingress_port: port,
            ipv4: TernaryMatch { value: 0, mask: 0 },
            ipv6_value: 0,
            ipv6_mask: 0,
            vxlan: 1,
            priority: 1,
            frame_type: FrameType::Vxlan,
        },
        AddressRule {
            ingress_port: port,
            ipv4: TernaryMatch { value: 0, mask: 0 },
            ipv6_value: 0xFF00_0000_0000_0000_0000_0000_0000_0000,
            ipv6_mask: prefix_mask_v6(8),
            vxlan: 0,
            priority: 0,
            frame_type: FrameType::Multicast,
        },
    ]
}

/// The rules by type field for one recirculation port: one for each known
/// type, and one that takes every other frame as unknown.
pub open spec fn ether_type_rules(port: u32) -> Seq<EtherTypeRule> {
    seq![
        EtherTypeRule {
            ingress_port: port,
            ether_type: 0x0800,
            prefix_length: 16,
            frame_type: FrameType::Ipv4,
        },
        EtherTypeRule {
            ingress_port: port,
            ether_type: 0x86DD,
            prefix_length: 16,
            frame_type: FrameType::Ipv6,
        },
        EtherTypeRule {
            ingress_port: port,
            ether_type: 0x8100,
            prefix_length: 16,
            frame_type: FrameType::Vlan,
        },
        EtherTypeRule {
            ingress_port: port,
            ether_type: 0x88A8,
            prefix_length: 16,
            frame_type: FrameType::QinQ,
        },
        EtherTypeRule {
            ingress_port: port,
            ether_type: 0x0806,
            prefix_length: 16,
            frame_type: FrameType::Arp,
        },
        EtherTypeRule {
            ingress_port: port,
            ether_type: 0x8847,
            prefix_length: 16,
            frame_type: FrameType::Mpls,
        },
        EtherTypeRule { ingress_port: port, ether_type: 0, prefix_length: 0, frame_type: FrameType::Unknown },
    ]
}

/// The rules by destination address for one recirculation port.
pub fn address_rules_for(port: u32) -> (rules: Vec<AddressRule>)
    ensures
        rules@ == address_rules(port),
{
    let mut rules: Vec<AddressRule> = Vec::new();
    let none = TernaryMatch { value: 0, mask: 0 };
    rules.push(
        AddressRule {
            ingress_port: port,
            ipv4: TernaryMatch { value: 0xE000_0000, mask: lpm_mask(8) },
            ipv6_value: 0,
            ipv6_mask: 0,
            vxlan: 0,
            priority: 0,
            frame_type: FrameType::Multicast,
        },
    );
    rules.push(
        AddressRule {
            ingress_port: port,
            ipv4: none,
            ipv6_value: 0,
            ipv6_mask: 0,
            vxlan: 0,
            priority: 1,
            frame_type: FrameType::Unicast,
        },
    );
    rules.push(
        AddressRule {
            ingress_port: port,
            ipv4: none,
            ipv6_value: 0,
            ipv6_mask: 0,
            vxlan: 1,
            priority: 1,
            frame_type: FrameType::Vxlan,
        },
    );
    rules.push(
        AddressRule {
            ingress_port: port,
            ipv4: none,
            ipv6_value: 0xFF00_0000_0000_0000_0000_0000_0000_0000,
            ipv6_mask: lpm_mask_v6(8),
            vxlan: 0,
            priority: 0,
            frame_type: FrameType::Multicast,
        },
    );
    proof {
        assert(rules@ =~= address_rules(port));
    }
    rules
}

/// The rules by type field for one recirculation port.
pub fn ether_type_rules_for(port: u32) -> (rules: Vec<EtherTypeRule>)
    ensures
        rules@ == ether_type_rules(port),
{
    let mut rules: Vec<EtherTypeRule> = Vec::new();
    rules.push(
        EtherTypeRule { ingress_port: port, ether_type: 0x0800, prefix_length: 16, frame_type: FrameType::Ipv4 },
    );
    rules.push(
        EtherTypeRule { ingress_port: port, ether_type: 0x86DD, prefix_length: 16, frame_type: FrameType::Ipv6 },
    );
    rules.push(
        EtherTypeRule { ingress_port: port, ether_type: 0x8100, prefix_length: 16, frame_type: FrameType::Vlan },
    );
    rules.push(
        EtherTypeRule { ingress_port: port, ether_type: 0x88A8, prefix_length: 16, frame_type: FrameType::QinQ },
    );
    rules.push(
        EtherTypeRule { ingress_port: port, ether_type: 0x0806, prefix_length: 16, frame_type: FrameType::Arp },
    );
    rules.push(
        EtherTypeRule { ingress_port: port, ether_type: 0x8847, prefix_length: 16, frame_type: FrameType::Mpls },
    );
    rules.push(
        EtherTypeRule { ingress_port: port, ether_type: 0, prefix_length: 0, frame_type: FrameType::Unknown },
    );
    proof {
        assert(rules@ =~= ether_type_rules(port));
    }
    rules
}

/// The entry counts frames of type `frame_type` that pass one of the two
/// recirculation ports of the port at position `position`.
pub open spec fn counts_type(
    mappings: Seq<PortMapping>,
    entry: FrameTypeEntry,
    position: int,
    frame_type: FrameType,
) -> bool {
    &&& entry.frame_type == frame_type
    &&& entry.ingress_port matches Some(port)
    &&& digest_source(mappings, port) matches Some(source)
    &&& source.0 == position
}

/// Number of frames of type `frame_type` that the entries have counted on
/// the two paths of the port at position `position`.
pub open spec fn type_packets(
    mappings: Seq<PortMapping>,
    entries: Seq<FrameTypeEntry>,
    position: int,
    frame_type: FrameType,
) -> nat
    decreases entries.len(),
{
    if entries.len() == 0 {
        0
    } else {
        type_packets(mappings, entries.drop_last(), position, frame_type) + if counts_type(
            mappings,
            entries.last(),
            position,
            frame_type,
        ) {
            entries.last().packets as nat
        } else {
            0
        }
    }
}

/// Some entry counts frames of type `frame_type` for the port at position
/// `position`.
pub open spec fn type_is_counted(
    mappings: Seq<PortMapping>,
    entries: Seq<FrameTypeEntry>,
    position: int,
    frame_type: FrameType,
) -> bool
    decreases entries.len(),
{
    if entries.len() == 0 {
        false
    } else {
        type_is_counted(mappings, entries.drop_last(), position, frame_type) || counts_type(
            mappings,
            entries.last(),
            position,
            frame_type,
        )
    }
}

/// The frame types in the order in which they are reported.
pub open spec fn frame_types() -> Seq<FrameType> {
    seq![
        FrameType::Multicast,
        FrameType::Unicast,
        FrameType::Vxlan,
        FrameType::Ipv4,
        FrameType::Ipv6,
        FrameType::Vlan,
        FrameType::QinQ,
        FrameType::Arp,
        FrameType::Mpls,
        FrameType::Unknown,
    ]
}

/// The counts of the first `n` frame types of one port: one for each type
/// that some entry counts, with the sum of what the entries have counted on
/// both paths.
pub open spec fn type_counts(
    mappings: Seq<PortMapping>,
    entries: Seq<FrameTypeEntry>,
    position: int,
    n: int,
) -> Seq<TypeCountValue>
    decreases n,
{
    if n <= 0 {
        Seq::empty()
    } else {
        let before = type_counts(mappings, entries, position, n - 1);
        let frame_type = frame_types()[n - 1];
        if type_is_counted(mappings, entries, position, frame_type) {
            before.push(
                TypeCountValue {
                    frame_type,
                    packets: type_packets(mappings, entries, position, frame_type) as u128,
                },
            )
        } else {
            before
        }
    }
}

/// Counts the frames of each port by type.
#[derive(Clone, Debug)]
pub struct FrameTypeMonitor {
    /// The recirculation ports of each front panel port.
    pub port_mapping: Vec<PortMapping>,
    pub statistics: FrameTypeStatistics,
}

/// What the entries have counted of one frame type on the two paths of one
/// port, if any entry counts that type there.
pub fn count_type(
    mappings: &Vec<PortMapping>,
    entries: &Vec<FrameTypeEntry>,
    position: usize,
    frame_type: FrameType,
) -> (count: Option<u128>)
    ensures
        match count {
            Some(c) => type_is_counted(mappings@, entries@, position as int, frame_type) && c
                == type_packets(mappings@, entries@, position as int, frame_type),
            None => !type_is_counted(mappings@, entries@, position as int, frame_type),
        },
{
    let mut found = false;
    let mut count: u128 = 0;
    let mut i: usize = 0;
    while i < entries.len()
        invariant
            i <= entries@.len(),
            found == type_is_counted(mappings@, entries@.subrange(0, i as int), position as int, frame_type),
            count == type_packets(mappings@, entries@.subrange(0, i as int), position as int, frame_type),
            count <= i * u64::MAX,
        decreases entries@.len() - i,
    {
        proof {
            assert(entries@.subrange(0, i + 1).drop_last() =~= entries@.subrange(0, i as int));
        }
        let entry = entries[i];
        let counted = entry.frame_type == frame_type && match entry.ingress_port {
            Some(port) => match source_of(mappings, port) {
                Some((p, _)) => p == position,
                None => false,
            },
            None => false,
        };
        if counted {
            found = true;
            count = count + entry.packets as u128;
        }
        i = i + 1;
    }
    proof {
        assert(entries@.subrange(0, i as int) =~= entries@);
    }
    if found {
        Some(count)
    } else {
        None
    }
}

/// Finds the front panel port and the path of a recirculation port.
pub fn source_of(mappings: &Vec<PortMapping>, port: u32) -> (source: Option<(usize, Direction)>)
    ensures
        match source {
            Some((i, direction)) => digest_source(mappings@, port) == Some((i as int, direction))
                && i < mappings@.len(),
            None => digest_source(mappings@, port) is None,
        },
{
    match crate::ports::find_tx_recirculation(mappings, port) {
        Some(i) => Some((i, Direction::Tx)),
        None => match crate::ports::find_rx_recirculation(mappings, port) {
            Some(i) => Some((i, Direction::Rx)),
            None => None,
        },
    }
}

/// The counts by frame type of one port, both paths together.
pub fn count_types(mappings: &Vec<PortMapping>, entries: &Vec<FrameTypeEntry>, position: usize) -> (counts: Vec<
    TypeCountValue,
>)
    ensures
        counts@ == type_counts(mappings@, entries@, position as int, 10),
{
    let mut types: Vec<FrameType> = Vec::new();
    types.push(FrameType::Multicast);
    types.push(FrameType::Unicast);
    types.push(FrameType::Vxlan);
    types.push(FrameType::Ipv4);
    types.push(FrameType::Ipv6);
    types.push(FrameType::Vlan);
    types.push(FrameType::QinQ);
    types.push(FrameType::Arp);
    types.push(FrameType::Mpls);
    types.push(FrameType::Unknown);
    proof {
        assert(types@ =~= frame_types());
    }
    let mut counts: Vec<TypeCountValue> = Vec::new();
    let mut n: usize = 0;
    while n < types.len()
        invariant
            n <= 10,
            types@ == frame_types(),
            counts@ == type_counts(mappings@, entries@, position as int, n as int),
        decreases 10 - n,
    {
        let frame_type = types[n];
        match count_type(mappings, entries, position, frame_type) {
            Some(packets) => {
                counts.push(TypeCountValue { frame_type, packets });
            },
            None => {},
        }
        n = n + 1;
    }
    counts
}

/// The rules of the two tables that count frames by type.
#[derive(Clone, Debug)]
pub struct FrameTypeRules {
    /// The rules that tell frames apart by their destination address.
    pub by_address: Vec<AddressRule>,
    /// The rules that tell frames apart by their type field.
    pub by_type: Vec<EtherTypeRule>,
}

/// The recirculation port of the `k`-th rule of a port, where the rules for
/// the send path and for the receive path take turns.
pub open spec fn rule_port(mapping: PortMapping, k: int) -> u32 {
    if k % 2 == 0 {
        mapping.tx_recirculation
    } else {
        mapping.rx_recirculation
    }
}

/// The `k`-th rule by destination address, where every port has eight: each
/// of its four rules for the send path and then for the receive path.
pub open spec fn address_rule_at(mappings: Seq<PortMapping>, k: int) -> AddressRule {
    address_rules(rule_port(mappings[k / 8], k))[(k % 8) / 2]
}

/// The `k`-th rule by type field, where every port has fourteen: each of
/// its seven rules for the send path and then for the receive path.
pub open spec fn ether_type_rule_at(mappings: Seq<PortMapping>, k: int) -> EtherTypeRule {
    ether_type_rules(rule_port(mappings[k / 14], k))[(k % 14) / 2]
}

/// The rules by destination address for every port.
pub open spec fn all_address_rules(mappings: Seq<PortMapping>) -> Seq<AddressRule> {
    Seq::new(8 * mappings.len(), |k: int| address_rule_at(mappings, k))
}

/// The rules by type field for every port.
pub open spec fn all_ether_type_rules(mappings: Seq<PortMapping>) -> Seq<EtherTypeRule> {
    Seq::new(14 * mappings.len(), |k: int| ether_type_rule_at(mappings, k))
}

impl FrameTypeMonitor {
    /// The rules of the two tables: those of every port, for its send path
    /// and for its receive path.
    pub fn configure(&self) -> (rules: FrameTypeRules)
        ensures
            rules.by_address@ == all_address_rules(self.port_mapping@),
            rules.by_type@ == all_ether_type_rules(self.port_mapping@),
    {
        let mut by_address: Vec<AddressRule> = Vec::new();
        let mut by_type: Vec<EtherTypeRule> = Vec::new();
        let mut p: usize = 0;
        while p < self.port_mapping.len()
            invariant
                p <= self.port_mapping@.len(),
                by_address@.len() == 8 * p,
                by_type@.len() == 14 * p,
                forall|k: int|
                    0 <= k < by_address@.len() ==> by_address@[k] == address_rule_at(self.port_mapping@, k),
                forall|k: int|
                    0 <= k < by_type@.len() ==> by_type@[k] == ether_type_rule_at(self.port_mapping@, k),
            decreases self.port_mapping@.len() - p,
        {
            let mapping = self.port_mapping[p];
            let tx_address = address_rules_for(mapping.tx_recirculation);
            let rx_address = address_rules_for(mapping.rx_recirculation);
            let mut e: usize = 0;
            while e < 4
                invariant
                    p < self.port_mapping@.len(),
                    mapping == self.port_mapping@[p as int],
                    tx_address@ == address_rules(mapping.tx_recirculation),
                    rx_address@ == address_rules(mapping.rx_recirculation),
                    e <= 4,
                    by_address@.len() == 8 * p + 2 * e,
                    forall|k: int|
                        0 <= k < by_address@.len() ==> by_address@[k] == address_rule_at(
                            self.port_mapping@,
                            k,
                        ),
                decreases 4 - e,
            {
                let ghost k = by_address@.len() as int;
                by_address.push(tx_address[e]);
                by_address.push(rx_address[e]);
                proof {
                    assert(k / 8 == p && (k % 8) / 2 == e && k % 2 == 0);
                    assert((k + 1) / 8 == p && ((k + 1) % 8) / 2 == e && (k + 1) % 2 == 1);
                    assert(by_address@[k] == address_rule_at(self.port_mapping@, k));
                    assert(by_address@[k + 1] == address_rule_at(self.port_mapping@, k + 1));
                }
                e = e + 1;
            }
            let tx_type = ether_type_rules_for(mapping.tx_recirculation);
            let rx_type = ether_type_rules_for(mapping.rx_recirculation);
            let mut e: usize = 0;
            while e < 7
                invariant
                    p < self.port_mapping@.len(),
                    mapping == self.port_mapping@[p as int],
                    tx_type@ == ether_type_rules(mapping.tx_recirculation),
                    rx_type@ == ether_type_rules(mapping.rx_recirculation),
                    e <= 7,
                    by_address@.len() == 8 * (p + 1),
                    by_type@.len() == 14 * p + 2 * e,
                    forall|k: int|
                        0 <= k < by_type@.len() ==> by_type@[k] == ether_type_rule_at(
                            self.port_mapping@,
                            k,
                        ),
                decreases 7 - e,
            {
                let ghost k = by_type@.len() as int;
                by_type.push(tx_type[e]);
                by_type.push(rx_type[e]);
                proof {
                    assert(k / 14 == p && (k % 14) / 2 == e && k % 2 == 0);
                    assert((k + 1) / 14 == p && ((k + 1) % 14) / 2 == e && (k + 1) % 2 == 1);
                    assert(by_type@[k] == ether_type_rule_at(self.port_mapping@, k));
                    assert(by_type@[k + 1] == ether_type_rule_at(self.port_mapping@, k + 1));
                }
                e = e + 1;
            }
            p = p + 1;
        }
        proof {
            assert(by_address@ =~= all_address_rules(self.port_mapping@));
            assert(by_type@ =~= all_ether_type_rules(self.port_mapping@));
        }
        FrameTypeRules { by_address, by_type }
    }

    /// A run starts: the rules are written anew, which clears the counters.
    pub fn on_start(&self) -> (rules: FrameTypeRules)
        ensures
            rules.by_address@ == all_address_rules(self.port_mapping@),
            rules.by_type@ == all_ether_type_rules(self.port_mapping@),
    {
        self.configure()
    }

    /// The statistics are reset: the rules are written anew, which clears
    /// the counters.
    pub fn on_reset(&self) -> (rules: FrameTypeRules)
        ensures
            rules.by_address@ == all_address_rules(self.port_mapping@),
            rules.by_type@ == all_ether_type_rules(self.port_mapping@),
    {
        self.configure()
    }

    /// A monitor for the given ports that has counted nothing.
    pub fn new(port_mapping: Vec<PortMapping>) -> (m: FrameTypeMonitor)
        ensures
            m.port_mapping@ == port_mapping@,
            m.statistics.frame_type_data@.len() == 0,
    {
        FrameTypeMonitor { port_mapping, statistics: FrameTypeStatistics::default() }
    }

    /// Takes a reading of the tables: for each port, the counts by frame
    /// type of the frames that have passed its two paths. Both paths are
    /// counted together and reported on the sending side; the receiving
    /// side of the reading holds nothing.
    pub fn monitor_statistics(&mut self, entries: &Vec<FrameTypeEntry>)
        ensures
            final(self).port_mapping == old(self).port_mapping,
            final(self).statistics.frame_type_data@.len() == old(self).port_mapping@.len(),
            forall|i: int|
                0 <= i < old(self).port_mapping@.len() ==> {
                    let counted = #[trigger] final(self).statistics.frame_type_data@[i];
                    &&& counted.port == old(self).port_mapping@[i].port
                    &&& counted.counts.tx@ == type_counts(old(self).port_mapping@, entries@, i, 10)
                    &&& counted.counts.rx@.len() == 0
                },
    {
        let mut counted: Vec<PortTypeCount> = Vec::new();
        let mut i: usize = 0;
        while i < self.port_mapping.len()
            invariant
                i <= self.port_mapping@.len(),
                self.port_mapping == old(self).port_mapping,
                counted@.len() == i,
                forall|k: int|
                    0 <= k < i ==> {
                        let c = #[trigger] counted@[k];
                        &&& c.port == self.port_mapping@[k].port
                        &&& c.counts.tx@ == type_counts(self.port_mapping@, entries@, k, 10)
                        &&& c.counts.rx@.len() == 0
                    },
            decreases self.port_mapping@.len() - i,
        {
            let tx = count_types(&self.port_mapping, entries, i);
            let rx: Vec<TypeCountValue> = Vec::new();
            counted.push(PortTypeCount { port: self.port_mapping[i].port, counts: TypeCount { tx, rx } });
            i = i + 1;
        }
        self.statistics = FrameTypeStatistics { frame_type_data: counted };
    }
}

} // verus!
