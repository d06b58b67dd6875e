use p4tg_controller::frame_type_monitor::{
    address_rules_for, count_type, count_types, ether_type_rules_for, lpm_mask, lpm_mask_v6, source_of,
    FrameTypeEntry, FrameTypeMonitor,
};
use p4tg_controller::ports::{Direction, PortMapping};
use p4tg_controller::statistics::{FrameType, TypeCountValue};
use p4tg_controller::ternary::TernaryMatch;

fn ports() -> Vec<PortMapping> {
    vec![
        PortMapping { port: 128, tx_recirculation: 1, rx_recirculation: 2 },
        PortMapping { port: 136, tx_recirculation: 3, rx_recirculation: 4 },
    ]
}

fn entry(port: u32, frame_type: FrameType, packets: u64) -> FrameTypeEntry {
    FrameTypeEntry { ingress_port: Some(port), frame_type, packets }
}

fn reading() -> Vec<FrameTypeEntry> {
    vec![
        entry(1, FrameType::Multicast, 5),
        entry(1, FrameType::Multicast, 7),
        entry(2, FrameType::Multicast, 1),
        entry(2, FrameType::Ipv4, 10),
        FrameTypeEntry { ingress_port: None, frame_type: FrameType::Unknown, packets: 99 },
        entry(9, FrameType::Arp, 3),
        entry(4, FrameType::Arp, 2),
        entry(3, FrameType::Unknown, 0),
    ]
}

#[test]
fn prefix_masks() {
    assert_eq!(lpm_mask(0), 0);
    assert_eq!(lpm_mask(1), 0x8000_0000);
    assert_eq!(lpm_mask(8), 0xFF00_0000);
    assert_eq!(lpm_mask(24), 0xFFFF_FF00);
    assert_eq!(lpm_mask(31), 0xFFFF_FFFE);
    assert_eq!(lpm_mask_v6(0), 0);
    assert_eq!(lpm_mask_v6(8), 0xFF00_0000_0000_0000_0000_0000_0000_0000);
    assert_eq!(lpm_mask_v6(127), u128::MAX - 1);
}

#[test]
fn address_rules_of_a_port() {
    let rules = address_rules_for(17);
    assert_eq!(rules.len(), 4);
    assert!(rules.iter().all(|r| r.ingress_port == 17));
    assert_eq!(rules[0].ipv4, TernaryMatch { value: 0xE000_0000, mask: 0xFF00_0000 });
    assert_eq!((rules[0].ipv6_value, rules[0].ipv6_mask), (0, 0));
    assert_eq!((rules[0].vxlan, rules[0].priority, rules[0].frame_type), (0, 0, FrameType::Multicast));
    assert_eq!(rules[1].ipv4, TernaryMatch { value: 0, mask: 0 });
    assert_eq!((rules[1].vxlan, rules[1].priority, rules[1].frame_type), (0, 1, FrameType::Unicast));
    assert_eq!((rules[2].vxlan, rules[2].priority, rules[2].frame_type), (1, 1, FrameType::Vxlan));
    assert_eq!(rules[3].ipv4, TernaryMatch { value: 0, mask: 0 });
    assert_eq!(rules[3].ipv6_value, 0xFF00_0000_0000_0000_0000_0000_0000_0000);
    assert_eq!(rules[3].ipv6_mask, 0xFF00_0000_0000_0000_0000_0000_0000_0000);
    assert_eq!((rules[3].vxlan, rules[3].priority, rules[3].frame_type), (0, 0, FrameType::Multicast));
}

#[test]
fn ether_type_rules_of_a_port() {
    let rules = ether_type_rules_for(17);
    let expected = [
        (0x0800, 16, FrameType::Ipv4),
        (0x86DD, 16, FrameType::Ipv6),
        (0x8100, 16, FrameType::Vlan),
        (0x88A8, 16, FrameType::QinQ),
        (0x0806, 16, FrameType::Arp),
        (0x8847, 16, FrameType::Mpls),
        (0, 0, FrameType::Unknown),
    ];
    assert_eq!(rules.len(), expected.len());
    for (rule, (ether_type, prefix_length, frame_type)) in rules.iter().zip(expected) {
        assert_eq!(rule.ingress_port, 17);
        assert_eq!((rule.ether_type, rule.prefix_length, rule.frame_type), (ether_type, prefix_length, frame_type));
    }
}

#[test]
fn recirculation_ports_lead_back_to_their_port() {
    let ports = ports();
    assert_eq!(source_of(&ports, 1), Some((0, Direction::Tx)));
    assert_eq!(source_of(&ports, 2), Some((0, Direction::Rx)));
    assert_eq!(source_of(&ports, 3), Some((1, Direction::Tx)));
    assert_eq!(source_of(&ports, 4), Some((1, Direction::Rx)));
    assert_eq!(source_of(&ports, 128), None);
    assert_eq!(source_of(&Vec::new(), 1), None);
}

#[test]
fn one_type_of_one_port() {
    let ports = ports();
    let entries = reading();
    assert_eq!(count_type(&ports, &entries, 0, FrameType::Multicast), Some(13));
    assert_eq!(count_type(&ports, &entries, 0, FrameType::Ipv4), Some(10));
    assert_eq!(count_type(&ports, &entries, 0, FrameType::Arp), None);
    assert_eq!(count_type(&ports, &entries, 1, FrameType::Arp), Some(2));
    assert_eq!(count_type(&ports, &entries, 1, FrameType::Unknown), Some(0));
    assert_eq!(count_type(&ports, &entries, 2, FrameType::Arp), None);
    assert_eq!(count_type(&ports, &Vec::new(), 0, FrameType::Multicast), None);
}

#[test]
fn types_come_in_a_fixed_order() {
    let ports = ports();
    let entries = vec![
        entry(1, FrameType::Unknown, 1),
        entry(1, FrameType::Mpls, 2),
        entry(2, FrameType::Vxlan, 3),
        entry(1, FrameType::Unicast, 4),
    ];
    assert_eq!(
        count_types(&ports, &entries, 0),
        vec![
            TypeCountValue { frame_type: FrameType::Unicast, packets: 4 },
            TypeCountValue { frame_type: FrameType::Vxlan, packets: 3 },
            TypeCountValue { frame_type: FrameType::Mpls, packets: 2 },
            TypeCountValue { frame_type: FrameType::Unknown, packets: 1 },
        ]
    );
    assert!(count_types(&ports, &entries, 1).is_empty());
}

#[test]
fn a_reading_counts_both_paths_together() {
    let mut monitor = FrameTypeMonitor::new(ports());
    assert!(monitor.statistics.frame_type_data.is_empty());
    monitor.monitor_statistics(&reading());
    let data = &monitor.statistics.frame_type_data;
    assert_eq!(data.len(), 2);
    assert_eq!(data[0].port, 128);
    assert_eq!(
        data[0].counts.tx,
        vec![
            TypeCountValue { frame_type: FrameType::Multicast, packets: 13 },
            TypeCountValue { frame_type: FrameType::Ipv4, packets: 10 },
        ]
    );
    assert!(data[0].counts.rx.is_empty());
    assert_eq!(data[1].port, 136);
    assert_eq!(
        data[1].counts.tx,
        vec![
            TypeCountValue { frame_type: FrameType::Arp, packets: 2 },
            TypeCountValue { frame_type: FrameType::Unknown, packets: 0 },
        ]
    );
    assert!(data[1].counts.rx.is_empty());
}

#[test]
fn a_new_reading_replaces_the_last() {
    let mut monitor = FrameTypeMonitor::new(ports());
    monitor.monitor_statistics(&reading());
    monitor.monitor_statistics(&Vec::new());
    let data = &monitor.statistics.frame_type_data;
    assert_eq!(data.len(), 2);
    assert!(data[0].counts.tx.is_empty());
    assert!(data[1].counts.tx.is_empty());
}

#[test]
fn rules_for_both_paths_of_every_port() {
    let monitor = FrameTypeMonitor::new(ports());
    let rules = monitor.configure();
    assert_eq!(rules.by_address.len(), 16);
    assert_eq!(rules.by_type.len(), 28);
    let by_address: Vec<(u32, FrameType, u8)> =
        rules.by_address.iter().map(|r| (r.ingress_port, r.frame_type, r.vxlan)).collect();
    assert_eq!(
        by_address[..8],
        [
            (1, FrameType::Multicast, 0),
            (2, FrameType::Multicast, 0),
            (1, FrameType::Unicast, 0),
            (2, FrameType::Unicast, 0),
            (1, FrameType::Vxlan, 1),
            (2, FrameType::Vxlan, 1),
            (1, FrameType::Multicast, 0),
            (2, FrameType::Multicast, 0),
        ]
    );
    assert_eq!(rules.by_address[0], address_rules_for(1)[0]);
    assert_eq!(rules.by_address[7], address_rules_for(2)[3]);
    assert_eq!(rules.by_address[8], address_rules_for(3)[0]);
    assert_eq!(rules.by_address[15], address_rules_for(4)[3]);
    assert_eq!(rules.by_type[0], ether_type_rules_for(1)[0]);
    assert_eq!(rules.by_type[1], ether_type_rules_for(2)[0]);
    assert_eq!(rules.by_type[13], ether_type_rules_for(2)[6]);
    assert_eq!(rules.by_type[14], ether_type_rules_for(3)[0]);
    assert_eq!(rules.by_type[27], ether_type_rules_for(4)[6]);
    let again = monitor.on_start();
    assert_eq!((again.by_address, again.by_type), (rules.by_address.clone(), rules.by_type.clone()));
    let again = monitor.on_reset();
    assert_eq!((again.by_address, again.by_type), (rules.by_address, rules.by_type));
    let none = FrameTypeMonitor::new(Vec::new()).configure();
    assert!(none.by_address.is_empty() && none.by_type.is_empty());
}
