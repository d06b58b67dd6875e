use p4tg_controller::api::get_statistics;
use p4tg_controller::frame_size_monitor::{
    count_packets, total_packets_sent, FrameCounterEntry, FrameRange, FrameSizeMonitor, FrameSizeRule,
};
use p4tg_controller::ports::PortMapping;
use p4tg_controller::rate_monitor::{Digest, RateDigest, RateMonitor, SampleDigest};
use p4tg_controller::statistics::{
    FrameSizeStatistics, FrameTypeStatistics, PortRangeCount, RangeCount, RangeCountValue, TypeCount,
};
use p4tg_controller::types::{Encapsulation, GenerationMode};

fn ports() -> Vec<PortMapping> {
    vec![
        PortMapping { port: 128, tx_recirculation: 136, rx_recirculation: 144 },
        PortMapping { port: 129, tx_recirculation: 137, rx_recirculation: 145 },
    ]
}

fn entry(port: u32, lower: u32, upper: u32, packets: u64) -> FrameCounterEntry {
    FrameCounterEntry { egress_port: Some(port), range: Some(FrameRange { lower, upper }), packets }
}

#[test]
fn empty_statistics() {
    assert!(RangeCount::default().tx.is_empty());
    assert!(RangeCount::default().rx.is_empty());
    assert!(FrameSizeStatistics::default().frame_size.is_empty());
    assert!(FrameTypeStatistics::default().frame_type_data.is_empty());
    assert!(TypeCount::default().tx.is_empty());
    assert!(TypeCount::default().rx.is_empty());
    assert_eq!(RangeCountValue::new(64, 127, 9), RangeCountValue { low: 64, high: 127, packets: 9 });
}

#[test]
fn rules_for_every_port_and_range() {
    let monitor = FrameSizeMonitor::new(ports());
    assert_eq!(monitor.frame_ranges.len(), 8);
    assert_eq!(monitor.frame_ranges[6], FrameRange { lower: 1024, upper: 1518 });
    let rules = monitor.configure();
    assert_eq!(rules.len(), 32);
    assert_eq!(rules[0], FrameSizeRule { egress_port: 128, range: FrameRange { lower: 0, upper: 63 } });
    assert_eq!(rules[1], FrameSizeRule { egress_port: 144, range: FrameRange { lower: 0, upper: 63 } });
    assert_eq!(rules[2], FrameSizeRule { egress_port: 128, range: FrameRange { lower: 64, upper: 64 } });
    assert_eq!(rules[16], FrameSizeRule { egress_port: 129, range: FrameRange { lower: 0, upper: 63 } });
    assert_eq!(rules[31], FrameSizeRule { egress_port: 145, range: FrameRange { lower: 1519, upper: 21519 } });
    assert_eq!(monitor.on_start(), rules);
    assert_eq!(monitor.on_reset(), rules);
}

#[test]
fn counts_are_sorted_by_port_and_path() {
    let mut monitor = FrameSizeMonitor::new(ports());
    let entries = vec![
        entry(128, 64, 64, 10),
        entry(144, 64, 64, 9),
        entry(129, 65, 127, 5),
        entry(145, 65, 127, 4),
        entry(128, 65, 127, 3),
        entry(136, 64, 64, 1000),
        FrameCounterEntry { egress_port: None, range: Some(FrameRange { lower: 0, upper: 63 }), packets: 7 },
        FrameCounterEntry { egress_port: Some(128), range: None, packets: 7 },
    ];
    monitor.monitor_statistics(&entries);
    let stats = &monitor.statistics.frame_size;
    assert_eq!(stats.len(), 2);
    assert_eq!(stats[0].port, 128);
    assert_eq!(stats[0].counts.tx, vec![RangeCountValue::new(64, 64, 10), RangeCountValue::new(65, 127, 3)]);
    assert_eq!(stats[0].counts.rx, vec![RangeCountValue::new(64, 64, 9)]);
    assert_eq!(stats[1].port, 129);
    assert_eq!(stats[1].counts.tx, vec![RangeCountValue::new(65, 127, 5)]);
    assert_eq!(stats[1].counts.rx, vec![RangeCountValue::new(65, 127, 4)]);
    assert_eq!(total_packets_sent(&monitor.statistics), 18);
}

#[test]
fn sent_packets_are_summed() {
    assert_eq!(count_packets(&Vec::new()), 0);
    assert_eq!(count_packets(&vec![RangeCountValue::new(0, 1, 2), RangeCountValue::new(0, 1, u128::MAX)]), u64::MAX);
    let statistics = FrameSizeStatistics {
        frame_size: vec![
            PortRangeCount {
                port: 1,
                counts: RangeCount { tx: vec![RangeCountValue::new(0, 1, 2)], rx: vec![RangeCountValue::new(0, 1, 50)] },
            },
            PortRangeCount { port: 2, counts: RangeCount { tx: vec![RangeCountValue::new(0, 1, 3)], rx: Vec::new() } },
        ],
    };
    assert_eq!(total_packets_sent(&statistics), 5);
}

#[test]
fn codes_of_modes_and_encapsulations() {
    assert_eq!(GenerationMode::Cbr.to_u8(), 1);
    assert_eq!(GenerationMode::Analyze.to_u8(), 4);
    assert_eq!(GenerationMode::from_u8(3), Some(GenerationMode::Poisson));
    assert_eq!(GenerationMode::from_u8(2), Some(GenerationMode::Mpps));
    assert_eq!(GenerationMode::from_u8(0), None);
    assert_eq!(GenerationMode::from_u8(5), None);
    assert_eq!(Encapsulation::Plain.to_u8(), 0);
    assert_eq!(Encapsulation::SRv6.to_u8(), 4);
    assert_eq!(Encapsulation::from_u8(1), Some(Encapsulation::Vlan));
    assert_eq!(Encapsulation::from_u8(2), Some(Encapsulation::QinQ));
    assert_eq!(Encapsulation::from_u8(3), Some(Encapsulation::Mpls));
    assert_eq!(Encapsulation::from_u8(5), None);
}

#[test]
fn statistics_of_a_port() {
    let mut monitor = RateMonitor::new(ports(), Vec::new());
    let rate = |timestamp: u64, bytes: u64| {
        Digest::Rate(RateDigest {
            port: 144,
            timestamp,
            l1_byte_count: bytes,
            l2_byte_count: bytes,
            app_byte_count: 0,
            app_index: 0,
            packet_loss_count: 12,
            out_of_order_count: 2,
        })
    };
    monitor.monitor_digests(&rate(1_000_000_000, 0), true, 0, true);
    monitor.monitor_digests(&rate(2_000_000_000, 125), true, 1000, true);
    for (rtt, iat) in [(1000u64, 10u64), (2000, 20), (3000, 30)] {
        monitor.monitor_digests(&Digest::Sample(SampleDigest { port: 144, rtt, iat }), true, 4000, true);
    }
    monitor.monitor_iat(144, 100, 4);
    let sampled = get_statistics(&monitor.ports[0], true);
    assert_eq!(sampled.port, 128);
    assert_eq!(sampled.rx_rate_l1, 1000);
    assert_eq!(sampled.packet_loss, 10);
    assert_eq!(sampled.out_of_order, 2);
    assert_eq!((sampled.rtts.mean, sampled.rtts.min, sampled.rtts.max, sampled.rtts.current, sampled.rtts.n), (2000, 1000, 3000, 3000, 3));
    assert_eq!(sampled.rtts.jitter, 1000);
    assert_eq!((sampled.iats.rx.mean, sampled.iats.rx.std, sampled.iats.rx.n), (20, Some(10), 3));
    assert_eq!((sampled.iats.tx.mean, sampled.iats.tx.std, sampled.iats.tx.n), (0, Some(0), 0));
    let registers = get_statistics(&monitor.ports[0], false);
    assert_eq!((registers.iats.rx.mean, registers.iats.rx.std, registers.iats.rx.n), (25, None, 4));
}
