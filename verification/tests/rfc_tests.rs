use p4tg_controller::frame_size_monitor::{FrameCounterEntry, FrameRange};
use p4tg_controller::ports::PortMapping;
use p4tg_controller::rfc_tests::{
    frame_rate, get_total_received_packets, lookup, max_speed, one_way_latency, packet_loss_percent,
    rate_of_frames, reset_test_rate, BinarySearch, ExponentialSearch, FirstPacketWait, FrameLossSweep,
    FrameValue, LossAtRate, LossInterval, RecoveryMonitor, RfcTest, SearchStep, TestLabel,
    TestResult, FRAME_SIZES, MAX_TEST_RATE,
};

const GBIT: u64 = 1_000_000_000;

fn exponential(initial: u64, limit: u64) -> (u64, u64, Vec<u64>) {
    let mut search = ExponentialSearch::new(initial);
    let mut probes = Vec::new();
    loop {
        match search.next_step() {
            SearchStep::Done { lower, upper } => return (lower, upper, probes),
            SearchStep::Probe { rate } => {
                probes.push(rate);
                search.record_loss(if rate < limit { 0 } else { 1 });
            }
        }
    }
}

#[test]
fn loss_is_in_thousandths_of_a_percent() {
    assert_eq!(packet_loss_percent(0, 1000), 0);
    assert_eq!(packet_loss_percent(1, 1000), 100);
    assert_eq!(packet_loss_percent(30, 1000), 3_000);
    assert_eq!(packet_loss_percent(1000, 1000), 100_000);
    assert_eq!(packet_loss_percent(1, 3), 33_333);
    assert_eq!(packet_loss_percent(2, 3), 66_667);
    assert_eq!(packet_loss_percent(5, 0), 0);
    // less than half a thousandth of a percent is no loss
    assert_eq!(packet_loss_percent(1, 200_001), 0);
    assert_eq!(packet_loss_percent(1, 200_000), 1);
    assert_eq!(packet_loss_percent(u64::MAX, 1), u64::MAX);
}

#[test]
fn exponential_search_doubles_until_loss() {
    let (lower, upper, probes) = exponential(GBIT, 5 * GBIT);
    assert_eq!(probes, vec![GBIT, 2 * GBIT, 4 * GBIT, 8 * GBIT]);
    assert_eq!((lower, upper), (4 * GBIT, 8 * GBIT));
}

#[test]
fn exponential_search_with_loss_at_the_first_rate() {
    let (lower, upper, probes) = exponential(10 * GBIT, 5 * GBIT);
    assert_eq!(probes, vec![10 * GBIT]);
    assert_eq!((lower, upper), (0, 10 * GBIT));
}

#[test]
fn exponential_search_stops_at_the_highest_rate() {
    let (lower, upper, probes) = exponential(30 * GBIT, 500 * GBIT);
    assert_eq!(probes, vec![30 * GBIT, 60 * GBIT]);
    assert_eq!((lower, upper), (60 * GBIT, MAX_TEST_RATE));
    let (lower, upper, probes) = exponential(300 * GBIT, 500 * GBIT);
    assert!(probes.is_empty());
    assert_eq!((lower, upper), (0, MAX_TEST_RATE));
    let (lower, upper, probes) = exponential(0, 5 * GBIT);
    assert!(probes.is_empty());
    assert_eq!((lower, upper), (0, MAX_TEST_RATE));
}

#[test]
fn exponential_search_goes_on_until_loss_or_the_highest_rate() {
    let (lower, upper, probes) = exponential(1_000_000, 50 * GBIT);
    assert_eq!(probes.len(), 17);
    assert_eq!((lower, upper), (32_768_000_000, 65_536_000_000));
    let (lower, upper, probes) = exponential(GBIT / 10, 100 * GBIT);
    assert_eq!(probes.len(), 10);
    assert_eq!((lower, upper), (51_200_000_000, MAX_TEST_RATE));
    let (lower, upper, probes) = exponential(1, u64::MAX);
    assert_eq!(probes.len(), 37);
    assert_eq!((lower, upper), (1 << 36, MAX_TEST_RATE));
    let (lower, upper, probes) = exponential(MAX_TEST_RATE, MAX_TEST_RATE + 1);
    assert_eq!(probes, vec![MAX_TEST_RATE]);
    assert_eq!((lower, upper), (MAX_TEST_RATE, MAX_TEST_RATE));
}

#[test]
fn exponential_search_brackets_the_limit() {
    for initial in [0u64, 1, 1_000_000, GBIT / 10, GBIT, 3 * GBIT, 10 * GBIT, 64 * GBIT, 100 * GBIT, 300 * GBIT] {
        for limit in [1u64, GBIT / 2, GBIT, 7 * GBIT, 50 * GBIT, 99 * GBIT, 100 * GBIT, 250 * GBIT] {
            let (lower, upper, _) = exponential(initial, limit);
            assert!(lower < limit, "{initial} {limit}");
            assert!(limit <= upper || upper == MAX_TEST_RATE, "{initial} {limit}");
        }
    }
}

#[test]
fn binary_search_narrows_the_interval() {
    let mut search = BinarySearch::new(4 * GBIT, 8 * GBIT);
    let limit = 5 * GBIT;
    let mut probes = Vec::new();
    while let Some(rate) = search.next_rate() {
        probes.push(rate);
        search.record_loss(Some(if rate <= limit { 0 } else { 50_000 }));
    }
    assert_eq!(&probes[..3], &[6 * GBIT, 5 * GBIT, 5_500_000_000]);
    assert!(search.max_successful_rate <= limit);
    assert!(limit - search.max_successful_rate < 1_000_000);
    assert!(search.upper_bound - search.lower_bound < 1_000_000);
    assert!(search.converged);
    assert_eq!(search.iterations as usize, probes.len());
    assert!(probes.len() <= 20);
}

#[test]
fn binary_search_accepts_loss_within_the_tolerance() {
    let mut search = BinarySearch::new(0, 10 * GBIT);
    assert_eq!(search.next_rate(), Some(5 * GBIT));
    search.record_loss(Some(3_000));
    assert_eq!((search.lower_bound, search.upper_bound, search.max_successful_rate), (5 * GBIT, 10 * GBIT, 5 * GBIT));
    search.record_loss(Some(3_001));
    assert_eq!((search.lower_bound, search.upper_bound, search.max_successful_rate), (5 * GBIT, 7_500_000_000, 5 * GBIT));
    search.record_loss(None);
    assert_eq!((search.lower_bound, search.upper_bound, search.iterations), (5 * GBIT, 7_500_000_000, 3));
}

#[test]
fn binary_search_makes_at_most_twenty_probes() {
    let mut search = BinarySearch::new(0, u64::MAX);
    let mut probes = 0;
    while search.next_rate().is_some() {
        search.record_loss(None);
        probes += 1;
    }
    assert_eq!(probes, 20);
    assert_eq!(search.max_successful_rate, 0);
    search.record_loss(Some(0));
    assert_eq!(search.iterations, 20);
}

#[test]
fn frame_rates_and_bit_rates() {
    assert_eq!(frame_rate(10 * GBIT, 64), 19_531_250);
    assert_eq!(rate_of_frames(19_531_250, 64), 10 * GBIT);
    assert_eq!(frame_rate(1000, 64), 1);
    assert_eq!(rate_of_frames(u64::MAX, 1518), u64::MAX);
    assert_eq!(FRAME_SIZES, [64, 128, 512, 1024, 1518]);
}

#[test]
fn latency_is_half_the_mean_round_trip_time() {
    assert_eq!(one_way_latency(&vec![2000, 4000]), Some(1_500_000));
    assert_eq!(one_way_latency(&vec![1, 2]), Some(750));
    assert_eq!(one_way_latency(&vec![1, 1, 2]), Some(666));
    assert_eq!(one_way_latency(&Vec::new()), None);
    assert_eq!(one_way_latency(&vec![u64::MAX; 3]), Some(u64::MAX as u128 * 500));
}

#[test]
fn highest_port_speed() {
    assert_eq!(max_speed(&Vec::new()), GBIT);
    assert_eq!(max_speed(&vec![10 * GBIT, 100 * GBIT, 25 * GBIT]), 100 * GBIT);
    assert_eq!(max_speed(&vec![5]), 5);
}

#[test]
fn loss_sweep_goes_down_in_tenths() {
    let mut sweep = FrameLossSweep::new(100 * GBIT);
    let mut rates = Vec::new();
    while let Some((percent, rate)) = sweep.next_rate() {
        rates.push((percent, rate));
        sweep.record_loss(Some(1));
    }
    assert_eq!(rates.len(), 10);
    assert_eq!(rates[0], (100, 100 * GBIT));
    assert_eq!(rates[1], (90, 90 * GBIT));
    assert_eq!(rates[9], (10, 10 * GBIT));
    assert_eq!(sweep.results.len(), 10);
}

#[test]
fn loss_sweep_stops_after_two_probes_without_loss() {
    let mut sweep = FrameLossSweep::new(40 * GBIT);
    let losses = [Some(250_000u64), Some(0), Some(7), None, Some(0), Some(0), Some(0)];
    let mut used = 0;
    for loss in losses {
        if sweep.next_rate().is_none() {
            break;
        }
        sweep.record_loss(loss);
        used += 1;
    }
    assert_eq!(used, 6);
    assert_eq!(
        sweep.results,
        vec![
            LossAtRate { percent: 100, loss: 100_000 },
            LossAtRate { percent: 90, loss: 0 },
            LossAtRate { percent: 80, loss: 7 },
            LossAtRate { percent: 60, loss: 0 },
            LossAtRate { percent: 50, loss: 0 },
        ]
    );
    assert_eq!(sweep.next_rate(), None);
}

#[test]
fn longest_stretch_without_packets_is_kept() {
    let mut monitor = RecoveryMonitor::new(100);
    monitor.observe(150, 100);
    monitor.observe(150, 200);
    monitor.observe(150, 300);
    monitor.observe(160, 400);
    assert_eq!(monitor.longest, Some(LossInterval { a: 200, b: 400 }));
    monitor.observe(160, 500);
    monitor.observe(170, 600);
    assert_eq!(monitor.longest, Some(LossInterval { a: 200, b: 400 }));
    monitor.observe(170, 700);
    monitor.observe(170, 1500);
    monitor.observe(171, 1600);
    assert_eq!(monitor.longest, Some(LossInterval { a: 700, b: 1600 }));
    assert_eq!(monitor.recovery_time(), 900);
}

#[test]
fn no_loss_is_no_recovery_time() {
    let mut monitor = RecoveryMonitor::new(1);
    for i in 1..100u64 {
        monitor.observe(1 + i, 100 * i);
    }
    assert_eq!(monitor.longest, None);
    assert_eq!(monitor.recovery_time(), 0);
    monitor.observe(100, 20_000);
    assert_eq!(monitor.time_point_a, Some(20_000));
    assert_eq!(monitor.recovery_time(), 0);
    monitor.abort();
    assert_eq!(monitor.time_point_a, None);
}

#[test]
fn wait_for_the_first_packet() {
    let mut wait = FirstPacketWait::ForExperiment;
    wait.observe(false, 50);
    assert_eq!(wait, FirstPacketWait::ForExperiment);
    wait.observe(true, 50);
    assert_eq!(wait, FirstPacketWait::ForPacket);
    wait.observe(true, 0);
    assert_eq!(wait, FirstPacketWait::ForPacket);
    wait.observe(false, 3);
    assert_eq!(wait, FirstPacketWait::Done { packets: 3 });
    wait.observe(true, 9);
    assert_eq!(wait, FirstPacketWait::Done { packets: 3 });
    let mut cancelled = FirstPacketWait::ForPacket;
    cancelled.abort();
    assert_eq!(cancelled, FirstPacketWait::Done { packets: 0 });
}

#[test]
fn received_packets_are_counted_on_receive_paths() {
    let mappings = vec![
        PortMapping { port: 128, tx_recirculation: 136, rx_recirculation: 144 },
        PortMapping { port: 129, tx_recirculation: 137, rx_recirculation: 145 },
    ];
    let range = Some(FrameRange { lower: 64, upper: 64 });
    let entries = vec![
        FrameCounterEntry { egress_port: Some(144), range, packets: 10 },
        FrameCounterEntry { egress_port: Some(145), range, packets: 5 },
        FrameCounterEntry { egress_port: Some(128), range, packets: 1000 },
        FrameCounterEntry { egress_port: Some(136), range, packets: 1000 },
        FrameCounterEntry { egress_port: Some(144), range: None, packets: 1000 },
        FrameCounterEntry { egress_port: None, range, packets: 1000 },
    ];
    assert_eq!(get_total_received_packets(&mappings, &entries), 15);
    let many = vec![FrameCounterEntry { egress_port: Some(144), range, packets: u64::MAX }; 2];
    assert_eq!(get_total_received_packets(&mappings, &many), u64::MAX);
}

#[test]
fn results_are_reset_and_labelled() {
    let mut result = TestResult::new();
    result.set_running_flag(true);
    result.set_name_flag(TestLabel::Frame { test: RfcTest::Throughput, frame_size: 64 });
    result.throughput = Some(vec![FrameValue { frame_size: 64, value: 1_000_000 }]);
    assert!(result.running);
    assert_eq!(result.current_test, Some(TestLabel::Frame { test: RfcTest::Throughput, frame_size: 64 }));
    assert_eq!(result.replay_rate(64, 7), 512_000_000);
    assert_eq!(result.replay_rate(128, 7), 7);
    result.reset_results();
    assert!(!result.running);
    assert!(result.throughput.is_none());
    assert!(result.current_test.is_none());
    assert_eq!(result.replay_rate(64, 7), 7);
}

#[test]
fn reset_test_runs_at_whole_frames() {
    let mut result = TestResult::new();
    assert_eq!(reset_test_rate(&result, 64, 1000), 512);
    assert_eq!(reset_test_rate(&result, 64, 10 * GBIT), 10 * GBIT);
    result.throughput = Some(vec![FrameValue { frame_size: 64, value: 2 }]);
    assert_eq!(reset_test_rate(&result, 64, 10 * GBIT), 1024);
    let values = vec![FrameValue { frame_size: 64, value: 1 }, FrameValue { frame_size: 64, value: 2 }];
    assert_eq!(lookup(&values, 64), Some(1));
    assert_eq!(lookup(&values, 65), None);
}
