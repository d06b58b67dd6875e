use p4tg_controller::ports::PortMapping;
use p4tg_controller::switch_rules::{
    configure_analyze_forwarding, configure_default_forwarding_path, configure_egress_rules,
    configure_packet_header_rewrite, configure_traffic_gen_forwarding_table, contains_port, generation_ports,
    header_rewrite, monitoring_rules, multicast_ports, reaches_threshold, stream_header_rewrites, ForwardRule,
    MonitorForwardRule, MonitorInitRule, RewriteError, RuleError, StreamForwardRule, StreamRateRule, TagRewrite,
};
use p4tg_controller::traffic_gen::configure_monitoring_path;
use p4tg_controller::types::{
    Encapsulation, Ethernet, GenerationMode, IPv4, MPLSHeader, Stream, StreamSetting, TxRxMapping, Vlan, VxLAN,
};

const GBIT: u64 = 1_000_000_000;

fn two_ports() -> Vec<PortMapping> {
    vec![
        PortMapping { port: 128, tx_recirculation: 136, rx_recirculation: 144 },
        PortMapping { port: 129, tx_recirculation: 137, rx_recirculation: 145 },
    ]
}

fn flow(id: u8, app_id: u8, rate: u64) -> Stream {
    Stream {
        stream_id: id,
        app_id,
        frame_size: 64,
        encapsulation: Encapsulation::Plain,
        number_of_lse: None,
        traffic_rate: rate,
        burst: 100,
        batches: None,
        n_packets: None,
        timeout: None,
        generation_accuracy: None,
        n_pipes: None,
        vxlan: false,
        ip_version: Some(4),
        number_of_srv6_sids: None,
        srv6_ip_tunneling: None,
    }
}

fn addresses() -> IPv4 {
    IPv4 { ip_src: 0x0A00_0001, ip_dst: 0x0A00_0002, ip_tos: 7, ip_src_mask: 0xFF, ip_dst_mask: 0 }
}

fn leaves(id: u8, port: u32) -> StreamSetting {
    StreamSetting {
        port,
        stream_id: id,
        vlan: None,
        mpls_stack: None,
        srv6_base_header: None,
        sid_list: None,
        ethernet: Ethernet { eth_src: "00:d0:67:a2:a9:42".to_owned(), eth_dst: "D6-67-75-A1-94-C3".to_owned() },
        ip: Some(addresses()),
        ipv6: None,
        active: true,
        vxlan: None,
    }
}

fn tunnel() -> VxLAN {
    VxLAN {
        eth_src: "02:00:00:00:00:01".to_owned(),
        eth_dst: "02:00:00:00:00:02".to_owned(),
        ip_src: 0xC0A8_0001,
        ip_dst: 0xC0A8_0002,
        ip_tos: 3,
        udp_source: 49152,
        vni: 77,
    }
}

fn tags() -> Vlan {
    Vlan { vlan_id: 10, pcp: 1, dei: 0, inner_vlan_id: 20, inner_pcp: 2, inner_dei: 1 }
}

fn labels(n: u32) -> Vec<MPLSHeader> {
    (1..=n).map(|i| MPLSHeader { label: 100 + i, tc: i % 8, ttl: 64 }).collect()
}

#[test]
fn packets_are_generated_on_one_port_of_each_pipe() {
    assert_eq!(generation_ports(false), vec![68, 196]);
    assert_eq!(generation_ports(true), vec![6, 134, 262, 390]);
}

#[test]
fn monitoring_packet_starts_on_every_send_path() {
    let rules = monitoring_rules(&two_ports(), false);
    assert_eq!(rules.source_port, 68);
    assert_eq!(monitoring_rules(&two_ports(), true).source_port, 6);
    assert_eq!(
        rules.init,
        vec![MonitorInitRule { egress_port: 136, index: 1 }, MonitorInitRule { egress_port: 137, index: 17 }]
    );
}

#[test]
fn monitoring_packet_visits_seven_applications() {
    let rules = monitoring_rules(&two_ports(), false);
    assert_eq!(rules.forward.len(), 28);
    assert_eq!(rules.forward[0], MonitorForwardRule { ingress_port: 136, index: 1, e_port: 144, next_index: 2 });
    assert_eq!(rules.forward[1], MonitorForwardRule { ingress_port: 144, index: 2, e_port: 136, next_index: 3 });
    assert_eq!(rules.forward[2], MonitorForwardRule { ingress_port: 136, index: 3, e_port: 144, next_index: 4 });
    assert_eq!(rules.forward[13], MonitorForwardRule { ingress_port: 144, index: 14, e_port: 136, next_index: 15 });
    assert_eq!(rules.forward[14], MonitorForwardRule { ingress_port: 137, index: 17, e_port: 145, next_index: 18 });
    assert_eq!(rules.forward[27], MonitorForwardRule { ingress_port: 145, index: 30, e_port: 137, next_index: 31 });
}

#[test]
fn streams_are_counted_under_their_monitoring_index() {
    let rules = monitoring_rules(&two_ports(), false);
    assert_eq!(rules.stream_rate.len(), 28);
    assert_eq!(rules.stream_rate[0], StreamRateRule { egress_port: 136, app_id: 1, index: 1 });
    assert_eq!(rules.stream_rate[1], StreamRateRule { egress_port: 144, app_id: 1, index: 2 });
    assert_eq!(rules.stream_rate[13], StreamRateRule { egress_port: 144, app_id: 7, index: 14 });
    assert_eq!(rules.stream_rate[14], StreamRateRule { egress_port: 137, app_id: 1, index: 17 });
    assert_eq!(rules.stream_rate[27], StreamRateRule { egress_port: 145, app_id: 7, index: 30 });
}

#[test]
fn monitoring_rules_agree_with_the_index_mapping() {
    let ports = two_ports();
    let index_mapping = configure_monitoring_path(&ports);
    let rules = monitoring_rules(&ports, false);
    for rule in &rules.init {
        let mapped = index_mapping[rule.index as usize - 1];
        assert_eq!((mapped.index, mapped.port, mapped.app_id), (rule.index, rule.egress_port, 1));
    }
    for rule in &rules.forward {
        let from = index_mapping[rule.index as usize - 1];
        let to = index_mapping[rule.next_index as usize - 1];
        assert_eq!((from.index, from.port), (rule.index, rule.ingress_port));
        assert_eq!((to.index, to.port), (rule.next_index, rule.e_port));
        assert!(to.app_id == from.app_id || to.app_id == from.app_id + 1);
    }
    for rule in &rules.stream_rate {
        let mapped = index_mapping[rule.index as usize - 1];
        assert_eq!((mapped.index, mapped.port, mapped.app_id), (rule.index, rule.egress_port, rule.app_id));
    }
}

#[test]
fn no_ports_no_monitoring_rules() {
    let rules = monitoring_rules(&Vec::new(), true);
    assert!(rules.init.is_empty() && rules.forward.is_empty() && rules.stream_rate.is_empty());
}

#[test]
fn received_frames_are_counted_and_sent_frames_leave() {
    assert_eq!(
        configure_default_forwarding_path(&two_ports()),
        vec![
            ForwardRule { ingress_port: 128, e_port: 144 },
            ForwardRule { ingress_port: 136, e_port: 128 },
            ForwardRule { ingress_port: 129, e_port: 145 },
            ForwardRule { ingress_port: 137, e_port: 129 },
        ]
    );
    assert!(configure_default_forwarding_path(&Vec::new()).is_empty());
}

#[test]
fn egress_rules_name_front_panel_ports_and_send_paths() {
    assert_eq!(configure_egress_rules(&two_ports()), (vec![128, 129], vec![136, 137]));
}

#[test]
fn outside_traffic_goes_back_where_its_pair_sends() {
    let pairs = vec![TxRxMapping { tx: 128, rx: 129 }, TxRxMapping { tx: 129, rx: 129 }];
    assert_eq!(
        configure_analyze_forwarding(&two_ports(), &pairs),
        Ok(vec![ForwardRule { ingress_port: 145, e_port: 136 }, ForwardRule { ingress_port: 145, e_port: 137 }])
    );
    assert_eq!(configure_analyze_forwarding(&two_ports(), &Vec::new()), Ok(vec![]));
}

#[test]
fn a_pair_with_an_unknown_port_is_refused() {
    let pairs = vec![TxRxMapping { tx: 128, rx: 129 }, TxRxMapping { tx: 7, rx: 8 }, TxRxMapping { tx: 9, rx: 128 }];
    assert_eq!(configure_analyze_forwarding(&two_ports(), &pairs), Err(RuleError::UnknownPort { port: 8 }));
    let pairs = vec![TxRxMapping { tx: 7, rx: 128 }];
    assert_eq!(configure_analyze_forwarding(&two_ports(), &pairs), Err(RuleError::UnknownPort { port: 7 }));
}

#[test]
fn slow_streams_are_generated_on_one_pipe() {
    let streams = vec![flow(1, 1, 10 * GBIT), flow(2, 2, 64 * GBIT)];
    assert!(!reaches_threshold(&streams));
    assert_eq!(
        configure_traffic_gen_forwarding_table(&streams, GenerationMode::Cbr, false),
        vec![
            StreamForwardRule { ingress_port: 68, app_id: 1, random_limit: 65535 },
            StreamForwardRule { ingress_port: 68, app_id: 2, random_limit: 65535 },
        ]
    );
    assert_eq!(
        configure_traffic_gen_forwarding_table(&streams, GenerationMode::Mpps, true),
        vec![
            StreamForwardRule { ingress_port: 6, app_id: 1, random_limit: 65535 },
            StreamForwardRule { ingress_port: 6, app_id: 2, random_limit: 65535 },
        ]
    );
}

#[test]
fn fast_streams_are_generated_on_every_pipe() {
    let streams = vec![flow(1, 1, 10 * GBIT), flow(2, 2, 65 * GBIT)];
    assert!(reaches_threshold(&streams));
    assert_eq!(
        configure_traffic_gen_forwarding_table(&streams, GenerationMode::Cbr, false),
        vec![
            StreamForwardRule { ingress_port: 68, app_id: 1, random_limit: 65535 },
            StreamForwardRule { ingress_port: 196, app_id: 1, random_limit: 65535 },
            StreamForwardRule { ingress_port: 68, app_id: 2, random_limit: 65535 },
            StreamForwardRule { ingress_port: 196, app_id: 2, random_limit: 65535 },
        ]
    );
    assert!(reaches_threshold(&vec![flow(1, 1, u64::MAX), flow(2, 2, u64::MAX)]));
    assert!(!reaches_threshold(&Vec::new()));
}

#[test]
fn random_traffic_lets_through_its_share() {
    let streams = vec![flow(1, 3, 50 * GBIT)];
    assert_eq!(
        configure_traffic_gen_forwarding_table(&streams, GenerationMode::Poisson, false),
        vec![
            StreamForwardRule { ingress_port: 68, app_id: 3, random_limit: 32768 },
            StreamForwardRule { ingress_port: 196, app_id: 3, random_limit: 32768 },
        ]
    );
    let rules = configure_traffic_gen_forwarding_table(&vec![flow(1, 3, 100 * GBIT)], GenerationMode::Poisson, true);
    assert_eq!(rules.len(), 4);
    assert_eq!(rules[3], StreamForwardRule { ingress_port: 390, app_id: 3, random_limit: 16384 });
    let rules = configure_traffic_gen_forwarding_table(&vec![flow(1, 3, u64::MAX)], GenerationMode::Poisson, false);
    assert_eq!(rules[0].random_limit, u32::MAX);
}

#[test]
fn a_multicast_group_has_each_send_path_once() {
    let settings = vec![leaves(1, 129), leaves(2, 128), leaves(1, 128), leaves(1, 129)];
    assert_eq!(multicast_ports(&two_ports(), &settings, 1), Ok(vec![137, 136]));
    assert_eq!(multicast_ports(&two_ports(), &settings, 2), Ok(vec![136]));
    assert_eq!(multicast_ports(&two_ports(), &settings, 3), Ok(vec![]));
    assert!(contains_port(&vec![1, 2, 3], 3));
    assert!(!contains_port(&vec![1, 2, 3], 4));
}

#[test]
fn a_setting_on_an_unknown_port_has_no_group() {
    let settings = vec![leaves(1, 129), leaves(2, 5), leaves(1, 6)];
    assert_eq!(multicast_ports(&two_ports(), &settings, 1), Err(RuleError::UnknownPort { port: 5 }));
}

#[test]
fn plain_frames_get_addresses() {
    let rule = header_rewrite(&two_ports(), &flow(1, 4, GBIT), &leaves(1, 129)).unwrap();
    assert_eq!((rule.egress_port, rule.app_id), (137, 4));
    assert_eq!(rule.src_mac, vec![0x00, 0xd0, 0x67, 0xa2, 0xa9, 0x42]);
    assert_eq!(rule.dst_mac, vec![0xd6, 0x67, 0x75, 0xa1, 0x94, 0xc3]);
    assert_eq!(rule.ip, Some(addresses()));
    assert!(rule.tunnel.is_none());
    assert!(rule.tags.is_none());
}

#[test]
fn a_setting_without_ipv4_fields_has_none_to_write() {
    let mut setting = leaves(1, 128);
    setting.ip = None;
    let rule = header_rewrite(&two_ports(), &flow(1, 4, GBIT), &setting).unwrap();
    assert_eq!(rule.ip, None);
    assert_eq!(rule.egress_port, 136);
}

#[test]
fn tunnelled_frames_get_outer_headers() {
    let mut stream = flow(1, 2, GBIT);
    stream.vxlan = true;
    let mut setting = leaves(1, 128);
    setting.vxlan = Some(tunnel());
    let rule = header_rewrite(&two_ports(), &stream, &setting).unwrap();
    let outer = rule.tunnel.unwrap();
    assert_eq!(outer.outer_src_mac, vec![2, 0, 0, 0, 0, 1]);
    assert_eq!(outer.outer_dst_mac, vec![2, 0, 0, 0, 0, 2]);
    assert_eq!((outer.outer_ip_src, outer.outer_ip_dst, outer.outer_tos), (0xC0A8_0001, 0xC0A8_0002, 3));
    assert_eq!((outer.udp_source, outer.vni), (49152, 77));
    assert_eq!(rule.src_mac, vec![0x00, 0xd0, 0x67, 0xa2, 0xa9, 0x42]);

    // the tunnel of a setting is left out where the stream has none
    let rule = header_rewrite(&two_ports(), &flow(1, 2, GBIT), &setting).unwrap();
    assert!(rule.tunnel.is_none());
}

#[test]
fn tagged_frames_get_their_tags() {
    let mut setting = leaves(1, 128);
    setting.vlan = Some(tags());
    let mut stream = flow(1, 2, GBIT);
    stream.encapsulation = Encapsulation::Vlan;
    match header_rewrite(&two_ports(), &stream, &setting).unwrap().tags {
        Some(TagRewrite::Vlan { tag }) => assert_eq!(tag, tags()),
        other => panic!("{other:?}"),
    }
    stream.encapsulation = Encapsulation::QinQ;
    match header_rewrite(&two_ports(), &stream, &setting).unwrap().tags {
        Some(TagRewrite::QinQ { tags: both }) => assert_eq!(both, tags()),
        other => panic!("{other:?}"),
    }
    stream.encapsulation = Encapsulation::SRv6;
    assert!(header_rewrite(&two_ports(), &stream, &setting).unwrap().tags.is_none());
}

#[test]
fn labelled_frames_get_as_many_labels_as_the_stream_says() {
    let mut setting = leaves(1, 128);
    setting.mpls_stack = Some(labels(5));
    let mut stream = flow(1, 2, GBIT);
    stream.encapsulation = Encapsulation::Mpls;
    stream.number_of_lse = Some(3);
    match header_rewrite(&two_ports(), &stream, &setting).unwrap().tags {
        Some(TagRewrite::Mpls { labels: written }) => assert_eq!(written, labels(3)),
        other => panic!("{other:?}"),
    }
    // no more than fifteen labels are written
    setting.mpls_stack = Some(labels(20));
    stream.number_of_lse = Some(20);
    match header_rewrite(&two_ports(), &stream, &setting).unwrap().tags {
        Some(TagRewrite::Mpls { labels: written }) => assert_eq!(written, labels(15)),
        other => panic!("{other:?}"),
    }
}

#[test]
fn each_reason_not_to_rewrite() {
    let ports = two_ports();
    let stream = flow(1, 2, GBIT);
    let failure = |stream: &Stream, setting: &StreamSetting| header_rewrite(&ports, stream, setting).unwrap_err();

    assert_eq!(failure(&stream, &leaves(1, 5)), RewriteError::UnknownPort);

    let mut setting = leaves(1, 128);
    setting.ethernet.eth_src = "00:d0:67:a2:a9".to_owned();
    setting.ethernet.eth_dst = "nothing".to_owned();
    assert_eq!(failure(&stream, &setting), RewriteError::SourceMac);
    setting.ethernet.eth_src = "00:d0:67:a2:a9:42".to_owned();
    assert_eq!(failure(&stream, &setting), RewriteError::DestinationMac);

    let mut tunnelled = stream;
    tunnelled.vxlan = true;
    assert_eq!(failure(&tunnelled, &leaves(1, 128)), RewriteError::MissingSettings);
    let mut setting = leaves(1, 128);
    setting.vxlan = Some(VxLAN { eth_src: "".to_owned(), eth_dst: "zz".to_owned(), ..tunnel() });
    assert_eq!(failure(&tunnelled, &setting), RewriteError::TunnelSourceMac);
    setting.vxlan = Some(VxLAN { eth_dst: "zz".to_owned(), ..tunnel() });
    assert_eq!(failure(&tunnelled, &setting), RewriteError::TunnelDestinationMac);

    let mut tagged = stream;
    tagged.encapsulation = Encapsulation::Vlan;
    assert_eq!(failure(&tagged, &leaves(1, 128)), RewriteError::MissingSettings);
    tagged.encapsulation = Encapsulation::QinQ;
    assert_eq!(failure(&tagged, &leaves(1, 128)), RewriteError::MissingSettings);

    let mut labelled = stream;
    labelled.encapsulation = Encapsulation::Mpls;
    labelled.number_of_lse = Some(2);
    assert_eq!(failure(&labelled, &leaves(1, 128)), RewriteError::MissingSettings);
    let mut setting = leaves(1, 128);
    setting.mpls_stack = Some(labels(1));
    assert_eq!(failure(&labelled, &setting), RewriteError::MissingSettings);
    setting.mpls_stack = Some(labels(2));
    labelled.number_of_lse = None;
    assert_eq!(failure(&labelled, &setting), RewriteError::MissingSettings);
}

#[test]
fn a_stream_is_rewritten_on_each_port_that_sends_it() {
    let mut unused = leaves(1, 128);
    unused.active = false;
    unused.ethernet.eth_src = "broken".to_owned();
    let settings = vec![leaves(1, 129), leaves(2, 128), unused, leaves(1, 128)];
    let rules = stream_header_rewrites(&two_ports(), &flow(1, 3, GBIT), &settings).unwrap();
    assert_eq!(rules.iter().map(|r| (r.egress_port, r.app_id)).collect::<Vec<_>>(), vec![(137, 3), (136, 3)]);
    assert!(stream_header_rewrites(&two_ports(), &flow(9, 3, GBIT), &settings).unwrap().is_empty());
}

#[test]
fn streams_are_rewritten_in_turn() {
    let settings = vec![leaves(1, 129), leaves(2, 128), leaves(1, 128)];
    let streams = vec![flow(2, 1, GBIT), flow(1, 2, GBIT), flow(3, 3, GBIT)];
    let rules = configure_packet_header_rewrite(&two_ports(), &streams, &settings).unwrap();
    let places: Vec<Vec<(u32, u8)>> =
        rules.iter().map(|of_stream| of_stream.iter().map(|r| (r.egress_port, r.app_id)).collect()).collect();
    assert_eq!(places, vec![vec![(136, 1)], vec![(137, 2), (136, 2)], vec![]]);
}

#[test]
fn the_first_broken_setting_stops_the_rewrite() {
    let mut broken = leaves(1, 128);
    broken.ethernet.eth_dst = "00:00".to_owned();
    let settings = vec![leaves(2, 77), broken, leaves(1, 129)];
    let streams = vec![flow(1, 1, GBIT), flow(2, 2, GBIT)];
    assert_eq!(
        configure_packet_header_rewrite(&two_ports(), &streams, &settings).unwrap_err(),
        RewriteError::DestinationMac
    );
    let streams = vec![flow(2, 2, GBIT), flow(1, 1, GBIT)];
    assert_eq!(
        configure_packet_header_rewrite(&two_ports(), &streams, &settings).unwrap_err(),
        RewriteError::UnknownPort
    );
}
