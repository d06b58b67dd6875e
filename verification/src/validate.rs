//! The rules that a request to generate traffic has to meet.

use crate::ports::{find_port, first_with_port, PortMapping};
use crate::types::{Encapsulation, GenerationMode, Stream, StreamSetting, TrafficGenData, TxRxMapping};
use vstd::prelude::*;

verus! {

/// Most label stack entries of a stream.
pub const MAX_NUM_MPLS_LABEL: u8 = 15;

/// Most segments of a stream with segment routing.
pub const MAX_NUM_SRV6_SIDS: u8 = 4;

/// Most bytes that the frames of all streams may have together.
pub const MAX_BUFFER_SIZE: u32 = 12000;

/// Highest rate of all streams together on the first generation of the
/// device: 100 Gbit/s.
pub const TG_MAX_RATE: u64 = 100_000_000_000;

/// Highest rate of all streams together on the second generation of the
/// device: 400 Gbit/s.
pub const TG_MAX_RATE_TF2: u64 = 400_000_000_000;

/// Largest mask of randomised IPv6 address bits on the first generation of
/// the device: the low 32 bits.
pub const MAX_ADDRESS_RANDOMIZATION_IPV6_TOFINO1: u128 = 0xFFFF_FFFF;

/// Largest mask of randomised IPv6 address bits on the second generation
/// of the device: the low 40 bits.
pub const MAX_ADDRESS_RANDOMIZATION_IPV6_TOFINO2: u128 = 0xFF_FFFF_FFFF;

/// Bytes that a frame takes on the wire beside its own: preamble and gap.
pub const L1_OVERHEAD: u32 = 20;

/// The rule that a request breaks.
#[derive(Clone, Copy, Debug, PartialEq, Eq, Structural)]
pub enum ValidationError {
    /// A stream with labels does not say how many.
    MissingLseCount { stream_id: u8 },
    /// A stream has more labels than are supported.
    TooManyLses { stream_id: u8 },
    /// A stream with labels has none.
    NoLses { stream_id: u8 },
    /// Segment routing is asked for on a device that has none.
    Srv6Unsupported,
    /// A stream with segment routing does not say how many segments.
    MissingSidCount { stream_id: u8 },
    /// A stream has more segments than are supported.
    TooManySids { stream_id: u8 },
    /// A stream with segment routing has no segment.
    NoSids { stream_id: u8 },
    /// A tagged stream has no tags on a port.
    MissingVlan { stream_id: u8, port: u32 },
    /// A stream with labels has no label stack on a port.
    MissingMplsStack { stream_id: u8, port: u32 },
    /// A label stack is not as long as its stream says.
    MplsStackMismatch { stream_id: u8 },
    /// A stream with segment routing has no segments on a port.
    MissingSidList { stream_id: u8, port: u32 },
    /// A segment list is not as long as its stream says.
    SidListMismatch { stream_id: u8 },
    /// The IP version of a stream is neither four nor six.
    UnsupportedIpVersion { stream_id: u8, port: u32 },
    /// A stream of IPv4 packets has no IPv4 header on a port.
    MissingIpv4 { stream_id: u8, port: u32 },
    /// A stream of IPv6 packets has no IPv6 header on a port.
    MissingIpv6 { stream_id: u8, port: u32 },
    /// More source address bits are randomised than the device can.
    SourceMaskTooLarge { stream_id: u8 },
    /// More destination address bits are randomised than the device can.
    DestinationMaskTooLarge { stream_id: u8 },
    /// A stream through a tunnel has no tunnel headers on a port.
    MissingVxlan { stream_id: u8 },
    /// A stream of IPv6 packets is sent through a tunnel.
    VxlanWithIpv6 { stream_id: u8 },
    /// A stream with labels is sent through a tunnel on the first
    /// generation of the device.
    VxlanWithMpls { stream_id: u8 },
    /// A stream with segment routing is sent through a tunnel.
    VxlanWithSrv6 { stream_id: u8 },
    /// The frames of all streams are larger together than the packet
    /// buffer.
    PacketsTooLarge,
    /// No setting is active.
    NoActiveSettings,
    /// There is no stream.
    NoStreams,
    /// The rates of all streams are higher together than the device can
    /// generate.
    RateTooHigh,
    /// A send port is not a port of the device.
    TxPortUnavailable { port: u32 },
    /// A receive port is not a port of the device.
    RxPortUnavailable { port: u32 },
    /// Random traffic is asked for with another number of streams than one.
    PoissonNeedsOneStream,
    /// Streams are given where outside traffic is analysed.
    AnalyzeTakesNoStream,
    /// A test of a run is to last for no time at all.
    InvalidDuration,
}

/// Bytes that the encapsulation adds to a frame: four for each tag and
/// each label, a base header, a routing header and sixteen bytes for each
/// segment with segment routing, and fifty for a tunnel.
pub open spec fn overhead_of(stream: Stream) -> int {
    (match stream.encapsulation {
        Encapsulation::Plain => 0,
        Encapsulation::Vlan => 4,
        Encapsulation::QinQ => 8,
        Encapsulation::Mpls => 4 * match stream.number_of_lse {
            Some(n) => n as int,
            None => 0,
        },
        Encapsulation::SRv6 => 40 + 8 + 16 * match stream.number_of_srv6_sids {
            Some(n) => n as int,
            None => 0,
        },
    }) + if stream.vxlan {
        50int
    } else {
        0int
    }
}

/// Bytes that the encapsulation of the stream adds to a frame.
pub fn calculate_overhead(stream: &Stream) -> (overhead: u32)
    requires
        stream.encapsulation == Encapsulation::Mpls ==> stream.number_of_lse is Some,
        stream.encapsulation == Encapsulation::SRv6 ==> stream.number_of_srv6_sids is Some,
    ensures
        overhead == overhead_of(*stream),
        overhead <= 4194,
{
    let encapsulation: u32 = match stream.encapsulation {
        Encapsulation::Plain => 0,
        Encapsulation::Vlan => 4,
        Encapsulation::QinQ => 8,
        Encapsulation::Mpls => match stream.number_of_lse {
            Some(n) => 4 * (n as u32),
            None => 0,
        },
        Encapsulation::SRv6 => match stream.number_of_srv6_sids {
            Some(n) => 40 + 8 + 16 * (n as u32),
            None => 48,
        },
    };
    if stream.vxlan {
        encapsulation + 50
    } else {
        encapsulation
    }
}

/// The rule that the stream breaks by itself, if any: a stream with labels
/// says how many it has, between one and the most supported; one with
/// segment routing runs on a device that has it and says how many segments
/// it has, between one and the most supported.
pub open spec fn stream_error(stream: Stream, is_tofino2: bool) -> Option<ValidationError> {
    let id = stream.stream_id;
    if stream.encapsulation == Encapsulation::Mpls {
        match stream.number_of_lse {
            None => Some(ValidationError::MissingLseCount { stream_id: id }),
            Some(n) => if n > MAX_NUM_MPLS_LABEL {
                Some(ValidationError::TooManyLses { stream_id: id })
            } else if n == 0 {
                Some(ValidationError::NoLses { stream_id: id })
            } else {
                None
            },
        }
    } else if stream.encapsulation == Encapsulation::SRv6 {
        if !is_tofino2 {
            Some(ValidationError::Srv6Unsupported)
        } else {
            match stream.number_of_srv6_sids {
                None => Some(ValidationError::MissingSidCount { stream_id: id }),
                Some(n) => if n > MAX_NUM_SRV6_SIDS {
                    Some(ValidationError::TooManySids { stream_id: id })
                } else if n == 0 {
                    Some(ValidationError::NoSids { stream_id: id })
                } else {
                    None
                },
            }
        }
    } else {
        None
    }
}

/// Whether the stream carries an IP packet whose header the settings give.
pub open spec fn carries_ip(stream: Stream) -> bool {
    stream.encapsulation != Encapsulation::SRv6 || stream.srv6_ip_tunneling != Some(false)
}

/// Largest mask of randomised IPv6 address bits.
pub open spec fn max_randomization(is_tofino2: bool) -> u128 {
    if is_tofino2 {
        MAX_ADDRESS_RANDOMIZATION_IPV6_TOFINO2
    } else {
        MAX_ADDRESS_RANDOMIZATION_IPV6_TOFINO1
    }
}

/// The first rule about the IP packet that the stream breaks with the
/// setting, if any.
pub open spec fn ip_error(stream: Stream, setting: StreamSetting, is_tofino2: bool) -> Option<
    ValidationError,
> {
    let id = stream.stream_id;
    let port = setting.port;
    if !carries_ip(stream) {
        None
    } else if stream.ip_version is Some && stream.ip_version != Some(4u8) && stream.ip_version
        != Some(6u8) {
        Some(ValidationError::UnsupportedIpVersion { stream_id: id, port })
    } else if stream.ip_version == Some(4u8) && setting.ip is None {
        Some(ValidationError::MissingIpv4 { stream_id: id, port })
    } else if stream.ip_version == Some(6u8) && setting.ipv6 is None {
        Some(ValidationError::MissingIpv6 { stream_id: id, port })
    } else if stream.ip_version == Some(6u8) && setting.ipv6->0.ipv6_src_mask > max_randomization(
        is_tofino2,
    ) {
        Some(ValidationError::SourceMaskTooLarge { stream_id: id })
    } else if stream.ip_version == Some(6u8) && setting.ipv6->0.ipv6_dst_mask > max_randomization(
        is_tofino2,
    ) {
        Some(ValidationError::DestinationMaskTooLarge { stream_id: id })
    } else {
        None
    }
}

/// The first rule about the tunnel that the stream breaks with the
/// setting, if any.
pub open spec fn tunnel_error(stream: Stream, setting: StreamSetting, is_tofino2: bool) -> Option<
    ValidationError,
> {
    let id = stream.stream_id;
    if !stream.vxlan {
        None
    } else if setting.vxlan is None {
        Some(ValidationError::MissingVxlan { stream_id: id })
    } else if stream.ip_version == Some(6u8) {
        Some(ValidationError::VxlanWithIpv6 { stream_id: id })
    } else if stream.encapsulation == Encapsulation::Mpls && !is_tofino2 {
        Some(ValidationError::VxlanWithMpls { stream_id: id })
    } else if stream.encapsulation == Encapsulation::SRv6 {
        Some(ValidationError::VxlanWithSrv6 { stream_id: id })
    } else {
        None
    }
}

/// The first rule about the encapsulation that the stream breaks with the
/// setting, if any.
pub open spec fn encapsulation_error(stream: Stream, setting: StreamSetting) -> Option<
    ValidationError,
> {
    let id = stream.stream_id;
    let port = setting.port;
    let tagged = stream.encapsulation == Encapsulation::Vlan || stream.encapsulation
        == Encapsulation::QinQ;
    if tagged && setting.vlan is None {
        Some(ValidationError::MissingVlan { stream_id: id, port })
    } else if stream.encapsulation == Encapsulation::Mpls && setting.mpls_stack is None {
        Some(ValidationError::MissingMplsStack { stream_id: id, port })
    } else if stream.encapsulation == Encapsulation::Mpls && Some(
        setting.mpls_stack->0@.len() as int,
    ) != (match stream.number_of_lse {
        Some(n) => Some(n as int),
        None => None,
    }) {
        Some(ValidationError::MplsStackMismatch { stream_id: setting.stream_id })
    } else if stream.encapsulation == Encapsulation::SRv6 && setting.sid_list is None {
        Some(ValidationError::MissingSidList { stream_id: id, port })
    } else if stream.encapsulation == Encapsulation::SRv6 && Some(
        setting.sid_list->0@.len() as int,
    ) != (match stream.number_of_srv6_sids {
        Some(n) => Some(n as int),
        None => None,
    }) {
        Some(ValidationError::SidListMismatch { stream_id: setting.stream_id })
    } else {
        None
    }
}

/// The first rule that the stream breaks with the setting, if the setting
/// is for the stream and any is broken: those about the encapsulation come
/// first, then those about the IP packet, then those about the tunnel.
pub open spec fn setting_error(stream: Stream, setting: StreamSetting, is_tofino2: bool) -> Option<
    ValidationError,
> {
    if setting.stream_id != stream.stream_id {
        None
    } else if encapsulation_error(stream, setting) is Some {
        encapsulation_error(stream, setting)
    } else if ip_error(stream, setting, is_tofino2) is Some {
        ip_error(stream, setting, is_tofino2)
    } else {
        tunnel_error(stream, setting, is_tofino2)
    }
}

/// The first rule that the stream breaks with a setting at or after
/// `from`.
pub open spec fn settings_error(
    stream: Stream,
    settings: Seq<StreamSetting>,
    is_tofino2: bool,
    from: int,
) -> Option<ValidationError>
    decreases settings.len() - from,
{
    if from < 0 || from >= settings.len() {
        None
    } else if setting_error(stream, settings[from], is_tofino2) is Some {
        setting_error(stream, settings[from], is_tofino2)
    } else {
        settings_error(stream, settings, is_tofino2, from + 1)
    }
}

/// The first rule that a stream at or after `from` breaks, by itself or
/// with a setting.
pub open spec fn streams_error(
    streams: Seq<Stream>,
    settings: Seq<StreamSetting>,
    is_tofino2: bool,
    from: int,
) -> Option<ValidationError>
    decreases streams.len() - from,
{
    if from < 0 || from >= streams.len() {
        None
    } else if stream_error(streams[from], is_tofino2) is Some {
        stream_error(streams[from], is_tofino2)
    } else if settings_error(streams[from], settings, is_tofino2, 0) is Some {
        settings_error(streams[from], settings, is_tofino2, 0)
    } else {
        streams_error(streams, settings, is_tofino2, from + 1)
    }
}

/// Bytes of the frames of the first `n` streams together.
pub open spec fn total_frame_size(streams: Seq<Stream>, n: int) -> nat
    decreases n,
{
    if n <= 0 {
        0
    } else {
        total_frame_size(streams, n - 1) + streams[n - 1].frame_size as nat
    }
}

/// The rate of the stream in bits per second. Where rates are given in
/// packets, it is that of so many frames a second, each with its
/// encapsulation and with preamble and gap.
pub open spec fn stream_rate(stream: Stream, mode: GenerationMode) -> int {
    if mode == GenerationMode::Mpps {
        (stream.frame_size + overhead_of(stream) + L1_OVERHEAD) * 8 * stream.traffic_rate
    } else {
        stream.traffic_rate as int
    }
}

/// The rate of the first `n` streams together, in bits per second.
pub open spec fn total_rate(streams: Seq<Stream>, mode: GenerationMode, n: int) -> int
    decreases n,
{
    if n <= 0 {
        0
    } else {
        total_rate(streams, mode, n - 1) + stream_rate(streams[n - 1], mode)
    }
}

/// Highest rate that the device generates.
pub open spec fn max_rate(is_tofino2: bool) -> u64 {
    if is_tofino2 {
        TG_MAX_RATE_TF2
    } else {
        TG_MAX_RATE
    }
}

/// The first pair at or after `from` with a port that is no port of the
/// device, as the rule that it breaks.
pub open spec fn ports_error(
    mapping: Seq<TxRxMapping>,
    available: Seq<PortMapping>,
    from: int,
) -> Option<ValidationError>
    decreases mapping.len() - from,
{
    if from < 0 || from >= mapping.len() {
        None
    } else if first_with_port(available, mapping[from].tx, 0) >= available.len() {
        Some(ValidationError::TxPortUnavailable { port: mapping[from].tx })
    } else if first_with_port(available, mapping[from].rx, 0) >= available.len() {
        Some(ValidationError::RxPortUnavailable { port: mapping[from].rx })
    } else {
        ports_error(mapping, available, from + 1)
    }
}

/// The first rule that the request breaks, if any. The rules for the
/// streams and their settings come first. Then the frames of all streams
/// fit into the packet buffer. Unless outside traffic is analysed, there is
/// a setting and a stream, and the rates of all streams together are no
/// higher than the device generates. At last every port is a port of the
/// device.
pub open spec fn request_error(
    streams: Seq<Stream>,
    settings: Seq<StreamSetting>,
    mode: GenerationMode,
    mapping: Seq<TxRxMapping>,
    available: Seq<PortMapping>,
    is_tofino2: bool,
) -> Option<ValidationError> {
    let generates = mode != GenerationMode::Analyze;
    if streams_error(streams, settings, is_tofino2, 0) is Some {
        streams_error(streams, settings, is_tofino2, 0)
    } else if total_frame_size(streams, streams.len() as int) > MAX_BUFFER_SIZE {
        Some(ValidationError::PacketsTooLarge)
    } else if settings.len() == 0 && generates {
        Some(ValidationError::NoActiveSettings)
    } else if streams.len() == 0 && generates {
        Some(ValidationError::NoStreams)
    } else if generates && total_rate(streams, mode, streams.len() as int) > max_rate(is_tofino2) {
        Some(ValidationError::RateTooHigh)
    } else {
        ports_error(mapping, available, 0)
    }
}

/// Checks what one stream asks of one setting.
pub fn validate_setting(stream: &Stream, setting: &StreamSetting, is_tofino2: bool) -> (r: Result<
    (),
    ValidationError,
>)
    requires
        stream_error(*stream, is_tofino2) is None,
    ensures
        match r {
            Ok(_) => setting_error(*stream, *setting, is_tofino2) is None,
            Err(e) => setting_error(*stream, *setting, is_tofino2) == Some(e),
        },
{
    let id = stream.stream_id;
    let port = setting.port;
    if setting.stream_id != id {
        return Ok(());
    }
    let is_mpls = match stream.encapsulation {
        Encapsulation::Mpls => true,
        _ => false,
    };
    let is_srv6 = match stream.encapsulation {
        Encapsulation::SRv6 => true,
        _ => false,
    };
    let is_tagged = match stream.encapsulation {
        Encapsulation::Vlan => true,
        Encapsulation::QinQ => true,
        _ => false,
    };
    if is_tagged && setting.vlan.is_none() {
        return Err(ValidationError::MissingVlan { stream_id: id, port });
    }
    if is_mpls {
        match &setting.mpls_stack {
            None => {
                return Err(ValidationError::MissingMplsStack { stream_id: id, port });
            },
            Some(stack) => {
                let matches = match stream.number_of_lse {
                    Some(n) => stack.len() == n as usize,
                    None => false,
                };
                if !matches {
                    return Err(ValidationError::MplsStackMismatch { stream_id: setting.stream_id });
                }
            },
        }
    }
    if is_srv6 {
        match &setting.sid_list {
            None => {
                return Err(ValidationError::MissingSidList { stream_id: id, port });
            },
            Some(sids) => {
                let matches = match stream.number_of_srv6_sids {
                    Some(n) => sids.len() == n as usize,
                    None => false,
                };
                if !matches {
                    return Err(ValidationError::SidListMismatch { stream_id: setting.stream_id });
                }
            },
        }
    }
    let tunneling = match stream.srv6_ip_tunneling {
        Some(false) => false,
        _ => true,
    };
    if !is_srv6 || tunneling {
        let limit = if is_tofino2 {
            MAX_ADDRESS_RANDOMIZATION_IPV6_TOFINO2
        } else {
            MAX_ADDRESS_RANDOMIZATION_IPV6_TOFINO1
        };
        match stream.ip_version {
            None => {},
            Some(4) => {
                if setting.ip.is_none() {
                    return Err(ValidationError::MissingIpv4 { stream_id: id, port });
                }
            },
            Some(6) => {
                match setting.ipv6 {
                    None => {
                        return Err(ValidationError::MissingIpv6 { stream_id: id, port });
                    },
                    Some(v6) => {
                        if v6.ipv6_src_mask > limit {
                            return Err(ValidationError::SourceMaskTooLarge { stream_id: id });
                        }
                        if v6.ipv6_dst_mask > limit {
                            return Err(ValidationError::DestinationMaskTooLarge { stream_id: id });
                        }
                    },
                }
            },
            Some(_) => {
                return Err(ValidationError::UnsupportedIpVersion { stream_id: id, port });
            },
        }
    }
    if stream.vxlan {
        if setting.vxlan.is_none() {
            return Err(ValidationError::MissingVxlan { stream_id: id });
        }
        let v6 = match stream.ip_version {
            Some(6) => true,
            _ => false,
        };
        if v6 {
            return Err(ValidationError::VxlanWithIpv6 { stream_id: id });
        }
        if is_mpls && !is_tofino2 {
            return Err(ValidationError::VxlanWithMpls { stream_id: id });
        }
        if is_srv6 {
            return Err(ValidationError::VxlanWithSrv6 { stream_id: id });
        }
    }
    Ok(())
}

/// Checks what one stream asks by itself.
pub fn validate_stream(stream: &Stream, is_tofino2: bool) -> (r: Result<(), ValidationError>)
    ensures
        match r {
            Ok(_) => stream_error(*stream, is_tofino2) is None,
            Err(e) => stream_error(*stream, is_tofino2) == Some(e),
        },
{
    let id = stream.stream_id;
    match stream.encapsulation {
        Encapsulation::Mpls => match stream.number_of_lse {
            None => Err(ValidationError::MissingLseCount { stream_id: id }),
            Some(n) => if n > MAX_NUM_MPLS_LABEL {
                Err(ValidationError::TooManyLses { stream_id: id })
            } else if n == 0 {
                Err(ValidationError::NoLses { stream_id: id })
            } else {
                Ok(())
            },
        },
        Encapsulation::SRv6 => if !is_tofino2 {
            Err(ValidationError::Srv6Unsupported)
        } else {
            match stream.number_of_srv6_sids {
                None => Err(ValidationError::MissingSidCount { stream_id: id }),
                Some(n) => if n > MAX_NUM_SRV6_SIDS {
                    Err(ValidationError::TooManySids { stream_id: id })
                } else if n == 0 {
                    Err(ValidationError::NoSids { stream_id: id })
                } else {
                    Ok(())
                },
            }
        },
        _ => Ok(()),
    }
}

/// Where no stream breaks a rule by itself, every stream with labels or
/// segments says how many it has.
pub proof fn lemma_valid_streams_have_counts(
    streams: Seq<Stream>,
    settings: Seq<StreamSetting>,
    is_tofino2: bool,
    from: int,
    i: int,
)
    requires
        0 <= from <= i < streams.len(),
        streams_error(streams, settings, is_tofino2, from) is None,
    ensures
        stream_error(streams[i], is_tofino2) is None,
    decreases streams.len() - from,
{
    if from < i {
        lemma_valid_streams_have_counts(streams, settings, is_tofino2, from + 1, i);
    }
}

/// Validates a request to generate traffic: the streams that are to be
/// generated with their settings, the generation mode, the pairs of send
/// and receive ports, and the ports of the device.
pub fn validate_request(
    streams: &Vec<Stream>,
    settings: &Vec<StreamSetting>,
    mode: &GenerationMode,
    tx_rx_port_mapping: &Vec<TxRxMapping>,
    available_ports: &Vec<PortMapping>,
    is_tofino2: bool,
) -> (r: Result<(), ValidationError>)
    ensures
        match r {
            Ok(_) => request_error(
                streams@,
                settings@,
                *mode,
                tx_rx_port_mapping@,
                available_ports@,
                is_tofino2,
            ) is None,
            Err(e) => request_error(
                streams@,
                settings@,
                *mode,
                tx_rx_port_mapping@,
                available_ports@,
                is_tofino2,
            ) == Some(e),
        },
{
    let mut i: usize = 0;
    while i < streams.len()
        invariant
            i <= streams@.len(),
            streams_error(streams@, settings@, is_tofino2, 0) == streams_error(
                streams@,
                settings@,
                is_tofino2,
                i as int,
            ),
        decreases streams@.len() - i,
    {
        match validate_stream(&streams[i], is_tofino2) {
            Ok(_) => {},
            Err(e) => {
                return Err(e);
            },
        }
        let mut j: usize = 0;
        while j < settings.len()
            invariant
                j <= settings@.len(),
                i < streams@.len(),
                stream_error(streams@[i as int], is_tofino2) is None,
                settings_error(streams@[i as int], settings@, is_tofino2, 0) == settings_error(
                    streams@[i as int],
                    settings@,
                    is_tofino2,
                    j as int,
                ),
                streams_error(streams@, settings@, is_tofino2, 0) == streams_error(
                    streams@,
                    settings@,
                    is_tofino2,
                    i as int,
                ),
            decreases settings@.len() - j,
        {
            match validate_setting(&streams[i], &settings[j], is_tofino2) {
                Ok(_) => {},
                Err(e) => {
                    return Err(e);
                },
            }
            j = j + 1;
        }
        i = i + 1;
    }
    let generates = match mode {
        GenerationMode::Analyze => false,
        _ => true,
    };
    let mut frames: u128 = 0;
    let mut k: usize = 0;
    while k < streams.len()
        invariant
            k <= streams@.len(),
            frames == total_frame_size(streams@, k as int),
            frames <= k * u32::MAX,
        decreases streams@.len() - k,
    {
        frames = frames + streams[k].frame_size as u128;
        k = k + 1;
    }
    if frames > MAX_BUFFER_SIZE as u128 {
        return Err(ValidationError::PacketsTooLarge);
    }
    if settings.len() == 0 && generates {
        return Err(ValidationError::NoActiveSettings);
    }
    if streams.len() == 0 && generates {
        return Err(ValidationError::NoStreams);
    }
    if generates {
        let limit = if is_tofino2 {
            TG_MAX_RATE_TF2
        } else {
            TG_MAX_RATE
        };
        let by_packets = match mode {
            GenerationMode::Mpps => true,
            _ => false,
        };
        let mut rate: u128 = 0;
        let mut k: usize = 0;
        while k < streams.len()
            invariant
                k <= streams@.len(),
                by_packets == (*mode == GenerationMode::Mpps),
                streams_error(streams@, settings@, is_tofino2, 0) is None,
                total_frame_size(streams@, streams@.len() as int) <= MAX_BUFFER_SIZE,
                rate == total_rate(streams@, *mode, k as int),
                rate <= limit,
                limit == max_rate(is_tofino2),
                generates == (*mode != GenerationMode::Analyze),
                generates,
                settings@.len() > 0,
            decreases streams@.len() - k,
        {
            let stream = streams[k];
            proof {
                lemma_valid_streams_have_counts(streams@, settings@, is_tofino2, 0, k as int);
                lemma_frame_size_bound(streams@, k as int);
            }
            let one: u128 = if by_packets {
                let bytes = stream.frame_size + calculate_overhead(&stream) + L1_OVERHEAD;
                assert(0 <= bytes * 8 * stream.traffic_rate <= 0x10_0000_0000_0000_0000_0000)
                    by (nonlinear_arith)
                    requires
                        bytes <= 20000,
                        stream.traffic_rate <= 0xFFFF_FFFF_FFFF_FFFF,
                ;
                (bytes as u128) * 8 * (stream.traffic_rate as u128)
            } else {
                stream.traffic_rate as u128
            };
            rate = rate + one;
            k = k + 1;
            if rate > limit as u128 {
                proof {
                    lemma_total_rate_grows(streams@, *mode, k as int, streams@.len() as int);
                }
                return Err(ValidationError::RateTooHigh);
            }
        }
    }
    proof {
        assert(request_error(
            streams@,
            settings@,
            *mode,
            tx_rx_port_mapping@,
            available_ports@,
            is_tofino2,
        ) == ports_error(tx_rx_port_mapping@, available_ports@, 0));
    }
    let mut m: usize = 0;
    while m < tx_rx_port_mapping.len()
        invariant
            m <= tx_rx_port_mapping@.len(),
            ports_error(tx_rx_port_mapping@, available_ports@, 0) == ports_error(
                tx_rx_port_mapping@,
                available_ports@,
                m as int,
            ),
            request_error(
                streams@,
                settings@,
                *mode,
                tx_rx_port_mapping@,
                available_ports@,
                is_tofino2,
            ) == ports_error(tx_rx_port_mapping@, available_ports@, 0),
        decreases tx_rx_port_mapping@.len() - m,
    {
        let pair = tx_rx_port_mapping[m];
        if find_port(available_ports, pair.tx).is_none() {
            return Err(ValidationError::TxPortUnavailable { port: pair.tx });
        }
        if find_port(available_ports, pair.rx).is_none() {
            return Err(ValidationError::RxPortUnavailable { port: pair.rx });
        }
        m = m + 1;
    }
    Ok(())
}

/// The rate of more streams is no lower together.
pub proof fn lemma_total_rate_grows(streams: Seq<Stream>, mode: GenerationMode, n: int, m: int)
    requires
        0 <= n <= m,
    ensures
        total_rate(streams, mode, n) <= total_rate(streams, mode, m),
    decreases m - n,
{
    if n < m {
        lemma_total_rate_grows(streams, mode, n, m - 1);
        let stream = streams[m - 1];
        let bytes = stream.frame_size + overhead_of(stream) + L1_OVERHEAD;
        assert(bytes * 8 * stream.traffic_rate >= 0) by (nonlinear_arith)
            requires
                bytes >= 0,
                stream.traffic_rate >= 0,
        ;
    }
}

/// No frame is larger than all frames together.
pub proof fn lemma_frame_size_bound(streams: Seq<Stream>, i: int)
    requires
        0 <= i < streams.len(),
    ensures
        streams[i].frame_size <= total_frame_size(streams, streams.len() as int),
{
    lemma_frame_size_grows(streams, i + 1, streams.len() as int);
}

/// The frames of more streams are no smaller together.
pub proof fn lemma_frame_size_grows(streams: Seq<Stream>, n: int, m: int)
    requires
        0 <= n <= m,
    ensures
        total_frame_size(streams, n) <= total_frame_size(streams, m),
    decreases m - n,
{
    if n < m {
        lemma_frame_size_grows(streams, n, m - 1);
    }
}

/// Whether every test of a run lasts for some time: a test either says
/// nothing of its duration or gives one above zero.
pub open spec fn durations_are_valid(payload: Seq<TrafficGenData>) -> bool {
    forall|i: int| 0 <= i < payload.len() ==> (#[trigger] payload[i]).duration != Some(0u32)
}

/// Checks the durations of the tests of a run.
pub fn validate_payload(payload: &Vec<TrafficGenData>) -> (valid: bool)
    ensures
        valid == durations_are_valid(payload@),
{
    let mut i: usize = 0;
    while i < payload.len()
        invariant
            i <= payload@.len(),
            forall|j: int| 0 <= j < i ==> (#[trigger] payload@[j]).duration != Some(0u32),
        decreases payload@.len() - i,
    {
        match payload[i].duration {
            Some(d) => {
                if d == 0 {
                    return false;
                }
            },
            None => {},
        }
        i = i + 1;
    }
    true
}

} // verus!
