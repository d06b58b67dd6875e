//! Descriptions of the traffic to generate.

use crate::statistics::RttHistogramConfig;
use vstd::prelude::*;

verus! {

/// The encapsulations that a stream's frames can have.
/// `Plain` is an Ethernet frame with an IP packet and nothing between them.
#[derive(Clone, Copy, Debug, PartialEq, Eq, Structural)]
pub enum Encapsulation {
    Plain,
    Vlan,
    QinQ,
    Mpls,
    SRv6,
}

/// How traffic is generated.
#[derive(Clone, Copy, Debug, PartialEq, Eq, Structural)]
pub enum GenerationMode {
    /// Constant bit rate.
    Cbr,
    /// A stream's rate is given in packets per second.
    Mpps,
    /// Traffic with random inter-arrival times.
    Poisson,
    /// No traffic is generated; traffic from outside is forwarded and
    /// analysed.
    Analyze,
}

impl Encapsulation {
    /// The number that stands for the encapsulation on the wire.
    pub open spec fn code(self) -> u8 {
        match self {
            Encapsulation::Plain => 0,
            Encapsulation::Vlan => 1,
            Encapsulation::QinQ => 2,
            Encapsulation::Mpls => 3,
            Encapsulation::SRv6 => 4,
        }
    }

    pub fn to_u8(self) -> (c: u8)
        ensures
            c == self.code(),
    {
        match self {
            Encapsulation::Plain => 0,
            Encapsulation::Vlan => 1,
            Encapsulation::QinQ => 2,
            Encapsulation::Mpls => 3,
            Encapsulation::SRv6 => 4,
        }
    }

    /// The encapsulation that `code` stands for, if any.
    pub fn from_u8(code: u8) -> (e: Option<Encapsulation>)
        ensures
            match e {
                Some(e) => e.code() == code,
                None => code > 4,
            },
    {
        match code {
            0 => Some(Encapsulation::Plain),
            1 => Some(Encapsulation::Vlan),
            2 => Some(Encapsulation::QinQ),
            3 => Some(Encapsulation::Mpls),
            4 => Some(Encapsulation::SRv6),
            _ => None,
        }
    }
}

impl GenerationMode {
    /// The number that stands for the mode on the wire and in the data plane.
    pub open spec fn code(self) -> u8 {
        match self {
            GenerationMode::Cbr => 1,
            GenerationMode::Mpps => 2,
            GenerationMode::Poisson => 3,
            GenerationMode::Analyze => 4,
        }
    }

    pub fn to_u8(self) -> (c: u8)
        ensures
            c == self.code(),
    {
        match self {
            GenerationMode::Cbr => 1,
            GenerationMode::Mpps => 2,
            GenerationMode::Poisson => 3,
            GenerationMode::Analyze => 4,
        }
    }

    /// The mode that `code` stands for, if any.
    pub fn from_u8(code: u8) -> (m: Option<GenerationMode>)
        ensures
            match m {
                Some(m) => m.code() == code,
                None => code == 0 || code > 4,
            },
    {
        match code {
            1 => Some(GenerationMode::Cbr),
            2 => Some(GenerationMode::Mpps),
            3 => Some(GenerationMode::Poisson),
            4 => Some(GenerationMode::Analyze),
            _ => None,
        }
    }
}

/// The bytes of one stream's frame, as the packet generator is to send it
/// for the application `app_id`.
#[derive(Clone, Debug)]
pub struct StreamPacket {
    pub app_id: u8,
    pub bytes: Vec<u8>,
    /// Offset in bytes of the frame in the generator's packet buffer.
    pub buffer_offset: Option<u32>,
    /// Number of packets that are sent in one batch.
    pub n_packets: u16,
    /// Time between two batches, in nanoseconds.
    pub timer: u32,
}

/// The monitoring index of one stream on one recirculation port. The data
/// plane keeps the stream's byte counter under this index.
#[derive(Clone, Copy, Debug, PartialEq, Eq, Structural)]
pub struct MonitoringMapping {
    /// Index under which the data plane keeps the stream's counter.
    pub index: u32,
    /// Recirculation port that the index belongs to.
    pub port: u32,
    /// Application that the index belongs to.
    pub app_id: u8,
}

/// One label stack entry.
#[derive(Clone, Copy, Debug, PartialEq, Eq, Structural)]
pub struct MPLSHeader {
    /// Label of the entry.
    pub label: u32,
    /// Traffic class of the entry.
    pub tc: u32,
    /// Time to live of the entry.
    pub ttl: u32,
}

/// The tags of a frame with one or two of them.
#[derive(Clone, Copy, Debug, PartialEq, Eq, Structural)]
pub struct Vlan {
    pub vlan_id: u16,
    pub pcp: u8,
    pub dei: u8,
    pub inner_vlan_id: u16,
    pub inner_pcp: u8,
    pub inner_dei: u8,
}

/// The hardware addresses of a frame, as text.
#[derive(Clone, Debug)]
pub struct Ethernet {
    /// Source address.
    pub eth_src: String,
    /// Destination address.
    pub eth_dst: String,
}

/// The header fields of an IPv4 packet. Addresses are numbers, the first
/// byte of the address in the highest byte.
#[derive(Clone, Copy, Debug, PartialEq, Eq, Structural)]
pub struct IPv4 {
    pub ip_src: u32,
    pub ip_dst: u32,
    pub ip_tos: u8,
    /// The bits of the source address that are randomised.
    pub ip_src_mask: u32,
    /// The bits of the destination address that are randomised.
    pub ip_dst_mask: u32,
}

/// The header fields of an IPv6 packet. Addresses are numbers, the first
/// byte of the address in the highest byte.
#[derive(Clone, Copy, Debug, PartialEq, Eq, Structural)]
pub struct IPv6 {
    pub ipv6_src: u128,
    pub ipv6_dst: u128,
    pub ipv6_traffic_class: u8,
    /// The bits of the source address that are randomised.
    pub ipv6_src_mask: u128,
    /// The bits of the destination address that are randomised.
    pub ipv6_dst_mask: u128,
    pub ipv6_flow_label: u32,
}

/// The outer headers of a tunnel.
#[derive(Clone, Debug)]
pub struct VxLAN {
    /// Outer source hardware address, as text.
    pub eth_src: String,
    /// Outer destination hardware address, as text.
    pub eth_dst: String,
    pub ip_src: u32,
    pub ip_dst: u32,
    pub ip_tos: u8,
    pub udp_source: u16,
    pub vni: u32,
}

/// How one stream leaves one port.
#[derive(Clone, Debug)]
pub struct StreamSetting {
    /// Front panel port on which the stream is sent.
    pub port: u32,
    /// The stream that the setting is for.
    pub stream_id: u8,
    pub vlan: Option<Vlan>,
    /// The label stack of a stream with labels; as long as the stream says.
    pub mpls_stack: Option<Vec<MPLSHeader>>,
    pub srv6_base_header: Option<IPv6>,
    /// The segments of a stream with segment routing; as many as the stream
    /// says.
    pub sid_list: Option<Vec<u128>>,
    pub ethernet: Ethernet,
    pub ip: Option<IPv4>,
    pub ipv6: Option<IPv6>,
    /// Whether the setting is in use.
    pub active: bool,
    pub vxlan: Option<VxLAN>,
}

/// One flow of traffic.
#[derive(Clone, Copy, Debug, PartialEq, Eq, Structural)]
pub struct Stream {
    /// Identifies the stream; settings refer to it.
    pub stream_id: u8,
    /// Application of the packet generator that sends the stream.
    pub app_id: u8,
    /// Size of a frame in bytes, without encapsulation.
    pub frame_size: u32,
    pub encapsulation: Encapsulation,
    /// Number of label stack entries of a stream with labels.
    pub number_of_lse: Option<u8>,
    /// Target rate: in bits per second or, where rates are given in packets,
    /// in packets per second.
    pub traffic_rate: u64,
    /// Largest burst: one for even gaps between packets, more for an exact
    /// rate.
    pub burst: u16,
    pub batches: Option<bool>,
    /// Packets in a batch; set when the stream is scheduled.
    pub n_packets: Option<u16>,
    /// Nanoseconds between two batches; set when the stream is scheduled.
    pub timeout: Option<u32>,
    /// Share of the target rate that the pacing achieves, in hundredths of a
    /// percent; set when the stream is scheduled.
    pub generation_accuracy: Option<u32>,
    /// Number of pipes that generate the stream; set when the stream is
    /// scheduled.
    pub n_pipes: Option<u8>,
    /// Whether the stream is sent through a tunnel.
    pub vxlan: bool,
    /// Four or six; four where it is not given.
    pub ip_version: Option<u8>,
    /// Number of segments of a stream with segment routing.
    pub number_of_srv6_sids: Option<u8>,
    /// Whether an IP packet follows the segment routing header.
    pub srv6_ip_tunneling: Option<bool>,
}

/// A send port with the port on which its traffic is expected back.
#[derive(Clone, Copy, Debug, PartialEq, Eq, Structural)]
pub struct TxRxMapping {
    pub tx: u32,
    pub rx: u32,
}

/// The histogram configuration of one receive port.
#[derive(Clone, Copy, Debug, PartialEq, Eq, Structural)]
pub struct PortHistogramConfig {
    pub port: u32,
    pub config: RttHistogramConfig,
}

/// A request to generate traffic.
#[derive(Clone, Debug)]
pub struct TrafficGenData {
    pub mode: GenerationMode,
    pub stream_settings: Vec<StreamSetting>,
    pub streams: Vec<Stream>,
    pub port_tx_rx_mapping: Vec<TxRxMapping>,
    /// How long the test lasts, in seconds; `None` for a test that runs
    /// until it is stopped.
    pub duration: Option<u32>,
    pub histogram_config: Option<Vec<PortHistogramConfig>>,
    /// Name of the test.
    pub name: Option<String>,
}

/// One test or several.
#[derive(Clone, Debug)]
pub enum TrafficGenTests {
    SingleTest(TrafficGenData),
    MultipleTest(Vec<TrafficGenData>),
}

/// The answer where there is nothing to say but a message.
#[derive(Clone, Debug)]
pub struct EmptyResponse {
    pub message: String,
}

/// The answer to a reset.
#[derive(Clone, Debug)]
pub struct Reset {
    pub message: String,
}

} // verus!
