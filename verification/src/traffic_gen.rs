//! What the traffic generator is told for a request: which streams are
//! generated, how each of them is paced, and where its frame lies in the
//! packet buffer.

use crate::optimization::{calculate_send_behaviour, NANO};
use crate::ports::PortMapping;
use crate::types::{
    Encapsulation, GenerationMode, MonitoringMapping, PortHistogramConfig, Stream, StreamPacket,
    StreamSetting, TrafficGenData, TxRxMapping,
};
use crate::histogram::{
    configs_of, first_unknown_port, requested_histograms, with_receive_defaults, HistogramError,
    HistogramMonitor,
};
use crate::validate::{
    calculate_overhead, lemma_frame_size_bound, lemma_valid_streams_have_counts, overhead_of,
    request_error, validate_request, ValidationError, L1_OVERHEAD, MAX_BUFFER_SIZE, TG_MAX_RATE,
    TG_MAX_RATE_TF2,
};
use vstd::prelude::*;

verus! {

/// Number of pipes that generate traffic on the first generation of the
/// device.
pub const TG_PIPES: u32 = 2;

/// Number of pipes that generate traffic on the second generation of the
/// device.
pub const TG_PIPES_TF2: u32 = 4;

/// Rate in bits per second from which on every pipe generates: 75 Gbit/s.
pub const TWO_PIPE_GENERATION_THRESHOLD: u64 = 75_000_000_000;

/// Rate in packets per second from which on every pipe generates, where
/// rates are given in packets.
pub const TWO_PIPE_GENERATION_THRESHOLD_PACKETS: u64 = 75_000_000;

/// The largest burst of random traffic, which is sent at full rate and
/// thinned out in the data plane.
pub const POISSON_BURST: u16 = 25;

/// Packet buffers are aligned to this number of bytes.
pub const BUFFER_ALIGNMENT: u32 = 16;

/// First application identifier of a stream.
pub const FIRST_APP_ID: u8 = 1;

/// Number of application identifiers with a monitoring index.
pub const MONITORED_APPS: u8 = 8;

/// Some setting is active and is for the stream `stream_id`.
pub open spec fn is_active_stream(settings: Seq<StreamSetting>, stream_id: u8) -> bool {
    exists|j: int|
        0 <= j < settings.len() && (#[trigger] settings[j]).active && settings[j].stream_id
            == stream_id
}

/// The settings in use, in their order.
pub open spec fn active_settings_of(settings: Seq<StreamSetting>) -> Seq<StreamSetting>
    decreases settings.len(),
{
    if settings.len() == 0 {
        settings
    } else if settings.last().active {
        active_settings_of(settings.drop_last()).push(settings.last())
    } else {
        active_settings_of(settings.drop_last())
    }
}

/// The streams for which a setting is in use, in their order.
pub open spec fn active_streams_of(streams: Seq<Stream>, settings: Seq<StreamSetting>) -> Seq<Stream>
    decreases streams.len(),
{
    if streams.len() == 0 {
        streams
    } else if is_active_stream(settings, streams.last().stream_id) {
        active_streams_of(streams.drop_last(), settings).push(streams.last())
    } else {
        active_streams_of(streams.drop_last(), settings)
    }
}

/// The settings in use.
pub fn active_stream_settings(settings: Vec<StreamSetting>) -> (active: Vec<StreamSetting>)
    ensures
        active@ == active_settings_of(settings@),
{
    let ghost given = settings@;
    let mut active: Vec<StreamSetting> = Vec::new();
    proof {
        assert(given.subrange(0, given.len() as int) =~= given);
    }
    for setting in it: settings
        invariant
            it.seq() == given,
            active@ == active_settings_of(given.subrange(0, it.index() as int)),
    {
        proof {
            assert(it.seq().subrange(0, it.index() + 1).drop_last() =~= it.seq().subrange(
                0,
                it.index() as int,
            ));
        }
        if setting.active {
            active.push(setting);
        }
    }
    active
}

/// Whether a setting is in use for the stream `stream_id`.
pub fn has_active_setting(settings: &Vec<StreamSetting>, stream_id: u8) -> (r: bool)
    ensures
        r == is_active_stream(settings@, stream_id),
{
    let mut j: usize = 0;
    while j < settings.len()
        invariant
            j <= settings@.len(),
            forall|k: int|
                0 <= k < j ==> !((#[trigger] settings@[k]).active && settings@[k].stream_id
                    == stream_id),
        decreases settings@.len() - j,
    {
        if settings[j].active && settings[j].stream_id == stream_id {
            return true;
        }
        j = j + 1;
    }
    false
}

/// The streams for which a setting is in use.
pub fn active_streams(streams: &Vec<Stream>, settings: &Vec<StreamSetting>) -> (active: Vec<Stream>)
    ensures
        active@ == active_streams_of(streams@, settings@),
{
    let mut active: Vec<Stream> = Vec::new();
    let mut i: usize = 0;
    while i < streams.len()
        invariant
            i <= streams@.len(),
            active@ == active_streams_of(streams@.subrange(0, i as int), settings@),
        decreases streams@.len() - i,
    {
        proof {
            assert(streams@.subrange(0, i + 1).drop_last() =~= streams@.subrange(0, i as int));
        }
        if has_active_setting(settings, streams[i].stream_id) {
            active.push(streams[i]);
        }
        i = i + 1;
    }
    proof {
        assert(streams@.subrange(0, i as int) =~= streams@);
    }
    active
}

/// Checks that the number of streams suits the generation mode: random
/// traffic takes one stream, and the analysis of outside traffic takes
/// none.
pub fn check_stream_count(mode: GenerationMode, active_streams: usize) -> (r: Result<
    (),
    ValidationError,
>)
    ensures
        match r {
            Ok(_) => !(mode == GenerationMode::Poisson && active_streams != 1) && !(mode
                == GenerationMode::Analyze && active_streams != 0),
            Err(e) => if mode == GenerationMode::Poisson && active_streams != 1 {
                e == ValidationError::PoissonNeedsOneStream
            } else {
                mode == GenerationMode::Analyze && active_streams != 0 && e
                    == ValidationError::AnalyzeTakesNoStream
            },
        },
{
    match mode {
        GenerationMode::Poisson => if active_streams != 1 {
            Err(ValidationError::PoissonNeedsOneStream)
        } else {
            Ok(())
        },
        GenerationMode::Analyze => if active_streams != 0 {
            Err(ValidationError::AnalyzeTakesNoStream)
        } else {
            Ok(())
        },
        _ => Ok(()),
    }
}

/// Sum of the target rates of the first `n` streams, as they are given.
pub open spec fn given_rate(streams: Seq<Stream>, n: int) -> nat
    decreases n,
{
    if n <= 0 {
        0
    } else {
        given_rate(streams, n - 1) + streams[n - 1].traffic_rate as nat
    }
}

/// The rate from which on every pipe generates.
pub open spec fn pipe_threshold(mode: GenerationMode) -> u64 {
    if mode == GenerationMode::Mpps {
        TWO_PIPE_GENERATION_THRESHOLD_PACKETS
    } else {
        TWO_PIPE_GENERATION_THRESHOLD
    }
}

/// Number of pipes that generate traffic on the device.
pub open spec fn pipes_of(is_tofino2: bool) -> u32 {
    if is_tofino2 {
        TG_PIPES_TF2
    } else {
        TG_PIPES
    }
}

/// Number of pipes that generate the streams: all of them from the
/// threshold rate on, one below it.
pub open spec fn timeout_factor_of(streams: Seq<Stream>, mode: GenerationMode, is_tofino2: bool) -> u32 {
    if given_rate(streams, streams.len() as int) >= pipe_threshold(mode) {
        pipes_of(is_tofino2)
    } else {
        1
    }
}

/// Number of pipes that generate the streams. Each pipe sends a batch once
/// in that many times the time between batches.
pub fn timeout_factor(streams: &Vec<Stream>, mode: GenerationMode, is_tofino2: bool) -> (factor: u32)
    ensures
        factor == timeout_factor_of(streams@, mode, is_tofino2),
        1 <= factor <= 4,
{
    let threshold = match mode {
        GenerationMode::Mpps => TWO_PIPE_GENERATION_THRESHOLD_PACKETS,
        _ => TWO_PIPE_GENERATION_THRESHOLD,
    };
    let pipes = if is_tofino2 {
        TG_PIPES_TF2
    } else {
        TG_PIPES
    };
    let mut total: u64 = 0;
    let mut i: usize = 0;
    while i < streams.len()
        invariant
            i <= streams@.len(),
            total == given_rate(streams@, i as int),
            total < threshold,
            threshold == pipe_threshold(mode),
            pipes == pipes_of(is_tofino2),
        decreases streams@.len() - i,
    {
        total = total.saturating_add(streams[i].traffic_rate);
        i = i + 1;
        if total >= threshold {
            proof {
                lemma_given_rate_grows(streams@, i as int, streams@.len() as int);
            }
            return pipes;
        }
    }
    1
}

/// The rates of more streams are no lower together.
pub proof fn lemma_given_rate_grows(streams: Seq<Stream>, n: int, m: int)
    requires
        0 <= n <= m,
    ensures
        given_rate(streams, n) <= given_rate(streams, m),
    decreases m - n,
{
    if n < m {
        lemma_given_rate_grows(streams, n, m - 1);
    }
}

/// `value`, or the largest `u64` if it is above that.
pub open spec fn clip_u64(value: int) -> u64 {
    if value > u64::MAX {
        u64::MAX
    } else {
        value as u64
    }
}

/// `value`, or the largest `u32` if it is above that.
pub open spec fn clip_u32(value: int) -> u32 {
    if value > u32::MAX {
        u32::MAX
    } else {
        value as u32
    }
}

/// Bytes of one frame of the stream on the wire: the frame, its
/// encapsulation, preamble and gap.
pub open spec fn wire_size(stream: Stream) -> int {
    stream.frame_size + overhead_of(stream) + L1_OVERHEAD
}

/// The target rate of the stream in bits per second.
pub open spec fn target_rate(stream: Stream, mode: GenerationMode) -> u64 {
    if mode == GenerationMode::Mpps {
        clip_u64(wire_size(stream) * 8 * stream.traffic_rate)
    } else {
        stream.traffic_rate
    }
}

/// Share of the target rate that `n` packets of `size` bytes every `t`
/// nanoseconds achieve, in hundredths of a percent: ten thousand less what
/// the achieved rate is off the target, above or below, and no less than
/// zero. Without a target it is zero.
pub open spec fn accuracy_of(size: int, rate: u64, n: int, t: int) -> int {
    let carried = t * rate as int;
    let sent = NANO as int * (n * (8 * size));
    let off = if carried >= sent {
        carried - sent
    } else {
        sent - carried
    };
    if carried == 0 || off * 10000 / carried >= 10000 {
        0
    } else {
        10000 - off * 10000 / carried
    }
}

/// Share of the target rate that a pacing achieves, in hundredths of a
/// percent.
pub fn generation_accuracy(size: u32, rate: u64, n: u16, t: u32) -> (accuracy: u32)
    ensures
        accuracy == accuracy_of(size as int, rate, n as int, t as int),
        accuracy <= 10000,
{
    assert(t * rate <= 0xFFFF_FFFF * 0xFFFF_FFFF_FFFF_FFFF) by (nonlinear_arith)
        requires
            t <= 0xFFFF_FFFF,
            rate <= 0xFFFF_FFFF_FFFF_FFFF,
    ;
    assert(n * (8 * size) <= 0xFFFF * 0x7_FFFF_FFF8) by (nonlinear_arith)
        requires
            n <= 0xFFFF,
            size <= 0xFFFF_FFFF,
    ;
    let carried: u128 = (t as u128) * (rate as u128);
    let sent: u128 = 1_000_000_000 * ((n as u128) * (8 * (size as u128)));
    let off: u128 = if carried >= sent {
        carried - sent
    } else {
        sent - carried
    };
    if carried == 0 {
        return 0;
    }
    let lost: u128 = off * 10000 / carried;
    if lost >= 10000 {
        0
    } else {
        (10000 - lost) as u32
    }
}

/// The stream once it is scheduled: its target rate is in bits per second,
/// and it carries the pacing that the optimizer has found for its frames on
/// the wire, the accuracy of that pacing, and the number of pipes.
pub open spec fn is_scheduled(before: Stream, after: Stream, mode: GenerationMode, factor: u32) -> bool {
    let size = wire_size(before);
    let rate = target_rate(before, mode);
    &&& after.traffic_rate == rate
    &&& after.n_packets is Some
    &&& after.timeout is Some
    &&& after.n_pipes == Some(factor as u8)
    &&& after == Stream {
        traffic_rate: rate,
        n_packets: after.n_packets,
        timeout: after.timeout,
        generation_accuracy: after.generation_accuracy,
        n_pipes: after.n_pipes,
        ..before
    }
    &&& exists|t: u32|
        {
            &&& #[trigger] clip_u32(t * factor) == after.timeout->0
            &&& is_pacing(size as u32, rate, before.burst, after.n_packets->0, t)
            &&& after.generation_accuracy == Some(
                accuracy_of(size, rate, after.n_packets->0 as int, t as int) as u32,
            )
        }
}

/// `(n, t)` is the pacing that the optimizer finds: the best there is, or
/// the answer that says that there is none.
pub open spec fn is_pacing(size: u32, rate: u64, burst: u16, n: u16, t: u32) -> bool {
    if exists|m: int, u: int| crate::optimization::is_feasible(size, rate, burst, m, u) {
        crate::optimization::is_best(size, rate, burst, n as int, t as int)
    } else {
        (n, t) == crate::optimization::infeasible()
    }
}

/// Schedules one stream: finds its pacing and writes it into the stream.
/// `factor` is the number of pipes that generate.
pub fn schedule_stream(stream: &Stream, mode: GenerationMode, factor: u32) -> (scheduled: Stream)
    requires
        stream.frame_size <= MAX_BUFFER_SIZE,
        stream.encapsulation == Encapsulation::Mpls ==> stream.number_of_lse is Some,
        stream.encapsulation == Encapsulation::SRv6 ==> stream.number_of_srv6_sids is Some,
        1 <= factor <= 255,
    ensures
        is_scheduled(*stream, scheduled, mode, factor),
{
    let size: u32 = stream.frame_size + calculate_overhead(stream) + L1_OVERHEAD;
    let by_packets = match mode {
        GenerationMode::Mpps => true,
        _ => false,
    };
    let rate: u64 = if by_packets {
        assert(size * 8 * stream.traffic_rate <= 20000 * 8 * 0xFFFF_FFFF_FFFF_FFFF)
            by (nonlinear_arith)
            requires
                size <= 20000,
                stream.traffic_rate <= 0xFFFF_FFFF_FFFF_FFFF,
        ;
        let bits: u128 = (size as u128) * 8 * (stream.traffic_rate as u128);
        if bits > u64::MAX as u128 {
            u64::MAX
        } else {
            bits as u64
        }
    } else {
        stream.traffic_rate
    };
    let (n, t) = calculate_send_behaviour(size, rate, stream.burst);
    let accuracy = generation_accuracy(size, rate, n, t);
    assert(t * factor <= 0xFFFF_FFFF * 255) by (nonlinear_arith)
        requires
            t <= 0xFFFF_FFFF,
            factor <= 255,
    ;
    let timeout: u64 = (t as u64) * (factor as u64);
    let timeout: u32 = if timeout > u32::MAX as u64 {
        u32::MAX
    } else {
        timeout as u32
    };
    let scheduled = Stream {
        traffic_rate: rate,
        n_packets: Some(n),
        timeout: Some(timeout),
        generation_accuracy: Some(accuracy),
        n_pipes: Some(factor as u8),
        ..*stream
    };
    proof {
        assert(clip_u32(t * factor) == timeout);
    }
    scheduled
}

/// Highest rate that the device generates, in bits per second.
pub fn max_generation_rate(is_tofino2: bool) -> (rate: u64)
    ensures
        rate == crate::validate::max_rate(is_tofino2),
{
    if is_tofino2 {
        TG_MAX_RATE_TF2
    } else {
        TG_MAX_RATE
    }
}

/// Share of the packets of a stream of random traffic that the data plane
/// lets through, as a number up to 65535: the target rate over the highest
/// rate, rounded to the nearest, a half upward.
pub open spec fn poisson_share(rate: u64, is_tofino2: bool) -> int {
    (2 * 65535 * rate as int + crate::validate::max_rate(is_tofino2)) / (2 * crate::validate::max_rate(
        is_tofino2,
    ))
}

/// Share of the packets of a stream of random traffic that the data plane
/// lets through.
pub fn poisson_drop_range(rate: u64, is_tofino2: bool) -> (share: u64)
    ensures
        share == poisson_share(rate, is_tofino2),
{
    let limit = max_generation_rate(is_tofino2) as u128;
    let doubled: u128 = 131070 * (rate as u128);
    let share: u128 = (doubled + limit) / (2 * limit);
    assert(share <= 0xFFFF_FFFF_FFFF_FFFF) by (nonlinear_arith)
        requires
            share == (2 * 65535 * rate + limit) / (2 * limit),
            limit >= 100_000_000_000,
            rate <= 0xFFFF_FFFF_FFFF_FFFF,
    ;
    share as u64
}

/// The offset at or after `offset` that is a multiple of the alignment.
pub open spec fn aligned(offset: int) -> int {
    if offset % BUFFER_ALIGNMENT as int == 0 {
        offset
    } else {
        offset + BUFFER_ALIGNMENT - offset % BUFFER_ALIGNMENT as int
    }
}

/// The packet buffer is filled up to `end` once the first `n` packets lie
/// in it, one after another from `start` on, each at an aligned offset.
pub open spec fn buffer_end(packets: Seq<StreamPacket>, start: int, n: int) -> int
    decreases n,
{
    if n <= 0 {
        start
    } else {
        aligned(buffer_end(packets, start, n - 1)) + packets[n - 1].bytes@.len()
    }
}

/// Gives every packet its place in the packet buffer: the packets lie one
/// after another from `min_buffer_offset` on, each at the next offset that
/// is a multiple of sixteen. Fails where the buffer's offsets do not reach
/// as far.
pub fn configure_traffic_gen_table(packets: Vec<StreamPacket>, min_buffer_offset: u32) -> (placed:
    Option<Vec<StreamPacket>>)
    ensures
        match placed {
            Some(placed) => {
                &&& placed@.len() == packets@.len()
                &&& buffer_end(packets@, min_buffer_offset as int, packets@.len() as int)
                    <= u32::MAX
                &&& forall|i: int|
                    0 <= i < placed@.len() ==> {
                        &&& (#[trigger] placed@[i]).app_id == packets@[i].app_id
                        &&& placed@[i].bytes@ == packets@[i].bytes@
                        &&& placed@[i].n_packets == packets@[i].n_packets
                        &&& placed@[i].timer == packets@[i].timer
                        &&& placed@[i].buffer_offset == Some(
                            aligned(buffer_end(packets@, min_buffer_offset as int, i)) as u32,
                        )
                        &&& placed@[i].buffer_offset->0 % BUFFER_ALIGNMENT == 0
                    }
            },
            None => buffer_end(packets@, min_buffer_offset as int, packets@.len() as int)
                > u32::MAX,
        },
{
    let ghost given = packets@;
    let mut placed = packets;
    let mut offset: u64 = min_buffer_offset as u64;
    let mut i: usize = 0;
    while i < placed.len()
        invariant
            given == packets@,
            i <= placed@.len(),
            placed@.len() == given.len(),
            offset == buffer_end(given, min_buffer_offset as int, i as int),
            offset <= u32::MAX,
            forall|k: int| i <= k < given.len() ==> #[trigger] placed@[k] == given[k],
            forall|k: int|
                0 <= k < i ==> {
                    &&& (#[trigger] placed@[k]).app_id == given[k].app_id
                    &&& placed@[k].bytes@ == given[k].bytes@
                    &&& placed@[k].n_packets == given[k].n_packets
                    &&& placed@[k].timer == given[k].timer
                    &&& placed@[k].buffer_offset == Some(
                        aligned(buffer_end(given, min_buffer_offset as int, k)) as u32,
                    )
                    &&& placed@[k].buffer_offset->0 % BUFFER_ALIGNMENT == 0
                },
        decreases given.len() - i,
    {
        let rest = offset % (BUFFER_ALIGNMENT as u64);
        let start: u64 = if rest == 0 {
            offset
        } else {
            offset + (BUFFER_ALIGNMENT as u64 - rest)
        };
        let length = placed[i].bytes.len();
        proof {
            lemma_buffer_end_grows(given, min_buffer_offset as int, i + 1, given.len() as int);
            assert(start == aligned(offset as int));
            assert(length == given[i as int].bytes@.len());
            assert(buffer_end(given, min_buffer_offset as int, i + 1) == start + length);
        }
        if start > u32::MAX as u64 || length as u64 > u32::MAX as u64 - start {
            return None;
        }
        placed[i].buffer_offset = Some(start as u32);
        offset = start + length as u64;
        i = i + 1;
    }
    Some(placed)
}

/// The packet buffer is filled no less by more packets.
pub proof fn lemma_buffer_end_grows(packets: Seq<StreamPacket>, start: int, n: int, m: int)
    requires
        0 <= n <= m,
        0 <= start,
    ensures
        start <= buffer_end(packets, start, n) <= buffer_end(packets, start, m),
    decreases m,
{
    if m > 0 {
        if n < m {
            lemma_buffer_end_grows(packets, start, n, m - 1);
        } else {
            lemma_buffer_end_grows(packets, start, n - 1, m - 1);
        }
    }
}

/// The monitoring mappings of the first `count` streams, where every port
/// has eight streams and the streams are counted port after port: two for
/// each stream, the one of the send path with an odd index, the one of the
/// receive path with the even index after it, and the indices counted from
/// one.
pub open spec fn monitoring_mappings(mappings: Seq<PortMapping>, count: int) -> Seq<
    MonitoringMapping,
>
    decreases count,
{
    if count <= 0 {
        Seq::empty()
    } else {
        let stream = count - 1;
        let app_id = (stream % 8 + 1) as u8;
        monitoring_mappings(mappings, count - 1).push(
            MonitoringMapping {
                index: (2 * stream + 1) as u32,
                port: mappings[stream / 8].tx_recirculation,
                app_id,
            },
        ).push(
            MonitoringMapping {
                index: (2 * stream + 2) as u32,
                port: mappings[stream / 8].rx_recirculation,
                app_id,
            },
        )
    }
}

/// The monitoring index of every stream on every recirculation port.
pub fn configure_monitoring_path(mappings: &Vec<PortMapping>) -> (index_mapping: Vec<
    MonitoringMapping,
>)
    requires
        mappings@.len() <= 0x0FFF_FFFF,
    ensures
        index_mapping@ == monitoring_mappings(mappings@, 8 * (mappings@.len() as int)),
{
    let mut index_mapping: Vec<MonitoringMapping> = Vec::new();
    let mut index: u32 = 1;
    let mut p: usize = 0;
    while p < mappings.len()
        invariant
            p <= mappings@.len(),
            mappings@.len() <= 0x0FFF_FFFF,
            index == 16 * p + 1,
            index_mapping@ == monitoring_mappings(mappings@, 8 * p),
        decreases mappings@.len() - p,
    {
        let mapping = mappings[p];
        let mut app_id: u8 = FIRST_APP_ID;
        while app_id <= MONITORED_APPS
            invariant
                p < mappings@.len(),
                mappings@.len() <= 0x0FFF_FFFF,
                mapping == mappings@[p as int],
                1 <= app_id <= 9,
                index == 16 * p + 2 * (app_id - 1) + 1,
                index_mapping@ == monitoring_mappings(mappings@, 8 * p + (app_id - 1)),
            decreases 9 - app_id,
        {
            index_mapping.push(
                MonitoringMapping { index, port: mapping.tx_recirculation, app_id },
            );
            index_mapping.push(
                MonitoringMapping { index: index + 1, port: mapping.rx_recirculation, app_id },
            );
            index = index + 2;
            app_id = app_id + 1;
        }
        p = p + 1;
    }
    index_mapping
}

/// The state of the traffic generator: whether it runs, and the request
/// that it runs, kept for everyone who asks what is being generated.
#[derive(Clone, Debug)]
pub struct TrafficGen {
    /// First offset of the packet buffer that is free for streams; what is
    /// below holds the monitoring packet.
    pub min_buffer_offset: u32,
    /// Whether traffic is generated.
    pub running: bool,
    pub stream_settings: Vec<StreamSetting>,
    pub streams: Vec<Stream>,
    pub mode: GenerationMode,
    pub port_mapping: Vec<TxRxMapping>,
    pub histogram_config: Vec<PortHistogramConfig>,
    /// How long the test lasts, in seconds.
    pub duration: Option<u32>,
    pub name: Option<String>,
    /// Whether the device is of the second generation.
    pub is_tofino2: bool,
}

impl TrafficGen {
    /// A generator that does not run and holds no request.
    pub fn new(is_tofino2: bool) -> (tg: TrafficGen)
        ensures
            tg.min_buffer_offset == 0,
            !tg.running,
            tg.stream_settings@.len() == 0,
            tg.streams@.len() == 0,
            tg.mode == GenerationMode::Cbr,
            tg.port_mapping@.len() == 0,
            tg.histogram_config@.len() == 0,
            tg.duration is None,
            tg.name is None,
            tg.is_tofino2 == is_tofino2,
    {
        TrafficGen {
            min_buffer_offset: 0,
            running: false,
            stream_settings: Vec::new(),
            streams: Vec::new(),
            mode: GenerationMode::Cbr,
            port_mapping: Vec::new(),
            histogram_config: Vec::new(),
            duration: None,
            name: None,
            is_tofino2,
        }
    }

    /// Traffic generation has been stopped.
    pub fn stop(&mut self)
        ensures
            !final(self).running,
            final(self).min_buffer_offset == old(self).min_buffer_offset,
            final(self).stream_settings == old(self).stream_settings,
            final(self).streams == old(self).streams,
            final(self).mode == old(self).mode,
            final(self).port_mapping == old(self).port_mapping,
            final(self).histogram_config == old(self).histogram_config,
            final(self).duration == old(self).duration,
            final(self).name == old(self).name,
            final(self).is_tofino2 == old(self).is_tofino2,
    {
        self.running = false;
    }

    /// Traffic generation has been started for the request `payload`: the
    /// generator runs and holds the request.
    pub fn start_traffic_generation(&mut self, payload: TrafficGenData)
        ensures
            final(self).running,
            final(self).min_buffer_offset == old(self).min_buffer_offset,
            final(self).is_tofino2 == old(self).is_tofino2,
            final(self).stream_settings == payload.stream_settings,
            final(self).streams == payload.streams,
            final(self).mode == payload.mode,
            final(self).port_mapping == payload.port_tx_rx_mapping,
            final(self).duration == payload.duration,
            final(self).name == payload.name,
            match payload.histogram_config {
                Some(config) => final(self).histogram_config == config,
                None => final(self).histogram_config@.len() == 0,
            },
    {
        self.stream_settings = payload.stream_settings;
        self.streams = payload.streams;
        self.mode = payload.mode;
        self.port_mapping = payload.port_tx_rx_mapping;
        self.duration = payload.duration;
        self.name = payload.name;
        self.histogram_config = match payload.histogram_config {
            Some(config) => config,
            None => Vec::new(),
        };
        self.running = true;
    }

    /// How long the watch over the test that runs is to last, in
    /// milliseconds: the duration of the test if it has one above zero.
    pub fn watch_duration(&self) -> (millis: Option<u64>)
        ensures
            millis == match self.duration {
                Some(d) => if d > 0 {
                    Some((d * 1000) as u64)
                } else {
                    None
                },
                None => None,
            },
    {
        match self.duration {
            Some(d) => if d > 0 {
                Some((d as u64) * 1000)
            } else {
                None
            },
            None => None,
        }
    }
}

/// A stream can be scheduled: its frame fits into the packet buffer, and
/// it says how many labels or segments it has if it has any.
pub open spec fn is_schedulable(stream: Stream) -> bool {
    &&& stream.frame_size <= MAX_BUFFER_SIZE
    &&& stream.encapsulation == Encapsulation::Mpls ==> stream.number_of_lse is Some
    &&& stream.encapsulation == Encapsulation::SRv6 ==> stream.number_of_srv6_sids is Some
}

/// Whether every stream can be scheduled.
pub fn can_schedule(streams: &Vec<Stream>) -> (r: bool)
    ensures
        r == forall|i: int| 0 <= i < streams@.len() ==> is_schedulable(#[trigger] streams@[i]),
{
    let mut i: usize = 0;
    while i < streams.len()
        invariant
            i <= streams@.len(),
            forall|k: int| 0 <= k < i ==> is_schedulable(#[trigger] streams@[k]),
        decreases streams@.len() - i,
    {
        let stream = streams[i];
        let counted = match stream.encapsulation {
            Encapsulation::Mpls => stream.number_of_lse.is_some(),
            Encapsulation::SRv6 => stream.number_of_srv6_sids.is_some(),
            _ => true,
        };
        if stream.frame_size > MAX_BUFFER_SIZE || !counted {
            assert(!is_schedulable(streams@[i as int]));
            return false;
        }
        i = i + 1;
    }
    true
}

/// The streams of a request that breaks no rule can be scheduled.
pub proof fn lemma_valid_streams_are_schedulable(
    streams: Seq<Stream>,
    settings: Seq<StreamSetting>,
    mode: GenerationMode,
    mapping: Seq<TxRxMapping>,
    available: Seq<PortMapping>,
    is_tofino2: bool,
    i: int,
)
    requires
        request_error(streams, settings, mode, mapping, available, is_tofino2) is None,
        0 <= i < streams.len(),
    ensures
        is_schedulable(streams[i]),
{
    lemma_valid_streams_have_counts(streams, settings, is_tofino2, 0, i);
    lemma_frame_size_bound(streams, i);
}

/// The first stream of random traffic once it is scheduled: it is paced as
/// a stream at the highest rate of the device, from which the data plane
/// takes packets away at random.
pub open spec fn is_poisson_scheduled(before: Stream, after: Stream, factor: u32, is_tofino2: bool) -> bool {
    let size = wire_size(before);
    let rate = crate::validate::max_rate(is_tofino2);
    &&& after.n_packets is Some
    &&& after.timeout is Some
    &&& after == Stream { n_packets: after.n_packets, timeout: after.timeout, ..before }
    &&& exists|t: u32|
        {
            &&& #[trigger] clip_u32(t * factor) == after.timeout->0
            &&& is_pacing(size as u32, rate, POISSON_BURST, after.n_packets->0, t)
        }
}

/// Schedules the streams of a request: each gets its pacing, its accuracy
/// and the number of pipes. The one stream of random traffic is then paced
/// anew, at the highest rate of the device.
pub fn schedule_streams(streams: Vec<Stream>, mode: GenerationMode, is_tofino2: bool) -> (scheduled:
    Vec<Stream>)
    requires
        forall|i: int| 0 <= i < streams@.len() ==> is_schedulable(#[trigger] streams@[i]),
    ensures
        scheduled@.len() == streams@.len(),
        forall|i: int|
            0 <= i < streams@.len() && !(mode == GenerationMode::Poisson && i == 0)
                ==> is_scheduled(
                streams@[i],
                #[trigger] scheduled@[i],
                mode,
                timeout_factor_of(streams@, mode, is_tofino2),
            ),
        mode == GenerationMode::Poisson && streams@.len() > 0 ==> exists|first: Stream|
            {
                &&& #[trigger] is_scheduled(
                    streams@[0],
                    first,
                    mode,
                    timeout_factor_of(streams@, mode, is_tofino2),
                )
                &&& is_poisson_scheduled(
                    first,
                    scheduled@[0],
                    timeout_factor_of(streams@, mode, is_tofino2),
                    is_tofino2,
                )
            },
{
    let factor = timeout_factor(&streams, mode, is_tofino2);
    let mut scheduled: Vec<Stream> = Vec::new();
    let mut i: usize = 0;
    while i < streams.len()
        invariant
            i <= streams@.len(),
            1 <= factor <= 4,
            factor == timeout_factor_of(streams@, mode, is_tofino2),
            forall|k: int| 0 <= k < streams@.len() ==> is_schedulable(#[trigger] streams@[k]),
            scheduled@.len() == i,
            forall|k: int|
                0 <= k < i ==> is_scheduled(streams@[k], #[trigger] scheduled@[k], mode, factor),
        decreases streams@.len() - i,
    {
        let stream = streams[i];
        assert(is_schedulable(streams@[i as int]));
        scheduled.push(schedule_stream(&stream, mode, factor));
        i = i + 1;
    }
    let random = match mode {
        GenerationMode::Poisson => true,
        _ => false,
    };
    if random && scheduled.len() > 0 {
        let first = scheduled[0];
        assert(is_scheduled(streams@[0], first, mode, factor));
        assert(is_schedulable(streams@[0]));
        let size: u32 = first.frame_size + calculate_overhead(&first) + L1_OVERHEAD;
        let (n, t) = calculate_send_behaviour(size, max_generation_rate(is_tofino2), POISSON_BURST);
        assert(t * factor <= 0xFFFF_FFFF * 4) by (nonlinear_arith)
            requires
                t <= 0xFFFF_FFFF,
                factor <= 4,
        ;
        let timeout: u64 = (t as u64) * (factor as u64);
        let timeout: u32 = if timeout > u32::MAX as u64 {
            u32::MAX
        } else {
            timeout as u32
        };
        let paced = Stream { n_packets: Some(n), timeout: Some(timeout), ..first };
        proof {
            assert(clip_u32(t * factor) == timeout);
            assert(wire_size(first) == wire_size(streams@[0]));
            assert(is_poisson_scheduled(first, paced, factor, is_tofino2));
        }
        scheduled[0] = paced;
    }
    scheduled
}

/// Why a test cannot be started.
#[derive(Clone, Copy, Debug, PartialEq, Eq, Structural)]
pub enum StartError {
    /// The request breaks a rule.
    Invalid { rule: ValidationError },
    /// The histograms of the request cannot be taken.
    Histogram { error: HistogramError },
}

/// The streams and settings of a request that are to be generated.
#[derive(Clone, Debug)]
pub struct ActiveTest {
    pub streams: Vec<Stream>,
    pub settings: Vec<StreamSetting>,
}

/// The histograms that a request asks for.
pub open spec fn requested_of(config: Option<Vec<PortHistogramConfig>>) -> Seq<PortHistogramConfig> {
    match config {
        Some(config) => config@,
        None => Seq::empty(),
    }
}

/// The number of streams does not suit the generation mode.
pub open spec fn is_miscounted(mode: GenerationMode, streams: int) -> bool {
    ||| mode == GenerationMode::Poisson && streams != 1
    ||| mode == GenerationMode::Analyze && streams != 0
}

/// The histograms are those of the request, with the default for every
/// receiving port that the request leaves out, and none of them holds data.
pub open spec fn is_installed(
    before: HistogramMonitor,
    after: HistogramMonitor,
    requested: Seq<PortHistogramConfig>,
    mapping: Seq<TxRxMapping>,
) -> bool {
    &&& first_unknown_port(before.port_mapping@, requested, 0) == requested.len()
    &&& configs_of(after.histogram@) == with_receive_defaults(
        requested_histograms(requested, requested.len() as int),
        mapping,
        mapping.len() as int,
    )
    &&& forall|i: int|
        0 <= i < after.histogram@.len() ==> (#[trigger] after.histogram@[i]).histogram.data.is_empty()
}

/// Prepares a single test: picks the streams and settings that are in use,
/// checks that their number suits the generation mode, takes the
/// histograms of the request, and validates the request. Returns the
/// streams and settings that are to be generated.
pub fn start_single_test(
    payload: TrafficGenData,
    histograms: &mut HistogramMonitor,
    available_ports: &Vec<PortMapping>,
    is_tofino2: bool,
) -> (r: Result<ActiveTest, StartError>)
    ensures
        final(histograms).port_mapping == old(histograms).port_mapping,
        old(histograms).wf() ==> final(histograms).wf(),
        match r {
            Ok(test) => {
                &&& test.settings@ == active_settings_of(payload.stream_settings@)
                &&& test.streams@ == active_streams_of(payload.streams@, payload.stream_settings@)
                &&& !is_miscounted(payload.mode, test.streams@.len() as int)
                &&& is_installed(
                    *old(histograms),
                    *final(histograms),
                    requested_of(payload.histogram_config),
                    payload.port_tx_rx_mapping@,
                )
                &&& request_error(
                    test.streams@,
                    test.settings@,
                    payload.mode,
                    payload.port_tx_rx_mapping@,
                    available_ports@,
                    is_tofino2,
                ) is None
            },
            Err(StartError::Invalid { rule }) => {
                let streams = active_streams_of(payload.streams@, payload.stream_settings@);
                if payload.mode == GenerationMode::Poisson && streams.len() != 1 {
                    &&& rule == ValidationError::PoissonNeedsOneStream
                    &&& final(histograms).histogram == old(histograms).histogram
                } else if payload.mode == GenerationMode::Analyze && streams.len() != 0 {
                    &&& rule == ValidationError::AnalyzeTakesNoStream
                    &&& final(histograms).histogram == old(histograms).histogram
                } else {
                    &&& is_installed(
                        *old(histograms),
                        *final(histograms),
                        requested_of(payload.histogram_config),
                        payload.port_tx_rx_mapping@,
                    )
                    &&& request_error(
                        streams,
                        active_settings_of(payload.stream_settings@),
                        payload.mode,
                        payload.port_tx_rx_mapping@,
                        available_ports@,
                        is_tofino2,
                    ) == Some(rule)
                }
            },
            Err(StartError::Histogram { error }) => {
                let streams = active_streams_of(payload.streams@, payload.stream_settings@);
                let requested = requested_of(payload.histogram_config);
                let k = first_unknown_port(old(histograms).port_mapping@, requested, 0);
                &&& !is_miscounted(payload.mode, streams.len() as int)
                &&& k < requested.len()
                &&& error == HistogramError::UnknownPort { port: requested[k].port }
                &&& configs_of(final(histograms).histogram@) == requested_histograms(requested, k)
            },
        },
{
    let streams = active_streams(&payload.streams, &payload.stream_settings);
    let active = active_stream_settings(payload.stream_settings);
    match check_stream_count(payload.mode, streams.len()) {
        Ok(_) => {},
        Err(rule) => {
            return Err(StartError::Invalid { rule });
        },
    }
    let none: Vec<PortHistogramConfig> = Vec::new();
    let requested = match &payload.histogram_config {
        Some(config) => config,
        None => &none,
    };
    match histograms.install(requested, &payload.port_tx_rx_mapping) {
        Ok(_) => {},
        Err(error) => {
            return Err(StartError::Histogram { error });
        },
    }
    match validate_request(
        &streams,
        &active,
        &payload.mode,
        &payload.port_tx_rx_mapping,
        available_ports,
        is_tofino2,
    ) {
        Ok(_) => {},
        Err(rule) => {
            return Err(StartError::Invalid { rule });
        },
    }
    Ok(ActiveTest { streams, settings: active })
}

} // verus!
