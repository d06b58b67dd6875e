//! How a stream is paced: the number of packets that are sent in one batch
//! and the time between two batches.
//!
//! A frame of `frame_size` bytes on the wire has `8 * frame_size` bits. With
//! `n` packets every `t` nanoseconds at a target rate of `rate` bits per
//! second, the slack `t * rate - 10^9 * n * 8 * frame_size` is the number of
//! bits, in billionths, by which a batch falls short of what the target rate
//! carries in the time between two batches.

use vstd::prelude::*;

verus! {

/// Billionths in a whole: a rate in bits per second times a time in
/// nanoseconds is a number of bits in billionths.
pub const NANO: u64 = 1_000_000_000;

/// A batch may carry up to one bit more than the target rate does.
pub const SLACK_BELOW: u64 = 1_000_000_000;

/// A batch may fall short of the target rate by up to a hundred bits.
pub const SLACK_ABOVE: u64 = 100_000_000_000;

/// Shortest time between two batches of more than one packet, in
/// nanoseconds.
pub const MIN_BURST_TIMEOUT: u32 = 30;

/// What is returned where no pacing reproduces the target rate.
pub open spec fn infeasible() -> (u16, u32) {
    (0u16, 100u32)
}

/// A burst of one asks for even gaps between packets, any other for an
/// exact rate.
pub open spec fn is_bursting(max_burst: u16) -> bool {
    max_burst != 1
}

/// Fewest packets in a batch.
pub open spec fn min_packets(max_burst: u16) -> int {
    if is_bursting(max_burst) {
        2
    } else {
        1
    }
}

/// Most packets in a batch. With even gaps it is one. Otherwise it grows
/// with the part of the ideal gap between two packets that is no whole
/// number of nanoseconds: a thousandth of the gap's length allows one packet
/// more, and thirty packets are always allowed.
pub open spec fn max_packets(frame_size: u32, rate: u64, max_burst: u16) -> int {
    let bits = 8 * frame_size as int * NANO as int;
    if !is_bursting(max_burst) {
        1
    } else if rate == 0 || frame_size == 0 {
        30
    } else if (bits % rate as int) / (8 * frame_size as int * 1_000_000) + 1 > 30 {
        (bits % rate as int) / (8 * frame_size as int * 1_000_000) + 1
    } else {
        30
    }
}

/// Shortest time between two batches, in nanoseconds.
pub open spec fn min_timeout(max_burst: u16) -> int {
    if is_bursting(max_burst) {
        MIN_BURST_TIMEOUT as int
    } else {
        1
    }
}

/// Bits of `n` frames on the wire.
pub open spec fn batch_bits(frame_size: u32, n: int) -> int {
    n * (8 * frame_size as int)
}

/// Bits, in billionths, by which `n` packets fall short of what the target
/// rate carries in `t` nanoseconds.
pub open spec fn slack(frame_size: u32, rate: u64, n: int, t: int) -> int {
    t * rate as int - NANO as int * batch_bits(frame_size, n)
}

/// `n` packets every `t` nanoseconds is a pacing for the stream: both are
/// within their bounds, and the slack is within its band.
pub open spec fn is_feasible(frame_size: u32, rate: u64, max_burst: u16, n: int, t: int) -> bool {
    &&& min_packets(max_burst) <= n <= max_packets(frame_size, rate, max_burst)
    &&& min_timeout(max_burst) <= t <= u32::MAX
    &&& -(SLACK_BELOW as int) <= slack(frame_size, rate, n, t) <= SLACK_ABOVE as int
}

/// What a pacing costs, in billionths: the bits that it falls short, one
/// for each packet of a batch, and where batches have more than one packet,
/// one for each nanosecond between two batches.
pub open spec fn cost(frame_size: u32, rate: u64, max_burst: u16, n: int, t: int) -> int {
    let short = if slack(frame_size, rate, n, t) > 0 {
        slack(frame_size, rate, n, t)
    } else {
        0
    };
    short + NANO as int * n + if is_bursting(max_burst) {
        NANO as int * t
    } else {
        0
    }
}

/// `(n, t)` is the best pacing: none costs less, and of those that cost as
/// little none has fewer packets, or as many and a shorter time.
pub open spec fn is_best(frame_size: u32, rate: u64, max_burst: u16, n: int, t: int) -> bool {
    &&& is_feasible(frame_size, rate, max_burst, n, t)
    &&& forall|m: int, u: int| #[trigger]
        is_feasible(frame_size, rate, max_burst, m, u) ==> {
            ||| cost(frame_size, rate, max_burst, n, t) < cost(frame_size, rate, max_burst, m, u)
            ||| cost(frame_size, rate, max_burst, n, t) == cost(frame_size, rate, max_burst, m, u)
                && (n < m || n == m && t <= u)
        }
}

/// The achieved rate of `n` packets every `t` nanoseconds is at least
/// `percent` in a hundred of the target rate.
pub open spec fn achieves(frame_size: u32, rate: u64, n: int, t: int, percent: int) -> bool {
    percent * (t * rate as int) <= 100 * (NANO as int * batch_bits(frame_size, n))
}

/// The accuracy of a pacing: with the slack in its band, the achieved rate
/// is above the target rate by no more than a bit per time between batches,
/// and it reaches `percent` in a hundred of the target rate as soon as the
/// bits of a batch, less one, times what is missing of `percent` to a
/// hundred make up ten thousand.
pub proof fn lemma_feasible_is_accurate(
    frame_size: u32,
    rate: u64,
    max_burst: u16,
    n: int,
    t: int,
    percent: int,
)
    requires
        is_feasible(frame_size, rate, max_burst, n, t),
        0 <= percent <= 100,
        (100 - percent) * (batch_bits(frame_size, n) - 1) >= 100 * percent,
    ensures
        n >= 1,
        NANO as int * batch_bits(frame_size, n) <= t * rate as int + NANO as int,
        achieves(frame_size, rate, n, t, percent),
{
    let bits = batch_bits(frame_size, n);
    let carried = t * rate as int;
    let g = NANO as int;
    assert(carried >= 0 && bits >= 0) by (nonlinear_arith)
        requires
            carried == t * rate as int,
            bits == n * (8 * frame_size as int),
            t >= 0,
            n >= 1,
    ;
    assert(carried - g * bits <= 100 * g);
    assert(g * bits - carried <= g);
    assert(percent * carried <= 100 * (g * bits)) by (nonlinear_arith)
        requires
            carried <= g * bits + 100 * g,
            0 <= percent <= 100,
            (100 - percent) * (bits - 1) >= 100 * percent,
            g == 1_000_000_000,
            carried >= 0,
            bits >= 0,
    ;
}

/// With even gaps between packets, a pacing of a frame of at least 84
/// bytes on the wire achieves at least 85 in a hundred of the target rate.
pub proof fn lemma_even_gaps_accuracy(frame_size: u32, rate: u64, n: int, t: int)
    requires
        frame_size >= 84,
        is_feasible(frame_size, rate, 1, n, t),
    ensures
        n == 1,
        achieves(frame_size, rate, n, t, 85),
{
    lemma_feasible_is_accurate(frame_size, rate, 1, n, t, 85);
}

/// With batches of more than one packet, any pacing of a frame of at least
/// 126 bytes on the wire achieves at least 95 in a hundred of the target
/// rate, and any of a frame of at least 84 bytes at least 92.
pub proof fn lemma_burst_accuracy(frame_size: u32, rate: u64, max_burst: u16, n: int, t: int)
    requires
        max_burst != 1,
        frame_size >= 84,
        is_feasible(frame_size, rate, max_burst, n, t),
    ensures
        n >= 2,
        achieves(frame_size, rate, n, t, 92),
        frame_size >= 126 ==> achieves(frame_size, rate, n, t, 95),
{
    let b = 8 * frame_size as int;
    assert(n * b >= 2 * b) by (nonlinear_arith)
        requires
            n >= 2,
            b >= 0,
    ;
    lemma_feasible_is_accurate(frame_size, rate, max_burst, n, t, 92);
    if frame_size >= 126 {
        lemma_feasible_is_accurate(frame_size, rate, max_burst, n, t, 95);
    }
}

/// With batches of more than one packet, the best pacing of a frame of at
/// least 84 bytes on the wire achieves at least 95 in a hundred of the
/// target rate. A batch of three or more is that accurate wherever its slack
/// is in the band. A batch of two that is less accurate is never the best:
/// a shorter time would do for it, or a batch of three costs less.
pub proof fn lemma_best_burst_accuracy(frame_size: u32, rate: u64, max_burst: u16, n: int, t: int)
    requires
        max_burst != 1,
        frame_size >= 84,
        is_best(frame_size, rate, max_burst, n, t),
    ensures
        achieves(frame_size, rate, n, t, 95),
{
    let g = NANO as int;
    let b = 8 * frame_size as int;
    let r = rate as int;
    if frame_size >= 126 {
        lemma_burst_accuracy(frame_size, rate, max_burst, n, t);
    } else if n >= 3 {
        assert(n * b >= 3 * b) by (nonlinear_arith)
            requires
                n >= 3,
                b >= 0,
        ;
        lemma_feasible_is_accurate(frame_size, rate, max_burst, n, t, 95);
    } else if !achieves(frame_size, rate, n, t, 95) {
        assert(n == 2);
        assert(batch_bits(frame_size, 2) == 2 * b);
        assert(batch_bits(frame_size, 3) == 3 * b);
        let carried = t * r;
        let short = carried - g * (2 * b);
        assert(slack(frame_size, rate, 2, t) == short);
        assert(95 * carried > 100 * (g * (2 * b)));
        assert(r > 0) by (nonlinear_arith)
            requires
                carried == t * r,
                carried > 0,
                t >= 0,
                r >= 0,
        ;
        if t >= 31 {
            assert((t - 1) * r == carried - r) by (nonlinear_arith)
                requires
                    carried == t * r,
            ;
            assert(slack(frame_size, rate, 2, t - 1) == short - r);
            assert(carried >= 31 * r) by (nonlinear_arith)
                requires
                    carried == t * r,
                    t >= 31,
                    r >= 0,
            ;
            if is_feasible(frame_size, rate, max_burst, 2, t - 1) {
                assert(cost(frame_size, rate, max_burst, 2, t - 1) < cost(
                    frame_size,
                    rate,
                    max_burst,
                    2,
                    t,
                ));
                assert(false);
            }
            assert(false);
        } else {
            assert(t == 30);
            assert(carried == 30 * r);
            let need = g * (3 * b) - g;
            let u = (need + r - 1) / r;
            assert(u * r >= need && (u - 1) * r < need) by (nonlinear_arith)
                requires
                    u == (need + r - 1) / r,
                    r > 0,
                    need >= 0,
            ;
            let more = u * r;
            assert(u >= 31) by (nonlinear_arith)
                requires
                    more == u * r,
                    more > 30 * r,
                    r > 0,
            ;
            assert(u <= 43) by (nonlinear_arith)
                requires
                    (u - 1) * r < need,
                    43 * r >= need,
                    r > 0,
            ;
            assert(more - r < need) by (nonlinear_arith)
                requires
                    more == u * r,
                    (u - 1) * r < need,
            ;
            assert(slack(frame_size, rate, 3, u) == more - g * (3 * b));
            assert(max_packets(frame_size, rate, max_burst) >= 30);
            assert(is_feasible(frame_size, rate, max_burst, 3, u));
            assert(cost(frame_size, rate, max_burst, 3, u) < cost(frame_size, rate, max_burst, 2, t));
            assert(false);
        }
    }
}

/// The first pacing is at least as good as the second: it costs less, or
/// as much with fewer packets, or as much with as many packets and no
/// longer a time.
pub open spec fn no_worse(
    frame_size: u32,
    rate: u64,
    max_burst: u16,
    n: int,
    t: int,
    m: int,
    u: int,
) -> bool {
    ||| cost(frame_size, rate, max_burst, n, t) < cost(frame_size, rate, max_burst, m, u)
    ||| cost(frame_size, rate, max_burst, n, t) == cost(frame_size, rate, max_burst, m, u) && (n
        < m || n == m && t <= u)
}

/// Least time `t` with `t * rate >= need`.
fn least_timeout(need: u128, rate: u64) -> (t: u128)
    requires
        rate > 0,
        need <= 0xFFFF_FFFF_FFFF_FFFF_FFFF_FFFF,
    ensures
        t * rate >= need,
        t > 0 ==> (t - 1) * rate < need,
        t <= need,
{
    let t = (need + (rate as u128 - 1)) / (rate as u128);
    assert(t * rate >= need && (t > 0 ==> (t - 1) * rate < need) && t <= need)
        by (nonlinear_arith)
        requires
            t == (need + (rate - 1)) / (rate as int),
            rate > 0,
            need >= 0,
    ;
    t
}

/// Most packets in a batch.
fn compute_max_packets(frame_size: u32, rate: u64, max_burst: u16) -> (n: u64)
    ensures
        n == max_packets(frame_size, rate, max_burst),
        1 <= n <= 1001,
{
    if max_burst == 1 {
        return 1;
    }
    if rate == 0 || frame_size == 0 {
        return 30;
    }
    let frame_bits: u64 = 8 * (frame_size as u64);
    let bits: u128 = (frame_bits as u128) * 1_000_000_000;
    let rest: u128 = bits % (rate as u128);
    assert(rest <= bits) by (nonlinear_arith)
        requires
            rest == bits % (rate as u128),
            rate > 0,
    ;
    let unit: u128 = (frame_bits as u128) * 1_000_000;
    let allowed: u128 = rest / unit + 1;
    assert(allowed <= 1001) by (nonlinear_arith)
        requires
            allowed == rest / unit + 1,
            rest <= bits,
            bits == frame_bits * 1_000_000_000,
            unit == frame_bits * 1_000_000,
            frame_bits > 0,
    ;
    if allowed > 30 {
        allowed as u64
    } else {
        30
    }
}

/// The least time for batches of `n` packets that keeps the slack within
/// its band, if there is one.
fn best_timeout(frame_size: u32, rate: u64, max_burst: u16, n: u64) -> (found: Option<u32>)
    requires
        min_packets(max_burst) <= n <= max_packets(frame_size, rate, max_burst),
        n <= 1001,
    ensures
        match found {
            Some(t) => {
                &&& is_feasible(frame_size, rate, max_burst, n as int, t as int)
                &&& forall|u: int| #[trigger]
                    is_feasible(frame_size, rate, max_burst, n as int, u) ==> t <= u && cost(
                        frame_size,
                        rate,
                        max_burst,
                        n as int,
                        t as int,
                    ) <= cost(frame_size, rate, max_burst, n as int, u)
            },
            None => forall|u: int| !#[trigger] is_feasible(frame_size, rate, max_burst, n as int, u),
        },
{
    let shortest: u128 = if max_burst == 1 {
        1
    } else {
        MIN_BURST_TIMEOUT as u128
    };
    let frame_bits: u64 = 8 * (frame_size as u64);
    assert(n * frame_bits <= 1001 * 0x7_FFFF_FFF8) by (nonlinear_arith)
        requires
            n <= 1001,
            frame_bits <= 0x7_FFFF_FFF8,
    ;
    let batch: u64 = n * frame_bits;
    let bits: u128 = (batch as u128) * 1_000_000_000;
    proof {
        assert(batch == batch_bits(frame_size, n as int));
        assert(bits == NANO as int * batch_bits(frame_size, n as int));
    }
    if rate == 0 {
        if bits <= SLACK_BELOW as u128 {
            proof {
                assert forall|u: int| #[trigger]
                    is_feasible(frame_size, rate, max_burst, n as int, u) implies shortest <= u
                    && cost(frame_size, rate, max_burst, n as int, shortest as int) <= cost(
                    frame_size,
                    rate,
                    max_burst,
                    n as int,
                    u,
                ) by {
                    assert(u * 0 == 0 && shortest * 0 == 0) by (nonlinear_arith);
                }
                assert(shortest * 0 == 0) by (nonlinear_arith);
            }
            return Some(shortest as u32);
        } else {
            proof {
                assert forall|u: int| !#[trigger] is_feasible(
                    frame_size,
                    rate,
                    max_burst,
                    n as int,
                    u,
                ) by {
                    assert(u * 0 == 0) by (nonlinear_arith);
                }
            }
            return None;
        }
    }
    let need: u128 = if bits >= SLACK_BELOW as u128 {
        bits - SLACK_BELOW as u128
    } else {
        0
    };
    let least = least_timeout(need, rate);
    let t: u128 = if least < shortest {
        shortest
    } else {
        least
    };
    proof {
        assert(t * rate >= need) by (nonlinear_arith)
            requires
                least * rate >= need,
                t >= least,
                rate > 0,
        ;
        assert forall|u: int| #[trigger]
            is_feasible(frame_size, rate, max_burst, n as int, u) implies t <= u && u * rate
            >= t * rate by {
            assert(u * rate >= need);
            if u < least {
                assert(u * rate <= (least - 1) * rate) by (nonlinear_arith)
                    requires
                        u <= least - 1,
                        rate > 0,
                ;
            }
            assert(u * rate >= t * rate) by (nonlinear_arith)
                requires
                    u >= t,
                    rate > 0,
            ;
        }
    }
    if t > u32::MAX as u128 {
        return None;
    }
    assert(t * rate <= 0xFFFF_FFFF * 0xFFFF_FFFF_FFFF_FFFF) by (nonlinear_arith)
        requires
            t <= 0xFFFF_FFFF,
            rate <= 0xFFFF_FFFF_FFFF_FFFF,
    ;
    let carried: u128 = t * (rate as u128);
    if carried > bits + SLACK_ABOVE as u128 {
        return None;
    }
    Some(t as u32)
}

/// What the pacing of `n` packets every `t` nanoseconds costs.
fn compute_cost(frame_size: u32, rate: u64, max_burst: u16, n: u64, t: u32) -> (c: u128)
    requires
        is_feasible(frame_size, rate, max_burst, n as int, t as int),
        n <= 1001,
    ensures
        c == cost(frame_size, rate, max_burst, n as int, t as int),
{
    let frame_bits: u64 = 8 * (frame_size as u64);
    assert(n * frame_bits <= 1001 * 0x7_FFFF_FFF8) by (nonlinear_arith)
        requires
            n <= 1001,
            frame_bits <= 0x7_FFFF_FFF8,
    ;
    let batch: u64 = n * frame_bits;
    let bits: u128 = (batch as u128) * 1_000_000_000;
    assert(t * rate <= 0xFFFF_FFFF * 0xFFFF_FFFF_FFFF_FFFF) by (nonlinear_arith)
        requires
            t <= 0xFFFF_FFFF,
            rate <= 0xFFFF_FFFF_FFFF_FFFF,
    ;
    let carried: u128 = (t as u128) * (rate as u128);
    let short: u128 = if carried > bits {
        carried - bits
    } else {
        0
    };
    let per_time: u128 = if max_burst == 1 {
        0
    } else {
        (t as u128) * 1_000_000_000
    };
    short + (n as u128) * 1_000_000_000 + per_time
}

/// Finds the number of packets that are sent in one batch and the time in
/// nanoseconds between two batches, for a stream whose frames have
/// `frame_size` bytes on the wire and whose target rate is `traffic_rate`
/// bits per second. A `max_burst` of one asks for even gaps between
/// packets.
///
/// The result is the pacing of least cost among those that keep the slack
/// within its band; the one with the fewest packets and then the shortest
/// time where several cost the same. Where there is none, the result is
/// zero packets every hundred nanoseconds.
pub fn calculate_send_behaviour(frame_size: u32, traffic_rate: u64, max_burst: u16) -> (r: (
    u16,
    u32,
))
    ensures
        (exists|n: int, t: int| is_feasible(frame_size, traffic_rate, max_burst, n, t)) ==> is_best(
            frame_size,
            traffic_rate,
            max_burst,
            r.0 as int,
            r.1 as int,
        ),
        !(exists|n: int, t: int| is_feasible(frame_size, traffic_rate, max_burst, n, t)) ==> r
            == infeasible(),
        r == infeasible() || r.0 >= 1,
        r != infeasible() && frame_size >= 84 ==> achieves(
            frame_size,
            traffic_rate,
            r.0 as int,
            r.1 as int,
            if max_burst == 1 {
                85
            } else {
                95
            },
        ),
{
    let fewest: u64 = if max_burst == 1 {
        1
    } else {
        2
    };
    let most = compute_max_packets(frame_size, traffic_rate, max_burst);
    let mut best: Option<(u64, u32, u128)> = None;
    let mut n: u64 = fewest;
    while n <= most
        invariant
            fewest == min_packets(max_burst),
            most == max_packets(frame_size, traffic_rate, max_burst),
            most <= 1001,
            fewest <= n <= most + 1,
            match best {
                Some((bn, bt, bc)) => {
                    &&& bn < n
                    &&& is_feasible(frame_size, traffic_rate, max_burst, bn as int, bt as int)
                    &&& bc == cost(frame_size, traffic_rate, max_burst, bn as int, bt as int)
                    &&& forall|m: int, u: int| #[trigger]
                        is_feasible(frame_size, traffic_rate, max_burst, m, u) && m < n
                            ==> no_worse(
                            frame_size,
                            traffic_rate,
                            max_burst,
                            bn as int,
                            bt as int,
                            m,
                            u,
                        )
                },
                None => forall|m: int, u: int| #[trigger]
                    is_feasible(frame_size, traffic_rate, max_burst, m, u) ==> m >= n,
            },
        decreases most + 1 - n,
    {
        match best_timeout(frame_size, traffic_rate, max_burst, n) {
            None => {},
            Some(t) => {
                let c = compute_cost(frame_size, traffic_rate, max_burst, n, t);
                let better = match best {
                    None => true,
                    Some((_, _, bc)) => c < bc,
                };
                if better {
                    best = Some((n, t, c));
                }
            },
        }
        n = n + 1;
    }
    match best {
        None => (0, 100),
        Some((bn, bt, _)) => {
            proof {
                if frame_size >= 84 {
                    if max_burst == 1 {
                        lemma_even_gaps_accuracy(frame_size, traffic_rate, bn as int, bt as int);
                    } else {
                        assert(is_best(frame_size, traffic_rate, max_burst, bn as int, bt as int));
                        lemma_best_burst_accuracy(
                            frame_size,
                            traffic_rate,
                            max_burst,
                            bn as int,
                            bt as int,
                        );
                    }
                }
            }
            (bn as u16, bt)
        },
    }
}

} // verus!
