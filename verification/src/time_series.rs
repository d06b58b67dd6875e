//! Per-second history of a measured value over the current run.

use vstd::prelude::*;

verus! {

/// A value at a whole second of the run.
#[derive(Clone, Copy, Debug, PartialEq, Eq, Structural)]
pub struct TimePoint {
    /// Seconds since the start of the run.
    pub second: u32,
    pub value: u64,
}

/// The history of one value: at most one point per second, in the order of
/// time.
#[derive(Clone, Debug)]
pub struct TimeSeries {
    pub points: Vec<TimePoint>,
}

/// The points are in the order of time, and no two are of the same second.
pub open spec fn is_ordered(points: Seq<TimePoint>) -> bool {
    forall|i: int, j: int|
        0 <= i < j < points.len() ==> (#[trigger] points[i]).second < (#[trigger] points[j]).second
}

/// The points without those at the end that are not before `second`. Of an
/// ordered history these are all points before `second`.
pub open spec fn pruned(points: Seq<TimePoint>, second: u32) -> Seq<TimePoint>
    decreases points.len(),
{
    if points.len() == 0 || points.last().second < second {
        points
    } else {
        pruned(points.drop_last(), second)
    }
}

/// The history after a value has been recorded at `second`: the points
/// before that second, and the new point.
pub open spec fn recorded(points: Seq<TimePoint>, second: u32, value: u64) -> Seq<TimePoint> {
    pruned(points, second).push(TimePoint { second, value })
}

/// The points whose second is a multiple of `step`, in their order.
pub open spec fn every_nth(points: Seq<TimePoint>, step: int) -> Seq<TimePoint>
    decreases points.len(),
{
    if points.len() == 0 {
        points
    } else if points.last().second as int % step == 0 {
        every_nth(points.drop_last(), step).push(points.last())
    } else {
        every_nth(points.drop_last(), step)
    }
}

/// The latest second of the points; zero where there is none.
pub open spec fn top_second(points: Seq<TimePoint>) -> int
    decreases points.len(),
{
    if points.len() == 0 {
        0
    } else if points.last().second > top_second(points.drop_last()) {
        points.last().second as int
    } else {
        top_second(points.drop_last())
    }
}

/// Number of seconds that a decimation spans: from second zero to the
/// later of the elapsed seconds and the latest point.
pub open spec fn span_of(points: Seq<TimePoint>, elements: u32) -> int {
    if top_second(points) > elements {
        top_second(points) + 1
    } else {
        elements + 1
    }
}

/// The step of the decimation that brings a history down to at most
/// `limit` points, for a limit above zero: the span over the limit,
/// rounded up, and one where the span is within the limit.
pub open spec fn decimation_step(points: Seq<TimePoint>, elements: u32, limit: usize) -> int {
    if limit >= span_of(points, elements) {
        1
    } else {
        (span_of(points, elements) + limit - 1) / limit as int
    }
}

/// The history thinned out to at most `limit` points: all of it without a
/// limit, nothing with a limit of zero, and else the points whose second is
/// a multiple of the step.
pub open spec fn decimated(points: Seq<TimePoint>, elements: u32, limit: Option<usize>) -> Seq<
    TimePoint,
> {
    match limit {
        None => points,
        Some(l) => if l == 0 {
            Seq::empty()
        } else {
            every_nth(points, decimation_step(points, elements, l))
        },
    }
}

/// Every point is in every first second.
pub proof fn lemma_every_first(points: Seq<TimePoint>)
    ensures
        every_nth(points, 1) == points,
    decreases points.len(),
{
    if points.len() > 0 {
        lemma_every_first(points.drop_last());
        assert(points.drop_last().push(points.last()) =~= points);
    }
}

/// No point is later than the latest second.
pub proof fn lemma_top_second(points: Seq<TimePoint>, i: int)
    requires
        0 <= i < points.len(),
    ensures
        points[i].second <= top_second(points),
    decreases points.len(),
{
    if i < points.len() - 1 {
        lemma_top_second(points.drop_last(), i);
    }
}

/// Of an ordered history, at most one point falls on each multiple of the
/// step up to its last second.
pub proof fn lemma_every_nth_is_few(points: Seq<TimePoint>, step: int)
    requires
        is_ordered(points),
        step >= 1,
    ensures
        points.len() == 0 ==> every_nth(points, step).len() == 0,
        points.len() > 0 ==> every_nth(points, step).len() <= points.last().second as int / step
            + 1,
    decreases points.len(),
{
    if points.len() > 0 {
        let rest = points.drop_last();
        let last = points.last().second as int;
        assert(is_ordered(rest)) by {
            assert forall|i: int, j: int| 0 <= i < j < rest.len() implies (#[trigger] rest[i]).second
                < (#[trigger] rest[j]).second by {
                assert(rest[i] == points[i] && rest[j] == points[j]);
            }
        }
        lemma_every_nth_is_few(rest, step);
        assert(0 <= last / step) by (nonlinear_arith)
            requires
                0 <= last,
                step >= 1,
        ;
        if rest.len() > 0 {
            let before = rest.last().second as int;
            assert(before < last) by {
                assert(rest.last() == points[points.len() - 2]);
                assert(points[points.len() - 2].second < points[points.len() - 1].second);
            }
            vstd::arithmetic::div_mod::lemma_div_is_ordered(before, last, step);
            if last % step == 0 {
                vstd::arithmetic::div_mod::lemma_fundamental_div_mod(last, step);
                let q = last / step;
                assert(before / step < q) by (nonlinear_arith)
                    requires
                        0 <= before < step * q,
                        step >= 1,
                ;
            }
        }
    }
}

/// The decimation keeps at most `limit` points of an ordered history.
pub proof fn lemma_decimated_is_within_limit(points: Seq<TimePoint>, elements: u32, limit: usize)
    requires
        is_ordered(points),
    ensures
        decimated(points, elements, Some(limit)).len() <= limit,
{
    if limit > 0 && points.len() > 0 {
        let span = span_of(points, elements);
        let step = decimation_step(points, elements, limit);
        let last = points.last().second as int;
        lemma_top_second(points, points.len() - 1);
        assert(1 <= step <= span && step * limit >= span) by {
            if limit < span {
                vstd::arithmetic::div_mod::lemma_fundamental_div_mod(
                    span + limit - 1,
                    limit as int,
                );
                let q = (span + limit - 1) / limit as int;
                let r = (span + limit - 1) % limit as int;
                assert(0 <= r < limit) by (nonlinear_arith)
                    requires
                        r == (span + limit - 1) % limit as int,
                        limit > 0,
                ;
                assert(q * limit >= span && 1 <= q <= span) by (nonlinear_arith)
                    requires
                        span + limit - 1 == limit * q + r,
                        0 <= r < limit,
                        0 < limit < span,
                ;
            }
        }
        lemma_every_nth_is_few(points, step);
        assert(last / step < limit) by (nonlinear_arith)
            requires
                0 <= last < step * limit,
                step >= 1,
        ;
    }
}

/// Pruning an ordered history leaves a beginning of it: the points before
/// `second`, all of them, and nothing else.
pub proof fn lemma_pruned(points: Seq<TimePoint>, second: u32)
    requires
        is_ordered(points),
    ensures
        pruned(points, second).len() <= points.len(),
        pruned(points, second) == points.subrange(0, pruned(points, second).len() as int),
        forall|i: int|
            0 <= i < points.len() ==> (i < pruned(points, second).len() <==> (
            #[trigger] points[i]).second < second),
        is_ordered(recorded(points, second, 0)),
    decreases points.len(),
{
    let kept = pruned(points, second);
    if points.len() == 0 || points.last().second < second {
        assert(points.subrange(0, points.len() as int) =~= points);
        assert forall|i: int| 0 <= i < points.len() implies (#[trigger] points[i]).second
            < second by {
            if i < points.len() - 1 {
                assert(points[i].second < points[points.len() - 1].second);
            }
        }
    } else {
        let rest = points.drop_last();
        lemma_pruned(rest, second);
        assert(kept =~= points.subrange(0, kept.len() as int));
        assert forall|i: int| 0 <= i < points.len() implies (i < kept.len() <==> (
        #[trigger] points[i]).second < second) by {
            if i < rest.len() {
                assert(rest[i] == points[i]);
            }
        }
    }
    let after = recorded(points, second, 0);
    assert forall|i: int, j: int| 0 <= i < j < after.len() implies (#[trigger] after[i]).second < (
    #[trigger] after[j]).second by {
        assert(after[i] == points[i]);
        if j < kept.len() {
            assert(after[j] == points[j]);
        }
    }
}

/// Recording keeps a history ordered, whatever the value.
pub proof fn lemma_recorded_is_ordered(points: Seq<TimePoint>, second: u32, value: u64)
    requires
        is_ordered(points),
    ensures
        is_ordered(recorded(points, second, value)),
        recorded(points, second, value).last() == (TimePoint { second, value }),
        forall|i: int|
            0 <= i < recorded(points, second, value).len() ==> (#[trigger] recorded(
                points,
                second,
                value,
            )[i]).second <= second,
{
    lemma_pruned(points, second);
    let zero = recorded(points, second, 0);
    let after = recorded(points, second, value);
    assert forall|i: int, j: int| 0 <= i < j < after.len() implies (#[trigger] after[i]).second < (
    #[trigger] after[j]).second by {
        assert(after[i] == zero[i]);
        assert(after[j].second == zero[j].second);
    }
    assert forall|i: int| 0 <= i < after.len() implies (#[trigger] after[i]).second <= second by {
        if i < after.len() - 1 {
            assert(after[i].second < after[after.len() - 1].second);
        }
    }
}

impl TimeSeries {
    /// A history without points.
    pub fn new() -> (s: TimeSeries)
        ensures
            s.points@.len() == 0,
    {
        TimeSeries { points: Vec::new() }
    }

    /// Records `value` at `second`. Points that are not before that second
    /// are stale, left from before the run was started anew, and are dropped.
    pub fn record(&mut self, second: u32, value: u64)
        ensures
            final(self).points@ == recorded(old(self).points@, second, value),
    {
        while self.points.len() > 0 && self.points[self.points.len() - 1].second >= second
            invariant
                pruned(self.points@, second) == pruned(old(self).points@, second),
            decreases self.points@.len(),
        {
            let ghost before = self.points@;
            self.points.pop();
            proof {
                assert(self.points@ =~= before.drop_last());
            }
        }
        self.points.push(TimePoint { second, value });
    }

    /// Forgets every point.
    pub fn clear(&mut self)
        ensures
            final(self).points@.len() == 0,
    {
        self.points.clear();
    }

    /// The latest second of the history; zero where it has no point.
    pub fn latest_second(&self) -> (top: u32)
        ensures
            top == top_second(self.points@),
    {
        let mut top: u32 = 0;
        let mut i: usize = 0;
        while i < self.points.len()
            invariant
                i <= self.points@.len(),
                top == top_second(self.points@.subrange(0, i as int)),
            decreases self.points@.len() - i,
        {
            proof {
                assert(self.points@.subrange(0, i + 1).drop_last() =~= self.points@.subrange(
                    0,
                    i as int,
                ));
            }
            if self.points[i].second > top {
                top = self.points[i].second;
            }
            i = i + 1;
        }
        proof {
            assert(self.points@.subrange(0, i as int) =~= self.points@);
        }
        top
    }

    /// The history thinned out to at most `limit` points, for a run of
    /// `elements` seconds: the points at every `step`-th second, where the
    /// step is the least that brings the seconds of the run down to the
    /// limit. Without a limit the history is returned whole, and with a
    /// limit of zero nothing of it.
    pub fn decimate(&self, elements: u32, limit: Option<usize>) -> (thinned: Vec<TimePoint>)
        ensures
            thinned@ == decimated(self.points@, elements, limit),
            limit is None ==> thinned@ == self.points@,
            is_ordered(self.points@) ==> (limit matches Some(l) ==> thinned@.len() <= l),
    {
        let top = self.latest_second();
        let span: u64 = if top > elements {
            top as u64 + 1
        } else {
            elements as u64 + 1
        };
        let step: u64 = match limit {
            None => 1,
            Some(l) => {
                proof {
                    if is_ordered(self.points@) {
                        lemma_decimated_is_within_limit(self.points@, elements, l);
                    }
                }
                if l == 0 {
                    return Vec::new();
                } else if l as u64 >= span {
                    1
                } else {
                    (span + l as u64 - 1) / (l as u64)
                }
            },
        };
        assert(step >= 1) by (nonlinear_arith)
            requires
                step == 1 || (limit matches Some(l) && 0 < l < span && step == (span + l - 1)
                    / (l as int)),
        ;
        let mut thinned: Vec<TimePoint> = Vec::new();
        let mut i: usize = 0;
        while i < self.points.len()
            invariant
                i <= self.points@.len(),
                step >= 1,
                thinned@ == every_nth(self.points@.subrange(0, i as int), step as int),
            decreases self.points@.len() - i,
        {
            proof {
                assert(self.points@.subrange(0, i + 1).drop_last() =~= self.points@.subrange(
                    0,
                    i as int,
                ));
            }
            if self.points[i].second as u64 % step == 0 {
                thinned.push(self.points[i]);
            }
            i = i + 1;
        }
        proof {
            assert(self.points@.subrange(0, i as int) =~= self.points@);
            lemma_every_first(self.points@);
        }
        thinned
    }
}

} // verus!
