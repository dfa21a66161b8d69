//! Properties of the trace that hold across calls.
use vstd::prelude::*;
use crate::context::FiberId;
use crate::event::{
    lemma_open_begins_bounded, lemma_prefix_well_nested, open_begins, well_nested, Phase,
};
use crate::profiler::Profiler;

verus! {

/// The events of every OS thread form a well-formed bracket sequence.
pub proof fn lemma_trace_well_nested(p: Profiler, tid: usize)
    requires
        p.wf(),
    ensures
        well_nested(p.log(), tid),
{
    assert(p.nesting_agrees(tid));
}

/// Every End event of a thread closes the nearest preceding unmatched Begin
/// of that thread, and that Begin carries the same name.
pub proof fn lemma_end_closes_nearest_begin(p: Profiler, i: int)
    requires
        p.wf(),
        0 <= i < p.log().len(),
        p.log()[i].ph == Phase::End,
    ensures
        ({
            let open = open_begins(p.log().take(i), p.log()[i].tid);
            &&& open is Some
            &&& open->0.len() > 0
            &&& open->0.last().name == p.log()[i].name
        }),
{
    let log = p.log();
    let tid = log[i].tid;
    assert(p.nesting_agrees(tid));
    lemma_prefix_well_nested(log, tid, i + 1);
    assert(log.take(i + 1).drop_last() =~= log.take(i));
    assert(log.take(i + 1).last() == log[i]);
}

/// For every matched Begin/End pair of a thread, the End is stamped no
/// earlier than the Begin.
pub proof fn lemma_end_not_before_begin(p: Profiler, i: int)
    requires
        p.wf(),
        0 <= i < p.log().len(),
        p.log()[i].ph == Phase::End,
    ensures
        ({
            let open = open_begins(p.log().take(i), p.log()[i].tid);
            &&& open is Some
            &&& open->0.len() > 0
            &&& open->0.last().ts <= p.log()[i].ts
        }),
{
    let log = p.log();
    let tid = log[i].tid;
    lemma_end_closes_nearest_begin(p, i);
    let prefix = log.take(i);
    assert forall|k: int| 0 <= k < prefix.len() && #[trigger] prefix[k].tid == tid implies prefix[k].ts
        <= log[i].ts by {
        assert(prefix[k] == log[k]);
        assert(log[k].tid == log[i].tid);
    }
    lemma_open_begins_bounded(prefix, tid, log[i].ts);
    let open = open_begins(prefix, tid)->0;
    assert(open.last() == open[open.len() - 1]);
}

/// Switching a thread from fiber `a` to fiber `b` and straight back, with no
/// scope opened or closed in between, restores the thread's live scopes
/// exactly.
pub proof fn lemma_switch_round_trip(
    p0: Profiler,
    p1: Profiler,
    p2: Profiler,
    tid: usize,
    a: FiberId,
    b: FiberId,
    suspended_ab: i64,
    resumed_ab: i64,
    suspended_ba: i64,
    resumed_ba: i64,
)
    requires
        p1.switched_from(p0, tid, a, b, suspended_ab, resumed_ab),
        p2.switched_from(p1, tid, b, a, suspended_ba, resumed_ba),
    ensures
        p2.live(tid) == p0.live(tid),
{
}

} // verus!
