//! Trace events and the bracket discipline they follow on each OS thread.
use vstd::prelude::*;

verus! {

/// Whether a trace event opens or closes a timed region.
#[derive(Clone, Copy, Debug, PartialEq, Eq, Structural)]
pub enum Phase {
    Begin,
    End,
}

pub open spec fn phase_code(ph: Phase) -> Seq<char> {
    match ph {
        Phase::Begin => seq!['B'],
        Phase::End => seq!['E'],
    }
}

impl Phase {
    /// The one-letter code that trace viewers expect: `"B"` or `"E"`.
    pub fn code(&self) -> (r: &'static str)
        ensures
            r@ == phase_code(*self),
    {
        match self {
            Phase::Begin => {
                proof {
                    reveal_strlit("B");
                }
                "B"
            },
            Phase::End => {
                proof {
                    reveal_strlit("E");
                }
                "E"
            },
        }
    }
}

/// One immutable record of the trace: a region named `name` opened or closed
/// at `ts` microseconds on OS thread `tid` of process `pid`.
pub struct Event {
    pub name: String,
    pub cat: String,
    pub ph: Phase,
    pub ts: i64,
    pub pid: usize,
    pub tid: usize,
}

/// The mathematical value of an [`Event`].
pub struct EventView {
    pub name: Seq<char>,
    pub cat: Seq<char>,
    pub ph: Phase,
    pub ts: i64,
    pub pid: usize,
    pub tid: usize,
}

impl View for Event {
    type V = EventView;

    open spec fn view(&self) -> EventView {
        EventView {
            name: self.name@,
            cat: self.cat@,
            ph: self.ph,
            ts: self.ts,
            pid: self.pid,
            tid: self.tid,
        }
    }
}

impl Clone for Event {
    fn clone(&self) -> (r: Self)
        ensures
            r@ == self@,
    {
        Event {
            name: self.name.clone(),
            cat: self.cat.clone(),
            ph: self.ph,
            ts: self.ts,
            pid: self.pid,
            tid: self.tid,
        }
    }
}

/// The event that the profiler records: no category, process 0.
pub open spec fn trace_event(name: Seq<char>, ph: Phase, ts: i64, tid: usize) -> EventView {
    EventView { name, cat: Seq::empty(), ph, ts, pid: 0, tid }
}

impl Event {
    /// Builds the record of `name` entering phase `ph` at `ts` on thread `tid`.
    pub fn new(name: String, ph: Phase, ts: i64, tid: usize) -> (r: Event)
        ensures
            r@ == trace_event(name@, ph, ts, tid),
    {
        Event { name, cat: String::new(), ph, ts, pid: 0, tid }
    }
}

/// One step of replaying a thread's events: a Begin of thread `tid` is
/// pushed, an End of `tid` must close the most recent open Begin of the same
/// name, and events of other threads are skipped. `None` records a violation.
pub open spec fn replay_step(open: Option<Seq<EventView>>, e: EventView, tid: usize) -> Option<
    Seq<EventView>,
> {
    match open {
        None => None,
        Some(s) => if e.tid != tid {
            Some(s)
        } else if e.ph == Phase::Begin {
            Some(s.push(e))
        } else if s.len() > 0 && s.last().name == e.name {
            Some(s.drop_last())
        } else {
            None
        },
    }
}

/// The Begin events of thread `tid` that are still unmatched after `events`,
/// oldest first; `None` when some End of `tid` does not match the nearest
/// preceding unmatched Begin by name.
pub open spec fn open_begins(events: Seq<EventView>, tid: usize) -> Option<Seq<EventView>>
    decreases events.len(),
{
    if events.len() == 0 {
        Some(Seq::empty())
    } else {
        replay_step(open_begins(events.drop_last(), tid), events.last(), tid)
    }
}

/// The events of thread `tid` form a well-formed bracket sequence.
pub open spec fn well_nested(events: Seq<EventView>, tid: usize) -> bool {
    open_begins(events, tid) is Some
}

/// Within each thread, timestamps never go backwards.
pub open spec fn stamps_monotonic(events: Seq<EventView>) -> bool {
    forall|i: int, j: int|
        0 <= i < j < events.len() && #[trigger] events[i].tid == #[trigger] events[j].tid
            ==> events[i].ts <= events[j].ts
}

/// No event of thread `tid` in `events` is stamped later than `ts`.
pub open spec fn stamped_by(events: Seq<EventView>, tid: usize, ts: i64) -> bool {
    forall|i: int| 0 <= i < events.len() && #[trigger] events[i].tid == tid ==> events[i].ts <= ts
}

/// The names of a sequence of events, in order.
pub open spec fn event_names(events: Seq<EventView>) -> Seq<Seq<char>> {
    events.map_values(|e: EventView| e.name)
}

pub proof fn lemma_open_begins_push(events: Seq<EventView>, e: EventView, tid: usize)
    ensures
        open_begins(events.push(e), tid) == replay_step(open_begins(events, tid), e, tid),
{
    assert(events.push(e).drop_last() =~= events);
}

/// Every prefix of a well-nested trace is well nested.
pub proof fn lemma_prefix_well_nested(events: Seq<EventView>, tid: usize, n: int)
    requires
        well_nested(events, tid),
        0 <= n <= events.len(),
    ensures
        well_nested(events.take(n), tid),
    decreases events.len(),
{
    if n < events.len() {
        assert(events.drop_last().take(n) =~= events.take(n));
        lemma_prefix_well_nested(events.drop_last(), tid, n);
    } else {
        assert(events.take(n) =~= events);
    }
}

/// The unmatched Begins of a thread are Begins of that thread, stamped no
/// later than any bound on the thread's events.
pub proof fn lemma_open_begins_bounded(events: Seq<EventView>, tid: usize, ts: i64)
    requires
        well_nested(events, tid),
        stamped_by(events, tid, ts),
    ensures
        forall|k: int|
            0 <= k < open_begins(events, tid)->0.len() ==> {
                let b = #[trigger] open_begins(events, tid)->0[k];
                &&& b.ts <= ts
                &&& b.tid == tid
                &&& b.ph == Phase::Begin
            },
    decreases events.len(),
{
    if events.len() > 0 {
        let prefix = events.drop_last();
        assert forall|i: int| 0 <= i < prefix.len() && #[trigger] prefix[i].tid == tid implies prefix[i].ts
            <= ts by {
            assert(prefix[i] == events[i]);
        }
        lemma_open_begins_bounded(prefix, tid, ts);
        assert(events.last() == events[events.len() - 1]);
    }
}

} // verus!
