//! The profiler service: the event log, the live execution context of each
//! OS thread, and the contexts of suspended fibers keyed by fiber identity.
use vstd::prelude::*;
use std::collections::HashMap;
use crate::context::{scope_names, ExecutionContext, FiberId, Scope, ScopeView};
use crate::event::{
    event_names, lemma_open_begins_push, open_begins, replay_step, stamped_by, stamps_monotonic,
    trace_event, well_nested, Event, EventView, Phase,
};

verus! {

broadcast use vstd::std_specs::hash::group_hash_axioms;

/// End events that close `scopes` from the innermost out, all stamped `ts`.
pub open spec fn closing_events(scopes: Seq<ScopeView>, tid: usize, ts: i64) -> Seq<EventView> {
    Seq::new(
        scopes.len(),
        |k: int| trace_event(scopes[scopes.len() - 1 - k].name, Phase::End, ts, tid),
    )
}

/// Begin events that reopen `scopes` from the outermost in, all stamped `ts`.
pub open spec fn opening_events(scopes: Seq<ScopeView>, tid: usize, ts: i64) -> Seq<EventView> {
    Seq::new(scopes.len(), |k: int| trace_event(scopes[k].name, Phase::Begin, ts, tid))
}

/// The context that a switch to `id` installs: the one saved for it, or an
/// empty one for a fiber never seen before.
pub open spec fn resumed_context(saved: Map<u64, Seq<ScopeView>>, id: FiberId) -> Seq<ScopeView> {
    if saved.contains_key(id.handle) {
        saved[id.handle]
    } else {
        Seq::empty()
    }
}

/// Process-wide profiling state.
pub struct Profiler {
    events: Vec<Event>,
    live: HashMap<usize, ExecutionContext>,
    saved: HashMap<u64, ExecutionContext>,
}

impl Profiler {
    /// The events recorded so far, in the order they were appended.
    pub closed spec fn log(&self) -> Seq<EventView> {
        self.events@.map_values(|e: Event| e@)
    }

    /// The live execution context of OS thread `tid`.
    pub closed spec fn live(&self, tid: usize) -> Seq<ScopeView> {
        if self.live@.contains_key(tid) {
            self.live@[tid]@
        } else {
            Seq::empty()
        }
    }

    /// The contexts of suspended fibers, by fiber handle.
    pub closed spec fn saved(&self) -> Map<u64, Seq<ScopeView>> {
        self.saved@.map_values(|c: ExecutionContext| c@)
    }

    /// The unmatched Begins of thread `tid` name exactly its live scopes.
    pub open spec fn nesting_agrees(&self, tid: usize) -> bool {
        &&& well_nested(self.log(), tid)
        &&& event_names(open_begins(self.log(), tid)->0) == scope_names(self.live(tid))
    }

    /// Every thread's events are well nested and agree with its live
    /// context, and every thread's stamps are nondecreasing.
    pub open spec fn wf(&self) -> bool {
        &&& forall|t: usize| #[trigger] self.nesting_agrees(t)
        &&& stamps_monotonic(self.log())
    }

    /// `ts` is no earlier than any event already recorded for thread `tid`.
    pub open spec fn admits(&self, tid: usize, ts: i64) -> bool {
        stamped_by(self.log(), tid, ts)
    }

    /// `self` is what switching thread `tid` of `pre` from fiber `old_id`
    /// to fiber `new_id` leaves: the context saved for `new_id` (or an empty
    /// one) is live, the previous live context is saved under `old_id`, and
    /// the log gains the closing and then the reopening events.
    pub open spec fn switched_from(
        &self,
        pre: Profiler,
        tid: usize,
        old_id: FiberId,
        new_id: FiberId,
        suspended_at: i64,
        resumed_at: i64,
    ) -> bool {
        &&& self.live(tid) == resumed_context(pre.saved(), new_id)
        &&& forall|t: usize| t != tid ==> #[trigger] self.live(t) == pre.live(t)
        &&& self.saved() == pre.saved().remove(new_id.handle).insert(old_id.handle, pre.live(tid))
        &&& self.log() == pre.log() + closing_events(pre.live(tid), tid, suspended_at)
            + opening_events(self.live(tid), tid, resumed_at)
    }

    /// A profiler with no events and no open scope.
    pub fn new() -> (r: Profiler)
        ensures
            r.wf(),
            r.log() == Seq::<EventView>::empty(),
            forall|t: usize| r.live(t) == Seq::<ScopeView>::empty(),
            r.saved() == Map::<u64, Seq<ScopeView>>::empty(),
    {
        let r = Profiler { events: Vec::new(), live: HashMap::new(), saved: HashMap::new() };
        assert(r.log() =~= Seq::<EventView>::empty());
        assert(r.saved() =~= Map::<u64, Seq<ScopeView>>::empty());
        assert forall|t: usize| #[trigger] r.nesting_agrees(t) by {
            assert(event_names(Seq::<EventView>::empty()) =~= Seq::<Seq<char>>::empty());
            assert(scope_names(Seq::<ScopeView>::empty()) =~= Seq::<Seq<char>>::empty());
        }
        r
    }

    /// Appends one event to the log.
    fn record(&mut self, e: Event)
        requires
            stamped_by(old(self).log(), e.tid, e.ts),
        ensures
            final(self).log() == old(self).log().push(e@),
            final(self).live == old(self).live,
            final(self).saved == old(self).saved,
            stamps_monotonic(old(self).log()) ==> stamps_monotonic(final(self).log()),
            stamped_by(final(self).log(), e.tid, e.ts),
            forall|t: usize|
                #[trigger] open_begins(final(self).log(), t) == replay_step(
                    open_begins(old(self).log(), t),
                    e@,
                    t,
                ),
    {
        let ghost e_view = e@;
        self.events.push(e);
        let ghost old_log = old(self).log();
        assert(self.log() =~= old_log.push(e_view));
        assert forall|t: usize|
            #[trigger] open_begins(self.log(), t) == replay_step(
                open_begins(old_log, t),
                e_view,
                t,
            ) by {
            lemma_open_begins_push(old_log, e_view, t);
        }
    }

    /// Takes thread `tid`'s live context out of the table.
    fn take_live(&mut self, tid: usize) -> (r: ExecutionContext)
        ensures
            r@ == old(self).live(tid),
            final(self).live@ == old(self).live@.remove(tid),
            final(self).events == old(self).events,
            final(self).saved == old(self).saved,
    {
        match self.live.remove(&tid) {
            Some(c) => c,
            None => ExecutionContext::new(),
        }
    }

    /// Opens a scope named `name` on thread `tid` at `ts`: pushes it onto the
    /// thread's live context and records a Begin event.
    pub fn begin_scope(&mut self, tid: usize, name: &str, ts: i64)
        requires
            old(self).wf(),
            old(self).admits(tid, ts),
        ensures
            final(self).wf(),
            final(self).log() == old(self).log().push(trace_event(name@, Phase::Begin, ts, tid)),
            final(self).live(tid) == old(self).live(tid).push((ScopeView { name: name@, start: ts })),
            forall|t: usize| t != tid ==> final(self).live(t) == old(self).live(t),
            final(self).saved() == old(self).saved(),
    {
        let ghost pre = *self;
        self.record(Event::new(name.to_owned(), Phase::Begin, ts, tid));
        let mut ctx = self.take_live(tid);
        ctx.push(Scope { name: name.to_owned(), start: ts });
        self.live.insert(tid, ctx);
        proof {
            let e = trace_event(name@, Phase::Begin, ts, tid);
            assert forall|t: usize| #[trigger] self.nesting_agrees(t) by {
                assert(pre.nesting_agrees(t));
                if t == tid {
                    let open = open_begins(pre.log(), t)->0;
                    assert(event_names(open.push(e)) =~= event_names(open).push(name@));
                    assert(scope_names(pre.live(t).push(ScopeView { name: name@, start: ts }))
                        =~= scope_names(pre.live(t)).push(name@));
                } else {
                    assert(self.live(t) == pre.live(t));
                }
            }
        }
    }

    /// Closes the innermost scope of thread `tid`, which must be named
    /// `name`, at `ts`: pops it and records an End event.
    pub fn end_scope(&mut self, tid: usize, name: &str, ts: i64)
        requires
            old(self).wf(),
            old(self).admits(tid, ts),
            old(self).live(tid).len() > 0,
            old(self).live(tid).last().name == name@,
        ensures
            final(self).wf(),
            final(self).log() == old(self).log().push(trace_event(name@, Phase::End, ts, tid)),
            final(self).live(tid) == old(self).live(tid).drop_last(),
            forall|t: usize| t != tid ==> final(self).live(t) == old(self).live(t),
            final(self).saved() == old(self).saved(),
    {
        let ghost pre = *self;
        proof {
            assert(pre.nesting_agrees(tid));
        }
        self.record(Event::new(name.to_owned(), Phase::End, ts, tid));
        let mut ctx = self.take_live(tid);
        let _closed = ctx.pop();
        self.live.insert(tid, ctx);
        proof {
            assert forall|t: usize| #[trigger] self.nesting_agrees(t) by {
                assert(pre.nesting_agrees(t));
                if t == tid {
                    let open = open_begins(pre.log(), t)->0;
                    let live = pre.live(t);
                    assert(event_names(open).len() == open.len());
                    assert(scope_names(live).len() == live.len());
                    assert(event_names(open)[open.len() - 1] == open.last().name);
                    assert(scope_names(live)[live.len() - 1] == live.last().name);
                    assert(event_names(open.drop_last()) =~= event_names(open).drop_last());
                    assert(scope_names(pre.live(t).drop_last()) =~= scope_names(
                        pre.live(t),
                    ).drop_last());
                } else {
                    assert(self.live(t) == pre.live(t));
                }
            }
        }
    }

    /// Swaps thread `tid`'s live context from fiber `old_id` to fiber
    /// `new_id`. Every open scope is first closed in the trace, innermost
    /// first, at `suspended_at`, while staying open in memory; the context is
    /// then saved under `old_id` and the one saved under `new_id` (or an
    /// empty one) becomes live; finally its scopes are reopened in the
    /// trace, outermost first, at `resumed_at`.
    pub fn switch_context(
        &mut self,
        tid: usize,
        old_id: FiberId,
        new_id: FiberId,
        suspended_at: i64,
        resumed_at: i64,
    )
        requires
            old(self).wf(),
            old(self).admits(tid, suspended_at),
            suspended_at <= resumed_at,
        ensures
            final(self).wf(),
            final(self).switched_from(*old(self), tid, old_id, new_id, suspended_at, resumed_at),
            !old(self).saved().contains_key(new_id.handle) ==> {
                &&& final(self).live(tid) == Seq::<ScopeView>::empty()
                &&& final(self).log() == old(self).log() + closing_events(
                    old(self).live(tid),
                    tid,
                    suspended_at,
                )
            },
    {
        let ghost pre = *self;
        let ghost log0 = self.log();
        let ghost open0 = open_begins(log0, tid)->0;
        proof {
            assert(pre.nesting_agrees(tid));
            assert(event_names(open0).len() == open0.len());
            assert(scope_names(pre.live(tid)).len() == pre.live(tid).len());
        }
        let prev = self.take_live(tid);
        let ghost closing = closing_events(prev@, tid, suspended_at);
        let n = prev.len();
        let mut k: usize = 0;
        while k < n
            invariant
                k <= n == prev@.len() == open0.len(),
                prev@ == pre.live(tid),
                closing == closing_events(prev@, tid, suspended_at),
                event_names(open0) == scope_names(prev@),
                self.live@ == pre.live@.remove(tid),
                self.saved == pre.saved,
                self.log() =~= log0 + closing.take(k as int),
                stamps_monotonic(self.log()),
                stamped_by(self.log(), tid, suspended_at),
                open_begins(self.log(), tid) == Some(open0.take(n - k)),
                forall|t: usize|
                    t != tid ==> #[trigger] open_begins(self.log(), t) == open_begins(log0, t),
            decreases n - k,
        {
            let s = prev.scope(n - 1 - k);
            let ghost before = self.log();
            self.record(Event::new(s.name.clone(), Phase::End, suspended_at, tid));
            proof {
                let j = n - 1 - k;
                assert(event_names(open0)[j] == open0[j].name);
                assert(scope_names(prev@)[j] == prev@[j].name);
                assert(open0.take(n - k).last() == open0[j]);
                assert(open0.take(n - k).drop_last() =~= open0.take(n - k - 1));
                assert(closing.take(k + 1) =~= closing.take(k as int).push(closing[k as int]));
                assert forall|t: usize| t != tid implies #[trigger] open_begins(self.log(), t)
                    == open_begins(log0, t) by {
                    assert(open_begins(before, t) == open_begins(log0, t));
                }
            }
            k = k + 1;
        }
        let ghost log1 = self.log();
        proof {
            assert(closing.take(n as int) =~= closing);
            assert(open0.take(0) =~= Seq::<EventView>::empty());
        }
        let next = match self.saved.remove(&new_id.handle) {
            Some(c) => c,
            None => ExecutionContext::new(),
        };
        self.saved.insert(old_id.handle, prev);
        proof {
            assert(next@ == resumed_context(pre.saved(), new_id));
            assert(self.saved() =~= pre.saved().remove(new_id.handle).insert(
                old_id.handle,
                pre.live(tid),
            ));
            assert forall|i: int| 0 <= i < log1.len() && #[trigger] log1[i].tid == tid implies log1[i].ts
                <= resumed_at by {}
        }
        let ghost opening = opening_events(next@, tid, resumed_at);
        let m = next.len();
        let mut j: usize = 0;
        while j < m
            invariant
                j <= m == next@.len(),
                opening == opening_events(next@, tid, resumed_at),
                self.live@ == pre.live@.remove(tid),
                self.saved() == pre.saved().remove(new_id.handle).insert(
                    old_id.handle,
                    pre.live(tid),
                ),
                self.log() =~= log1 + opening.take(j as int),
                stamps_monotonic(self.log()),
                stamped_by(self.log(), tid, resumed_at),
                open_begins(self.log(), tid) is Some,
                event_names(open_begins(self.log(), tid)->0) == scope_names(next@.take(j as int)),
                forall|t: usize|
                    t != tid ==> #[trigger] open_begins(self.log(), t) == open_begins(log0, t),
            decreases m - j,
        {
            let s = next.scope(j);
            let ghost before = self.log();
            let ghost open = open_begins(before, tid)->0;
            self.record(Event::new(s.name.clone(), Phase::Begin, resumed_at, tid));
            proof {
                assert(opening.take(j + 1) =~= opening.take(j as int).push(opening[j as int]));
                assert(event_names(open.push(opening[j as int])) =~= event_names(open).push(
                    next@[j as int].name,
                ));
                assert(next@.take(j + 1) =~= next@.take(j as int).push(next@[j as int]));
                assert(scope_names(next@.take(j + 1)) =~= scope_names(next@.take(j as int)).push(
                    next@[j as int].name,
                ));
                assert forall|t: usize| t != tid implies #[trigger] open_begins(self.log(), t)
                    == open_begins(log0, t) by {
                    assert(open_begins(before, t) == open_begins(log0, t));
                }
            }
            j = j + 1;
        }
        proof {
            assert(opening.take(m as int) =~= opening);
            assert(next@.take(m as int) =~= next@);
        }
        self.live.insert(tid, next);
        proof {
            assert(self.log() =~= log0 + closing + opening);
            assert forall|t: usize| #[trigger] self.nesting_agrees(t) by {
                assert(pre.nesting_agrees(t));
                if t != tid {
                    assert(self.live(t) == pre.live(t));
                }
            }
            if !pre.saved().contains_key(new_id.handle) {
                assert(opening =~= Seq::<EventView>::empty());
                assert(log0 + closing + opening =~= log0 + closing);
            }
        }
    }

    /// A copy of the log as it stands, in the order the events were appended.
    pub fn snapshot(&self) -> (r: Vec<Event>)
        ensures
            r@.map_values(|e: Event| e@) == self.log(),
    {
        let mut r: Vec<Event> = Vec::new();
        let mut i: usize = 0;
        while i < self.events.len()
            invariant
                i <= self.events@.len(),
                r@.map_values(|e: Event| e@) =~= self.log().take(i as int),
            decreases self.events@.len() - i,
        {
            r.push(self.events[i].clone());
            assert(self.log().take(i + 1) =~= self.log().take(i as int).push(
                self.events@[i as int]@,
            ));
            i = i + 1;
        }
        assert(self.log().take(i as int) =~= self.log());
        r
    }

    /// How many events have been recorded.
    pub fn event_count(&self) -> (r: usize)
        ensures
            r == self.log().len(),
    {
        self.events.len()
    }

    /// The names of thread `tid`'s live scopes, oldest first.
    pub fn live_names(&self, tid: usize) -> (r: Vec<String>)
        ensures
            r@.map_values(|s: String| s@) == scope_names(self.live(tid)),
    {
        match self.live.get(&tid) {
            Some(c) => c.names(),
            None => {
                let r: Vec<String> = Vec::new();
                assert(r@.map_values(|s: String| s@) =~= scope_names(self.live(tid)));
                r
            },
        }
    }

    /// The names of the scopes saved for fiber `id`, oldest first, if a
    /// context is saved for it.
    pub fn saved_names(&self, id: FiberId) -> (r: Option<Vec<String>>)
        ensures
            r is Some <==> self.saved().contains_key(id.handle),
            r is Some ==> r->0@.map_values(|s: String| s@) == scope_names(
                self.saved()[id.handle],
            ),
    {
        match self.saved.get(&id.handle) {
            Some(c) => Some(c.names()),
            None => None,
        }
    }

    /// The name of thread `tid`'s innermost live scope, if any.
    pub fn innermost(&self, tid: usize) -> (r: Option<String>)
        ensures
            r is Some <==> self.live(tid).len() > 0,
            r is Some ==> r->0@ == self.live(tid).last().name,
    {
        match self.live.get(&tid) {
            Some(c) => {
                let n = c.len();
                if n == 0 {
                    None
                } else {
                    Some(c.scope(n - 1).name.clone())
                }
            },
            None => None,
        }
    }

    /// The stamp of the most recent event of thread `tid`, if it has any.
    pub fn latest_stamp(&self, tid: usize) -> (r: Option<i64>)
        requires
            self.wf(),
        ensures
            r is None <==> forall|i: int| 0 <= i < self.log().len() ==> #[trigger] self.log()[i].tid != tid,
            r is Some ==> exists|i: int|
                0 <= i < self.log().len() && #[trigger] self.log()[i].tid == tid && self.log()[i].ts
                    == r->0 && forall|k: int| i < k < self.log().len() ==> self.log()[k].tid != tid,
            r is Some ==> self.admits(tid, r->0),
    {
        let mut i: usize = self.events.len();
        while i > 0
            invariant
                self.wf(),
                i <= self.events@.len(),
                forall|k: int| i <= k < self.log().len() ==> self.log()[k].tid != tid,
            decreases i,
        {
            i = i - 1;
            if self.events[i].tid == tid {
                let ghost log = self.log();
                assert(log[i as int].tid == tid);
                assert forall|k: int| 0 <= k < log.len() && #[trigger] log[k].tid == tid implies log[k].ts
                    <= log[i as int].ts by {
                    if k < i {
                        assert(log[k].tid == log[i as int].tid);
                        assert(log[k].ts <= log[i as int].ts);
                    } else if k > i {
                        assert(self.log()[k].tid != tid);
                    }
                }
                return Some(self.events[i].ts);
            }
        }
        None
    }

    /// Whether `ts` may stamp the next event of thread `tid`: no event of
    /// that thread is stamped later.
    pub fn admits_stamp(&self, tid: usize, ts: i64) -> (r: bool)
        requires
            self.wf(),
        ensures
            r == self.admits(tid, ts),
    {
        match self.latest_stamp(tid) {
            Some(last) => last <= ts,
            None => true,
        }
    }
}

/// A guard for one open scope: made by opening the scope, consumed by
/// closing it.
pub struct Stopwatch {
    name: String,
    tid: usize,
}

impl Stopwatch {
    /// The name of the scope this guard closes.
    pub closed spec fn name(&self) -> Seq<char> {
        self.name@
    }

    /// The OS thread the scope was opened on.
    pub closed spec fn thread(&self) -> usize {
        self.tid
    }

    /// The name of the scope this guard closes.
    pub fn scope_name(&self) -> (r: &str)
        ensures
            r@ == self.name(),
    {
        self.name.as_str()
    }

    /// The OS thread the scope was opened on.
    pub fn thread_id(&self) -> (r: usize)
        ensures
            r == self.thread(),
    {
        self.tid
    }

    /// Opens a scope named `name` on thread `tid` at `ts` (see
    /// [`Profiler::begin_scope`]).
    pub fn new(profiler: &mut Profiler, tid: usize, name: &str, ts: i64) -> (r: Stopwatch)
        requires
            old(profiler).wf(),
            old(profiler).admits(tid, ts),
        ensures
            r.name() == name@,
            r.thread() == tid,
            final(profiler).wf(),
            final(profiler).log() == old(profiler).log().push(
                trace_event(name@, Phase::Begin, ts, tid),
            ),
            final(profiler).live(tid) == old(profiler).live(tid).push(
                (ScopeView { name: name@, start: ts }),
            ),
            forall|t: usize| t != tid ==> final(profiler).live(t) == old(profiler).live(t),
            final(profiler).saved() == old(profiler).saved(),
    {
        profiler.begin_scope(tid, name, ts);
        Stopwatch { name: name.to_owned(), tid }
    }

    /// Opens a scope with a time budget; the budget is not acted upon.
    pub fn with_budget(
        profiler: &mut Profiler,
        tid: usize,
        name: &str,
        _budget: std::time::Duration,
        ts: i64,
    ) -> (r: Stopwatch)
        requires
            old(profiler).wf(),
            old(profiler).admits(tid, ts),
        ensures
            r.name() == name@,
            r.thread() == tid,
            final(profiler).wf(),
            final(profiler).log() == old(profiler).log().push(
                trace_event(name@, Phase::Begin, ts, tid),
            ),
            final(profiler).live(tid) == old(profiler).live(tid).push(
                (ScopeView { name: name@, start: ts }),
            ),
            forall|t: usize| t != tid ==> final(profiler).live(t) == old(profiler).live(t),
            final(profiler).saved() == old(profiler).saved(),
    {
        Stopwatch::new(profiler, tid, name, ts)
    }

    /// Closes this guard's scope at `ts`; it must be the innermost live
    /// scope of its thread (see [`Profiler::end_scope`]).
    pub fn stop(self, profiler: &mut Profiler, ts: i64)
        requires
            old(profiler).wf(),
            old(profiler).admits(self.thread(), ts),
            old(profiler).live(self.thread()).len() > 0,
            old(profiler).live(self.thread()).last().name == self.name(),
        ensures
            final(profiler).wf(),
            final(profiler).log() == old(profiler).log().push(
                trace_event(self.name(), Phase::End, ts, self.thread()),
            ),
            final(profiler).live(self.thread()) == old(profiler).live(self.thread()).drop_last(),
            forall|t: usize|
                t != self.thread() ==> final(profiler).live(t) == old(profiler).live(t),
            final(profiler).saved() == old(profiler).saved(),
    {
        profiler.end_scope(self.tid, self.name.as_str(), ts);
    }
}

} // verus!
