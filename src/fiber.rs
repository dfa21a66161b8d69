//! Bookkeeping for cooperative fibers: which fiber runs on which OS thread,
//! which fiber handed control to which, and which fibers are gone.
use vstd::prelude::*;
use std::collections::HashMap;
use crate::context::FiberId;

verus! {

broadcast use vstd::std_specs::hash::group_hash_axioms;

/// Where a known fiber stands.
#[derive(Clone, Copy, Debug, PartialEq, Eq, Structural)]
pub enum FiberState {
    /// Running on the OS thread with this id.
    Running(usize),
    /// Waiting to be resumed.
    Suspended,
    /// Destroyed; it may never run again.
    Destroyed,
}

/// The fibers known to the process and the fiber each OS thread runs.
pub struct FiberTable {
    states: HashMap<u64, FiberState>,
    running: HashMap<usize, u64>,
}

impl FiberTable {
    /// The state of each known fiber, by handle.
    pub closed spec fn states(&self) -> Map<u64, FiberState> {
        self.states@
    }

    /// The handle of the fiber each OS thread runs.
    pub closed spec fn running(&self) -> Map<usize, u64> {
        self.running@
    }

    /// A thread runs exactly the fiber that is marked as running on it.
    pub open spec fn wf(&self) -> bool {
        &&& forall|t: usize| #[trigger]
            self.running().contains_key(t) ==> {
                &&& self.states().contains_key(self.running()[t])
                &&& self.states()[self.running()[t]] == FiberState::Running(t)
            }
        &&& forall|h: u64|
            #![trigger self.states()[h]]
            self.states().contains_key(h) && self.states()[h] is Running ==> {
                let t = self.states()[h]->Running_0;
                &&& self.running().contains_key(t)
                &&& self.running()[t] == h
            }
    }

    /// No fiber known, no thread converted.
    pub fn new() -> (r: FiberTable)
        ensures
            r.wf(),
            r.states() == Map::<u64, FiberState>::empty(),
            r.running() == Map::<usize, u64>::empty(),
    {
        FiberTable { states: HashMap::new(), running: HashMap::new() }
    }

    /// Records that thread `tid` has become the fiber `id` and runs it.
    pub fn init_thread(&mut self, tid: usize, id: FiberId)
        requires
            old(self).wf(),
            !old(self).running().contains_key(tid),
            !old(self).states().contains_key(id.handle),
        ensures
            final(self).wf(),
            final(self).states() == old(self).states().insert(id.handle, FiberState::Running(tid)),
            final(self).running() == old(self).running().insert(tid, id.handle),
    {
        self.states.insert(id.handle, FiberState::Running(tid));
        self.running.insert(tid, id.handle);
    }

    /// Records a newly created fiber `id`, which waits for its first resume.
    pub fn register(&mut self, id: FiberId)
        requires
            old(self).wf(),
            !old(self).states().contains_key(id.handle),
        ensures
            final(self).wf(),
            final(self).states() == old(self).states().insert(id.handle, FiberState::Suspended),
            final(self).running() == old(self).running(),
    {
        self.states.insert(id.handle, FiberState::Suspended);
    }

    /// Records that thread `tid` suspends its fiber and runs `target`, and
    /// returns the suspended fiber: the one that resumed `target`.
    pub fn resume(&mut self, tid: usize, target: FiberId) -> (prev: FiberId)
        requires
            old(self).wf(),
            old(self).running().contains_key(tid),
            old(self).states().contains_key(target.handle),
            old(self).states()[target.handle] == FiberState::Suspended,
        ensures
            final(self).wf(),
            prev.handle == old(self).running()[tid],
            prev.handle != target.handle,
            final(self).states() == old(self).states().insert(
                prev.handle,
                FiberState::Suspended,
            ).insert(target.handle, FiberState::Running(tid)),
            final(self).running() == old(self).running().insert(tid, target.handle),
    {
        let handle = *self.running.get(&tid).unwrap();
        self.states.insert(handle, FiberState::Suspended);
        self.states.insert(target.handle, FiberState::Running(tid));
        self.running.insert(tid, target.handle);
        FiberId { handle }
    }

    /// Records that the suspended fiber `id` is destroyed.
    pub fn destroy(&mut self, id: FiberId)
        requires
            old(self).wf(),
            old(self).states().contains_key(id.handle),
            old(self).states()[id.handle] == FiberState::Suspended,
        ensures
            final(self).wf(),
            final(self).states() == old(self).states().insert(id.handle, FiberState::Destroyed),
            final(self).running() == old(self).running(),
    {
        self.states.insert(id.handle, FiberState::Destroyed);
    }

    /// The state of fiber `id`, if it is known.
    pub fn state(&self, id: FiberId) -> (r: Option<FiberState>)
        ensures
            r is Some <==> self.states().contains_key(id.handle),
            r is Some ==> r->0 == self.states()[id.handle],
    {
        match self.states.get(&id.handle) {
            Some(s) => Some(*s),
            None => None,
        }
    }

    /// The fiber that thread `tid` runs, if the thread has become a fiber.
    pub fn current(&self, tid: usize) -> (r: Option<FiberId>)
        ensures
            r is Some <==> self.running().contains_key(tid),
            r is Some ==> r->0.handle == self.running()[tid],
    {
        match self.running.get(&tid) {
            Some(h) => Some(FiberId { handle: *h }),
            None => None,
        }
    }
}

/// Two OS threads never run the same fiber at once.
pub proof fn lemma_fiber_runs_on_one_thread(table: FiberTable, t1: usize, t2: usize)
    requires
        table.wf(),
        table.running().contains_key(t1),
        table.running().contains_key(t2),
        t1 != t2,
    ensures
        table.running()[t1] != table.running()[t2],
{
}

} // verus!
