//! The producer/consumer pipeline model: candidate events, the
//! orchestrator's worker bookkeeping with its single shutdown sentinel, the
//! dispatcher's task accounting, and the append-only record store that
//! stands for the persistence collaborator.
//!
//! The surrounding application owns the actual task handles and the
//! channel; it drives these step functions, which decide everything:
//! when the sentinel is sent, what each event spawns, and when the
//! dispatcher may return.

use vstd::prelude::*;
use vstd::seq_lib::group_to_multiset_ensures;
use crate::slp::ServerRecord;

verus! {

/// One candidate found by the scanner: its address and the raw output
/// line it came from.
#[derive(Clone, Debug)]
pub struct ScanCandidate {
    pub ip: String,
    pub line: String,
}

/// What travels over the shared event channel.  The explicit `Shutdown`
/// tag replaces any in-band sentinel value.
#[derive(Debug)]
pub enum CandidateEvent {
    Discovered(ScanCandidate),
    Shutdown,
}

/// What the dispatcher does with one event.
#[derive(Debug)]
pub enum DispatchAction {
    /// Spawn one independent verification task for this candidate.
    Spawn(ScanCandidate),
    /// Stop reading events and await every task spawned so far.
    Drain,
}

/// The orchestrator's view of its workers: how many exist, how many have
/// completed, and whether the shutdown sentinel has been sent.
#[derive(Clone, Copy, Debug, PartialEq, Eq, Structural)]
pub struct Orchestrator {
    pub num_workers: u32,
    pub completed: u32,
    pub shutdown_sent: bool,
}

impl Orchestrator {
    /// The sentinel is sent exactly when the last worker completes.
    pub open spec fn wf(self) -> bool {
        self.completed <= self.num_workers && (self.shutdown_sent <==> self.completed
            == self.num_workers)
    }

    pub fn new(num_workers: u32) -> (r: Orchestrator)
        requires
            num_workers >= 1,
        ensures
            r == orch_after(num_workers, 0),
            r.wf(),
    {
        Orchestrator { num_workers, completed: 0, shutdown_sent: false }
    }

    /// Records one worker completion.  The result says whether to send the
    /// shutdown sentinel now: true exactly for the last completion, so
    /// over a whole run exactly one sentinel enters the channel.
    pub fn worker_done(&mut self) -> (send_shutdown: bool)
        requires
            old(self).wf(),
            old(self).completed < old(self).num_workers,
        ensures
            final(self).wf(),
            *final(self) == orch_after(old(self).num_workers, old(self).completed + 1),
            send_shutdown <==> final(self).completed == final(self).num_workers,
            final(self).shutdown_sent == send_shutdown,
    {
        self.completed = self.completed + 1;
        let send = self.completed == self.num_workers;
        self.shutdown_sent = send;
        send
    }
}

/// The orchestrator state after `k` of `n` worker completions; by
/// [`Orchestrator::new`] and [`Orchestrator::worker_done`], a run with `n`
/// workers steps through exactly these states.
pub open spec fn orch_after(n: u32, k: int) -> Orchestrator
    recommends
        0 <= k <= n,
{
    Orchestrator { num_workers: n, completed: k as u32, shutdown_sent: k == n }
}

/// Shutdown completeness, sentinel half: over a whole run of `n` workers
/// the sentinel enters the channel exactly once.  The last completion
/// leaves the sentinel sent, and no two distinct completions can both
/// have been the sending one.
pub proof fn lemma_shutdown_exactly_once(n: u32, k1: int, k2: int)
    requires
        n >= 1,
        1 <= k1 <= n,
        1 <= k2 <= n,
        k1 != k2,
    ensures
        orch_after(n, n as int).shutdown_sent,
        !(orch_after(n, k1).shutdown_sent && orch_after(n, k2).shutdown_sent),
{
}

/// The dispatcher's accounting: how many verification tasks it has
/// spawned, how many of them have finished, and whether the shutdown
/// sentinel has been read.
#[derive(Clone, Copy, Debug, PartialEq, Eq, Structural)]
pub struct Dispatcher {
    pub spawned: u64,
    pub completed: u64,
    pub stopped: bool,
}

impl Dispatcher {
    pub open spec fn wf(self) -> bool {
        self.completed <= self.spawned
    }

    pub fn new() -> (r: Dispatcher)
        ensures
            r == (Dispatcher { spawned: 0u64, completed: 0u64, stopped: false }),
            r.wf(),
    {
        Dispatcher { spawned: 0, completed: 0, stopped: false }
    }

    /// Handles one channel event.  A discovered candidate spawns exactly
    /// one verification task, with no cap on how many run at once; the
    /// shutdown sentinel stops further reading and asks the caller to
    /// drain the tasks in flight.
    pub fn on_event(&mut self, event: CandidateEvent) -> (action: DispatchAction)
        requires
            old(self).wf(),
            !old(self).stopped,
            old(self).spawned < u64::MAX,
        ensures
            final(self).wf(),
            final(self).completed == old(self).completed,
            event matches CandidateEvent::Discovered(c) ==> final(self).spawned == old(
                self,
            ).spawned + 1 && !final(self).stopped && action == DispatchAction::Spawn(c),
            event is Shutdown ==> final(self).spawned == old(self).spawned && final(self).stopped
                && action is Drain,
    {
        match event {
            CandidateEvent::Discovered(c) => {
                self.spawned = self.spawned + 1;
                DispatchAction::Spawn(c)
            },
            CandidateEvent::Shutdown => {
                self.stopped = true;
                DispatchAction::Drain
            },
        }
    }

    /// Records that one verification task finished.  The outcome is taken
    /// only to be counted: a failed task changes nothing but the completed
    /// count, so a failure can never touch sibling tasks, stop the
    /// dispatcher early, or reach the workers.
    pub fn task_finished(&mut self, outcome: &Result<ServerRecord, crate::slp::Error>)
        requires
            old(self).wf(),
            old(self).completed < old(self).spawned,
        ensures
            final(self).wf(),
            final(self).spawned == old(self).spawned,
            final(self).stopped == old(self).stopped,
            final(self).completed == old(self).completed + 1,
    {
        let _ = outcome;
        self.completed = self.completed + 1;
    }

    /// Whether the dispatcher may return: only once the sentinel has been
    /// read and every task spawned so far has finished.
    pub fn run_complete(&self) -> (r: bool)
        ensures
            r <==> (self.stopped && self.completed == self.spawned),
    {
        self.stopped && self.completed == self.spawned
    }
}

/// The append-only store standing for the persistence collaborator: one
/// insert operation, no reads, no deduplication.
#[derive(Debug)]
pub struct RecordStore {
    pub records: Vec<ServerRecord>,
}

impl RecordStore {
    pub fn new() -> (r: RecordStore)
        ensures
            r.records@ == Seq::<ServerRecord>::empty(),
    {
        RecordStore { records: Vec::new() }
    }

    /// Appends the record unconditionally: a record equal to one already
    /// stored is stored again.
    pub fn insert(&mut self, record: ServerRecord)
        ensures
            final(self).records@ == old(self).records@.push(record),
    {
        self.records.push(record);
    }

    pub fn len(&self) -> (r: usize)
        ensures
            r == self.records@.len(),
    {
        self.records.len()
    }
}

/// No deduplication: appending a record the store already holds still
/// grows the store, and afterwards the store holds one more copy of that
/// record than before.
pub proof fn lemma_no_dedup(records: Seq<ServerRecord>, record: ServerRecord)
    requires
        records.contains(record),
    ensures
        records.push(record).len() == records.len() + 1,
        records.push(record).to_multiset().count(record) == records.to_multiset().count(record)
            + 1,
        records.to_multiset().count(record) >= 1,
{
    broadcast use group_to_multiset_ensures;

    records.to_multiset_ensures();
}

} // verus!
