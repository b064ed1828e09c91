//! The worker pool: a fixed set of workers pulling jobs from one shared,
//! unbounded queue with a single producer handle.
//!
//! The pool here is the coordination model: which worker holds which job,
//! what the queue contains, and how the shutdown protocol proceeds. The
//! operating-system side (threads, the channel, the lock around the shared
//! receiver) lives outside the library; each of its outcomes is reported to
//! this model as an event (`deliver`, `finish_job`, `lock_failed`, ...), and
//! each worker thread's own loop takes its decisions through [`worker_step`].
//!
//! A job is identified by a caller-chosen `u64`; the pool never looks inside
//! a job, it only routes it to exactly one worker.

use vstd::prelude::*;
use vstd::multiset::Multiset;

verus! {

/// A worker cycles between waiting for a job and executing one; `ShutDown`
/// is terminal: the worker's loop has returned and its thread only remains
/// to be joined.
#[derive(Clone, Copy, Debug, PartialEq, Eq, Structural)]
pub enum WorkerState {
    WaitingForJob,
    Executing { job: u64 },
    ShutDown,
}

/// What a worker observes: the outcome of one guarded `receive` attempt
/// (`Received`, `Closed`, `LockFailed`) or the end of the job it was running
/// (`Finished`, `Panicked`).
#[derive(Clone, Copy, Debug)]
pub enum WorkerEvent {
    /// The lock was acquired and the queue handed out a job.
    Received { job: u64 },
    /// The lock was acquired and the queue reported the producer side gone.
    Closed,
    /// The lock over the shared receiver could not be acquired.
    LockFailed,
    /// The job that was being executed ran to its natural end.
    Finished,
    /// The job that was being executed panicked; the worker thread dies with it.
    Panicked,
}

/// Which events can be observed in which state: receive outcomes while
/// waiting, job outcomes while executing.
pub open spec fn event_enabled(state: WorkerState, event: WorkerEvent) -> bool {
    match event {
        WorkerEvent::Received { .. } => state is WaitingForJob,
        WorkerEvent::Closed => state is WaitingForJob,
        WorkerEvent::LockFailed => state is WaitingForJob,
        WorkerEvent::Finished => state is Executing,
        WorkerEvent::Panicked => state is Executing,
    }
}

/// The worker run-loop transition table:
/// waiting + job -> executing; waiting + closure or lock failure -> shut down;
/// executing + completion -> waiting; executing + panic -> shut down.
pub open spec fn step_spec(state: WorkerState, event: WorkerEvent) -> WorkerState {
    match event {
        WorkerEvent::Received { job } => WorkerState::Executing { job },
        WorkerEvent::Closed => WorkerState::ShutDown,
        WorkerEvent::LockFailed => WorkerState::ShutDown,
        WorkerEvent::Finished => WorkerState::WaitingForJob,
        WorkerEvent::Panicked => WorkerState::ShutDown,
    }
}

/// One decision of a worker's run loop. A worker thread owns its state,
/// observes one event, and moves to the state this function returns; it
/// executes a job exactly when the new state is `Executing`.
pub fn worker_step(state: WorkerState, event: WorkerEvent) -> (next: WorkerState)
    requires
        event_enabled(state, event),
    ensures
        next == step_spec(state, event),
{
    match event {
        WorkerEvent::Received { job } => WorkerState::Executing { job },
        WorkerEvent::Closed => WorkerState::ShutDown,
        WorkerEvent::LockFailed => WorkerState::ShutDown,
        WorkerEvent::Finished => WorkerState::WaitingForJob,
        WorkerEvent::Panicked => WorkerState::ShutDown,
    }
}

/// One worker entry of the pool. `alive` says whether the pool still holds a
/// joinable thread handle for it; `failed` records that the worker stopped
/// contributing capacity abnormally (its thread never started, the shared
/// lock broke under it, or a job panicked on it).
#[derive(Clone, Copy, Debug)]
pub struct Worker {
    pub id: usize,
    pub alive: bool,
    pub failed: bool,
    pub state: WorkerState,
}

impl Worker {
    /// A freshly spawned worker: it starts by blocking on the shared queue.
    pub fn new(id: usize) -> (w: Worker)
        ensures
            w.id == id,
            w.alive,
            !w.failed,
            w.state == WorkerState::WaitingForJob,
    {
        Worker { id, alive: true, failed: false, state: WorkerState::WaitingForJob }
    }
}

/// The job a worker currently holds, as a multiset (empty unless executing).
pub open spec fn hand_of(w: Worker) -> Multiset<u64> {
    match w.state {
        WorkerState::Executing { job } => Multiset::empty().insert(job),
        _ => Multiset::empty(),
    }
}

/// All jobs currently in some worker's hands.
pub open spec fn in_hand(ws: Seq<Worker>) -> Multiset<u64>
    decreases ws.len(),
{
    if ws.len() == 0 {
        Multiset::empty()
    } else {
        in_hand(ws.drop_last()).add(hand_of(ws.last()))
    }
}

pub open spec fn all_shut_down(ws: Seq<Worker>) -> bool {
    forall|i: int| 0 <= i < ws.len() ==> (#[trigger] ws[i]).state is ShutDown
}

pub open spec fn no_failures(ws: Seq<Worker>) -> bool {
    forall|i: int| 0 <= i < ws.len() ==> !(#[trigger] ws[i]).failed
}

/// How far a worker still is from `ShutDown`, counted in steps weighted so
/// that every event during teardown strictly shrinks [`ThreadPool::teardown_measure`].
pub open spec fn state_weight(state: WorkerState) -> nat {
    match state {
        WorkerState::WaitingForJob => 2,
        WorkerState::Executing { .. } => 3,
        WorkerState::ShutDown => 0,
    }
}

pub open spec fn workers_weight(ws: Seq<Worker>) -> nat
    decreases ws.len(),
{
    if ws.len() == 0 {
        0
    } else {
        workers_weight(ws.drop_last()) + state_weight(ws.last().state)
    }
}

proof fn lemma_in_hand_update(ws: Seq<Worker>, i: int, w: Worker)
    requires
        0 <= i < ws.len(),
    ensures
        forall|v: u64|
            (#[trigger] in_hand(ws.update(i, w)).count(v)) + hand_of(ws[i]).count(v) == in_hand(
                ws,
            ).count(v) + hand_of(w).count(v),
    decreases ws.len(),
{
    broadcast use vstd::multiset::group_multiset_axioms;

    let ws2 = ws.update(i, w);
    assert(in_hand(ws2) == in_hand(ws2.drop_last()).add(hand_of(ws2.last())));
    assert(in_hand(ws) == in_hand(ws.drop_last()).add(hand_of(ws.last())));
    if i == ws.len() - 1 {
        assert(ws2.drop_last() =~= ws.drop_last());
        assert(in_hand(ws2.drop_last()) == in_hand(ws.drop_last()));
        assert(ws2.last() == w);
        assert(ws.last() == ws[i]);
    } else {
        assert(ws2.drop_last() =~= ws.drop_last().update(i, w));
        assert(in_hand(ws2.drop_last()) == in_hand(ws.drop_last().update(i, w)));
        assert(ws2.last() == ws.last());
        lemma_in_hand_update(ws.drop_last(), i, w);
        assert(ws.drop_last()[i] == ws[i]);
        assert forall|v: u64|
            (#[trigger] in_hand(ws2).count(v)) + hand_of(ws[i]).count(v) == in_hand(ws).count(v)
                + hand_of(w).count(v) by {
            assert(in_hand(ws.drop_last().update(i, w)).count(v) + hand_of(
                ws.drop_last()[i],
            ).count(v) == in_hand(ws.drop_last()).count(v) + hand_of(w).count(v));
        }
    }
}

proof fn lemma_in_hand_none(ws: Seq<Worker>)
    requires
        forall|i: int| 0 <= i < ws.len() ==> !((#[trigger] ws[i]).state is Executing),
    ensures
        in_hand(ws) == Multiset::<u64>::empty(),
    decreases ws.len(),
{
    broadcast use vstd::multiset::group_multiset_axioms;

    if ws.len() > 0 {
        assert(forall|i: int|
            0 <= i < ws.drop_last().len() ==> #[trigger] ws.drop_last()[i] == ws[i]);
        lemma_in_hand_none(ws.drop_last());
        assert(ws.last() == ws[ws.len() - 1]);
        assert(in_hand(ws) =~= Multiset::<u64>::empty());
    }
}

proof fn lemma_weight_update(ws: Seq<Worker>, i: int, w: Worker)
    requires
        0 <= i < ws.len(),
    ensures
        workers_weight(ws.update(i, w)) + state_weight(ws[i].state) == workers_weight(ws)
            + state_weight(w.state),
    decreases ws.len(),
{
    let ws2 = ws.update(i, w);
    if i == ws.len() - 1 {
        assert(ws2.drop_last() =~= ws.drop_last());
        assert(ws2.last() == w);
    } else {
        assert(ws2.drop_last() =~= ws.drop_last().update(i, w));
        assert(ws2.last() == ws.last());
        lemma_weight_update(ws.drop_last(), i, w);
        assert(ws.drop_last()[i] == ws[i]);
    }
}

/// A worker update that does not touch the `failed` flag cannot clear an
/// existing failure.
proof fn lemma_flags_preserved(ws: Seq<Worker>, i: int, w: Worker)
    requires
        0 <= i < ws.len(),
        w.failed == ws[i].failed,
    ensures
        no_failures(ws.update(i, w)) ==> no_failures(ws),
{
    if no_failures(ws.update(i, w)) {
        assert forall|k: int| 0 <= k < ws.len() implies !(#[trigger] ws[k]).failed by {
            assert(!ws.update(i, w)[k].failed);
        }
    }
}

/// A worker update that does not touch the state cannot shut a worker down.
proof fn lemma_shutdown_preserved(ws: Seq<Worker>, i: int, w: Worker)
    requires
        0 <= i < ws.len(),
        w.state == ws[i].state,
    ensures
        all_shut_down(ws.update(i, w)) ==> all_shut_down(ws),
{
    if all_shut_down(ws.update(i, w)) {
        assert forall|k: int| 0 <= k < ws.len() implies (#[trigger] ws[k]).state
            is ShutDown by {
            assert(ws.update(i, w)[k].state is ShutDown);
        }
    }
}

/// Replacing worker `i` by one holding the same jobs keeps the ledger of
/// dequeued jobs balanced.
proof fn lemma_balance_same_hand(
    d: Seq<u64>,
    c: Seq<u64>,
    l: Seq<u64>,
    ws: Seq<Worker>,
    i: int,
    w: Worker,
)
    requires
        0 <= i < ws.len(),
        hand_of(w) == hand_of(ws[i]),
        d.to_multiset() == c.to_multiset().add(l.to_multiset()).add(in_hand(ws)),
    ensures
        d.to_multiset() == c.to_multiset().add(l.to_multiset()).add(in_hand(ws.update(i, w))),
{
    broadcast use vstd::multiset::group_multiset_axioms;

    lemma_in_hand_update(ws, i, w);
    assert(in_hand(ws.update(i, w)) =~= in_hand(ws)) by {
        assert forall|v: u64| in_hand(ws.update(i, w)).count(v) == in_hand(ws).count(v) by {
            assert(in_hand(ws.update(i, w)).count(v) + hand_of(ws[i]).count(v) == in_hand(
                ws,
            ).count(v) + hand_of(w).count(v));
        }
    }
}

/// A dequeue moves the front job of the queue into worker `i`'s empty hands.
proof fn lemma_balance_dequeue(
    d: Seq<u64>,
    c: Seq<u64>,
    l: Seq<u64>,
    ws: Seq<Worker>,
    i: int,
    w: Worker,
    j: u64,
)
    requires
        0 <= i < ws.len(),
        !(ws[i].state is Executing),
        w.state == (WorkerState::Executing { job: j }),
        d.to_multiset() == c.to_multiset().add(l.to_multiset()).add(in_hand(ws)),
    ensures
        d.push(j).to_multiset() == c.to_multiset().add(l.to_multiset()).add(
            in_hand(ws.update(i, w)),
        ),
{
    broadcast use vstd::multiset::group_multiset_axioms;

    d.to_multiset_ensures();
    lemma_in_hand_update(ws, i, w);
    assert(d.push(j).to_multiset() =~= c.to_multiset().add(l.to_multiset()).add(
        in_hand(ws.update(i, w)),
    )) by {
        assert(d.push(j).to_multiset() =~= d.to_multiset().insert(j));
        assert forall|v: u64|
            d.push(j).to_multiset().count(v) == c.to_multiset().add(l.to_multiset()).add(
                in_hand(ws.update(i, w)),
            ).count(v) by {
            assert(in_hand(ws.update(i, w)).count(v) + hand_of(ws[i]).count(v) == in_hand(
                ws,
            ).count(v) + hand_of(w).count(v));
            assert(d.push(j).to_multiset().count(v) == d.to_multiset().insert(j).count(v));
        }
    }
}

/// Ending the job in worker `i`'s hands moves it into either record: the
/// completions (first conclusion) or the losses (second conclusion).
proof fn lemma_balance_hand_out(
    d: Seq<u64>,
    c: Seq<u64>,
    l: Seq<u64>,
    ws: Seq<Worker>,
    i: int,
    w: Worker,
    j: u64,
)
    requires
        0 <= i < ws.len(),
        ws[i].state == (WorkerState::Executing { job: j }),
        !(w.state is Executing),
        d.to_multiset() == c.to_multiset().add(l.to_multiset()).add(in_hand(ws)),
    ensures
        d.to_multiset() == c.push(j).to_multiset().add(l.to_multiset()).add(
            in_hand(ws.update(i, w)),
        ),
        d.to_multiset() == c.to_multiset().add(l.push(j).to_multiset()).add(
            in_hand(ws.update(i, w)),
        ),
{
    broadcast use vstd::multiset::group_multiset_axioms;

    c.to_multiset_ensures();
    l.to_multiset_ensures();
    lemma_in_hand_update(ws, i, w);
    assert(d.to_multiset() =~= c.push(j).to_multiset().add(l.to_multiset()).add(
        in_hand(ws.update(i, w)),
    )) by {
        assert(c.push(j).to_multiset() =~= c.to_multiset().insert(j));
        assert forall|v: u64|
            d.to_multiset().count(v) == c.push(j).to_multiset().add(l.to_multiset()).add(
                in_hand(ws.update(i, w)),
            ).count(v) by {
            assert(in_hand(ws.update(i, w)).count(v) + hand_of(ws[i]).count(v) == in_hand(
                ws,
            ).count(v) + hand_of(w).count(v));
            assert(c.push(j).to_multiset().count(v) == c.to_multiset().insert(j).count(v));
        }
    }
    assert(d.to_multiset() =~= c.to_multiset().add(l.push(j).to_multiset()).add(
        in_hand(ws.update(i, w)),
    )) by {
        assert(l.push(j).to_multiset() =~= l.to_multiset().insert(j));
        assert forall|v: u64|
            d.to_multiset().count(v) == c.to_multiset().add(l.push(j).to_multiset()).add(
                in_hand(ws.update(i, w)),
            ).count(v) by {
            assert(in_hand(ws.update(i, w)).count(v) + hand_of(ws[i]).count(v) == in_hand(
                ws,
            ).count(v) + hand_of(w).count(v));
            assert(l.push(j).to_multiset().count(v) == l.to_multiset().insert(j).count(v));
        }
    }
}

/// An empty ledger is balanced against workers that hold nothing.
proof fn lemma_balance_empty(ws: Seq<Worker>)
    requires
        forall|i: int| 0 <= i < ws.len() ==> !((#[trigger] ws[i]).state is Executing),
    ensures
        Seq::<u64>::empty().to_multiset() == Seq::<u64>::empty().to_multiset().add(
            Seq::<u64>::empty().to_multiset(),
        ).add(in_hand(ws)),
{
    broadcast use vstd::multiset::group_multiset_axioms;

    lemma_in_hand_none(ws);
    Seq::<u64>::empty().to_multiset_ensures();
    vstd::multiset::lemma_multiset_empty_len(Seq::<u64>::empty().to_multiset());
    assert(Seq::<u64>::empty().to_multiset() =~= Multiset::<u64>::empty());
    assert(Seq::<u64>::empty().to_multiset() =~= Seq::<u64>::empty().to_multiset().add(
        Seq::<u64>::empty().to_multiset(),
    ).add(in_hand(ws)));
}

/// The worker pool: the single submission endpoint (`sender_present` models
/// the producer handle), the queue, and the workers, together with a record
/// of where every submitted job went.
///
/// `pending` is the queue's content in submission order; `completed` the jobs
/// that ran to their natural end, in completion order; `lost` the jobs taken
/// by a worker whose thread died executing them. The ghost `submitted` and
/// `delivered` sequences record the full submission and dequeue histories.
pub struct ThreadPool {
    pub workers: Vec<Worker>,
    pub sender_present: bool,
    pub pending: Vec<u64>,
    pub completed: Vec<u64>,
    pub lost: Vec<u64>,
    pub submitted: Ghost<Seq<u64>>,
    pub delivered: Ghost<Seq<u64>>,
}

impl ThreadPool {
    /// The pool invariant.
    ///
    /// Every submitted job is accounted for exactly once: still queued,
    /// dequeued in queue order (`submitted == delivered + pending`), and once
    /// dequeued either in exactly one worker's hands, completed, or lost to a
    /// panic. While the producer handle is present a worker only shuts down
    /// by failing, and once every worker has shut down cleanly after the
    /// producer handle was dropped, the queue is necessarily empty.
    pub open spec fn wf(self) -> bool {
        &&& self.workers@.len() >= 1
        &&& forall|i: int|
            0 <= i < self.workers@.len() ==> (#[trigger] self.workers@[i]).id == i
        &&& forall|i: int|
            0 <= i < self.workers@.len() ==> (!(#[trigger] self.workers@[i]).alive
                ==> self.workers@[i].state is ShutDown)
        &&& forall|i: int|
            0 <= i < self.workers@.len() ==> ((#[trigger] self.workers@[i]).state is ShutDown
                && self.sender_present ==> self.workers@[i].failed)
        &&& self.submitted@ == self.delivered@ + self.pending@
        &&& self.delivered@.to_multiset() == self.completed@.to_multiset().add(
            self.lost@.to_multiset(),
        ).add(in_hand(self.workers@))
        &&& (!self.sender_present && all_shut_down(self.workers@) && no_failures(self.workers@)
            ==> self.pending@.len() == 0)
        &&& (no_failures(self.workers@) ==> self.lost@ == Seq::<u64>::empty())
    }

    /// How much work remains before every worker is shut down: strictly
    /// decreased by every event once the producer handle is gone, so the
    /// shutdown protocol cannot run forever.
    pub open spec fn teardown_measure(self) -> nat {
        3 * self.pending@.len() + workers_weight(self.workers@)
    }

    /// Create a new pool of `size` workers, each immediately waiting on the
    /// shared queue.
    ///
    /// A pool of size zero is a precondition violation: callers outside the
    /// library must fail loudly rather than construct one.
    pub fn new(size: usize) -> (pool: ThreadPool)
        requires
            size > 0,
        ensures
            pool.wf(),
            pool.workers@.len() == size,
            forall|k: int|
                0 <= k < size ==> {
                    let w = #[trigger] pool.workers@[k];
                    w.id == k && w.alive && !w.failed && w.state == WorkerState::WaitingForJob
                },
            pool.sender_present,
            pool.pending@ == Seq::<u64>::empty(),
            pool.completed@ == Seq::<u64>::empty(),
            pool.lost@ == Seq::<u64>::empty(),
            pool.submitted@ == Seq::<u64>::empty(),
            pool.delivered@ == Seq::<u64>::empty(),
    {
        let mut workers: Vec<Worker> = Vec::new();
        let mut id: usize = 0;
        while id < size
            invariant
                id <= size,
                workers@.len() == id,
                forall|k: int|
                    0 <= k < id ==> {
                        let w = #[trigger] workers@[k];
                        w.id == k && w.alive && !w.failed && w.state == WorkerState::WaitingForJob
                    },
            decreases size - id,
        {
            workers.push(Worker::new(id));
            id = id + 1;
        }
        let pool = ThreadPool {
            workers,
            sender_present: true,
            pending: Vec::new(),
            completed: Vec::new(),
            lost: Vec::new(),
            submitted: Ghost(Seq::empty()),
            delivered: Ghost(Seq::empty()),
        };
        proof {
            lemma_balance_empty(pool.workers@);
            assert(pool.submitted@ =~= pool.delivered@ + pool.pending@);
        }
        pool
    }

    /// Submit a job. The job is appended to the unbounded queue and the
    /// caller returns at once; there is no ordering or completion guarantee.
    /// Submitting requires the producer handle, which the pool holds for its
    /// whole lifetime until teardown begins.
    pub fn execute(&mut self, job: u64)
        requires
            old(self).wf(),
            old(self).sender_present,
        ensures
            final(self).wf(),
            final(self).sender_present,
            final(self).workers@ == old(self).workers@,
            final(self).pending@ == old(self).pending@.push(job),
            final(self).completed@ == old(self).completed@,
            final(self).lost@ == old(self).lost@,
            final(self).submitted@ == old(self).submitted@.push(job),
            final(self).delivered@ == old(self).delivered@,
    {
        self.pending.push(job);
        proof {
            self.submitted@ = self.submitted@.push(job);
            assert(self.submitted@ =~= self.delivered@ + self.pending@);
        }
    }

    /// Worker `i`, waiting on the queue, completes one guarded `receive`:
    /// it takes the front job if the queue is nonempty, and otherwise — only
    /// possible once the producer handle is gone — observes closure and shuts
    /// down. A waiting worker blocks (no event at all) on an empty queue
    /// whose producer handle is still present, so that case is excluded.
    ///
    /// Exactly one worker changes, and a dequeued job moves from the queue
    /// into that worker's hands alone: the lock around the shared receiver
    /// serializes dequeues.
    pub fn deliver(&mut self, i: usize) -> (job: Option<u64>)
        requires
            old(self).wf(),
            i < old(self).workers@.len(),
            old(self).workers@[i as int].state is WaitingForJob,
            old(self).pending@.len() > 0 || !old(self).sender_present,
        ensures
            final(self).wf(),
            final(self).sender_present == old(self).sender_present,
            final(self).submitted@ == old(self).submitted@,
            final(self).completed@ == old(self).completed@,
            final(self).lost@ == old(self).lost@,
            final(self).teardown_measure() < old(self).teardown_measure(),
            ({
                let prev = old(self).workers@[i as int];
                if old(self).pending@.len() > 0 {
                    &&& job == Some(old(self).pending@[0])
                    &&& final(self).pending@ == old(self).pending@.drop_first()
                    &&& final(self).delivered@ == old(self).delivered@.push(old(self).pending@[0])
                    &&& final(self).workers@ == old(self).workers@.update(
                        i as int,
                        Worker { state: WorkerState::Executing { job: old(self).pending@[0] }, ..prev },
                    )
                } else {
                    &&& job is None
                    &&& final(self).pending@ == old(self).pending@
                    &&& final(self).delivered@ == old(self).delivered@
                    &&& final(self).workers@ == old(self).workers@.update(
                        i as int,
                        Worker { state: WorkerState::ShutDown, ..prev },
                    )
                }
            }),
    {
        broadcast use vstd::multiset::group_multiset_axioms;

        let w = self.workers[i];
        if self.pending.len() > 0 {
            let j = self.pending.remove(0);
            let next = worker_step(w.state, WorkerEvent::Received { job: j });
            let w2 = Worker { state: next, ..w };
            self.workers.set(i, w2);
            proof {
                self.delivered@ = self.delivered@.push(j);
                assert(old(self).pending@.remove(0) =~= old(self).pending@.drop_first());
                assert(self.submitted@ =~= self.delivered@ + self.pending@) by {
                    assert(old(self).delivered@ + old(self).pending@ =~= old(
                        self,
                    ).delivered@.push(j) + old(self).pending@.drop_first());
                }
                lemma_balance_dequeue(
                    old(self).delivered@,
                    old(self).completed@,
                    old(self).lost@,
                    old(self).workers@,
                    i as int,
                    w2,
                    j,
                );
                lemma_weight_update(old(self).workers@, i as int, w2);
                lemma_flags_preserved(old(self).workers@, i as int, w2);
                assert(!all_shut_down(self.workers@)) by {
                    assert(self.workers@[i as int].state is Executing);
                }
            }
            Some(j)
        } else {
            let next = worker_step(w.state, WorkerEvent::Closed);
            let w2 = Worker { state: next, ..w };
            self.workers.set(i, w2);
            proof {
                lemma_balance_same_hand(
                    old(self).delivered@,
                    old(self).completed@,
                    old(self).lost@,
                    old(self).workers@,
                    i as int,
                    w2,
                );
                lemma_weight_update(old(self).workers@, i as int, w2);
                lemma_flags_preserved(old(self).workers@, i as int, w2);
            }
            None
        }
    }

    /// Worker `i` ran its job to the job's own natural end (it released the
    /// shared lock before starting it) and goes back to waiting on the queue.
    pub fn finish_job(&mut self, i: usize)
        requires
            old(self).wf(),
            i < old(self).workers@.len(),
            old(self).workers@[i as int].state is Executing,
        ensures
            final(self).wf(),
            final(self).sender_present == old(self).sender_present,
            final(self).pending@ == old(self).pending@,
            final(self).lost@ == old(self).lost@,
            final(self).submitted@ == old(self).submitted@,
            final(self).delivered@ == old(self).delivered@,
            final(self).teardown_measure() < old(self).teardown_measure(),
            ({
                let prev = old(self).workers@[i as int];
                &&& final(self).completed@ == old(self).completed@.push(job_of(prev.state))
                &&& final(self).workers@ == old(self).workers@.update(
                    i as int,
                    Worker { state: WorkerState::WaitingForJob, ..prev },
                )
            }),
    {
        broadcast use vstd::multiset::group_multiset_axioms;

        let w = self.workers[i];
        let j = match w.state {
            WorkerState::Executing { job } => job,
            _ => 0,
        };
        let next = worker_step(w.state, WorkerEvent::Finished);
        let w2 = Worker { state: next, ..w };
        self.workers.set(i, w2);
        self.completed.push(j);
        proof {
            lemma_balance_hand_out(
                old(self).delivered@,
                old(self).completed@,
                old(self).lost@,
                old(self).workers@,
                i as int,
                w2,
                j,
            );
            lemma_weight_update(old(self).workers@, i as int, w2);
            lemma_flags_preserved(old(self).workers@, i as int, w2);
            assert(!all_shut_down(self.workers@)) by {
                assert(self.workers@[i as int].state is WaitingForJob);
            }
        }
    }

    /// The job worker `i` was running panicked. The panic is the job's own:
    /// it is not masked, the worker thread dies with it, and the pool
    /// permanently loses that worker's capacity. The job is recorded as lost.
    pub fn job_panicked(&mut self, i: usize)
        requires
            old(self).wf(),
            i < old(self).workers@.len(),
            old(self).workers@[i as int].state is Executing,
        ensures
            final(self).wf(),
            final(self).sender_present == old(self).sender_present,
            final(self).pending@ == old(self).pending@,
            final(self).completed@ == old(self).completed@,
            final(self).submitted@ == old(self).submitted@,
            final(self).delivered@ == old(self).delivered@,
            final(self).teardown_measure() < old(self).teardown_measure(),
            ({
                let prev = old(self).workers@[i as int];
                &&& final(self).lost@ == old(self).lost@.push(job_of(prev.state))
                &&& final(self).workers@ == old(self).workers@.update(
                    i as int,
                    Worker { state: WorkerState::ShutDown, failed: true, ..prev },
                )
            }),
    {
        broadcast use vstd::multiset::group_multiset_axioms;

        let w = self.workers[i];
        let j = match w.state {
            WorkerState::Executing { job } => job,
            _ => 0,
        };
        let next = worker_step(w.state, WorkerEvent::Panicked);
        let w2 = Worker { state: next, failed: true, ..w };
        self.workers.set(i, w2);
        self.lost.push(j);
        proof {
            lemma_balance_hand_out(
                old(self).delivered@,
                old(self).completed@,
                old(self).lost@,
                old(self).workers@,
                i as int,
                w2,
                j,
            );
            lemma_weight_update(old(self).workers@, i as int, w2);
            assert(!no_failures(self.workers@)) by {
                assert(self.workers@[i as int].failed);
            }
        }
    }

    /// Worker `i` could not acquire the lock over the shared receiver (the
    /// lock state is broken): it treats this as unrecoverable and exits its
    /// loop at once instead of retrying.
    pub fn lock_failed(&mut self, i: usize)
        requires
            old(self).wf(),
            i < old(self).workers@.len(),
            old(self).workers@[i as int].state is WaitingForJob,
        ensures
            final(self).wf(),
            final(self).sender_present == old(self).sender_present,
            final(self).pending@ == old(self).pending@,
            final(self).completed@ == old(self).completed@,
            final(self).lost@ == old(self).lost@,
            final(self).submitted@ == old(self).submitted@,
            final(self).delivered@ == old(self).delivered@,
            final(self).teardown_measure() < old(self).teardown_measure(),
            final(self).workers@ == old(self).workers@.update(
                i as int,
                Worker {
                    state: WorkerState::ShutDown,
                    failed: true,
                    ..old(self).workers@[i as int]
                },
            ),
    {
        broadcast use vstd::multiset::group_multiset_axioms;

        let w = self.workers[i];
        let next = worker_step(w.state, WorkerEvent::LockFailed);
        let w2 = Worker { state: next, failed: true, ..w };
        self.workers.set(i, w2);
        proof {
            lemma_balance_same_hand(
                old(self).delivered@,
                old(self).completed@,
                old(self).lost@,
                old(self).workers@,
                i as int,
                w2,
            );
            lemma_weight_update(old(self).workers@, i as int, w2);
            assert(!no_failures(self.workers@)) by {
                assert(self.workers@[i as int].failed);
            }
        }
    }

    /// Worker `i`'s thread never started. The worker is recorded with no
    /// live thread: it contributes no capacity, but pool construction is not
    /// aborted and the pool stays usable.
    pub fn spawn_failed(&mut self, i: usize)
        requires
            old(self).wf(),
            i < old(self).workers@.len(),
            old(self).workers@[i as int].state is WaitingForJob,
        ensures
            final(self).wf(),
            final(self).sender_present == old(self).sender_present,
            final(self).pending@ == old(self).pending@,
            final(self).completed@ == old(self).completed@,
            final(self).lost@ == old(self).lost@,
            final(self).submitted@ == old(self).submitted@,
            final(self).delivered@ == old(self).delivered@,
            final(self).teardown_measure() < old(self).teardown_measure(),
            final(self).workers@ == old(self).workers@.update(
                i as int,
                Worker {
                    state: WorkerState::ShutDown,
                    alive: false,
                    failed: true,
                    ..old(self).workers@[i as int]
                },
            ),
    {
        broadcast use vstd::multiset::group_multiset_axioms;

        let w = self.workers[i];
        let w2 = Worker { state: WorkerState::ShutDown, alive: false, failed: true, ..w };
        self.workers.set(i, w2);
        proof {
            lemma_balance_same_hand(
                old(self).delivered@,
                old(self).completed@,
                old(self).lost@,
                old(self).workers@,
                i as int,
                w2,
            );
            lemma_weight_update(old(self).workers@, i as int, w2);
            assert(!no_failures(self.workers@)) by {
                assert(self.workers@[i as int].failed);
            }
        }
    }

    /// Begin teardown: drop the producer handle. This is the sole shutdown
    /// signal — no flag, no message. From here on nothing can be submitted,
    /// and every worker's next empty receive observes closure.
    pub fn shutdown_begin(&mut self)
        requires
            old(self).wf(),
        ensures
            final(self).wf(),
            !final(self).sender_present,
            final(self).workers@ == old(self).workers@,
            final(self).pending@ == old(self).pending@,
            final(self).completed@ == old(self).completed@,
            final(self).lost@ == old(self).lost@,
            final(self).submitted@ == old(self).submitted@,
            final(self).delivered@ == old(self).delivered@,
    {
        self.sender_present = false;
        proof {
            if old(self).sender_present && all_shut_down(self.workers@) && no_failures(
                self.workers@,
            ) {
                assert(self.workers@[0].state is ShutDown);
                assert(self.workers@[0].failed);
                assert(false);
            }
        }
    }

    /// Join worker `i` during teardown: take its thread handle, if any, and
    /// wait for the thread. A worker still running blocks the join until it
    /// observes closure, so joining requires the worker to have shut down;
    /// a worker with no live handle is skipped immediately. A join that
    /// reports a panicked thread is only logged: teardown proceeds with the
    /// remaining workers either way.
    pub fn join_worker(&mut self, i: usize)
        requires
            old(self).wf(),
            i < old(self).workers@.len(),
            old(self).workers@[i as int].alive ==> old(self).workers@[i as int].state
                is ShutDown,
        ensures
            final(self).wf(),
            final(self).sender_present == old(self).sender_present,
            final(self).pending@ == old(self).pending@,
            final(self).completed@ == old(self).completed@,
            final(self).lost@ == old(self).lost@,
            final(self).submitted@ == old(self).submitted@,
            final(self).delivered@ == old(self).delivered@,
            final(self).workers@ == old(self).workers@.update(
                i as int,
                Worker { alive: false, ..old(self).workers@[i as int] },
            ),
    {
        broadcast use vstd::multiset::group_multiset_axioms;

        let w = self.workers[i];
        let w2 = Worker { alive: false, ..w };
        self.workers.set(i, w2);
        proof {
            lemma_balance_same_hand(
                old(self).delivered@,
                old(self).completed@,
                old(self).lost@,
                old(self).workers@,
                i as int,
                w2,
            );
            lemma_flags_preserved(old(self).workers@, i as int, w2);
            lemma_shutdown_preserved(old(self).workers@, i as int, w2);
        }
    }
}

proof fn lemma_weight_bound(ws: Seq<Worker>, i: int)
    requires
        0 <= i < ws.len(),
    ensures
        workers_weight(ws) >= state_weight(ws[i].state),
    decreases ws.len(),
{
    if i == ws.len() - 1 {
        assert(ws.last() == ws[i]);
    } else {
        lemma_weight_bound(ws.drop_last(), i);
        assert(ws.drop_last()[i] == ws[i]);
    }
}

/// Exactly-once dispatch. In a well-formed pool every submitted job instance
/// is in exactly one place: still queued, in exactly one worker's hands,
/// completed, or lost to a panicked job. No job is duplicated between the
/// queue and the workers, and none disappears while the queue is open.
pub proof fn lemma_exactly_once_accounting(p: ThreadPool)
    requires
        p.wf(),
    ensures
        p.submitted@.to_multiset() == p.pending@.to_multiset().add(in_hand(p.workers@)).add(
            p.completed@.to_multiset(),
        ).add(p.lost@.to_multiset()),
{
    broadcast use vstd::multiset::group_multiset_axioms;

    vstd::seq_lib::lemma_multiset_commutative(p.delivered@, p.pending@);
    assert(p.submitted@.to_multiset() == p.delivered@.to_multiset().add(
        p.pending@.to_multiset(),
    ));
    assert(p.submitted@.to_multiset() =~= p.pending@.to_multiset().add(in_hand(p.workers@)).add(
        p.completed@.to_multiset(),
    ).add(p.lost@.to_multiset()));
}

/// Dequeues are serialized: however the events interleave, a job is held by
/// at most one worker at a time, and each submitted instance is started at
/// most once — the count of a job across hands, completions and losses never
/// exceeds how often it was submitted.
pub proof fn lemma_no_duplicate_execution(p: ThreadPool, v: u64)
    requires
        p.wf(),
    ensures
        in_hand(p.workers@).count(v) + p.completed@.to_multiset().count(v)
            + p.lost@.to_multiset().count(v) <= p.submitted@.to_multiset().count(v),
{
    broadcast use vstd::multiset::group_multiset_axioms;

    lemma_exactly_once_accounting(p);
}

/// Teardown drains everything. Once the producer handle is gone and every
/// worker has shut down with no failure recorded, the jobs that ran to
/// completion are exactly the jobs ever submitted: nothing submitted before
/// teardown is dropped, nothing runs twice.
pub proof fn lemma_teardown_drains_all(p: ThreadPool)
    requires
        p.wf(),
        !p.sender_present,
        all_shut_down(p.workers@),
        no_failures(p.workers@),
    ensures
        p.completed@.to_multiset() == p.submitted@.to_multiset(),
{
    broadcast use vstd::multiset::group_multiset_axioms;

    lemma_exactly_once_accounting(p);
    assert(forall|i: int|
        0 <= i < p.workers@.len() ==> !((#[trigger] p.workers@[i]).state is Executing));
    lemma_in_hand_none(p.workers@);
    assert(p.pending@.len() == 0);
    assert(p.lost@ == Seq::<u64>::empty());
    p.pending@.to_multiset_ensures();
    p.lost@.to_multiset_ensures();
    vstd::multiset::lemma_multiset_empty_len(p.pending@.to_multiset());
    vstd::multiset::lemma_multiset_empty_len(p.lost@.to_multiset());
    assert(p.completed@.to_multiset() =~= p.submitted@.to_multiset());
}

/// Teardown terminates. Once the producer handle is gone a worker that has
/// not shut down always has an enabled step — an empty receive returns the
/// closure signal at once instead of blocking, and a running job ends in
/// `finish_job` or `job_panicked` — and by the `teardown_measure` clauses of
/// those steps each one strictly shrinks a finite measure, so every worker
/// reaches `ShutDown` and the join loop completes.
pub proof fn lemma_teardown_progress(p: ThreadPool, i: int)
    requires
        p.wf(),
        !p.sender_present,
        0 <= i < p.workers@.len(),
        !(p.workers@[i].state is ShutDown),
    ensures
        p.workers@[i].state is WaitingForJob ==> (p.pending@.len() > 0 || !p.sender_present),
        p.workers@[i].state is WaitingForJob ==> event_enabled(
            p.workers@[i].state,
            WorkerEvent::Closed,
        ),
        p.workers@[i].state is Executing ==> event_enabled(
            p.workers@[i].state,
            WorkerEvent::Finished,
        ),
        p.teardown_measure() > 0,
{
    lemma_weight_bound(p.workers@, i);
}

/// The job carried by an `Executing` state (zero for the other states, which
/// never arises where this function is used).
pub open spec fn job_of(state: WorkerState) -> u64 {
    match state {
        WorkerState::Executing { job } => job,
        _ => 0,
    }
}

} // verus!
