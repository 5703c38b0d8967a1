//! The worker pool as a transition system.
//!
//! A pool is described by what its threads are doing and by a ledger of the
//! jobs it has seen. Jobs are numbered in the order in which the pool accepted
//! them; the number of a job is its position in `accepted`. Every operation of
//! the pool is a function from one such state to the next, and the invariant
//! `inv` holds of every state that the operations can reach.

use crate::threadpool::PoolError;
use vstd::prelude::*;

verus! {

/// What the thread of a worker is doing.
#[derive(Clone, Copy, Debug, PartialEq, Eq, Structural)]
pub enum WorkerState {
    /// Waiting for a job, or about to ask for one.
    Idle,
    /// Executing a job.
    Busy,
    /// Returned after it found the job source closed and drained.
    Exited,
    /// Killed by the job it was executing.
    Faulted,
}

/// What a worker gets when it asks the pool for a job.
#[derive(Debug, PartialEq, Eq)]
pub enum Received<J> {
    /// The oldest job that no worker had taken yet.
    Job(J),
    /// No job is waiting and none will come: the worker is to return.
    Closed,
    /// No job is waiting, but the pool still accepts jobs: the worker is to wait.
    Empty,
}

/// How far the shutdown of a pool has come.
#[derive(Clone, Copy, Debug, PartialEq, Eq, Structural)]
pub enum Shutdown {
    /// The pool is closed and every worker has been joined.
    Complete,
    /// The thread of the worker with this number is still running: the
    /// shutdown cannot go on before it has ended.
    Pending(usize),
}

/// One worker of the pool.
pub struct WorkerView {
    pub state: WorkerState,
    /// The pool still holds the handle of the thread.
    pub joinable: bool,
    /// The number of the job that the thread is executing, or that killed it.
    pub job: Option<nat>,
}

impl WorkerView {
    /// A worker as the pool creates it.
    pub open spec fn fresh() -> WorkerView {
        WorkerView { state: WorkerState::Idle, joinable: true, job: None }
    }

    /// The thread has come to its end, in either way.
    pub open spec fn ended(self) -> bool {
        self.state == WorkerState::Exited || self.state == WorkerState::Faulted
    }

    /// A thread holds a job exactly while it executes one or after one killed
    /// it, and its handle is given up only once it has ended.
    pub open spec fn wf(self) -> bool {
        &&& self.job is Some <==> (self.state == WorkerState::Busy || self.state
            == WorkerState::Faulted)
        &&& !self.joinable ==> self.ended()
    }
}

/// The number of workers that hold a job.
pub open spec fn holding(workers: Seq<WorkerView>) -> nat
    decreases workers.len(),
{
    if workers.len() == 0 {
        0
    } else {
        holding(workers.drop_last()) + if workers.last().job is Some {
            1nat
        } else {
            0nat
        }
    }
}

/// The state of a pool.
pub struct PoolView<J> {
    /// The workers, in the order in which they were created.
    pub workers: Seq<WorkerView>,
    /// The sending half of the job channel is still in place.
    pub open: bool,
    /// Every job that the pool accepted, in the order of submission.
    pub accepted: Seq<J>,
    /// How many jobs have been handed to a worker.
    pub started: nat,
    /// The numbers of the jobs that ran to completion, in the order in which
    /// they completed.
    pub finished: Seq<nat>,
}

impl<J> PoolView<J> {
    /// A new pool of `size` workers.
    pub open spec fn init(size: nat) -> Self {
        PoolView {
            workers: Seq::new(size, |w: int| WorkerView::fresh()),
            open: true,
            accepted: Seq::empty(),
            started: 0,
            finished: Seq::empty(),
        }
    }

    /// The jobs that wait for a worker, oldest first.
    pub open spec fn pending(self) -> Seq<J> {
        self.accepted.skip(self.started as int)
    }

    /// Worker `w` exists and is in state `state`.
    pub open spec fn worker_is(self, w: int, state: WorkerState) -> bool {
        0 <= w < self.workers.len() && self.workers[w].state == state
    }

    /// Worker `w` holds job number `k`.
    pub open spec fn holds(self, w: int, k: nat) -> bool {
        0 <= w < self.workers.len() && self.workers[w].job == Some(k)
    }

    /// Worker `w` is the first worker whose handle the pool still holds.
    pub open spec fn first_joinable(self, w: int) -> bool {
        &&& 0 <= w < self.workers.len()
        &&& self.workers[w].joinable
        &&& forall|v: int| 0 <= v < w ==> !(#[trigger] self.workers[v]).joinable
    }

    /// No handle is left to join.
    pub open spec fn all_joined(self) -> bool {
        forall|w: int| 0 <= w < self.workers.len() ==> !(#[trigger] self.workers[w]).joinable
    }

    /// Every worker returned in the regular way.
    pub open spec fn all_exited(self) -> bool {
        forall|w: int|
            0 <= w < self.workers.len() ==> (#[trigger] self.workers[w]).state
                == WorkerState::Exited
    }

    /// A job is submitted: an open pool appends it to its ledger, a closed
    /// pool discards it.
    pub open spec fn submit(self, job: J) -> Self {
        if self.open {
            PoolView { accepted: self.accepted.push(job), ..self }
        } else {
            self
        }
    }

    /// The sending half is dropped.
    pub open spec fn disconnect(self) -> Self {
        PoolView { open: false, ..self }
    }

    /// What an idle worker is told when it asks for a job.
    pub open spec fn answer(self) -> Received<J> {
        if self.started < self.accepted.len() {
            Received::Job(self.accepted[self.started as int])
        } else if !self.open {
            Received::Closed
        } else {
            Received::Empty
        }
    }

    /// Idle worker `w` asks for a job: it takes the oldest waiting job, or
    /// returns if the pool is closed and drained, or goes on waiting.
    pub open spec fn receive(self, w: int) -> Self {
        if self.started < self.accepted.len() {
            PoolView {
                workers: self.workers.update(
                    w,
                    WorkerView {
                        state: WorkerState::Busy,
                        job: Some(self.started),
                        ..self.workers[w]
                    },
                ),
                started: self.started + 1,
                ..self
            }
        } else if !self.open {
            PoolView {
                workers: self.workers.update(
                    w,
                    WorkerView { state: WorkerState::Exited, ..self.workers[w] },
                ),
                ..self
            }
        } else {
            self
        }
    }

    /// Busy worker `w` completes its job.
    pub open spec fn finish(self, w: int) -> Self {
        PoolView {
            workers: self.workers.update(
                w,
                WorkerView { state: WorkerState::Idle, job: None, ..self.workers[w] },
            ),
            finished: self.finished.push(self.workers[w].job.unwrap()),
            ..self
        }
    }

    /// The job of busy worker `w` kills its thread.
    pub open spec fn fault(self, w: int) -> Self {
        PoolView {
            workers: self.workers.update(
                w,
                WorkerView { state: WorkerState::Faulted, ..self.workers[w] },
            ),
            ..self
        }
    }

    /// The pool gives up the handle of worker `w`, whose thread has ended.
    pub open spec fn join(self, w: int) -> Self {
        PoolView {
            workers: self.workers.update(w, WorkerView { joinable: false, ..self.workers[w] }),
            ..self
        }
    }

    /// The workers are joined in their order, from worker `w` on: a worker
    /// whose handle is gone is passed over, the handle of a worker that has
    /// returned is taken, and the first worker that is otherwise ends the
    /// round. If a job killed it, its handle is taken and its death is the
    /// error; if it is still running, the shutdown is pending. Behind the
    /// last worker the shutdown is complete.
    pub open spec fn join_from(self, w: int) -> (Self, Result<Shutdown, PoolError>)
        decreases self.workers.len() - w,
    {
        if w < 0 || w >= self.workers.len() {
            (self, Ok(Shutdown::Complete))
        } else if !self.workers[w].joinable {
            self.join_from(w + 1)
        } else {
            match self.workers[w].state {
                WorkerState::Exited => self.join(w).join_from(w + 1),
                WorkerState::Faulted => (self.join(w), Err(PoolError::WorkerPanicked(w as usize))),
                _ => (self, Ok(Shutdown::Pending(w as usize))),
            }
        }
    }

    /// The pool is shut down as far as its threads allow: the sending half is
    /// dropped, and then the workers are joined in their order.
    pub open spec fn close(self) -> (Self, Result<Shutdown, PoolError>) {
        self.disconnect().join_from(0)
    }

    /// What holds of every pool.
    pub open spec fn inv(self) -> bool {
        &&& self.workers.len() >= 1
        &&& self.started <= self.accepted.len()
        &&& forall|w: int| 0 <= w < self.workers.len() ==> (#[trigger] self.workers[w]).wf()
        // a worker returns only from a closed and drained pool
        &&& forall|w: int|
            0 <= w < self.workers.len() && (#[trigger] self.workers[w]).state
                == WorkerState::Exited ==> !self.open && self.started == self.accepted.len()
        // a job that is held was handed out, to one worker only, and has not completed
        &&& forall|w: int, k: nat|
            #[trigger] self.holds(w, k) ==> k < self.started && !self.finished.contains(k)
        &&& forall|v: int, w: int, k: nat|
            #[trigger] self.holds(v, k) && #[trigger] self.holds(w, k) ==> v == w
        // a job that completed was handed out, and completed once
        &&& forall|p: int|
            0 <= p < self.finished.len() ==> (#[trigger] self.finished[p]) < self.started
        &&& self.finished.no_duplicates()
        // a job that was handed out completed or is held
        &&& forall|k: nat|
            k < self.started ==> #[trigger] self.finished.contains(k) || exists|w: int|
                self.holds(w, k)
        &&& self.started == self.finished.len() + holding(self.workers)
        // a job is overtaken by fewer later jobs than there are workers
        &&& forall|p: int|
            0 <= p < self.finished.len() ==> (#[trigger] self.finished[p]) < p
                + self.workers.len()
    }
}

/// No more workers hold a job than there are workers.
pub proof fn lemma_holding_bound(workers: Seq<WorkerView>)
    ensures
        holding(workers) <= workers.len(),
    decreases workers.len(),
{
    if workers.len() > 0 {
        lemma_holding_bound(workers.drop_last());
    }
}

/// Where no worker holds a job, the count is zero.
pub proof fn lemma_holding_none(workers: Seq<WorkerView>)
    requires
        forall|w: int| 0 <= w < workers.len() ==> (#[trigger] workers[w]).job is None,
    ensures
        holding(workers) == 0,
    decreases workers.len(),
{
    if workers.len() > 0 {
        lemma_holding_none(workers.drop_last());
    }
}

/// Workers that hold the same jobs count the same.
pub proof fn lemma_holding_same(before: Seq<WorkerView>, after: Seq<WorkerView>)
    requires
        before.len() == after.len(),
        forall|w: int| 0 <= w < before.len() ==> (#[trigger] after[w]).job == before[w].job,
    ensures
        holding(after) == holding(before),
    decreases before.len(),
{
    if before.len() > 0 {
        lemma_holding_same(before.drop_last(), after.drop_last());
    }
}

/// Replacing one worker changes the count by what that worker contributes.
pub proof fn lemma_holding_update(workers: Seq<WorkerView>, w: int, worker: WorkerView)
    requires
        0 <= w < workers.len(),
    ensures
        holding(workers.update(w, worker)) + (if workers[w].job is Some {
            1nat
        } else {
            0nat
        }) == holding(workers) + (if worker.job is Some {
            1nat
        } else {
            0nat
        }),
    decreases workers.len(),
{
    let after = workers.update(w, worker);
    if w == workers.len() - 1 {
        assert(after.drop_last() =~= workers.drop_last());
    } else {
        assert(after.drop_last() =~= workers.drop_last().update(w, worker));
        lemma_holding_update(workers.drop_last(), w, worker);
    }
}

impl<J> PoolView<J> {
    /// A new pool meets the invariant.
    pub proof fn lemma_init_inv(size: nat)
        requires
            size >= 1,
        ensures
            Self::init(size).inv(),
    {
        lemma_holding_none(Self::init(size).workers);
    }

    /// What the invariant says of who holds which job passes from one state
    /// to another in which every worker holds what it held, and as many jobs
    /// were handed out and the same jobs completed.
    proof fn lemma_same_jobs(self, t: Self)
        requires
            self.inv(),
            t.workers.len() == self.workers.len(),
            forall|w: int|
                0 <= w < self.workers.len() ==> (#[trigger] t.workers[w]).job
                    == self.workers[w].job,
            t.started == self.started,
            t.finished == self.finished,
        ensures
            forall|w: int, k: nat|
                #[trigger] t.holds(w, k) ==> k < t.started && !t.finished.contains(k),
            forall|v: int, w: int, k: nat|
                #[trigger] t.holds(v, k) && #[trigger] t.holds(w, k) ==> v == w,
            forall|k: nat|
                k < t.started ==> #[trigger] t.finished.contains(k) || exists|w: int|
                    t.holds(w, k),
            holding(t.workers) == holding(self.workers),
    {
        assert forall|w: int, k: nat| #[trigger] t.holds(w, k) implies self.holds(w, k) by {
        }
        assert forall|k: nat| k < t.started implies #[trigger] t.finished.contains(k)
            || exists|w: int| t.holds(w, k) by {
            if !self.finished.contains(k) {
                let w = choose|w: int| self.holds(w, k);
                assert(t.holds(w, k));
            }
        }
        lemma_holding_same(self.workers, t.workers);
    }

    /// Submitting a job keeps the invariant.
    pub proof fn lemma_submit_inv(self, job: J)
        requires
            self.inv(),
        ensures
            self.submit(job).inv(),
    {
        self.lemma_same_jobs(self.submit(job));
    }

    /// Dropping the sending half keeps the invariant.
    pub proof fn lemma_disconnect_inv(self)
        requires
            self.inv(),
        ensures
            self.disconnect().inv(),
    {
        self.lemma_same_jobs(self.disconnect());
    }

    /// Handing a job to an idle worker, or letting it return, keeps the
    /// invariant.
    pub proof fn lemma_receive_inv(self, w: int)
        requires
            self.inv(),
            self.worker_is(w, WorkerState::Idle),
        ensures
            self.receive(w).inv(),
    {
        let t = self.receive(w);
        if self.started < self.accepted.len() {
            lemma_holding_update(self.workers, w, t.workers[w]);
            assert forall|v: int, k: nat| #[trigger] t.holds(v, k) implies k < t.started
                && !t.finished.contains(k) by {
                if v != w {
                    assert(self.holds(v, k));
                }
            }
            assert forall|u: int, v: int, k: nat| #[trigger]
                t.holds(u, k) && #[trigger] t.holds(v, k) implies u == v by {
                if u != w {
                    assert(self.holds(u, k));
                }
                if v != w {
                    assert(self.holds(v, k));
                }
            }
            assert forall|k: nat| k < t.started implies #[trigger] t.finished.contains(k)
                || exists|v: int| t.holds(v, k) by {
                if k == self.started {
                    assert(t.holds(w, k));
                } else if !self.finished.contains(k) {
                    let v = choose|v: int| self.holds(v, k);
                    assert(t.holds(v, k));
                }
            }
        } else {
            self.lemma_same_jobs(t);
        }
    }

    /// Completing a job keeps the invariant.
    pub proof fn lemma_finish_inv(self, w: int)
        requires
            self.inv(),
            self.worker_is(w, WorkerState::Busy),
        ensures
            self.finish(w).inv(),
    {
        let t = self.finish(w);
        let done = self.workers[w].job.unwrap();
        assert(self.holds(w, done));
        lemma_holding_update(self.workers, w, t.workers[w]);
        lemma_holding_bound(self.workers);
        assert forall|v: int, k: nat| #[trigger] t.holds(v, k) implies k < t.started
            && !t.finished.contains(k) by {
            assert(self.holds(v, k));
        }
        assert forall|u: int, v: int, k: nat| #[trigger]
            t.holds(u, k) && #[trigger] t.holds(v, k) implies u == v by {
            assert(self.holds(u, k) && self.holds(v, k));
        }
        assert forall|k: nat| k < t.started implies #[trigger] t.finished.contains(k)
            || exists|v: int| t.holds(v, k) by {
            if k == done {
                assert(t.finished[self.finished.len() as int] == k);
            } else if self.finished.contains(k) {
                let p = choose|p: int| 0 <= p < self.finished.len() && self.finished[p] == k;
                assert(t.finished[p] == k);
            } else {
                let v = choose|v: int| self.holds(v, k);
                assert(t.holds(v, k));
            }
        }
    }

    /// The death of a worker keeps the invariant.
    pub proof fn lemma_fault_inv(self, w: int)
        requires
            self.inv(),
            self.worker_is(w, WorkerState::Busy),
        ensures
            self.fault(w).inv(),
    {
        self.lemma_same_jobs(self.fault(w));
    }

    /// Joining a thread that has ended keeps the invariant.
    pub proof fn lemma_join_inv(self, w: int)
        requires
            self.inv(),
            0 <= w < self.workers.len(),
            self.workers[w].ended(),
        ensures
            self.join(w).inv(),
    {
        self.lemma_same_jobs(self.join(w));
    }

    /// Joining the workers in their order keeps the invariant.
    pub proof fn lemma_join_from_inv(self, w: int)
        requires
            self.inv(),
        ensures
            self.join_from(w).0.inv(),
        decreases self.workers.len() - w,
    {
        if 0 <= w < self.workers.len() {
            if !self.workers[w].joinable {
                self.lemma_join_from_inv(w + 1);
            } else if self.workers[w].state == WorkerState::Exited {
                self.lemma_join_inv(w);
                self.join(w).lemma_join_from_inv(w + 1);
            } else if self.workers[w].state == WorkerState::Faulted {
                self.lemma_join_inv(w);
            }
        }
    }

    /// The waiting jobs form a queue: an open pool appends a submitted job at
    /// its end.
    pub proof fn lemma_submit_pending(self, job: J)
        requires
            self.inv(),
        ensures
            self.open ==> self.submit(job).pending() == self.pending().push(job),
            !self.open ==> self.submit(job).pending() == self.pending(),
    {
    }

    /// The waiting jobs form a queue: a worker is handed the job at its head,
    /// and takes nothing when the queue is empty.
    pub proof fn lemma_receive_pending(self, w: int)
        requires
            self.inv(),
        ensures
            self.pending().len() > 0 ==> self.answer() == Received::Job(self.pending()[0])
                && self.receive(w).pending() == self.pending().drop_first(),
            self.pending().len() == 0 ==> !(self.answer() is Job) && self.receive(w).pending()
                == self.pending(),
    {
    }
}

/// What can happen to a pool.
pub enum Event<J> {
    /// The owner submits a job.
    Submit(J),
    /// The owner drops the sending half.
    Disconnect,
    /// A worker asks for a job.
    Receive(int),
    /// A worker completes its job.
    Finish(int),
    /// The job of a worker kills its thread.
    Fault(int),
    /// The owner joins the thread of a worker.
    Join(int),
}

impl<J> PoolView<J> {
    /// Whether an event can happen in this state. The owner may submit, and
    /// drop the sending half, at any time. A worker asks for a job only while it is idle, and
    /// completes or dies only while it is busy. The owner joins the workers
    /// in their order, each once its thread has ended.
    pub open spec fn admits(self, event: Event<J>) -> bool {
        match event {
            Event::Submit(_) => true,
            Event::Disconnect => true,
            Event::Receive(w) => self.worker_is(w, WorkerState::Idle),
            Event::Finish(w) => self.worker_is(w, WorkerState::Busy),
            Event::Fault(w) => self.worker_is(w, WorkerState::Busy),
            Event::Join(w) => self.first_joinable(w) && self.workers[w].ended(),
        }
    }

    /// The state after an event.
    pub open spec fn after(self, event: Event<J>) -> Self {
        match event {
            Event::Submit(job) => self.submit(job),
            Event::Disconnect => self.disconnect(),
            Event::Receive(w) => self.receive(w),
            Event::Finish(w) => self.finish(w),
            Event::Fault(w) => self.fault(w),
            Event::Join(w) => self.join(w),
        }
    }

    /// The state after a sequence of events.
    pub open spec fn after_all(self, events: Seq<Event<J>>) -> Self
        decreases events.len(),
    {
        if events.len() == 0 {
            self
        } else {
            self.after_all(events.drop_last()).after(events.last())
        }
    }

    /// Whether a sequence of events can happen from this state, one after
    /// the other.
    pub open spec fn admits_all(self, events: Seq<Event<J>>) -> bool
        decreases events.len(),
    {
        events.len() == 0 || (self.admits_all(events.drop_last()) && self.after_all(
            events.drop_last(),
        ).admits(events.last()))
    }

    /// An event that can happen keeps the invariant.
    pub proof fn lemma_event_inv(self, event: Event<J>)
        requires
            self.inv(),
            self.admits(event),
        ensures
            self.after(event).inv(),
    {
        match event {
            Event::Submit(job) => self.lemma_submit_inv(job),
            Event::Disconnect => self.lemma_disconnect_inv(),
            Event::Receive(w) => self.lemma_receive_inv(w),
            Event::Finish(w) => self.lemma_finish_inv(w),
            Event::Fault(w) => self.lemma_fault_inv(w),
            Event::Join(w) => self.lemma_join_inv(w),
        }
    }

    /// The invariant holds of every state that a pool can reach: of a new
    /// pool of any size, and after every sequence of events that can happen.
    pub proof fn theorem_reachable_inv(size: nat, events: Seq<Event<J>>)
        requires
            size >= 1,
            Self::init(size).admits_all(events),
        ensures
            Self::init(size).after_all(events).inv(),
        decreases events.len(),
    {
        if events.len() == 0 {
            Self::lemma_init_inv(size);
        } else {
            Self::theorem_reachable_inv(size, events.drop_last());
            Self::init(size).after_all(events.drop_last()).lemma_event_inv(events.last());
        }
    }
}

} // verus!
