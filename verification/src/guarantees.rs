//! What the worker pool guarantees.
//!
//! Each theorem is stated of a state that meets the invariant of the
//! protocol. Every state that a pool can reach is such a state, and so is the
//! view of every well-formed `ThreadPool`.

use crate::protocol::{
    lemma_holding_bound, lemma_holding_none, Event, PoolView, Shutdown, WorkerState, WorkerView,
};
use crate::threadpool::PoolError;
use vstd::prelude::*;

verus! {

/// What one worker still has to do before the pool is shut down: an idle
/// thread has to return, a busy one has to end its job and then return, and a
/// handle has to be joined.
pub open spec fn duty(worker: WorkerView) -> nat {
    (match worker.state {
        WorkerState::Idle => 1nat,
        WorkerState::Busy => 2nat,
        _ => 0nat,
    }) + if worker.joinable {
        1nat
    } else {
        0nat
    }
}

/// What the workers together still have to do.
pub open spec fn duties(workers: Seq<WorkerView>) -> nat
    decreases workers.len(),
{
    if workers.len() == 0 {
        0
    } else {
        duties(workers.drop_last()) + duty(workers.last())
    }
}

/// Replacing one worker changes the duties by what that worker has to do.
pub proof fn lemma_duties_update(workers: Seq<WorkerView>, w: int, worker: WorkerView)
    requires
        0 <= w < workers.len(),
    ensures
        duties(workers.update(w, worker)) + duty(workers[w]) == duties(workers) + duty(worker),
    decreases workers.len(),
{
    let after = workers.update(w, worker);
    if w == workers.len() - 1 {
        assert(after.drop_last() =~= workers.drop_last());
    } else {
        assert(after.drop_last() =~= workers.drop_last().update(w, worker));
        lemma_duties_update(workers.drop_last(), w, worker);
    }
}

/// Workers with nothing left to do have returned or died, and their handles
/// are joined.
pub proof fn lemma_duties_none(workers: Seq<WorkerView>, w: int)
    requires
        duties(workers) == 0,
        0 <= w < workers.len(),
    ensures
        workers[w].ended(),
        !workers[w].joinable,
    decreases workers.len(),
{
    if w < workers.len() - 1 {
        lemma_duties_none(workers.drop_last(), w);
    }
}

impl<J> PoolView<J> {
    /// No job runs twice, whatever happens: a job completes at most once, is
    /// held by at most one worker, and is not held once it has completed.
    pub proof fn theorem_no_job_runs_twice(self, k: nat)
        requires
            self.inv(),
        ensures
            forall|p: int, q: int|
                0 <= p < self.finished.len() && 0 <= q < self.finished.len() && self.finished[p]
                    == k && self.finished[q] == k ==> p == q,
            forall|v: int, w: int| self.holds(v, k) && self.holds(w, k) ==> v == w,
            forall|w: int| self.holds(w, k) ==> !self.finished.contains(k),
            self.finished.contains(k) || (exists|w: int| self.holds(w, k)) <==> k < self.started,
    {
    }

    /// What has ended stays ended: a thread that has returned or died does
    /// nothing more, and a handle that the pool has given up is not taken a
    /// second time.
    pub proof fn theorem_ends_are_final(self, event: Event<J>, w: int)
        requires
            self.admits(event),
            0 <= w < self.workers.len(),
        ensures
            self.workers[w].ended() ==> self.after(event).workers[w].state
                == self.workers[w].state,
            !self.workers[w].joinable ==> !self.after(event).workers[w].joinable
                && !self.admits(Event::Join(w)),
    {
    }

    /// Jobs are handed out in the order of submission, so that a job is
    /// overtaken only by jobs that run beside it: counting from zero, the
    /// `p`-th job to complete has a number below `p` plus the number of
    /// workers.
    pub proof fn theorem_bounded_overtaking(self, p: int)
        requires
            self.inv(),
            0 <= p < self.finished.len(),
        ensures
            self.finished[p] < p + self.workers.len(),
            self.finished[p] < self.accepted.len(),
    {
    }

    /// What a round of joins leaves as it was and what its outcome means, for
    /// a round that starts at worker `w` with no handle left before `w`.
    proof fn lemma_join_from_outcome(self, w: int)
        requires
            self.workers.len() <= usize::MAX,
            0 <= w <= self.workers.len(),
            forall|v: int| 0 <= v < w ==> !(#[trigger] self.workers[v]).joinable,
        ensures
            ({
                let (end, outcome) = self.join_from(w);
                &&& end.open == self.open
                &&& end.accepted == self.accepted
                &&& end.started == self.started
                &&& end.finished == self.finished
                &&& end.workers.len() == self.workers.len()
                &&& forall|v: int|
                    0 <= v < self.workers.len() ==> (#[trigger] end.workers[v]).state
                        == self.workers[v].state && end.workers[v].job == self.workers[v].job
                &&& match outcome {
                    Ok(Shutdown::Complete) => end.all_joined(),
                    Ok(Shutdown::Pending(id)) => end.first_joinable(id as int)
                        && !end.workers[id as int].ended(),
                    Err(PoolError::WorkerPanicked(id)) => id < end.workers.len()
                        && !end.workers[id as int].joinable && end.workers[id as int].state
                        == WorkerState::Faulted,
                    Err(PoolError::Closed) => false,
                }
            }),
        decreases self.workers.len() - w,
    {
        if w < self.workers.len() {
            if !self.workers[w].joinable {
                self.lemma_join_from_outcome(w + 1);
            } else if self.workers[w].state == WorkerState::Exited {
                self.join(w).lemma_join_from_outcome(w + 1);
            }
        }
    }

    /// What a shutdown does and what its outcome means. The pool is closed;
    /// no job is accepted, handed out or completed by the shutdown, and no
    /// thread changes what it does. The shutdown is complete only if no
    /// handle is left. If it is pending, the worker it names is the first
    /// whose handle is left, and its thread is still running. If it failed,
    /// the worker it names was killed by a job.
    pub proof fn theorem_shutdown_outcome(self)
        requires
            self.inv(),
            self.workers.len() <= usize::MAX,
        ensures
            ({
                let (end, outcome) = self.close();
                &&& end.inv()
                &&& !end.open
                &&& end.accepted == self.accepted
                &&& end.started == self.started
                &&& end.finished == self.finished
                &&& end.workers.len() == self.workers.len()
                &&& forall|v: int|
                    0 <= v < self.workers.len() ==> (#[trigger] end.workers[v]).state
                        == self.workers[v].state
                &&& match outcome {
                    Ok(Shutdown::Complete) => end.all_joined(),
                    Ok(Shutdown::Pending(id)) => end.first_joinable(id as int)
                        && !end.workers[id as int].ended(),
                    Err(PoolError::WorkerPanicked(id)) => id < end.workers.len()
                        && end.workers[id as int].state == WorkerState::Faulted,
                    Err(PoolError::Closed) => false,
                }
            }),
    {
        self.lemma_disconnect_inv();
        self.disconnect().lemma_join_from_inv(0);
        self.disconnect().lemma_join_from_outcome(0);
    }

    /// A shutdown is complete only after every job has run: when the pool
    /// reports that it is shut down and no worker was killed by a job, each
    /// job that the pool accepted has run exactly once.
    pub proof fn theorem_complete_shutdown_ran_every_job(self)
        requires
            self.inv(),
            self.workers.len() <= usize::MAX,
            self.close().1 == Ok::<Shutdown, PoolError>(Shutdown::Complete),
            forall|w: int|
                0 <= w < self.workers.len() ==> (#[trigger] self.workers[w]).state
                    != WorkerState::Faulted,
        ensures
            self.pending().len() == 0,
            self.finished.len() == self.accepted.len(),
            self.finished.no_duplicates(),
            forall|k: nat| k < self.accepted.len() ==> #[trigger] self.finished.contains(k),
    {
        self.theorem_shutdown_outcome();
        self.close().0.theorem_every_job_runs_once();
    }

    /// Once every handle has been joined no thread is running any more: the
    /// joins wait for the jobs in flight.
    pub proof fn theorem_joined_means_ended(self, w: int)
        requires
            self.inv(),
            self.all_joined(),
            0 <= w < self.workers.len(),
        ensures
            self.workers[w].ended(),
            !self.worker_is(w, WorkerState::Idle),
            !self.worker_is(w, WorkerState::Busy),
    {
    }

    /// When the pool has been closed and every worker has been joined without
    /// a fault, each accepted job has run exactly once: the jobs that
    /// completed are as many as were accepted, no job completed twice, and
    /// none is missing.
    pub proof fn theorem_every_job_runs_once(self)
        requires
            self.inv(),
            self.all_joined(),
            forall|w: int|
                0 <= w < self.workers.len() ==> (#[trigger] self.workers[w]).state
                    != WorkerState::Faulted,
        ensures
            !self.open,
            self.all_exited(),
            self.pending().len() == 0,
            self.started == self.accepted.len(),
            self.finished.len() == self.accepted.len(),
            self.finished.no_duplicates(),
            forall|k: nat| k < self.accepted.len() ==> #[trigger] self.finished.contains(k),
    {
        lemma_holding_none(self.workers);
    }

    /// A pool of one worker runs its jobs one at a time and in the order of
    /// submission: the `p`-th job to complete is job number `p`, at most one
    /// job is in progress, and whenever the worker is idle every job that was
    /// handed out has completed.
    pub proof fn theorem_single_worker_order(self)
        requires
            self.inv(),
            self.workers.len() == 1,
        ensures
            forall|p: int| 0 <= p < self.finished.len() ==> #[trigger] self.finished[p] == p,
            self.started <= self.finished.len() + 1,
            self.worker_is(0, WorkerState::Idle) ==> self.started == self.finished.len(),
    {
        lemma_holding_bound(self.workers);
        if self.workers[0].state == WorkerState::Idle {
            lemma_holding_none(self.workers);
        }
        self.lemma_completion_order(self.finished.len() as int);
    }

    /// With one worker the first `n` jobs to complete are the jobs numbered
    /// below `n`, in their order.
    proof fn lemma_completion_order(self, n: int)
        requires
            self.inv(),
            self.workers.len() == 1,
            0 <= n <= self.finished.len(),
        ensures
            forall|p: int| 0 <= p < n ==> #[trigger] self.finished[p] == p,
        decreases n,
    {
        if n > 0 {
            self.lemma_completion_order(n - 1);
            let last = self.finished[n - 1];
            if last < n - 1 {
                assert(self.finished[last as int] == last);
            }
        }
    }

    /// However a pool of whatever size is driven: once it is closed and all
    /// its workers are joined, none of them killed by a job, each job that
    /// the pool accepted has run exactly once.
    pub proof fn theorem_exactly_once_in_every_run(size: nat, events: Seq<Event<J>>)
        requires
            size >= 1,
            Self::init(size).admits_all(events),
            Self::init(size).after_all(events).all_joined(),
            forall|w: int|
                0 <= w < size ==> (#[trigger] Self::init(size).after_all(events).workers[w]).state
                    != WorkerState::Faulted,
        ensures
            ({
                let end = Self::init(size).after_all(events);
                &&& end.finished.len() == end.accepted.len()
                &&& end.finished.no_duplicates()
                &&& forall|k: nat| k < end.accepted.len() ==> #[trigger] end.finished.contains(k)
            }),
    {
        let end = Self::init(size).after_all(events);
        Self::theorem_reachable_inv(size, events);
        Self::lemma_size_is_kept(Self::init(size), events);
        end.theorem_every_job_runs_once();
    }

    /// No event changes the number of workers.
    proof fn lemma_size_is_kept(self, events: Seq<Event<J>>)
        requires
            self.admits_all(events),
        ensures
            self.after_all(events).workers.len() == self.workers.len(),
        decreases events.len(),
    {
        if events.len() > 0 {
            self.lemma_size_is_kept(events.drop_last());
        }
    }

    /// An upper bound on the steps that a closed pool is away from rest:
    /// every waiting job has to be taken, run and ended, and every worker has
    /// to do its duty.
    pub open spec fn work_left(self) -> nat {
        3 * self.pending().len() + duties(self.workers)
    }

    /// A shutdown comes to an end. Once the pool is closed, whatever a worker
    /// does and every join brings the pool nearer to rest, so that only
    /// `work_left` such steps can follow.
    pub proof fn theorem_shutdown_progress(self, event: Event<J>)
        requires
            self.inv(),
            !self.open,
            self.admits(event),
            !(event is Submit),
            !(event is Disconnect),
        ensures
            self.after(event).work_left() < self.work_left(),
    {
        let w = match event {
            Event::Receive(w) => w,
            Event::Finish(w) => w,
            Event::Fault(w) => w,
            Event::Join(w) => w,
            _ => 0,
        };
        lemma_duties_update(self.workers, w, self.after(event).workers[w]);
    }

    /// A shutdown is not stuck. While it is pending, the worker it waits for
    /// can take a step; and when no step is left, the shutdown is complete.
    pub proof fn theorem_shutdown_is_not_stuck(self)
        requires
            self.inv(),
            self.workers.len() <= usize::MAX,
        ensures
            match self.close().1 {
                Ok(Shutdown::Pending(id)) => self.close().0.admits(Event::Receive(id as int))
                    || self.close().0.admits(Event::Finish(id as int)),
                _ => true,
            },
            self.work_left() == 0 ==> self.close().1 == Ok::<Shutdown, PoolError>(
                Shutdown::Complete,
            ),
    {
        self.theorem_shutdown_outcome();
        if self.work_left() == 0 {
            assert forall|w: int| 0 <= w < self.workers.len() implies !(
            #[trigger] self.workers[w]).joinable by {
                lemma_duties_none(self.workers, w);
            }
            self.disconnect().lemma_join_from_done(0);
        }
    }

    /// With no handle left, a round of joins changes nothing and is complete.
    proof fn lemma_join_from_done(self, w: int)
        requires
            self.all_joined(),
        ensures
            self.join_from(w) == (self, Ok::<Shutdown, PoolError>(Shutdown::Complete)),
        decreases self.workers.len() - w,
    {
        if 0 <= w < self.workers.len() {
            self.lemma_join_from_done(w + 1);
        }
    }

    /// Where the first handle that is left is that of a running thread, a
    /// round of joins changes nothing and is pending on that thread.
    proof fn lemma_join_from_pending(self, w: int, id: usize)
        requires
            self.first_joinable(id as int),
            !self.workers[id as int].ended(),
            0 <= w <= id,
        ensures
            self.join_from(w) == (self, Ok::<Shutdown, PoolError>(Shutdown::Pending(id))),
        decreases id - w,
    {
        if w < id {
            self.lemma_join_from_pending(w + 1, id);
        }
    }

    /// A closed pool takes no job: submitting to it changes nothing.
    pub proof fn theorem_submit_after_close(self, job: J)
        requires
            self.inv(),
            self.workers.len() <= usize::MAX,
        ensures
            self.close().0.submit(job) == self.close().0,
            !self.open ==> self.submit(job) == self,
    {
        self.theorem_shutdown_outcome();
    }

    /// A closed pool stays closed and accepts nothing more, whatever happens
    /// to it: no job that is submitted after the close is ever handed to a
    /// worker.
    pub proof fn theorem_closed_pool_is_frozen(self, events: Seq<Event<J>>)
        requires
            !self.open,
        ensures
            !self.after_all(events).open,
            self.after_all(events).accepted == self.accepted,
        decreases events.len(),
    {
        if events.len() > 0 {
            self.theorem_closed_pool_is_frozen(events.drop_last());
        }
    }

    /// Closing a pool again, before any thread has taken a step, changes
    /// nothing and has the same outcome. Only the death of a worker is
    /// reported once and not again.
    pub proof fn theorem_close_idempotent(self)
        requires
            self.inv(),
            self.workers.len() <= usize::MAX,
        ensures
            self.close().1 is Ok ==> self.close().0.close() == self.close(),
    {
        self.theorem_shutdown_outcome();
        let (end, outcome) = self.close();
        match outcome {
            Ok(Shutdown::Complete) => end.lemma_join_from_done(0),
            Ok(Shutdown::Pending(id)) => end.lemma_join_from_pending(0, id),
            Err(_) => {},
        }
    }
}

} // verus!
