//! The worker pool: a fixed set of workers behind one queue of jobs.
//!
//! `ThreadPool` is the book that the pool keeps of its workers and of the jobs
//! that wait for them. It starts no thread and runs no job: the program around
//! it does, and reports to the pool what happened. A worker thread calls
//! `receive` when it is free and `finish` when its job is done; the owner of
//! the pool calls `execute` to submit a job and `close` to shut the pool down.
//!
//! The meaning of each operation is a transition of `PoolView`, and every pool
//! that these operations produce meets `PoolView::inv`.

use crate::protocol::{PoolView, Received, Shutdown, WorkerState, WorkerView};
use crate::text::{decimal, decimal_text};
use std::collections::VecDeque;
use vstd::prelude::*;
use vstd::string::*;

verus! {

/// Why the pool refused an operation or could not finish it.
#[derive(Clone, Copy, Debug, PartialEq, Eq, Structural)]
pub enum PoolError {
    /// The pool has been closed and takes no more jobs.
    Closed,
    /// The thread of the worker with this number was killed by a job.
    WorkerPanicked(usize),
}

impl PoolError {
    /// The words for an error.
    pub open spec fn message_text(self) -> Seq<char> {
        match self {
            PoolError::Closed => "Sender dead."@,
            PoolError::WorkerPanicked(id) => "Worker "@ + decimal_text(id as nat)
                + " panicked while Dropping Threadpool"@,
        }
    }

    /// Words the error for a log or for a fatal stop.
    pub fn message(&self) -> (text: String)
        ensures
            text@ == self.message_text(),
    {
        match self {
            PoolError::Closed => String::from_str("Sender dead."),
            PoolError::WorkerPanicked(id) => {
                let mut text = String::from_str("Worker ");
                text.append(decimal(*id).as_str());
                text.append(" panicked while Dropping Threadpool");
                text
            },
        }
    }
}

struct Worker {
    id: usize,
    state: WorkerState,
    thread: bool,
    job: Ghost<Option<nat>>,
}

impl View for Worker {
    type V = WorkerView;

    closed spec fn view(&self) -> WorkerView {
        WorkerView { state: self.state, joinable: self.thread, job: self.job@ }
    }
}

/// A pool of workers and the queue of jobs of type `J` that they share.
pub struct ThreadPool<J> {
    workers: Vec<Worker>,
    queue: VecDeque<J>,
    sender: bool,
    accepted: Ghost<Seq<J>>,
    started: Ghost<nat>,
    finished: Ghost<Seq<nat>>,
}

impl<J> View for ThreadPool<J> {
    type V = PoolView<J>;

    closed spec fn view(&self) -> PoolView<J> {
        PoolView {
            workers: Seq::new(self.workers@.len(), |w: int| self.workers@[w]@),
            open: self.sender,
            accepted: self.accepted@,
            started: self.started@,
            finished: self.finished@,
        }
    }
}

impl<J> ThreadPool<J> {
    /// The pool holds what its view says: the workers are numbered by their
    /// position, and the queue holds the accepted jobs that no worker has
    /// taken, oldest first.
    pub closed spec fn coherent(&self) -> bool {
        &&& forall|w: int| 0 <= w < self.workers@.len() ==> (#[trigger] self.workers@[w]).id == w
        &&& self.queue@ == self@.pending()
    }

    /// The pool is in a state that its operations can reach: it holds what
    /// its view says, the view meets the invariant of the protocol, and the
    /// workers can be numbered by machine integers.
    pub open spec fn wf(&self) -> bool {
        &&& self.coherent()
        &&& self@.inv()
        &&& self@.workers.len() <= usize::MAX
    }

    /// Creates a pool of `size` idle workers with an empty queue.
    pub fn new(size: usize) -> (pool: Self)
        requires
            size >= 1,
        ensures
            pool.wf(),
            pool@ == PoolView::<J>::init(size as nat),
    {
        let mut workers: Vec<Worker> = Vec::new();
        let mut id: usize = 0;
        while id < size
            invariant
                id <= size,
                workers@.len() == id,
                forall|w: int|
                    0 <= w < id ==> (#[trigger] workers@[w]).id == w && workers@[w]@
                        == WorkerView::fresh(),
            decreases size - id,
        {
            workers.push(Worker { id, state: WorkerState::Idle, thread: true, job: Ghost(None) });
            id += 1;
        }
        let pool = ThreadPool {
            workers,
            queue: VecDeque::new(),
            sender: true,
            accepted: Ghost(Seq::empty()),
            started: Ghost(0),
            finished: Ghost(Seq::empty()),
        };
        proof {
            assert(pool@.workers =~= PoolView::<J>::init(size as nat).workers);
            PoolView::<J>::lemma_init_inv(size as nat);
            assert(pool.queue@ =~= pool@.pending());
        }
        pool
    }

    /// Submits a job. An open pool puts it at the end of its queue; a closed
    /// pool drops it and says so.
    pub fn execute(&mut self, job: J) -> (outcome: Result<(), PoolError>)
        requires
            old(self).wf(),
        ensures
            final(self).wf(),
            final(self)@ == old(self)@.submit(job),
            old(self)@.open ==> outcome == Ok::<(), PoolError>(()),
            !old(self)@.open ==> outcome == Err::<(), PoolError>(PoolError::Closed),
    {
        if self.sender {
            proof {
                self@.lemma_submit_inv(job);
                self@.lemma_submit_pending(job);
            }
            self.queue.push_back(job);
            self.accepted = Ghost(self.accepted@.push(job));
            Ok(())
        } else {
            Err(PoolError::Closed)
        }
    }

    /// An idle worker asks for a job. It is handed the job at the head of the
    /// queue and is busy from then on; or, when the queue is empty, it is
    /// told to return if the pool is closed, and to wait if it is open.
    pub fn receive(&mut self, id: usize) -> (got: Received<J>)
        requires
            old(self).wf(),
            old(self)@.worker_is(id as int, WorkerState::Idle),
        ensures
            final(self).wf(),
            final(self)@ == old(self)@.receive(id as int),
            got == old(self)@.answer(),
    {
        proof {
            self@.lemma_receive_inv(id as int);
            self@.lemma_receive_pending(id as int);
        }
        let ghost before = self@;
        let thread = self.workers[id].thread;
        match self.queue.pop_front() {
            Some(job) => {
                let ghost number = self.started@;
                self.workers.set(
                    id,
                    Worker { id, state: WorkerState::Busy, thread, job: Ghost(Some(number)) },
                );
                self.started = Ghost(number + 1);
                proof {
                    assert(self@.workers =~= before.receive(id as int).workers);
                }
                Received::Job(job)
            },
            None => {
                if self.sender {
                    Received::Empty
                } else {
                    self.workers.set(
                        id,
                        Worker { id, state: WorkerState::Exited, thread, job: Ghost(None) },
                    );
                    proof {
                        assert(self@.workers =~= before.receive(id as int).workers);
                    }
                    Received::Closed
                }
            },
        }
    }

    /// A busy worker reports that its job ran to completion, and is idle
    /// again.
    pub fn finish(&mut self, id: usize)
        requires
            old(self).wf(),
            old(self)@.worker_is(id as int, WorkerState::Busy),
        ensures
            final(self).wf(),
            final(self)@ == old(self)@.finish(id as int),
    {
        proof {
            self@.lemma_finish_inv(id as int);
        }
        let ghost before = self@;
        let thread = self.workers[id].thread;
        let ghost done = self.workers@[id as int].job@.unwrap();
        self.workers.set(id, Worker { id, state: WorkerState::Idle, thread, job: Ghost(None) });
        self.finished = Ghost(self.finished@.push(done));
        proof {
            assert(self@.workers =~= before.finish(id as int).workers);
        }
    }

    /// Records that the job of a busy worker killed its thread. The worker
    /// takes no further job.
    pub fn fault(&mut self, id: usize)
        requires
            old(self).wf(),
            old(self)@.worker_is(id as int, WorkerState::Busy),
        ensures
            final(self).wf(),
            final(self)@ == old(self)@.fault(id as int),
    {
        proof {
            self@.lemma_fault_inv(id as int);
        }
        let ghost before = self@;
        let thread = self.workers[id].thread;
        let job = self.workers[id].job;
        self.workers.set(id, Worker { id, state: WorkerState::Faulted, thread, job });
        proof {
            assert(self@.workers =~= before.fault(id as int).workers);
        }
    }

    /// Shuts the pool down as far as its threads allow. The sending half is
    /// dropped first: from now on the pool takes no job, and a worker that
    /// finds the queue empty returns. Then the workers are joined in their
    /// order. The handle of a worker whose thread has returned is taken. At
    /// the first worker whose thread is still running the shutdown is
    /// pending: the caller waits for that thread and closes again. A worker
    /// that a job killed is fatal to the shutdown: its handle is taken, and
    /// its death is the error. Closing a pool that is shut down does nothing.
    pub fn close(&mut self) -> (outcome: Result<Shutdown, PoolError>)
        requires
            old(self).wf(),
        ensures
            final(self).wf(),
            final(self)@ == old(self)@.close().0,
            outcome == old(self)@.close().1,
    {
        proof {
            self@.lemma_disconnect_inv();
        }
        self.sender = false;
        let ghost closed = self@;
        let mut id: usize = 0;
        while id < self.workers.len()
            invariant
                self.wf(),
                id <= self@.workers.len(),
                closed == old(self)@.disconnect(),
                self@.join_from(id as int) == closed.join_from(0),
            decreases self@.workers.len() - id,
        {
            let ghost before = self@;
            let worker = &self.workers[id];
            if worker.thread {
                let state = worker.state;
                let job = worker.job;
                match state {
                    WorkerState::Exited | WorkerState::Faulted => {
                        proof {
                            before.lemma_join_inv(id as int);
                        }
                        self.workers.set(id, Worker { id, state, thread: false, job });
                        assert(self@.workers =~= before.join(id as int).workers);
                        if state == WorkerState::Faulted {
                            return Err(PoolError::WorkerPanicked(self.workers[id].id));
                        }
                    },
                    _ => {
                        return Ok(Shutdown::Pending(worker.id));
                    },
                }
            }
            id += 1;
        }
        Ok(Shutdown::Complete)
    }

    /// The number of workers.
    pub fn size(&self) -> (size: usize)
        requires
            self.wf(),
        ensures
            size == self@.workers.len(),
            size >= 1,
    {
        self.workers.len()
    }

    /// Whether the pool still takes jobs.
    pub fn is_open(&self) -> (open: bool)
        ensures
            open == self@.open,
    {
        self.sender
    }

    /// The number of jobs that wait for a worker.
    pub fn queued(&self) -> (count: usize)
        requires
            self.wf(),
        ensures
            count == self@.pending().len(),
    {
        self.queue.len()
    }

    /// What the thread of a worker is doing, if there is such a worker.
    pub fn worker_state(&self, id: usize) -> (state: Option<WorkerState>)
        ensures
            id < self@.workers.len() ==> state == Some(self@.workers[id as int].state),
            id >= self@.workers.len() ==> state is None,
    {
        if id < self.workers.len() {
            Some(self.workers[id].state)
        } else {
            None
        }
    }
}

} // verus!
