//! The accept loop and its graceful shutdown.
//!
//! The loop reads a flag before each call of `accept`. A signal clears the
//! flag and then dials the listener, so that a loop parked in `accept` returns
//! and reads it. `AcceptLoop` holds where the loop stands and decides what it
//! does next; the flag itself, the listener and the signal belong to the
//! caller, who passes the flag's value in.

use crate::protocol::Shutdown;
use vstd::prelude::*;
use vstd::string::*;

verus! {

/// The phase of the server's life.
#[derive(Clone, Copy, Debug, PartialEq, Eq, Structural)]
pub enum Phase {
    /// The flag is set: connections are accepted and served.
    Running,
    /// The flag is cleared, and the pool is not yet shut down.
    Stopping,
    /// The loop has ended and every worker has been joined.
    Stopped,
}

/// Where the accept loop stands.
#[derive(Clone, Copy, Debug, PartialEq, Eq, Structural)]
pub enum Stage {
    /// About to read the flag.
    Checking,
    /// Parked in `accept`, or handling what it returned.
    Accepting,
    /// Out of the loop, closing the pool and joining its workers.
    Closing,
    /// The pool is shut down.
    Done,
}

/// What the loop is to do next.
#[derive(Clone, Copy, Debug, PartialEq, Eq, Structural)]
pub enum Step {
    /// Call `accept` and report what it returned.
    Accept,
    /// Leave the loop, close the pool and join its workers.
    Close,
    /// Nothing is left to do.
    Exit,
}

/// What to do with the outcome of one call of `accept`.
#[derive(Clone, Copy, Debug, PartialEq, Eq, Structural)]
pub enum Handling {
    /// Submit a job that serves the connection.
    Dispatch,
    /// Log the failure and go on.
    Report,
}

impl Stage {
    /// The loop asks what to do. At its top it reads the flag and goes on to
    /// accept or leaves; anywhere else it stays where it is.
    pub open spec fn next(self, running: bool) -> Stage {
        if self == Stage::Checking {
            if running {
                Stage::Accepting
            } else {
                Stage::Closing
            }
        } else {
            self
        }
    }

    /// The step that belongs to a stage.
    pub open spec fn step(self) -> Step {
        match self {
            Stage::Checking => Step::Accept,
            Stage::Accepting => Step::Accept,
            Stage::Closing => Step::Close,
            Stage::Done => Step::Exit,
        }
    }

    /// `accept` returns: the loop is back at its top.
    pub open spec fn accepted(self) -> Stage {
        if self == Stage::Accepting {
            Stage::Checking
        } else {
            self
        }
    }

    /// The pool reports how far its shutdown has come: the loop is done
    /// once the shutdown is complete, and goes on closing while it is not.
    pub open spec fn closed(self, shutdown: Shutdown) -> Stage {
        if self == Stage::Closing && shutdown == Shutdown::Complete {
            Stage::Done
        } else {
            self
        }
    }
}

/// The flag together with the loop that reads it.
pub struct ServerView {
    /// The flag: set from the start, cleared by the signal.
    pub running: bool,
    /// Where the loop stands.
    pub stage: Stage,
}

impl ServerView {
    /// The server as it starts.
    pub open spec fn init() -> ServerView {
        ServerView { running: true, stage: Stage::Checking }
    }

    /// The loop is out of the loop only if the flag is cleared.
    pub open spec fn inv(self) -> bool {
        self.stage == Stage::Closing || self.stage == Stage::Done ==> !self.running
    }

    /// The signal arrives: the flag is cleared, whatever the loop is doing.
    pub open spec fn signal(self) -> ServerView {
        ServerView { running: false, ..self }
    }

    /// The loop asks what to do, and reads the flag if it is at its top.
    pub open spec fn next(self) -> ServerView {
        ServerView { stage: self.stage.next(self.running), ..self }
    }

    /// `accept` returns.
    pub open spec fn accepted(self) -> ServerView {
        ServerView { stage: self.stage.accepted(), ..self }
    }

    /// The pool reports how far its shutdown has come.
    pub open spec fn closed(self, shutdown: Shutdown) -> ServerView {
        ServerView { stage: self.stage.closed(shutdown), ..self }
    }

    /// The phase that the server is in.
    pub open spec fn phase(self) -> Phase {
        match self.stage {
            Stage::Done => Phase::Stopped,
            Stage::Closing => Phase::Stopping,
            _ => if self.running {
                Phase::Running
            } else {
                Phase::Stopping
            },
        }
    }

    /// The position of a phase in the order running, stopping, stopped.
    pub open spec fn rank(phase: Phase) -> nat {
        match phase {
            Phase::Running => 0,
            Phase::Stopping => 1,
            Phase::Stopped => 2,
        }
    }

    /// The invariant holds of every state that the server can reach: of the
    /// server as it starts, and after every transition.
    pub proof fn theorem_inv_is_kept(self, shutdown: Shutdown)
        requires
            self.inv(),
        ensures
            Self::init().inv(),
            self.signal().inv(),
            self.next().inv(),
            self.accepted().inv(),
            self.closed(shutdown).inv(),
    {
    }

    /// The server starts out running, and no transition takes it back to an
    /// earlier phase.
    pub proof fn theorem_phases_in_order(self, shutdown: Shutdown)
        requires
            self.inv(),
        ensures
            Self::init().phase() == Phase::Running,
            Self::rank(self.phase()) <= Self::rank(self.signal().phase()),
            Self::rank(self.phase()) <= Self::rank(self.next().phase()),
            Self::rank(self.phase()) <= Self::rank(self.accepted().phase()),
            Self::rank(self.phase()) <= Self::rank(self.closed(shutdown).phase()),
    {
    }

    /// The server is stopped only once the pool is shut down: the loop comes
    /// to its end by no other way than a complete shutdown of the pool, and
    /// a shutdown that is pending leaves the server stopping.
    pub proof fn theorem_stopped_after_shutdown(self, shutdown: Shutdown)
        requires
            self.inv(),
            self.phase() != Phase::Stopped,
        ensures
            self.signal().phase() != Phase::Stopped,
            self.next().phase() != Phase::Stopped,
            self.accepted().phase() != Phase::Stopped,
            self.closed(shutdown).phase() == Phase::Stopped <==> self.stage == Stage::Closing
                && shutdown == Shutdown::Complete,
    {
    }

    /// Once the flag is cleared the server is stopping or stopped, and no
    /// transition of the loop sets the flag again.
    pub proof fn theorem_signal_stops(self, shutdown: Shutdown)
        requires
            self.inv(),
        ensures
            self.signal().phase() != Phase::Running,
            !self.signal().next().running,
            !self.signal().accepted().running,
            !self.signal().closed(shutdown).running,
    {
    }

    /// A signal ends the loop within one return of `accept`. If the loop is at
    /// its top when the flag is cleared, its next step is to close the pool.
    /// If it is parked in `accept`, it stays there until `accept` returns;
    /// once it has returned, the next step is to close the pool.
    pub proof fn theorem_signal_ends_loop(self)
        requires
            self.inv(),
            self.stage == Stage::Checking || self.stage == Stage::Accepting,
        ensures
            self.stage == Stage::Checking ==> self.signal().next().stage.step() == Step::Close,
            self.stage == Stage::Accepting ==> self.signal().next().stage.step() == Step::Accept,
            self.stage == Stage::Accepting ==> self.signal().accepted().next().stage.step()
                == Step::Close,
    {
    }
}

/// The accept loop of the server.
pub struct AcceptLoop {
    stage: Stage,
}

impl View for AcceptLoop {
    type V = Stage;

    closed spec fn view(&self) -> Stage {
        self.stage
    }
}

impl AcceptLoop {
    /// A loop that is about to read the flag for the first time.
    pub fn new() -> (accept_loop: AcceptLoop)
        ensures
            accept_loop@ == Stage::Checking,
    {
        AcceptLoop { stage: Stage::Checking }
    }

    /// Decides what the loop does next, given the flag as it is now. At the
    /// top of the loop a set flag sends the loop into `accept` and a cleared
    /// flag takes it out of the loop.
    pub fn next(&mut self, running: bool) -> (step: Step)
        ensures
            final(self)@ == old(self)@.next(running),
            step == final(self)@.step(),
    {
        match self.stage {
            Stage::Checking => {
                if running {
                    self.stage = Stage::Accepting;
                    Step::Accept
                } else {
                    self.stage = Stage::Closing;
                    Step::Close
                }
            },
            Stage::Accepting => Step::Accept,
            Stage::Closing => Step::Close,
            Stage::Done => Step::Exit,
        }
    }

    /// Takes the outcome of `accept`: a connection is dispatched, a failure
    /// is reported, and either way the loop is back at its top.
    pub fn accepted(&mut self, connected: bool) -> (handling: Handling)
        ensures
            final(self)@ == old(self)@.accepted(),
            connected ==> handling == Handling::Dispatch,
            !connected ==> handling == Handling::Report,
    {
        match self.stage {
            Stage::Accepting => {
                self.stage = Stage::Checking;
            },
            _ => {},
        }
        if connected {
            Handling::Dispatch
        } else {
            Handling::Report
        }
    }

    /// Takes what the pool reports of its shutdown. A loop that is closing
    /// the pool is done once the shutdown is complete; while the shutdown is
    /// pending the loop goes on closing.
    pub fn closed(&mut self, shutdown: Shutdown)
        ensures
            final(self)@ == old(self)@.closed(shutdown),
    {
        match (self.stage, shutdown) {
            (Stage::Closing, Shutdown::Complete) => {
                self.stage = Stage::Done;
            },
            _ => {},
        }
    }

    /// The stage that the loop is in.
    pub fn stage(&self) -> (stage: Stage)
        ensures
            stage == self@,
    {
        self.stage
    }

    /// The phase of the server, given the flag as it is now.
    pub fn phase(&self, running: bool) -> (phase: Phase)
        ensures
            phase == (ServerView { running, stage: self@ }).phase(),
    {
        match self.stage {
            Stage::Done => Phase::Stopped,
            Stage::Closing => Phase::Stopping,
            _ => if running {
                Phase::Running
            } else {
                Phase::Stopping
            },
        }
    }
}

/// The text of the log entry for a call of `accept` that failed.
pub open spec fn accept_failure_text(cause: Seq<char>) -> Seq<char> {
    "could not accept connection: "@ + cause
}

/// Words the log entry for a call of `accept` that failed.
pub fn accept_failure_message(cause: &str) -> (text: String)
    ensures
        text@ == accept_failure_text(cause@),
{
    let mut text = String::from_str("could not accept connection: ");
    text.append(cause);
    text
}

/// The text of the log entry for a wake-up dial that failed.
pub open spec fn dial_failure_text(target: Seq<char>, cause: Seq<char>) -> Seq<char> {
    "could not connect to "@ + target + ": "@ + cause
}

/// Words the log entry for a wake-up dial that failed. The shutdown goes on
/// without the dial: the loop reads the flag when `accept` next returns.
pub fn dial_failure_message(target: &str, cause: &str) -> (text: String)
    ensures
        text@ == dial_failure_text(target@, cause@),
{
    let mut text = String::from_str("could not connect to ");
    text.append(target);
    text.append(": ");
    text.append(cause);
    text
}

} // verus!
