use hello::protocol::Shutdown;
use hello::server::{
    accept_failure_message, dial_failure_message, AcceptLoop, Handling, Phase, Stage, Step,
};

#[test]
fn loop_accepts_while_the_flag_is_set() {
    let mut accept_loop = AcceptLoop::new();
    assert_eq!(accept_loop.stage(), Stage::Checking);
    assert_eq!(accept_loop.phase(true), Phase::Running);
    for _ in 0..3 {
        assert_eq!(accept_loop.next(true), Step::Accept);
        assert_eq!(accept_loop.stage(), Stage::Accepting);
        assert_eq!(accept_loop.accepted(true), Handling::Dispatch);
        assert_eq!(accept_loop.stage(), Stage::Checking);
    }
    assert_eq!(accept_loop.phase(true), Phase::Running);
}

#[test]
fn failed_accept_is_reported_and_the_loop_goes_on() {
    let mut accept_loop = AcceptLoop::new();
    assert_eq!(accept_loop.next(true), Step::Accept);
    assert_eq!(accept_loop.accepted(false), Handling::Report);
    assert_eq!(accept_loop.next(true), Step::Accept);
}

#[test]
fn cleared_flag_ends_the_loop_at_its_top() {
    let mut accept_loop = AcceptLoop::new();
    assert_eq!(accept_loop.next(false), Step::Close);
    assert_eq!(accept_loop.stage(), Stage::Closing);
    assert_eq!(accept_loop.phase(false), Phase::Stopping);
}

#[test]
fn signal_ends_a_parked_loop_after_one_accept() {
    let mut running = true;
    let mut accept_loop = AcceptLoop::new();
    assert_eq!(accept_loop.next(running), Step::Accept);
    // The signal arrives while the loop is parked.
    running = false;
    assert_eq!(accept_loop.phase(running), Phase::Stopping);
    // Nothing happens until accept returns: asking again changes nothing.
    assert_eq!(accept_loop.next(running), Step::Accept);
    assert_eq!(accept_loop.stage(), Stage::Accepting);
    // The dial makes accept return; its connection is served like any other.
    assert_eq!(accept_loop.accepted(true), Handling::Dispatch);
    assert_eq!(accept_loop.next(running), Step::Close);
    assert_eq!(accept_loop.phase(running), Phase::Stopping);
    // The server is not stopped before the pool is shut down.
    accept_loop.closed(Shutdown::Pending(1));
    assert_eq!(accept_loop.stage(), Stage::Closing);
    assert_eq!(accept_loop.next(running), Step::Close);
    assert_eq!(accept_loop.phase(running), Phase::Stopping);
    accept_loop.closed(Shutdown::Complete);
    assert_eq!(accept_loop.stage(), Stage::Done);
    assert_eq!(accept_loop.phase(running), Phase::Stopped);
    assert_eq!(accept_loop.next(running), Step::Exit);
}

#[test]
fn failed_accept_after_the_signal_ends_the_loop_too() {
    let mut accept_loop = AcceptLoop::new();
    assert_eq!(accept_loop.next(true), Step::Accept);
    assert_eq!(accept_loop.accepted(false), Handling::Report);
    assert_eq!(accept_loop.next(false), Step::Close);
}

#[test]
fn events_out_of_turn_change_nothing() {
    let mut accept_loop = AcceptLoop::new();
    accept_loop.closed(Shutdown::Complete);
    assert_eq!(accept_loop.stage(), Stage::Checking);
    assert_eq!(accept_loop.accepted(true), Handling::Dispatch);
    assert_eq!(accept_loop.stage(), Stage::Checking);
    assert_eq!(accept_loop.next(false), Step::Close);
    assert_eq!(accept_loop.accepted(false), Handling::Report);
    assert_eq!(accept_loop.stage(), Stage::Closing);
    // Out of the loop the flag is no longer read.
    assert_eq!(accept_loop.next(true), Step::Close);
    assert_eq!(accept_loop.phase(true), Phase::Stopping);
    accept_loop.closed(Shutdown::Complete);
    accept_loop.closed(Shutdown::Complete);
    assert_eq!(accept_loop.next(true), Step::Exit);
    assert_eq!(accept_loop.phase(true), Phase::Stopped);
}

#[test]
fn failures_of_the_loop_are_worded() {
    assert_eq!(
        accept_failure_message("connection reset"),
        "could not accept connection: connection reset"
    );
    assert_eq!(
        dial_failure_message("127.0.0.1:7878", "connection refused"),
        "could not connect to 127.0.0.1:7878: connection refused"
    );
}
