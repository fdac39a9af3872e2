//! How the proxy serves clients: accepting connections, and the session of each one.
use crate::listen::IoErrorKind;
use crate::rewrite::{DisplayProxy, RewriteConfig};
use vstd::prelude::*;
use vstd::string::*;

verus! {

/// How long the server pauses when no client is waiting, in milliseconds.
pub const ACCEPT_PAUSE_MILLIS: u64 = 50;

/// The steps of serving a listener.
#[derive(Debug, Clone, Copy, PartialEq, Eq, Structural)]
pub enum ServeStep {
    /// Make the listener return at once where no client is waiting.
    SetNonblocking,
    /// Find out whether the server is to stop.
    CheckShutdown,
    /// Accept a client.
    Accept,
    /// Start a session for the client that was accepted.
    StartSession,
    /// Pause.
    Pause,
    /// The end: the server was asked to stop.
    Stopped,
    /// The end: the last call failed.
    Failed,
}

/// What came of a `ServeStep`.
#[derive(Debug, Clone, Copy, PartialEq, Eq, Structural)]
pub enum ServeEvent {
    NonblockingSet,
    NonblockingFailed,
    /// Whether the server is to stop.
    ShutdownRequested(bool),
    Accepted,
    AcceptFailed(IoErrorKind),
    SessionStarted,
    Paused,
}

/// The first step of a round: a server that can be stopped looks whether it is to stop, another
/// one accepts a client at once.
pub open spec fn round_start(stoppable: bool) -> ServeStep {
    if stoppable {
        ServeStep::CheckShutdown
    } else {
        ServeStep::Accept
    }
}

/// The first step of serving.
pub open spec fn serve_first(stoppable: bool) -> ServeStep {
    if stoppable {
        ServeStep::SetNonblocking
    } else {
        round_start(stoppable)
    }
}

/// The first step of serving.
pub fn first_serve_step(stoppable: bool) -> (step: ServeStep)
    ensures
        step == serve_first(stoppable),
        step is SetNonblocking <==> stoppable,
        step is Accept <==> !stoppable,
{
    if stoppable {
        ServeStep::SetNonblocking
    } else {
        ServeStep::Accept
    }
}

/// Whether an event is an answer to a step.
pub open spec fn serve_answers(step: ServeStep, event: ServeEvent) -> bool {
    match step {
        ServeStep::SetNonblocking => event is NonblockingSet || event is NonblockingFailed,
        ServeStep::CheckShutdown => event is ShutdownRequested,
        ServeStep::Accept => event is Accepted || event is AcceptFailed,
        ServeStep::StartSession => event is SessionStarted,
        ServeStep::Pause => event is Paused,
        _ => false,
    }
}

/// The step after a step of serving. An event that is no answer to the step changes nothing.
pub open spec fn serve_next(stoppable: bool, step: ServeStep, event: ServeEvent) -> ServeStep {
    if !serve_answers(step, event) {
        step
    } else {
        match event {
            ServeEvent::NonblockingSet => round_start(stoppable),
            ServeEvent::NonblockingFailed => ServeStep::Failed,
            ServeEvent::ShutdownRequested(stop) => if stop {
                ServeStep::Stopped
            } else {
                ServeStep::Accept
            },
            ServeEvent::Accepted => ServeStep::StartSession,
            ServeEvent::AcceptFailed(IoErrorKind::WouldBlock) => ServeStep::Pause,
            ServeEvent::AcceptFailed(IoErrorKind::Interrupted) => round_start(stoppable),
            ServeEvent::AcceptFailed(_) => ServeStep::Failed,
            ServeEvent::SessionStarted => round_start(stoppable),
            ServeEvent::Paused => round_start(stoppable),
        }
    }
}

/// The step after a step of serving.
pub fn serve(stoppable: bool, step: ServeStep, event: ServeEvent) -> (next: ServeStep)
    ensures
        next == serve_next(stoppable, step, event),
{
    let round = if stoppable {
        ServeStep::CheckShutdown
    } else {
        ServeStep::Accept
    };
    match step {
        ServeStep::SetNonblocking => match event {
            ServeEvent::NonblockingSet => round,
            ServeEvent::NonblockingFailed => ServeStep::Failed,
            _ => step,
        },
        ServeStep::CheckShutdown => match event {
            ServeEvent::ShutdownRequested(true) => ServeStep::Stopped,
            ServeEvent::ShutdownRequested(false) => ServeStep::Accept,
            _ => step,
        },
        ServeStep::Accept => match event {
            ServeEvent::Accepted => ServeStep::StartSession,
            ServeEvent::AcceptFailed(IoErrorKind::WouldBlock) => ServeStep::Pause,
            ServeEvent::AcceptFailed(IoErrorKind::Interrupted) => round,
            ServeEvent::AcceptFailed(_) => ServeStep::Failed,
            _ => step,
        },
        ServeStep::StartSession => match event {
            ServeEvent::SessionStarted => round,
            _ => step,
        },
        ServeStep::Pause => match event {
            ServeEvent::Paused => round,
            _ => step,
        },
        _ => step,
    }
}

/// The step that a server is at after some events.
pub open spec fn serve_after(stoppable: bool, events: Seq<ServeEvent>) -> ServeStep
    decreases events.len(),
{
    if events.len() == 0 {
        serve_first(stoppable)
    } else {
        serve_next(stoppable, serve_after(stoppable, events.drop_last()), events.last())
    }
}

/// The events that were answers to the step that was pending.
pub open spec fn serve_history(stoppable: bool, events: Seq<ServeEvent>) -> Seq<ServeEvent>
    decreases events.len(),
{
    if events.len() == 0 {
        Seq::empty()
    } else if serve_answers(serve_after(stoppable, events.drop_last()), events.last()) {
        serve_history(stoppable, events.drop_last()).push(events.last())
    } else {
        serve_history(stoppable, events.drop_last())
    }
}

/// How many times an event occurs.
pub open spec fn count(events: Seq<ServeEvent>, event: ServeEvent) -> nat
    decreases events.len(),
{
    if events.len() == 0 {
        0
    } else {
        count(events.drop_last(), event) + if events.last() == event {
            1nat
        } else {
            0nat
        }
    }
}

/// Whether an event is one that only ends the server.
pub open spec fn ends_the_server(event: ServeEvent) -> bool {
    match event {
        ServeEvent::NonblockingFailed => true,
        ServeEvent::ShutdownRequested(stop) => stop,
        ServeEvent::AcceptFailed(kind) => !(kind is WouldBlock) && !(kind is Interrupted),
        _ => false,
    }
}

/// Each client that is accepted gets one session, before the next client is accepted.
pub proof fn every_client_gets_one_session(stoppable: bool, events: Seq<ServeEvent>)
    ensures
        ({
            let history = serve_history(stoppable, events);
            let pending = if serve_after(stoppable, events) is StartSession {
                1nat
            } else {
                0nat
            };
            count(history, ServeEvent::Accepted) == count(history, ServeEvent::SessionStarted)
                + pending
        }),
    decreases events.len(),
{
    if events.len() > 0 {
        let before = serve_history(stoppable, events.drop_last());
        every_client_gets_one_session(stoppable, events.drop_last());
        assert(before.push(events.last()).drop_last() =~= before);
    }
}

/// The server ends exactly with an event that has to end it: it stops where it is asked to, fails
/// where a call fails for a reason that does not pass by itself, and otherwise serves on.
pub proof fn server_runs_until_it_has_to_end(stoppable: bool, events: Seq<ServeEvent>)
    ensures
        ({
            let step = serve_after(stoppable, events);
            let history = serve_history(stoppable, events);
            let n = history.len();
            &&& step is Stopped <==> n > 0 && history[n - 1] == ServeEvent::ShutdownRequested(true)
            &&& step is Stopped || step is Failed <==> n > 0 && ends_the_server(history[n - 1])
            &&& forall|i: int| 0 <= i < n - 1 ==> !ends_the_server(#[trigger] history[i])
        }),
    decreases events.len(),
{
    if events.len() > 0 {
        server_runs_until_it_has_to_end(stoppable, events.drop_last());
    }
}

/// A server that can be stopped accepts a client only right after it found that it is not to
/// stop; one that cannot be stopped never looks.
pub proof fn shutdown_is_checked_before_each_accept(stoppable: bool, events: Seq<ServeEvent>)
    ensures
        ({
            let step = serve_after(stoppable, events);
            let history = serve_history(stoppable, events);
            let n = history.len();
            &&& stoppable && step is Accept ==> n > 0 && history[n - 1]
                == ServeEvent::ShutdownRequested(false)
            &&& !stoppable ==> !(step is CheckShutdown) && !(step is SetNonblocking)
        }),
    decreases events.len(),
{
    if events.len() > 0 {
        shutdown_is_checked_before_each_accept(stoppable, events.drop_last());
    }
}

/// What a session is set up with.
pub struct Session {
    /// The display to connect to.
    pub display_name: String,
    /// What marks the log lines of the session.
    pub log_prefix: String,
    /// What watches the display of the client.
    pub display: DisplayProxy,
}

/// What the session of a client is set up with.
pub fn plan_session(target_display: &str, rewrite: &RewriteConfig) -> (session: Session)
    ensures
        session.display_name@ == target_display@,
        session.log_prefix@ == "wl-mitmproxy"@,
        session.display.rewrite@ == rewrite@,
{
    Session {
        display_name: target_display.to_owned(),
        log_prefix: "wl-mitmproxy".to_owned(),
        display: DisplayProxy { rewrite: rewrite.clone() },
    }
}

/// The steps of the session of a client.
#[derive(Debug, Clone, Copy, PartialEq, Eq, Structural)]
pub enum SessionStep {
    /// Make the client's connection return at once where nothing is there to read.
    SetNonblocking,
    /// Connect to the compositor.
    Connect,
    /// Add the client to the connection.
    AddClient,
    /// Set what watches the client and its display.
    InstallHandlers,
    /// Forward messages.
    Dispatch,
    /// The end: the client is gone.
    Closed,
    /// The end: the last call failed.
    Failed,
}

/// What came of a `SessionStep`.
#[derive(Debug, Clone, Copy, PartialEq, Eq, Structural)]
pub enum SessionEvent {
    Succeeded,
    /// The call failed because the connection is already torn down.
    Destroyed,
    /// The call failed for another reason.
    Failed,
}

/// The steps of setting up a session, in their order, and the forwarding after them.
pub open spec fn setup_step(index: nat) -> SessionStep {
    if index == 0 {
        SessionStep::SetNonblocking
    } else if index == 1 {
        SessionStep::Connect
    } else if index == 2 {
        SessionStep::AddClient
    } else if index == 3 {
        SessionStep::InstallHandlers
    } else {
        SessionStep::Dispatch
    }
}

/// The step after a step of a session. Forwarding goes on until the connection is torn down,
/// which is the regular end; every other failure is a failure of the session.
pub open spec fn session_next(step: SessionStep, event: SessionEvent) -> SessionStep {
    match (step, event) {
        (SessionStep::Closed, _) => step,
        (SessionStep::Failed, _) => step,
        (SessionStep::Dispatch, SessionEvent::Destroyed) => SessionStep::Closed,
        (_, SessionEvent::Destroyed) => SessionStep::Failed,
        (_, SessionEvent::Failed) => SessionStep::Failed,
        (SessionStep::SetNonblocking, SessionEvent::Succeeded) => SessionStep::Connect,
        (SessionStep::Connect, SessionEvent::Succeeded) => SessionStep::AddClient,
        (SessionStep::AddClient, SessionEvent::Succeeded) => SessionStep::InstallHandlers,
        (SessionStep::InstallHandlers, SessionEvent::Succeeded) => SessionStep::Dispatch,
        (SessionStep::Dispatch, SessionEvent::Succeeded) => SessionStep::Dispatch,
    }
}

/// The step after a step of a session. The first step is `SetNonblocking`.
pub fn run_client_session(step: SessionStep, event: SessionEvent) -> (next: SessionStep)
    ensures
        next == session_next(step, event),
{
    match event {
        SessionEvent::Succeeded => match step {
            SessionStep::SetNonblocking => SessionStep::Connect,
            SessionStep::Connect => SessionStep::AddClient,
            SessionStep::AddClient => SessionStep::InstallHandlers,
            SessionStep::InstallHandlers => SessionStep::Dispatch,
            _ => step,
        },
        SessionEvent::Destroyed => match step {
            SessionStep::Dispatch => SessionStep::Closed,
            SessionStep::Closed => SessionStep::Closed,
            _ => SessionStep::Failed,
        },
        SessionEvent::Failed => match step {
            SessionStep::Closed => SessionStep::Closed,
            _ => SessionStep::Failed,
        },
    }
}

/// The step that a session is at after some events.
pub open spec fn session_after(events: Seq<SessionEvent>) -> SessionStep
    decreases events.len(),
{
    if events.len() == 0 {
        SessionStep::SetNonblocking
    } else {
        session_next(session_after(events.drop_last()), events.last())
    }
}

/// Whether the first `len` events are all successes.
pub open spec fn successes(events: Seq<SessionEvent>, len: int) -> bool {
    &&& len <= events.len()
    &&& forall|i: int| 0 <= i < len ==> #[trigger] events[i] is Succeeded
}

/// A session goes on exactly as long as every step succeeds, in the order of its steps. In
/// particular no message is forwarded before the handlers are installed.
pub proof fn handlers_are_installed_before_messages_flow(events: Seq<SessionEvent>)
    ensures
        successes(events, events.len() as int) ==> session_after(events) == setup_step(
            events.len(),
        ),
        !successes(events, events.len() as int) ==> session_after(events) is Closed
            || session_after(events) is Failed,
    decreases events.len(),
{
    if events.len() > 0 {
        let before = events.drop_last();
        handlers_are_installed_before_messages_flow(before);
        assert(forall|i: int| 0 <= i < before.len() ==> before[i] == #[trigger] events[i]);
        if successes(events, events.len() as int) {
            assert forall|i: int| 0 <= i < before.len() implies #[trigger] before[i]
                is Succeeded by {
                assert(before[i] == events[i]);
            }
        } else if successes(before, before.len() as int) {
            assert(!(events.last() is Succeeded)) by {
                if events.last() is Succeeded {
                    assert forall|i: int| 0 <= i < events.len() implies #[trigger] events[i]
                        is Succeeded by {
                        if i < before.len() {
                            assert(before[i] is Succeeded);
                        }
                    }
                }
            }
        }
    }
}

/// A session ends regularly exactly where the first call that does not succeed is one that
/// forwards messages and finds the connection torn down.
pub proof fn sessions_close_when_torn_down(events: Seq<SessionEvent>, end: int)
    requires
        0 <= end < events.len(),
        successes(events, end),
        !(events[end] is Succeeded),
    ensures
        session_after(events) is Closed <==> end >= 4 && events[end] is Destroyed,
    decreases events.len(),
{
    let before = events.drop_last();
    if end < before.len() {
        assert(successes(before, end)) by {
            assert forall|i: int| 0 <= i < end implies #[trigger] before[i] is Succeeded by {
                assert(before[i] == events[i]);
            }
        }
        sessions_close_when_torn_down(before, end);
        handlers_are_installed_before_messages_flow(before);
        assert(!(before[end] is Succeeded));
    } else {
        assert(successes(before, before.len() as int)) by {
            assert forall|i: int| 0 <= i < before.len() implies #[trigger] before[i]
                is Succeeded by {
                assert(before[i] == events[i]);
            }
        }
        handlers_are_installed_before_messages_flow(before);
        assert(events.last() == events[end]);
    }
}

/// The course of serving: a round starts once the listener is set up, once a session is started,
/// after each pause, and after an interrupted call. It starts with a look whether to stop in a
/// server that can be stopped, and with accepting a client in another one. Clients are accepted
/// exactly where the server is not to stop, a pause comes exactly where no client is waiting, and
/// the server fails exactly where a call fails for another reason.
pub proof fn serving_takes_its_course(stoppable: bool, step: ServeStep, event: ServeEvent)
    ensures
        serve_first(stoppable) is SetNonblocking <==> stoppable,
        serve_first(stoppable) is Accept <==> !stoppable,
        ({
            let next = serve_next(stoppable, step, event);
            let moved = next != step;
            let round = {
                ||| step is SetNonblocking && event is NonblockingSet
                ||| step is StartSession && event is SessionStarted
                ||| step is Pause && event is Paused
            };
            let interrupted = step is Accept && event == ServeEvent::AcceptFailed(
                IoErrorKind::Interrupted,
            );
            &&& next is SetNonblocking ==> !moved
            &&& moved && next is CheckShutdown <==> stoppable && (round || interrupted)
            &&& moved && next is Accept <==> {
                ||| step is CheckShutdown && event == ServeEvent::ShutdownRequested(false)
                ||| !stoppable && round
            }
            &&& moved && next is StartSession <==> step is Accept && event is Accepted
            &&& moved && next is Pause <==> step is Accept && event == ServeEvent::AcceptFailed(
                IoErrorKind::WouldBlock,
            )
            &&& moved && next is Stopped <==> step is CheckShutdown && event
                == ServeEvent::ShutdownRequested(true)
            &&& moved && next is Failed <==> {
                ||| step is SetNonblocking && event is NonblockingFailed
                ||| step is Accept && event is AcceptFailed && !interrupted && event
                    != ServeEvent::AcceptFailed(IoErrorKind::WouldBlock)
            }
        }),
{
}

/// The course of a session: its steps come in their order, each one exactly where the one before
/// it succeeded. The session closes exactly where forwarding finds the connection torn down, and
/// fails exactly where any other call does not succeed.
pub proof fn session_takes_its_course(step: SessionStep, event: SessionEvent)
    ensures
        ({
            let next = session_next(step, event);
            let moved = next != step;
            let succeeded = event is Succeeded;
            &&& next is SetNonblocking ==> !moved
            &&& moved && next is Connect <==> step is SetNonblocking && succeeded
            &&& moved && next is AddClient <==> step is Connect && succeeded
            &&& moved && next is InstallHandlers <==> step is AddClient && succeeded
            &&& moved && next is Dispatch <==> step is InstallHandlers && succeeded
            &&& moved && next is Closed <==> step is Dispatch && event is Destroyed
            &&& moved && next is Failed <==> !succeeded && !(step is Closed) && !(step is Failed)
                && !(step is Dispatch && event is Destroyed)
        }),
{
}

} // verus!
