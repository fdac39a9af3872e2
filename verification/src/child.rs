//! The life of the child process, and of the signals that the proxy gets meanwhile.
use vstd::prelude::*;

verus! {

/// The number of the signal that asks a process to terminate.
pub open spec fn termination_signal() -> i32 {
    15
}

/// The number of the signal that a terminal sends to interrupt a process.
pub open spec fn interrupt_signal() -> i32 {
    2
}

/// The error number that says that there is no such process.
pub open spec fn no_such_process() -> i32 {
    3
}

/// The number of `SIGTERM`.
///
/// Reads `signal_hook::consts::signal::SIGTERM`, which is 15 on Linux.
#[verifier::external_body]
fn sigterm() -> (signal: i32)
    ensures
        signal == termination_signal(),
{
    signal_hook::consts::signal::SIGTERM
}

/// The number of `SIGINT`.
///
/// Reads `signal_hook::consts::signal::SIGINT`, which is 2 on Linux.
#[verifier::external_body]
fn sigint() -> (signal: i32)
    ensures
        signal == interrupt_signal(),
{
    signal_hook::consts::signal::SIGINT
}

/// The error number `ESRCH`.
///
/// Reads `libc::ESRCH`, which is 3 on Linux.
#[verifier::external_body]
fn esrch() -> (number: i32)
    ensures
        number == no_such_process(),
{
    libc::ESRCH
}

/// The signals that ask the proxy to stop.
pub fn watched_signals() -> (signals: [i32; 2])
    ensures
        signals@ == seq![interrupt_signal(), termination_signal()],
        signals@[0] == 2,
        signals@[1] == 15,
{
    [sigint(), sigterm()]
}

/// The signals that the proxy got so far.
#[derive(Debug, Clone, Copy, PartialEq, Eq, Structural)]
pub struct ShutdownSignal {
    /// Whether a signal came.
    pub requested: bool,
    /// The signal that came last; zero where none came.
    pub last_signal: i32,
}

impl ShutdownSignal {
    /// No signal came yet.
    pub fn new() -> (signal: Self)
        ensures
            signal == (ShutdownSignal { requested: false, last_signal: 0 }),
    {
        ShutdownSignal { requested: false, last_signal: 0 }
    }

    /// Takes note of a signal.
    pub fn record(&mut self, signal: i32)
        ensures
            *final(self) == recorded(*old(self), signal),
            final(self).requested,
            final(self).last_signal == signal,
    {
        self.last_signal = signal;
        self.requested = true;
    }

    /// The signal to pass on to the child.
    pub fn signal_to_forward(&self) -> (signal: i32)
        ensures
            signal == passed_on(*self),
            self.last_signal != 0 ==> signal == self.last_signal,
            self.last_signal == 0 ==> signal == 15,
    {
        if self.last_signal == 0 {
            sigterm()
        } else {
            self.last_signal
        }
    }
}

/// What is known once a signal came.
pub open spec fn recorded(state: ShutdownSignal, signal: i32) -> ShutdownSignal {
    ShutdownSignal { requested: true, last_signal: signal }
}

/// The signal that is passed on to the child: the one that came last, or the one that asks to
/// terminate where none is known.
pub open spec fn passed_on(state: ShutdownSignal) -> i32 {
    if state.last_signal == 0 {
        termination_signal()
    } else {
        state.last_signal
    }
}

/// What is known after some signals came.
pub open spec fn after_signals(signals: Seq<i32>) -> ShutdownSignal
    decreases signals.len(),
{
    if signals.len() == 0 {
        ShutdownSignal { requested: false, last_signal: 0 }
    } else {
        recorded(after_signals(signals.drop_last()), signals.last())
    }
}

/// A stop is requested exactly when a signal came, and the child gets the signal that came last.
pub proof fn last_signal_is_passed_on(signals: Seq<i32>)
    requires
        forall|i: int| 0 <= i < signals.len() ==> #[trigger] signals[i] != 0,
    ensures
        after_signals(signals).requested <==> signals.len() > 0,
        signals.len() > 0 ==> passed_on(after_signals(signals)) == signals.last(),
{
}

/// How long the proxy pauses between two looks at the child, in milliseconds.
pub const CHILD_PAUSE_MILLIS: u64 = 50;

/// The steps of waiting for the child.
#[derive(Debug, Clone, Copy, PartialEq, Eq, Structural)]
pub enum WaitStep {
    /// Look whether the child has exited.
    Poll,
    /// Look whether the proxy is to stop.
    CheckShutdown,
    /// Send a signal to the child.
    Forward(i32),
    /// Wait until the child has exited.
    Reap,
    /// Pause.
    Pause,
    /// The end: the child has exited.
    Exited,
    /// The end: the last call failed.
    Failed,
}

/// What came of a `WaitStep`.
#[derive(Debug, Clone, Copy, PartialEq, Eq, Structural)]
pub enum WaitEvent {
    Running,
    Exited,
    PollFailed,
    Shutdown(ShutdownSignal),
    Forwarded,
    ForwardFailed,
    ReapFailed,
    Paused,
}

/// Whether an event is an answer to a step.
pub open spec fn wait_answers(step: WaitStep, event: WaitEvent) -> bool {
    match step {
        WaitStep::Poll => event is Running || event is Exited || event is PollFailed,
        WaitStep::CheckShutdown => event is Shutdown,
        WaitStep::Forward(_) => event is Forwarded || event is ForwardFailed,
        WaitStep::Reap => event is Exited || event is ReapFailed,
        WaitStep::Pause => event is Paused,
        _ => false,
    }
}

/// The step after a step of waiting for the child. An event that is no answer to the step
/// changes nothing.
pub open spec fn wait_next(step: WaitStep, event: WaitEvent) -> WaitStep {
    if !wait_answers(step, event) {
        step
    } else {
        match event {
            WaitEvent::Running => WaitStep::CheckShutdown,
            WaitEvent::Exited => WaitStep::Exited,
            WaitEvent::Shutdown(state) => if state.requested {
                WaitStep::Forward(passed_on(state))
            } else {
                WaitStep::Pause
            },
            WaitEvent::Forwarded => WaitStep::Reap,
            WaitEvent::Paused => WaitStep::Poll,
            WaitEvent::PollFailed | WaitEvent::ForwardFailed | WaitEvent::ReapFailed =>
                WaitStep::Failed,
        }
    }
}

/// The step after a step of waiting for the child. The first step is `Poll`.
pub fn wait_for_child_or_signal(step: WaitStep, event: WaitEvent) -> (next: WaitStep)
    ensures
        next == wait_next(step, event),
{
    match step {
        WaitStep::Poll => match event {
            WaitEvent::Exited => WaitStep::Exited,
            WaitEvent::Running => WaitStep::CheckShutdown,
            WaitEvent::PollFailed => WaitStep::Failed,
            _ => step,
        },
        WaitStep::CheckShutdown => match event {
            WaitEvent::Shutdown(state) => if state.requested {
                WaitStep::Forward(state.signal_to_forward())
            } else {
                WaitStep::Pause
            },
            _ => step,
        },
        WaitStep::Forward(_) => match event {
            WaitEvent::Forwarded => WaitStep::Reap,
            WaitEvent::ForwardFailed => WaitStep::Failed,
            _ => step,
        },
        WaitStep::Reap => match event {
            WaitEvent::Exited => WaitStep::Exited,
            WaitEvent::ReapFailed => WaitStep::Failed,
            _ => step,
        },
        WaitStep::Pause => match event {
            WaitEvent::Paused => WaitStep::Poll,
            _ => step,
        },
        _ => step,
    }
}

/// The step that the wait is at after some events.
pub open spec fn wait_after(events: Seq<WaitEvent>) -> WaitStep
    decreases events.len(),
{
    if events.len() == 0 {
        WaitStep::Poll
    } else {
        wait_next(wait_after(events.drop_last()), events.last())
    }
}

/// The events that were answers to the step that was pending.
pub open spec fn wait_history(events: Seq<WaitEvent>) -> Seq<WaitEvent>
    decreases events.len(),
{
    if events.len() == 0 {
        Seq::empty()
    } else if wait_answers(wait_after(events.drop_last()), events.last()) {
        wait_history(events.drop_last()).push(events.last())
    } else {
        wait_history(events.drop_last())
    }
}

/// Whether a signal was sent.
pub open spec fn forwarded_before(history: Seq<WaitEvent>, end: int) -> bool {
    exists|i: int| 0 <= i < end && #[trigger] history[i] is Forwarded
}

/// Whatever happens: a signal is sent only to a child that was still running at the last look,
/// only where the proxy is to stop, and it is the one to pass on; it is sent at most once; and
/// the wait ends regularly exactly where the child was seen to have exited.
pub proof fn signals_are_forwarded_once(events: Seq<WaitEvent>)
    ensures
        ({
            let step = wait_after(events);
            let history = wait_history(events);
            let n = history.len() as int;
            &&& step matches WaitStep::Forward(signal) ==> {
                &&& n >= 2
                &&& history[n - 2] is Running
                &&& history[n - 1] matches WaitEvent::Shutdown(state) && state.requested && signal
                    == passed_on(state)
                &&& !forwarded_before(history, n)
            }
            &&& step is Reap ==> n > 0 && history[n - 1] is Forwarded && !forwarded_before(
                history,
                n - 1,
            )
            &&& step is Poll || step is CheckShutdown || step is Pause ==> !forwarded_before(
                history,
                n,
            )
            &&& step is CheckShutdown ==> n > 0 && history[n - 1] is Running
            &&& forall|i: int, j: int|
                0 <= i < n && 0 <= j < n && #[trigger] history[i] is Forwarded
                    && #[trigger] history[j] is Forwarded ==> i == j
            &&& step is Exited <==> n > 0 && history[n - 1] is Exited
        }),
    decreases events.len(),
{
    if events.len() > 0 {
        let before = events.drop_last();
        signals_are_forwarded_once(before);
        let old_history = wait_history(before);
        let history = wait_history(events);
        if wait_answers(wait_after(before), events.last()) {
            assert forall|i: int| 0 <= i < old_history.len() implies old_history[i]
                == #[trigger] history[i] by {}
            assert(history.last() == events.last());
        }
    }
}

/// Whether sending a signal failed: the call failed for another reason than that the child is
/// gone already.
pub open spec fn send_failed(result: i32, raw_os_error: Option<i32>) -> bool {
    result == -1 && raw_os_error != Some(no_such_process())
}

/// What came of sending a signal, from the result of `kill` and, where that is -1, the error
/// number.
pub fn forward_signal(result: i32, raw_os_error: Option<i32>) -> (event: WaitEvent)
    ensures
        event == (if send_failed(result, raw_os_error) {
            WaitEvent::ForwardFailed
        } else {
            WaitEvent::Forwarded
        }),
        event is ForwardFailed <==> result == -1 && raw_os_error != Some(3i32),
        event is Forwarded <==> result != -1 || raw_os_error == Some(3i32),
{
    if result == -1 {
        match raw_os_error {
            Some(number) => if number == esrch() {
                WaitEvent::Forwarded
            } else {
                WaitEvent::ForwardFailed
            },
            None => WaitEvent::ForwardFailed,
        }
    } else {
        WaitEvent::Forwarded
    }
}

/// A process ID in the form that `kill` takes.
pub fn signal_target(pid: u32) -> (target: i32)
    ensures
        target == if pid <= i32::MAX {
            pid as int
        } else {
            pid - 0x1_0000_0000
        },
{
    let target = #[verifier::truncate] (pid as i32);
    assert(pid <= 0x7fff_ffff ==> (pid as i32) == pid) by (bit_vector);
    assert(pid > 0x7fff_ffff ==> (pid as i32) == pid - 0x1_0000_0000) by (bit_vector);
    target
}

/// How a child ended.
#[derive(Debug, Clone, Copy, PartialEq, Eq, Structural)]
pub enum ChildExit {
    /// It exited by itself; the exit code for the proxy.
    Code(u8),
    /// A signal terminated it.
    Signalled(i32),
    /// Nothing is known of how it ended.
    Unknown,
}

/// What a process exits with where it failed.
pub const FAILURE_CODE: u8 = 1;

impl ChildExit {
    /// What the proxy exits with once its child ended: the child's own code where the child exited
    /// by itself, and the failure code otherwise.
    pub open spec fn proxy_code(self) -> u8 {
        match self {
            ChildExit::Code(code) => code,
            ChildExit::Signalled(_) => FAILURE_CODE,
            ChildExit::Unknown => FAILURE_CODE,
        }
    }

    /// What the proxy exits with once its child ended.
    pub fn exit_code(self) -> (code: u8)
        ensures
            code == self.proxy_code(),
            self matches ChildExit::Code(own) ==> code == own,
            !(self is Code) ==> code == 1,
    {
        match self {
            ChildExit::Code(code) => code,
            ChildExit::Signalled(_) | ChildExit::Unknown => FAILURE_CODE,
        }
    }
}

/// How a child ended, from its exit code where it exited by itself, and the signal that terminated
/// it where one did. Only the low eight bits of an exit code count.
pub fn exit_code_from_status(code: Option<i32>, signal: Option<i32>) -> (exit: ChildExit)
    ensures
        match (code, signal) {
            (Some(code), _) => exit == ChildExit::Code((code as int % 256) as u8),
            (None, Some(signal)) => exit == ChildExit::Signalled(signal),
            (None, None) => exit == ChildExit::Unknown,
        },
        code is Some && 0 <= code->0 < 256 ==> exit.proxy_code() == code->0,
        code is None ==> exit.proxy_code() == FAILURE_CODE,
        code is None ==> exit.proxy_code() == 1,
{
    match code {
        Some(code) => {
            let low = #[verifier::truncate] (code as u8);
            proof {
                lemma_low_byte(code);
            }
            ChildExit::Code(low)
        },
        None => match signal {
            Some(signal) => ChildExit::Signalled(signal),
            None => ChildExit::Unknown,
        },
    }
}

proof fn lemma_low_byte(code: i32)
    ensures
        (code as u8) as int == code as int % 256,
{
    let bits = code as u32;
    assert((code as u8) == (bits as u8) && bits as u8 == bits % 256) by (bit_vector)
        requires
            bits == code as u32,
    ;
    assert(code >= 0 ==> bits == code) by (bit_vector)
        requires
            bits == code as u32,
    ;
    assert(code < 0 ==> bits == code + 0x1_0000_0000) by (bit_vector)
        requires
            bits == code as u32,
    ;
}

/// A stop always gets to the child: whenever the wait looks for one and it is requested, the
/// signal that came last is sent next, whichever it is, and the one that asks to terminate where
/// none is known; and the wait pauses exactly where no stop is requested.
pub proof fn requested_stops_are_forwarded(state: ShutdownSignal)
    ensures
        ({
            let next = wait_next(WaitStep::CheckShutdown, WaitEvent::Shutdown(state));
            &&& next is Pause <==> !state.requested
            &&& next is Forward <==> state.requested
            &&& state.requested && state.last_signal != 0 ==> next == WaitStep::Forward(
                state.last_signal,
            )
            &&& state.requested && state.last_signal == 0 ==> next == WaitStep::Forward(15)
        }),
{
}

/// Whatever happened before, a signal that came while the child was running is the one that is
/// sent to it once the wait has looked for it, and the child is reaped after that.
pub proof fn signals_get_to_a_running_child(
    events: Seq<WaitEvent>,
    signals: Seq<i32>,
    signal: i32,
)
    requires
        signal != 0,
        wait_after(events) is CheckShutdown,
    ensures
        ({
            let state = after_signals(signals.push(signal));
            let looked = events.push(WaitEvent::Shutdown(state));
            let sent = looked.push(WaitEvent::Forwarded);
            &&& wait_after(looked) == WaitStep::Forward(signal)
            &&& wait_after(sent) is Reap
            &&& wait_after(sent.push(WaitEvent::Exited)) is Exited
        }),
{
    let all = signals.push(signal);
    let state = after_signals(all);
    assert(all.drop_last() =~= signals);
    let looked = events.push(WaitEvent::Shutdown(state));
    let sent = looked.push(WaitEvent::Forwarded);
    assert(looked.drop_last() =~= events);
    assert(sent.drop_last() =~= looked);
    assert(sent.push(WaitEvent::Exited).drop_last() =~= sent);
}

/// The wait ends only with an answer that has to end it. It ends regularly exactly where a look at
/// the child, or the wait for its end, finds that it has exited, and fails exactly where one of
/// its calls fails.
pub proof fn wait_ends_with_the_child(step: WaitStep, event: WaitEvent)
    ensures
        ({
            let next = wait_next(step, event);
            let over = step is Exited || step is Failed;
            &&& over ==> next == step
            &&& !over ==> (next is Exited <==> event is Exited && (step is Poll || step is Reap))
            &&& !over ==> (next is Failed <==> (step is Poll && event is PollFailed) || (step
                is Forward && event is ForwardFailed) || (step is Reap && event is ReapFailed))
            &&& next is Reap && !(step is Reap) <==> step is Forward && event is Forwarded
            &&& next is CheckShutdown && !(step is CheckShutdown) <==> step is Poll && event
                is Running
            &&& next is Poll && !(step is Poll) <==> step is Pause && event is Paused
            &&& next is Forward && next != step ==> step is CheckShutdown && event is Shutdown
            &&& next is Pause && !(step is Pause) ==> step is CheckShutdown && event is Shutdown
        }),
{
}

/// Sending a signal failed exactly where the call reports a failure other than that there is no
/// such process: a call that reports none, and one that finds the child gone, both count as sent.
pub proof fn signals_to_a_gone_child_count_as_sent(result: i32, raw_os_error: Option<i32>)
    ensures
        send_failed(result, raw_os_error) ==> result == -1 && raw_os_error != Some(3i32),
        result == -1 && raw_os_error is None ==> send_failed(result, raw_os_error),
        result == -1 && raw_os_error is Some && raw_os_error->0 != 3 ==> send_failed(
            result,
            raw_os_error,
        ),
{
}

/// The proxy exits with the code of a child that exited by itself, whatever the code, and with one
/// of its own, which is not that of a success, where the child did not.
pub proof fn proxy_exits_with_the_code_of_the_child(code: u8, signal: i32)
    ensures
        ChildExit::Code(code).proxy_code() == code,
        ChildExit::Signalled(signal).proxy_code() == 1,
        ChildExit::Unknown.proxy_code() == 1,
{
}

} // verus!
