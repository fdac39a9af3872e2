use wl_mitmproxy::child::{
    exit_code_from_status, forward_signal, signal_target, wait_for_child_or_signal,
    watched_signals, ChildExit, ShutdownSignal, WaitEvent, WaitStep, CHILD_PAUSE_MILLIS,
    FAILURE_CODE,
};

#[test]
fn interrupt_and_termination_are_watched() {
    assert_eq!(watched_signals(), [libc::SIGINT, libc::SIGTERM]);
    assert_eq!(watched_signals(), [2, 15]);
}

#[test]
fn last_signal_is_kept() {
    let mut state = ShutdownSignal::new();
    assert!(!state.requested);
    state.record(2);
    assert!(state.requested);
    assert_eq!(state.signal_to_forward(), 2);
    state.record(15);
    assert_eq!(state.signal_to_forward(), 15);
}

#[test]
fn unknown_signal_becomes_termination() {
    let state = ShutdownSignal { requested: true, last_signal: 0 };
    assert_eq!(state.signal_to_forward(), libc::SIGTERM);
}

#[test]
fn child_that_has_exited_ends_the_wait() {
    assert_eq!(
        wait_for_child_or_signal(WaitStep::Poll, WaitEvent::Exited),
        WaitStep::Exited
    );
    assert_eq!(
        wait_for_child_or_signal(WaitStep::Poll, WaitEvent::PollFailed),
        WaitStep::Failed
    );
}

#[test]
fn running_child_is_looked_at_again() {
    let step = wait_for_child_or_signal(WaitStep::Poll, WaitEvent::Running);
    assert_eq!(step, WaitStep::CheckShutdown);
    let step = wait_for_child_or_signal(step, WaitEvent::Shutdown(ShutdownSignal::new()));
    assert_eq!(step, WaitStep::Pause);
    assert_eq!(wait_for_child_or_signal(step, WaitEvent::Paused), WaitStep::Poll);
    assert_eq!(CHILD_PAUSE_MILLIS, 50);
}

#[test]
fn signal_is_passed_on_and_the_child_reaped() {
    let state = ShutdownSignal { requested: true, last_signal: 2 };
    let step = wait_for_child_or_signal(WaitStep::CheckShutdown, WaitEvent::Shutdown(state));
    assert_eq!(step, WaitStep::Forward(2));
    assert_eq!(
        wait_for_child_or_signal(step, WaitEvent::ForwardFailed),
        WaitStep::Failed
    );
    let step = wait_for_child_or_signal(step, WaitEvent::Forwarded);
    assert_eq!(step, WaitStep::Reap);
    assert_eq!(wait_for_child_or_signal(step, WaitEvent::Exited), WaitStep::Exited);
    assert_eq!(wait_for_child_or_signal(step, WaitEvent::ReapFailed), WaitStep::Failed);
}

#[test]
fn wait_ignores_events_of_other_steps() {
    assert_eq!(
        wait_for_child_or_signal(WaitStep::Poll, WaitEvent::Forwarded),
        WaitStep::Poll
    );
}

#[test]
fn child_that_is_gone_is_no_failure() {
    assert_eq!(forward_signal(0, None), WaitEvent::Forwarded);
    assert_eq!(forward_signal(-1, Some(libc::ESRCH)), WaitEvent::Forwarded);
    assert_eq!(forward_signal(-1, Some(libc::EPERM)), WaitEvent::ForwardFailed);
    assert_eq!(forward_signal(-1, None), WaitEvent::ForwardFailed);
}

#[test]
fn process_ids_are_signed() {
    assert_eq!(signal_target(1234), 1234);
    assert_eq!(signal_target(0x7fff_ffff), i32::MAX);
    assert_eq!(signal_target(0x8000_0000), i32::MIN);
    assert_eq!(signal_target(u32::MAX), -1);
}

#[test]
fn exit_codes_are_kept() {
    for code in 0..256 {
        assert_eq!(exit_code_from_status(Some(code), None), ChildExit::Code(code as u8));
    }
}

#[test]
fn exit_codes_beyond_a_byte_are_cut() {
    assert_eq!(exit_code_from_status(Some(256), None), ChildExit::Code(0));
    assert_eq!(exit_code_from_status(Some(-1), None), ChildExit::Code(255));
    assert_eq!(exit_code_from_status(Some(i32::MIN), Some(9)), ChildExit::Code(0));
}

#[test]
fn signalled_child_has_no_code() {
    assert_eq!(exit_code_from_status(None, Some(9)), ChildExit::Signalled(9));
    assert_eq!(exit_code_from_status(None, None), ChildExit::Unknown);
}

#[test]
fn signal_is_sent_once() {
    let mut step = WaitStep::Poll;
    let mut sent = Vec::new();
    let mut looks = 0;
    while step != WaitStep::Exited {
        let event = match step {
            WaitStep::Poll => WaitEvent::Running,
            WaitStep::CheckShutdown => {
                looks += 1;
                WaitEvent::Shutdown(ShutdownSignal { requested: looks == 3, last_signal: 2 })
            }
            WaitStep::Forward(signal) => {
                sent.push(signal);
                WaitEvent::Forwarded
            }
            WaitStep::Reap => WaitEvent::Exited,
            WaitStep::Pause => WaitEvent::Paused,
            _ => panic!("{step:?}"),
        };
        step = wait_for_child_or_signal(step, event);
    }
    assert_eq!(sent, [2]);
    assert_eq!(looks, 3);
}

#[test]
fn signalled_child_makes_the_proxy_fail() {
    assert_eq!(FAILURE_CODE, 1);
    assert_eq!(exit_code_from_status(None, Some(9)).exit_code(), 1);
    assert_eq!(exit_code_from_status(None, None).exit_code(), 1);
}

#[test]
fn proxy_exits_with_the_code_of_the_child() {
    for code in 0..256 {
        assert_eq!(exit_code_from_status(Some(code), None).exit_code(), code as u8);
    }
}
