use wl_mitmproxy::listen::IoErrorKind;
use wl_mitmproxy::rewrite::RewriteConfig;
use wl_mitmproxy::serve::{
    first_serve_step, plan_session, run_client_session, serve, ServeEvent, ServeStep, SessionEvent,
    SessionStep, ACCEPT_PAUSE_MILLIS,
};

#[test]
fn stoppable_server_does_not_block() {
    assert_eq!(first_serve_step(true), ServeStep::SetNonblocking);
    assert_eq!(
        serve(true, ServeStep::SetNonblocking, ServeEvent::NonblockingSet),
        ServeStep::CheckShutdown
    );
    assert_eq!(
        serve(true, ServeStep::SetNonblocking, ServeEvent::NonblockingFailed),
        ServeStep::Failed
    );
}

#[test]
fn server_without_a_stop_accepts_at_once() {
    assert_eq!(first_serve_step(false), ServeStep::Accept);
    assert_eq!(
        serve(false, ServeStep::StartSession, ServeEvent::SessionStarted),
        ServeStep::Accept
    );
}

#[test]
fn server_stops_on_request() {
    assert_eq!(
        serve(true, ServeStep::CheckShutdown, ServeEvent::ShutdownRequested(true)),
        ServeStep::Stopped
    );
    assert_eq!(
        serve(true, ServeStep::CheckShutdown, ServeEvent::ShutdownRequested(false)),
        ServeStep::Accept
    );
}

#[test]
fn accepted_client_gets_a_session() {
    let step = serve(true, ServeStep::Accept, ServeEvent::Accepted);
    assert_eq!(step, ServeStep::StartSession);
    assert_eq!(serve(true, step, ServeEvent::SessionStarted), ServeStep::CheckShutdown);
}

#[test]
fn failed_accepts() {
    let failed = |kind| serve(true, ServeStep::Accept, ServeEvent::AcceptFailed(kind));
    assert_eq!(failed(IoErrorKind::WouldBlock), ServeStep::Pause);
    assert_eq!(failed(IoErrorKind::Interrupted), ServeStep::CheckShutdown);
    assert_eq!(failed(IoErrorKind::Other), ServeStep::Failed);
    assert_eq!(failed(IoErrorKind::NotFound), ServeStep::Failed);
    assert_eq!(serve(true, ServeStep::Pause, ServeEvent::Paused), ServeStep::CheckShutdown);
    assert_eq!(ACCEPT_PAUSE_MILLIS, 50);
}

#[test]
fn every_accepted_client_is_served_once() {
    let mut step = first_serve_step(true);
    let mut sessions = 0;
    let mut rounds = 0;
    while step != ServeStep::Stopped {
        let event = match step {
            ServeStep::SetNonblocking => ServeEvent::NonblockingSet,
            ServeStep::CheckShutdown => ServeEvent::ShutdownRequested(rounds == 5),
            ServeStep::Accept => {
                rounds += 1;
                if rounds == 2 {
                    ServeEvent::AcceptFailed(IoErrorKind::WouldBlock)
                } else {
                    ServeEvent::Accepted
                }
            }
            ServeStep::StartSession => {
                sessions += 1;
                ServeEvent::SessionStarted
            }
            ServeStep::Pause => ServeEvent::Paused,
            _ => panic!("{step:?}"),
        };
        step = serve(true, step, event);
    }
    assert_eq!(rounds, 5);
    assert_eq!(sessions, 4);
}

#[test]
fn session_is_set_up_for_the_host_display() {
    let rewrite = RewriteConfig { app_id: Some("a".to_string()), title: None };
    let session = plan_session("wayland-0", &rewrite);
    assert_eq!(session.display_name, "wayland-0");
    assert_eq!(session.log_prefix, "wl-mitmproxy");
    assert_eq!(session.display.rewrite.app_id.as_deref(), Some("a"));
    assert_eq!(session.display.rewrite.title, None);
}

#[test]
fn session_steps_in_order() {
    let mut step = SessionStep::SetNonblocking;
    for expected in [
        SessionStep::Connect,
        SessionStep::AddClient,
        SessionStep::InstallHandlers,
        SessionStep::Dispatch,
        SessionStep::Dispatch,
    ] {
        step = run_client_session(step, SessionEvent::Succeeded);
        assert_eq!(step, expected);
    }
    assert_eq!(run_client_session(step, SessionEvent::Destroyed), SessionStep::Closed);
    assert_eq!(run_client_session(step, SessionEvent::Failed), SessionStep::Failed);
}

#[test]
fn session_that_is_not_set_up_fails() {
    for step in [SessionStep::SetNonblocking, SessionStep::Connect, SessionStep::AddClient] {
        assert_eq!(run_client_session(step, SessionEvent::Failed), SessionStep::Failed);
        assert_eq!(run_client_session(step, SessionEvent::Destroyed), SessionStep::Failed);
    }
    assert_eq!(
        run_client_session(SessionStep::Closed, SessionEvent::Failed),
        SessionStep::Closed
    );
}
