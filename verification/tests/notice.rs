use wl_mitmproxy::child::exit_code_from_status;
use wl_mitmproxy::launch::{ChildOutcome, ChildStep, DaemonOutcome, DaemonStep};
use wl_mitmproxy::listen::{AllocationStep, ListenerStep};
use wl_mitmproxy::notice::{
    allocation_notice, app_id_not_forwarded, child_notice, child_signalled, daemon_notice,
    daemon_started, exit_notice, fatal, launching_child, listener_notice, listening,
    reusing_stale_socket, session_failed, title_not_forwarded, value_not_forwarded, Severity,
};
use wl_mitmproxy::socket::resolve_socket_spec;

#[test]
fn status_lines_name_the_socket() {
    let socket = resolve_socket_spec(b"/run/user/1000", "wayland-0-proxy");
    assert_eq!(
        daemon_started(&socket).text,
        "wl-mitmproxy daemon started on wayland-0-proxy (/run/user/1000/wayland-0-proxy)"
    );
    assert_eq!(
        listening(&socket).text,
        "wl-mitmproxy listening on wayland-0-proxy (/run/user/1000/wayland-0-proxy)"
    );
    assert_eq!(
        launching_child(&socket).text,
        "wl-mitmproxy launching child with WAYLAND_DISPLAY=wayland-0-proxy \
         (/run/user/1000/wayland-0-proxy)"
    );
    assert_eq!(reusing_stale_socket(b"/run/s").text, "reusing stale socket /run/s");
}

#[test]
fn paths_that_are_no_text_are_shown() {
    assert_eq!(
        reusing_stale_socket(&[0x2f, 0xff, b'a']).text,
        "reusing stale socket /\u{fffd}a"
    );
}

#[test]
fn error_lines() {
    assert_eq!(fatal("broken").text, "wl-mitmproxy: broken");
    assert_eq!(session_failed("broken").text, "wl-mitmproxy session failed: broken");
    assert_eq!(
        app_id_not_forwarded("a\"b\n", "broken").text,
        "wl-mitmproxy: failed to forward xdg_toplevel.set_app_id \"a\\\"b\\n\": broken"
    );
    assert_eq!(
        title_not_forwarded("t", "broken").text,
        "wl-mitmproxy: failed to forward xdg_toplevel.set_title \"t\": broken"
    );
    assert_eq!(child_signalled(9).text, "child terminated by signal 9");
}

#[test]
fn errors_are_always_emitted() {
    for notice in [fatal("x"), session_failed("x"), child_signalled(9)] {
        assert_eq!(notice.severity, Severity::Error);
        for level in [None, Some("error"), Some("info"), Some("")] {
            assert!(notice.is_emitted(level));
        }
    }
}

#[test]
fn status_lines_are_emitted_on_request() {
    let notice = reusing_stale_socket(b"/run/s");
    assert_eq!(notice.severity, Severity::Status);
    assert!(!notice.is_emitted(None));
    assert!(!notice.is_emitted(Some("error")));
    assert!(!notice.is_emitted(Some("warn")));
    assert!(notice.is_emitted(Some("info")));
    assert!(notice.is_emitted(Some("debug")));
    assert!(notice.is_emitted(Some("trace")));
}

#[test]
fn stale_sockets_are_announced_before_they_are_removed() {
    let text = "reusing stale socket /run/s";
    assert_eq!(listener_notice(ListenerStep::Reclaim, b"/run/s").unwrap().text, text);
    assert_eq!(allocation_notice(AllocationStep::Reclaim(3), b"/run/s").unwrap().text, text);
    assert!(listener_notice(ListenerStep::Bind, b"/run/s").is_none());
    assert!(listener_notice(ListenerStep::SocketActive, b"/run/s").is_none());
    assert!(allocation_notice(AllocationStep::Probe(3), b"/run/s").is_none());
}

#[test]
fn sockets_are_announced_before_they_are_used() {
    let socket = resolve_socket_spec(b"/run", "s");
    assert_eq!(
        daemon_notice(DaemonStep::Serve, &socket).unwrap().text,
        "wl-mitmproxy listening on s (/run/s)"
    );
    assert!(daemon_notice(DaemonStep::Listen, &socket).is_none());
    assert!(daemon_notice(DaemonStep::End(DaemonOutcome::Stopped), &socket).is_none());
    assert_eq!(
        child_notice(ChildStep::Spawn, &socket).unwrap().text,
        "wl-mitmproxy launching child with WAYLAND_DISPLAY=s (/run/s)"
    );
    assert!(child_notice(ChildStep::StartServer, &socket).is_none());
    assert!(child_notice(ChildStep::End(ChildOutcome::Exited), &socket).is_none());
}

#[test]
fn only_a_signal_is_reported_of_a_child() {
    let notice = exit_notice(exit_code_from_status(None, Some(9))).unwrap();
    assert_eq!(notice.severity, Severity::Error);
    assert_eq!(notice.text, "child terminated by signal 9");
    assert!(exit_notice(exit_code_from_status(None, None)).is_none());
    assert!(exit_notice(exit_code_from_status(Some(3), None)).is_none());
}

#[test]
fn quoted_values_are_put_between() {
    assert_eq!(
        value_not_forwarded("request", "<value>", "broken").text,
        "wl-mitmproxy: failed to forward request <value>: broken"
    );
}
