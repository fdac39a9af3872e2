use wl_mitmproxy::child::ShutdownSignal;
use wl_mitmproxy::config::{read_host_environment, required_env, Cli, HostEnvironment};
use wl_mitmproxy::error::{ErrorKind, ProxyError};
use wl_mitmproxy::launch::{
    child_command, child_error, join_server_thread, plan_child_mode, run, run_child_mode, run_daemon_mode,
    spawn_daemon_process, ChildEvent, ChildOutcome, ChildStep, DaemonOutcome, DaemonStep, Mode,
};
use wl_mitmproxy::listen::candidate_socket;
use wl_mitmproxy::serve::{serve, ServeEvent, ServeStep};
use wl_mitmproxy::socket::{resolve_fixed_socket, resolve_socket_spec};

fn cli(command: &[&str]) -> Cli {
    Cli {
        app_id: Some("firefox_firefox".to_string()),
        title: None,
        proxy_socket: None,
        proxy_runtime_dir: None,
        foreground_daemon: false,
        command: command.iter().map(|word| word.as_bytes().to_vec()).collect(),
    }
}

fn host() -> HostEnvironment {
    HostEnvironment { runtime_dir: b"/run/user/1000".to_vec(), display: "wayland-0".to_string() }
}

fn text(value: &str) -> Option<String> {
    Some(value.to_string())
}

#[test]
fn environment_is_read() {
    let host = read_host_environment(text("/run/user/1000"), text("wayland-1")).unwrap();
    assert_eq!(host.runtime_dir, b"/run/user/1000");
    assert_eq!(host.display, "wayland-1");
}

#[test]
fn missing_variables_are_reported_in_order() {
    let error = read_host_environment(None, None).unwrap_err();
    assert_eq!(error.message(), "required environment variable XDG_RUNTIME_DIR is not set");
    assert_eq!(error.kind(), ErrorKind::InvalidInput);
    let error = read_host_environment(text("/run"), None).unwrap_err();
    assert_eq!(error.message(), "required environment variable WAYLAND_DISPLAY is not set");
    assert_eq!(required_env("X", text("")).unwrap(), "");
    assert_eq!(
        required_env("X", None).unwrap_err().message(),
        "required environment variable X is not set"
    );
}

#[test]
fn error_messages_and_kinds() {
    let path = || b"/run/s".to_vec();
    let expected = [
        (
            ProxyError::NoRewriteOption,
            ErrorKind::InvalidInput,
            "at least one rewrite option must be supplied: --app-id and/or --title",
        ),
        (
            ProxyError::NotASocket(path()),
            ErrorKind::AlreadyExists,
            "path exists and is not a socket: /run/s",
        ),
        (
            ProxyError::SocketActive(path()),
            ErrorKind::AddrInUse,
            "socket already exists and is active: /run/s",
        ),
        (
            ProxyError::NoFreeSocket(b"/run".to_vec()),
            ErrorKind::AddrInUse,
            "could not allocate a free proxy socket under /run",
        ),
        (ProxyError::ServerPanicked, ErrorKind::Other, "proxy server thread panicked"),
    ];
    for (error, kind, message) in expected {
        assert_eq!(error.kind(), kind);
        assert_eq!(error.message(), message);
    }
}

#[test]
fn modes_follow_the_command_line() {
    let mode = |cli: &Cli| run(cli, text("/run/user/1000"), text("wayland-0")).unwrap().mode;
    assert_eq!(mode(&cli(&["foot"])), Mode::Child);
    assert_eq!(mode(&cli(&[])), Mode::SpawnDaemon);
    let mut daemon = cli(&[]);
    daemon.foreground_daemon = true;
    assert_eq!(mode(&daemon), Mode::Daemon);
    let mut child = cli(&["foot"]);
    child.foreground_daemon = true;
    assert_eq!(mode(&child), Mode::Child);
}

#[test]
fn runtime_directory_is_the_hosts_unless_given() {
    let launch = run(&cli(&[]), text("/run/user/1000"), text("wayland-0")).unwrap();
    assert_eq!(launch.proxy_runtime_dir, b"/run/user/1000");
    assert!(!launch.proxy_runtime_dir_overridden);
    assert_eq!(launch.rewrite.app_id.as_deref(), Some("firefox_firefox"));
    assert_eq!(launch.host.display, "wayland-0");
    let mut given = cli(&[]);
    given.proxy_runtime_dir = Some(vec![0x2f, 0xff]);
    let launch = run(&given, text("/run/user/1000"), text("wayland-0")).unwrap();
    assert_eq!(launch.proxy_runtime_dir, [0x2f, 0xff]);
    assert!(launch.proxy_runtime_dir_overridden);
}

#[test]
fn start_errors_in_order() {
    let mut empty = cli(&[]);
    empty.app_id = None;
    let message = |runtime_dir, display| run(&empty, runtime_dir, display).unwrap_err().message();
    assert_eq!(message(None, None), "required environment variable XDG_RUNTIME_DIR is not set");
    assert_eq!(
        message(text("/run"), None),
        "required environment variable WAYLAND_DISPLAY is not set"
    );
    assert_eq!(
        message(text("/run"), text("wayland-0")),
        "at least one rewrite option must be supplied: --app-id and/or --title"
    );
}

#[test]
fn daemon_gets_the_given_options() {
    let process = spawn_daemon_process(&cli(&[]), &host(), b"/run/user/1000");
    assert_eq!(
        process.arguments,
        [&b"--app-id"[..], b"firefox_firefox", b"--foreground-daemon"]
    );
    assert_eq!(process.socket.display_value, "wayland-0-proxy");
    assert_eq!(process.socket.listen_path, b"/run/user/1000/wayland-0-proxy");
    assert_eq!(
        process.announcement.text,
        "wl-mitmproxy daemon started on wayland-0-proxy (/run/user/1000/wayland-0-proxy)"
    );
}

#[test]
fn daemon_gets_every_option() {
    let mut all = cli(&[]);
    all.title = text("Firefox");
    all.proxy_socket = text("wayland-mitmproxy");
    all.proxy_runtime_dir = Some(b"/tmp/wl-mitmproxy".to_vec());
    let process = spawn_daemon_process(&all, &host(), b"/tmp/wl-mitmproxy");
    assert_eq!(
        process.arguments,
        [
            &b"--app-id"[..],
            b"firefox_firefox",
            b"--title",
            b"Firefox",
            b"--proxy-socket",
            b"wayland-mitmproxy",
            b"--proxy-runtime-dir",
            b"/tmp/wl-mitmproxy",
            b"--foreground-daemon",
        ]
    );
    assert_eq!(process.socket.display_value, "wayland-mitmproxy");
    assert_eq!(process.socket.listen_path, b"/tmp/wl-mitmproxy/wayland-mitmproxy");
}

#[test]
fn child_command_points_at_the_socket() {
    let socket = resolve_socket_spec(b"/run/user/1000", "wayland-0-proxy");
    let words = cli(&["foot", "--title", "Firefox"]);
    let command = child_command(&words, &socket, b"/run/user/1000", false);
    assert_eq!(command.program, b"foot");
    assert_eq!(command.arguments, [&b"--title"[..], b"Firefox"]);
    assert_eq!(command.wayland_display, "wayland-0-proxy");
    assert_eq!(command.xdg_runtime_dir, None);
}

#[test]
fn child_finds_the_socket_where_the_proxy_listens() {
    for directory in [None, Some(b"/tmp/wl-mitmproxy".to_vec())] {
        for index in [0, 7] {
            let mut words = cli(&["foot"]);
            words.proxy_runtime_dir = directory.clone();
            let launch = run(&words, text("/run/user/1000"), text("wayland-0")).unwrap();
            let plan = plan_child_mode(&words, &launch.host, &launch.proxy_runtime_dir);
            let socket = candidate_socket(&launch.proxy_runtime_dir, &plan.base_name, index);
            let command = child_command(
                &words,
                &socket,
                &launch.proxy_runtime_dir,
                launch.proxy_runtime_dir_overridden,
            );
            let child_directory = command.xdg_runtime_dir.unwrap_or(b"/run/user/1000".to_vec());
            let found = resolve_socket_spec(&child_directory, &command.wayland_display);
            assert_eq!(found.listen_path, socket.listen_path);
        }
    }
}

#[test]
fn given_socket_is_used_exactly() {
    let mut words = cli(&["foot"]);
    words.proxy_socket = text("exact");
    let plan = plan_child_mode(&words, &host(), b"/run");
    assert_eq!(plan.first, ChildStep::Listen);
    assert_eq!(plan.socket.unwrap().listen_path, b"/run/exact");
    let plan = plan_child_mode(&cli(&["foot"]), &host(), b"/run");
    assert_eq!(plan.first, ChildStep::Allocate);
    assert!(plan.socket.is_none());
    assert_eq!(plan.base_name, "wayland-0-proxy");
}

fn follow(mut step: ChildStep, events: &[ChildEvent]) -> ChildStep {
    for event in events {
        step = run_child_mode(step, *event);
    }
    step
}

#[test]
fn run_ends_as_the_child_did() {
    let events = [ChildEvent::Succeeded; 8];
    assert_eq!(follow(ChildStep::Allocate, &events), ChildStep::End(ChildOutcome::Exited));
    assert_eq!(follow(ChildStep::Listen, &events[1..]), ChildStep::End(ChildOutcome::Exited));
    assert_eq!(
        follow(ChildStep::Listen, &events[2..]),
        ChildStep::RemoveSocket(ChildOutcome::Exited)
    );
    assert_eq!(
        run_child_mode(ChildStep::RemoveSocket(ChildOutcome::Exited), ChildEvent::Failed),
        ChildStep::End(ChildOutcome::Exited)
    );
}

#[test]
fn failures_of_a_run() {
    let failed = ChildEvent::Failed;
    assert_eq!(
        run_child_mode(ChildStep::Allocate, failed),
        ChildStep::End(ChildOutcome::AllocationFailed)
    );
    assert_eq!(
        run_child_mode(ChildStep::Listen, failed),
        ChildStep::End(ChildOutcome::ListenFailed)
    );
    assert_eq!(
        run_child_mode(ChildStep::Wait, failed),
        ChildStep::RemoveSocket(ChildOutcome::WaitFailed)
    );
    let stop = run_child_mode(ChildStep::Spawn, failed);
    assert_eq!(stop, ChildStep::StopServer(ChildOutcome::SpawnFailed));
    assert_eq!(
        follow(stop, &[ChildEvent::Succeeded; 3]),
        ChildStep::End(ChildOutcome::SpawnFailed)
    );
}

#[test]
fn server_failures_come_first() {
    assert_eq!(
        join_server_thread(ChildOutcome::SpawnFailed, ChildEvent::Failed),
        ChildStep::RemoveSocket(ChildOutcome::ServerFailed)
    );
    assert_eq!(
        join_server_thread(ChildOutcome::Exited, ChildEvent::Panicked),
        ChildStep::RemoveSocket(ChildOutcome::ServerPanicked)
    );
    assert_eq!(
        join_server_thread(ChildOutcome::Exited, ChildEvent::Succeeded),
        ChildStep::RemoveSocket(ChildOutcome::Exited)
    );
}

#[test]
fn daemon_removes_its_socket() {
    assert_eq!(run_daemon_mode(DaemonStep::Listen, true), DaemonStep::Serve);
    assert_eq!(
        run_daemon_mode(DaemonStep::Listen, false),
        DaemonStep::End(DaemonOutcome::ListenFailed)
    );
    assert_eq!(
        run_daemon_mode(DaemonStep::Serve, true),
        DaemonStep::RemoveSocket(DaemonOutcome::Stopped)
    );
    let failed = run_daemon_mode(DaemonStep::Serve, false);
    assert_eq!(failed, DaemonStep::RemoveSocket(DaemonOutcome::ServeFailed));
    assert_eq!(run_daemon_mode(failed, false), DaemonStep::End(DaemonOutcome::ServeFailed));
}

#[test]
fn daemon_serves_the_announced_socket() {
    let mut words = cli(&[]);
    words.proxy_runtime_dir = Some(b"/tmp/wl-mitmproxy".to_vec());
    let launch = run(&words, text("/run/user/1000"), text("wayland-3")).unwrap();
    assert_eq!(launch.mode, Mode::SpawnDaemon);
    let announced = spawn_daemon_process(&words, &launch.host, &launch.proxy_runtime_dir).socket;
    words.foreground_daemon = true;
    let daemon = run(&words, text("/run/user/1000"), text("wayland-3")).unwrap();
    assert_eq!(daemon.mode, Mode::Daemon);
    let served =
        resolve_fixed_socket(&daemon.proxy_runtime_dir, &daemon.host.display, &words.proxy_socket);
    assert_eq!(served.display_value, "wayland-3-proxy");
    assert_eq!(served.display_value, announced.display_value);
    assert_eq!(served.listen_path, announced.listen_path);
}

#[test]
fn daemon_stops_on_a_signal() {
    let mut signals = ShutdownSignal::new();
    let look = |signals: &ShutdownSignal| {
        serve(true, ServeStep::CheckShutdown, ServeEvent::ShutdownRequested(signals.requested))
    };
    assert_eq!(look(&signals), ServeStep::Accept);
    signals.record(15);
    assert_eq!(look(&signals), ServeStep::Stopped);
}

#[test]
fn panicked_server_is_reported() {
    let error = child_error(ChildOutcome::ServerPanicked).unwrap();
    assert_eq!(error.kind(), ErrorKind::Other);
    assert_eq!(error.message(), "proxy server thread panicked");
    assert!(child_error(ChildOutcome::ServerFailed).is_none());
    assert!(child_error(ChildOutcome::Exited).is_none());
}
