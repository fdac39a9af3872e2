//! What the proxy is started to do, and the course of each of its modes.
use crate::config::{read_host_environment, Cli, HostEnvironment};
use crate::error::{ErrorKind, ProxyError};
use crate::notice::{daemon_started, Notice};
use crate::rewrite::RewriteConfig;
use crate::socket::{
    default_proxy_socket_name, resolve_fixed_socket, resolve_socket_spec, ResolvedSocket,
};
use vstd::prelude::*;
use vstd::slice::slice_to_vec;
use vstd::string::*;
use vstd::utf8::*;

verus! {

/// What the proxy is started to do.
#[derive(Debug, Clone, Copy, PartialEq, Eq, Structural)]
pub enum Mode {
    /// Start a detached daemon and exit.
    SpawnDaemon,
    /// Be the daemon.
    Daemon,
    /// Run a command through the proxy.
    Child,
}

/// The mode that the command line asks for: without a command the proxy is a daemon, and a
/// daemon detaches unless it is told that it already is detached.
pub open spec fn mode_of(cli: crate::config::CliView) -> Mode {
    if cli.command.len() > 0 {
        Mode::Child
    } else if cli.foreground_daemon {
        Mode::Daemon
    } else {
        Mode::SpawnDaemon
    }
}

/// The directory that relative socket names are taken in: the one that the command line gives,
/// or the host's.
pub open spec fn runtime_dir_of(
    cli: crate::config::CliView,
    host: crate::config::HostView,
) -> Seq<u8> {
    match cli.proxy_runtime_dir {
        Some(directory) => directory,
        None => host.runtime_dir,
    }
}

/// Everything that is settled before the proxy gets to work.
#[derive(Debug)]
pub struct Launch {
    pub host: HostEnvironment,
    pub rewrite: RewriteConfig,
    pub proxy_runtime_dir: Vec<u8>,
    pub proxy_runtime_dir_overridden: bool,
    pub mode: Mode,
}

/// What the proxy is started to do, from the command line and the values of `XDG_RUNTIME_DIR`
/// and `WAYLAND_DISPLAY`. The variables are looked at first, in this order, then the rewrite
/// options.
pub fn run(cli: &Cli, runtime_dir: Option<String>, display: Option<String>) -> (result: Result<
    Launch,
    ProxyError,
>)
    ensures
        match result {
            Ok(launch) => {
                &&& runtime_dir matches Some(directory) && launch.host.runtime_dir@
                    == encode_utf8(directory@)
                &&& display matches Some(name) && launch.host.display@ == name@
                &&& cli@.app_id is Some || cli@.title is Some
                &&& launch.rewrite@.app_id == cli@.app_id
                &&& launch.rewrite@.title == cli@.title
                &&& launch.proxy_runtime_dir@ == runtime_dir_of(cli@, launch.host@)
                &&& launch.proxy_runtime_dir_overridden == cli@.proxy_runtime_dir is Some
                &&& launch.mode == mode_of(cli@)
            },
            Err(ProxyError::MissingVariable(name)) => if runtime_dir is None {
                name@ == "XDG_RUNTIME_DIR"@
            } else {
                display is None && name@ == "WAYLAND_DISPLAY"@
            },
            Err(ProxyError::NoRewriteOption) => {
                &&& runtime_dir is Some
                &&& display is Some
                &&& cli@.app_id is None
                &&& cli@.title is None
            },
            Err(_) => false,
        },
        result is Ok <==> runtime_dir is Some && display is Some && (cli.app_id is Some
            || cli.title is Some),
        result matches Ok(launch) ==> {
            &&& launch.mode is Child <==> cli.command@.len() >= 1
            &&& launch.mode is Daemon <==> cli.command@.len() == 0 && cli.foreground_daemon
            &&& launch.mode is SpawnDaemon <==> cli.command@.len() == 0 && !cli.foreground_daemon
            &&& launch.proxy_runtime_dir_overridden <==> cli.proxy_runtime_dir is Some
            &&& cli.proxy_runtime_dir is Some ==> launch.proxy_runtime_dir@
                == cli.proxy_runtime_dir->0@
            &&& cli.proxy_runtime_dir is None ==> launch.proxy_runtime_dir@
                == launch.host.runtime_dir@
            &&& launch.rewrite.app_id is Some <==> cli.app_id is Some
            &&& cli.app_id is Some ==> launch.rewrite.app_id->0@ == cli.app_id->0@
            &&& launch.rewrite.title is Some <==> cli.title is Some
            &&& cli.title is Some ==> launch.rewrite.title->0@ == cli.title->0@
        },
{
    let host = match read_host_environment(runtime_dir, display) {
        Ok(host) => host,
        Err(error) => return Err(error),
    };
    let rewrite = match RewriteConfig::from_cli(cli) {
        Ok(rewrite) => rewrite,
        Err(error) => return Err(error),
    };
    let proxy_runtime_dir = match &cli.proxy_runtime_dir {
        Some(directory) => slice_to_vec(directory.as_slice()),
        None => slice_to_vec(host.runtime_dir.as_slice()),
    };
    let proxy_runtime_dir_overridden = cli.proxy_runtime_dir.is_some();
    let mode = if cli.command.len() > 0 {
        Mode::Child
    } else if cli.foreground_daemon {
        Mode::Daemon
    } else {
        Mode::SpawnDaemon
    };
    Ok(Launch { host, rewrite, proxy_runtime_dir, proxy_runtime_dir_overridden, mode })
}

/// An option on a command line: its name and its value, where it has one.
pub open spec fn option_words(name: Seq<char>, value: Option<Seq<u8>>) -> Seq<Seq<u8>> {
    match value {
        Some(bytes) => seq![encode_utf8(name), bytes],
        None => Seq::empty(),
    }
}

/// The bytes of optional text.
pub open spec fn encoded(text: Option<Seq<char>>) -> Option<Seq<u8>> {
    match text {
        Some(text) => Some(encode_utf8(text)),
        None => None,
    }
}

/// The arguments that the daemon is started with: the options that were given, and the one that
/// tells it that it is detached.
pub open spec fn daemon_arguments(cli: crate::config::CliView) -> Seq<Seq<u8>> {
    option_words("--app-id"@, encoded(cli.app_id)) + (option_words("--title"@, encoded(cli.title))
        + (option_words("--proxy-socket"@, encoded(cli.proxy_socket)) + (option_words(
        "--proxy-runtime-dir"@,
        cli.proxy_runtime_dir,
    ) + seq![encode_utf8("--foreground-daemon"@)])))
}

/// How the daemon is started, the socket that it will serve, and what is said of it.
#[derive(Debug)]
pub struct DaemonProcess {
    pub arguments: Vec<Vec<u8>>,
    pub socket: ResolvedSocket,
    /// What is said once the daemon is started.
    pub announcement: Notice,
}

fn push_option(words: &mut Vec<Vec<u8>>, name: &str, value: Option<&[u8]>)
    ensures
        crate::config::words_of(final(words)@) == crate::config::words_of(old(words)@)
            + option_words(
            name@,
            match value {
                Some(bytes) => Some(bytes@),
                None => None,
            },
        ),
{
    match value {
        Some(bytes) => {
            words.push(slice_to_vec(name.as_bytes()));
            words.push(slice_to_vec(bytes));
            assert(crate::config::words_of(words@) =~= crate::config::words_of(old(words)@)
                + seq![encode_utf8(name@), bytes@]);
        },
        None => {
            assert(crate::config::words_of(words@) =~= crate::config::words_of(old(words)@)
                + Seq::<Seq<u8>>::empty());
        },
    }
}

fn text_bytes(text: &Option<String>) -> (bytes: Option<&[u8]>)
    ensures
        match bytes {
            Some(bytes) => encoded(crate::config::text_of(*text)) == Some(bytes@),
            None => *text is None,
        },
{
    match text {
        Some(text) => Some(text.as_str().as_bytes()),
        None => None,
    }
}

/// How the daemon is started, the socket that it will serve, and what is said of it.
pub fn spawn_daemon_process(
    cli: &Cli,
    host: &HostEnvironment,
    proxy_runtime_dir: &[u8],
) -> (process: DaemonProcess)
    ensures
        crate::config::words_of(process.arguments@) == daemon_arguments(cli@),
        process.socket@ == crate::socket::fixed_socket(
            proxy_runtime_dir@,
            host.display@,
            cli@.proxy_socket,
        ),
        process.arguments@.len() > 0,
        process.arguments@.last()@ == encode_utf8("--foreground-daemon"@),
        ({
            let title = if cli.app_id is Some {
                2int
            } else {
                0
            };
            let socket = title + if cli.title is Some {
                2int
            } else {
                0
            };
            let directory = socket + if cli.proxy_socket is Some {
                2int
            } else {
                0
            };
            let end = directory + if cli.proxy_runtime_dir is Some {
                2int
            } else {
                0
            };
            let words = process.arguments@;
            &&& words.len() == end + 1
            &&& cli.app_id is Some ==> words[0]@ == encode_utf8("--app-id"@) && words[1]@
                == encode_utf8(cli.app_id->0@)
            &&& cli.title is Some ==> words[title]@ == encode_utf8("--title"@) && words[title + 1]@
                == encode_utf8(cli.title->0@)
            &&& cli.proxy_socket is Some ==> words[socket]@ == encode_utf8("--proxy-socket"@)
                && words[socket + 1]@ == encode_utf8(cli.proxy_socket->0@)
            &&& cli.proxy_runtime_dir is Some ==> words[directory]@ == encode_utf8(
                "--proxy-runtime-dir"@,
            ) && words[directory + 1]@ == cli.proxy_runtime_dir->0@
        }),
        cli.proxy_socket matches Some(spec) ==> process.socket.display_value@ == spec@,
        process.announcement.severity is Status,
        process.announcement.text@ == "wl-mitmproxy daemon started on "@
            + crate::notice::socket_text(process.socket@),
        process.announcement.text@ == "wl-mitmproxy daemon started on "@ + (
        process.socket.display_value@ + " ("@ + crate::text::shown(process.socket.listen_path@)
            + ")"@),
{
    let socket = resolve_fixed_socket(proxy_runtime_dir, host.display.as_str(), &cli.proxy_socket);
    let mut arguments: Vec<Vec<u8>> = Vec::new();
    push_option(&mut arguments, "--app-id", text_bytes(&cli.app_id));
    push_option(&mut arguments, "--title", text_bytes(&cli.title));
    push_option(&mut arguments, "--proxy-socket", text_bytes(&cli.proxy_socket));
    let directory = match &cli.proxy_runtime_dir {
        Some(directory) => Some(directory.as_slice()),
        None => None,
    };
    push_option(&mut arguments, "--proxy-runtime-dir", directory);
    let ghost before = crate::config::words_of(arguments@);
    arguments.push(slice_to_vec("--foreground-daemon".as_bytes()));
    assert(crate::config::words_of(arguments@) =~= before.push(
        encode_utf8("--foreground-daemon"@),
    ));
    assert(crate::config::words_of(arguments@) =~= daemon_arguments(cli@));
    proof {
        let words = daemon_arguments(cli@);
        assert(words.len() == arguments@.len());
        assert(forall|i: int| 0 <= i < words.len() ==> #[trigger] arguments@[i]@ == words[i]);
    }
    let announcement = daemon_started(&socket);
    DaemonProcess { arguments, socket, announcement }
}

proof fn lemma_option_words(
    name: Seq<char>,
    left: Option<Seq<u8>>,
    right: Option<Seq<u8>>,
    left_rest: Seq<Seq<u8>>,
    right_rest: Seq<Seq<u8>>,
)
    requires
        left_rest.len() > 0,
        right_rest.len() > 0,
        left_rest[0] != encode_utf8(name),
        right_rest[0] != encode_utf8(name),
        option_words(name, left) + left_rest == option_words(name, right) + right_rest,
    ensures
        left == right,
        left_rest == right_rest,
{
    let a = option_words(name, left) + left_rest;
    let b = option_words(name, right) + right_rest;
    assert(a[0] == b[0]);
    if left is Some {
        assert(a[0] == encode_utf8(name));
        assert(right is Some);
        assert(a[1] == b[1]);
        assert(a.skip(2) =~= left_rest);
        assert(b.skip(2) =~= right_rest);
    } else {
        assert(a =~= left_rest);
        assert(right is None);
        assert(b =~= right_rest);
    }
}

proof fn lemma_encoded_is_injective(left: Option<Seq<char>>, right: Option<Seq<char>>)
    requires
        encoded(left) == encoded(right),
    ensures
        left == right,
{
    if left is Some && right is Some {
        encode_utf8_decode_utf8(left->0);
        encode_utf8_decode_utf8(right->0);
    }
}

/// The arguments of the daemon carry every option that it is to have: two command lines that
/// start it with the same arguments give it the same options.
pub proof fn daemon_arguments_carry_every_option(
    left: crate::config::CliView,
    right: crate::config::CliView,
)
    requires
        daemon_arguments(left) == daemon_arguments(right),
    ensures
        left.app_id == right.app_id,
        left.title == right.title,
        left.proxy_socket == right.proxy_socket,
        left.proxy_runtime_dir == right.proxy_runtime_dir,
{
    reveal_strlit("--app-id");
    reveal_strlit("--title");
    reveal_strlit("--proxy-socket");
    reveal_strlit("--proxy-runtime-dir");
    reveal_strlit("--foreground-daemon");
    encode_utf8_decode_utf8("--app-id"@);
    encode_utf8_decode_utf8("--title"@);
    encode_utf8_decode_utf8("--proxy-socket"@);
    encode_utf8_decode_utf8("--proxy-runtime-dir"@);
    encode_utf8_decode_utf8("--foreground-daemon"@);
    assert("--proxy-runtime-dir"@[2] != "--foreground-daemon"@[2]);
    let end = seq![encode_utf8("--foreground-daemon"@)];
    let l3 = option_words("--proxy-runtime-dir"@, left.proxy_runtime_dir) + end;
    let r3 = option_words("--proxy-runtime-dir"@, right.proxy_runtime_dir) + end;
    let l2 = option_words("--proxy-socket"@, encoded(left.proxy_socket)) + l3;
    let r2 = option_words("--proxy-socket"@, encoded(right.proxy_socket)) + r3;
    let l1 = option_words("--title"@, encoded(left.title)) + l2;
    let r1 = option_words("--title"@, encoded(right.title)) + r2;
    lemma_option_words("--app-id"@, encoded(left.app_id), encoded(right.app_id), l1, r1);
    lemma_option_words("--title"@, encoded(left.title), encoded(right.title), l2, r2);
    lemma_option_words(
        "--proxy-socket"@,
        encoded(left.proxy_socket),
        encoded(right.proxy_socket),
        l3,
        r3,
    );
    lemma_option_words(
        "--proxy-runtime-dir"@,
        left.proxy_runtime_dir,
        right.proxy_runtime_dir,
        end,
        end,
    );
    lemma_encoded_is_injective(left.app_id, right.app_id);
    lemma_encoded_is_injective(left.title, right.title);
    lemma_encoded_is_injective(left.proxy_socket, right.proxy_socket);
}

/// The daemon that is started with the options that were given, and told that it is detached,
/// does not start another one, and serves the socket that was announced for it.
pub proof fn daemon_serves_the_announced_socket(
    cli: crate::config::CliView,
    daemon: crate::config::CliView,
    host: crate::config::HostView,
)
    requires
        mode_of(cli) is SpawnDaemon,
        daemon_arguments(daemon) == daemon_arguments(cli),
        daemon.foreground_daemon,
        daemon.command.len() == 0,
    ensures
        mode_of(daemon) is Daemon,
        crate::socket::fixed_socket(
            runtime_dir_of(daemon, host),
            host.display,
            daemon.proxy_socket,
        ) == crate::socket::fixed_socket(
            runtime_dir_of(cli, host),
            host.display,
            cli.proxy_socket,
        ),
{
    daemon_arguments_carry_every_option(daemon, cli);
}

/// A command to run, and what is set in its environment.
#[derive(Debug)]
pub struct ChildCommand {
    pub program: Vec<u8>,
    pub arguments: Vec<Vec<u8>>,
    /// The value of `WAYLAND_DISPLAY`.
    pub wayland_display: String,
    /// The value of `XDG_RUNTIME_DIR`, where it is to differ from the proxy's own.
    pub xdg_runtime_dir: Option<Vec<u8>>,
}

/// The runtime directory that is set for the child: the proxy's, where that is not the host's
/// own.
pub open spec fn runtime_dir_for_child(directory: Seq<u8>, overridden: bool) -> Option<Seq<u8>> {
    if overridden {
        Some(directory)
    } else {
        None
    }
}

/// The command to run through a proxy socket.
pub fn child_command(
    cli: &Cli,
    socket: &ResolvedSocket,
    proxy_runtime_dir: &[u8],
    proxy_runtime_dir_overridden: bool,
) -> (command: ChildCommand)
    requires
        cli@.command.len() > 0,
    ensures
        command.program@ == cli@.command[0],
        crate::config::words_of(command.arguments@) == cli@.command.skip(1),
        command.wayland_display@ == socket@.display_value,
        crate::config::bytes_of(command.xdg_runtime_dir) == runtime_dir_for_child(
            proxy_runtime_dir@,
            proxy_runtime_dir_overridden,
        ),
        command.program@ == cli.command@[0]@,
        command.arguments@.len() == cli.command@.len() - 1,
        forall|i: int|
            0 <= i < command.arguments@.len() ==> #[trigger] command.arguments@[i]@
                == cli.command@[i + 1]@,
        command.wayland_display@ == socket.display_value@,
        command.xdg_runtime_dir is Some <==> proxy_runtime_dir_overridden,
        command.xdg_runtime_dir is Some ==> command.xdg_runtime_dir->0@ == proxy_runtime_dir@,
{
    let program = slice_to_vec(cli.command[0].as_slice());
    let mut arguments: Vec<Vec<u8>> = Vec::new();
    let mut index: usize = 1;
    while index < cli.command.len()
        invariant
            1 <= index <= cli.command@.len(),
            crate::config::words_of(arguments@) == cli@.command.subrange(1, index as int),
        decreases cli.command@.len() - index,
    {
        let ghost before = crate::config::words_of(arguments@);
        arguments.push(slice_to_vec(cli.command[index].as_slice()));
        assert(crate::config::words_of(arguments@) =~= before.push(cli@.command[index as int]));
        assert(cli@.command.subrange(1, index + 1) =~= cli@.command.subrange(
            1,
            index as int,
        ).push(cli@.command[index as int]));
        index = index + 1;
    }
    assert(cli@.command.subrange(1, index as int) =~= cli@.command.skip(1));
    let xdg_runtime_dir = if proxy_runtime_dir_overridden {
        Some(slice_to_vec(proxy_runtime_dir))
    } else {
        None
    };
    assert forall|i: int| 0 <= i < arguments@.len() implies #[trigger] arguments@[i]@
        == cli.command@[i + 1]@ by {
        assert(crate::config::words_of(arguments@)[i] == arguments@[i]@);
        assert(cli@.command.skip(1)[i] == cli@.command[i + 1]);
    }
    assert(arguments@.len() == crate::config::words_of(arguments@).len());
    ChildCommand {
        program,
        arguments,
        wayland_display: socket.display_value.clone(),
        xdg_runtime_dir,
    }
}

/// Whatever name or path the proxy socket has, the child that looks for the display it is given,
/// in the runtime directory that is set for it or else in the one it inherits from the proxy,
/// comes to the path that the proxy listens at.
pub proof fn child_reaches_the_proxy(
    cli: crate::config::CliView,
    host: crate::config::HostView,
    spec: Seq<char>,
)
    ensures
        ({
            let directory = runtime_dir_of(cli, host);
            let socket = crate::socket::socket_named(directory, spec);
            let child_directory = match runtime_dir_for_child(
                directory,
                cli.proxy_runtime_dir is Some,
            ) {
                Some(set) => set,
                None => host.runtime_dir,
            };
            crate::socket::socket_named(child_directory, socket.display_value) == socket
        }),
{
}

/// How a run of a command through the proxy ends.
#[derive(Debug, Clone, Copy, PartialEq, Eq, Structural)]
pub enum ChildOutcome {
    /// No socket could be allocated.
    AllocationFailed,
    /// The socket could not be listened at.
    ListenFailed,
    /// The command could not be started.
    SpawnFailed,
    /// The wait for the child failed.
    WaitFailed,
    /// The server failed.
    ServerFailed,
    /// The server's thread panicked.
    ServerPanicked,
    /// The child exited; the proxy exits as it did.
    Exited,
}

/// The steps of running a command through the proxy.
#[derive(Debug, Clone, Copy, PartialEq, Eq, Structural)]
pub enum ChildStep {
    /// Allocate a socket.
    Allocate,
    /// Listen at the socket.
    Listen,
    /// Start the server in a thread.
    StartServer,
    /// Start the command.
    Spawn,
    /// Wait for the child.
    Wait,
    /// Ask the server to stop.
    StopServer(ChildOutcome),
    /// Wait for the server's thread.
    JoinServer(ChildOutcome),
    /// Remove the socket.
    RemoveSocket(ChildOutcome),
    /// The end.
    End(ChildOutcome),
}

/// What came of a `ChildStep`.
#[derive(Debug, Clone, Copy, PartialEq, Eq, Structural)]
pub enum ChildEvent {
    Succeeded,
    Failed,
    Panicked,
}

/// The first step: a socket has to be allocated unless one is given.
pub open spec fn child_first(socket_given: bool) -> ChildStep {
    if socket_given {
        ChildStep::Listen
    } else {
        ChildStep::Allocate
    }
}

/// What a run of a command starts with.
#[derive(Debug)]
pub struct ChildPlan {
    /// The socket that was given, where one was.
    pub socket: Option<ResolvedSocket>,
    /// The base name of the candidates, where a socket has to be allocated.
    pub base_name: String,
    /// The first step.
    pub first: ChildStep,
}

/// What a run of a command starts with: a socket that was given is used exactly, otherwise one is
/// allocated under a name that is made from the host's display.
pub fn plan_child_mode(
    cli: &Cli,
    host: &HostEnvironment,
    proxy_runtime_dir: &[u8],
) -> (plan: ChildPlan)
    ensures
        match plan.socket {
            Some(socket) => cli@.proxy_socket is Some && socket@ == crate::socket::socket_named(
                proxy_runtime_dir@,
                cli@.proxy_socket->0,
            ),
            None => cli@.proxy_socket is None,
        },
        plan.base_name@ == crate::socket::default_name(host.display@),
        plan.first == child_first(plan.socket is Some),
        plan.socket is Some <==> cli.proxy_socket is Some,
        plan.socket is Some ==> {
            let socket = plan.socket->0;
            let spec = cli.proxy_socket->0@;
            &&& socket.display_value@ == spec
            &&& socket.listen_path@ == if spec.len() > 0 && spec[0] == '/' {
                encode_utf8(spec)
            } else if proxy_runtime_dir@.len() == 0 || proxy_runtime_dir@.last() == 0x2f {
                proxy_runtime_dir@ + encode_utf8(spec)
            } else {
                proxy_runtime_dir@.push(0x2f) + encode_utf8(spec)
            }
        },
        plan.first is Listen <==> cli.proxy_socket is Some,
        plan.first is Allocate <==> cli.proxy_socket is None,
{
    let base_name = default_proxy_socket_name(host.display.as_str());
    match &cli.proxy_socket {
        Some(spec) => ChildPlan {
            socket: Some(resolve_socket_spec(proxy_runtime_dir, spec.as_str())),
            base_name,
            first: ChildStep::Listen,
        },
        None => ChildPlan { socket: None, base_name, first: ChildStep::Allocate },
    }
}

/// Whether an event is an answer to a step.
pub open spec fn child_answers(step: ChildStep, event: ChildEvent) -> bool {
    match step {
        ChildStep::StartServer | ChildStep::StopServer(_) => event is Succeeded,
        ChildStep::JoinServer(_) => true,
        ChildStep::End(_) => false,
        _ => event is Succeeded || event is Failed,
    }
}

/// The step after a step of running a command. An event that is no answer to the step changes
/// nothing. That the socket cannot be removed is no failure.
pub open spec fn child_next(step: ChildStep, event: ChildEvent) -> ChildStep {
    if !child_answers(step, event) {
        step
    } else {
        match (step, event) {
            (ChildStep::Allocate, ChildEvent::Succeeded) => ChildStep::Listen,
            (ChildStep::Allocate, _) => ChildStep::End(ChildOutcome::AllocationFailed),
            (ChildStep::Listen, ChildEvent::Succeeded) => ChildStep::StartServer,
            (ChildStep::Listen, _) => ChildStep::End(ChildOutcome::ListenFailed),
            (ChildStep::StartServer, _) => ChildStep::Spawn,
            (ChildStep::Spawn, ChildEvent::Succeeded) => ChildStep::Wait,
            (ChildStep::Spawn, _) => ChildStep::StopServer(ChildOutcome::SpawnFailed),
            (ChildStep::Wait, ChildEvent::Succeeded) => ChildStep::StopServer(ChildOutcome::Exited),
            (ChildStep::Wait, _) => ChildStep::RemoveSocket(ChildOutcome::WaitFailed),
            (ChildStep::StopServer(outcome), _) => ChildStep::JoinServer(outcome),
            (ChildStep::JoinServer(outcome), ChildEvent::Succeeded) => ChildStep::RemoveSocket(
                outcome,
            ),
            (ChildStep::JoinServer(_), ChildEvent::Failed) => ChildStep::RemoveSocket(
                ChildOutcome::ServerFailed,
            ),
            (ChildStep::JoinServer(_), ChildEvent::Panicked) => ChildStep::RemoveSocket(
                ChildOutcome::ServerPanicked,
            ),
            (ChildStep::RemoveSocket(outcome), _) => ChildStep::End(outcome),
            (ChildStep::End(_), _) => step,
        }
    }
}

/// What is left to do once the server's thread has ended: a failure of the server counts for
/// more than what happened before it.
pub fn join_server_thread(outcome: ChildOutcome, event: ChildEvent) -> (next: ChildStep)
    ensures
        next == child_next(ChildStep::JoinServer(outcome), event),
        event is Succeeded ==> next == ChildStep::RemoveSocket(outcome),
        event is Failed ==> next == ChildStep::RemoveSocket(ChildOutcome::ServerFailed),
        event is Panicked ==> next == ChildStep::RemoveSocket(ChildOutcome::ServerPanicked),
{
    match event {
        ChildEvent::Succeeded => ChildStep::RemoveSocket(outcome),
        ChildEvent::Failed => ChildStep::RemoveSocket(ChildOutcome::ServerFailed),
        ChildEvent::Panicked => ChildStep::RemoveSocket(ChildOutcome::ServerPanicked),
    }
}

/// The error that a run ends with, where the proxy itself finds it: the server's thread panicked.
pub fn child_error(outcome: ChildOutcome) -> (error: Option<ProxyError>)
    ensures
        crate::error::answer(error) == (if outcome is ServerPanicked {
            Some((ErrorKind::Other, "proxy server thread panicked"@))
        } else {
            None
        }),
        error is Some <==> outcome is ServerPanicked,
        error is Some ==> error->0 is ServerPanicked,
{
    match outcome {
        ChildOutcome::ServerPanicked => Some(ProxyError::ServerPanicked),
        _ => None,
    }
}

/// The step after a step of running a command.
pub fn run_child_mode(step: ChildStep, event: ChildEvent) -> (next: ChildStep)
    ensures
        next == child_next(step, event),
{
    match step {
        ChildStep::Allocate => match event {
            ChildEvent::Succeeded => ChildStep::Listen,
            ChildEvent::Failed => ChildStep::End(ChildOutcome::AllocationFailed),
            ChildEvent::Panicked => step,
        },
        ChildStep::Listen => match event {
            ChildEvent::Succeeded => ChildStep::StartServer,
            ChildEvent::Failed => ChildStep::End(ChildOutcome::ListenFailed),
            ChildEvent::Panicked => step,
        },
        ChildStep::StartServer => match event {
            ChildEvent::Succeeded => ChildStep::Spawn,
            _ => step,
        },
        ChildStep::Spawn => match event {
            ChildEvent::Succeeded => ChildStep::Wait,
            ChildEvent::Failed => ChildStep::StopServer(ChildOutcome::SpawnFailed),
            ChildEvent::Panicked => step,
        },
        ChildStep::Wait => match event {
            ChildEvent::Succeeded => ChildStep::StopServer(ChildOutcome::Exited),
            ChildEvent::Failed => ChildStep::RemoveSocket(ChildOutcome::WaitFailed),
            ChildEvent::Panicked => step,
        },
        ChildStep::StopServer(outcome) => match event {
            ChildEvent::Succeeded => ChildStep::JoinServer(outcome),
            _ => step,
        },
        ChildStep::JoinServer(outcome) => join_server_thread(outcome, event),
        ChildStep::RemoveSocket(outcome) => match event {
            ChildEvent::Panicked => step,
            _ => ChildStep::End(outcome),
        },
        ChildStep::End(_) => step,
    }
}

/// The step that a run is at after some events.
pub open spec fn child_after(socket_given: bool, events: Seq<ChildEvent>) -> ChildStep
    decreases events.len(),
{
    if events.len() == 0 {
        child_first(socket_given)
    } else {
        child_next(child_after(socket_given, events.drop_last()), events.last())
    }
}

/// Whether the proxy's socket is there while a step is pending.
pub open spec fn socket_exists(step: ChildStep) -> bool {
    match step {
        ChildStep::Allocate | ChildStep::Listen | ChildStep::End(_) => false,
        _ => true,
    }
}

/// Whether the server runs while a step is pending.
pub open spec fn server_runs(step: ChildStep) -> bool {
    match step {
        ChildStep::Spawn | ChildStep::Wait | ChildStep::StopServer(_) | ChildStep::JoinServer(_) =>
            true,
        _ => false,
    }
}

/// The socket is removed on every way out: from the moment it is listened at, a run leaves the
/// steps at which it exists only by removing it.
pub proof fn socket_is_always_removed(step: ChildStep, event: ChildEvent)
    ensures
        !socket_exists(step) && socket_exists(child_next(step, event)) ==> step is Listen && event
            is Succeeded,
        socket_exists(step) && !socket_exists(child_next(step, event)) ==> step is RemoveSocket,
        step is RemoveSocket && child_answers(step, event) ==> !socket_exists(
            child_next(step, event),
        ),
{
}

/// The server outlives the child, and is waited for before the run ends, unless the wait for the
/// child itself failed.
pub proof fn server_is_joined(step: ChildStep, event: ChildEvent)
    ensures
        server_runs(step) && !server_runs(child_next(step, event)) ==> step is JoinServer || (step
            is Wait && event is Failed),
        step is Wait ==> server_runs(step),
{
}

/// How many answers come before the socket is listened at.
pub open spec fn answers_before_listen(socket_given: bool) -> int {
    if socket_given {
        0
    } else {
        1
    }
}

/// The events that were answers to the step that was pending.
pub open spec fn child_history(socket_given: bool, events: Seq<ChildEvent>) -> Seq<ChildEvent>
    decreases events.len(),
{
    if events.len() == 0 {
        Seq::empty()
    } else if child_answers(child_after(socket_given, events.drop_last()), events.last()) {
        child_history(socket_given, events.drop_last()).push(events.last())
    } else {
        child_history(socket_given, events.drop_last())
    }
}

/// Whether the first `len` answers are all successes.
pub open spec fn all_succeeded(history: Seq<ChildEvent>, len: int) -> bool {
    &&& len <= history.len()
    &&& forall|i: int| 0 <= i < len ==> #[trigger] history[i] is Succeeded
}

/// The steps of a run in which everything succeeds, counted from the one that listens.
pub open spec fn smooth_step(index: int) -> ChildStep {
    if index < 0 {
        ChildStep::Allocate
    } else if index == 0 {
        ChildStep::Listen
    } else if index == 1 {
        ChildStep::StartServer
    } else if index == 2 {
        ChildStep::Spawn
    } else if index == 3 {
        ChildStep::Wait
    } else if index == 4 {
        ChildStep::StopServer(ChildOutcome::Exited)
    } else if index == 5 {
        ChildStep::JoinServer(ChildOutcome::Exited)
    } else if index == 6 {
        ChildStep::RemoveSocket(ChildOutcome::Exited)
    } else {
        ChildStep::End(ChildOutcome::Exited)
    }
}

/// Whether a step belongs to a run that will not end as the child did.
pub open spec fn run_has_failed(step: ChildStep) -> bool {
    match step {
        ChildStep::StopServer(outcome) | ChildStep::JoinServer(outcome) | ChildStep::RemoveSocket(
            outcome,
        ) | ChildStep::End(outcome) => !(outcome is Exited),
        _ => false,
    }
}

/// The proxy exits as the child did exactly where all that comes before the removal of the
/// socket succeeds: the socket, the command, the wait for the child and the server. Otherwise
/// the run ends with a failure.
pub proof fn proxy_exits_as_the_child_did(socket_given: bool, events: Seq<ChildEvent>)
    ensures
        ({
            let listen = answers_before_listen(socket_given);
            let history = child_history(socket_given, events);
            let step = child_after(socket_given, events);
            let n = history.len() as int;
            let needed = if n < listen + 6 {
                n
            } else {
                listen + 6
            };
            &&& all_succeeded(history, needed) ==> step == smooth_step(n - listen)
            &&& !all_succeeded(history, needed) ==> run_has_failed(step)
        }),
    decreases events.len(),
{
    if events.len() > 0 {
        let before = events.drop_last();
        proxy_exits_as_the_child_did(socket_given, before);
        let old_history = child_history(socket_given, before);
        let history = child_history(socket_given, events);
        if child_answers(child_after(socket_given, before), events.last()) {
            let listen = answers_before_listen(socket_given);
            let n = history.len() as int;
            let old_needed = if n - 1 < listen + 6 {
                n - 1
            } else {
                listen + 6
            };
            assert(forall|i: int|
                0 <= i < old_history.len() ==> #[trigger] old_history[i] == history[i]);
            assert(history[n - 1] == events.last());
            if all_succeeded(old_history, old_needed) && old_needed < listen + 6
                && events.last() is Succeeded {
                assert(all_succeeded(history, n));
            }
            if all_succeeded(history, old_needed) {
                assert(all_succeeded(old_history, old_needed)) by {
                    assert(forall|i: int|
                        0 <= i < old_needed ==> #[trigger] old_history[i] == history[i]);
                }
            }
        }
    }
}

/// How a daemon ends.
#[derive(Debug, Clone, Copy, PartialEq, Eq, Structural)]
pub enum DaemonOutcome {
    /// The socket could not be listened at.
    ListenFailed,
    /// The server failed.
    ServeFailed,
    /// The daemon was asked to stop.
    Stopped,
}

/// The steps of a daemon.
#[derive(Debug, Clone, Copy, PartialEq, Eq, Structural)]
pub enum DaemonStep {
    /// Listen at the socket.
    Listen,
    /// Serve clients until a signal comes.
    Serve,
    /// Remove the socket.
    RemoveSocket(DaemonOutcome),
    /// The end.
    End(DaemonOutcome),
}

/// The step after a step of a daemon, given whether the step succeeded. That the socket cannot
/// be removed is no failure.
pub open spec fn daemon_next(step: DaemonStep, succeeded: bool) -> DaemonStep {
    match step {
        DaemonStep::Listen => if succeeded {
            DaemonStep::Serve
        } else {
            DaemonStep::End(DaemonOutcome::ListenFailed)
        },
        DaemonStep::Serve => DaemonStep::RemoveSocket(
            if succeeded {
                DaemonOutcome::Stopped
            } else {
                DaemonOutcome::ServeFailed
            },
        ),
        DaemonStep::RemoveSocket(outcome) => DaemonStep::End(outcome),
        DaemonStep::End(_) => step,
    }
}

/// The step after a step of a daemon. The first step is `Listen`, at the socket that
/// `resolve_fixed_socket` gives.
pub fn run_daemon_mode(step: DaemonStep, succeeded: bool) -> (next: DaemonStep)
    ensures
        next == daemon_next(step, succeeded),
{
    match step {
        DaemonStep::Listen => if succeeded {
            DaemonStep::Serve
        } else {
            DaemonStep::End(DaemonOutcome::ListenFailed)
        },
        DaemonStep::Serve => if succeeded {
            DaemonStep::RemoveSocket(DaemonOutcome::Stopped)
        } else {
            DaemonStep::RemoveSocket(DaemonOutcome::ServeFailed)
        },
        DaemonStep::RemoveSocket(outcome) => DaemonStep::End(outcome),
        DaemonStep::End(_) => step,
    }
}

/// A daemon that got to listen at its socket removes it before it ends.
pub proof fn daemon_socket_is_always_removed(step: DaemonStep, succeeded: bool)
    ensures
        step is Serve ==> daemon_next(step, succeeded) is RemoveSocket,
        daemon_next(step, succeeded) is End && !(step is End) ==> step is RemoveSocket || (step
            is Listen && !succeeded),
{
}

/// When a daemon looks whether it is to stop, it serves on where no signal came yet, and stops
/// where one did.
pub proof fn daemon_serves_until_a_signal_comes(signals: Seq<i32>)
    ensures
        ({
            let requested = crate::child::after_signals(signals).requested;
            let next = crate::serve::serve_next(
                true,
                crate::serve::ServeStep::CheckShutdown,
                crate::serve::ServeEvent::ShutdownRequested(requested),
            );
            &&& signals.len() == 0 ==> next is Accept
            &&& signals.len() > 0 ==> next is Stopped
        }),
{
}

/// A command of any number of words is run, and nothing else is: the proxy is a daemon exactly
/// where there is no word, and detaches exactly where it was not told that it is detached.
pub proof fn commands_of_any_length_are_run(cli: crate::config::CliView)
    ensures
        mode_of(cli) is Child <==> cli.command.len() >= 1,
        mode_of(cli) is Daemon <==> cli.command.len() == 0 && cli.foreground_daemon,
        mode_of(cli) is SpawnDaemon <==> cli.command.len() == 0 && !cli.foreground_daemon,
{
}

/// The runtime directory is the given one, whatever it is, and the host's where none is given.
pub proof fn given_runtime_directories_are_used(
    cli: crate::config::CliView,
    host: crate::config::HostView,
)
    ensures
        cli.proxy_runtime_dir matches Some(directory) ==> runtime_dir_of(cli, host) == directory,
        cli.proxy_runtime_dir is None ==> runtime_dir_of(cli, host) == host.runtime_dir,
{
}

/// A runtime directory is set for the child exactly where it was given, and is that one.
pub proof fn child_directory_is_set_on_override(directory: Seq<u8>)
    ensures
        runtime_dir_for_child(directory, true) == Some(directory),
        runtime_dir_for_child(directory, false) is None,
{
}

/// What long options on a command line say: each option is a word with a value behind it, but for
/// the one that tells a daemon that it is detached, which is a word alone. Other words have no
/// meaning.
pub open spec fn read_arguments(words: Seq<Seq<u8>>) -> Option<crate::config::CliView>
    decreases words.len(),
{
    if words.len() == 0 {
        Some(
            crate::config::CliView {
                app_id: None,
                title: None,
                proxy_socket: None,
                proxy_runtime_dir: None,
                foreground_daemon: false,
                command: Seq::empty(),
            },
        )
    } else if words[0] == encode_utf8("--foreground-daemon"@) {
        match read_arguments(words.skip(1)) {
            Some(rest) => Some(crate::config::CliView { foreground_daemon: true, ..rest }),
            None => None,
        }
    } else if words.len() == 1 {
        None
    } else {
        match read_arguments(words.skip(2)) {
            None => None,
            Some(rest) => if words[0] == encode_utf8("--app-id"@) {
                Some(crate::config::CliView { app_id: Some(decode_utf8(words[1])), ..rest })
            } else if words[0] == encode_utf8("--title"@) {
                Some(crate::config::CliView { title: Some(decode_utf8(words[1])), ..rest })
            } else if words[0] == encode_utf8("--proxy-socket"@) {
                Some(crate::config::CliView { proxy_socket: Some(decode_utf8(words[1])), ..rest })
            } else if words[0] == encode_utf8("--proxy-runtime-dir"@) {
                Some(crate::config::CliView { proxy_runtime_dir: Some(words[1]), ..rest })
            } else {
                None
            },
        }
    }
}

proof fn lemma_option_names_differ()
    ensures
        ({
            let a = encode_utf8("--app-id"@);
            let t = encode_utf8("--title"@);
            let s = encode_utf8("--proxy-socket"@);
            let d = encode_utf8("--proxy-runtime-dir"@);
            let f = encode_utf8("--foreground-daemon"@);
            &&& a != t && a != s && a != d && a != f
            &&& t != s && t != d && t != f
            &&& s != d && s != f
            &&& d != f
        }),
{
    reveal_strlit("--app-id");
    reveal_strlit("--title");
    reveal_strlit("--proxy-socket");
    reveal_strlit("--proxy-runtime-dir");
    reveal_strlit("--foreground-daemon");
    encode_utf8_decode_utf8("--app-id"@);
    encode_utf8_decode_utf8("--title"@);
    encode_utf8_decode_utf8("--proxy-socket"@);
    encode_utf8_decode_utf8("--proxy-runtime-dir"@);
    encode_utf8_decode_utf8("--foreground-daemon"@);
    assert("--proxy-runtime-dir"@[2] != "--foreground-daemon"@[2]);
}

proof fn lemma_skip_option(name: Seq<char>, value: Option<Seq<u8>>, rest: Seq<Seq<u8>>)
    ensures
        value is None ==> option_words(name, value) + rest == rest,
        value matches Some(bytes) ==> {
            let words = option_words(name, value) + rest;
            &&& words.len() == rest.len() + 2
            &&& words[0] == encode_utf8(name)
            &&& words[1] == bytes
            &&& words.skip(2) == rest
        },
{
    let words = option_words(name, value) + rest;
    match value {
        Some(bytes) => {
            assert(words.skip(2) =~= rest);
        },
        None => {
            assert(words =~= rest);
        },
    }
}

/// The daemon reads its arguments back as every option that was given, whatever its value, and as
/// the word that it is detached, which comes last; they name no command. So it is a daemon, and
/// starts no other one. Nothing else is among the arguments.
pub proof fn daemon_reads_its_options_back(cli: crate::config::CliView)
    ensures
        ({
            let words = daemon_arguments(cli);
            let options = if cli.app_id is Some {
                2int
            } else {
                0
            } + if cli.title is Some {
                2int
            } else {
                0
            } + if cli.proxy_socket is Some {
                2int
            } else {
                0
            } + if cli.proxy_runtime_dir is Some {
                2int
            } else {
                0
            };
            &&& words.len() == options + 1
            &&& words.last() == encode_utf8("--foreground-daemon"@)
            &&& read_arguments(words) matches Some(daemon) && {
                &&& daemon.app_id == cli.app_id
                &&& daemon.title == cli.title
                &&& daemon.proxy_socket == cli.proxy_socket
                &&& daemon.proxy_runtime_dir == cli.proxy_runtime_dir
                &&& daemon.foreground_daemon
                &&& daemon.command.len() == 0
                &&& mode_of(daemon) is Daemon
            }
        }),
{
    lemma_option_names_differ();
    let end = seq![encode_utf8("--foreground-daemon"@)];
    let w3 = option_words("--proxy-runtime-dir"@, cli.proxy_runtime_dir) + end;
    let w2 = option_words("--proxy-socket"@, encoded(cli.proxy_socket)) + w3;
    let w1 = option_words("--title"@, encoded(cli.title)) + w2;
    let w0 = option_words("--app-id"@, encoded(cli.app_id)) + w1;
    assert(end.skip(1) =~= Seq::<Seq<u8>>::empty());
    assert(read_arguments(end.skip(1)) is Some);
    assert(read_arguments(end) is Some);
    lemma_skip_option("--proxy-runtime-dir"@, cli.proxy_runtime_dir, end);
    assert(read_arguments(w3) is Some);
    lemma_skip_option("--proxy-socket"@, encoded(cli.proxy_socket), w3);
    if cli.proxy_socket is Some {
        encode_utf8_decode_utf8(cli.proxy_socket->0);
    }
    assert(read_arguments(w2) is Some);
    lemma_skip_option("--title"@, encoded(cli.title), w2);
    if cli.title is Some {
        encode_utf8_decode_utf8(cli.title->0);
    }
    assert(read_arguments(w1) is Some);
    lemma_skip_option("--app-id"@, encoded(cli.app_id), w1);
    if cli.app_id is Some {
        encode_utf8_decode_utf8(cli.app_id->0);
    }
    assert(w0 == daemon_arguments(cli));
    assert(w3.last() == end[0]);
    assert(w2.last() == end[0]);
    assert(w1.last() == end[0]);
    assert(w0.last() == end[0]);
}

/// The course of a run: each step is entered exactly from the step before it, and only where that
/// one came out as it has to; a step that has no answer yet stays.
pub proof fn run_takes_its_course(step: ChildStep, event: ChildEvent, outcome: ChildOutcome)
    ensures
        ({
            let next = child_next(step, event);
            let moved = next != step;
            &&& next is Allocate ==> !moved
            &&& moved && next is Listen <==> step is Allocate && event is Succeeded
            &&& moved && next is StartServer <==> step is Listen && event is Succeeded
            &&& moved && next is Spawn <==> step is StartServer && event is Succeeded
            &&& moved && next is Wait <==> step is Spawn && event is Succeeded
            &&& moved && next == ChildStep::StopServer(outcome) <==> {
                ||| step is Spawn && event is Failed && outcome is SpawnFailed
                ||| step is Wait && event is Succeeded && outcome is Exited
            }
            &&& moved && next == ChildStep::JoinServer(outcome) <==> step
                == ChildStep::StopServer(outcome) && event is Succeeded
            &&& moved && next == ChildStep::RemoveSocket(outcome) <==> {
                ||| step is Wait && event is Failed && outcome is WaitFailed
                ||| step == ChildStep::JoinServer(outcome) && event is Succeeded
                ||| step is JoinServer && event is Failed && outcome is ServerFailed
                ||| step is JoinServer && event is Panicked && outcome is ServerPanicked
            }
            &&& moved && next == ChildStep::End(outcome) <==> {
                ||| step is Allocate && event is Failed && outcome is AllocationFailed
                ||| step is Listen && event is Failed && outcome is ListenFailed
                ||| step == ChildStep::RemoveSocket(outcome) && !(event is Panicked)
            }
        }),
{
}

/// A run allocates a socket exactly where none is given.
pub proof fn sockets_are_allocated_where_none_is_given()
    ensures
        child_first(true) is Listen,
        child_first(false) is Allocate,
{
}

/// The course of a daemon: it serves once it listens, removes its socket once it has served, and
/// ends as stopped exactly where serving ended regularly.
pub proof fn daemon_takes_its_course(step: DaemonStep, succeeded: bool, outcome: DaemonOutcome)
    ensures
        ({
            let next = daemon_next(step, succeeded);
            let moved = next != step;
            &&& next is Listen ==> !moved
            &&& moved && next is Serve <==> step is Listen && succeeded
            &&& moved && next == DaemonStep::RemoveSocket(outcome) <==> step is Serve && (outcome
                is Stopped && succeeded || outcome is ServeFailed && !succeeded)
            &&& moved && next == DaemonStep::End(outcome) <==> {
                ||| step is Listen && !succeeded && outcome is ListenFailed
                ||| step == DaemonStep::RemoveSocket(outcome)
            }
            &&& step is Serve || step is Listen || step is RemoveSocket ==> moved
        }),
{
}

} // verus!
