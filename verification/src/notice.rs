//! The lines that the proxy writes to its standard error.
use crate::child::ChildExit;
use crate::launch::{ChildStep, DaemonStep};
use crate::listen::{AllocationStep, ListenerStep};
use crate::socket::ResolvedSocket;
use crate::text::{shown_text, quoted_text, same_text, signed_decimal_text};
use vstd::prelude::*;
use vstd::string::*;

verus! {

/// How much a line matters.
#[derive(Debug, Clone, Copy, PartialEq, Eq, Structural)]
pub enum Severity {
    /// Something went wrong.
    Error,
    /// The proxy does what it is meant to do.
    Status,
}

/// A line for the standard error.
#[derive(Debug)]
pub struct Notice {
    pub severity: Severity,
    pub text: String,
}

/// Whether a value of `RUST_LOG` asks for status lines: `info`, or a level that shows more.
pub open spec fn asks_for_status(rust_log: Option<Seq<char>>) -> bool {
    match rust_log {
        Some(level) => level == "info"@ || level == "debug"@ || level == "trace"@,
        None => false,
    }
}

impl Notice {
    /// Whether the line is written, given the value of `RUST_LOG`: an error always is, and a
    /// status line where the value asks for it.
    pub fn is_emitted(&self, rust_log: Option<&str>) -> (emitted: bool)
        ensures
            emitted == (self.severity is Error || asks_for_status(
                match rust_log {
                    Some(level) => Some(level@),
                    None => None,
                },
            )),
            emitted <==> self.severity is Error || (rust_log is Some && (rust_log->0@ == "info"@
                || rust_log->0@ == "debug"@ || rust_log->0@ == "trace"@)),
    {
        match self.severity {
            Severity::Error => true,
            Severity::Status => match rust_log {
                Some(level) => same_text(level, "info") || same_text(level, "debug") || same_text(
                    level,
                    "trace",
                ),
                None => false,
            },
        }
    }
}

/// A socket as lines show it: the value of `WAYLAND_DISPLAY`, and the path in brackets.
pub open spec fn socket_text(socket: crate::socket::SocketView) -> Seq<char> {
    socket.display_value + " ("@ + crate::text::shown(socket.listen_path) + ")"@
}

/// A status line that ends with a socket.
fn socket_notice(start: &str, socket: &ResolvedSocket) -> (notice: Notice)
    ensures
        notice.severity is Status,
        notice.text@ == start@ + socket_text(socket@),
        notice.text@ == start@ + (socket.display_value@ + " ("@
            + crate::text::shown(socket.listen_path@) + ")"@),
{
    let mut text = start.to_owned();
    text.append(socket.display_value.as_str());
    text.append(" (");
    text.append(shown_text(socket.listen_path.as_slice()).as_str());
    text.append(")");
    assert(text@ =~= start@ + socket_text(socket@));
    Notice { severity: Severity::Status, text }
}

/// The daemon was started.
pub fn daemon_started(socket: &ResolvedSocket) -> (notice: Notice)
    ensures
        notice.severity is Status,
        notice.text@ == "wl-mitmproxy daemon started on "@ + socket_text(socket@),
        notice.text@ == "wl-mitmproxy daemon started on "@ + (socket.display_value@ + " ("@
            + crate::text::shown(socket.listen_path@) + ")"@),
{
    socket_notice("wl-mitmproxy daemon started on ", socket)
}

/// The daemon listens.
pub fn listening(socket: &ResolvedSocket) -> (notice: Notice)
    ensures
        notice.severity is Status,
        notice.text@ == "wl-mitmproxy listening on "@ + socket_text(socket@),
        notice.text@ == "wl-mitmproxy listening on "@ + (socket.display_value@ + " ("@
            + crate::text::shown(socket.listen_path@) + ")"@),
{
    socket_notice("wl-mitmproxy listening on ", socket)
}

/// The command is about to be started.
pub fn launching_child(socket: &ResolvedSocket) -> (notice: Notice)
    ensures
        notice.severity is Status,
        notice.text@ == "wl-mitmproxy launching child with WAYLAND_DISPLAY="@ + socket_text(
            socket@,
        ),
        notice.text@ == "wl-mitmproxy launching child with WAYLAND_DISPLAY="@ + (socket.display_value@ + " ("@
            + crate::text::shown(socket.listen_path@) + ")"@),
{
    socket_notice("wl-mitmproxy launching child with WAYLAND_DISPLAY=", socket)
}

/// A stale socket is about to be removed.
pub fn reusing_stale_socket(path: &[u8]) -> (notice: Notice)
    ensures
        notice.severity is Status,
        notice.text@ == "reusing stale socket "@ + crate::text::shown(path@),
{
    let mut text = "reusing stale socket ".to_owned();
    text.append(shown_text(path).as_str());
    Notice { severity: Severity::Status, text }
}

/// The proxy ends with an error.
pub fn fatal(error: &str) -> (notice: Notice)
    ensures
        notice.severity is Error,
        notice.text@ == "wl-mitmproxy: "@ + error@,
{
    let mut text = "wl-mitmproxy: ".to_owned();
    text.append(error);
    Notice { severity: Severity::Error, text }
}

/// The session of a client failed.
pub fn session_failed(error: &str) -> (notice: Notice)
    ensures
        notice.severity is Error,
        notice.text@ == "wl-mitmproxy session failed: "@ + error@,
{
    let mut text = "wl-mitmproxy session failed: ".to_owned();
    text.append(error);
    Notice { severity: Severity::Error, text }
}

/// A value could not be forwarded, given the request and the value in quotes.
pub fn value_not_forwarded(request: &str, quoted_value: &str, error: &str) -> (notice: Notice)
    ensures
        notice.severity is Error,
        notice.text@ == "wl-mitmproxy: failed to forward "@ + request@ + " "@ + quoted_value@
            + ": "@ + error@,
{
    let mut text = "wl-mitmproxy: failed to forward ".to_owned();
    text.append(request);
    text.append(" ");
    text.append(quoted_value);
    text.append(": ");
    text.append(error);
    Notice { severity: Severity::Error, text }
}

/// An application ID could not be forwarded.
pub fn app_id_not_forwarded(app_id: &str, error: &str) -> (notice: Notice)
    ensures
        notice.severity is Error,
        notice.text@ == "wl-mitmproxy: failed to forward "@ + "xdg_toplevel.set_app_id"@ + " "@
            + crate::text::quoted(app_id@) + ": "@ + error@,
{
    value_not_forwarded("xdg_toplevel.set_app_id", quoted_text(app_id).as_str(), error)
}

/// A title could not be forwarded.
pub fn title_not_forwarded(title: &str, error: &str) -> (notice: Notice)
    ensures
        notice.severity is Error,
        notice.text@ == "wl-mitmproxy: failed to forward "@ + "xdg_toplevel.set_title"@ + " "@
            + crate::text::quoted(title@) + ": "@ + error@,
{
    value_not_forwarded("xdg_toplevel.set_title", quoted_text(title).as_str(), error)
}

/// A signal terminated the child.
pub fn child_signalled(signal: i32) -> (notice: Notice)
    ensures
        notice.severity is Error,
        notice.text@ == "child terminated by signal "@ + crate::text::signed_decimal(signal as int),
{
    let mut text = "child terminated by signal ".to_owned();
    text.append(signed_decimal_text(signal).as_str());
    Notice { severity: Severity::Error, text }
}

/// The severity and the text of a line, where there is one.
pub open spec fn said(notice: Option<Notice>) -> Option<(Severity, Seq<char>)> {
    match notice {
        Some(notice) => Some((notice.severity, notice.text@)),
        None => None,
    }
}

/// What is said before a step of preparing a listener at a path: a stale socket is announced
/// before it is removed.
pub fn listener_notice(step: ListenerStep, path: &[u8]) -> (notice: Option<Notice>)
    ensures
        said(notice) == (if step is Reclaim {
            Some((Severity::Status, "reusing stale socket "@ + crate::text::shown(path@)))
        } else {
            None
        }),
        notice is Some <==> step is Reclaim,
        notice matches Some(notice) ==> notice.severity is Status && notice.text@
            == "reusing stale socket "@ + crate::text::shown(path@),
{
    match step {
        ListenerStep::Reclaim => Some(reusing_stale_socket(path)),
        _ => None,
    }
}

/// What is said before a step of allocating a socket, given the path of the candidate: a stale
/// socket is announced before it is removed.
pub fn allocation_notice(step: AllocationStep, path: &[u8]) -> (notice: Option<Notice>)
    ensures
        said(notice) == (if step is Reclaim {
            Some((Severity::Status, "reusing stale socket "@ + crate::text::shown(path@)))
        } else {
            None
        }),
        notice is Some <==> step is Reclaim,
        notice matches Some(notice) ==> notice.severity is Status && notice.text@
            == "reusing stale socket "@ + crate::text::shown(path@),
{
    match step {
        AllocationStep::Reclaim(_) => Some(reusing_stale_socket(path)),
        _ => None,
    }
}

/// What is said before a step of a daemon: the socket is announced before clients are served.
pub fn daemon_notice(step: DaemonStep, socket: &ResolvedSocket) -> (notice: Option<Notice>)
    ensures
        said(notice) == (if step is Serve {
            Some((Severity::Status, "wl-mitmproxy listening on "@ + socket_text(socket@)))
        } else {
            None
        }),
        notice is Some <==> step is Serve,
        notice matches Some(notice) ==> notice.severity is Status && notice.text@
            == "wl-mitmproxy listening on "@ + (socket.display_value@ + " ("@
            + crate::text::shown(socket.listen_path@) + ")"@),
{
    match step {
        DaemonStep::Serve => Some(listening(socket)),
        _ => None,
    }
}

/// What is said before a step of running a command: the socket is announced before the command is
/// started.
pub fn child_notice(step: ChildStep, socket: &ResolvedSocket) -> (notice: Option<Notice>)
    ensures
        said(notice) == (if step is Spawn {
            Some(
                (
                    Severity::Status,
                    "wl-mitmproxy launching child with WAYLAND_DISPLAY="@ + socket_text(socket@),
                ),
            )
        } else {
            None
        }),
        notice is Some <==> step is Spawn,
        notice matches Some(notice) ==> notice.severity is Status && notice.text@
            == "wl-mitmproxy launching child with WAYLAND_DISPLAY="@ + (socket.display_value@ + " ("@
            + crate::text::shown(socket.listen_path@) + ")"@),
{
    match step {
        ChildStep::Spawn => Some(launching_child(socket)),
        _ => None,
    }
}

/// What is said of how a child ended: only a signal that terminated it is reported.
pub fn exit_notice(exit: ChildExit) -> (notice: Option<Notice>)
    ensures
        said(notice) == (match exit {
            ChildExit::Signalled(signal) => Some(
                (
                    Severity::Error,
                    "child terminated by signal "@ + crate::text::signed_decimal(signal as int),
                ),
            ),
            _ => None,
        }),
        notice is Some <==> exit is Signalled,
        notice matches Some(notice) ==> notice.severity is Error && notice.text@
            == "child terminated by signal "@ + crate::text::signed_decimal(
            exit->Signalled_0 as int,
        ),
{
    match exit {
        ChildExit::Signalled(signal) => Some(child_signalled(signal)),
        _ => None,
    }
}

/// Status lines are asked for by exactly three levels, and not where the variable is not set.
pub proof fn three_levels_ask_for_status(level: Seq<char>)
    ensures
        !asks_for_status(None),
        asks_for_status(Some("info"@)),
        asks_for_status(Some("debug"@)),
        asks_for_status(Some("trace"@)),
        asks_for_status(Some(level)) ==> level == "info"@ || level == "debug"@ || level
            == "trace"@,
{
}

/// A socket whose path is text is shown as its display value with the path in brackets behind it.
pub proof fn sockets_are_shown_with_their_path(display_value: Seq<char>, path: Seq<char>)
    ensures
        socket_text(
            (crate::socket::SocketView {
                display_value,
                listen_path: vstd::utf8::encode_utf8(path),
            }),
        ) == display_value + seq![' ', '('] + path + seq![')'],
{
    reveal_strlit(" (");
    reveal_strlit(")");
    crate::text::text_is_shown_as_it_is(path);
    assert(" ("@ =~= seq![' ', '(']);
    assert(")"@ =~= seq![')']);
}

} // verus!
