//! What the command line and the environment ask for.
use crate::error::ProxyError;
use vstd::prelude::*;
use vstd::slice::slice_to_vec;
use vstd::string::*;
use vstd::utf8::*;

verus! {

/// The options of the command line.
///
/// Paths and the words of the command are bytes, which need not be UTF-8.
#[derive(Debug)]
pub struct Cli {
    /// The application ID to announce in place of the client's.
    pub app_id: Option<String>,
    /// The title to announce in place of the client's.
    pub title: Option<String>,
    /// The name or path of the proxy socket.
    pub proxy_socket: Option<String>,
    /// The directory that a relative name of the proxy socket is taken in.
    pub proxy_runtime_dir: Option<Vec<u8>>,
    /// Whether this process is the detached daemon itself.
    pub foreground_daemon: bool,
    /// The command to run through the proxy; empty for a daemon.
    pub command: Vec<Vec<u8>>,
}

/// The text of an option.
pub open spec fn text_of(option: Option<String>) -> Option<Seq<char>> {
    match option {
        Some(text) => Some(text@),
        None => None,
    }
}

/// The bytes of an option.
pub open spec fn bytes_of(option: Option<Vec<u8>>) -> Option<Seq<u8>> {
    match option {
        Some(bytes) => Some(bytes@),
        None => None,
    }
}

/// The bytes of each word.
pub open spec fn words_of(words: Seq<Vec<u8>>) -> Seq<Seq<u8>> {
    words.map_values(|word: Vec<u8>| word@)
}

/// What the options of the command line say.
#[verifier::ext_equal]
pub struct CliView {
    pub app_id: Option<Seq<char>>,
    pub title: Option<Seq<char>>,
    pub proxy_socket: Option<Seq<char>>,
    pub proxy_runtime_dir: Option<Seq<u8>>,
    pub foreground_daemon: bool,
    pub command: Seq<Seq<u8>>,
}

impl View for Cli {
    type V = CliView;

    open spec fn view(&self) -> CliView {
        CliView {
            app_id: text_of(self.app_id),
            title: text_of(self.title),
            proxy_socket: text_of(self.proxy_socket),
            proxy_runtime_dir: bytes_of(self.proxy_runtime_dir),
            foreground_daemon: self.foreground_daemon,
            command: words_of(self.command@),
        }
    }
}

/// The display that the proxy forwards to.
#[derive(Debug)]
pub struct HostEnvironment {
    /// The value of `XDG_RUNTIME_DIR`.
    pub runtime_dir: Vec<u8>,
    /// The value of `WAYLAND_DISPLAY`.
    pub display: String,
}

/// What is known of the display that the proxy forwards to.
#[verifier::ext_equal]
pub struct HostView {
    pub runtime_dir: Seq<u8>,
    pub display: Seq<char>,
}

impl View for HostEnvironment {
    type V = HostView;

    open spec fn view(&self) -> HostView {
        HostView { runtime_dir: self.runtime_dir@, display: self.display@ }
    }
}

/// The value of a variable that has to be set.
pub fn required_env(name: &str, value: Option<String>) -> (result: Result<String, ProxyError>)
    ensures
        match result {
            Ok(text) => value == Some(text),
            Err(ProxyError::MissingVariable(missing)) => value is None && missing@ == name@,
            Err(_) => false,
        },
{
    match value {
        Some(text) => Ok(text),
        None => Err(ProxyError::MissingVariable(name.to_owned())),
    }
}

/// The display that the proxy forwards to, from the values of `XDG_RUNTIME_DIR` and
/// `WAYLAND_DISPLAY`. Where both are missing the first one is reported.
pub fn read_host_environment(runtime_dir: Option<String>, display: Option<String>) -> (result:
    Result<HostEnvironment, ProxyError>)
    ensures
        match result {
            Ok(host) => {
                &&& runtime_dir matches Some(directory) && host.runtime_dir@ == encode_utf8(
                    directory@,
                )
                &&& display matches Some(name) && host.display@ == name@
            },
            Err(ProxyError::MissingVariable(name)) => if runtime_dir is None {
                name@ == "XDG_RUNTIME_DIR"@
            } else {
                display is None && name@ == "WAYLAND_DISPLAY"@
            },
            Err(_) => false,
        },
        result is Ok <==> runtime_dir is Some && display is Some,
{
    let directory = match required_env("XDG_RUNTIME_DIR", runtime_dir) {
        Ok(directory) => directory,
        Err(error) => return Err(error),
    };
    let display = match required_env("WAYLAND_DISPLAY", display) {
        Ok(display) => display,
        Err(error) => return Err(error),
    };
    Ok(HostEnvironment { runtime_dir: slice_to_vec(directory.as_str().as_bytes()), display })
}

/// What the options of the command line say is what they hold: no text, no path and no word of the
/// command is read as anything else.
pub proof fn command_line_views_are_faithful(cli: Cli)
    ensures
        match cli.app_id {
            Some(app_id) => cli@.app_id == Some(app_id@),
            None => cli@.app_id is None,
        },
        match cli.title {
            Some(title) => cli@.title == Some(title@),
            None => cli@.title is None,
        },
        match cli.proxy_socket {
            Some(spec) => cli@.proxy_socket == Some(spec@),
            None => cli@.proxy_socket is None,
        },
        match cli.proxy_runtime_dir {
            Some(directory) => cli@.proxy_runtime_dir == Some(directory@),
            None => cli@.proxy_runtime_dir is None,
        },
        cli@.foreground_daemon == cli.foreground_daemon,
        cli@.command.len() == cli.command@.len(),
        forall|i: int|
            0 <= i < cli.command@.len() ==> #[trigger] cli@.command[i] == cli.command@[i]@,
{
}

/// Optional text, optional bytes and words are what they hold.
pub proof fn option_views_are_faithful(text: String, bytes: Vec<u8>, words: Seq<Vec<u8>>)
    ensures
        text_of(Some(text)) == Some(text@),
        text_of(None) is None,
        bytes_of(Some(bytes)) == Some(bytes@),
        bytes_of(None) is None,
        words_of(words).len() == words.len(),
        forall|i: int| 0 <= i < words.len() ==> #[trigger] words_of(words)[i] == words[i]@,
{
}

/// What is known of the host is what the fields hold.
pub proof fn host_views_are_faithful(host: HostEnvironment)
    ensures
        host@.runtime_dir == host.runtime_dir@,
        host@.display == host.display@,
{
}

} // verus!
