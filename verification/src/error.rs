//! The errors that the proxy itself finds, as opposed to those that the system reports.
use crate::text::shown_text;
use vstd::prelude::*;
use vstd::string::*;

verus! {

/// The class that an error is reported under.
#[derive(Debug, Clone, Copy, PartialEq, Eq, Structural)]
pub enum ErrorKind {
    InvalidInput,
    AlreadyExists,
    AddrInUse,
    Other,
}

/// An error that the proxy itself finds.
#[derive(Debug)]
pub enum ProxyError {
    /// Neither an application ID nor a title is to be rewritten.
    NoRewriteOption,
    /// An environment variable that the proxy needs is not set.
    MissingVariable(String),
    /// Something other than a socket is at the path of the proxy socket.
    NotASocket(Vec<u8>),
    /// Another process serves the proxy socket.
    SocketActive(Vec<u8>),
    /// Every candidate for the proxy socket in a directory is served by another process.
    NoFreeSocket(Vec<u8>),
    /// The thread that serves clients panicked.
    ServerPanicked,
}

impl ProxyError {
    /// The text that describes the error.
    pub open spec fn text(self) -> Seq<char> {
        match self {
            ProxyError::NoRewriteOption =>
                "at least one rewrite option must be supplied: --app-id and/or --title"@,
            ProxyError::MissingVariable(name) =>
                "required environment variable "@ + name@ + " is not set"@,
            ProxyError::NotASocket(path) =>
                "path exists and is not a socket: "@ + crate::text::shown(path@),
            ProxyError::SocketActive(path) =>
                "socket already exists and is active: "@ + crate::text::shown(path@),
            ProxyError::NoFreeSocket(directory) =>
                "could not allocate a free proxy socket under "@ + crate::text::shown(directory@),
            ProxyError::ServerPanicked => "proxy server thread panicked"@,
        }
    }

    /// The class of the error.
    pub open spec fn class(self) -> ErrorKind {
        match self {
            ProxyError::NoRewriteOption => ErrorKind::InvalidInput,
            ProxyError::MissingVariable(_) => ErrorKind::InvalidInput,
            ProxyError::NotASocket(_) => ErrorKind::AlreadyExists,
            ProxyError::SocketActive(_) => ErrorKind::AddrInUse,
            ProxyError::NoFreeSocket(_) => ErrorKind::AddrInUse,
            ProxyError::ServerPanicked => ErrorKind::Other,
        }
    }

    /// The class of the error.
    pub fn kind(&self) -> (kind: ErrorKind)
        ensures
            kind == self.class(),
            kind is InvalidInput <==> self is NoRewriteOption || self is MissingVariable,
            kind is AlreadyExists <==> self is NotASocket,
            kind is AddrInUse <==> self is SocketActive || self is NoFreeSocket,
            kind is Other <==> self is ServerPanicked,
    {
        match self {
            ProxyError::NoRewriteOption | ProxyError::MissingVariable(_) => ErrorKind::InvalidInput,
            ProxyError::NotASocket(_) => ErrorKind::AlreadyExists,
            ProxyError::SocketActive(_) | ProxyError::NoFreeSocket(_) => ErrorKind::AddrInUse,
            ProxyError::ServerPanicked => ErrorKind::Other,
        }
    }

    /// The text that describes the error.
    pub fn message(&self) -> (message: String)
        ensures
            message@ == self.text(),
            self is NoRewriteOption ==> message@
                == "at least one rewrite option must be supplied: --app-id and/or --title"@,
            self matches ProxyError::MissingVariable(name) ==> message@
                == "required environment variable "@ + name@ + " is not set"@,
            self matches ProxyError::NotASocket(path) ==> message@
                == "path exists and is not a socket: "@ + crate::text::shown(path@),
            self matches ProxyError::SocketActive(path) ==> message@
                == "socket already exists and is active: "@ + crate::text::shown(path@),
            self matches ProxyError::NoFreeSocket(directory) ==> message@
                == "could not allocate a free proxy socket under "@ + crate::text::shown(directory@),
            self is ServerPanicked ==> message@ == "proxy server thread panicked"@,
    {
        match self {
            ProxyError::NoRewriteOption =>
                "at least one rewrite option must be supplied: --app-id and/or --title".to_owned(),
            ProxyError::MissingVariable(name) => {
                let mut message = "required environment variable ".to_owned();
                message.append(name.as_str());
                message.append(" is not set");
                message
            },
            ProxyError::NotASocket(path) => {
                let mut message = "path exists and is not a socket: ".to_owned();
                message.append(shown_text(path.as_slice()).as_str());
                message
            },
            ProxyError::SocketActive(path) => {
                let mut message = "socket already exists and is active: ".to_owned();
                message.append(shown_text(path.as_slice()).as_str());
                message
            },
            ProxyError::NoFreeSocket(directory) => {
                let mut message = "could not allocate a free proxy socket under ".to_owned();
                message.append(shown_text(directory.as_slice()).as_str());
                message
            },
            ProxyError::ServerPanicked => "proxy server thread panicked".to_owned(),
        }
    }
}

/// The class and the text that an end of a procedure is answered with, where the proxy itself
/// finds the error.
pub open spec fn answer(error: Option<ProxyError>) -> Option<(ErrorKind, Seq<char>)> {
    match error {
        Some(error) => Some((error.class(), error.text())),
        None => None,
    }
}

/// An error is one of bad input exactly where an option or a variable is missing, of an address in
/// use exactly where a socket is served by another process, and of something that exists already
/// exactly where that is no socket.
pub proof fn errors_are_classified(error: ProxyError)
    ensures
        error.class() is InvalidInput <==> error is NoRewriteOption || error is MissingVariable,
        error.class() is AlreadyExists <==> error is NotASocket,
        error.class() is AddrInUse <==> error is SocketActive || error is NoFreeSocket,
        error.class() is Other <==> error is ServerPanicked,
        answer(Some(error)) == Some((error.class(), error.text())),
        answer(None) is None,
{
}

/// An error names the path that it is about: where the path is text, that text ends the message as
/// it stands.
pub proof fn messages_name_what_they_are_about(path: Vec<u8>, name: Seq<char>)
    requires
        path@ == vstd::utf8::encode_utf8(name),
    ensures
        ProxyError::NotASocket(path).text() == "path exists and is not a socket: "@ + name,
        ProxyError::SocketActive(path).text() == "socket already exists and is active: "@ + name,
        ProxyError::NoFreeSocket(path).text() == "could not allocate a free proxy socket under "@
            + name,
{
    crate::text::text_is_shown_as_it_is(name);
}

} // verus!
