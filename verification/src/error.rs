//! The failures that the library reports.
//!
//! An [`Error`] is a kind and a message. The message is what reaches the
//! other side: a server embeds it into its response, and a client hands it
//! to its caller.

use crate::text::{decimal, int_text, join, joined, texts};
use vstd::prelude::*;

verus! {

/// What went wrong, by kind.
#[derive(Clone, Copy, Debug, PartialEq, Eq, Structural)]
pub enum ErrorKind {
    /// The request is malformed.
    Validation,
    /// A command name is not in the palette.
    PaletteMiss,
    /// A variable is not set in the environment that had to resolve it.
    EnvMiss,
    /// A transfer to or from the object store failed.
    Staging,
    /// A template could not be rendered.
    Template,
    /// The child process could not be run.
    ChildProcess,
    /// The broker did not take the task or did not answer.
    Transport,
    /// A message could not be decoded.
    Serialization,
    /// The server reported a failure in its response.
    Server,
}

/// A failure: its kind and its message.
#[derive(Debug, PartialEq, Eq)]
pub struct Error {
    pub kind: ErrorKind,
    pub message: String,
}

pub struct ErrorView {
    pub kind: ErrorKind,
    pub message: Seq<char>,
}

impl View for Error {
    type V = ErrorView;

    open spec fn view(&self) -> ErrorView {
        ErrorView { kind: self.kind, message: self.message@ }
    }
}

/// The message for a variable that is not set.
pub open spec fn env_miss_text(name: Seq<char>) -> Seq<char> {
    "environment variable `"@ + name + "' is not set"@
}

/// The message for a command that the palette does not hold; it lists the
/// names that the palette does hold.
pub open spec fn palette_miss_text(name: Seq<char>, available: Seq<Seq<char>>) -> Seq<char> {
    "Command `"@ + name + "' not found in command-palette: ["@ + joined(available, ", "@) + "]"@
}

/// The message for a failure that the server reported.
pub open spec fn server_text(return_code: int, exc: Seq<char>) -> Seq<char> {
    "Server Error: code="@ + int_text(return_code) + ", "@ + exc
}

/// The message for a file parameter of the client's side that reached the
/// server.
pub open spec fn misplaced_text(key: Seq<char>) -> Seq<char> {
    "Unaccepted local file param for server: "@ + key
}

pub open spec fn env_miss(name: Seq<char>) -> ErrorView {
    ErrorView { kind: ErrorKind::EnvMiss, message: env_miss_text(name) }
}

pub open spec fn palette_miss(name: Seq<char>, available: Seq<Seq<char>>) -> ErrorView {
    ErrorView { kind: ErrorKind::PaletteMiss, message: palette_miss_text(name, available) }
}

pub open spec fn server_failure(return_code: int, exc: Seq<char>) -> ErrorView {
    ErrorView { kind: ErrorKind::Server, message: server_text(return_code, exc) }
}

pub open spec fn misplaced(key: Seq<char>) -> ErrorView {
    ErrorView { kind: ErrorKind::Validation, message: misplaced_text(key) }
}

impl Clone for Error {
    fn clone(&self) -> (r: Error)
        ensures
            r@ == self@,
    {
        Error { kind: self.kind, message: self.message.clone() }
    }
}

impl Error {
    pub fn new(kind: ErrorKind, message: &str) -> (r: Error)
        ensures
            r@ == (ErrorView { kind, message: message@ }),
    {
        Error { kind, message: message.to_owned() }
    }

    /// The message, as it is shown to a user or embedded into a response.
    pub fn to_string(&self) -> (r: String)
        ensures
            r@ == self@.message,
    {
        self.message.clone()
    }

    /// The variable `name` is not set.
    pub fn env_miss(name: &str) -> (r: Error)
        ensures
            r@ == env_miss(name@),
    {
        let mut message = "environment variable `".to_owned();
        message.append(name);
        message.append("' is not set");
        Error { kind: ErrorKind::EnvMiss, message }
    }

    /// The palette holds no command `name`; it holds `available`.
    pub fn palette_miss(name: &str, available: &Vec<String>) -> (r: Error)
        ensures
            r@ == palette_miss(name@, texts(available@)),
    {
        let mut message = "Command `".to_owned();
        message.append(name);
        message.append("' not found in command-palette: [");
        message.append(join(available, ", ").as_str());
        message.append("]");
        Error { kind: ErrorKind::PaletteMiss, message }
    }

    /// The server answered with the code `return_code` and the reason `exc`.
    pub fn server(return_code: i32, exc: &str) -> (r: Error)
        ensures
            r@ == server_failure(return_code as int, exc@),
    {
        let mut message = "Server Error: code=".to_owned();
        message.append(decimal(return_code).as_str());
        message.append(", ");
        message.append(exc);
        Error { kind: ErrorKind::Server, message }
    }

    /// The server was handed the local file that lies under `key`.
    pub fn misplaced(key: &str) -> (r: Error)
        ensures
            r@ == misplaced(key@),
    {
        let mut message = "Unaccepted local file param for server: ".to_owned();
        message.append(key);
        Error { kind: ErrorKind::Validation, message }
    }
}

} // verus!
