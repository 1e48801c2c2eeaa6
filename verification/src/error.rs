//! Error taxonomy of the proxy core.
//!
//! Protocol errors (malformed frames) and I/O errors end one relay
//! session and are never fatal; connect and accept errors are logged by
//! the dispatch loop and skipped; configuration errors are the only
//! category that aborts startup.

use vstd::prelude::*;
use vstd::string::StringExecFns;

verus! {

/// Which stage of the proxy raised an error.
#[derive(Clone, Copy, Debug, PartialEq, Eq, Structural)]
pub enum ErrorKind {
    /// A malformed datagram frame: truncated payload, unknown address
    /// tag, or a missing separator.
    Protocol,
    /// A transport-level read, write, or shutdown failure.
    Io,
    /// The outbound connector could not reach the target.
    Connect,
    /// The inbound acceptor failed to produce a connection.
    Accept,
    /// A malformed or rejected configuration document.
    Config,
}

/// An error value carried out of the proxy core.
#[derive(Debug)]
pub struct Error {
    pub kind: ErrorKind,
    pub message: String,
}

impl Error {
    /// Builds an error of the given kind with the given text.
    pub fn new(kind: ErrorKind, message: &str) -> (r: Error)
        ensures
            r.kind == kind,
            r.message@ == message@,
    {
        Error { kind, message: message.to_owned() }
    }

    /// The text of the error, for display by the embedding process.
    pub fn text(&self) -> (r: &String)
        ensures
            r@ == self.message@,
    {
        &self.message
    }
}

/// Wraps a message into a protocol error, prefixed with the name of the
/// framing protocol that raised it.
pub fn new_error(message: &str) -> (r: Error)
    ensures
        r.kind == ErrorKind::Protocol,
        r.message@ == "trojan: "@ + message@,
{
    let mut text: String = "trojan: ".to_owned();
    text.append(message);
    Error { kind: ErrorKind::Protocol, message: text }
}

} // verus!
