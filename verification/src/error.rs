//! Error taxonomy for the client: each failure carries a kind and a
//! human-readable description.

use vstd::prelude::*;

verus! {

/// The kind of a client error.
#[derive(Clone, Copy, Debug, PartialEq, Eq, Structural)]
pub enum RCErrorType {
    /// TCP-level failure or a socket closed unexpectedly.
    ConnectionError,
    /// Short read or write, buffer overflow.
    IOError,
    /// Malformed frame, UTF-8 violation, invalid uuid, unexpected opcode,
    /// unknown kind.
    ReadError,
    /// A typed value cannot be encoded for the declared column type.
    SerializeError,
    /// Misuse of the API, such as an unknown prepared statement.
    GenericError,
    /// No available nodes, already connected, or a peer list parse failure.
    ClusterError,
    /// The server returned an error body; carries the server's code.
    ProtocolError,
}

/// A client error: a kind together with a description.
#[derive(Clone, Debug)]
pub struct RCError {
    pub kind: RCErrorType,
    pub desc: String,
}

impl RCError {
    /// Builds an error of the given kind.
    pub fn new(msg: &str, kind: RCErrorType) -> (r: RCError)
        ensures
            r.kind == kind,
    {
        RCError { kind, desc: msg.to_owned() }
    }

    /// The error kind.
    pub fn kind(&self) -> (r: RCErrorType)
        ensures
            r == self.kind,
    {
        self.kind
    }

    /// The human-readable description.
    pub fn description(&self) -> (r: &str)
        ensures
            r@ == self.desc@,
    {
        self.desc.as_str()
    }
}

/// The result type used throughout the client.
pub type RCResult<T> = Result<T, RCError>;

} // verus!
