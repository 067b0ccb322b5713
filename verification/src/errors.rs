//! The error taxonomy of the tunnel engine and its control plane.

use vstd::prelude::*;
use vstd::string::StringExecFns;

verus! {

/// Which transport a bridging failure came from.
#[derive(Clone, Copy, Debug, PartialEq, Eq, Structural)]
pub enum TransportSide {
    /// The TCP side.
    Io,
    /// A WebSocket connection this process initiated.
    WebSocket,
    /// A WebSocket connection this process accepted.
    ServerWebSocket,
}

/// Everything that can go wrong in the core.
#[derive(Clone, Copy, Debug, PartialEq, Eq, Structural)]
pub enum Error {
    /// A local or remote address string could not be parsed.
    AddressParse,
    /// The requested local address is already owned by a live tunnel.
    BindConflict,
    /// The operating system refused to bind the local address.
    BindFailure,
    /// The outbound WebSocket handshake failed.
    ConnectFailure,
    /// I/O failed while bridging, tagged with the side that failed.
    Transport(TransportSide),
    /// The referenced scope does not exist.
    UnknownScope,
    /// The referenced tunnel does not exist.
    UnknownTunnel,
    /// The caller's origin is not allowed to perform this operation.
    Unauthorized,
}

impl Error {
    /// A short human-readable description of the error.
    pub fn describe(&self) -> (r: String)
        ensures
            *self is AddressParse ==> r@ == "failed to parse address"@,
            *self is BindConflict ==> r@ == "local address is already taken by another instance"@,
            *self is BindFailure ==> r@ == "failed to bind tcp address"@,
            *self is ConnectFailure ==> r@ == "failed to connect to remote"@,
            *self is Transport ==> r@ == "transport error while proxying"@,
            *self is UnknownScope ==> r@ == "scope not found"@,
            *self is UnknownTunnel ==> r@ == "tunnel not found"@,
            *self is Unauthorized ==> r@ == "origin is not allowed"@,
    {
        let text: &str = match self {
            Error::AddressParse => "failed to parse address",
            Error::BindConflict => "local address is already taken by another instance",
            Error::BindFailure => "failed to bind tcp address",
            Error::ConnectFailure => "failed to connect to remote",
            Error::Transport(_) => "transport error while proxying",
            Error::UnknownScope => "scope not found",
            Error::UnknownTunnel => "tunnel not found",
            Error::Unauthorized => "origin is not allowed",
        };
        String::from_str(text)
    }
}

} // verus!
