//! What the transport hands to the server: connects, disconnects, and the
//! commands of connected clients.

use crate::geometry::Vec2;
use vstd::prelude::*;

verus! {

/// A client has connected; `addr` is the handle through which messages
/// are pushed to it.
pub struct Connect<H> {
    pub addr: H,
}

/// A client has disconnected. The same value is the notice told to the
/// remaining clients.
#[derive(Clone, Copy, Debug, PartialEq, Eq, Structural)]
pub struct Disconnect {
    pub id: usize,
}

/// A command of a client.
#[derive(Debug, PartialEq, Eq)]
pub enum ClientMessage {
    /// The client joins under this name.
    Name(String),
    /// The client's movement input.
    Keys(Vec2),
    /// Whether the client's mouse button is down.
    Click(bool),
}

/// A command together with the session that sent it.
#[derive(Debug, PartialEq, Eq)]
pub struct ServerMessage {
    pub id: usize,
    pub m: ClientMessage,
}

} // verus!
