//! Client identifiers and the envelopes that carry messages between the
//! game loop and the network threads.

use vstd::prelude::*;

verus! {

/// Identifies one connection. The server itself is always `ClientID(0)`.
#[derive(Debug, Default, Clone, Copy, Hash, PartialEq, Eq, Structural, PartialOrd, Ord)]
pub struct ClientID(pub u64);

impl core::ops::Deref for ClientID {
    type Target = u64;

    fn deref(&self) -> (r: &u64)
        ensures
            *r == self.0,
    {
        &self.0
    }
}

/// The identifier under which the server is addressed.
pub open spec fn server_id() -> ClientID {
    ClientID(0)
}

/// Connection events raised by the server for the game logic.
#[derive(Debug, Clone, Copy, PartialEq, Eq, Structural)]
pub enum NetworkMessage {
    ClientConnect(ClientID),
    ClientDisconnect(ClientID),
}

/// A message to be sent to the connection `id`.
#[derive(Debug, Clone)]
pub struct SendMessage<T> {
    pub id: ClientID,
    pub message: T,
}

impl<T> SendMessage<T> {
    /// A message addressed to `id`.
    pub fn new(id: ClientID, message: T) -> (r: Self)
        ensures
            r.id == id,
            r.message == message,
    {
        Self { id, message }
    }

    /// A message addressed to the server.
    pub fn server(message: T) -> (r: Self)
        ensures
            r.id == server_id(),
            r.message == message,
    {
        SendMessage { id: ClientID(0), message }
    }
}

/// A message that arrived from the connection `id`.
#[derive(Debug, Clone)]
pub struct ReceiveMessage<T> {
    pub id: ClientID,
    pub message: T,
}

/// Draws a fresh client identifier with `rand::random::<u64>()`, which the
/// rand crate documents as shorthand for `rand::rng().random()`, the thread-local
/// generator. Nothing is claimed of the value: every `u64`, zero and the
/// identifiers already in use included, may come back. The crate's source
/// shows that the call panics only if the operating system's random source
/// fails when the generator is seeded or periodically reseeded, which no
/// argument can exclude.
#[verifier::external_body]
pub(crate) fn random_client_id() -> ClientID {
    ClientID(rand::random::<u64>())
}

} // verus!
