//! The client side: its identity as learnt from the server, its connection
//! state, and the decisions of its listen and send threads.

use vstd::prelude::*;
use crate::link::{ListenEvent, WriteOutcome};
use crate::network::{server_id, ClientID, ReceiveMessage, SendMessage};
use crate::frame::{be_value, frame_len};

verus! {

/// What the client's stream threads report to the game loop.
#[derive(Debug, Clone, Copy, PartialEq, Eq, Structural)]
pub enum IntercomResponse {
    /// The connection to the server is gone.
    ServerDisconnect,
    /// Something failed that should not have.
    UnexpectedError,
}

/// The client's state in the game loop.
#[derive(Debug, Clone, Copy)]
pub struct Client {
    /// The identifier the server assigned to this client, once it has said so.
    pub id: Option<ClientID>,
    /// Set once a stream thread has reported the connection lost; never cleared.
    pub disconnected: bool,
}

impl Client {
    /// A client that has not been identified and is connected.
    pub fn new() -> (c: Client)
        ensures
            c.id is None,
            !c.disconnected,
    {
        Client { id: None, disconnected: false }
    }

    /// Wraps `message` into an envelope addressed with this client's own
    /// identifier, which the server must have sent before.
    pub fn message<C>(&self, message: C) -> (r: SendMessage<C>)
        requires
            self.id is Some,
        ensures
            r.id == self.id->0,
            r.message == message,
    {
        SendMessage::new(self.id.unwrap(), message)
    }

    /// Takes note of a report from a stream thread: every report means the
    /// connection is over.
    pub fn handle_intercom(&mut self, response: IntercomResponse)
        ensures
            final(self).disconnected,
            final(self).id == old(self).id,
    {
        match response {
            IntercomResponse::ServerDisconnect => {
                self.disconnected = true;
            },
            IntercomResponse::UnexpectedError => {
                self.disconnected = true;
            },
        }
    }
}

/// What the client's listen thread does next.
pub enum ClientListenAction<S> {
    /// Read a body of this many bytes.
    ReadBody(usize),
    /// Hand this message to the game loop.
    Deliver(ReceiveMessage<S>),
    /// Drop what was read and go on with the next frame.
    Skip,
    /// Report this to the game loop and end the thread.
    Shutdown(IntercomResponse),
}

/// The decision of the client's listen thread after one step of reading a
/// frame from the server. Any failure to read ends the thread with a
/// disconnect report; a body that does not decode is skipped; a decoded one
/// is delivered as coming from the server.
pub fn client_listen_step<S>(event: ListenEvent<S>) -> (r: ClientListenAction<S>)
    ensures
        match event {
            ListenEvent::HeaderRead(h) => r matches ClientListenAction::ReadBody(n) && n == be_value(h@),
            ListenEvent::BodyRead(Some(m)) => r matches ClientListenAction::Deliver(d)
                && d.id == server_id() && d.message == m,
            ListenEvent::BodyRead(None) => r is Skip,
            _ => r == ClientListenAction::<S>::Shutdown(IntercomResponse::ServerDisconnect),
        },
{
    match event {
        ListenEvent::HeaderRead(h) => ClientListenAction::ReadBody(frame_len(h)),
        ListenEvent::HeaderWouldBlock => ClientListenAction::Shutdown(IntercomResponse::ServerDisconnect),
        ListenEvent::HeaderFailed => ClientListenAction::Shutdown(IntercomResponse::ServerDisconnect),
        ListenEvent::BodyFailed => ClientListenAction::Shutdown(IntercomResponse::ServerDisconnect),
        ListenEvent::BodyRead(Some(message)) => ClientListenAction::Deliver(
            ReceiveMessage { id: ClientID(0), message },
        ),
        ListenEvent::BodyRead(None) => ClientListenAction::Skip,
        ListenEvent::ForwardFailed => ClientListenAction::Shutdown(IntercomResponse::ServerDisconnect),
    }
}

/// Whether the client's send thread writes `message` at all: a client talks
/// to the server only, and drops anything addressed elsewhere.
pub fn client_send_accepts<C>(message: &SendMessage<C>) -> (r: bool)
    ensures
        r == (message.id == server_id()),
{
    message.id.0 == 0
}

/// What the client's send thread does after writing one frame.
#[derive(Debug, Clone, Copy, PartialEq, Eq, Structural)]
pub enum ClientSendAction {
    /// Go on with the next message.
    Continue,
    /// End the thread, first reporting this to the game loop if there is one.
    Stop(Option<IntercomResponse>),
}

/// The decision of the client's send thread once a frame was written: a
/// failed write of header or body ends the thread silently, a failed flush
/// ends it with a report of an unexpected error.
pub fn client_send_step(outcome: WriteOutcome) -> (r: ClientSendAction)
    ensures
        r == match outcome {
            WriteOutcome::Written => ClientSendAction::Continue,
            WriteOutcome::HeaderFailed => ClientSendAction::Stop(None),
            WriteOutcome::BodyFailed => ClientSendAction::Stop(None),
            WriteOutcome::FlushFailed => ClientSendAction::Stop(Some(IntercomResponse::UnexpectedError)),
        },
{
    match outcome {
        WriteOutcome::Written => ClientSendAction::Continue,
        WriteOutcome::HeaderFailed => ClientSendAction::Stop(None),
        WriteOutcome::BodyFailed => ClientSendAction::Stop(None),
        WriteOutcome::FlushFailed => ClientSendAction::Stop(Some(IntercomResponse::UnexpectedError)),
    }
}

} // verus!
