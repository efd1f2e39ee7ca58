//! The server side: the list of connected clients kept by the game loop,
//! and the decisions of its listen thread.

use vstd::prelude::*;
use crate::frame::{be_value, frame_len};
use crate::link::ListenEvent;
use crate::network::{random_client_id, ClientID, NetworkMessage, ReceiveMessage};
use crate::seqs::{lemma_filter_keeps_all, lemma_filter_members};

verus! {

/// The predicate "is not `id`", the filter that a disconnect applies.
pub open spec fn other_than(id: ClientID) -> spec_fn(ClientID) -> bool {
    |c: ClientID| c != id
}

/// What the server's stream threads report to the game loop.
#[derive(Debug, Clone, Copy, PartialEq, Eq, Structural)]
pub enum IntercomResponse {
    /// The stream of this client broke.
    Disconnection(ClientID),
}

/// The server's state in the game loop.
#[derive(Debug, Clone)]
pub struct Server {
    /// The clients connected so far, in the order they connected.
    pub clients: Vec<ClientID>,
}

/// Keeps the elements of `v` other than `id`, in order.
fn remove_client_id(v: &mut Vec<ClientID>, id: ClientID)
    ensures
        final(v)@ == old(v)@.filter(other_than(id)),
{
    let mut kept: Vec<ClientID> = Vec::new();
    let mut i: usize = 0;
    while i < v.len()
        invariant
            i <= v.len(),
            kept@ == v@.take(i as int).filter(other_than(id)),
        decreases v.len() - i,
    {
        let c: ClientID = v[i];
        proof {
            reveal(Seq::filter);
            assert(v@.take(i + 1).drop_last() =~= v@.take(i as int));
            assert(v@.take(i + 1).last() == c);
        }
        if c.0 != id.0 {
            kept.push(c);
        }
        i = i + 1;
    }
    assert(v@.take(v.len() as int) =~= v@);
    *v = kept;
}

impl Server {
    /// A server with no clients.
    pub fn new() -> (s: Server)
        ensures
            s.clients@ == Seq::<ClientID>::empty(),
    {
        Server { clients: Vec::new() }
    }

    /// Records that the client `id` connected and gives the event for the
    /// game logic.
    pub fn register_client(&mut self, id: ClientID) -> (event: NetworkMessage)
        ensures
            final(self).clients@ == old(self).clients@.push(id),
            event == NetworkMessage::ClientConnect(id),
    {
        self.clients.push(id);
        NetworkMessage::ClientConnect(id)
    }

    /// Accepts a new connection: draws a random identifier for it, records
    /// it, and gives the event for the game logic.
    pub fn connect_client(&mut self) -> (event: NetworkMessage)
        ensures
            event is ClientConnect,
            final(self).clients@ == old(self).clients@.push(event->ClientConnect_0),
    {
        let id = random_client_id();
        self.register_client(id)
    }

    /// Acts on a report from a stream thread: the client is forgotten and the
    /// game logic is told of the disconnect.
    pub fn handle_intercom(&mut self, response: IntercomResponse) -> (event: NetworkMessage)
        ensures
            match response {
                IntercomResponse::Disconnection(id) => {
                    &&& event == NetworkMessage::ClientDisconnect(id)
                    &&& final(self).clients@ == old(self).clients@.filter(other_than(id))
                },
            },
    {
        match response {
            IntercomResponse::Disconnection(id) => {
                remove_client_id(&mut self.clients, id);
                NetworkMessage::ClientDisconnect(id)
            },
        }
    }
}
/// A client that disconnects is forgotten, and no other client is: after
/// the disconnect of `id` the list holds every client it held before except
/// `id`, in the same order.
pub proof fn lemma_disconnect_forgets_only(clients: Seq<ClientID>, id: ClientID, other: ClientID)
    ensures
        !clients.filter(other_than(id)).contains(id),
        other != id ==> (clients.filter(other_than(id)).contains(other) <==> clients.contains(other)),
{
    lemma_filter_members(clients, other_than(id), id);
    lemma_filter_members(clients, other_than(id), other);
}

/// The disconnect of a client undoes its connect: if `id` was not connected,
/// connecting it and then finalising its disconnect gives back the list of
/// clients as it was.
pub proof fn lemma_disconnect_undoes_connect(clients: Seq<ClientID>, id: ClientID)
    requires
        !clients.contains(id),
    ensures
        clients.push(id).filter(other_than(id)) == clients,
{
    reveal(Seq::filter);
    assert(clients.push(id).drop_last() =~= clients);
    assert forall|i: int| 0 <= i < clients.len() implies (other_than(id))(#[trigger] clients[i]) by {
        if clients[i] == id {
            assert(clients.contains(id));
        }
    }
    lemma_filter_keeps_all(clients, other_than(id));
}
/// What the server's listen thread does next with one stream.
pub enum ServerListenAction<C> {
    /// Read a body of this many bytes from the stream.
    ReadBody(usize),
    /// Leave this stream for now and go on with the next one.
    Skip,
    /// The client is gone: drop its stream and report the disconnect.
    Disconnect(ClientID),
    /// Hand this message to the game loop.
    Deliver(ReceiveMessage<C>),
    /// End the thread: the game loop no longer listens.
    Stop,
}

/// The decision of the server's listen thread after one step of reading a
/// frame from the stream of client `id`. A header that is not there yet is
/// waited for; any other failure to read the header means the client is
/// gone; a body that fails to read or to decode is skipped; a decoded body is
/// delivered as coming from `id`.
pub fn server_listen_step<C>(id: ClientID, event: ListenEvent<C>) -> (r: ServerListenAction<C>)
    ensures
        match event {
            ListenEvent::HeaderRead(h) => r matches ServerListenAction::ReadBody(n) && n == be_value(h@),
            ListenEvent::HeaderWouldBlock => r is Skip,
            ListenEvent::HeaderFailed => r == ServerListenAction::<C>::Disconnect(id),
            ListenEvent::BodyFailed => r is Skip,
            ListenEvent::BodyRead(None) => r is Skip,
            ListenEvent::BodyRead(Some(m)) => r matches ServerListenAction::Deliver(d) && d.id == id
                && d.message == m,
            ListenEvent::ForwardFailed => r is Stop,
        },
{
    match event {
        ListenEvent::HeaderRead(h) => ServerListenAction::ReadBody(frame_len(h)),
        ListenEvent::HeaderWouldBlock => ServerListenAction::Skip,
        ListenEvent::HeaderFailed => ServerListenAction::Disconnect(id),
        ListenEvent::BodyFailed => ServerListenAction::Skip,
        ListenEvent::BodyRead(None) => ServerListenAction::Skip,
        ListenEvent::BodyRead(Some(message)) => ServerListenAction::Deliver(ReceiveMessage { id, message }),
        ListenEvent::ForwardFailed => ServerListenAction::Stop,
    }
}
} // verus!
