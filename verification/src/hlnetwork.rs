//! The high-level protocol on top of the connections: the server tells each
//! new client its identifier, and a client answers every ping with a pong.

use vstd::prelude::*;
use crate::client::Client;
use crate::network::{server_id, ClientID, NetworkMessage, ReceiveMessage, SendMessage};

verus! {

/// Messages from the server to a client.
#[derive(Debug, Clone, Copy, PartialEq, Eq, Structural)]
pub enum ServerMessage {
    /// Asks the client to answer with a pong.
    Ping,
    /// Tells the client the identifier the server knows it by.
    Identify(ClientID),
}

/// Messages from a client to the server.
#[derive(Debug, Clone, Copy, PartialEq, Eq, Structural)]
pub enum ClientMessage {
    /// The answer to a ping.
    Pong,
}

/// The replies the server sends for a run of connection events: one
/// `Identify(id)` addressed to `id` for each connect, in order; disconnects
/// get none.
pub open spec fn identify_replies(events: Seq<NetworkMessage>) -> Seq<SendMessage<ServerMessage>>
    decreases events.len(),
{
    if events.len() == 0 {
        Seq::empty()
    } else {
        let earlier = identify_replies(events.drop_last());
        match events.last() {
            NetworkMessage::ClientConnect(id) => earlier.push(
                SendMessage { id: id, message: ServerMessage::Identify(id) },
            ),
            NetworkMessage::ClientDisconnect(_) => earlier,
        }
    }
}

/// The replies a client sends for a run of messages from the server: one
/// pong to the server for each ping, in order.
pub open spec fn pong_replies(messages: Seq<ReceiveMessage<ServerMessage>>) -> Seq<SendMessage<ClientMessage>>
    decreases messages.len(),
{
    if messages.len() == 0 {
        Seq::empty()
    } else {
        let earlier = pong_replies(messages.drop_last());
        match messages.last().message {
            ServerMessage::Ping => earlier.push(SendMessage { id: server_id(), message: ClientMessage::Pong }),
            ServerMessage::Identify(_) => earlier,
        }
    }
}

/// The identifier a client holds after a run of messages from the server,
/// starting from `start`: that of the last `Identify`, or `start` if none came.
pub open spec fn identity_after(start: Option<ClientID>, messages: Seq<ReceiveMessage<ServerMessage>>) -> Option<ClientID>
    decreases messages.len(),
{
    if messages.len() == 0 {
        start
    } else {
        match messages.last().message {
            ServerMessage::Identify(id) => Some(id),
            ServerMessage::Ping => identity_after(start, messages.drop_last()),
        }
    }
}

/// The predicate "is a connect event".
pub open spec fn is_connect() -> spec_fn(NetworkMessage) -> bool {
    |e: NetworkMessage| e is ClientConnect
}

/// The predicate "is a ping".
pub open spec fn is_ping() -> spec_fn(ReceiveMessage<ServerMessage>) -> bool {
    |m: ReceiveMessage<ServerMessage>| m.message is Ping
}

/// The server's replies are the connect events, one for one and in order:
/// there are as many replies as connects, and the `k`-th reply is an
/// `Identify` of the client of the `k`-th connect, addressed to that client.
pub proof fn lemma_identify_replies_follow_connects(events: Seq<NetworkMessage>)
    ensures
        identify_replies(events).len() == events.filter(is_connect()).len(),
        forall|k: int|
            0 <= k < identify_replies(events).len() ==> #[trigger] identify_replies(events)[k]
                == (SendMessage {
                id: events.filter(is_connect())[k]->ClientConnect_0,
                message: ServerMessage::Identify(events.filter(is_connect())[k]->ClientConnect_0),
            }),
    decreases events.len(),
{
    reveal(Seq::filter);
    if events.len() > 0 {
        lemma_identify_replies_follow_connects(events.drop_last());
    }
}

/// A client answers pings and nothing else: its replies are as many as the
/// pings in the batch, whatever else the batch holds, and each is a pong to
/// the server.
pub proof fn lemma_pong_replies_count_pings(messages: Seq<ReceiveMessage<ServerMessage>>)
    ensures
        pong_replies(messages).len() == messages.filter(is_ping()).len(),
        forall|k: int|
            0 <= k < pong_replies(messages).len() ==> #[trigger] pong_replies(messages)[k]
                == (SendMessage { id: server_id(), message: ClientMessage::Pong }),
    decreases messages.len(),
{
    reveal(Seq::filter);
    if messages.len() > 0 {
        lemma_pong_replies_count_pings(messages.drop_last());
    }
}

/// A client takes the identifier of the last `Identify` of a batch, wherever
/// in the batch it stands, and keeps the one it had when the batch holds no
/// `Identify`.
pub proof fn lemma_identity_is_last_identify(start: Option<ClientID>, messages: Seq<ReceiveMessage<ServerMessage>>)
    ensures
        (forall|k: int| 0 <= k < messages.len() ==> !(#[trigger] messages[k].message is Identify))
            ==> identity_after(start, messages) == start,
        forall|k: int|
            0 <= k < messages.len() && (#[trigger] messages[k]).message is Identify && (forall|j: int|
                k < j < messages.len() ==> !(messages[j].message is Identify)) ==> identity_after(start, messages)
                == Some(messages[k].message->Identify_0),
    decreases messages.len(),
{
    if messages.len() > 0 {
        let rest = messages.drop_last();
        lemma_identity_is_last_identify(start, rest);
        let n = messages.len() - 1;
        assert forall|k: int| 0 <= k < rest.len() implies #[trigger] rest[k] == messages[k] by {}
        if (forall|k: int| 0 <= k < messages.len() ==> !(#[trigger] messages[k].message is Identify)) {
            assert(!(messages[n].message is Identify));
            assert forall|k: int| 0 <= k < rest.len() implies !(#[trigger] rest[k].message is Identify) by {
                assert(!(messages[k].message is Identify));
            }
        }
        assert forall|k: int|
            0 <= k < messages.len() && (#[trigger] messages[k]).message is Identify && (forall|j: int|
                k < j < messages.len() ==> !(messages[j].message is Identify)) implies identity_after(start, messages)
            == Some(messages[k].message->Identify_0) by {
            if k < n {
                assert(!(messages[n].message is Identify));
                assert(rest[k] == messages[k]);
                assert forall|j: int| k < j < rest.len() implies !(rest[j].message is Identify) by {
                    assert(rest[j] == messages[j]);
                }
            }
        }
    }
}

/// The server's reaction to the connection events of one frame: identify
/// every client that connected.
pub fn hlserver_update(events: &Vec<NetworkMessage>) -> (replies: Vec<SendMessage<ServerMessage>>)
    ensures
        replies@ == identify_replies(events@),
        replies@.len() == events@.filter(is_connect()).len(),
        forall|k: int|
            0 <= k < replies@.len() ==> #[trigger] replies@[k] == (SendMessage {
                id: events@.filter(is_connect())[k]->ClientConnect_0,
                message: ServerMessage::Identify(events@.filter(is_connect())[k]->ClientConnect_0),
            }),
{
    proof {
        lemma_identify_replies_follow_connects(events@);
    }
    let mut replies: Vec<SendMessage<ServerMessage>> = Vec::new();
    let mut i: usize = 0;
    while i < events.len()
        invariant
            i <= events.len(),
            replies@ == identify_replies(events@.take(i as int)),
        decreases events.len() - i,
    {
        assert(events@.take(i + 1).drop_last() =~= events@.take(i as int));
        match events[i] {
            NetworkMessage::ClientConnect(id) => {
                replies.push(SendMessage::new(id, ServerMessage::Identify(id)));
            },
            NetworkMessage::ClientDisconnect(_) => {},
        }
        i = i + 1;
    }
    assert(events@.take(events.len() as int) =~= events@);
    replies
}

/// The client's reaction to the messages of one frame from the server: an
/// `Identify` sets the client's identifier, a ping is answered with a pong to
/// the server.
pub fn hlclient_update(client: &mut Client, messages: &Vec<ReceiveMessage<ServerMessage>>) -> (replies: Vec<
    SendMessage<ClientMessage>,
>)
    ensures
        replies@ == pong_replies(messages@),
        final(client).id == identity_after(old(client).id, messages@),
        final(client).disconnected == old(client).disconnected,
        replies@.len() == messages@.filter(is_ping()).len(),
        forall|k: int|
            0 <= k < replies@.len() ==> #[trigger] replies@[k] == (SendMessage {
                id: server_id(),
                message: ClientMessage::Pong,
            }),
        (forall|k: int| 0 <= k < messages@.len() ==> !(#[trigger] messages@[k].message is Identify))
            ==> final(client).id == old(client).id,
        forall|k: int|
            0 <= k < messages@.len() && (#[trigger] messages@[k]).message is Identify && (forall|j: int|
                k < j < messages@.len() ==> !(messages@[j].message is Identify)) ==> final(client).id
                == Some(messages@[k].message->Identify_0),
{
    proof {
        lemma_pong_replies_count_pings(messages@);
        lemma_identity_is_last_identify(old(client).id, messages@);
    }
    let mut replies: Vec<SendMessage<ClientMessage>> = Vec::new();
    let mut i: usize = 0;
    while i < messages.len()
        invariant
            i <= messages.len(),
            replies@ == pong_replies(messages@.take(i as int)),
            client.id == identity_after(old(client).id, messages@.take(i as int)),
            client.disconnected == old(client).disconnected,
        decreases messages.len() - i,
    {
        assert(messages@.take(i + 1).drop_last() =~= messages@.take(i as int));
        match messages[i].message {
            ServerMessage::Identify(id) => {
                client.id = Some(id);
            },
            ServerMessage::Ping => {
                replies.push(SendMessage::server(ClientMessage::Pong));
            },
        }
        i = i + 1;
    }
    assert(messages@.take(messages.len() as int) =~= messages@);
    replies
}

/// Every client that connects is told its own identifier: for each connect
/// event there is a reply that carries the client's identifier and is
/// addressed to that very client.
pub proof fn lemma_every_connect_identified(events: Seq<NetworkMessage>, i: int)
    requires
        0 <= i < events.len(),
        events[i] is ClientConnect,
    ensures
        identify_replies(events).contains(
            SendMessage { id: events[i]->ClientConnect_0, message: ServerMessage::Identify(events[i]->ClientConnect_0) },
        ),
    decreases events.len(),
{
    let target = SendMessage { id: events[i]->ClientConnect_0, message: ServerMessage::Identify(events[i]->ClientConnect_0) };
    let earlier = identify_replies(events.drop_last());
    if i == events.len() - 1 {
        assert(identify_replies(events).last() == target);
        assert(identify_replies(events)[identify_replies(events).len() - 1] == target);
    } else {
        lemma_every_connect_identified(events.drop_last(), i);
        let j = choose|j: int| 0 <= j < earlier.len() && earlier[j] == target;
        match events.last() {
            NetworkMessage::ClientConnect(id) => {
                assert(identify_replies(events)[j] == target);
            },
            NetworkMessage::ClientDisconnect(_) => {
                assert(identify_replies(events)[j] == target);
            },
        }
    }
}

/// Everything the server replies goes to a client and carries that client's
/// own identifier.
pub proof fn lemma_identify_replies_addressed(events: Seq<NetworkMessage>, j: int)
    requires
        0 <= j < identify_replies(events).len(),
    ensures
        identify_replies(events)[j].message == ServerMessage::Identify(identify_replies(events)[j].id),
    decreases events.len(),
{
    if events.len() > 0 {
        let earlier = identify_replies(events.drop_last());
        if j < earlier.len() {
            lemma_identify_replies_addressed(events.drop_last(), j);
        }
    }
}

/// Every reply a client makes is addressed to the server, so its send thread
/// writes it rather than dropping it.
pub proof fn lemma_client_replies_go_to_server(messages: Seq<ReceiveMessage<ServerMessage>>, j: int)
    requires
        0 <= j < pong_replies(messages).len(),
    ensures
        pong_replies(messages)[j].id == server_id(),
        pong_replies(messages)[j].message == ClientMessage::Pong,
    decreases messages.len(),
{
    if messages.len() > 0 {
        let earlier = pong_replies(messages.drop_last());
        if j < earlier.len() {
            lemma_client_replies_go_to_server(messages.drop_last(), j);
        }
    }
}

} // verus!
