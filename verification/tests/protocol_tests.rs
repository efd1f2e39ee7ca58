use netplay::client::{client_send_accepts, Client};
use netplay::hlnetwork::{hlclient_update, hlserver_update, ClientMessage, ServerMessage};
use netplay::network::{ClientID, NetworkMessage, ReceiveMessage, SendMessage};

#[test]
fn new_message_is_addressed() {
    let m = SendMessage::new(ClientID(7), 42u32);
    assert_eq!(m.id, ClientID(7));
    assert_eq!(m.message, 42);
}

#[test]
fn server_message_goes_to_zero() {
    let m = SendMessage::server("hello");
    assert_eq!(m.id, ClientID(0));
    assert_eq!(m.message, "hello");
}

#[test]
fn server_identifies_each_connecting_client() {
    let events = vec![
        NetworkMessage::ClientConnect(ClientID(5)),
        NetworkMessage::ClientDisconnect(ClientID(9)),
        NetworkMessage::ClientConnect(ClientID(11)),
    ];
    let replies = hlserver_update(&events);
    assert_eq!(replies.len(), 2);
    assert_eq!(replies[0].id, ClientID(5));
    assert_eq!(replies[0].message, ServerMessage::Identify(ClientID(5)));
    assert_eq!(replies[1].id, ClientID(11));
    assert_eq!(replies[1].message, ServerMessage::Identify(ClientID(11)));
}

#[test]
fn server_ignores_disconnects() {
    let events = vec![NetworkMessage::ClientDisconnect(ClientID(3))];
    assert!(hlserver_update(&events).is_empty());
    assert!(hlserver_update(&Vec::new()).is_empty());
}

#[test]
fn client_takes_identity_and_answers_pings() {
    let mut client = Client::new();
    let messages = vec![
        ReceiveMessage { id: ClientID(0), message: ServerMessage::Ping },
        ReceiveMessage { id: ClientID(0), message: ServerMessage::Identify(ClientID(77)) },
        ReceiveMessage { id: ClientID(0), message: ServerMessage::Ping },
    ];
    let replies = hlclient_update(&mut client, &messages);
    assert_eq!(client.id, Some(ClientID(77)));
    assert!(!client.disconnected);
    assert_eq!(replies.len(), 2);
    for r in &replies {
        assert_eq!(r.id, ClientID(0));
        assert_eq!(r.message, ClientMessage::Pong);
    }
}

#[test]
fn last_identify_wins() {
    let mut client = Client::new();
    client.id = Some(ClientID(1));
    let messages = vec![
        ReceiveMessage { id: ClientID(0), message: ServerMessage::Identify(ClientID(2)) },
        ReceiveMessage { id: ClientID(0), message: ServerMessage::Identify(ClientID(3)) },
    ];
    let replies = hlclient_update(&mut client, &messages);
    assert!(replies.is_empty());
    assert_eq!(client.id, Some(ClientID(3)));
}

#[test]
fn client_keeps_identity_without_identify() {
    let mut client = Client::new();
    client.id = Some(ClientID(4));
    client.disconnected = true;
    let messages = vec![ReceiveMessage { id: ClientID(0), message: ServerMessage::Ping }];
    let replies = hlclient_update(&mut client, &messages);
    assert_eq!(replies.len(), 1);
    assert_eq!(client.id, Some(ClientID(4)));
    assert!(client.disconnected);
}

#[test]
fn client_replies_pass_the_send_filter() {
    let mut client = Client::new();
    let messages = vec![
        ReceiveMessage { id: ClientID(0), message: ServerMessage::Ping },
        ReceiveMessage { id: ClientID(0), message: ServerMessage::Ping },
    ];
    let replies = hlclient_update(&mut client, &messages);
    assert_eq!(replies.len(), 2);
    for r in &replies {
        assert!(client_send_accepts(r));
    }
}

#[test]
fn connect_event_leads_to_identify_for_that_client() {
    let mut server = netplay::server::Server::new();
    let event = server.connect_client();
    let replies = hlserver_update(&vec![event]);
    assert_eq!(replies.len(), 1);
    assert_eq!(replies[0].id, server.clients[0]);
    assert_eq!(replies[0].message, ServerMessage::Identify(server.clients[0]));
}

#[test]
fn client_id_derefs_to_its_number() {
    let id = ClientID(9);
    assert_eq!(*id, 9u64);
}
