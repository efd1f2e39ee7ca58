use netplay::link::{ListenEvent, WriteOutcome};
use netplay::network::{ClientID, NetworkMessage};
use netplay::server::{server_listen_step, IntercomResponse, Server, ServerListenAction};
use netplay::streams::{ListenStreams, SendStreams};

#[test]
fn new_server_has_no_clients() {
    assert!(Server::new().clients.is_empty());
}

#[test]
fn register_records_and_announces() {
    let mut s = Server::new();
    assert_eq!(s.register_client(ClientID(4)), NetworkMessage::ClientConnect(ClientID(4)));
    assert_eq!(s.register_client(ClientID(8)), NetworkMessage::ClientConnect(ClientID(8)));
    assert_eq!(s.clients, vec![ClientID(4), ClientID(8)]);
}

#[test]
fn connect_records_the_drawn_identifier() {
    let mut s = Server::new();
    s.register_client(ClientID(1));
    match s.connect_client() {
        NetworkMessage::ClientConnect(id) => {
            assert_eq!(s.clients.len(), 2);
            assert_eq!(s.clients[0], ClientID(1));
            assert_eq!(s.clients[1], id);
        }
        _ => panic!("expected a connect event"),
    }
}

#[test]
fn disconnect_forgets_the_client() {
    let mut s = Server::new();
    s.register_client(ClientID(1));
    s.register_client(ClientID(2));
    s.register_client(ClientID(1));
    s.register_client(ClientID(3));
    let ev = s.handle_intercom(IntercomResponse::Disconnection(ClientID(1)));
    assert_eq!(ev, NetworkMessage::ClientDisconnect(ClientID(1)));
    assert_eq!(s.clients, vec![ClientID(2), ClientID(3)]);
}

#[test]
fn disconnect_of_unknown_client_changes_nothing() {
    let mut s = Server::new();
    s.register_client(ClientID(1));
    let ev = s.handle_intercom(IntercomResponse::Disconnection(ClientID(9)));
    assert_eq!(ev, NetworkMessage::ClientDisconnect(ClientID(9)));
    assert_eq!(s.clients, vec![ClientID(1)]);
}

#[test]
fn disconnect_undoes_connect() {
    let mut s = Server::new();
    s.register_client(ClientID(1));
    s.register_client(ClientID(2));
    let before = s.clients.clone();
    s.register_client(ClientID(3));
    s.handle_intercom(IntercomResponse::Disconnection(ClientID(3)));
    assert_eq!(s.clients, before);
}

#[test]
fn listen_streams_keep_order() {
    let mut l: ListenStreams<&str> = ListenStreams::new();
    l.register(ClientID(1), "a");
    l.register(ClientID(2), "b");
    l.register(ClientID(3), "c");
    assert_eq!(l.len(), 3);
    assert_eq!(l.id_at(0), ClientID(1));
    assert_eq!(l.id_at(2), ClientID(3));
    assert_eq!(*l.stream_mut(1), "b");
}

#[test]
fn listen_stream_can_be_changed_in_place() {
    let mut l: ListenStreams<u32> = ListenStreams::new();
    l.register(ClientID(1), 10);
    *l.stream_mut(0) += 5;
    assert_eq!(*l.stream_mut(0), 15);
    assert_eq!(l.id_at(0), ClientID(1));
}

#[test]
fn listen_streams_drop_removed_clients() {
    let mut l: ListenStreams<u32> = ListenStreams::new();
    l.register(ClientID(1), 10);
    l.register(ClientID(2), 20);
    l.register(ClientID(1), 11);
    l.register(ClientID(3), 30);
    l.remove_clients(&vec![ClientID(1), ClientID(7)]);
    assert_eq!(l.len(), 2);
    assert_eq!(l.id_at(0), ClientID(2));
    assert_eq!(*l.stream_mut(0), 20);
    assert_eq!(l.id_at(1), ClientID(3));
    assert_eq!(*l.stream_mut(1), 30);
}

#[test]
fn listen_step_reads_body() {
    match server_listen_step::<u8>(ClientID(4), ListenEvent::HeaderRead([0, 0, 0, 9])) {
        ServerListenAction::ReadBody(n) => assert_eq!(n, 9),
        _ => panic!("expected a body read"),
    }
}

#[test]
fn listen_step_waits_when_nothing_arrived() {
    assert!(matches!(
        server_listen_step::<u8>(ClientID(4), ListenEvent::HeaderWouldBlock),
        ServerListenAction::Skip
    ));
}

#[test]
fn listen_step_disconnects_on_header_failure() {
    match server_listen_step::<u8>(ClientID(4), ListenEvent::HeaderFailed) {
        ServerListenAction::Disconnect(id) => assert_eq!(id, ClientID(4)),
        _ => panic!("expected a disconnect"),
    }
}

#[test]
fn listen_step_skips_bad_bodies() {
    assert!(matches!(
        server_listen_step::<u8>(ClientID(4), ListenEvent::BodyFailed),
        ServerListenAction::Skip
    ));
    assert!(matches!(
        server_listen_step::<u8>(ClientID(4), ListenEvent::BodyRead(None)),
        ServerListenAction::Skip
    ));
}

#[test]
fn listen_step_delivers_from_the_client() {
    match server_listen_step(ClientID(4), ListenEvent::BodyRead(Some(3u8))) {
        ServerListenAction::Deliver(d) => {
            assert_eq!(d.id, ClientID(4));
            assert_eq!(d.message, 3);
        }
        _ => panic!("expected a delivery"),
    }
}

#[test]
fn listen_step_stops_when_game_loop_is_gone() {
    assert!(matches!(
        server_listen_step::<u8>(ClientID(4), ListenEvent::ForwardFailed),
        ServerListenAction::Stop
    ));
}

#[test]
fn send_streams_route_to_registered_stream() {
    let mut t: SendStreams<u32> = SendStreams::new();
    t.register(ClientID(1), 10);
    t.register(ClientID(2), 20);
    assert_eq!(t.stream_mut_of(ClientID(1)).copied(), Some(10));
    assert_eq!(t.stream_mut_of(ClientID(2)).copied(), Some(20));
    assert_eq!(t.stream_mut_of(ClientID(3)).copied(), None);
}

#[test]
fn send_streams_register_replaces() {
    let mut t: SendStreams<u32> = SendStreams::new();
    t.register(ClientID(1), 10);
    t.register(ClientID(1), 11);
    assert_eq!(t.stream_mut_of(ClientID(1)).copied(), Some(11));
}

#[test]
fn send_stream_changes_in_place() {
    let mut t: SendStreams<u32> = SendStreams::new();
    t.register(ClientID(1), 10);
    if let Some(s) = t.stream_mut_of(ClientID(1)) {
        *s = 99;
    }
    assert_eq!(t.stream_mut_of(ClientID(1)).copied(), Some(99));
}

#[test]
fn send_streams_remove() {
    let mut t: SendStreams<u32> = SendStreams::new();
    t.register(ClientID(1), 10);
    t.register(ClientID(2), 20);
    t.remove(ClientID(1));
    t.remove(ClientID(5));
    assert_eq!(t.stream_mut_of(ClientID(1)).copied(), None);
    assert_eq!(t.stream_mut_of(ClientID(2)).copied(), Some(20));
}

#[test]
fn failed_writes_drop_the_stream() {
    for outcome in [WriteOutcome::HeaderFailed, WriteOutcome::BodyFailed] {
        let mut t: SendStreams<u32> = SendStreams::new();
        t.register(ClientID(1), 10);
        t.register(ClientID(2), 20);
        t.handle_write(ClientID(1), outcome);
        assert_eq!(t.stream_mut_of(ClientID(1)).copied(), None);
        assert_eq!(t.stream_mut_of(ClientID(2)).copied(), Some(20));
    }
}

#[test]
fn flush_failure_and_success_keep_the_stream() {
    for outcome in [WriteOutcome::Written, WriteOutcome::FlushFailed] {
        let mut t: SendStreams<u32> = SendStreams::new();
        t.register(ClientID(1), 10);
        t.handle_write(ClientID(1), outcome);
        assert_eq!(t.stream_mut_of(ClientID(1)).copied(), Some(10));
    }
}

#[test]
fn collected_streams_keep_the_last_per_client() {
    let mut t = SendStreams::from_streams(vec![
        (ClientID(1), 10u32),
        (ClientID(2), 20),
        (ClientID(1), 11),
    ]);
    assert_eq!(t.stream_mut_of(ClientID(1)).copied(), Some(11));
    assert_eq!(t.stream_mut_of(ClientID(2)).copied(), Some(20));
    assert_eq!(t.stream_mut_of(ClientID(3)).copied(), None);
}
