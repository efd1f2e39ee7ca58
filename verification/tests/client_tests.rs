use netplay::client::{
    client_listen_step, client_send_accepts, client_send_step, Client, ClientListenAction,
    ClientSendAction, IntercomResponse,
};
use netplay::link::{ListenEvent, WriteOutcome};
use netplay::network::{ClientID, SendMessage};

#[test]
fn new_client_is_unidentified_and_connected() {
    let c = Client::new();
    assert_eq!(c.id, None);
    assert!(!c.disconnected);
}

#[test]
fn message_carries_own_identifier() {
    let mut c = Client::new();
    c.id = Some(ClientID(12));
    let m = c.message("move");
    assert_eq!(m.id, ClientID(12));
    assert_eq!(m.message, "move");
}

#[test]
fn server_disconnect_marks_disconnected() {
    let mut c = Client::new();
    c.id = Some(ClientID(3));
    c.handle_intercom(IntercomResponse::ServerDisconnect);
    assert!(c.disconnected);
    assert_eq!(c.id, Some(ClientID(3)));
}

#[test]
fn unexpected_error_marks_disconnected() {
    let mut c = Client::new();
    c.handle_intercom(IntercomResponse::UnexpectedError);
    assert!(c.disconnected);
    c.handle_intercom(IntercomResponse::ServerDisconnect);
    assert!(c.disconnected);
}

#[test]
fn listen_reads_announced_body() {
    match client_listen_step::<u8>(ListenEvent::HeaderRead([0, 0, 2, 0])) {
        ClientListenAction::ReadBody(n) => assert_eq!(n, 512),
        _ => panic!("expected a body read"),
    }
}

#[test]
fn listen_delivers_from_server() {
    match client_listen_step(ListenEvent::BodyRead(Some(9u8))) {
        ClientListenAction::Deliver(d) => {
            assert_eq!(d.id, ClientID(0));
            assert_eq!(d.message, 9);
        }
        _ => panic!("expected a delivery"),
    }
}

#[test]
fn listen_skips_undecodable_body() {
    assert!(matches!(client_listen_step::<u8>(ListenEvent::BodyRead(None)), ClientListenAction::Skip));
}

#[test]
fn listen_shuts_down_on_failures() {
    for event in [
        ListenEvent::<u8>::HeaderFailed,
        ListenEvent::HeaderWouldBlock,
        ListenEvent::BodyFailed,
        ListenEvent::ForwardFailed,
    ] {
        assert!(matches!(
            client_listen_step(event),
            ClientListenAction::Shutdown(IntercomResponse::ServerDisconnect)
        ));
    }
}

#[test]
fn send_accepts_only_server_messages() {
    assert!(client_send_accepts(&SendMessage::server(1u8)));
    assert!(client_send_accepts(&SendMessage::new(ClientID(0), 1u8)));
    assert!(!client_send_accepts(&SendMessage::new(ClientID(5), 1u8)));
}

#[test]
fn send_step_outcomes() {
    assert_eq!(client_send_step(WriteOutcome::Written), ClientSendAction::Continue);
    assert_eq!(client_send_step(WriteOutcome::HeaderFailed), ClientSendAction::Stop(None));
    assert_eq!(client_send_step(WriteOutcome::BodyFailed), ClientSendAction::Stop(None));
    assert_eq!(
        client_send_step(WriteOutcome::FlushFailed),
        ClientSendAction::Stop(Some(IntercomResponse::UnexpectedError))
    );
}
