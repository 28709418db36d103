use std::collections::{BTreeSet, HashSet};

use http::{HeaderMap, HeaderName, HeaderValue};
use mpc::client::{
    aux_info_file, handle_transport, handshake_headers, job_for, primes_file, read_assignment,
    session_url, Assignment, FirstFrame, Job, ServerFrame, TransportAction, TransportEvent,
};
use mpc::error_chain::ErrorChain;
use mpc::manager::handlers::{connect_signer, create_session, StartSessionRequest};
use mpc::manager::headers::signer_id;
use mpc::manager::ws::{handle_ws, Connection, Frame, WsAction, WsEvent};
use mpc::manager::AppState;
use mpc::protocol::{
    Data, Incoming, Message, MessageDestination, MessageType, Outgoing, SessionType,
};

type State = AppState<(), u32>;

fn session(ids: &[u128]) -> (State, String) {
    let mut state: State = AppState::new();
    let req = StartSessionRequest {
        tag: String::from("tag"),
        session_type: SessionType::AuxInfoGen,
        participants: ids.iter().copied().collect::<HashSet<u128>>(),
    };
    match create_session(&mut state, (), req) {
        Ok(id) => (state, id),
        Err(error) => panic!("{}", error.debug_text()),
    }
}

fn connect(state: &mut State, id: &str, signer: u128) -> Connection {
    match connect_signer(state, String::from(id), signer, 0) {
        Ok(connection) => connection,
        Err(error) => panic!("{}", error.debug_text()),
    }
}

fn connect_started(state: &mut State, id: &str, signer: u128) -> Connection {
    let mut connection = connect(state, id, signer);
    let action = handle_ws(&mut connection, state, WsEvent::Started(true));
    assert!(matches!(action, WsAction::Send(_)));
    connection
}

fn is_connected(state: &State, id: &str, idx: u16) -> bool {
    state.session(&String::from(id)).unwrap().party_channels.contains_key(&idx)
}

fn outgoing(id: &str, recipient: MessageDestination, msg: &[u8]) -> WsEvent {
    WsEvent::Frame(Frame::Binary(Message {
        session_id: String::from(id),
        data: Data::Outgoing(Outgoing { recipient, msg: msg.to_vec() }),
    }))
}

fn incoming(msg: &[u8]) -> Incoming<Vec<u8>> {
    Incoming { id: 5, sender: 1, msg_type: MessageType::P2P, msg: msg.to_vec() }
}

#[test]
fn start_command_tells_the_party_its_index() {
    let (mut state, id) = session(&[1, 2, 3]);
    let mut connection = connect(&mut state, &id, 3);
    let WsAction::Send(message) = handle_ws(&mut connection, &mut state, WsEvent::Started(true))
    else {
        panic!("nothing is sent");
    };
    assert_eq!(message.session_id, id);
    let assignment = read_assignment(FirstFrame::Binary(message)).unwrap();
    assert_eq!(assignment, Assignment { i: 2, n: 3, session_type: SessionType::AuxInfoGen });
    assert!(is_connected(&state, &id, 2));
}

#[test]
fn first_answer_must_be_the_start_command() {
    let message = Message { session_id: String::from("s"), data: Data::Incoming(incoming(b"x")) };
    let error = read_assignment(FirstFrame::Binary(message)).unwrap_err();
    assert_eq!(error.message, "Expected SetPartyIdx message, got something else");
    assert!(error.causes.is_empty());
}

#[test]
fn first_answer_that_cannot_be_used() {
    let unreadable: FirstFrame<u8> = FirstFrame::Unreadable(String::from("expected value"));
    let error = read_assignment(unreadable).unwrap_err();
    assert_eq!(error.message, "Failed to parse initial message");
    assert_eq!(error.causes, vec!["expected value"]);
    let other: FirstFrame<u8> = FirstFrame::Other(String::from("Text(hi)"));
    let error = read_assignment(other).unwrap_err();
    assert_eq!(error.message, "unexpected response: Text(hi)");
    let failed: FirstFrame<u8> =
        FirstFrame::Failed(ErrorChain::context("IO error", String::from("connection reset")));
    let error = read_assignment(failed).unwrap_err();
    assert_eq!(error.message, "IO error");
    assert_eq!(error.causes, vec!["connection reset"]);
    let closed: FirstFrame<u8> = FirstFrame::Closed;
    assert_eq!(
        read_assignment(closed).unwrap_err().message,
        "Failed to read initial message from server"
    );
}

#[test]
fn jobs() {
    let assigned = |session_type| Assignment { i: 3, n: 4, session_type };
    let Some(Job::AuxInfo { file }) = job_for(assigned(SessionType::AuxInfoGen)) else {
        panic!("another job");
    };
    assert_eq!(file, "aux_info_3.json");
    let keygen = job_for(assigned(SessionType::KeyGen { threshold: 2 }));
    let Some(Job::KeyGen { threshold, aux_file }) = keygen else {
        panic!("another job");
    };
    assert_eq!(threshold, 2);
    assert_eq!(aux_file, "aux_info_3.json");
    assert!(job_for(assigned(SessionType::Signing)).is_none());
}

#[test]
fn inbox_goes_to_the_party() {
    let (mut state, id) = session(&[1, 2]);
    let mut connection = connect_started(&mut state, &id, 1);
    let event = WsEvent::Inbox(incoming(b"hello"));
    let WsAction::Send(message) = handle_ws(&mut connection, &mut state, event) else {
        panic!("nothing is sent");
    };
    assert_eq!(message.session_id, id);
    let Data::Incoming(got) = message.data else {
        panic!("no message for the party");
    };
    assert_eq!((got.id, got.sender, got.msg_type), (5, 1, MessageType::P2P));
    assert_eq!(got.msg, b"hello");
}

#[test]
fn broadcast_is_forwarded() {
    let (mut state, id) = session(&[1, 2, 3]);
    let mut connection = connect_started(&mut state, &id, 2);
    connect(&mut state, &id, 1);
    connect(&mut state, &id, 3);
    let event = outgoing(&id, MessageDestination::AllParties, b"hi");
    let WsAction::Forward { session_id, deliveries } =
        handle_ws(&mut connection, &mut state, event)
    else {
        panic!("nothing is forwarded");
    };
    assert_eq!(session_id, id);
    let to: BTreeSet<u16> = deliveries.iter().map(|d| d.to).collect();
    assert_eq!(to, BTreeSet::from([0, 2]));
    for (k, delivery) in deliveries.iter().enumerate() {
        assert_eq!(delivery.incoming.id, k as u64);
        assert_eq!(delivery.incoming.sender, 1);
        assert_eq!(delivery.incoming.msg_type, MessageType::Broadcast);
        assert_eq!(delivery.incoming.msg, b"hi");
    }
    assert_eq!(connection.router.next_id, 2);
}

#[test]
fn message_for_one_is_forwarded() {
    let (mut state, id) = session(&[1, 2, 3]);
    let mut connection = connect_started(&mut state, &id, 1);
    connect(&mut state, &id, 3);
    let event = outgoing(&id, MessageDestination::OneParty(2), b"hi");
    let WsAction::Forward { deliveries, .. } = handle_ws(&mut connection, &mut state, event) else {
        panic!("nothing is forwarded");
    };
    assert_eq!(deliveries.len(), 1);
    assert_eq!(deliveries[0].to, 2);
    assert_eq!(deliveries[0].incoming.msg_type, MessageType::P2P);
    let event = outgoing(&id, MessageDestination::OneParty(1), b"hi");
    let WsAction::Forward { deliveries, .. } = handle_ws(&mut connection, &mut state, event) else {
        panic!("nothing is forwarded");
    };
    assert!(deliveries.is_empty());
    assert_eq!(connection.router.next_id, 1);
}

#[test]
fn message_for_an_unknown_session() {
    let (mut state, id) = session(&[1, 2]);
    let mut connection = connect_started(&mut state, &id, 1);
    connect(&mut state, &id, 2);
    let event = outgoing("nowhere", MessageDestination::AllParties, b"hi");
    let WsAction::Forward { session_id, deliveries } =
        handle_ws(&mut connection, &mut state, event)
    else {
        panic!("nothing is forwarded");
    };
    assert_eq!(session_id, "nowhere");
    assert!(deliveries.is_empty());
    assert_eq!(connection.router.next_id, 0);
}

#[test]
fn what_is_not_for_others_is_passed_over() {
    let (mut state, id) = session(&[1]);
    let mut connection = connect_started(&mut state, &id, 1);
    let start = Message {
        session_id: id.clone(),
        data: Data::StartCmd { i: 0, n: 1, session_type: SessionType::Signing },
    };
    let handed = Message { session_id: id.clone(), data: Data::Incoming(incoming(b"x")) };
    for event in [
        WsEvent::Frame(Frame::Binary(start)),
        WsEvent::Frame(Frame::Binary(handed)),
        WsEvent::Frame(Frame::Other),
        WsEvent::Sent(true),
    ] {
        assert!(matches!(handle_ws(&mut connection, &mut state, event), WsAction::Continue));
        assert!(is_connected(&state, &id, 0));
    }
}

#[test]
fn every_end_frees_the_place() {
    for event in [
        WsEvent::Started(false),
        WsEvent::Sent(false),
        WsEvent::Frame(Frame::Close),
        WsEvent::Frame(Frame::Failed),
        WsEvent::Aborted,
    ] {
        let (mut state, id) = session(&[1, 2]);
        let mut connection = connect(&mut state, &id, 1);
        connect(&mut state, &id, 2);
        assert!(matches!(handle_ws(&mut connection, &mut state, event), WsAction::Stop));
        assert!(!is_connected(&state, &id, 0));
        assert!(is_connected(&state, &id, 1));
        assert_eq!(connect(&mut state, &id, 1).router.my_index, 0);
    }
}

#[test]
fn every_end_after_the_start_frees_the_place() {
    for event in [
        WsEvent::Started(false),
        WsEvent::Sent(false),
        WsEvent::Frame(Frame::Close),
        WsEvent::Frame(Frame::Failed),
        WsEvent::Aborted,
    ] {
        let (mut state, id) = session(&[1, 2]);
        let mut connection = connect_started(&mut state, &id, 1);
        assert!(matches!(handle_ws(&mut connection, &mut state, event), WsAction::Stop));
        assert!(!is_connected(&state, &id, 0));
    }
}

#[test]
fn nothing_is_served_before_the_start() {
    let (mut state, id) = session(&[1, 2]);
    let mut connection = connect(&mut state, &id, 1);
    connect(&mut state, &id, 2);
    assert!(!connection.started);
    let event = outgoing(&id, MessageDestination::AllParties, b"early");
    let WsAction::Hold(kept) = handle_ws(&mut connection, &mut state, event) else {
        panic!("the message is not kept");
    };
    let inbox = WsEvent::Inbox(incoming(b"early"));
    let action = handle_ws(&mut connection, &mut state, inbox);
    assert!(matches!(action, WsAction::Hold(WsEvent::Inbox(kept)) if kept.msg == b"early"));
    let other = handle_ws(&mut connection, &mut state, WsEvent::Frame(Frame::Other));
    assert!(matches!(other, WsAction::Hold(WsEvent::Frame(Frame::Other))));
    let sent = handle_ws(&mut connection, &mut state, WsEvent::Sent(true));
    assert!(matches!(sent, WsAction::Continue));
    assert!(!connection.started);
    assert_eq!(connection.router.next_id, 0);
    let start = handle_ws(&mut connection, &mut state, WsEvent::Started(true));
    assert!(matches!(start, WsAction::Send(_)));
    assert!(connection.started);
    let WsAction::Forward { deliveries, .. } = handle_ws(&mut connection, &mut state, kept) else {
        panic!("the kept message is not forwarded");
    };
    assert_eq!(deliveries.len(), 1);
    assert_eq!(deliveries[0].incoming.msg, b"early");
}

#[test]
fn start_is_told_once() {
    let (mut state, id) = session(&[1]);
    let mut connection = connect_started(&mut state, &id, 1);
    let again = handle_ws(&mut connection, &mut state, WsEvent::Started(true));
    assert!(matches!(again, WsAction::Continue));
    assert!(connection.started);
    assert!(is_connected(&state, &id, 0));
}

#[test]
fn end_after_the_session_is_gone() {
    let (mut state, id) = session(&[1]);
    let mut connection = connect(&mut state, &id, 1);
    let mut other: State = AppState::new();
    assert!(matches!(handle_ws(&mut connection, &mut other, WsEvent::Aborted), WsAction::Stop));
    assert!(is_connected(&state, &id, 0));
}

#[test]
fn transport_wraps_what_the_protocol_sends() {
    let event = TransportEvent::Outgoing(Outgoing {
        recipient: MessageDestination::OneParty(3),
        msg: vec![1, 2],
    });
    let TransportAction::Send(message) = handle_transport(&String::from("s"), event) else {
        panic!("nothing is sent");
    };
    assert_eq!(message.session_id, "s");
    let Data::Outgoing(out) = message.data else {
        panic!("no message for others");
    };
    assert_eq!(out.recipient, MessageDestination::OneParty(3));
    assert_eq!(out.msg, vec![1, 2]);
}

#[test]
fn transport_unwraps_what_the_manager_sends() {
    let message = Message { session_id: String::from("s"), data: Data::Incoming(incoming(b"x")) };
    let event = TransportEvent::Frame(ServerFrame::Binary(message));
    let TransportAction::Deliver(got) = handle_transport(&String::from("s"), event) else {
        panic!("nothing is delivered");
    };
    assert_eq!(got.msg, b"x");
    assert_eq!(got.id, 5);
}

#[test]
fn transport_passes_over_the_rest() {
    let start = Message {
        session_id: String::from("s"),
        data: Data::StartCmd { i: 0, n: 1, session_type: SessionType::Signing },
    };
    for event in [
        TransportEvent::Frame(ServerFrame::Binary(start)),
        TransportEvent::Frame(ServerFrame::Unreadable),
        TransportEvent::Frame(ServerFrame::Other),
        TransportEvent::Sent(true),
        TransportEvent::Delivered(true),
    ] {
        let action = handle_transport(&String::from("s"), event);
        assert!(matches!(action, TransportAction::Continue));
    }
}

#[test]
fn transport_ends() {
    for event in [
        TransportEvent::Frame(ServerFrame::Close),
        TransportEvent::Frame(ServerFrame::Failed),
        TransportEvent::Sent(false),
        TransportEvent::Delivered(false),
        TransportEvent::Drained,
    ] {
        let action = handle_transport(&String::from("s"), event);
        assert!(matches!(action, TransportAction::Stop));
    }
}

#[test]
fn message_arrives_unchanged() {
    let (mut state, id) = session(&[1, 2]);
    let mut sender = connect_started(&mut state, &id, 1);
    let mut receiver = connect_started(&mut state, &id, 2);
    let out = Outgoing { recipient: MessageDestination::AllParties, msg: vec![9, 8, 7] };
    let TransportAction::Send(message) = handle_transport(&id, TransportEvent::Outgoing(out)) else {
        panic!("nothing is sent");
    };
    let event = WsEvent::Frame(Frame::Binary(message));
    let WsAction::Forward { mut deliveries, .. } = handle_ws(&mut sender, &mut state, event) else {
        panic!("nothing is forwarded");
    };
    let delivery = deliveries.remove(0);
    assert_eq!(delivery.to, receiver.router.my_index);
    let event = WsEvent::Inbox(delivery.incoming);
    let WsAction::Send(message) = handle_ws(&mut receiver, &mut state, event) else {
        panic!("nothing is sent");
    };
    let event = TransportEvent::Frame(ServerFrame::Binary(message));
    let TransportAction::Deliver(got) = handle_transport(&id, event) else {
        panic!("nothing is delivered");
    };
    assert_eq!(got.msg, vec![9, 8, 7]);
    assert_eq!(got.sender, 0);
    assert_eq!(got.msg_type, MessageType::Broadcast);
}

#[test]
fn files_of_a_party() {
    assert_eq!(primes_file(0), "preg_0.json");
    assert_eq!(primes_file(65535), "preg_65535.json");
    assert_eq!(aux_info_file(12), "aux_info_12.json");
}

#[test]
fn url_of_a_session() {
    assert_eq!(
        session_url("localhost:10000", "abc"),
        "ws://localhost:10000/api/v1/session/abc/connect"
    );
}

#[test]
fn handshake_names_the_signer() {
    let signer = 0x0123_4567_89ab_cdef_0123_4567_89ab_cdef;
    let headers = handshake_headers("localhost:10000", signer, String::from("key"));
    let expected = [
        ("Host", "localhost:10000"),
        ("Connection", "Upgrade"),
        ("Upgrade", "websocket"),
        ("Sec-WebSocket-Version", "13"),
        ("Sec-WebSocket-Key", "key"),
        ("SIGNER-ID", "01234567-89ab-cdef-0123-456789abcdef"),
    ];
    assert_eq!(headers.len(), expected.len());
    let mut map = HeaderMap::new();
    for (header, (name, value)) in headers.iter().zip(expected) {
        assert_eq!((header.0.as_str(), header.1.as_str()), (name, value));
        map.insert(
            HeaderName::from_bytes(header.0.as_bytes()).unwrap(),
            HeaderValue::from_str(&header.1).unwrap(),
        );
    }
    assert!(matches!(signer_id(&map), Ok(id) if id == signer));
}
