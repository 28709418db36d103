use std::collections::HashSet;

use http::{HeaderMap, HeaderValue};
use mpc::manager::error::{ErrorResponse, Result};
use mpc::manager::handlers::{
    available_sessions, connect_session, connect_signer, connect_ws, create_session, open_session,
    session_status, start_session, SessionStatus, SessionSummary, StartSessionRequest, STATUS_OK,
};
use mpc::manager::headers::{accept_signer, signer_id};
use mpc::manager::ws::Connection;
use mpc::manager::{listen_address, AppState, PORT};
use mpc::protocol::SessionType;

type State = AppState<&'static str, u32>;

fn request(tag: &str, session_type: SessionType, ids: &[u128]) -> StartSessionRequest {
    StartSessionRequest {
        tag: String::from(tag),
        session_type,
        participants: ids.iter().copied().collect::<HashSet<u128>>(),
    }
}

fn done<T>(result: Result<T>) -> T {
    match result {
        Ok(value) => value,
        Err(error) => panic!("{}", error.debug_text()),
    }
}

fn refused<T>(result: Result<T>) -> ErrorResponse {
    match result {
        Ok(_) => panic!("no error"),
        Err(error) => error,
    }
}

fn create(state: &mut State, session_type: SessionType, ids: &[u128]) -> String {
    done(create_session(state, "start", request("tag", session_type, ids)))
}

fn connect(state: &mut State, id: &str, signer: u128, channel: u32) -> Connection {
    done(connect_signer(state, String::from(id), signer, channel))
}

fn sent(_: &&'static str) -> std::result::Result<(), String> {
    Ok(())
}

fn not_sent(_: &&'static str) -> std::result::Result<(), String> {
    Err(String::from("channel closed"))
}

fn signed_by(text: &[u8]) -> HeaderMap {
    let mut headers = HeaderMap::new();
    headers.insert("SIGNER-ID", HeaderValue::from_bytes(text).unwrap());
    headers
}

fn status_of(state: &State, id: &str) -> SessionStatus {
    state.session(&String::from(id)).unwrap().metadata.status
}

#[test]
fn listens_at_the_port() {
    assert_eq!(listen_address(PORT), "127.0.0.1:10000");
}

#[test]
fn created_session_is_pending_and_empty() {
    let mut state: State = AppState::new();
    let id = create(&mut state, SessionType::AuxInfoGen, &[3, 1, 2]);
    assert_eq!(id, "af5498094f9c8b7bb8cb3f221c9199a059e3cbf9bf7b38d0997773ef15563560");
    let session = state.session(&id).unwrap();
    assert_eq!(session.start_cmd, "start");
    assert!(session.party_channels.is_empty());
    assert_eq!(session.metadata.participants, vec![1, 2, 3]);
    assert_eq!(session.metadata.session_type, SessionType::AuxInfoGen);
    assert_eq!(session.metadata.tag, "tag");
    assert_eq!(session.metadata.status, SessionStatus::Pending);
}

#[test]
fn absent_session() {
    let mut state: State = AppState::new();
    assert!(state.session(&String::from("nowhere")).is_none());
    create(&mut state, SessionType::Signing, &[1]);
    assert!(state.session(&String::from("nowhere")).is_none());
}

#[test]
fn same_request_leads_to_the_same_session() {
    let mut state: State = AppState::new();
    let a = done(create_session(&mut state, "one", request("a", SessionType::Signing, &[2, 1])));
    connect(&mut state, &a, 1, 10);
    let b = done(create_session(&mut state, "two", request("b", SessionType::Signing, &[1, 2])));
    assert_eq!(a, b);
    let session = state.session(&b).unwrap();
    assert_eq!(session.metadata.tag, "b");
    assert_eq!(session.start_cmd, "two");
    assert!(session.party_channels.is_empty());
    let c = create(&mut state, SessionType::AuxInfoGen, &[1, 2]);
    let d = create(&mut state, SessionType::Signing, &[1, 2, 3]);
    assert!(a != c && a != d && c != d);
}

#[test]
fn signer_of_a_request() {
    let text = "01234567-89ab-cdef-0123-456789abcdef";
    let id = 0x0123_4567_89ab_cdef_0123_4567_89ab_cdef;
    assert_eq!(done(signer_id(&signed_by(text.as_bytes()))), id);
    assert_eq!(done(signer_id(&signed_by(b"0123456789ABCDEF0123456789abcdef"))), id);
    assert_eq!(done(signer_id(&signed_by(b"{01234567-89ab-cdef-0123-456789abcdef}"))), id);
    assert_eq!(
        done(signer_id(&signed_by(b"urn:uuid:01234567-89ab-cdef-0123-456789abcdef"))),
        id
    );
    let mut twice = signed_by(text.as_bytes());
    twice.append("signer-id", HeaderValue::from_static("garbage"));
    assert_eq!(done(signer_id(&twice)), id);
}

#[test]
fn request_without_signer() {
    let error = refused(signer_id(&HeaderMap::new()));
    assert!(matches!(error, ErrorResponse::Unauthorized(_)));
    assert_eq!(error.debug_text(), "No such account\n\nCaused by:\n\tno signer-id\n");
    let reply = error.into_response();
    assert_eq!(reply.status, 401);
    assert_eq!(reply.body, "");
}

#[test]
fn signer_that_is_no_text() {
    let error = refused(signer_id(&signed_by(&[0xff, 0x80])));
    assert_eq!(
        error.debug_text(),
        "Bad request\n\nCaused by:\n\tcan't repr SIGNER-ID as string\nCaused by:\n\tfailed to convert header to a str\n"
    );
    let reply = error.into_response();
    assert_eq!(reply.status, 400);
    assert_eq!(reply.content_type, None);
    assert_eq!(reply.body, "can't repr SIGNER-ID as string");
}

#[test]
fn signer_that_is_no_uuid() {
    let words = "x".parse::<uuid::Uuid>().unwrap_err().to_string();
    let error = refused(signer_id(&signed_by(b"x")));
    assert_eq!(
        error.debug_text(),
        format!("Bad request\n\nCaused by:\n\tcan't parse uuid\nCaused by:\n\t{words}\n")
    );
    assert_eq!(error.into_response().body, "can't parse uuid");
    assert_eq!(refused(signer_id(&signed_by(b""))).into_response().status, 400);
}

#[test]
fn identifier_that_was_read() {
    assert_eq!(done(accept_signer(Ok(7))), 7);
    let error = refused(accept_signer(Err(String::from("too short"))));
    assert_eq!(error.chain().causes, vec!["can't parse uuid", "too short"]);
}

#[test]
fn sessions_are_shown_to_their_participants() {
    let mut state: State = AppState::new();
    let a = done(create_session(&mut state, "s", request("a", SessionType::Signing, &[1, 2])));
    let b = done(create_session(&mut state, "s", request("b", SessionType::Signing, &[2, 3])));
    let shown = |state: &State, signer: &[u8]| -> Vec<SessionSummary> {
        let mut listing = done(available_sessions(state, &signed_by(signer)));
        listing.sort_by(|x, y| x.tag.cmp(&y.tag));
        listing
    };
    let one = shown(&state, b"00000000-0000-0000-0000-000000000001");
    assert_eq!(one.len(), 1);
    assert_eq!(one[0].session_id, a);
    assert_eq!(one[0].tag, "a");
    assert_eq!(one[0].status, SessionStatus::Pending);
    let two = shown(&state, b"00000000-0000-0000-0000-000000000002");
    assert_eq!(two.len(), 2);
    assert_eq!(two[0].session_id, a);
    assert_eq!(two[1].session_id, b);
    assert!(shown(&state, b"00000000-0000-0000-0000-000000000009").is_empty());
    connect(&mut state, &b, 2, 20);
    connect(&mut state, &b, 3, 30);
    done(start_session(&mut state, &b, sent));
    let three = shown(&state, b"00000000-0000-0000-0000-000000000003");
    assert_eq!(three.len(), 1);
    assert_eq!(three[0].status, SessionStatus::Running);
}

#[test]
fn listing_needs_a_signer() {
    let state: State = AppState::new();
    let error = refused(available_sessions(&state, &HeaderMap::new()));
    assert!(matches!(error, ErrorResponse::Unauthorized(_)));
}

#[test]
fn participant_connects() {
    let mut state: State = AppState::new();
    let id = create(&mut state, SessionType::KeyGen { threshold: 2 }, &[30, 10, 20]);
    let connection = done(connect_session(
        &mut state,
        id.clone(),
        &signed_by(b"00000000-0000-0000-0000-000000000014"),
        77,
    ));
    assert_eq!(connection.session_id, id);
    assert_eq!(connection.n, 3);
    assert_eq!(connection.session_type, SessionType::KeyGen { threshold: 2 });
    assert_eq!(connection.router.my_index, 1);
    assert_eq!(connection.router.next_id, 0);
    let channels = &state.session(&id).unwrap().party_channels;
    assert_eq!(channels.len(), 1);
    assert_eq!(channels[&1], 77);
}

#[test]
fn connecting_needs_a_signer() {
    let mut state: State = AppState::new();
    let id = create(&mut state, SessionType::Signing, &[1]);
    let error = refused(connect_session(&mut state, id.clone(), &HeaderMap::new(), 1));
    assert!(matches!(error, ErrorResponse::Unauthorized(_)));
    assert!(state.session(&id).unwrap().party_channels.is_empty());
}

#[test]
fn connecting_to_no_session() {
    let mut state: State = AppState::new();
    let reply = refused(connect_signer(&mut state, String::from("x"), 1, 1)).into_response();
    assert_eq!(reply.status, 404);
    assert_eq!(reply.content_type, Some(String::from("application/json")));
    assert_eq!(reply.body, "{\"what\":\"no session found\"}");
}

#[test]
fn stranger_cannot_connect() {
    let mut state: State = AppState::new();
    let id = create(&mut state, SessionType::Signing, &[1, 2]);
    let reply = refused(connect_signer(&mut state, id.clone(), 3, 1)).into_response();
    assert_eq!(reply.status, 404);
    assert_eq!(reply.body, "{\"what\":\"Signer is not a participant in this session\"}");
    assert!(state.session(&id).unwrap().party_channels.is_empty());
}

#[test]
fn nobody_connects_twice() {
    let mut state: State = AppState::new();
    let id = create(&mut state, SessionType::Signing, &[1, 2]);
    connect(&mut state, &id, 2, 20);
    let reply = refused(connect_signer(&mut state, id.clone(), 2, 21)).into_response();
    assert_eq!(reply.status, 409);
    assert_eq!(reply.body, "Party index already connected");
    assert_eq!(state.session(&id).unwrap().party_channels[&1], 20);
}

#[test]
fn leaving_undoes_connecting() {
    let mut state: State = AppState::new();
    let id = create(&mut state, SessionType::Signing, &[1, 2]);
    connect(&mut state, &id, 1, 10);
    connect(&mut state, &id, 2, 20);
    state.remove_channel(&id, 1);
    let channels = &state.session(&id).unwrap().party_channels;
    assert_eq!(channels.len(), 1);
    assert_eq!(channels[&0], 10);
    assert_eq!(connect(&mut state, &id, 2, 22).router.my_index, 1);
    state.remove_channel(&String::from("nowhere"), 0);
    assert_eq!(state.session(&id).unwrap().party_channels.len(), 2);
}

#[test]
fn indices_are_places_in_the_list() {
    let mut state: State = AppState::new();
    let ids: Vec<u128> = (0..50).map(|i| 1000 - 7 * i).collect();
    let id = create(&mut state, SessionType::Signing, &ids);
    for (k, signer) in ids.iter().rev().enumerate() {
        assert_eq!(connect(&mut state, &id, *signer, 0).router.my_index, k as u16);
    }
    done(start_session(&mut state, &id, sent));
}

#[test]
fn too_many_participants_share_indices() {
    let mut state: State = AppState::new();
    let all: Vec<u128> = (0..65537).collect();
    open_session(
        &mut state,
        String::from("big"),
        "s",
        all,
        SessionType::Signing,
        String::from("tag"),
    );
    let connection = connect(&mut state, "big", 0, 1);
    assert_eq!(connection.n, 1);
    assert_eq!(connection.router.my_index, 0);
    let error = refused(connect_signer(&mut state, String::from("big"), 65536, 1));
    assert!(matches!(error, ErrorResponse::Conflict(_)));
}

#[test]
fn session_starts_when_all_are_there() {
    let mut state: State = AppState::new();
    let id = create(&mut state, SessionType::AuxInfoGen, &[1, 2]);
    connect(&mut state, &id, 1, 10);
    let reply = refused(start_session(&mut state, &id, sent)).into_response();
    assert_eq!(reply.status, 409);
    assert_eq!(reply.body, "won't run session, not all participants connected");
    assert_eq!(status_of(&state, &id), SessionStatus::Pending);
    connect(&mut state, &id, 2, 20);
    assert_eq!(done(start_session(&mut state, &id, sent)), STATUS_OK);
    assert_eq!(status_of(&state, &id), SessionStatus::Running);
}

#[test]
fn start_command_goes_to_the_session() {
    let mut state: State = AppState::new();
    let id = create(&mut state, SessionType::AuxInfoGen, &[1]);
    connect(&mut state, &id, 1, 10);
    let mut seen: Vec<&'static str> = vec![];
    done(start_session(&mut state, &id, |start: &&'static str| {
        seen.push(*start);
        Ok(())
    }));
    assert_eq!(seen, vec!["start"]);
}

#[test]
fn key_generation_wants_its_threshold() {
    let mut state: State = AppState::new();
    let id = create(&mut state, SessionType::KeyGen { threshold: 2 }, &[1, 2, 3]);
    connect(&mut state, &id, 1, 10);
    assert_eq!(
        refused(start_session(&mut state, &id, sent)).into_response().body,
        "won't run session, not enough participants for threshold"
    );
    connect(&mut state, &id, 2, 20);
    assert_eq!(
        refused(start_session(&mut state, &id, sent)).into_response().body,
        "won't run session, not all participants connected"
    );
    connect(&mut state, &id, 3, 30);
    assert_eq!(done(start_session(&mut state, &id, sent)), 200);
}

#[test]
fn threshold_above_the_participants() {
    let mut state: State = AppState::new();
    let id = create(&mut state, SessionType::KeyGen { threshold: 3 }, &[1, 2]);
    connect(&mut state, &id, 1, 10);
    connect(&mut state, &id, 2, 20);
    let error = refused(start_session(&mut state, &id, sent));
    assert!(matches!(error, ErrorResponse::Conflict(_)));
}

#[test]
fn start_of_no_session() {
    let mut state: State = AppState::new();
    let reply = refused(start_session(&mut state, &String::from("x"), sent)).into_response();
    assert_eq!(reply.status, 404);
    assert_eq!(reply.body, "{\"what\":\"no session found\"}");
}

#[test]
fn start_command_that_cannot_be_sent() {
    let mut state: State = AppState::new();
    let id = create(&mut state, SessionType::Signing, &[]);
    let error = refused(start_session(&mut state, &id, not_sent));
    assert!(matches!(error, ErrorResponse::Unexpected(_)));
    assert_eq!(
        error.debug_text(),
        "failed to send start cmd\n\nCaused by:\n\tchannel closed\n"
    );
    assert_eq!(error.into_response().status, 500);
    assert_eq!(status_of(&state, &id), SessionStatus::Pending);
}

#[test]
fn sessions_do_not_disturb_each_other() {
    let mut state: State = AppState::new();
    let a = create(&mut state, SessionType::AuxInfoGen, &[1]);
    let b = create(&mut state, SessionType::Signing, &[1]);
    connect(&mut state, &a, 1, 10);
    done(start_session(&mut state, &a, sent));
    assert_eq!(status_of(&state, &b), SessionStatus::Pending);
    assert!(state.session(&b).unwrap().party_channels.is_empty());
    connect(&mut state, &b, 1, 11);
    state.remove_channel(&a, 0);
    assert_eq!(state.session(&b).unwrap().party_channels[&0], 11);
}

#[test]
fn status_of_a_session() {
    let mut state: State = AppState::new();
    let a = create(&mut state, SessionType::Signing, &[1]);
    let b = create(&mut state, SessionType::AuxInfoGen, &[1]);
    assert_eq!(done(session_status(&state, &a)), SessionStatus::Pending);
    connect(&mut state, &a, 1, 10);
    done(start_session(&mut state, &a, sent));
    assert_eq!(done(session_status(&state, &a)), SessionStatus::Running);
    assert_eq!(done(session_status(&state, &b)), SessionStatus::Pending);
}

#[test]
fn status_of_no_session() {
    let state: State = AppState::new();
    let reply = refused(session_status(&state, &String::from("x"))).into_response();
    assert_eq!(reply.status, 404);
    assert_eq!(reply.body, "{\"what\":\"no session found\"}");
}

#[test]
fn party_connects_by_its_name() {
    let mut state: State = AppState::new();
    let id = create(&mut state, SessionType::Signing, &[10, 20]);
    let party = String::from("00000000-0000-0000-0000-000000000014");
    let connection = done(connect_ws(&mut state, id.clone(), &party, 5));
    assert_eq!(connection.session_id, id);
    assert_eq!(connection.n, 2);
    assert_eq!(connection.router.my_index, 1);
    assert!(!connection.started);
    assert_eq!(state.session(&id).unwrap().party_channels[&1], 5);
    let again = refused(connect_ws(&mut state, id.clone(), &party, 6));
    assert!(matches!(again, ErrorResponse::Conflict(_)));
    assert_eq!(state.session(&id).unwrap().party_channels[&1], 5);
}

#[test]
fn party_that_cannot_connect_by_its_name() {
    let mut state: State = AppState::new();
    let id = create(&mut state, SessionType::Signing, &[10, 20]);
    let stranger = String::from("00000000-0000-0000-0000-000000000001");
    let reply = refused(connect_ws(&mut state, id.clone(), &stranger, 5)).into_response();
    assert_eq!(reply.body, "{\"what\":\"Signer is not a participant in this session\"}");
    let lost = refused(connect_ws(&mut state, String::from("x"), &stranger, 5)).into_response();
    assert_eq!(lost.body, "{\"what\":\"no session found\"}");
    let unnamed = refused(connect_ws(&mut state, id.clone(), &String::from("1"), 5));
    assert!(matches!(unnamed, ErrorResponse::BadRequest(_)));
    assert_eq!(unnamed.into_response().body, "can't parse uuid");
    assert!(state.session(&id).unwrap().party_channels.is_empty());
}

#[test]
fn refused_start_sends_nothing() {
    let mut state: State = AppState::new();
    let id = create(&mut state, SessionType::AuxInfoGen, &[1, 2]);
    connect(&mut state, &id, 1, 10);
    let mut signals = 0;
    let error = refused(start_session(&mut state, &id, |_: &&'static str| {
        signals += 1;
        Ok(())
    }));
    assert!(matches!(error, ErrorResponse::Conflict(_)));
    assert_eq!(signals, 0);
}
