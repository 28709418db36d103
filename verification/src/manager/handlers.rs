//! The requests that the manager serves.

use std::collections::{HashMap, HashSet};

use vstd::prelude::*;

use crate::error_chain::ErrorChain;
use crate::ids::{session_id, sorted_participants};
use crate::manager::error::{ErrorResponse, ErrorResponseView, Result};
use crate::manager::headers::{accept_signer, signer_id};
use crate::manager::ws::Connection;
use crate::manager::{AppState, SessionView};
use crate::protocol::SessionType;
use crate::router::Router;
use crate::uuids::parse_uuid;

verus! {

broadcast use vstd::std_specs::hash::group_hash_axioms;

/// How far a session has come.
#[derive(Debug, Clone, Copy, PartialEq, Eq, Structural)]
pub enum SessionStatus {
    Pending,
    Running,
    Done,
    Error,
}

/// What is known of a session besides who is connected.
pub struct SessionMetadata {
    /// The participants in increasing order; a participant's index as a party is
    /// its place here.
    pub participants: Vec<u128>,
    pub session_type: SessionType,
    pub tag: String,
    pub status: SessionStatus,
}

impl SessionMetadata {
    /// The place of a participant in the list.
    pub fn position(&self, signer: u128) -> (place: Option<usize>)
        ensures
            match place {
                Some(i) => i < self.participants@.len() && self.participants@[i as int] == signer
                    && forall|k: int| 0 <= k < i ==> self.participants@[k] != signer,
                None => !self.participants@.contains(signer),
            },
    {
        let mut i: usize = 0;
        while i < self.participants.len()
            invariant
                i <= self.participants.len(),
                forall|k: int| 0 <= k < i ==> self.participants@[k] != signer,
            decreases self.participants.len() - i,
        {
            if self.participants[i] == signer {
                return Some(i);
            }
            i += 1;
        }
        None
    }

    /// Whether someone takes part.
    pub fn has_participant(&self, signer: u128) -> (found: bool)
        ensures
            found == self.participants@.contains(signer),
    {
        self.position(signer).is_some()
    }
}

/// A session: its parties' handles and what is known of it.
pub struct SessionManager<S, C> {
    pub start_cmd: S,
    /// The handle of each connected party, under the party's index.
    pub party_channels: HashMap<u16, C>,
    pub metadata: SessionMetadata,
}

impl<S, C> View for SessionManager<S, C> {
    type V = SessionView<S, C>;

    open spec fn view(&self) -> SessionView<S, C> {
        SessionView {
            start_cmd: self.start_cmd,
            channels: self.party_channels@,
            participants: self.metadata.participants@,
            session_type: self.metadata.session_type,
            tag: self.metadata.tag@,
            status: self.metadata.status,
        }
    }
}

/// A request to open a session.
pub struct StartSessionRequest {
    pub tag: String,
    pub session_type: SessionType,
    pub participants: HashSet<u128>,
}

/// What a participant is told of a session.
pub struct SessionSummary {
    pub session_id: String,
    pub tag: String,
    pub status: SessionStatus,
}

/// The status of a request that succeeds.
pub const STATUS_OK: u16 = 200;

/// A session that has just been opened: nobody is connected.
pub open spec fn opened<S, C>(
    start_cmd: S,
    participants: Seq<u128>,
    session_type: SessionType,
    tag: Seq<char>,
) -> SessionView<S, C> {
    SessionView {
        start_cmd,
        channels: Map::empty(),
        participants,
        session_type,
        tag,
        status: SessionStatus::Pending,
    }
}

/// Opens a session under `session_id`, in place of any that stood there.
pub fn open_session<S, C>(
    state: &mut AppState<S, C>,
    session_id: String,
    start_cmd: S,
    participants: Vec<u128>,
    session_type: SessionType,
    tag: String,
)
    requires
        old(state).wf(),
        crate::ids::increasing(participants@),
    ensures
        final(state).wf(),
        final(state)@ == old(state)@.insert(
            session_id@,
            opened(start_cmd, participants@, session_type, tag@),
        ),
        final(state)@[session_id@].start_cmd == start_cmd,
        final(state)@[session_id@].channels == Map::<u16, C>::empty(),
        final(state)@[session_id@].participants == participants@,
        final(state)@[session_id@].session_type == session_type,
        final(state)@[session_id@].tag == tag@,
        final(state)@[session_id@].status == SessionStatus::Pending,
        forall|other: Seq<char>|
            other != session_id@ ==> {
                &&& #[trigger] final(state)@.contains_key(other) <==> old(state)@.contains_key(
                    other,
                )
                &&& final(state)@[other] == old(state)@[other]
            },
{
    let session = SessionManager {
        start_cmd,
        party_channels: HashMap::new(),
        metadata: SessionMetadata {
            participants,
            session_type,
            tag,
            status: SessionStatus::Pending,
        },
    };
    assert(session@ =~= opened(start_cmd, participants@, session_type, tag@));
    state.insert(session_id, session);
}

/// `POST /api/v1/session`: opens a session for the participants of the request
/// and gives its identifier.
pub fn create_session<S, C>(
    state: &mut AppState<S, C>,
    start_cmd: S,
    req: StartSessionRequest,
) -> (result: Result<String>)
    requires
        old(state).wf(),
    ensures
        final(state).wf(),
        result matches Ok(id) && {
            let participants = crate::ids::sorted_members(req.participants@);
            &&& crate::ids::lists(participants, req.participants@)
            &&& id@ == crate::ids::session_id_text(participants, req.session_type)
            &&& id@.len() == 64
            &&& final(state)@ == old(state)@.insert(
                id@,
                opened(start_cmd, participants, req.session_type, req.tag@),
            )
            &&& final(state)@.contains_key(id@)
            &&& final(state)@[id@].start_cmd == start_cmd
            &&& final(state)@[id@].channels == Map::<u16, C>::empty()
            &&& final(state)@[id@].participants.to_set() == req.participants@
            &&& forall|i: int, j: int|
                0 <= i < j < participants.len() ==> final(state)@[id@].participants[i]
                    < final(state)@[id@].participants[j]
            &&& final(state)@[id@].participants.len() == participants.len()
            &&& final(state)@[id@].session_type == req.session_type
            &&& final(state)@[id@].tag == req.tag@
            &&& final(state)@[id@].status == SessionStatus::Pending
        },
{
    let participants: Vec<u128> = sorted_participants(&req.participants);
    let id: String = session_id(&participants, req.session_type);
    open_session(state, id.clone(), start_cmd, participants, req.session_type, req.tag);
    Ok(id)
}

/// `GET /api/v1/sessions`: lists the sessions that the signer takes part in.
pub fn available_sessions<S, C>(
    state: &AppState<S, C>,
    headers: &http::HeaderMap<http::HeaderValue>,
) -> (result: Result<Vec<SessionSummary>>)
    requires
        state.wf(),
    ensures
        match crate::manager::headers::signer_named_by(
            crate::manager::headers::signer_header(*headers),
        ) {
            Ok(signer) => result matches Ok(listing) && crate::manager::lists_sessions(
                listing@,
                state@,
                signer,
            ),
            Err(error) => result matches Err(e) && e@ == error,
        },
{
    match signer_id(headers) {
        Ok(signer) => Ok(state.sessions_of(signer)),
        Err(error) => Err(error),
    }
}

/// The index of a participant as a party: its place in the list, as far as 16
/// bits hold it.
pub open spec fn party_index(participants: Seq<u128>, signer: u128) -> u16 {
    (participants.index_of(signer) % 65536) as u16
}

/// Why `signer` cannot connect to session `id`, if so.
pub open spec fn connect_refusal<S, C>(
    sessions: Map<Seq<char>, SessionView<S, C>>,
    id: Seq<char>,
    signer: u128,
) -> Option<ErrorResponseView> {
    if !sessions.contains_key(id) {
        Some(ErrorResponseView::NotFound(crate::manager::error::plain("no session found"@)))
    } else if !sessions[id].participants.contains(signer) {
        Some(
            ErrorResponseView::NotFound(
                crate::manager::error::plain("Signer is not a participant in this session"@),
            ),
        )
    } else if sessions[id].channels.contains_key(party_index(sessions[id].participants, signer)) {
        Some(
            ErrorResponseView::Conflict(
                crate::manager::error::plain("Party index already connected"@),
            ),
        )
    } else {
        None
    }
}

/// What comes of `signer` connecting to session `id` by `channel`: the refusal
/// and no change, or a connection that has not started and its channel.
pub open spec fn connects<S, C>(
    before: Map<Seq<char>, SessionView<S, C>>,
    after: Map<Seq<char>, SessionView<S, C>>,
    id: Seq<char>,
    signer: u128,
    channel: C,
    result: Result<Connection>,
) -> bool {
    match connect_refusal(before, id, signer) {
        Some(error) => {
            &&& result matches Err(e) && e@ == error
            &&& after == before
        },
        None => {
            let session = before[id];
            let idx = party_index(session.participants, signer);
            &&& result matches Ok(connection) && {
                &&& connection.session_id@ == id
                &&& connection.n == session.participants.len() % 65536
                &&& connection.session_type == session.session_type
                &&& connection.router == (Router { my_index: idx, next_id: 0 })
                &&& !connection.started
            }
            &&& after == before.insert(id, session.joined(idx, channel))
        },
    }
}

/// Connects `signer` to session `session_id` by `channel`.
pub fn connect_signer<S, C>(
    state: &mut AppState<S, C>,
    session_id: String,
    signer: u128,
    channel: C,
) -> (result: Result<Connection>)
    requires
        old(state).wf(),
    ensures
        final(state).wf(),
        connects(old(state)@, final(state)@, session_id@, signer, channel, result),
{
    let (place, n, session_type, taken) = match state.session(&session_id) {
        None => {
            return Err(ErrorResponse::NotFound(ErrorChain::msg("no session found")));
        },
        Some(session) => match session.metadata.position(signer) {
            None => {
                return Err(
                    ErrorResponse::NotFound(
                        ErrorChain::msg("Signer is not a participant in this session"),
                    ),
                );
            },
            Some(place) => {
                let idx: u16 = (place % 65536) as u16;
                (
                    idx,
                    (session.metadata.participants.len() % 65536) as u16,
                    session.metadata.session_type,
                    session.party_channels.contains_key(&idx),
                )
            },
        },
    };
    if taken {
        return Err(ErrorResponse::Conflict(ErrorChain::msg("Party index already connected")));
    }
    state.add_channel(&session_id, place, channel);
    Ok(Connection { session_id, n, session_type, router: Router::new(place), started: false })
}

/// `ANY /api/v1/session/{session_id}/connect`: connects the signer to a session
/// by `channel`.
pub fn connect_session<S, C>(
    state: &mut AppState<S, C>,
    session_id: String,
    headers: &http::HeaderMap<http::HeaderValue>,
    channel: C,
) -> (result: Result<Connection>)
    requires
        old(state).wf(),
    ensures
        final(state).wf(),
        match crate::manager::headers::signer_named_by(
            crate::manager::headers::signer_header(*headers),
        ) {
            Err(error) => {
                &&& result matches Err(e) && e@ == error
                &&& final(state)@ == old(state)@
            },
            Ok(signer) => connects(
                old(state)@,
                final(state)@,
                session_id@,
                signer,
                channel,
                result,
            ),
        },
{
    match signer_id(headers) {
        Ok(signer) => connect_signer(state, session_id, signer, channel),
        Err(error) => Err(error),
    }
}

/// Why a session cannot start, if so: a key generation wants at least as many
/// parties as its threshold, and every session wants all its participants.
pub open spec fn start_refusal<S, C>(session: SessionView<S, C>) -> Option<ErrorResponseView> {
    if session.session_type matches SessionType::KeyGen { threshold } && session.channels.len()
        < threshold {
        Some(
            ErrorResponseView::Conflict(
                crate::manager::error::plain(
                    "won't run session, not enough participants for threshold"@,
                ),
            ),
        )
    } else if session.channels.len() != session.participants.len() {
        Some(
            ErrorResponseView::Conflict(
                crate::manager::error::plain("won't run session, not all participants connected"@),
            ),
        )
    } else {
        None
    }
}

impl<S, C> SessionManager<S, C> {
    /// Checks that the session can start.
    pub fn check_start(&self) -> (result: Result<()>)
        ensures
            match start_refusal(self@) {
                Some(error) => result matches Err(e) && e@ == error,
                None => result is Ok,
            },
    {
        let connected: usize = self.party_channels.len();
        if let SessionType::KeyGen { threshold } = self.metadata.session_type {
            if connected < threshold as usize {
                return Err(
                    ErrorResponse::Conflict(
                        ErrorChain::msg("won't run session, not enough participants for threshold"),
                    ),
                );
            }
        }
        if connected != self.metadata.participants.len() {
            return Err(
                ErrorResponse::Conflict(
                    ErrorChain::msg("won't run session, not all participants connected"),
                ),
            );
        }
        Ok(())
    }
}

/// `POST /api/v1/session/{session_id}/start`: has the start command of a session
/// sent and marks the session as running. `send` sends the command by the
/// session's handle, or says what went wrong. It may be called for a session
/// that can start and for no other.
pub fn start_session<S, C, F: FnOnce(&S) -> std::result::Result<(), String>>(
    state: &mut AppState<S, C>,
    session_id: &String,
    send: F,
) -> (result: Result<u16>)
    requires
        old(state).wf(),
        old(state)@.contains_key(session_id@) && start_refusal(old(state)@[session_id@]) is None
            ==> call_requires(send, (&old(state)@[session_id@].start_cmd,)),
    ensures
        final(state).wf(),
        !old(state)@.contains_key(session_id@) ==> {
            &&& result matches Err(e) && e@ == ErrorResponseView::NotFound(
                crate::manager::error::plain("no session found"@),
            )
            &&& final(state)@ == old(state)@
        },
        old(state)@.contains_key(session_id@) ==> match start_refusal(old(state)@[session_id@]) {
            Some(error) => {
                &&& result matches Err(e) && e@ == error
                &&& final(state)@ == old(state)@
            },
            None => exists|sent: std::result::Result<(), String>| #[trigger]
                call_ensures(send, (&old(state)@[session_id@].start_cmd,), sent) && match sent {
                    Ok(_) => {
                        &&& result matches Ok(status) && status == 200
                        &&& final(state)@ == old(state)@.insert(
                            session_id@,
                            old(state)@[session_id@].marked(SessionStatus::Running),
                        )
                        &&& final(state)@[session_id@].status == SessionStatus::Running
                        &&& final(state)@[session_id@].channels == old(state)@[session_id@].channels
                        &&& final(state)@[session_id@].participants
                            == old(state)@[session_id@].participants
                        &&& final(state)@[session_id@].session_type
                            == old(state)@[session_id@].session_type
                        &&& final(state)@[session_id@].tag == old(state)@[session_id@].tag
                        &&& final(state)@[session_id@].start_cmd
                            == old(state)@[session_id@].start_cmd
                    },
                    Err(words) => {
                        &&& result matches Err(e) && e@ == ErrorResponseView::Unexpected(
                            crate::manager::error::caused("failed to send start cmd"@, words@),
                        )
                        &&& final(state)@ == old(state)@
                    },
                },
        },
{
    let sent: std::result::Result<(), String> = match state.session(session_id) {
        None => {
            return Err(ErrorResponse::NotFound(ErrorChain::msg("no session found")));
        },
        Some(session) => match session.check_start() {
            Err(error) => {
                return Err(error);
            },
            Ok(_) => send(&session.start_cmd),
        },
    };
    match sent {
        Ok(_) => {
            state.set_status(session_id, SessionStatus::Running);
            Ok(STATUS_OK)
        },
        Err(words) => {
            Err(ErrorResponse::Unexpected(ErrorChain::context("failed to send start cmd", words)))
        },
    }
}

/// `GET /ws/connect/{session_id}/{party_id}`: connects a party, named by its
/// UUID, to a session by `channel`.
pub fn connect_ws<S, C>(
    state: &mut AppState<S, C>,
    session_id: String,
    party_id: &String,
    channel: C,
) -> (result: Result<Connection>)
    requires
        old(state).wf(),
    ensures
        final(state).wf(),
        match crate::manager::headers::accepted(crate::uuids::parsed_uuid(party_id@)) {
            Err(error) => {
                &&& result matches Err(e) && e@ == error
                &&& final(state)@ == old(state)@
            },
            Ok(party) => connects(
                old(state)@,
                final(state)@,
                session_id@,
                party,
                channel,
                result,
            ),
        },
{
    match accept_signer(parse_uuid(party_id)) {
        Ok(party) => connect_signer(state, session_id, party, channel),
        Err(error) => Err(error),
    }
}

/// `GET /api/v1/session/{session_id}/status`: tells how far a session has come.
pub fn session_status<S, C>(state: &AppState<S, C>, session_id: &String) -> (result: Result<
    SessionStatus,
>)
    requires
        state.wf(),
    ensures
        match result {
            Ok(status) => state@.contains_key(session_id@) && status == state@[session_id@].status,
            Err(e) => !state@.contains_key(session_id@) && e@ == ErrorResponseView::NotFound(
                crate::manager::error::plain("no session found"@),
            ),
        },
{
    match state.session(session_id) {
        Some(session) => Ok(session.metadata.status),
        None => Err(ErrorResponse::NotFound(ErrorChain::msg("no session found"))),
    }
}

} // verus!
