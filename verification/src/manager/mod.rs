//! The manager of the sessions.

pub mod error;
pub mod handlers;
pub mod headers;
pub mod laws;
pub mod ws;

use vstd::prelude::*;
use vstd::string::StringExecFns;

use crate::manager::handlers::{SessionManager, SessionStatus, SessionSummary};
use crate::text::decimal_string;

verus! {

broadcast use vstd::std_specs::hash::group_hash_axioms;

/// The port at which the manager listens.
pub const PORT: u16 = 10000;

/// The address at which the manager listens on a port.
pub fn listen_address(port: u16) -> (address: String)
    ensures
        address@ == "127.0.0.1:"@ + crate::text::decimal(port as nat),
{
    "127.0.0.1:".to_owned().concat(decimal_string(port as u64).as_str())
}

/// A session under its identifier.
struct Entry<S, C> {
    id: String,
    session: SessionManager<S, C>,
}

/// All sessions of the manager. No two of them share an identifier.
///
/// `S` is the handle by which a session's start command is sent, `C` the one by
/// which messages are sent to a connected party.
pub struct AppState<S, C> {
    sessions: Vec<Entry<S, C>>,
}

/// A session by its characters and values.
#[verifier::ext_equal]
#[verifier::reject_recursive_types(S)]
#[verifier::reject_recursive_types(C)]
pub struct SessionView<S, C> {
    pub start_cmd: S,
    /// The parties that are connected.
    pub channels: Map<u16, C>,
    pub participants: Seq<u128>,
    pub session_type: crate::protocol::SessionType,
    pub tag: Seq<char>,
    pub status: SessionStatus,
}

impl<S, C> SessionView<S, C> {
    /// The participants are listed in increasing order, and every connected
    /// party is one of them.
    pub open spec fn wf(self) -> bool {
        &&& crate::ids::increasing(self.participants)
        &&& self.channels.dom().finite()
        &&& forall|idx: u16| #[trigger]
            self.channels.contains_key(idx) ==> idx < self.participants.len()
    }

    /// The session with party `idx` connected by `channel`.
    pub open spec fn joined(self, idx: u16, channel: C) -> Self {
        SessionView { channels: self.channels.insert(idx, channel), ..self }
    }

    /// The session with party `idx` gone.
    pub open spec fn left(self, idx: u16) -> Self {
        SessionView { channels: self.channels.remove(idx), ..self }
    }

    /// The session with another status.
    pub open spec fn marked(self, status: SessionStatus) -> Self {
        SessionView { status, ..self }
    }
}

/// The sessions with party `idx` of session `id` gone, if there is such a session.
pub open spec fn disconnected<S, C>(
    sessions: Map<Seq<char>, SessionView<S, C>>,
    id: Seq<char>,
    idx: u16,
) -> Map<Seq<char>, SessionView<S, C>> {
    if sessions.contains_key(id) {
        sessions.insert(id, sessions[id].left(idx))
    } else {
        sessions
    }
}

/// `listing` tells of each session that `signer` takes part in, once, and of no
/// other session. The order is open.
pub open spec fn lists_sessions<S, C>(
    listing: Seq<SessionSummary>,
    sessions: Map<Seq<char>, SessionView<S, C>>,
    signer: u128,
) -> bool {
    &&& forall|i: int|
        0 <= i < listing.len() ==> {
            let item = #[trigger] listing[i];
            &&& sessions.contains_key(item.session_id@)
            &&& sessions[item.session_id@].participants.contains(signer)
            &&& item.tag@ == sessions[item.session_id@].tag
            &&& item.status == sessions[item.session_id@].status
        }
    &&& forall|i: int, j: int|
        0 <= i < j < listing.len() ==> (#[trigger] listing[i]).session_id@ != (
        #[trigger] listing[j]).session_id@
    &&& forall|id: Seq<char>| #[trigger]
        sessions.contains_key(id) && sessions[id].participants.contains(signer) ==> exists|i: int|
            0 <= i < listing.len() && (#[trigger] listing[i]).session_id@ == id
}

impl<S, C> View for AppState<S, C> {
    type V = Map<Seq<char>, SessionView<S, C>>;

    closed spec fn view(&self) -> Map<Seq<char>, SessionView<S, C>> {
        Map::new(
            |id: Seq<char>| exists|i: int| self.is_at(id, i),
            |id: Seq<char>| self.sessions@[choose|i: int| self.is_at(id, i)].session@,
        )
    }
}

impl<S, C> AppState<S, C> {
    /// The session `id` stands at place `i`.
    spec fn is_at(&self, id: Seq<char>, i: int) -> bool {
        0 <= i < self.sessions@.len() && self.sessions@[i].id@ == id
    }

    /// No identifier occurs twice.
    pub closed spec fn distinct(&self) -> bool {
        forall|i: int, j: int|
            0 <= i < j < self.sessions@.len() ==> self.sessions@[i].id@ != self.sessions@[j].id@
    }

    /// Every identifier occurs once and every session is well-formed.
    pub open spec fn wf(&self) -> bool {
        &&& self.distinct()
        &&& forall|id: Seq<char>| #[trigger] self@.contains_key(id) ==> self@[id].wf()
    }

    proof fn lemma_at(&self, i: int)
        requires
            self.distinct(),
            0 <= i < self.sessions@.len(),
        ensures
            self@.contains_key(self.sessions@[i].id@),
            self@[self.sessions@[i].id@] == self.sessions@[i].session@,
    {
        let id = self.sessions@[i].id@;
        assert(self.is_at(id, i));
        let j = choose|j: int| self.is_at(id, j);
        assert(self.is_at(id, j));
    }

    /// Replacing the session at place `i` changes what stands under its identifier.
    proof fn lemma_replaced(&self, before: &Self, i: int)
        requires
            before.distinct(),
            0 <= i < before.sessions@.len(),
            self.sessions@.len() == before.sessions@.len(),
            forall|k: int|
                0 <= k < before.sessions@.len() ==> (#[trigger] self.sessions@[k]).id@
                    == before.sessions@[k].id@,
            forall|k: int|
                0 <= k < before.sessions@.len() && k != i ==> (
                #[trigger] self.sessions@[k]).session@ == before.sessions@[k].session@,
        ensures
            self.distinct(),
            self@ == before@.insert(before.sessions@[i].id@, self.sessions@[i].session@),
    {
        let want = before@.insert(before.sessions@[i].id@, self.sessions@[i].session@);
        assert forall|id: Seq<char>| self@.contains_key(id) == want.contains_key(id) by {
            if self@.contains_key(id) {
                let k = choose|k: int| self.is_at(id, k);
                assert(before.is_at(id, k));
            }
            if want.contains_key(id) {
                if before@.contains_key(id) {
                    let k = choose|k: int| before.is_at(id, k);
                    assert(self.sessions@[k].id@ == id);
                    assert(self.is_at(id, k));
                } else {
                    assert(self.is_at(id, i));
                }
            }
        }
        assert forall|id: Seq<char>| self@.contains_key(id) implies self@[id] == want[id] by {
            let k = choose|k: int| self.is_at(id, k);
            self.lemma_at(k);
            before.lemma_at(k);
        }
        assert(self@ =~= want);
    }

    /// A manager without sessions.
    pub fn new() -> (state: Self)
        ensures
            state.wf(),
            state@ == Map::<Seq<char>, SessionView<S, C>>::empty(),
    {
        let state = AppState { sessions: Vec::new() };
        assert(state@ =~= Map::<Seq<char>, SessionView<S, C>>::empty());
        state
    }

    /// Looks for the place of a session.
    fn find(&self, id: &String) -> (place: Option<usize>)
        requires
            self.distinct(),
        ensures
            match place {
                Some(i) => self.is_at(id@, i as int) && self@.contains_key(id@) && self@[id@]
                    == self.sessions@[i as int].session@,
                None => !self@.contains_key(id@),
            },
    {
        let mut i: usize = 0;
        while i < self.sessions.len()
            invariant
                i <= self.sessions.len(),
                self.distinct(),
                forall|k: int| 0 <= k < i ==> (#[trigger] self.sessions@[k]).id@ != id@,
            decreases self.sessions.len() - i,
        {
            if self.sessions[i].id.eq(id) {
                proof {
                    self.lemma_at(i as int);
                }
                return Some(i);
            }
            i += 1;
        }
        None
    }

    /// The session `id`.
    pub fn session(&self, id: &String) -> (session: Option<&SessionManager<S, C>>)
        requires
            self.wf(),
        ensures
            match session {
                Some(session) => self@.contains_key(id@) && session@ == self@[id@],
                None => !self@.contains_key(id@),
            },
    {
        match self.find(id) {
            Some(i) => Some(&self.sessions[i].session),
            None => None,
        }
    }

    /// Puts a session under `id`, in place of any that stood there.
    pub fn insert(&mut self, id: String, session: SessionManager<S, C>)
        requires
            old(self).wf(),
            session@.wf(),
        ensures
            final(self).wf(),
            final(self)@ == old(self)@.insert(id@, session@),
    {
        let ghost before = *self;
        match self.find(&id) {
            Some(i) => {
                self.sessions[i].session = session;
                proof {
                    self.lemma_replaced(&before, i as int);
                }
            },
            None => {
                self.sessions.push(Entry { id, session });
                proof {
                    let n = before.sessions@.len() as int;
                    assert(self.distinct()) by {
                        assert forall|k: int| 0 <= k < n implies (
                        #[trigger] before.sessions@[k]).id@ != id@ by {
                            before.lemma_at(k);
                        }
                    }
                    let want = before@.insert(id@, session@);
                    assert forall|other: Seq<char>|
                        self@.contains_key(other) == want.contains_key(other) by {
                        if self@.contains_key(other) {
                            let k = choose|k: int| self.is_at(other, k);
                            if k < n {
                                assert(before.is_at(other, k));
                            }
                        }
                        if want.contains_key(other) {
                            if before@.contains_key(other) {
                                let k = choose|k: int| before.is_at(other, k);
                                assert(self.is_at(other, k));
                            } else {
                                assert(self.is_at(other, n));
                            }
                        }
                    }
                    assert forall|other: Seq<char>| self@.contains_key(other) implies self@[other]
                        == want[other] by {
                        let k = choose|k: int| self.is_at(other, k);
                        self.lemma_at(k);
                        if k < n {
                            before.lemma_at(k);
                        }
                    }
                    assert(self@ =~= want);
                }
            },
        }
    }

    /// Connects party `idx` of session `id`.
    pub(crate) fn add_channel(&mut self, id: &String, idx: u16, channel: C)
        requires
            old(self).wf(),
            old(self)@.contains_key(id@),
            idx < old(self)@[id@].participants.len(),
        ensures
            final(self).wf(),
            final(self)@ == old(self)@.insert(id@, old(self)@[id@].joined(idx, channel)),
    {
        let ghost before = *self;
        if let Some(i) = self.find(id) {
            self.sessions[i].session.party_channels.insert(idx, channel);
            proof {
                assert(self.sessions@[i as int].session@ =~= before@[id@].joined(idx, channel));
                self.lemma_replaced(&before, i as int);
            }
        }
    }

    /// Frees the place of party `idx` of session `id`, if there is such a session.
    pub fn remove_channel(&mut self, id: &String, idx: u16)
        requires
            old(self).wf(),
        ensures
            final(self).wf(),
            final(self)@ == disconnected(old(self)@, id@, idx),
    {
        let ghost before = *self;
        if let Some(i) = self.find(id) {
            self.sessions[i].session.party_channels.remove(&idx);
            proof {
                assert(self.sessions@[i as int].session@ =~= before@[id@].left(idx));
                self.lemma_replaced(&before, i as int);
            }
        }
    }

    /// Marks session `id` with a status.
    pub(crate) fn set_status(&mut self, id: &String, status: SessionStatus)
        requires
            old(self).wf(),
            old(self)@.contains_key(id@),
        ensures
            final(self).wf(),
            final(self)@ == old(self)@.insert(id@, old(self)@[id@].marked(status)),
    {
        let ghost before = *self;
        if let Some(i) = self.find(id) {
            self.sessions[i].session.metadata.status = status;
            proof {
                assert(self.sessions@[i as int].session@ =~= before@[id@].marked(status));
                self.lemma_replaced(&before, i as int);
            }
        }
    }

    /// Lists the sessions that `signer` takes part in.
    pub fn sessions_of(&self, signer: u128) -> (listing: Vec<SessionSummary>)
        requires
            self.wf(),
        ensures
            lists_sessions(listing@, self@, signer),
    {
        let mut listing: Vec<SessionSummary> = Vec::new();
        let mut i: usize = 0;
        while i < self.sessions.len()
            invariant
                i <= self.sessions.len(),
                self.wf(),
                forall|k: int|
                    0 <= k < listing@.len() ==> {
                        let item = #[trigger] listing@[k];
                        &&& self@.contains_key(item.session_id@)
                        &&& self@[item.session_id@].participants.contains(signer)
                        &&& item.tag@ == self@[item.session_id@].tag
                        &&& item.status == self@[item.session_id@].status
                        &&& exists|j: int| 0 <= j < i && self.is_at(item.session_id@, j)
                    },
                forall|k: int, l: int|
                    0 <= k < l < listing@.len() ==> (#[trigger] listing@[k]).session_id@ != (
                    #[trigger] listing@[l]).session_id@,
                forall|j: int|
                    0 <= j < i && (#[trigger] self.sessions@[j]).session@.participants.contains(
                        signer,
                    ) ==> exists|k: int|
                        0 <= k < listing@.len() && (#[trigger] listing@[k]).session_id@
                            == self.sessions@[j].id@,
            decreases self.sessions.len() - i,
        {
            let ghost before = listing@;
            let entry = &self.sessions[i];
            proof {
                self.lemma_at(i as int);
                assert(self.is_at(entry.id@, i as int));
            }
            if entry.session.metadata.has_participant(signer) {
                listing.push(
                    SessionSummary {
                        session_id: entry.id.clone(),
                        tag: entry.session.metadata.tag.clone(),
                        status: entry.session.metadata.status,
                    },
                );
                proof {
                    assert(listing@[before.len() as int].session_id@ == entry.id@);
                    assert forall|j: int|
                        0 <= j < i && (#[trigger] self.sessions@[j]).session@.participants.contains(
                            signer,
                        ) implies exists|k: int|
                        0 <= k < listing@.len() && (#[trigger] listing@[k]).session_id@
                            == self.sessions@[j].id@ by {
                        let k = choose|k: int|
                            0 <= k < before.len() && (#[trigger] before[k]).session_id@
                                == self.sessions@[j].id@;
                        assert(listing@[k] == before[k]);
                    }
                }
            }
            i += 1;
        }
        proof {
            assert forall|id: Seq<char>| #[trigger]
                self@.contains_key(id) && self@[id].participants.contains(
                    signer,
                ) implies exists|k: int|
                0 <= k < listing@.len() && (#[trigger] listing@[k]).session_id@ == id by {
                let j = choose|j: int| self.is_at(id, j);
                self.lemma_at(j);
                assert(self.sessions@[j].session@.participants.contains(signer));
            }
        }
        listing
    }
}

} // verus!
