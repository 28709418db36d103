//! What holds of the manager and its parties together, whatever they do.

use cggmp24::round_based::{
    Incoming as EngineIncoming, MessageDestination as EngineDestination, Outgoing as EngineOutgoing,
};
use vstd::prelude::*;

use crate::client::{Assignment, FirstFrame, ServerFrame, TransportEvent};
use crate::manager::error::{ErrorResponseView, Result};
use crate::manager::handlers::{SessionManager, SessionStatus, SessionSummary};
use crate::manager::ws::{Connection, Frame, WsEvent};
use crate::manager::{AppState, SessionView};
use crate::protocol::{Data, Incoming, Message, Outgoing, SessionType};
use crate::router::Delivery;

verus! {

/// The sessions once `signer` has connected to session `id` by `channel`.
pub open spec fn connected<S, C>(
    sessions: Map<Seq<char>, SessionView<S, C>>,
    id: Seq<char>,
    signer: u128,
    channel: C,
) -> Map<Seq<char>, SessionView<S, C>> {
    let session = sessions[id];
    let idx = crate::manager::handlers::party_index(session.participants, signer);
    sessions.insert(id, session.joined(idx, channel))
}

/// Only a participant connects, and nobody connects twice: while a signer is
/// connected, another attempt is a conflict.
pub proof fn law_one_connection_each<S, C>(
    sessions: Map<Seq<char>, SessionView<S, C>>,
    id: Seq<char>,
    signer: u128,
    channel: C,
)
    requires
        crate::manager::handlers::connect_refusal(sessions, id, signer) is None,
    ensures
        sessions.contains_key(id),
        sessions[id].participants.contains(signer),
        crate::manager::handlers::connect_refusal(
            connected(sessions, id, signer, channel),
            id,
            signer,
        ) == Some(
            ErrorResponseView::Conflict(
                crate::manager::error::plain("Party index already connected"@),
            ),
        ),
{
}

/// A connection that begins and ends leaves the sessions as they were.
pub proof fn law_disconnecting_undoes_connecting<S, C>(
    sessions: Map<Seq<char>, SessionView<S, C>>,
    id: Seq<char>,
    signer: u128,
    channel: C,
)
    requires
        crate::manager::handlers::connect_refusal(sessions, id, signer) is None,
    ensures
        crate::manager::disconnected(
            connected(sessions, id, signer, channel),
            id,
            crate::manager::handlers::party_index(sessions[id].participants, signer),
        ) == sessions,
{
    let idx = crate::manager::handlers::party_index(sessions[id].participants, signer);
    assert(sessions[id].joined(idx, channel).left(idx) =~= sessions[id]);
    assert(crate::manager::disconnected(connected(sessions, id, signer, channel), id, idx)
        =~= sessions);
}

/// Whatever has happened meanwhile, a participant whose connection has ended can
/// connect again.
pub proof fn law_participant_can_return<S, C>(
    sessions: Map<Seq<char>, SessionView<S, C>>,
    id: Seq<char>,
    signer: u128,
)
    requires
        sessions.contains_key(id),
        sessions[id].participants.contains(signer),
    ensures
        crate::manager::handlers::connect_refusal(
            crate::manager::disconnected(
                sessions,
                id,
                crate::manager::handlers::party_index(sessions[id].participants, signer),
            ),
            id,
            signer,
        ) is None,
{
}

/// Who takes part in a session of at most 65536 has an index of their own: the
/// place in the list of participants. In a larger one the places are counted
/// anew after every 65536.
pub proof fn law_parties_have_their_own_index(participants: Seq<u128>, i: int)
    requires
        forall|a: int, b: int|
            0 <= a < b < participants.len() ==> participants[a] < participants[b],
        0 <= i < participants.len(),
    ensures
        participants.len() <= 65536 ==> crate::manager::handlers::party_index(
            participants,
            participants[i],
        ) == i,
        crate::manager::handlers::party_index(participants, participants[i]) == i % 65536,
{
    let found = participants.index_of(participants[i]);
    assert(participants.contains(participants[i]));
    assert(participants[found] == participants[i]);
}

/// A session can start exactly if it has at most 65536 participants, all of them
/// are connected, and a key generation wants no more of them than there are.
pub proof fn law_start_takes_everyone<S, C>(session: SessionView<S, C>)
    requires
        session.wf(),
    ensures
        crate::manager::handlers::start_refusal(session) is None <==> {
            &&& session.participants.len() <= 65536
            &&& forall|idx: u16|
                idx < session.participants.len() ==> #[trigger] session.channels.contains_key(idx)
            &&& session.session_type matches SessionType::KeyGen { threshold } ==> threshold
                <= session.participants.len()
        },
{
    let n = session.participants.len() as int;
    let there = session.channels.dom();
    let every = crate::router::first_indices(if n <= 65536 { n } else { 65536 });
    crate::router::lemma_first_indices(if n <= 65536 { n } else { 65536 });
    assert(there.subset_of(every)) by {
        assert forall|idx: u16| there.contains(idx) implies every.contains(idx) by {
            assert(session.channels.contains_key(idx));
        }
    }
    vstd::set_lib::lemma_len_subset(there, every);
    if there.len() == n {
        vstd::set_lib::lemma_subset_equality(there, every);
        assert forall|idx: u16| idx < n implies #[trigger] session.channels.contains_key(idx) by {
            assert(every.contains(idx));
        }
    }
    if n <= 65536 && forall|idx: u16| idx < n ==> #[trigger] session.channels.contains_key(idx) {
        assert(there =~= every) by {
            assert forall|idx: u16| every.contains(idx) implies there.contains(idx) by {
                assert(session.channels.contains_key(idx));
            }
        }
    }
}

/// The sessions once `signers` have connected to session `id`, one after the
/// other, each by the channel at the same place.
pub open spec fn all_connected<S, C>(
    sessions: Map<Seq<char>, SessionView<S, C>>,
    id: Seq<char>,
    signers: Seq<u128>,
    channels: Seq<C>,
) -> Map<Seq<char>, SessionView<S, C>>
    decreases signers.len(),
{
    if signers.len() == 0 {
        sessions
    } else {
        connected(
            all_connected(sessions, id, signers.drop_last(), channels),
            id,
            signers.last(),
            channels[signers.len() - 1],
        )
    }
}

/// Connecting adds the indices of those who connect and changes nothing else.
proof fn lemma_all_connected<S, C>(
    sessions: Map<Seq<char>, SessionView<S, C>>,
    id: Seq<char>,
    signers: Seq<u128>,
    channels: Seq<C>,
)
    requires
        sessions.contains_key(id),
        sessions[id].wf(),
        forall|k: int|
            0 <= k < signers.len() ==> sessions[id].participants.contains(#[trigger] signers[k]),
    ensures
        all_connected(sessions, id, signers, channels).contains_key(id),
        all_connected(sessions, id, signers, channels)[id].wf(),
        all_connected(sessions, id, signers, channels)[id].participants
            == sessions[id].participants,
        all_connected(sessions, id, signers, channels)[id].session_type
            == sessions[id].session_type,
        forall|idx: u16| #[trigger]
            all_connected(sessions, id, signers, channels)[id].channels.contains_key(idx) <==> (
            sessions[id].channels.contains_key(idx) || exists|k: int|
                0 <= k < signers.len() && crate::manager::handlers::party_index(
                    sessions[id].participants,
                    #[trigger] signers[k],
                ) == idx),
    decreases signers.len(),
{
    if signers.len() > 0 {
        let rest = signers.drop_last();
        let participants = sessions[id].participants;
        assert forall|k: int| 0 <= k < rest.len() implies participants.contains(
            #[trigger] rest[k],
        ) by {
            assert(signers[k] == rest[k]);
        }
        lemma_all_connected(sessions, id, rest, channels);
        let before = all_connected(sessions, id, rest, channels);
        let after = all_connected(sessions, id, signers, channels);
        let last = crate::manager::handlers::party_index(participants, signers.last());
        assert(signers[signers.len() - 1] == signers.last());
        assert(participants.contains(signers.last()));
        assert(0 <= participants.index_of(signers.last()) < participants.len());
        assert forall|idx: u16| #[trigger] after[id].channels.contains_key(idx) implies (
        sessions[id].channels.contains_key(idx) || exists|k: int|
            0 <= k < signers.len() && crate::manager::handlers::party_index(
                participants,
                #[trigger] signers[k],
            ) == idx) by {
            if before[id].channels.contains_key(idx) {
                if !sessions[id].channels.contains_key(idx) {
                    let k = choose|k: int|
                        0 <= k < rest.len() && crate::manager::handlers::party_index(
                            participants,
                            #[trigger] rest[k],
                        ) == idx;
                    assert(signers[k] == rest[k]);
                }
            }
        }
        assert forall|idx: u16|
            (sessions[id].channels.contains_key(idx) || exists|k: int|
                0 <= k < signers.len() && crate::manager::handlers::party_index(
                    participants,
                    #[trigger] signers[k],
                ) == idx) implies #[trigger] after[id].channels.contains_key(idx) by {
            if !before[id].channels.contains_key(idx) {
                let k = choose|k: int|
                    0 <= k < signers.len() && crate::manager::handlers::party_index(
                        participants,
                        #[trigger] signers[k],
                    ) == idx;
                if k < rest.len() {
                    assert(rest[k] == signers[k]);
                }
            }
        }
    }
}

/// The participants of a new session of at most 65536 can connect one after the
/// other, in whatever order. Once all of them have, the session can start,
/// unless a key generation wants more of them than there are.
pub proof fn law_everyone_connects_and_it_starts<S, C>(
    sessions: Map<Seq<char>, SessionView<S, C>>,
    id: Seq<char>,
    signers: Seq<u128>,
    channels: Seq<C>,
)
    requires
        sessions.contains_key(id),
        sessions[id].wf(),
        sessions[id].channels == Map::<u16, C>::empty(),
        sessions[id].participants.len() <= 65536,
        signers.no_duplicates(),
        signers.to_set() == sessions[id].participants.to_set(),
    ensures
        forall|k: int|
            0 <= k < signers.len() ==> crate::manager::handlers::connect_refusal(
                all_connected(sessions, id, signers.take(k), channels),
                id,
                #[trigger] signers[k],
            ) is None,
        crate::manager::handlers::start_refusal(
            all_connected(sessions, id, signers, channels)[id],
        ) is None <==> (sessions[id].session_type matches SessionType::KeyGen { threshold }
            ==> threshold <= sessions[id].participants.len()),
{
    let participants = sessions[id].participants;
    assert forall|k: int| 0 <= k < signers.len() implies participants.contains(
        #[trigger] signers[k],
    ) by {
        assert(signers.to_set().contains(signers[k]));
    }
    assert forall|k: int| 0 <= k < signers.len() implies
        crate::manager::handlers::connect_refusal(
        all_connected(sessions, id, signers.take(k), channels),
        id,
        #[trigger] signers[k],
    ) is None by {
        let first = signers.take(k);
        assert forall|j: int| 0 <= j < first.len() implies participants.contains(
            #[trigger] first[j],
        ) by {
            assert(signers[j] == first[j]);
        }
        lemma_all_connected(sessions, id, first, channels);
        let mine = crate::manager::handlers::party_index(participants, signers[k]);
        let at = participants.index_of(signers[k]);
        assert(participants[at] == signers[k]);
        law_parties_have_their_own_index(participants, at);
        assert forall|j: int| 0 <= j < first.len() implies crate::manager::handlers::party_index(
            participants,
            #[trigger] first[j],
        ) != mine by {
            assert(signers[j] == first[j]);
            let other = participants.index_of(signers[j]);
            assert(participants[other] == signers[j]);
            law_parties_have_their_own_index(participants, other);
        }
    }
    lemma_all_connected(sessions, id, signers, channels);
    let after = all_connected(sessions, id, signers, channels)[id];
    assert forall|idx: u16| idx < participants.len() implies #[trigger] after.channels.contains_key(
        idx,
    ) by {
        let signer = participants[idx as int];
        assert(participants.to_set().contains(signer));
        assert(signers.contains(signer));
        let k = choose|k: int| 0 <= k < signers.len() && signers[k] == signer;
        law_parties_have_their_own_index(participants, idx as int);
        assert(crate::manager::handlers::party_index(participants, signers[k]) == idx);
    }
    law_start_takes_everyone(after);
}

/// A new session is shown to its participants and to nobody else, as pending.
pub proof fn law_new_session_is_shown<S, C>(
    sessions: Map<Seq<char>, SessionView<S, C>>,
    id: Seq<char>,
    start_cmd: S,
    participants: Set<u128>,
    session_type: SessionType,
    tag: Seq<char>,
    signer: u128,
    listing: Seq<SessionSummary>,
)
    requires
        participants.finite(),
        crate::manager::lists_sessions(
            listing,
            sessions.insert(
                id,
                crate::manager::handlers::opened(
                    start_cmd,
                    crate::ids::sorted_members(participants),
                    session_type,
                    tag,
                ),
            ),
            signer,
        ),
    ensures
        participants.contains(signer) <==> exists|i: int|
            0 <= i < listing.len() && (#[trigger] listing[i]).session_id@ == id,
        forall|i: int|
            0 <= i < listing.len() && (#[trigger] listing[i]).session_id@ == id ==> listing[i].tag@
                == tag && listing[i].status
                == crate::manager::handlers::SessionStatus::Pending,
{
    crate::ids::lemma_listing_exists(participants);
    let members = crate::ids::sorted_members(participants);
    let after = sessions.insert(
        id,
        crate::manager::handlers::opened(start_cmd, members, session_type, tag),
    );
    assert(members.to_set().contains(signer) <==> members.contains(signer));
    assert(after.contains_key(id));
    assert(after[id].participants == members);
}

/// What happens in one session leaves every other as it is.
pub proof fn law_sessions_are_independent<S, C>(
    sessions: Map<Seq<char>, SessionView<S, C>>,
    id: Seq<char>,
    session: SessionView<S, C>,
    idx: u16,
    other: Seq<char>,
)
    requires
        other != id,
    ensures
        sessions.insert(id, session).contains_key(other) == sessions.contains_key(other),
        sessions.insert(id, session)[other] == sessions[other],
        crate::manager::disconnected(sessions, id, idx).contains_key(other)
            == sessions.contains_key(other),
        crate::manager::disconnected(sessions, id, idx)[other] == sessions[other],
{
}

/// A refusal is never taken for success, and what went wrong inside the manager
/// or about access stays inside: such a reply is the same whatever the cause.
pub proof fn law_refusals_keep_secrets(error: ErrorResponseView)
    ensures
        400 <= error.reply().status < 600,
        !(error is BadRequest || error is NotFound || error is Conflict) ==> error.reply()
            == crate::manager::error::bare_reply(error.reply().status),
{
}

/// A connection that has seen `events` since it began has started.
pub open spec fn started_by(events: Seq<WsEvent>) -> bool
    decreases events.len(),
{
    events.len() > 0 && (started_by(events.drop_last()) || crate::manager::ws::is_start(
        events.last(),
    ))
}

/// The event at place `k` has the party told that the session starts.
pub open spec fn tells_start(events: Seq<WsEvent>, k: int) -> bool {
    0 <= k < events.len() && !started_by(events.take(k)) && crate::manager::ws::is_start(events[k])
}

/// A connection that has started was told so by one of its events.
proof fn lemma_started_by_one(events: Seq<WsEvent>)
    requires
        started_by(events),
    ensures
        exists|k: int| tells_start(events, k),
    decreases events.len(),
{
    let rest = events.drop_last();
    if started_by(rest) {
        lemma_started_by_one(rest);
        let k = choose|k: int| tells_start(rest, k);
        assert(rest.take(k) =~= events.take(k));
        assert(tells_start(events, k));
    } else {
        assert(events.take(events.len() - 1) =~= rest);
        assert(tells_start(events, events.len() - 1));
    }
}

/// A connection that has started stays so.
proof fn lemma_started_stays(events: Seq<WsEvent>, i: int, j: int)
    requires
        0 <= i <= j <= events.len(),
        started_by(events.take(i)),
    ensures
        started_by(events.take(j)),
    decreases j - i,
{
    if i < j {
        lemma_started_stays(events, i, j - 1);
        assert(events.take(j).drop_last() =~= events.take(j - 1));
    }
}

/// Whatever happens on a connection, the party is told at most once that the
/// session starts, and it is told before anything is served: where the
/// connection has started, an earlier event told the party.
pub proof fn law_start_comes_first_and_once(events: Seq<WsEvent>)
    ensures
        forall|i: int, j: int|
            #[trigger] tells_start(events, i) && #[trigger] tells_start(events, j) ==> i == j,
        forall|j: int|
            0 <= j <= events.len() && #[trigger] started_by(events.take(j)) ==> exists|i: int|
                i < j && tells_start(events, i),
{
    assert forall|i: int, j: int| #[trigger] tells_start(events, i) && #[trigger] tells_start(
        events,
        j,
    ) && i < j implies false by {
        assert(events.take(i + 1).drop_last() =~= events.take(i));
        assert(events.take(i + 1).last() == events[i]);
        lemma_started_stays(events, i + 1, j);
    }
    assert forall|i: int, j: int|
        #[trigger] tells_start(events, i) && #[trigger] tells_start(events, j) implies i == j by {
        if i < j {
            assert(tells_start(events, i) && tells_start(events, j));
        } else if j < i {
            assert(tells_start(events, j) && tells_start(events, i));
        }
    }
    assert forall|j: int|
        0 <= j <= events.len() && #[trigger] started_by(events.take(j)) implies exists|i: int|
        i < j && tells_start(events, i) by {
        lemma_started_by_one(events.take(j));
        let i = choose|i: int| tells_start(events.take(j), i);
        assert(events.take(j).take(i) =~= events.take(i));
        assert(tells_start(events, i));
    }
}

/// A copy of bytes holds the same bytes.
proof fn lemma_cloned_bytes(a: Vec<u8>, b: Vec<u8>)
    requires
        cloned(a, b),
    ensures
        a@ == b@,
{
    assert(a@ =~= b@);
}

/// A party learns from the start command which party it is, how many there are
/// and what they compute.
pub proof fn law_start_command_assigns(connection: Connection, message: Message<Vec<u8>>)
    requires
        message@ == connection.start_message(),
    ensures
        crate::client::first_assignment(FirstFrame::Binary(message)) matches Ok(assignment)
            && assignment == (Assignment {
            i: connection.party_idx(),
            n: connection.n,
            session_type: connection.session_type,
        }),
{
}

/// What one party sends arrives unchanged at the parties it is for, once at each
/// and at no other: the sender's transport wraps it, the manager routes it, and
/// the receiver's transport unwraps it.
pub proof fn law_message_arrives<S, C>(
    sessions: Map<Seq<char>, SessionView<S, C>>,
    sender: Connection,
    out: Outgoing<Vec<u8>>,
    sent: Message<Vec<u8>>,
    deliveries: Seq<Delivery<Vec<u8>>>,
    receiver: Connection,
    received: Message<Vec<u8>>,
)
    requires
        sent@ == crate::client::outgoing_message(sender.session_id@, out),
        crate::manager::ws::handed_over(WsEvent::Frame(Frame::Binary(sent))) matches Some((id, o))
            && crate::router::routed(
            deliveries,
            crate::manager::ws::reachable(sessions, id),
            sender.party_idx(),
            sender.router.next_id as int,
            o,
        ),
    ensures
        forall|party: u16|
            crate::router::receivers(
                crate::manager::ws::reachable(sessions, sender.session_id@),
                sender.party_idx(),
                out.recipient,
            ).contains(party) <==> #[trigger] crate::router::targets(deliveries).contains(party),
        forall|j: int, k: int|
            0 <= j < k < deliveries.len() ==> (#[trigger] deliveries[j]).to != (
            #[trigger] deliveries[k]).to,
        forall|k: int|
            0 <= k < deliveries.len() && received@ == receiver.inbox_message(
                (#[trigger] deliveries[k]).incoming,
            ) ==> {
                let brought = crate::client::brought(
                    TransportEvent::Frame(ServerFrame::Binary(received)),
                );
                &&& brought is Some
                &&& brought->0.sender == sender.party_idx()
                &&& brought->0.msg_type == crate::router::kind_of(out.recipient)
                &&& brought->0.msg@ == out.msg@
            },
{
    let targets = crate::router::targets(deliveries);
    assert forall|party: u16| targets.to_set().contains(party) == #[trigger] targets.contains(
        party,
    ) by {}
    assert forall|j: int, k: int| 0 <= j < k < deliveries.len() implies (
    #[trigger] deliveries[j]).to != (#[trigger] deliveries[k]).to by {
        assert(targets[j] != targets[k]);
    }
    assert forall|k: int| 0 <= k < deliveries.len() implies (
    #[trigger] deliveries[k]).incoming.msg@ == out.msg@ by {
        lemma_cloned_bytes(out.msg, deliveries[k].incoming.msg);
    }
}

/// A session is kept as it is: its handle, who is connected, who takes part, what
/// they compute, its tag and its status.
pub proof fn law_session_view<S, C>(session: SessionManager<S, C>)
    ensures
        session@.start_cmd == session.start_cmd,
        session@.channels == session.party_channels@,
        session@.participants == session.metadata.participants@,
        session@.session_type == session.metadata.session_type,
        session@.tag == session.metadata.tag@,
        session@.status == session.metadata.status,
{
}

/// A new session computes what it was asked for, with the threshold it was asked
/// for, for those it was opened for, under its tag and with its start handle.
/// Nobody is connected, and it has not started.
pub proof fn law_new_session<S, C>(
    start_cmd: S,
    participants: Seq<u128>,
    session_type: SessionType,
    tag: Seq<char>,
    session: SessionView<S, C>,
)
    requires
        session == crate::manager::handlers::opened::<S, C>(
            start_cmd,
            participants,
            session_type,
            tag,
        ),
    ensures
        session.start_cmd == start_cmd,
        forall|idx: u16| !(#[trigger] session.channels.contains_key(idx)),
        session.participants == participants,
        session.session_type == session_type,
        session_type matches SessionType::KeyGen { threshold } ==> (
        session.session_type matches SessionType::KeyGen { threshold: kept } && kept == threshold),
        session.tag == tag,
        session.status == SessionStatus::Pending,
{
}

/// Who connects is added and who leaves is taken away, and nobody else; a new
/// status is a new status. Nothing else of the session changes.
pub proof fn law_session_changes<S, C>(
    session: SessionView<S, C>,
    idx: u16,
    channel: C,
    status: SessionStatus,
    party: u16,
)
    ensures
        session.joined(idx, channel).channels.contains_key(party) <==> party == idx
            || session.channels.contains_key(party),
        session.joined(idx, channel).channels[idx] == channel,
        party != idx && session.channels.contains_key(party) ==> session.joined(
            idx,
            channel,
        ).channels[party] == session.channels[party],
        session.left(idx).channels.contains_key(party) <==> party != idx
            && session.channels.contains_key(party),
        party != idx && session.channels.contains_key(party) ==> session.left(idx).channels[party]
            == session.channels[party],
        session.marked(status).channels == session.channels,
        session.marked(status).status == status,
        session.joined(idx, channel).status == session.status,
        session.left(idx).status == session.status,
        ({
            let joined = session.joined(idx, channel);
            let left = session.left(idx);
            let marked = session.marked(status);
            &&& joined.start_cmd == session.start_cmd
            &&& joined.participants == session.participants
            &&& joined.session_type == session.session_type
            &&& joined.tag == session.tag
            &&& left.start_cmd == session.start_cmd
            &&& left.participants == session.participants
            &&& left.session_type == session.session_type
            &&& left.tag == session.tag
            &&& marked.start_cmd == session.start_cmd
            &&& marked.participants == session.participants
            &&& marked.session_type == session.session_type
            &&& marked.tag == session.tag
        }),
{
}

/// A message for a session can reach exactly the parties connected to it.
pub proof fn law_reachable<S, C>(
    sessions: Map<Seq<char>, SessionView<S, C>>,
    id: Seq<char>,
    party: u16,
)
    ensures
        crate::manager::ws::reachable(sessions, id).contains(party) <==> sessions.contains_key(id)
            && sessions[id].channels.contains_key(party),
{
}

/// A start leaves every connection as it is: whoever was reachable in a session
/// before it is reachable after it, nobody else is, and who is connected is still
/// refused a second connection.
pub proof fn law_start_keeps_everyone<S, C>(
    sessions: Map<Seq<char>, SessionView<S, C>>,
    id: Seq<char>,
    other: Seq<char>,
    party: u16,
    signer: u128,
)
    requires
        sessions.contains_key(id),
    ensures
        ({
            let after = sessions.insert(id, sessions[id].marked(SessionStatus::Running));
            &&& crate::manager::ws::reachable(after, other).contains(party) <==> (
            sessions.contains_key(other) && sessions[other].channels.contains_key(party))
            &&& sessions[id].channels.contains_key(party) ==> after[id].channels[party]
                == sessions[id].channels[party]
            &&& crate::manager::handlers::connect_refusal(after, other, signer)
                == crate::manager::handlers::connect_refusal(sessions, other, signer)
            &&& after[id].status == SessionStatus::Running
        }),
{
}

/// The end of a connection takes the party's channel out of its session, and
/// nothing else out of any.
pub proof fn law_disconnected<S, C>(
    sessions: Map<Seq<char>, SessionView<S, C>>,
    id: Seq<char>,
    idx: u16,
    other: Seq<char>,
    party: u16,
)
    ensures
        ({
            let after = crate::manager::disconnected(sessions, id, idx);
            &&& after.contains_key(other) <==> sessions.contains_key(other)
            &&& sessions.contains_key(other) ==> {
                &&& after[other].channels.contains_key(party) <==> (
                sessions[other].channels.contains_key(party) && !(other == id && party == idx))
                &&& after[other].channels.contains_key(party) ==> after[other].channels[party]
                    == sessions[other].channels[party]
                &&& after[other].start_cmd == sessions[other].start_cmd
                &&& after[other].participants == sessions[other].participants
                &&& after[other].session_type == sessions[other].session_type
                &&& after[other].tag == sessions[other].tag
                &&& after[other].status == sessions[other].status
            }
        }),
{
}

/// The participants of a well-formed session are in increasing order, and whoever
/// is connected has the index of one of them.
pub proof fn law_well_formed<S, C>(session: SessionView<S, C>)
    ensures
        session.wf() <==> {
            &&& session.channels.dom().finite()
            &&& forall|i: int, j: int|
                0 <= i < j < session.participants.len() ==> session.participants[i]
                    < session.participants[j]
            &&& forall|idx: u16| #[trigger]
                session.channels.contains_key(idx) ==> idx < session.participants.len()
        },
{
}

/// A listing for a signer tells of a session exactly if the signer takes part in
/// it, tells of it once, and tells its tag and its status.
pub proof fn law_listing<S, C>(
    listing: Seq<SessionSummary>,
    sessions: Map<Seq<char>, SessionView<S, C>>,
    signer: u128,
    id: Seq<char>,
)
    requires
        crate::manager::lists_sessions(listing, sessions, signer),
    ensures
        (exists|i: int| 0 <= i < listing.len() && (#[trigger] listing[i]).session_id@ == id)
            <==> sessions.contains_key(id) && sessions[id].participants.contains(signer),
        forall|i: int, j: int|
            0 <= i < j < listing.len() ==> (#[trigger] listing[i]).session_id@ != (
            #[trigger] listing[j]).session_id@,
        forall|i: int|
            0 <= i < listing.len() && (#[trigger] listing[i]).session_id@ == id ==> listing[i].tag@
                == sessions[id].tag && listing[i].status == sessions[id].status,
{
}

/// Nobody connects to a session that is not there, and no stranger to one that
/// is; nothing changes then.
pub proof fn law_strangers_stay_out<S, C>(
    before: Map<Seq<char>, SessionView<S, C>>,
    after: Map<Seq<char>, SessionView<S, C>>,
    id: Seq<char>,
    signer: u128,
    channel: C,
    result: Result<Connection>,
)
    requires
        crate::manager::handlers::connects(before, after, id, signer, channel, result),
        !before.contains_key(id) || !before[id].participants.contains(signer),
    ensures
        after == before,
        result matches Err(error) && (error@ matches ErrorResponseView::NotFound(e) && e.message
            == if before.contains_key(id) {
            "Signer is not a participant in this session"@
        } else {
            "no session found"@
        } && e.causes.len() == 0),
{
}

/// The participant at place `p` connects unless a party is connected under its
/// index. It is told its session, how many take part and what they compute, gets
/// that index, sends from number zero on and has not started. Its channel is kept
/// under its index, and nothing else changes.
pub proof fn law_participant_connects<S, C>(
    before: Map<Seq<char>, SessionView<S, C>>,
    after: Map<Seq<char>, SessionView<S, C>>,
    id: Seq<char>,
    p: int,
    channel: C,
    result: Result<Connection>,
)
    requires
        before.contains_key(id),
        forall|i: int, j: int|
            0 <= i < j < before[id].participants.len() ==> before[id].participants[i]
                < before[id].participants[j],
        0 <= p < before[id].participants.len(),
        crate::manager::handlers::connects(
            before,
            after,
            id,
            before[id].participants[p],
            channel,
            result,
        ),
    ensures
        ({
            let idx = (p % 65536) as u16;
            if before[id].channels.contains_key(idx) {
                &&& after == before
                &&& result matches Err(error) && (error@ matches ErrorResponseView::Conflict(e)
                    && e.message == "Party index already connected"@ && e.causes.len() == 0)
            } else {
                &&& result matches Ok(connection) && {
                    &&& connection.session_id@ == id
                    &&& connection.n == before[id].participants.len() % 65536
                    &&& connection.session_type == before[id].session_type
                    &&& connection.router.my_index == idx
                    &&& connection.router.next_id == 0
                    &&& !connection.started
                }
                &&& after.dom() == before.dom()
                &&& after[id].channels == before[id].channels.insert(idx, channel)
                &&& after[id].start_cmd == before[id].start_cmd
                &&& after[id].participants == before[id].participants
                &&& after[id].session_type == before[id].session_type
                &&& after[id].tag == before[id].tag
                &&& after[id].status == before[id].status
                &&& forall|other: Seq<char>|
                    other != id && #[trigger] before.contains_key(other) ==> after[other]
                        == before[other]
            }
        }),
{
    let participants = before[id].participants;
    law_parties_have_their_own_index(participants, p);
    assert(participants.contains(participants[p]));
    if !before[id].channels.contains_key((p % 65536) as u16) {
        assert(after.dom() =~= before.dom());
    }
}

/// Why a session does not start: too few are connected for the threshold of a key
/// generation, or else not all are.
pub proof fn law_refused_starts<S, C>(session: SessionView<S, C>)
    ensures
        ({
            let short = session.session_type matches SessionType::KeyGen { threshold }
                && session.channels.dom().len() < threshold;
            let missing = session.channels.dom().len() != session.participants.len();
            match crate::manager::handlers::start_refusal(session) {
                None => !short && !missing,
                Some(error) => (short || missing) && (error matches ErrorResponseView::Conflict(e)
                    && e.message == if short {
                    "won't run session, not enough participants for threshold"@
                } else {
                    "won't run session, not all participants connected"@
                } && e.causes.len() == 0),
            }
        }),
{
}

/// A connection ends when the start command never comes, when a message cannot be
/// sent, when the party closes or cannot be read, when it is given up, and at no
/// other event.
pub proof fn law_end_of_connection(event: WsEvent)
    ensures
        crate::manager::ws::ends(event) <==> {
            ||| event == WsEvent::Started(false)
            ||| event == WsEvent::Sent(false)
            ||| event == WsEvent::Frame(Frame::Close)
            ||| event == WsEvent::Frame(Frame::Failed)
            ||| event is Aborted
        },
        crate::manager::ws::is_start(event) <==> event == WsEvent::Started(true),
        crate::manager::ws::is_served(event) <==> {
            ||| event is Inbox
            ||| event == WsEvent::Frame(Frame::Other)
            ||| event matches WsEvent::Frame(Frame::Binary(_))
        },
{
}

/// A party hands something over for others exactly by a message that says so, for
/// the session that the message names.
pub proof fn law_handed_over(event: WsEvent, message: Message<Vec<u8>>, out: Outgoing<Vec<u8>>)
    ensures
        message.data == Data::Outgoing(out) ==> crate::manager::ws::handed_over(
            WsEvent::Frame(Frame::Binary(message)),
        ) == Some((message.session_id@, out)),
        crate::manager::ws::handed_over(event) is Some <==> (event matches WsEvent::Frame(
            Frame::Binary(m),
        ) && m.data is Outgoing),
{
}

/// The start command names the session, the party's index, the number of parties
/// and the computation; what comes in for a party reaches it as it is.
pub proof fn law_messages_to_a_party(connection: Connection, incoming: Incoming<Vec<u8>>)
    ensures
        connection.party_idx() == connection.router.my_index,
        connection.start_message().session_id == connection.session_id@,
        connection.start_message().data == (Data::<Vec<u8>>::StartCmd {
            i: connection.router.my_index,
            n: connection.n,
            session_type: connection.session_type,
        }),
        connection.inbox_message(incoming).session_id == connection.session_id@,
        connection.inbox_message(incoming).data == Data::Incoming(incoming),
{
}

/// What the engine of one party sends reaches the engines of those it is for: a
/// broadcast as a broadcast at every other connected party, a message for one
/// party as such at that party alone, each with the sender's index and the same
/// payload.
pub proof fn law_engines_understand_each_other<S, C>(
    sessions: Map<Seq<char>, SessionView<S, C>>,
    id: Seq<char>,
    sender: u16,
    first: int,
    sent: EngineOutgoing<Vec<u8>>,
    deliveries: Seq<Delivery<Vec<u8>>>,
    party: u16,
)
    requires
        sessions.contains_key(id),
        crate::router::routed(
            deliveries,
            crate::manager::ws::reachable(sessions, id),
            sender,
            first,
            <Outgoing<Vec<u8>> as vstd::std_specs::convert::FromSpec<
                EngineOutgoing<Vec<u8>>,
            >>::from_spec(sent),
        ),
    ensures
        (exists|k: int| 0 <= k < deliveries.len() && (#[trigger] deliveries[k]).to == party)
            <==> sessions[id].channels.contains_key(party) && match sent.recipient {
            EngineDestination::OneParty(idx) => party == idx,
            EngineDestination::AllParties => party != sender,
        },
        forall|k: int|
            0 <= k < deliveries.len() ==> {
                let given = <EngineIncoming<Vec<u8>> as vstd::std_specs::convert::FromSpec<
                    Incoming<Vec<u8>>,
                >>::from_spec((#[trigger] deliveries[k]).incoming);
                &&& given.id == first + k
                &&& given.sender == sender
                &&& given.msg@ == sent.msg@
                &&& given.msg_type is Broadcast <==> sent.recipient is AllParties
            },
{
    let out = <Outgoing<Vec<u8>> as vstd::std_specs::convert::FromSpec<
        EngineOutgoing<Vec<u8>>,
    >>::from_spec(sent);
    let peers = crate::manager::ws::reachable(sessions, id);
    crate::router::law_routed(deliveries, peers, sender, first, out, party);
    assert forall|k: int| 0 <= k < deliveries.len() implies (
    #[trigger] deliveries[k]).incoming.msg@ == sent.msg@ by {
        lemma_cloned_bytes(out.msg, deliveries[k].incoming.msg);
    }
}

/// Whoever asks for the status of a session is told the one it has, and of no
/// session that it is not there.
pub proof fn law_status_is_told<S, C>(
    state: AppState<S, C>,
    session_id: String,
    result: Result<SessionStatus>,
)
    requires
        state.wf(),
        call_ensures(
            crate::manager::handlers::session_status::<S, C>,
            (&state, &session_id),
            result,
        ),
    ensures
        result is Ok <==> state@.contains_key(session_id@),
        result matches Ok(status) ==> status == state@[session_id@].status,
        result matches Err(error) ==> (error@ matches ErrorResponseView::NotFound(e) && e.message
            == "no session found"@ && e.causes.len() == 0),
{
}

/// Whoever asks for sessions is shown those of the signer that the header names.
pub proof fn law_signer_is_shown_its_sessions<S, C>(
    state: AppState<S, C>,
    headers: http::HeaderMap<http::HeaderValue>,
    signer: u128,
    result: Result<Vec<SessionSummary>>,
    id: Seq<char>,
)
    requires
        state.wf(),
        crate::manager::headers::signer_named_by(crate::manager::headers::signer_header(headers))
            == crate::manager::headers::Signer::Ok(signer),
        call_ensures(
            crate::manager::handlers::available_sessions::<S, C>,
            (&state, &headers),
            result,
        ),
    ensures
        result matches Ok(listing) && ((exists|i: int|
            0 <= i < listing@.len() && (#[trigger] listing@[i]).session_id@ == id)
            <==> state@.contains_key(id) && state@[id].participants.contains(signer)),
{
    if let Ok(listing) = result {
        law_listing(listing@, state@, signer, id);
    }
}

/// The manager listens on its own machine at the port that is given.
pub proof fn law_listen_address(port: u16, address: String)
    requires
        call_ensures(crate::manager::listen_address, (port,), address),
    ensures
        address@ == "127.0.0.1:"@ + crate::text::decimal(port as nat),
{
}

/// A connection that has a number left for each index that a party can have can
/// be told of any event, and so can one that has not started.
pub proof fn law_events_can_be_told<S, C>(
    connection: Connection,
    sessions: Map<Seq<char>, SessionView<S, C>>,
    event: WsEvent,
)
    requires
        connection.router.next_id <= u64::MAX - 65536 || !connection.started,
    ensures
        connection.has_numbers(sessions, event),
{
}

} // verus!
