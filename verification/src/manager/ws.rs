//! A party's connection to its session: what the manager does with each thing
//! that happens on it.

use vstd::prelude::*;

use crate::manager::{AppState, SessionView};
use crate::protocol::{Data, Incoming, Message, MessageView, Outgoing, SessionType};
use crate::router::{Delivery, Router};

verus! {

broadcast use vstd::std_specs::hash::group_hash_axioms;

/// A party's connection to its session.
#[derive(Debug)]
pub struct Connection {
    pub session_id: String,
    /// The number of parties.
    pub n: u16,
    pub session_type: SessionType,
    /// The router of what the party sends; it holds the party's index.
    pub router: Router,
    /// The party has been told that the session starts.
    pub started: bool,
}

/// What comes in from a party.
pub enum Frame {
    /// A message of the protocol.
    Binary(Message<Vec<u8>>),
    /// The party closes the connection.
    Close,
    /// Anything else that can be read.
    Other,
    /// The connection cannot be read.
    Failed,
}

/// What happens on a connection.
pub enum WsEvent {
    /// The wait for the start command is over; it has come or it never will.
    Started(bool),
    /// A message to the party has been sent or could not be sent.
    Sent(bool),
    /// Another party has a message for this one.
    Inbox(Incoming<Vec<u8>>),
    /// The party says something.
    Frame(Frame),
    /// The connection is given up for any other reason.
    Aborted,
}

/// What is done about it.
pub enum WsAction {
    /// Send the message to the party.
    Send(Message<Vec<u8>>),
    /// Hand the messages on to parties of the session.
    Forward { session_id: String, deliveries: Vec<Delivery<Vec<u8>>> },
    /// Keep the event for after the start of the session.
    Hold(WsEvent),
    /// Nothing.
    Continue,
    /// The connection has ended.
    Stop,
}

/// The event ends the connection.
pub open spec fn ends(event: WsEvent) -> bool {
    match event {
        WsEvent::Started(started) => !started,
        WsEvent::Sent(sent) => !sent,
        WsEvent::Inbox(_) => false,
        WsEvent::Frame(frame) => frame is Close || frame is Failed,
        WsEvent::Aborted => true,
    }
}

/// The event is the start command.
pub open spec fn is_start(event: WsEvent) -> bool {
    event matches WsEvent::Started(started) && started
}

/// The event has something that is served once the session has started.
pub open spec fn is_served(event: WsEvent) -> bool {
    event is Inbox || (event is Frame && !ends(event))
}

/// The message that the party hands over for others, if the event is one.
pub open spec fn handed_over(event: WsEvent) -> Option<(Seq<char>, Outgoing<Vec<u8>>)> {
    match event {
        WsEvent::Frame(Frame::Binary(message)) => match message.data {
            Data::Outgoing(out) => Some((message.session_id@, out)),
            _ => None,
        },
        _ => None,
    }
}

/// The parties that a message for session `id` can reach.
pub open spec fn reachable<S, C>(
    sessions: Map<Seq<char>, SessionView<S, C>>,
    id: Seq<char>,
) -> Set<u16> {
    if sessions.contains_key(id) {
        sessions[id].channels.dom()
    } else {
        Set::empty()
    }
}

impl Connection {
    /// The party's index.
    pub open spec fn party_idx(self) -> u16 {
        self.router.my_index
    }

    /// What tells the party that the session starts.
    pub open spec fn start_message(self) -> MessageView<Vec<u8>> {
        MessageView {
            session_id: self.session_id@,
            data: Data::StartCmd {
                i: self.party_idx(),
                n: self.n,
                session_type: self.session_type,
            },
        }
    }

    /// What brings the party a message of another.
    pub open spec fn inbox_message(self, incoming: Incoming<Vec<u8>>) -> MessageView<Vec<u8>> {
        MessageView { session_id: self.session_id@, data: Data::Incoming(incoming) }
    }

    /// Numbers are left for what the event has to be numbered for.
    pub open spec fn has_numbers<S, C>(
        self,
        sessions: Map<Seq<char>, SessionView<S, C>>,
        event: WsEvent,
    ) -> bool {
        self.started ==> (handed_over(event) matches Some((id, out))
            ==> crate::router::numbers_left(
            self.router.next_id,
            crate::router::receivers(
                reachable(sessions, id),
                self.party_idx(),
                out.recipient,
            ).len(),
        ))
    }
}

/// Decides what is done about an event on a connection.
///
/// The start command is the first thing that the party is told, and it is told
/// once. Before that nothing is sent to the party or handed on for it.
///
/// Whatever ends the connection frees the party's place in its session.
pub fn handle_ws<S, C>(
    connection: &mut Connection,
    state: &mut AppState<S, C>,
    event: WsEvent,
) -> (action: WsAction)
    requires
        old(state).wf(),
        old(connection).has_numbers(old(state)@, event),
    ensures
        final(state).wf(),
        final(connection).session_id@ == old(connection).session_id@,
        final(connection).n == old(connection).n,
        final(connection).session_type == old(connection).session_type,
        final(connection).party_idx() == old(connection).party_idx(),
        ends(event) <==> action is Stop,
        ends(event) ==> final(state)@ == crate::manager::disconnected(
            old(state)@,
            old(connection).session_id@,
            old(connection).party_idx(),
        ),
        !ends(event) ==> final(state)@ == old(state)@,
        final(connection).started == (old(connection).started || is_start(event)),
        !old(connection).started ==> {
            &&& is_start(event) <==> action is Send
            &&& !(action is Forward)
            &&& is_served(event) <==> action is Hold
        },
        action matches WsAction::Hold(kept) ==> kept == event && !old(connection).started,
        !(action is Forward) ==> final(connection).router == old(connection).router,
        match event {
            WsEvent::Started(true) if !old(connection).started => {
                action matches WsAction::Send(message) && message@
                    == old(connection).start_message()
            },
            WsEvent::Inbox(incoming) if old(connection).started => {
                action matches WsAction::Send(message) && message@
                    == old(connection).inbox_message(incoming)
            },
            _ => !(action is Send),
        },
        match handed_over(event) {
            Some((id, out)) if old(connection).started => {
                &&& action matches WsAction::Forward { session_id, deliveries } && {
                    &&& session_id@ == id
                    &&& crate::router::routed(
                        deliveries@,
                        reachable(old(state)@, id),
                        old(connection).party_idx(),
                        old(connection).router.next_id as int,
                        out,
                    )
                    &&& final(connection).router.next_id == old(connection).router.next_id
                        + deliveries@.len()
                    &&& deliveries@.len() <= 65536
                }
            },
            _ => !(action is Forward),
        },
{
    let started: bool = connection.started;
    match event {
        WsEvent::Started(true) => {
            if started {
                return WsAction::Continue;
            }
            connection.started = true;
            WsAction::Send(
                Message {
                    session_id: connection.session_id.clone(),
                    data: Data::StartCmd {
                        i: connection.router.my_index,
                        n: connection.n,
                        session_type: connection.session_type,
                    },
                },
            )
        },
        WsEvent::Inbox(incoming) => {
            if !started {
                return WsAction::Hold(WsEvent::Inbox(incoming));
            }
            WsAction::Send(
                Message {
                    session_id: connection.session_id.clone(),
                    data: Data::Incoming(incoming),
                },
            )
        },
        WsEvent::Sent(true) => WsAction::Continue,
        WsEvent::Frame(Frame::Other) => {
            if started {
                WsAction::Continue
            } else {
                WsAction::Hold(WsEvent::Frame(Frame::Other))
            }
        },
        WsEvent::Frame(Frame::Binary(message)) => {
            if !started {
                return WsAction::Hold(WsEvent::Frame(Frame::Binary(message)));
            }
            match message.data {
                Data::Outgoing(out) => {
                    let deliveries: Vec<Delivery<Vec<u8>>> = match state.session(
                        &message.session_id,
                    ) {
                        Some(session) => connection.router.route(&session.party_channels, out),
                        None => {
                            let none: Vec<Delivery<Vec<u8>>> = Vec::new();
                            assert(crate::router::targets(none@).to_set()
                                =~= crate::router::receivers(
                                Set::empty(),
                                connection.router.my_index,
                                out.recipient,
                            ));
                            none
                        },
                    };
                    WsAction::Forward { session_id: message.session_id, deliveries }
                },
                _ => WsAction::Continue,
            }
        },
        _ => {
            state.remove_channel(&connection.session_id, connection.router.my_index);
            WsAction::Stop
        },
    }
}

} // verus!
