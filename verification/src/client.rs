//! A party's side: how it connects to the manager, what it is told to be, and
//! how it carries messages between the manager and the protocol it runs.

use vstd::prelude::*;
use vstd::string::StringExecFns;

use crate::error_chain::{ErrorChain, ErrorChainView};
use crate::uuids::uuid_to_string;
use crate::protocol::{Data, Incoming, Message, MessageView, Outgoing, SessionType};
use crate::text::decimal_string;

verus! {

/// Which party of the session this one is, and what is computed.
#[derive(Debug, Clone, Copy, PartialEq, Eq, Structural)]
pub struct Assignment {
    pub i: u16,
    pub n: u16,
    pub session_type: SessionType,
}

/// The assignment that a message makes, if it makes one.
pub open spec fn assignment_in<M>(data: Data<M>) -> Option<Assignment> {
    match data {
        Data::StartCmd { i, n, session_type } => Some(Assignment { i, n, session_type }),
        _ => None,
    }
}

/// What the manager answers first.
pub enum FirstFrame<M> {
    /// A message of the protocol.
    Binary(Message<M>),
    /// Data that is no message of the protocol, with what is wrong with it.
    Unreadable(String),
    /// Anything else that can be read, in words.
    Other(String),
    /// The connection cannot be read, for this reason.
    Failed(ErrorChain),
    /// The connection is closed.
    Closed,
}

/// The assignment that the manager's first answer makes, or why it makes none.
pub open spec fn first_assignment<M>(frame: FirstFrame<M>) -> Result<Assignment, ErrorChainView> {
    match frame {
        FirstFrame::Binary(message) => match assignment_in(message.data) {
            Some(assignment) => Ok(assignment),
            None => Err(
                crate::manager::error::plain("Expected SetPartyIdx message, got something else"@),
            ),
        },
        FirstFrame::Unreadable(words) => Err(
            crate::manager::error::caused("Failed to parse initial message"@, words@),
        ),
        FirstFrame::Other(words) => Err(
            crate::manager::error::plain("unexpected response: "@ + words@),
        ),
        FirstFrame::Failed(error) => Err(error@),
        FirstFrame::Closed => Err(
            crate::manager::error::plain("Failed to read initial message from server"@),
        ),
    }
}

/// Reads from the manager's first answer which party this one is.
pub fn read_assignment<M>(frame: FirstFrame<M>) -> (result: Result<Assignment, ErrorChain>)
    ensures
        match first_assignment(frame) {
            Ok(assignment) => result matches Ok(found) && found == assignment,
            Err(error) => result matches Err(e) && e@ == error,
        },
{
    match frame {
        FirstFrame::Binary(message) => match message.data {
            Data::StartCmd { i, n, session_type } => Ok(Assignment { i, n, session_type }),
            _ => Err(ErrorChain::msg("Expected SetPartyIdx message, got something else")),
        },
        FirstFrame::Unreadable(words) => {
            Err(ErrorChain::context("Failed to parse initial message", words))
        },
        FirstFrame::Other(words) => {
            Err(ErrorChain::msg("unexpected response: ".to_owned().concat(words.as_str()).as_str()))
        },
        FirstFrame::Failed(error) => Err(error),
        FirstFrame::Closed => Err(ErrorChain::msg("Failed to read initial message from server")),
    }
}

/// What a party has to run.
pub enum Job {
    /// Generate auxiliary data and keep it in the file.
    AuxInfo { file: String },
    /// Generate a key and join it with the auxiliary data in the file.
    KeyGen { threshold: u16, aux_file: String },
}

/// Chooses what a party runs by its assignment. Signing is not offered.
pub fn job_for(assignment: Assignment) -> (job: Option<Job>)
    ensures
        match assignment.session_type {
            SessionType::AuxInfoGen => job matches Some(Job::AuxInfo { file }) && file@
                == "aux_info_"@ + crate::text::decimal(assignment.i as nat) + ".json"@,
            SessionType::KeyGen { threshold } => {
                &&& job matches Some(Job::KeyGen { threshold: t, aux_file })
                &&& t == threshold
                &&& aux_file@ == "aux_info_"@ + crate::text::decimal(assignment.i as nat)
                    + ".json"@
            },
            SessionType::Signing => job is None,
        },
{
    match assignment.session_type {
        SessionType::AuxInfoGen => Some(Job::AuxInfo { file: aux_info_file(assignment.i) }),
        SessionType::KeyGen { threshold } => Some(
            Job::KeyGen { threshold, aux_file: aux_info_file(assignment.i) },
        ),
        SessionType::Signing => None,
    }
}

/// The file that keeps the primes of party `idx`.
pub fn primes_file(idx: u16) -> (name: String)
    ensures
        name@ == "preg_"@ + crate::text::decimal(idx as nat) + ".json"@,
{
    "preg_".to_owned().concat(decimal_string(idx as u64).as_str()).concat(".json")
}

/// The name of the file that keeps the auxiliary data of party `idx`.
pub open spec fn aux_info_name(idx: u16) -> Seq<char> {
    "aux_info_"@ + crate::text::decimal(idx as nat) + ".json"@
}

/// The file that keeps the auxiliary data of party `idx`.
pub fn aux_info_file(idx: u16) -> (name: String)
    ensures
        name@ == aux_info_name(idx),
        name@ == "aux_info_"@ + crate::text::decimal(idx as nat) + ".json"@,
{
    "aux_info_".to_owned().concat(decimal_string(idx as u64).as_str()).concat(".json")
}

/// The address under which the manager at `addr` takes connections to a session.
pub fn session_url(addr: &str, session_id: &str) -> (url: String)
    ensures
        url@ == "ws://"@ + addr@ + "/api/v1/session/"@ + session_id@ + "/connect"@,
{
    "ws://".to_owned().concat(addr).concat("/api/v1/session/").concat(session_id).concat("/connect")
}

/// A header's name and value.
pub open spec fn is_header(header: (String, String), name: Seq<char>, value: Seq<char>) -> bool {
    header.0@ == name && header.1@ == value
}

/// The headers that open a connection: those of a web socket with the key `key`,
/// and the one that names the signer.
pub fn handshake_headers(addr: &str, signer: u128, key: String) -> (headers: Vec<(String, String)>)
    ensures
        headers@.len() == 6,
        is_header(headers@[0], "Host"@, addr@),
        is_header(headers@[1], "Connection"@, "Upgrade"@),
        is_header(headers@[2], "Upgrade"@, "websocket"@),
        is_header(headers@[3], "Sec-WebSocket-Version"@, "13"@),
        is_header(headers@[4], "Sec-WebSocket-Key"@, key@),
        is_header(headers@[5], "SIGNER-ID"@, crate::uuids::hyphenated(signer)),
        crate::manager::headers::signer_named_by(
            Some(crate::text::ascii_bytes(headers@[5].1@)),
        ) == crate::manager::headers::Signer::Ok(signer),
{
    let id: String = uuid_to_string(signer);
    proof {
        crate::uuids::lemma_hyphenated_chars(signer);
        crate::uuids::law_notation_is_read_back(signer);
        let bytes = crate::text::ascii_bytes(id@);
        assert(crate::manager::headers::ascii_text(bytes) =~= id@);
        assert(crate::manager::headers::is_text(bytes));
    }
    let mut headers: Vec<(String, String)> = Vec::new();
    headers.push(("Host".to_owned(), addr.to_owned()));
    headers.push(("Connection".to_owned(), "Upgrade".to_owned()));
    headers.push(("Upgrade".to_owned(), "websocket".to_owned()));
    headers.push(("Sec-WebSocket-Version".to_owned(), "13".to_owned()));
    headers.push(("Sec-WebSocket-Key".to_owned(), key));
    headers.push(("SIGNER-ID".to_owned(), id));
    headers
}

/// What comes in from the manager.
pub enum ServerFrame {
    /// A message of the protocol.
    Binary(Message<Vec<u8>>),
    /// Data that is no message of the protocol.
    Unreadable,
    /// The manager closes the connection.
    Close,
    /// Anything else that can be read.
    Other,
    /// The connection cannot be read.
    Failed,
}

/// What happens between the manager and the protocol.
pub enum TransportEvent {
    /// The protocol sends a message.
    Outgoing(Outgoing<Vec<u8>>),
    /// A message to the manager has been sent or could not be sent.
    Sent(bool),
    /// The manager says something.
    Frame(ServerFrame),
    /// A message has been handed to the protocol, or the protocol takes none.
    Delivered(bool),
    /// Neither the manager nor the protocol has anything more to say.
    Drained,
}

/// What is done about it.
pub enum TransportAction {
    /// Send the message to the manager.
    Send(Message<Vec<u8>>),
    /// Hand the message to the protocol.
    Deliver(Incoming<Vec<u8>>),
    /// Nothing.
    Continue,
    /// The transport has ended.
    Stop,
}

/// The event ends the transport.
pub open spec fn transport_ends(event: TransportEvent) -> bool {
    match event {
        TransportEvent::Outgoing(_) => false,
        TransportEvent::Sent(sent) => !sent,
        TransportEvent::Frame(frame) => frame is Close || frame is Failed,
        TransportEvent::Delivered(delivered) => !delivered,
        TransportEvent::Drained => true,
    }
}

/// The message for the protocol that the event brings, if it brings one.
pub open spec fn brought(event: TransportEvent) -> Option<Incoming<Vec<u8>>> {
    match event {
        TransportEvent::Frame(ServerFrame::Binary(message)) => match message.data {
            Data::Incoming(incoming) => Some(incoming),
            _ => None,
        },
        _ => None,
    }
}

/// What carries a message of the protocol to the manager.
pub open spec fn outgoing_message(
    session_id: Seq<char>,
    outgoing: Outgoing<Vec<u8>>,
) -> MessageView<Vec<u8>> {
    MessageView { session_id, data: Data::Outgoing(outgoing) }
}

/// Decides what is done about an event between the manager and the protocol of
/// session `session_id`.
pub fn handle_transport(session_id: &String, event: TransportEvent) -> (action: TransportAction)
    ensures
        transport_ends(event) <==> action is Stop,
        match event {
            TransportEvent::Outgoing(outgoing) => action matches TransportAction::Send(message)
                && message@ == outgoing_message(session_id@, outgoing),
            _ => !(action is Send),
        },
        match brought(event) {
            Some(incoming) => action == TransportAction::Deliver(incoming),
            None => !(action is Deliver),
        },
{
    match event {
        TransportEvent::Outgoing(outgoing) => TransportAction::Send(
            Message { session_id: session_id.clone(), data: Data::Outgoing(outgoing) },
        ),
        TransportEvent::Frame(ServerFrame::Binary(message)) => match message.data {
            Data::Incoming(incoming) => TransportAction::Deliver(incoming),
            _ => TransportAction::Continue,
        },
        TransportEvent::Sent(true) => TransportAction::Continue,
        TransportEvent::Delivered(true) => TransportAction::Continue,
        TransportEvent::Frame(ServerFrame::Unreadable) => TransportAction::Continue,
        TransportEvent::Frame(ServerFrame::Other) => TransportAction::Continue,
        _ => TransportAction::Stop,
    }
}

/// Parties with different indices keep their primes in different files, and so
/// their auxiliary data.
pub proof fn law_files_are_apart(i: u16, j: u16)
    requires
        i != j,
    ensures
        aux_info_name(i) != aux_info_name(j),
        "preg_"@ + crate::text::decimal(i as nat) + ".json"@ != "preg_"@ + crate::text::decimal(
            j as nat,
        ) + ".json"@,
{
    lemma_named_apart("aux_info_"@, i, j);
    lemma_named_apart("preg_"@, i, j);
}

proof fn lemma_named_apart(name: Seq<char>, i: u16, j: u16)
    requires
        i != j,
    ensures
        name + crate::text::decimal(i as nat) + ".json"@ != name + crate::text::decimal(j as nat)
            + ".json"@,
{
    let one = name + crate::text::decimal(i as nat) + ".json"@;
    let two = name + crate::text::decimal(j as nat) + ".json"@;
    if one == two {
        let start = name.len() as int;
        let end = one.len() - ".json"@.len();
        assert(crate::text::decimal(i as nat) =~= one.subrange(start, end));
        assert(crate::text::decimal(j as nat) =~= two.subrange(start, end));
        crate::text::law_decimal_injective(i as nat, j as nat);
    }
}

/// The auxiliary data of a party stand in the file that bears its index.
pub proof fn law_file_bears_the_index(idx: u16)
    ensures
        aux_info_name(idx).len() == "aux_info_"@.len() + crate::text::decimal(idx as nat).len()
            + ".json"@.len(),
        crate::text::decimal_value(
            aux_info_name(idx).subrange(
                "aux_info_"@.len() as int,
                aux_info_name(idx).len() - ".json"@.len(),
            ),
        ) == idx,
        "aux_info_"@.is_prefix_of(aux_info_name(idx)),
        aux_info_name(idx).skip(aux_info_name(idx).len() - ".json"@.len()) == ".json"@,
{
    let name = aux_info_name(idx);
    let start = "aux_info_"@.len() as int;
    let end = name.len() - ".json"@.len();
    crate::text::law_decimal_denotes(idx as nat);
    assert(name.subrange(start, end) =~= crate::text::decimal(idx as nat));
    assert(name.skip(end) =~= ".json"@);
    assert("aux_info_"@ =~= name.subrange(0, start));
}

/// A header has its name and its value.
pub proof fn law_header(header: (String, String), name: Seq<char>, value: Seq<char>)
    requires
        is_header(header, name, value),
    ensures
        header.0@ == name,
        header.1@ == value,
{
}

/// The first answer assigns exactly what the start command in it says. Anything
/// else assigns nothing and is told with its own words and causes.
pub proof fn law_first_answer<M>(frame: FirstFrame<M>)
    ensures
        match frame {
            FirstFrame::Binary(message) => match message.data {
                Data::StartCmd { i, n, session_type } => first_assignment(frame) matches Ok(a)
                    && a.i == i && a.n == n && a.session_type == session_type,
                _ => first_assignment(frame) matches Err(e) && e.message
                    == "Expected SetPartyIdx message, got something else"@ && e.causes.len() == 0,
            },
            FirstFrame::Unreadable(words) => first_assignment(frame) matches Err(e) && e.message
                == "Failed to parse initial message"@ && e.causes == seq![words@],
            FirstFrame::Other(words) => first_assignment(frame) matches Err(e) && e.message
                == "unexpected response: "@ + words@ && e.causes.len() == 0,
            FirstFrame::Failed(error) => first_assignment(frame) matches Err(e) && e.message
                == error.message@ && e.causes.len() == error.causes@.len() && forall|k: int|
                0 <= k < e.causes.len() ==> #[trigger] e.causes[k] == error.causes@[k]@,
            FirstFrame::Closed => first_assignment(frame) matches Err(e) && e.message
                == "Failed to read initial message from server"@ && e.causes.len() == 0,
        },
{
}

/// The transport ends when a message cannot be sent or handed over, when the
/// manager closes or the connection breaks, when nobody has anything more to say,
/// and at no other event.
pub proof fn law_end_of_transport(event: TransportEvent)
    ensures
        transport_ends(event) <==> {
            ||| event == TransportEvent::Sent(false)
            ||| event == TransportEvent::Delivered(false)
            ||| event == TransportEvent::Frame(ServerFrame::Close)
            ||| event == TransportEvent::Frame(ServerFrame::Failed)
            ||| event is Drained
        },
{
}

/// The protocol is handed what the manager hands on, as it is, and nothing else.
pub proof fn law_brought(event: TransportEvent, incoming: Incoming<Vec<u8>>)
    ensures
        brought(event) == Some(incoming) <==> (event matches TransportEvent::Frame(
            ServerFrame::Binary(message),
        ) && message.data == Data::Incoming(incoming)),
{
}

/// What the protocol sends goes out for its session, as it is.
pub proof fn law_outgoing_message(session_id: Seq<char>, outgoing: Outgoing<Vec<u8>>)
    ensures
        outgoing_message(session_id, outgoing).session_id == session_id,
        outgoing_message(session_id, outgoing).data == Data::Outgoing(outgoing),
{
}

/// Two parties are given the same file for their primes exactly if they are one
/// and the same, and so for their auxiliary data.
pub proof fn law_each_party_is_given_its_files(
    i: u16,
    j: u16,
    primes_i: String,
    primes_j: String,
    aux_i: String,
    aux_j: String,
)
    requires
        call_ensures(primes_file, (i,), primes_i),
        call_ensures(primes_file, (j,), primes_j),
        call_ensures(aux_info_file, (i,), aux_i),
        call_ensures(aux_info_file, (j,), aux_j),
    ensures
        primes_i@ == primes_j@ <==> i == j,
        aux_i@ == aux_j@ <==> i == j,
        primes_i@ == "preg_"@ + crate::text::decimal(i as nat) + ".json"@,
        aux_i@ == "aux_info_"@ + crate::text::decimal(i as nat) + ".json"@,
{
    if i != j {
        law_files_are_apart(i, j);
    }
}

/// A party that generates auxiliary data keeps them in the file from which it
/// takes them when it generates a key, and the key has the threshold asked for.
pub proof fn law_jobs_share_the_file(
    i: u16,
    n: u16,
    m: u16,
    threshold: u16,
    aux: Option<Job>,
    keygen: Option<Job>,
    signing: Option<Job>,
)
    requires
        call_ensures(job_for, (Assignment { i, n, session_type: SessionType::AuxInfoGen },), aux),
        call_ensures(
            job_for,
            (Assignment { i, n: m, session_type: SessionType::KeyGen { threshold } },),
            keygen,
        ),
        call_ensures(job_for, (Assignment { i, n, session_type: SessionType::Signing },), signing),
    ensures
        aux matches Some(Job::AuxInfo { file }) && (keygen matches Some(
            Job::KeyGen { threshold: t, aux_file },
        ) && t == threshold && aux_file@ == file@ && file@ == "aux_info_"@ + crate::text::decimal(
            i as nat,
        ) + ".json"@),
        signing is None,
{
}

/// The address of a session names the manager and the session.
pub proof fn law_session_url(addr: &str, session_id: &str, url: String)
    requires
        call_ensures(session_url, (addr, session_id), url),
    ensures
        url@.len() == "ws://"@.len() + addr@.len() + "/api/v1/session/"@.len() + session_id@.len()
            + "/connect"@.len(),
        ("ws://"@ + addr@ + "/api/v1/session/"@).is_prefix_of(url@),
        url@.skip(url@.len() - "/connect"@.len() - session_id@.len()) == session_id@ + "/connect"@,
{
    assert(("ws://"@ + addr@ + "/api/v1/session/"@) =~= url@.subrange(
        0,
        ("ws://"@ + addr@ + "/api/v1/session/"@).len() as int,
    ));
    assert(url@.skip(url@.len() - "/connect"@.len() - session_id@.len()) =~= session_id@
        + "/connect"@);
}

/// The headers that open a connection name the host, ask for a web socket with
/// the key, and name the signer as the manager reads it.
pub proof fn law_handshake(addr: &str, signer: u128, key: String, headers: Vec<(String, String)>)
    requires
        call_ensures(handshake_headers, (addr, signer, key), headers),
    ensures
        headers@.len() == 6,
        headers@[0].0@ == "Host"@ && headers@[0].1@ == addr@,
        headers@[1].0@ == "Connection"@ && headers@[1].1@ == "Upgrade"@,
        headers@[2].0@ == "Upgrade"@ && headers@[2].1@ == "websocket"@,
        headers@[3].0@ == "Sec-WebSocket-Version"@ && headers@[3].1@ == "13"@,
        headers@[4].0@ == "Sec-WebSocket-Key"@ && headers@[4].1@ == key@,
        headers@[5].0@ == "SIGNER-ID"@,
        crate::uuids::parsed_uuid(headers@[5].1@) == crate::uuids::ParsedUuid::Ok(signer),
{
    crate::uuids::law_notation_is_read_back(signer);
}

/// What the transport does: it sends what the protocol sends and nothing else,
/// hands over what the manager hands on and nothing else, and ends at its ends.
pub proof fn law_transport(session_id: String, event: TransportEvent, action: TransportAction)
    requires
        call_ensures(handle_transport, (&session_id, event), action),
    ensures
        match event {
            TransportEvent::Outgoing(outgoing) => action matches TransportAction::Send(message)
                && message.session_id@ == session_id@ && message.data == Data::Outgoing(outgoing),
            TransportEvent::Frame(ServerFrame::Binary(message)) => match message.data {
                Data::Incoming(incoming) => action == TransportAction::Deliver(incoming),
                _ => action is Continue,
            },
            TransportEvent::Frame(ServerFrame::Close) => action is Stop,
            TransportEvent::Frame(ServerFrame::Failed) => action is Stop,
            TransportEvent::Frame(_) => action is Continue,
            TransportEvent::Sent(sent) => if sent {
                action is Continue
            } else {
                action is Stop
            },
            TransportEvent::Delivered(delivered) => if delivered {
                action is Continue
            } else {
                action is Stop
            },
            TransportEvent::Drained => action is Stop,
        },
{
}

} // verus!
