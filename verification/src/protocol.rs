//! The messages that parties and the manager exchange.

use cggmp24::round_based::{
    Incoming as EngineIncoming, MessageDestination as EngineDestination, MessageType as EngineType,
    Outgoing as EngineOutgoing,
};
use vstd::prelude::*;
use vstd::std_specs::convert::FromSpecImpl;
use vstd::string::StringExecFns;

use crate::text::decimal_string;

verus! {

/// What the parties of a session compute together.
#[derive(Debug, Clone, Copy, PartialEq, Eq, Structural)]
pub enum SessionType {
    /// Generation of the auxiliary data that signing needs.
    AuxInfoGen,
    /// Generation of a key of which `threshold` shares can sign.
    KeyGen { threshold: u16 },
    /// Signing with a generated key.
    Signing,
}

/// A message of a session, with the session it belongs to.
#[derive(Debug, Clone)]
pub struct Message<M> {
    pub session_id: String,
    pub data: Data<M>,
}

/// What a message says.
#[derive(Debug, Clone)]
pub enum Data<M> {
    /// The manager starts the session: the receiver is party `i` of `n`.
    StartCmd { i: u16, n: u16, session_type: SessionType },
    /// The manager hands a message on to its receiver.
    Incoming(Incoming<M>),
    /// A party hands a message to the manager.
    Outgoing(Outgoing<M>),
}

/// Whether a message went to one party or to all.
#[derive(Debug, Copy, Clone, PartialEq, Eq, Structural)]
pub enum MessageType {
    Broadcast,
    P2P,
}

/// A message as its receiver sees it.
#[derive(Debug, Clone)]
pub struct Incoming<M> {
    pub id: u64,
    pub sender: u16,
    pub msg_type: MessageType,
    pub msg: M,
}

/// Whom a message is for.
#[derive(Debug, Copy, Clone, PartialEq, Eq, Structural)]
pub enum MessageDestination {
    AllParties,
    OneParty(u16),
}

/// A message as its sender hands it over.
#[derive(Debug, Clone)]
pub struct Outgoing<M> {
    /// Message destination: either one party (p2p message) or all parties (broadcast message)
    pub recipient: MessageDestination,
    /// Message being sent
    pub msg: M,
}

/// A message with its session taken by its characters.
pub struct MessageView<M> {
    pub session_id: Seq<char>,
    pub data: Data<M>,
}

impl<M> View for Message<M> {
    type V = MessageView<M>;

    open spec fn view(&self) -> MessageView<M> {
        MessageView { session_id: self.session_id@, data: self.data }
    }
}

/// The destination of a message, in the protocol engine's terms. The verifier
/// reads its variants, as it does those of the types below.
#[verifier::external_type_specification]
pub struct ExEngineDestination(EngineDestination);

/// The kind of a message, in the protocol engine's terms.
#[verifier::external_type_specification]
pub struct ExEngineType(EngineType);

/// A message that the protocol engine receives.
#[verifier::external_type_specification]
#[verifier::reject_recursive_types(M)]
pub struct ExEngineIncoming<M>(EngineIncoming<M>);

/// A message that the protocol engine sends.
#[verifier::external_type_specification]
#[verifier::reject_recursive_types(M)]
pub struct ExEngineOutgoing<M>(EngineOutgoing<M>);

impl From<EngineDestination> for MessageDestination {
    fn from(value: EngineDestination) -> (destination: Self) {
        match value {
            EngineDestination::AllParties => Self::AllParties,
            EngineDestination::OneParty(i) => Self::OneParty(i),
        }
    }
}

impl FromSpecImpl<EngineDestination> for MessageDestination {
    open spec fn obeys_from_spec() -> bool {
        true
    }

    open spec fn from_spec(value: EngineDestination) -> Self {
        match value {
            EngineDestination::AllParties => Self::AllParties,
            EngineDestination::OneParty(i) => Self::OneParty(i),
        }
    }
}

impl<M> From<EngineOutgoing<M>> for Outgoing<M> {
    fn from(value: EngineOutgoing<M>) -> (outgoing: Self) {
        Self { recipient: MessageDestination::from(value.recipient), msg: value.msg }
    }
}

impl<M> FromSpecImpl<EngineOutgoing<M>> for Outgoing<M> {
    open spec fn obeys_from_spec() -> bool {
        true
    }

    open spec fn from_spec(value: EngineOutgoing<M>) -> Self {
        Outgoing {
            recipient: match value.recipient {
                EngineDestination::AllParties => MessageDestination::AllParties,
                EngineDestination::OneParty(i) => MessageDestination::OneParty(i),
            },
            msg: value.msg,
        }
    }
}

impl From<MessageType> for EngineType {
    fn from(value: MessageType) -> (msg_type: Self) {
        match value {
            MessageType::Broadcast => Self::Broadcast,
            MessageType::P2P => Self::P2P,
        }
    }
}

impl FromSpecImpl<MessageType> for EngineType {
    open spec fn obeys_from_spec() -> bool {
        true
    }

    open spec fn from_spec(value: MessageType) -> Self {
        match value {
            MessageType::Broadcast => EngineType::Broadcast,
            MessageType::P2P => EngineType::P2P,
        }
    }
}

impl<M> From<Incoming<M>> for EngineIncoming<M> {
    fn from(value: Incoming<M>) -> (incoming: Self) {
        Self {
            id: value.id,
            sender: value.sender,
            msg: value.msg,
            msg_type: EngineType::from(value.msg_type),
        }
    }
}

impl<M> FromSpecImpl<Incoming<M>> for EngineIncoming<M> {
    open spec fn obeys_from_spec() -> bool {
        true
    }

    open spec fn from_spec(value: Incoming<M>) -> Self {
        EngineIncoming {
            id: value.id,
            sender: value.sender,
            msg: value.msg,
            msg_type: match value.msg_type {
                MessageType::Broadcast => EngineType::Broadcast,
                MessageType::P2P => EngineType::P2P,
            },
        }
    }
}

impl MessageType {
    /// The name of the kind.
    pub open spec fn name_text(self) -> Seq<char> {
        match self {
            MessageType::Broadcast => "Broadcast"@,
            MessageType::P2P => "P2P"@,
        }
    }

    /// The name of the kind.
    pub fn name(self) -> (name: &'static str)
        ensures
            name@ == self.name_text(),
    {
        match self {
            MessageType::Broadcast => "Broadcast",
            MessageType::P2P => "P2P",
        }
    }
}

impl MessageDestination {
    /// The destination in words: `AllParties`, or `OneParty` with the party's index.
    pub open spec fn name_text(self) -> Seq<char> {
        match self {
            MessageDestination::AllParties => "AllParties"@,
            MessageDestination::OneParty(i) => "OneParty("@ + crate::text::decimal(i as nat) + ")"@,
        }
    }

    /// The destination in words.
    pub fn name(self) -> (name: String)
        ensures
            name@ == self.name_text(),
    {
        match self {
            MessageDestination::AllParties => "AllParties".to_owned(),
            MessageDestination::OneParty(i) => {
                "OneParty(".to_owned().concat(decimal_string(i as u64).as_str()).concat(")")
            },
        }
    }
}

impl<M> Data<M> {
    /// What the log shows of a message; the payload stays out of it.
    pub open spec fn summary(self) -> Seq<char> {
        match self {
            Data::StartCmd { i, n, .. } => "set parity idx, i: "@ + crate::text::decimal(i as nat)
                + ", n: "@ + crate::text::decimal(n as nat),
            Data::Incoming(incoming) => "Incoming, id: "@ + crate::text::decimal(incoming.id as nat)
                + ", sender: "@ + crate::text::decimal(incoming.sender as nat) + ", type: "@
                + incoming.msg_type.name_text(),
            Data::Outgoing(outgoing) => "Outgoing, recipient: "@ + outgoing.recipient.name_text(),
        }
    }

    /// Describes the message for the log.
    pub fn to_text(&self) -> (text: String)
        ensures
            text@ == self.summary(),
    {
        match self {
            Data::StartCmd { i, n, .. } => {
                let mut text: String = "set parity idx, i: ".to_owned();
                text.append(decimal_string(*i as u64).as_str());
                text.append(", n: ");
                text.append(decimal_string(*n as u64).as_str());
                text
            },
            Data::Incoming(incoming) => {
                let mut text: String = "Incoming, id: ".to_owned();
                text.append(decimal_string(incoming.id).as_str());
                text.append(", sender: ");
                text.append(decimal_string(incoming.sender as u64).as_str());
                text.append(", type: ");
                text.append(incoming.msg_type.name());
                text
            },
            Data::Outgoing(outgoing) => {
                let mut text: String = "Outgoing, recipient: ".to_owned();
                text.append(outgoing.recipient.name().as_str());
                text
            },
        }
    }
}

/// What a party's engine is given is the message as it came in: the number, the
/// sender and the payload are the same, and it is a broadcast exactly if the
/// message is one.
pub proof fn law_engine_is_given_the_message<M>(incoming: Incoming<M>, given: EngineIncoming<M>)
    requires
        given == <EngineIncoming<M> as vstd::std_specs::convert::FromSpec<Incoming<M>>>::from_spec(
            incoming,
        ),
    ensures
        <EngineIncoming<M> as vstd::std_specs::convert::FromSpec<Incoming<M>>>::obeys_from_spec(),
        given.id == incoming.id,
        given.sender == incoming.sender,
        given.msg == incoming.msg,
        given.msg_type is Broadcast <==> incoming.msg_type is Broadcast,
        given.msg_type is P2P <==> incoming.msg_type is P2P,
{
}

/// What a party's engine sends is handed over with its payload, to one party
/// exactly if the engine sends it to that one, and else to all.
pub proof fn law_message_of_the_engine_is_handed_over<M>(
    sent: EngineOutgoing<M>,
    outgoing: Outgoing<M>,
    i: u16,
)
    requires
        outgoing == <Outgoing<M> as vstd::std_specs::convert::FromSpec<
            EngineOutgoing<M>,
        >>::from_spec(sent),
    ensures
        <Outgoing<M> as vstd::std_specs::convert::FromSpec<EngineOutgoing<M>>>::obeys_from_spec(),
        outgoing.msg == sent.msg,
        outgoing.recipient is AllParties <==> sent.recipient is AllParties,
        outgoing.recipient == MessageDestination::OneParty(i) <==> sent.recipient
            == EngineDestination::OneParty(i),
{
}

/// A kind or a destination on its own is carried over as it is.
pub proof fn law_kinds_and_destinations_are_kept(
    msg_type: MessageType,
    destination: EngineDestination,
    i: u16,
)
    ensures
        <EngineType as vstd::std_specs::convert::FromSpec<MessageType>>::obeys_from_spec(),
        <EngineType as vstd::std_specs::convert::FromSpec<MessageType>>::from_spec(
            msg_type,
        ) is Broadcast <==> msg_type is Broadcast,
        <MessageDestination as vstd::std_specs::convert::FromSpec<
            EngineDestination,
        >>::obeys_from_spec(),
        <MessageDestination as vstd::std_specs::convert::FromSpec<EngineDestination>>::from_spec(
            destination,
        ) is AllParties <==> destination is AllParties,
        <MessageDestination as vstd::std_specs::convert::FromSpec<EngineDestination>>::from_spec(
            destination,
        ) == MessageDestination::OneParty(i) <==> destination == EngineDestination::OneParty(i),
{
}

/// A message is what its session and its data are.
pub proof fn law_message_view<M>(message: Message<M>)
    ensures
        message@.session_id == message.session_id@,
        message@.data == message.data,
{
}

/// The log tells of a message which numbers it has, from whom or for whom it is,
/// and of which kind.
pub proof fn law_log_tells_of_a_message<M>(data: Data<M>)
    ensures
        match data {
            Data::StartCmd { i, n, .. } => data.summary() == "set parity idx, i: "@
                + crate::text::decimal(i as nat) + ", n: "@ + crate::text::decimal(n as nat),
            Data::Incoming(incoming) => data.summary() == "Incoming, id: "@ + crate::text::decimal(
                incoming.id as nat,
            ) + ", sender: "@ + crate::text::decimal(incoming.sender as nat) + ", type: "@ + if
                incoming.msg_type is Broadcast {
                "Broadcast"@
            } else {
                "P2P"@
            },
            Data::Outgoing(outgoing) => match outgoing.recipient {
                MessageDestination::AllParties => data.summary()
                    == "Outgoing, recipient: "@ + "AllParties"@,
                MessageDestination::OneParty(i) => data.summary() == "Outgoing, recipient: "@ + (
                "OneParty("@ + crate::text::decimal(i as nat) + ")"@),
            },
        },
{
}

} // verus!
