use cggmp24::round_based;
use mpc::error_chain::ErrorChain;
use mpc::error_chain_fmt;
use mpc::protocol::{
    Data, Incoming, MessageDestination, MessageType, Outgoing, SessionType,
};

#[test]
fn destinations_from_the_engine() {
    assert_eq!(
        MessageDestination::from(round_based::MessageDestination::AllParties),
        MessageDestination::AllParties
    );
    assert_eq!(
        MessageDestination::from(round_based::MessageDestination::OneParty(7)),
        MessageDestination::OneParty(7)
    );
}

#[test]
fn kinds_for_the_engine() {
    assert!(matches!(
        round_based::MessageType::from(MessageType::Broadcast),
        round_based::MessageType::Broadcast
    ));
    assert!(matches!(
        round_based::MessageType::from(MessageType::P2P),
        round_based::MessageType::P2P
    ));
}

#[test]
fn outgoing_from_the_engine() {
    let one = Outgoing::from(round_based::Outgoing {
        recipient: round_based::MessageDestination::OneParty(2),
        msg: "hello",
    });
    assert_eq!(one.recipient, MessageDestination::OneParty(2));
    assert_eq!(one.msg, "hello");
    let all = Outgoing::from(round_based::Outgoing {
        recipient: round_based::MessageDestination::AllParties,
        msg: 5u8,
    });
    assert_eq!(all.recipient, MessageDestination::AllParties);
    assert_eq!(all.msg, 5);
}

#[test]
fn incoming_for_the_engine() {
    let incoming = round_based::Incoming::from(Incoming {
        id: 9,
        sender: 3,
        msg_type: MessageType::P2P,
        msg: vec![1u8, 2],
    });
    assert_eq!(incoming.id, 9);
    assert_eq!(incoming.sender, 3);
    assert_eq!(incoming.msg, vec![1, 2]);
    assert!(matches!(incoming.msg_type, round_based::MessageType::P2P));
}

#[test]
fn messages_in_words() {
    let start: Data<u8> = Data::StartCmd { i: 1, n: 12, session_type: SessionType::Signing };
    assert_eq!(start.to_text(), "set parity idx, i: 1, n: 12");
    let incoming: Data<u8> =
        Data::Incoming(Incoming { id: 100, sender: 4, msg_type: MessageType::Broadcast, msg: 0 });
    assert_eq!(incoming.to_text(), "Incoming, id: 100, sender: 4, type: Broadcast");
    let direct: Data<u8> =
        Data::Incoming(Incoming { id: 0, sender: 0, msg_type: MessageType::P2P, msg: 0 });
    assert_eq!(direct.to_text(), "Incoming, id: 0, sender: 0, type: P2P");
    let one: Data<u8> =
        Data::Outgoing(Outgoing { recipient: MessageDestination::OneParty(65535), msg: 0 });
    assert_eq!(one.to_text(), "Outgoing, recipient: OneParty(65535)");
    let all: Data<u8> =
        Data::Outgoing(Outgoing { recipient: MessageDestination::AllParties, msg: 0 });
    assert_eq!(all.to_text(), "Outgoing, recipient: AllParties");
}

#[test]
fn names_are_those_of_the_debug_form() {
    for kind in [MessageType::Broadcast, MessageType::P2P] {
        assert_eq!(kind.name(), format!("{kind:?}"));
    }
    for destination in [MessageDestination::AllParties, MessageDestination::OneParty(40)] {
        assert_eq!(destination.name(), format!("{destination:?}"));
    }
}

#[test]
fn error_without_cause() {
    assert_eq!(error_chain_fmt(&ErrorChain::msg("lost")), "lost\n\n");
}

#[test]
fn error_with_causes() {
    let chain = ErrorChain::context("outer", String::from("middle"));
    assert_eq!(error_chain_fmt(&chain), "outer\n\nCaused by:\n\tmiddle\n");
    assert_eq!(
        error_chain_fmt(&chain.wrapped("top")),
        "top\n\nCaused by:\n\touter\nCaused by:\n\tmiddle\n"
    );
    assert_eq!(error_chain_fmt(&chain.copied()), error_chain_fmt(&chain));
}
