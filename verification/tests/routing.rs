use std::collections::{BTreeSet, HashMap};

use mpc::protocol::{MessageDestination, MessageType, Outgoing};
use mpc::router::{network_peers, new_endpoint, setup_network, Delivery, Endpoint, Router};

fn peers(indices: &[u16]) -> HashMap<u16, char> {
    indices.iter().map(|i| (*i, 'c')).collect()
}

fn to_one(idx: u16, msg: &str) -> Outgoing<String> {
    Outgoing { recipient: MessageDestination::OneParty(idx), msg: String::from(msg) }
}

fn to_all(msg: &str) -> Outgoing<String> {
    Outgoing { recipient: MessageDestination::AllParties, msg: String::from(msg) }
}

fn receivers(deliveries: &[Delivery<String>]) -> BTreeSet<u16> {
    deliveries.iter().map(|d| d.to).collect()
}

#[test]
fn message_for_one_party() {
    let mut router = Router::new(0);
    let deliveries = router.route(&peers(&[1, 2, 3]), to_one(2, "hello"));
    assert_eq!(deliveries.len(), 1);
    assert_eq!(deliveries[0].to, 2);
    assert_eq!(deliveries[0].incoming.id, 0);
    assert_eq!(deliveries[0].incoming.sender, 0);
    assert_eq!(deliveries[0].incoming.msg_type, MessageType::P2P);
    assert_eq!(deliveries[0].incoming.msg, "hello");
    assert_eq!(router.next_id, 1);
}

#[test]
fn message_for_an_absent_party() {
    let mut router = Router::new(0);
    assert!(router.route(&peers(&[1]), to_one(9, "hello")).is_empty());
    assert_eq!(router.next_id, 0);
}

#[test]
fn message_to_oneself() {
    let mut router = Router::new(4);
    let deliveries = router.route(&peers(&[4, 5]), to_one(4, "note"));
    assert_eq!(receivers(&deliveries), BTreeSet::from([4]));
}

#[test]
fn broadcast_reaches_all_but_the_sender() {
    let mut router = Router::new(2);
    let deliveries = router.route(&peers(&[0, 1, 2, 3]), to_all("hello"));
    assert_eq!(receivers(&deliveries), BTreeSet::from([0, 1, 3]));
    assert_eq!(deliveries.len(), 3);
    for (k, delivery) in deliveries.iter().enumerate() {
        assert_eq!(delivery.incoming.id, k as u64);
        assert_eq!(delivery.incoming.sender, 2);
        assert_eq!(delivery.incoming.msg_type, MessageType::Broadcast);
        assert_eq!(delivery.incoming.msg, "hello");
    }
    assert_eq!(router.next_id, 3);
}

#[test]
fn broadcast_to_nobody() {
    let mut router = Router::new(0);
    assert!(router.route(&peers(&[]), to_all("hello")).is_empty());
    assert!(router.route(&peers(&[0]), to_all("hello")).is_empty());
    assert_eq!(router.next_id, 0);
}

#[test]
fn numbers_go_on_from_message_to_message() {
    let mut router = Router::new(0);
    let network = peers(&[1, 2]);
    let mut all = router.route(&network, to_all("a"));
    all.extend(router.route(&network, to_one(7, "lost")));
    all.extend(router.route(&network, to_one(1, "b")));
    all.extend(router.route(&network, to_all("c")));
    let ids: Vec<u64> = all.iter().map(|d| d.incoming.id).collect();
    assert_eq!(ids, vec![0, 1, 2, 3, 4]);
}

#[test]
fn numbers_can_be_used_up() {
    let mut router = Router { my_index: 0, next_id: u64::MAX - 2 };
    let deliveries = router.route(&peers(&[1, 2]), to_all("last"));
    assert_eq!(deliveries[1].incoming.id, u64::MAX - 1);
    assert_eq!(router.next_id, u64::MAX);
}

type TestEndpoint = Endpoint<String, u32, char, u64>;

fn endpoints(n: u16) -> Vec<TestEndpoint> {
    (0..n).map(|i| new_endpoint(format!("inbox {i}"), 100 + i as u32, 'o', i as u64)).collect()
}

#[test]
fn endpoint_has_both_receiving_halves() {
    let endpoint = new_endpoint("in_tx", "in_rx", "out_tx", "out_rx");
    assert_eq!(endpoint.in_tx, "in_tx");
    assert_eq!(endpoint.in_rx, Some("in_rx"));
    assert_eq!(endpoint.out_tx, "out_tx");
    assert_eq!(endpoint.out_rx, Some("out_rx"));
}

#[test]
fn peers_are_all_the_others() {
    let network = endpoints(4);
    for me in 0..4u16 {
        let peers = network_peers(&network, me);
        assert_eq!(peers.len(), 3);
        for j in 0..4u16 {
            if j == me {
                assert!(!peers.contains_key(&j));
            } else {
                assert_eq!(peers[&j], format!("inbox {j}"));
            }
        }
    }
    assert!(network_peers(&endpoints(1), 0).is_empty());
    assert!(network_peers(&endpoints(0), 0).is_empty());
}

#[test]
fn network_of_four() {
    let (network, tasks) = setup_network(endpoints(4));
    assert_eq!(network.len(), 4);
    assert_eq!(tasks.len(), 4);
    for (i, endpoint) in network.iter().enumerate() {
        assert!(endpoint.out_rx.is_none());
        assert_eq!(endpoint.in_rx, Some(100 + i as u32));
        assert_eq!(endpoint.in_tx, format!("inbox {i}"));
        assert_eq!(endpoint.out_tx, 'o');
    }
    for (i, task) in tasks.iter().enumerate() {
        assert_eq!(task.router.my_index, i as u16);
        assert_eq!(task.router.next_id, 0);
        assert_eq!(task.out_rx, i as u64);
        assert_eq!(task.peers_in.len(), 3);
        assert!(!task.peers_in.contains_key(&(i as u16)));
    }
}

#[test]
fn network_of_none() {
    let (network, tasks) = setup_network(endpoints(0));
    assert!(network.is_empty() && tasks.is_empty());
}

#[test]
fn network_delivers_to_the_others() {
    let (_, tasks) = setup_network(endpoints(4));
    for mut task in tasks {
        let me = task.router.my_index;
        let all = task.step(Some(to_all("x"))).unwrap();
        assert_eq!(all.len(), 3);
        assert_eq!(receivers(&all), (0..4).filter(|j| *j != me).collect());
        for j in 0..5u16 {
            let one = task.step(Some(to_one(j, "y"))).unwrap();
            if j < 4 && j != me {
                assert_eq!(one.len(), 1);
                assert_eq!(one[0].to, j);
                assert_eq!(one[0].incoming.sender, me);
                assert_eq!(one[0].incoming.msg_type, MessageType::P2P);
            } else {
                assert!(one.is_empty());
            }
        }
    }
}

#[test]
fn router_numbers_a_whole_sequence() {
    let (_, mut tasks) = setup_network(endpoints(3));
    let mut all = vec![];
    for out in [to_all("a"), to_one(0, "b"), to_one(1, "lost"), to_all("c"), to_one(2, "d")] {
        all.extend(tasks[1].step(Some(out)).unwrap());
    }
    let ids: Vec<u64> = all.iter().map(|d| d.incoming.id).collect();
    assert_eq!(ids, vec![0, 1, 2, 3, 4, 5]);
    assert!(all.iter().all(|d| d.incoming.sender == 1));
    let for_zero: Vec<&str> =
        all.iter().filter(|d| d.to == 0).map(|d| d.incoming.msg.as_str()).collect();
    assert_eq!(for_zero, vec!["a", "b", "c"]);
}

#[test]
fn router_ends_with_its_party() {
    let (_, mut tasks) = setup_network(endpoints(2));
    assert!(tasks[0].step(None::<Outgoing<String>>).is_none());
    assert_eq!(tasks[0].router.next_id, 0);
}
