//! Routing: which party gets a message that another party hands over, and under
//! which number.

use std::collections::HashMap;

use vstd::prelude::*;

use crate::protocol::{Incoming, MessageDestination, MessageType, Outgoing};

verus! {

broadcast use vstd::std_specs::hash::group_hash_axioms;

/// Routes what one party sends. Every message that it hands on gets the next
/// number.
#[derive(Debug)]
pub struct Router {
    /// The index of the party whose messages are routed.
    pub my_index: u16,
    /// The number of the next message.
    pub next_id: u64,
}

/// A message on its way to the party `to`.
#[derive(Debug)]
pub struct Delivery<M> {
    pub to: u16,
    pub incoming: Incoming<M>,
}

/// The parties among `peers` that get a message: the one it is for, if it is
/// there, or all but the sender.
pub open spec fn receivers(peers: Set<u16>, sender: u16, recipient: MessageDestination) -> Set<
    u16,
> {
    match recipient {
        MessageDestination::OneParty(idx) => if peers.contains(idx) {
            set![idx]
        } else {
            Set::empty()
        },
        MessageDestination::AllParties => peers.remove(sender),
    }
}

/// The parties that the deliveries are for, in their order.
pub open spec fn targets<M>(deliveries: Seq<Delivery<M>>) -> Seq<u16> {
    deliveries.map_values(|d: Delivery<M>| d.to)
}

/// The kind of a message by whom it is for.
pub open spec fn kind_of(recipient: MessageDestination) -> MessageType {
    match recipient {
        MessageDestination::OneParty(_) => MessageType::P2P,
        MessageDestination::AllParties => MessageType::Broadcast,
    }
}

/// What the router hands on for one message: each receiver gets it once, with
/// the sender's index and with the numbers from `first` on. The order of the
/// receivers is open.
pub open spec fn routed<M: Clone>(
    deliveries: Seq<Delivery<M>>,
    peers: Set<u16>,
    sender: u16,
    first: int,
    out: Outgoing<M>,
) -> bool {
    &&& targets(deliveries).no_duplicates()
    &&& targets(deliveries).to_set() == receivers(
        peers,
        sender,
        out.recipient,
    )
    &&& forall|k: int|
        0 <= k < deliveries.len() ==> {
            let incoming = (#[trigger] deliveries[k]).incoming;
            &&& incoming.id == first + k
            &&& incoming.sender == sender
            &&& incoming.msg_type == kind_of(out.recipient)
            &&& cloned(out.msg, incoming.msg)
            &&& out.recipient is OneParty ==> incoming.msg == out.msg
        }
}

/// The indices of the parties of a network of `n` that party `me` can send to.
pub open spec fn other_parties(n: nat, me: u16) -> Set<u16> {
    Set::new(|j: u16| j < n && j != me)
}

/// The numbers from `next_id` on suffice for `count` messages. They always do as
/// long as there is one for each index that a party can have.
pub open spec fn numbers_left(next_id: u64, count: nat) -> bool {
    next_id <= u64::MAX - 65536 || next_id + count <= u64::MAX
}

/// The first `n` indices.
pub open spec fn first_indices(n: int) -> Set<u16> {
    Set::new(|idx: u16| idx < n)
}

/// There are `n` of the first `n` indices.
pub proof fn lemma_first_indices(n: int)
    requires
        0 <= n <= 65536,
    ensures
        first_indices(n).finite(),
        first_indices(n).len() == n,
    decreases n,
{
    if n == 0 {
        assert(first_indices(n) =~= Set::empty());
    } else {
        lemma_first_indices(n - 1);
        assert(first_indices(n) =~= first_indices(n - 1).insert((n - 1) as u16));
    }
}

/// There are no more than 65536 parties.
proof fn lemma_parties_len(parties: Set<u16>)
    ensures
        parties.finite(),
        parties.len() <= 65536,
{
    lemma_first_indices(65536);
    assert(parties.subset_of(first_indices(65536)));
    vstd::set_lib::lemma_len_subset(parties, first_indices(65536));
}

/// A message goes to no more than 65536 parties.
proof fn lemma_deliveries_len<M>(deliveries: Seq<Delivery<M>>)
    requires
        targets(deliveries).no_duplicates(),
    ensures
        deliveries.len() <= 65536,
{
    targets(deliveries).unique_seq_to_set();
    lemma_parties_len(targets(deliveries).to_set());
}

/// Distinct members of a set, one of them new, are no more than the set has.
proof fn lemma_one_more_fits(some: Seq<u16>, one: u16, all: Set<u16>)
    requires
        some.no_duplicates(),
        forall|k: int| 0 <= k < some.len() ==> all.contains(#[trigger] some[k]) && some[k] != one,
        all.contains(one),
        all.finite(),
    ensures
        some.len() + 1 <= all.len(),
{
    let more = some.push(one);
    assert(more.no_duplicates());
    more.unique_seq_to_set();
    assert(more.to_set().subset_of(all)) by {
        assert forall|x: u16| more.to_set().contains(x) implies all.contains(x) by {
            let k = choose|k: int| 0 <= k < more.len() && more[k] == x;
            if k < some.len() {
                assert(some[k] == x);
            }
        }
    }
    vstd::set_lib::lemma_len_subset(more.to_set(), all);
}

/// A party's place in a network. The router writes to `in_tx` and reads from
/// `out_rx`, the party reads from `in_rx` and writes to `out_tx`. A receiving half
/// is there until someone has taken it.
pub struct Endpoint<I, R, O, Q> {
    pub in_tx: I,
    pub out_rx: Option<Q>,
    pub in_rx: Option<R>,
    pub out_tx: O,
}

/// An endpoint of which neither receiving half has been taken.
pub fn new_endpoint<I, R, O, Q>(in_tx: I, in_rx: R, out_tx: O, out_rx: Q) -> (endpoint: Endpoint<
    I,
    R,
    O,
    Q,
>)
    ensures
        endpoint.in_tx == in_tx,
        endpoint.in_rx == Some(in_rx),
        endpoint.out_tx == out_tx,
        endpoint.out_rx == Some(out_rx),
{
    Endpoint { in_tx, out_rx: Some(out_rx), in_rx: Some(in_rx), out_tx }
}

/// The router of one party of a network, with what it reads from and whom it
/// writes to.
pub struct RouterTask<I, Q> {
    pub router: Router,
    pub out_rx: Q,
    pub peers_in: HashMap<u16, I>,
}

/// Connects party `me` to the inboxes of all the others; party `j` stands at
/// place `j`.
pub fn network_peers<I: Clone, R, O, Q>(endpoints: &Vec<Endpoint<I, R, O, Q>>, me: u16) -> (peers:
    HashMap<u16, I>)
    requires
        endpoints@.len() <= u16::MAX,
    ensures
        peers@.dom() == other_parties(endpoints@.len(), me),
        forall|j: u16| #[trigger]
            peers@.contains_key(j) ==> cloned(endpoints@[j as int].in_tx, peers@[j]),
{
    let mut peers: HashMap<u16, I> = HashMap::new();
    let mut j: u16 = 0;
    while (j as usize) < endpoints.len()
        invariant
            j <= endpoints@.len() <= u16::MAX,
            peers@.dom() =~= other_parties(j as nat, me),
            forall|k: u16| #[trigger]
                peers@.contains_key(k) ==> cloned(endpoints@[k as int].in_tx, peers@[k]),
        decreases endpoints@.len() - j,
    {
        if j != me {
            peers.insert(j, endpoints[j as usize].in_tx.clone());
        }
        j += 1;
    }
    peers
}

/// The task of party `i`: it reads what the party sends and writes to the
/// inboxes of all the others.
pub open spec fn is_task_of<I: Clone, R, O, Q>(
    task: RouterTask<I, Q>,
    endpoints: Seq<Endpoint<I, R, O, Q>>,
    i: int,
) -> bool {
    &&& task.router == (Router { my_index: i as u16, next_id: 0 })
    &&& endpoints[i].out_rx == Some(task.out_rx)
    &&& task.peers_in@.dom() == other_parties(endpoints.len(), i as u16)
    &&& forall|j: u16| #[trigger]
        task.peers_in@.contains_key(j) ==> cloned(endpoints[j as int].in_tx, task.peers_in@[j])
}

/// Connects the endpoints with each other: gives the router of each party, which
/// takes what the party sends, and the endpoints with all else left in them.
pub fn setup_network<I: Clone, R, O, Q>(endpoints: Vec<Endpoint<I, R, O, Q>>) -> (network: (
    Vec<Endpoint<I, R, O, Q>>,
    Vec<RouterTask<I, Q>>,
))
    requires
        endpoints@.len() <= u16::MAX,
        forall|i: int| 0 <= i < endpoints@.len() ==> (#[trigger] endpoints@[i]).out_rx is Some,
    ensures
        network.0@.len() == endpoints@.len(),
        network.1@.len() == endpoints@.len(),
        forall|i: int|
            0 <= i < endpoints@.len() ==> (#[trigger] network.0@[i]) == (Endpoint {
                out_rx: None,
                ..endpoints@[i]
            }),
        forall|i: int|
            0 <= i < endpoints@.len() ==> is_task_of(#[trigger] network.1@[i], endpoints@, i),
{
    let ghost before = endpoints@;
    let mut endpoints = endpoints;
    let mut tasks: Vec<RouterTask<I, Q>> = Vec::new();
    let mut i: u16 = 0;
    while (i as usize) < endpoints.len()
        invariant
            i <= before.len() <= u16::MAX,
            endpoints@.len() == before.len(),
            tasks@.len() == i,
            forall|k: int| 0 <= k < before.len() ==> (#[trigger] before[k]).out_rx is Some,
            forall|k: int|
                0 <= k < i ==> (#[trigger] endpoints@[k]) == (Endpoint {
                    out_rx: None,
                    ..before[k]
                }),
            forall|k: int| i <= k < before.len() ==> (#[trigger] endpoints@[k]) == before[k],
            forall|k: int| 0 <= k < i ==> is_task_of(#[trigger] tasks@[k], before, k),
        decreases before.len() - i,
    {
        assert(before[i as int].out_rx is Some);
        let peers_in: HashMap<u16, I> = network_peers(&endpoints, i);
        assert forall|j: u16| #[trigger] peers_in@.contains_key(j) implies cloned(
            before[j as int].in_tx,
            peers_in@[j],
        ) by {
            assert(endpoints@[j as int].in_tx == before[j as int].in_tx);
        }
        if let Some(out_rx) = endpoints[i as usize].out_rx.take() {
            tasks.push(RouterTask { router: Router::new(i), out_rx, peers_in });
        }
        i += 1;
    }
    (endpoints, tasks)
}

/// A party never gets what it broadcasts itself, and everyone else among its
/// peers does.
pub proof fn law_broadcast_reaches_all_others(peers: Set<u16>, sender: u16, party: u16)
    ensures
        receivers(peers, sender, MessageDestination::AllParties).contains(party) <==> (
        peers.contains(party) && party != sender),
{
}

/// In a network of `n` parties a broadcast of party `me` arrives once at each of
/// the others, a message for another party arrives at that party alone, and
/// nobody gets a message of their own, not even one for themselves. Whatever
/// arrives names its sender and its kind.
pub proof fn law_network_delivers<M: Clone>(
    n: nat,
    me: u16,
    first: int,
    out: Outgoing<M>,
    deliveries: Seq<Delivery<M>>,
)
    requires
        routed(deliveries, other_parties(n, me), me, first, out),
    ensures
        targets(deliveries).no_duplicates(),
        forall|party: u16| #[trigger]
            targets(deliveries).contains(party) <==> {
                &&& party < n
                &&& party != me
                &&& out.recipient matches MessageDestination::OneParty(idx) ==> party == idx
            },
        forall|k: int|
            0 <= k < deliveries.len() ==> (#[trigger] deliveries[k]).incoming.sender == me
                && deliveries[k].incoming.msg_type == kind_of(out.recipient),
{
    assert forall|party: u16| #[trigger] targets(deliveries).contains(party) == receivers(
        other_parties(n, me),
        me,
        out.recipient,
    ).contains(party) by {
        assert(targets(deliveries).to_set().contains(party) == targets(deliveries).contains(party));
    }
}

/// The deliveries of several messages one after the other.
pub open spec fn joined<M>(parts: Seq<Seq<Delivery<M>>>) -> Seq<Delivery<M>>
    decreases parts.len(),
{
    if parts.len() == 0 {
        Seq::empty()
    } else {
        joined(parts.drop_last()) + parts.last()
    }
}

/// What a router hands on for the messages `outs`, one after the other: for each
/// of them, to those of its peers of that time, with the numbers that follow.
pub open spec fn routed_in_turn<M: Clone>(
    parts: Seq<Seq<Delivery<M>>>,
    peers: Seq<Set<u16>>,
    sender: u16,
    first: int,
    outs: Seq<Outgoing<M>>,
) -> bool {
    &&& parts.len() == outs.len()
    &&& peers.len() == outs.len()
    &&& forall|m: int|
        0 <= m < outs.len() ==> routed(
            #[trigger] parts[m],
            peers[m],
            sender,
            first + joined(parts.take(m)).len(),
            outs[m],
        )
}

/// What comes of earlier messages stands in front.
proof fn lemma_joined_prefix<M>(parts: Seq<Seq<Delivery<M>>>, m: int)
    requires
        0 <= m <= parts.len(),
    ensures
        joined(parts.take(m)).is_prefix_of(joined(parts)),
    decreases parts.len(),
{
    if m == parts.len() {
        assert(parts.take(m) =~= parts);
    } else {
        lemma_joined_prefix(parts.drop_last(), m);
        assert(parts.drop_last().take(m) =~= parts.take(m));
        let head = joined(parts.drop_last());
        assert(joined(parts) == head + parts.last());
        assert(joined(parts.take(m)) =~= joined(parts).subrange(
            0,
            joined(parts.take(m)).len() as int,
        )) by {
            assert(joined(parts.take(m)) =~= head.subrange(
                0,
                joined(parts.take(m)).len() as int,
            ));
        }
    }
}

/// A router numbers all that it ever hands on without gap or repetition, in the
/// order of the messages it is given: of all deliveries together, the one at
/// place `k` has the number `first + k` and names the sender, and what comes of
/// the first `m` messages stands in front of what comes of the others.
pub proof fn law_numbers_are_consecutive<M: Clone>(
    parts: Seq<Seq<Delivery<M>>>,
    peers: Seq<Set<u16>>,
    sender: u16,
    first: int,
    outs: Seq<Outgoing<M>>,
)
    requires
        routed_in_turn(parts, peers, sender, first, outs),
    ensures
        forall|k: int|
            0 <= k < joined(parts).len() ==> (#[trigger] joined(parts)[k]).incoming.id == first + k
                && joined(parts)[k].incoming.sender == sender,
        forall|m: int|
            0 <= m <= outs.len() ==> (#[trigger] joined(parts.take(m))).is_prefix_of(joined(parts)),
    decreases parts.len(),
{
    assert forall|m: int| 0 <= m <= outs.len() implies (#[trigger] joined(
        parts.take(m),
    )).is_prefix_of(joined(parts)) by {
        lemma_joined_prefix(parts, m);
    }
    if parts.len() > 0 {
        let n = parts.len() - 1;
        let rest = parts.drop_last();
        assert forall|m: int| 0 <= m < n implies routed(
            #[trigger] rest[m],
            peers.drop_last()[m],
            sender,
            first + joined(rest.take(m)).len(),
            outs.drop_last()[m],
        ) by {
            assert(rest.take(m) =~= parts.take(m));
            assert(rest[m] == parts[m]);
        }
        law_numbers_are_consecutive(rest, peers.drop_last(), sender, first, outs.drop_last());
        assert(parts.take(n) =~= rest);
        assert(parts[n] == parts.last());
        assert forall|k: int| 0 <= k < joined(parts).len() implies (
        #[trigger] joined(parts)[k]).incoming.id == first + k
            && joined(parts)[k].incoming.sender == sender by {
            if k < joined(rest).len() {
                assert(joined(parts)[k] == joined(rest)[k]);
            } else {
                assert(joined(parts)[k] == parts[n][k - joined(rest).len()]);
            }
        }
    }
}

impl<I, Q> RouterTask<I, Q> {
    /// Hands on the next message of the party. Where there is none any more, the
    /// task has ended.
    pub fn step<M: Clone>(&mut self, next: Option<Outgoing<M>>) -> (deliveries: Option<
        Vec<Delivery<M>>,
    >)
        requires
            next matches Some(out) ==> numbers_left(
                old(self).router.next_id,
                receivers(
                    old(self).peers_in@.dom(),
                    old(self).router.my_index,
                    out.recipient,
                ).len(),
            ),
        ensures
            final(self).peers_in == old(self).peers_in,
            final(self).out_rx == old(self).out_rx,
            final(self).router.my_index == old(self).router.my_index,
            match next {
                None => deliveries is None && final(self).router == old(self).router,
                Some(out) => deliveries matches Some(handed_on) && {
                    &&& routed(
                        handed_on@,
                        old(self).peers_in@.dom(),
                        old(self).router.my_index,
                        old(self).router.next_id as int,
                        out,
                    )
                    &&& final(self).router.next_id == old(self).router.next_id + handed_on@.len()
                    &&& handed_on@.len() <= 65536
                },
            },
    {
        match next {
            Some(out) => Some(self.router.route(&self.peers_in, out)),
            None => None,
        }
    }
}

impl Router {
    /// A router that numbers the messages of party `my_index` from zero.
    pub fn new(my_index: u16) -> (router: Self)
        ensures
            router.my_index == my_index,
            router.next_id == 0,
    {
        Router { my_index, next_id: 0 }
    }

    /// Takes the next number.
    fn take_id(&mut self) -> (id: u64)
        requires
            old(self).next_id < u64::MAX,
        ensures
            id == old(self).next_id,
            final(self).next_id == old(self).next_id + 1,
            final(self).my_index == old(self).my_index,
    {
        let id: u64 = self.next_id;
        self.next_id = id + 1;
        id
    }

    /// Hands `out` on to those of `peers` that it is for.
    pub fn route<C, M: Clone>(&mut self, peers: &HashMap<u16, C>, out: Outgoing<M>) -> (deliveries:
        Vec<Delivery<M>>)
        requires
            numbers_left(
                old(self).next_id,
                receivers(peers@.dom(), old(self).my_index, out.recipient).len(),
            ),
        ensures
            routed(
                deliveries@,
                peers@.dom(),
                old(self).my_index,
                old(self).next_id as int,
                out,
            ),
            final(self).my_index == old(self).my_index,
            final(self).next_id == old(self).next_id + deliveries@.len(),
            deliveries@.len() <= 65536,
    {
        let mut deliveries: Vec<Delivery<M>> = Vec::new();
        proof {
            lemma_parties_len(receivers(peers@.dom(), self.my_index, out.recipient));
        }
        match out.recipient {
            MessageDestination::OneParty(idx) => {
                if peers.contains_key(&idx) {
                    let id: u64 = self.take_id();
                    deliveries.push(
                        Delivery {
                            to: idx,
                            incoming: Incoming {
                                id,
                                sender: self.my_index,
                                msg_type: MessageType::P2P,
                                msg: out.msg,
                            },
                        },
                    );
                }
                assert(targets(deliveries@).to_set() =~= receivers(
                    peers@.dom(),
                    self.my_index,
                    out.recipient,
                )) by {
                    if peers@.contains_key(idx) {
                        assert(targets(deliveries@)[0] == idx);
                    }
                }
                deliveries
            },
            MessageDestination::AllParties => {
                let ghost mine = self.my_index;
                let ghost first = self.next_id;
                let ghost goal = receivers(peers@.dom(), mine, out.recipient);
                for idx in walk: peers.keys()
                    invariant
                        self.my_index == mine,
                        self.next_id == first + deliveries@.len(),
                        first + goal.len() <= u64::MAX,
                        goal == peers@.dom().remove(mine),
                        goal.finite(),
                        walk.seq().unref().no_duplicates(),
                        walk.seq().unref().to_set() == peers@.dom(),
                        targets(deliveries@).no_duplicates(),
                        forall|k: int|
                            0 <= k < deliveries@.len() ==> {
                                let incoming = (#[trigger] deliveries@[k]).incoming;
                                &&& incoming.id == first + k
                                &&& incoming.sender == mine
                                &&& incoming.msg_type == MessageType::Broadcast
                                &&& cloned(out.msg, incoming.msg)
                                &&& deliveries@[k].to != mine
                                &&& walk.seq().unref().take(walk.index()).contains(
                                    deliveries@[k].to,
                                )
                            },
                        forall|j: int|
                            0 <= j < walk.index() && walk.seq().unref()[j] != mine ==> targets(
                                deliveries@,
                            ).contains(#[trigger] walk.seq().unref()[j]),
                {
                    let ghost order = walk.seq().unref();
                    let ghost at = walk.index();
                    let ghost before = targets(deliveries@);
                    proof {
                        assert(order[at] == *idx);
                        assert(order.to_set().contains(*idx));
                        assert(order.take(at + 1)[at] == *idx);
                        assert forall|x: u16| order.take(at).contains(x) implies order.take(
                            at + 1,
                        ).contains(x) && x != *idx by {
                            let j = choose|j: int| 0 <= j < at && order.take(at)[j] == x;
                            assert(order.take(at + 1)[j] == x);
                            assert(order[j] == x);
                        }
                    }
                    if *idx != self.my_index {
                        proof {
                            assert forall|k: int| 0 <= k < before.len() implies goal.contains(
                                #[trigger] before[k],
                            ) && before[k] != *idx by {
                                let x = deliveries@[k].to;
                                let j = choose|j: int| 0 <= j < at && order.take(at)[j] == x;
                                assert(order[j] == x);
                                assert(order.to_set().contains(x));
                            }
                            lemma_one_more_fits(before, *idx, goal);
                        }
                        let id: u64 = self.take_id();
                        deliveries.push(
                            Delivery {
                                to: *idx,
                                incoming: Incoming {
                                    id,
                                    sender: self.my_index,
                                    msg_type: MessageType::Broadcast,
                                    msg: out.msg.clone(),
                                },
                            },
                        );
                        proof {
                            assert(targets(deliveries@) =~= before.push(*idx));
                            assert(targets(deliveries@)[before.len() as int] == *idx);
                            assert forall|x: u16| before.contains(x) implies targets(
                                deliveries@,
                            ).contains(x) by {
                                let k = choose|k: int| 0 <= k < before.len() && before[k] == x;
                                assert(targets(deliveries@)[k] == x);
                            }
                        }
                    }
                }
                proof {
                    let order = vstd::std_specs::iter::IteratorSpec::remaining(
                        &peers.keys(),
                    ).unref();
                    assert forall|x: u16| goal.contains(x) implies targets(deliveries@).contains(
                        x,
                    ) by {
                        assert(order.to_set().contains(x));
                        let j = choose|j: int| 0 <= j < order.len() && order[j] == x;
                        assert(targets(deliveries@).contains(order[j]));
                    }
                    assert forall|x: u16| targets(deliveries@).contains(x) implies goal.contains(
                        x,
                    ) by {
                        let k = choose|k: int|
                            0 <= k < deliveries@.len() && targets(deliveries@)[k] == x;
                        assert(deliveries@[k].to == x);
                        assert(order.take(order.len() as int).contains(x));
                        assert(order.take(order.len() as int) =~= order);
                        assert(order.to_set().contains(x));
                    }
                    assert(targets(deliveries@).to_set() =~= goal);
                    lemma_deliveries_len(deliveries@);
                }
                deliveries
            },
        }
    }
}

/// Whoever the sender is and whether or not it is among the peers: a message for
/// one party goes to that party, if it is there, and to no other; a broadcast
/// goes to each peer but the sender.
pub proof fn law_receivers(peers: Set<u16>, sender: u16, idx: u16, party: u16)
    ensures
        receivers(peers, sender, MessageDestination::OneParty(idx)).contains(party) <==> party
            == idx && peers.contains(idx),
        receivers(peers, sender, MessageDestination::AllParties).contains(party) <==> party
            != sender && peers.contains(party),
{
}

/// What is handed on for a message, whoever the peers are: one delivery to each
/// party that the message is for and none to any other, the first with the number
/// `first` and each with the next one, all with the sender's index, the kind and
/// a copy of the payload.
pub proof fn law_routed<M: Clone>(
    deliveries: Seq<Delivery<M>>,
    peers: Set<u16>,
    sender: u16,
    first: int,
    out: Outgoing<M>,
    party: u16,
)
    requires
        routed(deliveries, peers, sender, first, out),
    ensures
        (exists|k: int| 0 <= k < deliveries.len() && (#[trigger] deliveries[k]).to == party)
            <==> peers.contains(party) && match out.recipient {
            MessageDestination::OneParty(idx) => party == idx,
            MessageDestination::AllParties => party != sender,
        },
        forall|j: int, k: int|
            0 <= j < k < deliveries.len() ==> (#[trigger] deliveries[j]).to != (
            #[trigger] deliveries[k]).to,
        forall|k: int|
            0 <= k < deliveries.len() ==> {
                let incoming = (#[trigger] deliveries[k]).incoming;
                &&& incoming.id == first + k
                &&& incoming.sender == sender
                &&& incoming.msg_type is Broadcast <==> out.recipient is AllParties
                &&& cloned(out.msg, incoming.msg)
                &&& out.recipient is OneParty ==> incoming.msg == out.msg
            },
{
    let to = targets(deliveries);
    assert(to.len() == deliveries.len());
    assert forall|k: int| 0 <= k < deliveries.len() implies (#[trigger] deliveries[k]).to
        == to[k] by {}
    assert(to.to_set().contains(party) == to.contains(party));
    assert(receivers(peers, sender, out.recipient).contains(party) == to.contains(party));
    if to.contains(party) {
        let k = choose|k: int| 0 <= k < to.len() && to[k] == party;
        assert(deliveries[k].to == party);
    }
    if exists|k: int| 0 <= k < deliveries.len() && (#[trigger] deliveries[k]).to == party {
        let k = choose|k: int| 0 <= k < deliveries.len() && (#[trigger] deliveries[k]).to == party;
        assert(to[k] == party);
    }
    assert forall|j: int, k: int| 0 <= j < k < deliveries.len() implies (
    #[trigger] deliveries[j]).to != (#[trigger] deliveries[k]).to by {
        assert(to[j] != to[k]);
    }
}

/// A router always has numbers for a message while it has one for each index,
/// and otherwise exactly if they reach that far.
pub proof fn law_numbers_left(next_id: u64, count: nat)
    ensures
        next_id <= u64::MAX - 65536 ==> numbers_left(next_id, count),
        next_id > u64::MAX - 65536 ==> (numbers_left(next_id, count) <==> next_id + count
            <= u64::MAX),
{
}

/// The router of party `i` of a network is that of party `i`: it numbers from
/// zero, takes what party `i` sends, and writes to the inbox of every other party
/// and to its own never.
pub proof fn law_task_of_a_party<I: Clone, R, O, Q>(
    task: RouterTask<I, Q>,
    endpoints: Seq<Endpoint<I, R, O, Q>>,
    i: int,
    j: u16,
)
    requires
        0 <= i < endpoints.len() <= 65535,
        is_task_of(task, endpoints, i),
    ensures
        task.router.my_index == i,
        task.router.next_id == 0,
        endpoints[i].out_rx == Some(task.out_rx),
        task.peers_in@.contains_key(j) <==> j < endpoints.len() && j != i,
        task.peers_in@.contains_key(j) ==> cloned(endpoints[j as int].in_tx, task.peers_in@[j]),
{
    assert(task.peers_in@.dom().contains(j) == other_parties(endpoints.len(), i as u16).contains(
        j,
    ));
}

} // verus!
