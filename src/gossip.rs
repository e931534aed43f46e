use vstd::prelude::*;

use crate::chance::draw_ratio;
use crate::error::NodeError;
use crate::message::{Body, Event, Init, Message};
use crate::node::Node;
use crate::valueset::{contains_value, insert_value, union_into};

verus! {

/// What a broadcast node sends and receives.
#[derive(Debug, Clone)]
pub enum Payload {
    Broadcast { message: usize },
    BroadcastOk,
    Read,
    ReadOk { messages: Vec<usize> },
    /// Each node's neighbours, one row per node.
    Topology { topology: Vec<(String, Vec<String>)> },
    TopologyOk,
    Gossip { seen: Vec<usize> },
}

/// The signal a broadcast node injects for itself on a fixed period.
#[derive(Debug, Clone, Copy, PartialEq, Eq, Structural)]
pub enum InjectedPayload {
    Gossip,
}

/// A node that replicates a growing set of values across the cluster by
/// periodic anti-entropy gossip with its neighbours.
///
/// `messages` holds every value seen, each once. `peers[i]` is a member of the
/// roster and `known[i]` what this node believes that peer has seen.
pub struct BroadcastNode {
    pub id: usize,
    pub node: String,
    pub messages: Vec<usize>,
    pub peers: Vec<String>,
    pub known: Vec<Vec<usize>>,
    pub neighborhood: Vec<String>,
}

/// No two names of `s` are the same.
pub open spec fn distinct_names(s: Seq<String>) -> bool {
    forall|i: int, j: int| 0 <= i < s.len() && 0 <= j < s.len() && i != j ==> s[i]@ != s[j]@
}

/// Whether `p` is one of the names in `s`.
pub open spec fn names_contain(s: Seq<String>, p: Seq<char>) -> bool {
    exists|i: int| 0 <= i < s.len() && s[i]@ == p
}

impl BroadcastNode {
    /// Values are held once each, every roster member has one record of
    /// what it has seen, and no member is listed twice.
    pub open spec fn wf(&self) -> bool {
        &&& self.messages@.no_duplicates()
        &&& self.peers.len() == self.known.len()
        &&& distinct_names(self.peers@)
    }

    /// The set of values this node has seen.
    pub open spec fn values(&self) -> Set<usize> {
        self.messages@.to_set()
    }

    /// What this node believes the peer in slot `i` has seen.
    pub open spec fn known_at(&self, i: int) -> Set<usize> {
        self.known[i]@.to_set()
    }

    /// A fresh node: no values, no neighbours, and for each member of the
    /// roster an empty record of what it has seen.
    pub fn new(init: Init) -> (r: Self)
        ensures
            r.wf(),
            r.id == 1,
            r.node@ == init.node_id@,
            r.messages@.len() == 0,
            r.neighborhood@.len() == 0,
            forall|p: Seq<char>| names_contain(r.peers@, p) <==> names_contain(init.node_ids@, p),
            forall|i: int| 0 <= i < r.known.len() ==> (#[trigger] r.known[i])@.len() == 0,
    {
        let mut peers: Vec<String> = Vec::new();
        let mut known: Vec<Vec<usize>> = Vec::new();
        let mut i: usize = 0;
        while i < init.node_ids.len()
            invariant
                i <= init.node_ids.len(),
                peers.len() == known.len(),
                distinct_names(peers@),
                forall|p: Seq<char>|
                    names_contain(peers@, p) <==> names_contain(init.node_ids@.take(i as int), p),
                forall|j: int| 0 <= j < known.len() ==> (#[trigger] known[j])@.len() == 0,
            decreases init.node_ids.len() - i,
        {
            let ghost prev = peers@;
            assert(forall|p: Seq<char>|
                names_contain(prev, p) <==> names_contain(init.node_ids@.take(i as int), p));
            let name = &init.node_ids[i];
            let found = find_name(&peers, name);
            if found.is_none() {
                peers.push(name.clone());
                known.push(Vec::new());
            }
            assert forall|p: Seq<char>|
                names_contain(peers@, p) <==> names_contain(
                    init.node_ids@.take(i + 1),
                    p,
                ) by {
                let next = init.node_ids@.take(i + 1);
                assert(names_contain(prev, p) <==> names_contain(init.node_ids@.take(i as int), p));
                assert(next[i as int] == init.node_ids@[i as int]);
                if names_contain(next, p) {
                    let j = choose|j: int| 0 <= j < next.len() && next[j]@ == p;
                    if j < i {
                        assert(init.node_ids@.take(i as int)[j] == next[j]);
                        assert(names_contain(init.node_ids@.take(i as int), p));
                        let k = choose|k: int| 0 <= k < prev.len() && prev[k]@ == p;
                        assert(peers@[k] == prev[k]);
                    } else if found.is_none() {
                        assert(peers@[prev.len() as int]@ == p);
                    }
                }
                if names_contain(peers@, p) {
                    let k = choose|k: int| 0 <= k < peers@.len() && peers@[k]@ == p;
                    if k < prev.len() {
                        assert(prev[k]@ == p);
                        assert(names_contain(prev, p));
                        let j = choose|j: int|
                            0 <= j < i && init.node_ids@.take(i as int)[j]@ == p;
                        assert(next[j] == init.node_ids@.take(i as int)[j]);
                    } else {
                        assert(next[i as int]@ == p);
                    }
                }
            }
            i = i + 1;
        }
        assert(init.node_ids@.take(init.node_ids.len() as int) =~= init.node_ids@);
        BroadcastNode {
            id: 1,
            node: init.node_id,
            messages: Vec::new(),
            peers,
            known,
            neighborhood: Vec::new(),
        }
    }

    /// How a message moves this node from `self` to `next`, answering `r`.
    pub open spec fn message_step(
        &self,
        next: &Self,
        m: Message<Payload>,
        r: Result<Vec<Message<Payload>>, NodeError>,
    ) -> bool {
        &&& next.wf()
        &&& next.node == self.node
        &&& next.peers == self.peers
        &&& next.messages@.len() >= self.messages@.len()
        &&& next.messages@.subrange(0, self.messages@.len() as int) == self.messages@
        &&& self.id == usize::MAX ==> r == Err::<Vec<Message<Payload>>, NodeError>(
            NodeError::IdsExhausted,
        )
        &&& self.id < usize::MAX ==> next.id == self.id + 1
        &&& r is Err ==> {
            &&& next.messages == self.messages
            &&& next.known == self.known
            &&& next.neighborhood == self.neighborhood
        }
        &&& self.id < usize::MAX ==> match m.body.payload {
            Payload::Broadcast { message } => {
                &&& r matches Ok(out) && out.len() == 1 && answers(out[0], m, self.id)
                    && out[0].body.payload is BroadcastOk
                &&& next.values() == self.values().insert(message)
                &&& next.known == self.known
                &&& next.neighborhood == self.neighborhood
            },
            Payload::Read => {
                &&& r matches Ok(out) && out.len() == 1 && answers(out[0], m, self.id) && (
                out[0].body.payload matches Payload::ReadOk { messages } && messages@
                    == self.messages@)
                &&& next.messages == self.messages
                &&& next.known == self.known
                &&& next.neighborhood == self.neighborhood
            },
            Payload::Topology { topology } => {
                &&& !has_row(topology@, self.node@) ==> r == Err::<
                    Vec<Message<Payload>>,
                    NodeError,
                >(NodeError::MissingTopology)
                &&& has_row(topology@, self.node@) ==> {
                    &&& r matches Ok(out) && out.len() == 1 && answers(out[0], m, self.id)
                        && out[0].body.payload is TopologyOk
                    &&& exists|i: int|
                        first_row(topology@, self.node@, i) && next.neighborhood@
                            == topology@[i].1@
                }
                &&& next.messages == self.messages
                &&& next.known == self.known
            },
            Payload::Gossip { seen } => {
                &&& !names_contain(self.peers@, m.src@) ==> r == Err::<
                    Vec<Message<Payload>>,
                    NodeError,
                >(NodeError::UnknownPeer)
                &&& names_contain(self.peers@, m.src@) ==> {
                    &&& r matches Ok(out) && out.len() == 0
                    &&& next.values() == self.values() + seen@.to_set()
                    &&& forall|i: int|
                        0 <= i < self.peers.len() ==> next.known_at(i) == if self.peers@[i]@
                            == m.src@ {
                            self.known_at(i) + seen@.to_set()
                        } else {
                            self.known_at(i)
                        }
                }
                &&& next.neighborhood == self.neighborhood
            },
            _ => {
                &&& r matches Ok(out) && out.len() == 0
                &&& next.messages == self.messages
                &&& next.known == self.known
                &&& next.neighborhood == self.neighborhood
            },
        }
    }

    /// Handles a message from a peer or a client. Every message takes the
    /// next message id, whether or not it is answered.
    pub fn handle_message(&mut self, m: Message<Payload>) -> (r: Result<
        Vec<Message<Payload>>,
        NodeError,
    >)
        requires
            old(self).wf(),
        ensures
            final(self).wf(),
            old(self).message_step(&*final(self), m, r),
    {
        assert(self.messages@.subrange(0, self.messages@.len() as int) =~= self.messages@);
        if self.id == usize::MAX {
            return Err(NodeError::IdsExhausted);
        }
        let ghost m0 = m;
        let reply = m.into_reply(Some(&mut self.id));
        let src = reply.src;
        let dst = reply.dst;
        let id = reply.body.id;
        let in_reply_to = reply.body.in_reply_to;
        match reply.body.payload {
            Payload::Broadcast { message } => {
                insert_value(&mut self.messages, message);
                assert(self.messages@.subrange(0, old(self).messages@.len() as int)
                    =~= old(self).messages@);
                let out = Message {
                    src,
                    dst,
                    body: Body { id, in_reply_to, payload: Payload::BroadcastOk },
                };
                Ok(vec![out])
            },
            Payload::Read => {
                let messages = self.messages.clone();
                assert(messages@ =~= self.messages@);
                let out = Message {
                    src,
                    dst,
                    body: Body { id, in_reply_to, payload: Payload::ReadOk { messages } },
                };
                Ok(vec![out])
            },
            Payload::Topology { mut topology } => {
                match find_row(&topology, &self.node) {
                    None => Err(NodeError::MissingTopology),
                    Some(i) => {
                        let ghost t0 = topology@;
                        let row = topology.swap_remove(i);
                        assert(first_row(t0, old(self).node@, i as int));
                        self.neighborhood = row.1;
                        let out = Message {
                            src,
                            dst,
                            body: Body { id, in_reply_to, payload: Payload::TopologyOk },
                        };
                        Ok(vec![out])
                    },
                }
            },
            Payload::Gossip { seen } => {
                match find_name(&self.peers, &dst) {
                    None => Err(NodeError::UnknownPeer),
                    Some(i) => {
                        let mut merged = self.known[i].clone();
                        assert(merged@ =~= self.known[i as int]@);
                        union_into(&mut merged, &seen);
                        self.known.set(i, merged);
                        union_into(&mut self.messages, &seen);
                        assert forall|j: int| 0 <= j < old(self).peers.len() implies self.known_at(j)
                            == if old(self).peers@[j]@ == m0.src@ {
                            old(self).known_at(j) + seen@.to_set()
                        } else {
                            old(self).known_at(j)
                        } by {
                            if j != i {
                                assert(old(self).peers@[j]@ != old(self).peers@[i as int]@);
                            }
                        }
                        Ok(Vec::new())
                    },
                }
            },
            _ => {
                Ok(Vec::new())
            },
        }
    }

    /// `g` is the gossip this node owes its `j`-th neighbour.
    pub open spec fn gossip_to(&self, g: Message<Payload>, j: int) -> bool {
        &&& g.src@ == self.node@
        &&& g.dst@ == self.neighborhood@[j]@
        &&& g.body.id is None
        &&& g.body.in_reply_to is None
        &&& g.body.payload matches Payload::Gossip { seen } && exists|i: int|
            0 <= i < self.peers.len() && self.peers@[i]@ == self.neighborhood@[j]@
                && gossip_payload(seen@, self.messages@, self.known_at(i))
    }

    /// `r` is a round of gossip from this node: fatal when a neighbour is
    /// outside the roster, else one message per neighbour, in order.
    pub open spec fn gossip_outcome(&self, r: Result<Vec<Message<Payload>>, NodeError>) -> bool {
        &&& (exists|j: int|
            0 <= j < self.neighborhood.len() && !names_contain(
                self.peers@,
                #[trigger] self.neighborhood@[j]@,
            )) <==> r == Err::<Vec<Message<Payload>>, NodeError>(NodeError::UnknownPeer)
        &&& r is Err ==> r == Err::<Vec<Message<Payload>>, NodeError>(NodeError::UnknownPeer)
        &&& r matches Ok(out) ==> out.len() == self.neighborhood.len() && forall|j: int|
            0 <= j < out.len() ==> self.gossip_to(#[trigger] out[j], j)
    }

    /// One round of anti-entropy: a gossip message to each neighbour, in the
    /// order of the neighbourhood. A neighbour outside the roster is fatal.
    pub fn gossip_round(&self) -> (r: Result<Vec<Message<Payload>>, NodeError>)
        requires
            self.wf(),
        ensures
            self.gossip_outcome(r),
    {
        let mut out: Vec<Message<Payload>> = Vec::new();
        let mut j: usize = 0;
        while j < self.neighborhood.len()
            invariant
                self.wf(),
                j <= self.neighborhood.len(),
                out.len() == j,
                forall|l: int| 0 <= l < j ==> names_contain(self.peers@, self.neighborhood@[l]@),
                forall|l: int| 0 <= l < j ==> self.gossip_to(#[trigger] out[l], l),
            decreases self.neighborhood.len() - j,
        {
            let n = &self.neighborhood[j];
            match find_name(&self.peers, n) {
                None => {
                    return Err(NodeError::UnknownPeer);
                },
                Some(i) => {
                    let seen = gossip_for(&self.messages, &self.known[i]);
                    let g = Message {
                        src: self.node.clone(),
                        dst: n.clone(),
                        body: Body { id: None, in_reply_to: None, payload: Payload::Gossip { seen } },
                    };
                    assert(self.known_at(i as int) == self.known@[i as int]@.to_set());
                    assert(self.gossip_to(g, j as int));
                    out.push(g);
                },
            }
            j = j + 1;
        }
        Ok(out)
    }
}

/// The values of `ms` that `k` does not hold, in order.
pub open spec fn unknown_part(ms: Seq<usize>, k: Set<usize>) -> Seq<usize> {
    ms.filter(|m: usize| !k.contains(m))
}

/// The values of `ms` that `k` holds, in order.
pub open spec fn known_part(ms: Seq<usize>, k: Set<usize>) -> Seq<usize> {
    ms.filter(|m: usize| k.contains(m))
}

/// The values of `s` whose place in `picks` is `true`, in order.
pub open spec fn picked(s: Seq<usize>, picks: Seq<bool>) -> Seq<usize>
    decreases s.len(),
{
    if s.len() == 0 {
        s
    } else {
        let rest = picked(s.drop_last(), picks);
        if picks[s.len() - 1] {
            rest.push(s.last())
        } else {
            rest
        }
    }
}

/// How many already-known values a gossip message may repeat: a tenth of
/// the new ones, rounded down, and no more than there are.
pub open spec fn extra_cap(unknown: nat, known: nat) -> nat {
    let budget = unknown / 10;
    if budget < known {
        budget
    } else {
        known
    }
}

/// How many places of `picks` are `true`.
pub open spec fn count_true(picks: Seq<bool>) -> nat
    decreases picks.len(),
{
    if picks.len() == 0 {
        0
    } else {
        count_true(picks.drop_last()) + if picks.last() {
            1nat
        } else {
            0nat
        }
    }
}

/// `picks` chooses among `known` already-known values, with `unknown` new
/// ones beside them: never more than the cap, none when the cap is zero, all
/// when it covers them all.
pub open spec fn picks_allowed(picks: Seq<bool>, unknown: nat, known: nat) -> bool {
    &&& picks.len() == known
    &&& count_true(picks) <= extra_cap(unknown, known)
    &&& extra_cap(unknown, known) == 0 ==> forall|j: int| 0 <= j < picks.len() ==> !picks[j]
    &&& extra_cap(unknown, known) == known ==> forall|j: int| 0 <= j < picks.len() ==> picks[j]
}

/// `seen` is what a node holding `ms` may gossip to a neighbour it believes
/// holds `k`: every value the neighbour lacks, then a chosen few of those it
/// holds already.
pub open spec fn gossip_payload(seen: Seq<usize>, ms: Seq<usize>, k: Set<usize>) -> bool {
    exists|picks: Seq<bool>|
        picks_allowed(picks, unknown_part(ms, k).len(), known_part(ms, k).len()) && seen
            == unknown_part(ms, k) + picked(known_part(ms, k), picks)
}

/// Splits `messages` into the values `knows` holds and those it lacks, each
/// in the order of `messages`.
pub fn split_by_known(messages: &Vec<usize>, knows: &Vec<usize>) -> (r: (Vec<usize>, Vec<usize>))
    ensures
        r.0@ == known_part(messages@, knows@.to_set()),
        r.1@ == unknown_part(messages@, knows@.to_set()),
{
    let ghost k = knows@.to_set();
    let mut already_known: Vec<usize> = Vec::new();
    let mut notify_of: Vec<usize> = Vec::new();
    let mut i: usize = 0;
    while i < messages.len()
        invariant
            i <= messages.len(),
            k == knows@.to_set(),
            already_known@ == known_part(messages@.take(i as int), k),
            notify_of@ == unknown_part(messages@.take(i as int), k),
        decreases messages.len() - i,
    {
        let m = messages[i];
        assert(messages@.take(i + 1).drop_last() =~= messages@.take(i as int));
        assert(messages@.take(i + 1).last() == m);
        reveal(Seq::filter);
        if contains_value(knows, m) {
            already_known.push(m);
        } else {
            notify_of.push(m);
        }
        i = i + 1;
    }
    assert(messages@.take(messages.len() as int) =~= messages@);
    (already_known, notify_of)
}

/// Appends to `notify_of` the values of `already_known` that `picks` chooses.
pub fn with_extras(notify_of: Vec<usize>, already_known: &Vec<usize>, picks: &Vec<bool>) -> (r: Vec<
    usize,
>)
    requires
        picks.len() == already_known.len(),
    ensures
        r@ == notify_of@ + picked(already_known@, picks@),
{
    let mut r = notify_of;
    let mut i: usize = 0;
    while i < already_known.len()
        invariant
            i <= already_known.len(),
            picks.len() == already_known.len(),
            r@ == notify_of@ + picked(already_known@.take(i as int), picks@),
        decreases already_known.len() - i,
    {
        assert(already_known@.take(i + 1).drop_last() =~= already_known@.take(i as int));
        if picks[i] {
            r.push(already_known[i]);
            assert(r@ =~= notify_of@ + picked(already_known@.take(i + 1), picks@));
        } else {
            assert(r@ =~= notify_of@ + picked(already_known@.take(i + 1), picks@));
        }
        i = i + 1;
    }
    assert(already_known@.take(already_known.len() as int) =~= already_known@);
    r
}

/// Decides, one draw each, which of `known` already-known values to repeat
/// beside `unknown` new ones, each with probability cap over `known`, and
/// stops choosing once the cap is reached.
fn draw_picks(unknown: usize, known: usize) -> (r: Vec<bool>)
    ensures
        picks_allowed(r@, unknown as nat, known as nat),
{
    let mut picks: Vec<bool> = Vec::new();
    if known == 0 {
        return picks;
    }
    let budget: usize = unknown / 10;
    let cap: usize = if budget < known {
        budget
    } else {
        known
    };
    let denominator: u32 = if known > u32::MAX as usize {
        u32::MAX
    } else {
        known as u32
    };
    let numerator: u32 = if cap > denominator as usize {
        denominator
    } else {
        cap as u32
    };
    let mut chosen: usize = 0;
    let mut i: usize = 0;
    while i < known
        invariant
            i <= known,
            picks@.len() == i,
            cap as nat == extra_cap(unknown as nat, known as nat),
            cap <= known,
            0 < denominator,
            numerator <= denominator,
            cap == 0 ==> numerator == 0,
            cap == known ==> numerator == denominator,
            chosen as nat == count_true(picks@),
            chosen <= cap,
            chosen <= i,
            cap == 0 ==> forall|j: int| 0 <= j < i ==> !picks@[j],
            cap == known ==> forall|j: int| 0 <= j < i ==> picks@[j],
        decreases known - i,
    {
        let pick = if chosen < cap {
            draw_ratio(numerator, denominator)
        } else {
            false
        };
        let ghost before = picks@;
        picks.push(pick);
        assert(picks@.drop_last() =~= before);
        if pick {
            chosen = chosen + 1;
        }
        i = i + 1;
    }
    picks
}

/// What to gossip to a neighbour believed to hold `knows`, given all the
/// values `messages` held here.
pub fn gossip_for(messages: &Vec<usize>, knows: &Vec<usize>) -> (r: Vec<usize>)
    ensures
        gossip_payload(r@, messages@, knows@.to_set()),
{
    let (already_known, notify_of) = split_by_known(messages, knows);
    let picks = draw_picks(notify_of.len(), already_known.len());
    let r = with_extras(notify_of, &already_known, &picks);
    assert(picks_allowed(
        picks@,
        unknown_part(messages@, knows@.to_set()).len(),
        known_part(messages@, knows@.to_set()).len(),
    ));
    r
}

/// `r` answers `m`: the endpoints swapped, the id `id`, and `m`'s id as the one
/// it replies to.
pub open spec fn answers(r: Message<Payload>, m: Message<Payload>, id: usize) -> bool {
    &&& r.src@ == m.dst@
    &&& r.dst@ == m.src@
    &&& r.body.id == Some(id)
    &&& r.body.in_reply_to == m.body.id
}

/// Whether `topology` has a row for `node`.
pub open spec fn has_row(topology: Seq<(String, Vec<String>)>, node: Seq<char>) -> bool {
    exists|i: int| 0 <= i < topology.len() && topology[i].0@ == node
}

/// `i` is the first row of `topology` that belongs to `node`.
pub open spec fn first_row(topology: Seq<(String, Vec<String>)>, node: Seq<char>, i: int) -> bool {
    &&& 0 <= i < topology.len()
    &&& topology[i].0@ == node
    &&& forall|j: int| 0 <= j < i ==> topology[j].0@ != node
}

/// The first row of `topology` that belongs to `node`, if there is one.
pub fn find_row(topology: &Vec<(String, Vec<String>)>, node: &String) -> (r: Option<usize>)
    ensures
        r matches Some(i) ==> first_row(topology@, node@, i as int),
        r is None <==> !has_row(topology@, node@),
{
    let mut i: usize = 0;
    while i < topology.len()
        invariant
            i <= topology.len(),
            forall|j: int| 0 <= j < i ==> topology@[j].0@ != node@,
        decreases topology.len() - i,
    {
        if topology[i].0 == *node {
            return Some(i);
        }
        i = i + 1;
    }
    None
}

/// The slot of `p` in `names`, if it is there.
pub fn find_name(names: &Vec<String>, p: &String) -> (r: Option<usize>)
    ensures
        r matches Some(i) ==> i < names.len() && names@[i as int]@ == p@,
        r is None <==> !names_contain(names@, p@),
{
    let mut i: usize = 0;
    while i < names.len()
        invariant
            i <= names.len(),
            forall|j: int| 0 <= j < i ==> names@[j]@ != p@,
        decreases names.len() - i,
    {
        if names[i] == *p {
            return Some(i);
        }
        i = i + 1;
    }
    None
}


impl Node<(), Payload, InjectedPayload> for BroadcastNode {
    open spec fn inv(&self) -> bool {
        self.wf()
    }

    open spec fn fresh(&self, init: Init) -> bool {
        &&& self.id == 1
        &&& self.node@ == init.node_id@
        &&& self.messages@.len() == 0
        &&& self.neighborhood@.len() == 0
        &&& forall|p: Seq<char>|
            names_contain(self.peers@, p) <==> names_contain(init.node_ids@, p)
        &&& forall|i: int| 0 <= i < self.known.len() ==> (#[trigger] self.known[i])@.len() == 0
    }

    open spec fn steps_to(
        &self,
        next: &Self,
        input: Event<Payload, InjectedPayload>,
        r: Result<Vec<Message<Payload>>, NodeError>,
    ) -> bool {
        match input {
            Event::Message(m) => self.message_step(next, m, r),
            Event::Injected(InjectedPayload::Gossip) => *next == *self && self.gossip_outcome(r),
            Event::EOF => *next == *self && (r matches Ok(out) && out.len() == 0),
        }
    }

    fn from_init(_state: (), init: Init) -> (r: Result<Self, NodeError>) {
        Ok(BroadcastNode::new(init))
    }

    fn step(&mut self, input: Event<Payload, InjectedPayload>) -> (r: Result<
        Vec<Message<Payload>>,
        NodeError,
    >) {
        match input {
            Event::Message(m) => self.handle_message(m),
            Event::Injected(InjectedPayload::Gossip) => self.gossip_round(),
            Event::EOF => Ok(Vec::new()),
        }
    }
}


/// The values of `picked(s, picks)` are all values of `s`.
proof fn lemma_picked_within(s: Seq<usize>, picks: Seq<bool>, x: usize)
    requires
        picked(s, picks).contains(x),
    ensures
        s.contains(x),
    decreases s.len(),
{
    if s.len() > 0 {
        let rest = picked(s.drop_last(), picks);
        if picks[s.len() - 1] && x == s.last() {
            assert(s[s.len() - 1] == x);
        } else {
            if picks[s.len() - 1] {
                let i = choose|i: int| 0 <= i < rest.push(s.last()).len() && rest.push(s.last())[i] == x;
                assert(rest[i] == x);
            }
            lemma_picked_within(s.drop_last(), picks, x);
            let i = choose|i: int| 0 <= i < s.drop_last().len() && s.drop_last()[i] == x;
            assert(s[i] == x);
        }
    }
}

/// With no pick set, `picked` chooses nothing.
proof fn lemma_picked_none(s: Seq<usize>, picks: Seq<bool>)
    requires
        picks.len() == s.len(),
        forall|j: int| 0 <= j < picks.len() ==> !picks[j],
    ensures
        picked(s, picks) == Seq::<usize>::empty(),
    decreases s.len(),
{
    if s.len() > 0 {
        lemma_picked_none(s.drop_last(), picks.drop_last());
        assert forall|n: int| 0 <= n <= s.drop_last().len() implies picked(s.drop_last().take(n), picks)
            == picked(s.drop_last().take(n), picks.drop_last()) by {
            lemma_picked_prefix(s.drop_last(), picks, picks.drop_last(), n);
        }
        assert(s.drop_last().take(s.drop_last().len() as int) =~= s.drop_last());
    }
}

/// `picked` on a prefix reads only the picks of that prefix.
proof fn lemma_picked_prefix(s: Seq<usize>, p: Seq<bool>, q: Seq<bool>, n: int)
    requires
        0 <= n <= s.len(),
        n <= p.len(),
        n <= q.len(),
        forall|j: int| 0 <= j < n ==> p[j] == q[j],
    ensures
        picked(s.take(n), p) == picked(s.take(n), q),
    decreases n,
{
    if n > 0 {
        assert(s.take(n).drop_last() =~= s.take(n - 1));
        lemma_picked_prefix(s, p, q, n - 1);
    }
}

/// `picked` on a prefix holds as many values as the prefix of picks has
/// `true` places.
proof fn lemma_picked_len(s: Seq<usize>, picks: Seq<bool>, n: int)
    requires
        0 <= n <= s.len(),
        n <= picks.len(),
    ensures
        picked(s.take(n), picks).len() == count_true(picks.take(n)),
    decreases n,
{
    if n > 0 {
        assert(s.take(n).drop_last() =~= s.take(n - 1));
        assert(picks.take(n).drop_last() =~= picks.take(n - 1));
        lemma_picked_len(s, picks, n - 1);
    }
}

/// A gossip message carries every value that the sender holds and believes
/// the neighbour lacks, and nothing the sender does not hold. Beside those it
/// repeats at most as many known values as the redundancy cap allows; with a
/// cap of zero it carries exactly the values believed missing.
pub proof fn lemma_gossip_bounds(seen: Seq<usize>, ms: Seq<usize>, k: Set<usize>)
    requires
        gossip_payload(seen, ms, k),
    ensures
        forall|x: usize| ms.contains(x) && !k.contains(x) ==> seen.contains(x),
        forall|x: usize| seen.contains(x) ==> ms.contains(x),
        seen.len() <= unknown_part(ms, k).len() + extra_cap(
            unknown_part(ms, k).len(),
            known_part(ms, k).len(),
        ),
        extra_cap(unknown_part(ms, k).len(), known_part(ms, k).len()) == 0 ==> seen
            == unknown_part(ms, k),
{
    broadcast use vstd::seq_lib::group_filter_ensures;

    let picks = choose|picks: Seq<bool>|
        picks_allowed(picks, unknown_part(ms, k).len(), known_part(ms, k).len()) && seen
            == unknown_part(ms, k) + picked(known_part(ms, k), picks);
    let u = unknown_part(ms, k);
    let kn = known_part(ms, k);
    assert forall|x: usize| ms.contains(x) && !k.contains(x) implies seen.contains(x) by {
        let i = choose|i: int| 0 <= i < ms.len() && ms[i] == x;
        ms.lemma_filter_contains(|m: usize| !k.contains(m), i);
        let j = choose|j: int| 0 <= j < u.len() && u[j] == x;
        assert(seen[j] == x);
    }
    assert forall|x: usize| seen.contains(x) implies ms.contains(x) by {
        let i = choose|i: int| 0 <= i < seen.len() && seen[i] == x;
        if i < u.len() {
            assert(u[i] == x);
            ms.lemma_filter_contains_rev(|m: usize| !k.contains(m), x);
        } else {
            assert(picked(kn, picks)[i - u.len()] == x);
            lemma_picked_within(kn, picks, x);
            ms.lemma_filter_contains_rev(|m: usize| k.contains(m), x);
        }
    }
    lemma_picked_len(kn, picks, kn.len() as int);
    assert(kn.take(kn.len() as int) =~= kn);
    assert(picks.take(kn.len() as int) =~= picks);
    if extra_cap(u.len(), kn.len()) == 0 {
        lemma_picked_none(kn, picks);
        assert(seen =~= u);
    }
}


/// A value broadcast to a node is in its answer to a later read.
pub proof fn lemma_broadcast_then_read(
    n0: BroadcastNode,
    n1: BroadcastNode,
    n2: BroadcastNode,
    b: Message<Payload>,
    rd: Message<Payload>,
    r1: Result<Vec<Message<Payload>>, NodeError>,
    r2: Result<Vec<Message<Payload>>, NodeError>,
    v: usize,
)
    requires
        n0.wf(),
        n0.id < usize::MAX - 1,
        b.body.payload == (Payload::Broadcast { message: v }),
        rd.body.payload is Read,
        n0.message_step(&n1, b, r1),
        n1.message_step(&n2, rd, r2),
    ensures
        r2 matches Ok(out) && out.len() == 1 && (out[0].body.payload matches Payload::ReadOk {
            messages,
        } && messages@.contains(v)),
{
    assert(n1.values().contains(v));
}

/// Broadcasting a value twice leaves it held once, as after one broadcast.
pub proof fn lemma_broadcast_idempotent(
    n0: BroadcastNode,
    n1: BroadcastNode,
    n2: BroadcastNode,
    b1: Message<Payload>,
    b2: Message<Payload>,
    r1: Result<Vec<Message<Payload>>, NodeError>,
    r2: Result<Vec<Message<Payload>>, NodeError>,
    v: usize,
)
    requires
        n0.wf(),
        n0.id < usize::MAX - 1,
        b1.body.payload == (Payload::Broadcast { message: v }),
        b2.body.payload == (Payload::Broadcast { message: v }),
        n0.message_step(&n1, b1, r1),
        n1.message_step(&n2, b2, r2),
    ensures
        n2.values() == n1.values(),
        n2.values() == n0.values().insert(v),
        exists|i: int|
            0 <= i < n2.messages.len() && n2.messages@[i] == v && forall|j: int|
                0 <= j < n2.messages.len() && n2.messages@[j] == v ==> j == i,
{
    assert(n1.values().insert(v) =~= n1.values());
    assert(n2.values().contains(v));
    let i = choose|i: int| 0 <= i < n2.messages.len() && n2.messages@[i] == v;
    assert(forall|j: int| 0 <= j < n2.messages.len() && n2.messages@[j] == v ==> j == i);
}

/// Gossip from a peer outside the roster is fatal.
pub proof fn lemma_unknown_sender_fatal(
    n0: BroadcastNode,
    n1: BroadcastNode,
    m: Message<Payload>,
    r: Result<Vec<Message<Payload>>, NodeError>,
)
    requires
        n0.id < usize::MAX,
        m.body.payload is Gossip,
        !names_contain(n0.peers@, m.src@),
        n0.message_step(&n1, m, r),
    ensures
        r == Err::<Vec<Message<Payload>>, NodeError>(NodeError::UnknownPeer),
{
}

/// One hop of convergence. Let `a` hold `v` and believe of its `j`-th
/// neighbour `b` only what `b` holds. Once `b` takes the gossip `g` that `a`
/// owes it, `b` holds `v`; and what `b` now believes of `a` is still held by
/// `a`.
pub proof fn lemma_gossip_delivers(
    a: BroadcastNode,
    b: BroadcastNode,
    b1: BroadcastNode,
    g: Message<Payload>,
    j: int,
    r: Result<Vec<Message<Payload>>, NodeError>,
    v: usize,
)
    requires
        receives(a, b, b1, g, j, r),
        a.values().contains(v),
    ensures
        b1.values().contains(v),
        b.values().subset_of(b1.values()),
        forall|i: int|
            0 <= i < b.peers.len() && b.peers@[i]@ == a.node@ ==> b.known_at(i).subset_of(
                a.values(),
            ) ==> b1.known_at(i).subset_of(a.values()),
{
    let seen = g.body.payload->seen;
    let i = choose|i: int|
        0 <= i < a.peers.len() && a.peers@[i]@ == a.neighborhood@[j]@ && gossip_payload(
            seen@,
            a.messages@,
            a.known_at(i),
        );
    lemma_gossip_bounds(seen@, a.messages@, a.known_at(i));
    if !a.known_at(i).contains(v) {
        assert(seen@.contains(v));
    }
    assert forall|x: usize| seen@.to_set().contains(x) implies a.values().contains(x) by {}
}


/// Whatever event a broadcast node takes, the values it holds and what it
/// believes each peer has seen only grow, and its roster stays.
pub proof fn lemma_step_monotone(
    n0: BroadcastNode,
    n1: BroadcastNode,
    input: Event<Payload, InjectedPayload>,
    r: Result<Vec<Message<Payload>>, NodeError>,
)
    requires
        n0.wf(),
        n0.steps_to(&n1, input, r),
    ensures
        n0.values().subset_of(n1.values()),
        n1.peers == n0.peers,
        forall|i: int| 0 <= i < n0.peers.len() ==> n0.known_at(i).subset_of(n1.known_at(i)),
{
    match input {
        Event::Message(m) => {
            assert forall|x: usize| n0.values().contains(x) implies n1.values().contains(x) by {
                let i = choose|i: int| 0 <= i < n0.messages@.len() && n0.messages@[i] == x;
                assert(n1.messages@.subrange(0, n0.messages@.len() as int)[i] == x);
            }
        },
        _ => {},
    }
}


/// `b` takes as `b1` the gossip `g` that `a` owes its `j`-th neighbour `b`,
/// while `a` believes of `b` only what `b` holds.
pub open spec fn receives(
    a: BroadcastNode,
    b: BroadcastNode,
    b1: BroadcastNode,
    g: Message<Payload>,
    j: int,
    r: Result<Vec<Message<Payload>>, NodeError>,
) -> bool {
    &&& a.wf()
    &&& b.wf()
    &&& 0 <= j < a.neighborhood.len()
    &&& a.neighborhood@[j]@ == b.node@
    &&& a.gossip_to(g, j)
    &&& forall|i: int|
        0 <= i < a.peers.len() && a.peers@[i]@ == b.node@ ==> a.known_at(i).subset_of(b.values())
    &&& b.id < usize::MAX
    &&& names_contain(b.peers@, a.node@)
    &&& b.message_step(&b1, g, r)
}

/// In a gossip tick of `a` with result `tick`, its `j`-th neighbour `b` takes
/// the message meant for it and becomes `b1`. Every neighbour of `a` is in
/// its roster, `a` believes of `b` only what `b` holds, and `b` knows `a`.
pub open spec fn hop(
    a: BroadcastNode,
    tick: Result<Vec<Message<Payload>>, NodeError>,
    j: int,
    b: BroadcastNode,
    b1: BroadcastNode,
    r: Result<Vec<Message<Payload>>, NodeError>,
) -> bool {
    &&& a.wf()
    &&& b.wf()
    &&& a.steps_to(&a, Event::Injected(InjectedPayload::Gossip), tick)
    &&& forall|l: int|
        0 <= l < a.neighborhood.len() ==> names_contain(a.peers@, #[trigger] a.neighborhood@[l]@)
    &&& 0 <= j < a.neighborhood.len()
    &&& a.neighborhood@[j]@ == b.node@
    &&& forall|i: int|
        0 <= i < a.peers.len() && a.peers@[i]@ == b.node@ ==> a.known_at(i).subset_of(b.values())
    &&& b.id < usize::MAX
    &&& names_contain(b.peers@, a.node@)
    &&& b.message_step(&b1, tick->Ok_0[j], r)
}

/// A gossip tick of a node whose neighbours are all in its roster succeeds,
/// and the neighbour that takes its message then holds every value the node
/// held.
pub proof fn lemma_tick_delivers(
    a: BroadcastNode,
    tick: Result<Vec<Message<Payload>>, NodeError>,
    j: int,
    b: BroadcastNode,
    b1: BroadcastNode,
    r: Result<Vec<Message<Payload>>, NodeError>,
)
    requires
        hop(a, tick, j, b, b1, r),
    ensures
        tick matches Ok(out) && out.len() == a.neighborhood.len(),
        a.values().subset_of(b1.values()),
        b.values().subset_of(b1.values()),
{
    if tick is Err {
        let l = choose|l: int|
            0 <= l < a.neighborhood.len() && !names_contain(
                a.peers@,
                #[trigger] a.neighborhood@[l]@,
            );
        assert(names_contain(a.peers@, a.neighborhood@[l]@));
    }
    let out = tick->Ok_0;
    assert(a.gossip_to(out[j], j));
    assert forall|v: usize| a.values().contains(v) implies b1.values().contains(v) by {
        lemma_gossip_delivers(a, b, b1, out[j], j, r, v);
    }
    lemma_step_monotone(b, b1, Event::Message(out[j]), r);
}

/// Convergence along a path. At hop `k`, `senders[k]` makes a gossip tick
/// with result `ticks[k]`, and its `slots[k]`-th neighbour takes the message
/// meant for it, going from `before[k]` to `after[k]`. That neighbour later
/// ticks as `senders[k + 1]`, holding at least what it held then. Every value
/// of the first sender reaches every node of the path.
pub proof fn lemma_gossip_path(
    senders: Seq<BroadcastNode>,
    ticks: Seq<Result<Vec<Message<Payload>>, NodeError>>,
    slots: Seq<int>,
    before: Seq<BroadcastNode>,
    after: Seq<BroadcastNode>,
    results: Seq<Result<Vec<Message<Payload>>, NodeError>>,
)
    requires
        0 < senders.len(),
        ticks.len() == senders.len(),
        slots.len() == senders.len(),
        before.len() == senders.len(),
        after.len() == senders.len(),
        results.len() == senders.len(),
        forall|k: int|
            0 <= k < senders.len() ==> hop(
                #[trigger] senders[k],
                ticks[k],
                slots[k],
                before[k],
                after[k],
                results[k],
            ),
        forall|k: int|
            0 <= k < senders.len() - 1 ==> (#[trigger] after[k]).values().subset_of(
                senders[k + 1].values(),
            ),
    ensures
        forall|k: int|
            0 <= k < senders.len() ==> senders[0].values().subset_of(
                (#[trigger] after[k]).values(),
            ),
{
    assert forall|k: int| 0 <= k < senders.len() implies senders[0].values().subset_of(
        (#[trigger] after[k]).values(),
    ) by {
        lemma_gossip_path_upto(senders, ticks, slots, before, after, results, k);
    }
}

proof fn lemma_gossip_path_upto(
    senders: Seq<BroadcastNode>,
    ticks: Seq<Result<Vec<Message<Payload>>, NodeError>>,
    slots: Seq<int>,
    before: Seq<BroadcastNode>,
    after: Seq<BroadcastNode>,
    results: Seq<Result<Vec<Message<Payload>>, NodeError>>,
    k: int,
)
    requires
        0 <= k < senders.len(),
        ticks.len() == senders.len(),
        slots.len() == senders.len(),
        before.len() == senders.len(),
        after.len() == senders.len(),
        results.len() == senders.len(),
        forall|k: int|
            0 <= k < senders.len() ==> hop(
                #[trigger] senders[k],
                ticks[k],
                slots[k],
                before[k],
                after[k],
                results[k],
            ),
        forall|k: int|
            0 <= k < senders.len() - 1 ==> (#[trigger] after[k]).values().subset_of(
                senders[k + 1].values(),
            ),
    ensures
        senders[0].values().subset_of(after[k].values()),
    decreases k,
{
    assert(hop(senders[k], ticks[k], slots[k], before[k], after[k], results[k]));
    lemma_tick_delivers(senders[k], ticks[k], slots[k], before[k], after[k], results[k]);
    if k > 0 {
        lemma_gossip_path_upto(senders, ticks, slots, before, after, results, k - 1);
        assert(after[k - 1].values().subset_of(senders[k].values()));
    }
}

/// A node fresh from the handshake believes no peer has seen anything, so
/// its beliefs start as lower bounds of what every peer holds.
pub proof fn lemma_fresh_beliefs_sound(n: BroadcastNode, init: Init, held: Set<usize>)
    requires
        n.fresh(init),
    ensures
        forall|i: int| 0 <= i < n.known.len() ==> n.known_at(i).subset_of(held),
        n.values() == Set::<usize>::empty(),
{
    assert forall|i: int| 0 <= i < n.known.len() implies n.known_at(i).subset_of(held) by {
        assert(n.known[i]@.len() == 0);
    }
    assert(n.values() =~= Set::<usize>::empty());
}

} // verus!
