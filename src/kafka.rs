use vstd::prelude::*;

use dashmap::DashMap;

use crate::error::NodeError;
use crate::message::{Body, Event, Init, Message};
use crate::node::Node;
use crate::store::{
    log_view, logs_get, logs_insert, new_logs, new_offsets, offsets_insert, offsets_view,
};

verus! {

/// What a log node sends and receives.
#[derive(Debug, Clone)]
pub enum Payload {
    Send { key: String, message: usize },
    SendOk { offset: usize },
    Poll { offsets: Vec<(String, usize)> },
    PollOk { messages: Vec<(String, Vec<(usize, usize)>)> },
    CommitOffsets { offsets: Vec<(String, usize)> },
    CommitOffsetsOk,
    ListCommittedOffsets { keys: Vec<String> },
    ListCommittedOffsetsOk { offsets: Vec<(String, usize)> },
}

/// The log under `k`; a key without one has an empty log.
pub open spec fn log_of(logs: Map<Seq<char>, Seq<(usize, usize)>>, k: Seq<char>) -> Seq<
    (usize, usize),
> {
    if logs.contains_key(k) {
        logs[k]
    } else {
        Seq::empty()
    }
}

/// The offsets of `log` rise strictly and stay below `bound`.
pub open spec fn ordered_below(log: Seq<(usize, usize)>, bound: usize) -> bool {
    &&& forall|i: int, j: int| 0 <= i < j < log.len() ==> log[i].0 < log[j].0
    &&& forall|i: int| 0 <= i < log.len() ==> log[i].0 < bound
}

/// No offset stands in the logs of two different keys.
pub open spec fn offsets_unique(logs: Map<Seq<char>, Seq<(usize, usize)>>) -> bool {
    forall|k1: Seq<char>, k2: Seq<char>, i: int, j: int|
        0 <= i < log_of(logs, k1).len() && 0 <= j < log_of(logs, k2).len() && (#[trigger] log_of(
            logs,
            k1,
        )[i]).0 == (#[trigger] log_of(logs, k2)[j]).0 ==> k1 == k2
}

/// `t` is the part of `log` from offset `o` on.
pub open spec fn tail_from(log: Seq<(usize, usize)>, o: usize, t: Seq<(usize, usize)>) -> bool {
    exists|i: int|
        0 <= i <= log.len() && t == log.subrange(i, log.len() as int) && (forall|j: int|
            0 <= j < i ==> log[j].0 < o) && (forall|j: int| i <= j < log.len() ==> log[j].0 >= o)
}

/// Whether `k` is one of the keys of `offsets`.
pub open spec fn polls_key(offsets: Seq<(String, usize)>, k: Seq<char>) -> bool {
    exists|i: int| 0 <= i < offsets.len() && offsets[i].0@ == k
}

/// Committed offsets after recording `offsets` in order over `m`.
pub open spec fn commit_all(m: Map<Seq<char>, usize>, offsets: Seq<(String, usize)>) -> Map<
    Seq<char>,
    usize,
>
    decreases offsets.len(),
{
    if offsets.len() == 0 {
        m
    } else {
        commit_all(m, offsets.drop_last()).insert(offsets.last().0@, offsets.last().1)
    }
}

/// For each of `keys` that has a log, in order: the key and the offset of
/// its last entry, or 0 for an empty log.
pub open spec fn listing(keys: Seq<String>, logs: Map<Seq<char>, Seq<(usize, usize)>>) -> Seq<
    (Seq<char>, usize),
>
    decreases keys.len(),
{
    if keys.len() == 0 {
        Seq::empty()
    } else {
        let rest = listing(keys.drop_last(), logs);
        let k = keys.last()@;
        if logs.contains_key(k) {
            let last = if logs[k].len() > 0 {
                logs[k].last().0
            } else {
                0
            };
            rest.push((k, last))
        } else {
            rest
        }
    }
}

/// Relies on `slice::binary_search_by_key`, keyed by offset: on a slice
/// sorted by that key, `Ok` with the index of a matching entry, or `Err` with
/// the index where one could be inserted keeping the order.
#[verifier::external_body]
fn search_offset(log: &Vec<(usize, usize)>, offset: usize) -> (r: Result<usize, usize>)
    requires
        forall|i: int, j: int| 0 <= i < j < log.len() ==> log@[i].0 < log@[j].0,
    ensures
        r matches Ok(i) ==> i < log.len() && log@[i as int].0 == offset,
        r matches Err(i) ==> i <= log.len() && (forall|j: int| 0 <= j < i ==> log@[j].0 < offset)
            && (forall|j: int| i <= j < log.len() ==> log@[j].0 > offset),
{
    log.binary_search_by_key(&offset, |&(o, _)| o)
}

/// A node that keeps an append-only log per key, with offsets drawn from one
/// counter, and records offsets that clients commit.
pub struct KafkaNode {
    pub id: usize,
    pub log_map: DashMap<String, Vec<(usize, usize)>>,
    pub committed_offsets: DashMap<String, usize>,
    pub offset: usize,
}

impl KafkaNode {
    /// Each log rises strictly in offset below the next offset to assign, and
    /// an offset stands under one key only.
    pub open spec fn wf(&self) -> bool {
        &&& forall|k: Seq<char>|
            #[trigger] log_view(self.log_map).contains_key(k) ==> ordered_below(
                log_view(self.log_map)[k],
                self.offset,
            )
        &&& offsets_unique(log_view(self.log_map))
    }

    /// Appends `message` to the log of `key` under the next offset, and
    /// returns that offset.
    pub fn append(&mut self, key: String, message: usize) -> (r: Result<usize, NodeError>)
        requires
            old(self).wf(),
        ensures
            final(self).wf(),
            final(self).id == old(self).id,
            offsets_view(final(self).committed_offsets) == offsets_view(old(self).committed_offsets),
            old(self).offset == usize::MAX ==> r == Err::<usize, NodeError>(
                NodeError::OffsetsExhausted,
            ),
            old(self).offset < usize::MAX ==> {
                &&& r == Ok::<usize, NodeError>(old(self).offset)
                &&& final(self).offset == old(self).offset + 1
                &&& log_view(final(self).log_map) == log_view(old(self).log_map).insert(
                    key@,
                    log_of(log_view(old(self).log_map), key@).push((old(self).offset, message)),
                )
            },
    {
        if self.offset == usize::MAX {
            return Err(NodeError::OffsetsExhausted);
        }
        let mut log = match logs_get(&self.log_map, &key) {
            Some(log) => log,
            None => Vec::new(),
        };
        let at = self.offset;
        log.push((at, message));
        logs_insert(&mut self.log_map, key, log);
        self.offset = self.offset + 1;
        assert forall|k: Seq<char>| #[trigger]
            log_view(self.log_map).contains_key(k) implies ordered_below(
            log_view(self.log_map)[k],
            self.offset,
        ) by {
            if k != key@ {
                assert(ordered_below(log_view(old(self).log_map)[k], old(self).offset));
            }
        }
        let ghost old_logs = log_view(old(self).log_map);
        let ghost new_logs = log_view(self.log_map);
        assert forall|k1: Seq<char>, k2: Seq<char>, i: int, j: int|
            0 <= i < log_of(new_logs, k1).len() && 0 <= j < log_of(new_logs, k2).len() && (
            #[trigger] log_of(new_logs, k1)[i]).0 == (#[trigger] log_of(new_logs, k2)[j]).0
            implies k1 == k2 by {
            let old1 = log_of(old_logs, k1);
            let old2 = log_of(old_logs, k2);
            if old_logs.contains_key(k1) {
                assert(ordered_below(old_logs[k1], old(self).offset));
            }
            if old_logs.contains_key(k2) {
                assert(ordered_below(old_logs[k2], old(self).offset));
            }
            if k1 != key@ && k2 != key@ {
                assert(old1[i] == log_of(new_logs, k1)[i]);
                assert(old2[j] == log_of(new_logs, k2)[j]);
            } else if k1 == key@ && k2 != key@ {
                assert(log_of(new_logs, k2)[j] == old2[j]);
                if i < old1.len() {
                    assert(log_of(new_logs, k1)[i] == old1[i]);
                }
            } else if k1 != key@ && k2 == key@ {
                assert(log_of(new_logs, k1)[i] == old1[i]);
                if j < old2.len() {
                    assert(log_of(new_logs, k2)[j] == old2[j]);
                }
            }
        }
        Ok(at)
    }

    /// For each requested key and offset, in order: the key and its log from
    /// that offset on. A key without a log gets an empty one.
    pub fn poll(&mut self, offsets: &Vec<(String, usize)>) -> (r: Vec<(String, Vec<(usize, usize)>)>)
        requires
            old(self).wf(),
        ensures
            final(self).wf(),
            final(self).id == old(self).id,
            final(self).offset == old(self).offset,
            offsets_view(final(self).committed_offsets) == offsets_view(old(self).committed_offsets),
            r.len() == offsets.len(),
            forall|i: int|
                0 <= i < r.len() ==> (#[trigger] r@[i]).0@ == offsets@[i].0@ && tail_from(
                    log_of(log_view(old(self).log_map), offsets@[i].0@),
                    offsets@[i].1,
                    r@[i].1@,
                ),
            forall|k: Seq<char>|
                #[trigger] log_view(final(self).log_map).contains_key(k) <==> (log_view(
                    old(self).log_map,
                ).contains_key(k) || polls_key(offsets@, k)),
            forall|k: Seq<char>|
                #[trigger] log_of(log_view(final(self).log_map), k) == log_of(
                    log_view(old(self).log_map),
                    k,
                ),
    {
        let mut out: Vec<(String, Vec<(usize, usize)>)> = Vec::new();
        let mut i: usize = 0;
        while i < offsets.len()
            invariant
                i <= offsets.len(),
                self.wf(),
                self.id == old(self).id,
                self.offset == old(self).offset,
                offsets_view(self.committed_offsets) == offsets_view(old(self).committed_offsets),
                out.len() == i,
                forall|l: int|
                    0 <= l < i ==> (#[trigger] out@[l]).0@ == offsets@[l].0@ && tail_from(
                        log_of(log_view(old(self).log_map), offsets@[l].0@),
                        offsets@[l].1,
                        out@[l].1@,
                    ),
                forall|k: Seq<char>|
                    #[trigger] log_view(self.log_map).contains_key(k) <==> (log_view(
                        old(self).log_map,
                    ).contains_key(k) || polls_key(offsets@.take(i as int), k)),
                forall|k: Seq<char>|
                    #[trigger] log_of(log_view(self.log_map), k) == log_of(
                        log_view(old(self).log_map),
                        k,
                    ),
            decreases offsets.len() - i,
        {
            let key = &offsets[i].0;
            let from = offsets[i].1;
            let ghost before = log_view(self.log_map);
            let log = match logs_get(&self.log_map, key) {
                Some(log) => log,
                None => {
                    logs_insert(&mut self.log_map, key.clone(), Vec::new());
                    assert forall|k: Seq<char>| #[trigger]
                        log_view(self.log_map).contains_key(k) implies ordered_below(
                        log_view(self.log_map)[k],
                        self.offset,
                    ) by {
                        if k != key@ {
                            assert(before.contains_key(k));
                        }
                    }
                    assert forall|k: Seq<char>|
                        #[trigger] log_of(log_view(self.log_map), k) == log_of(before, k) by {}
                    assert forall|k: Seq<char>|
                        #[trigger] log_of(log_view(self.log_map), k) == log_of(
                            log_view(old(self).log_map),
                            k,
                        ) by {
                        assert(log_of(before, k) == log_of(log_view(old(self).log_map), k));
                    }
                    assert(offsets_unique(log_view(self.log_map))) by {
                        assert(offsets_unique(before));
                        assert forall|k: Seq<char>|
                            #[trigger] log_of(log_view(self.log_map), k) == log_of(before, k) by {}
                    }
                    Vec::new()
                },
            };
            assert(log@ == log_of(log_view(old(self).log_map), key@)) by {
                assert(log_of(before, key@) == log_of(log_view(old(self).log_map), key@));
            }
            assert(ordered_below(log@, self.offset)) by {
                if before.contains_key(key@) {
                    assert(ordered_below(before[key@], self.offset));
                }
            }
            let start = match search_offset(&log, from) {
                Ok(at) => at,
                Err(at) => at,
            };
            let mut tail: Vec<(usize, usize)> = Vec::new();
            let mut j: usize = start;
            while j < log.len()
                invariant
                    start <= j <= log.len(),
                    tail@ == log@.subrange(start as int, j as int),
                decreases log.len() - j,
            {
                tail.push(log[j]);
                j = j + 1;
                assert(tail@ =~= log@.subrange(start as int, j as int));
            }
            assert(tail_from(log@, from, tail@));
            out.push((key.clone(), tail));
            let ghost prev = offsets@.take(i as int);
            let ghost next = offsets@.take(i + 1);
            assert forall|k: Seq<char>|
                #[trigger] log_view(self.log_map).contains_key(k) <==> (log_view(
                    old(self).log_map,
                ).contains_key(k) || polls_key(next, k)) by {
                if polls_key(prev, k) {
                    let l = choose|l: int| 0 <= l < prev.len() && (#[trigger] prev[l]).0@ == k;
                    assert(next[l] == prev[l]);
                }
                if polls_key(next, k) {
                    let l = choose|l: int| 0 <= l < next.len() && (#[trigger] next[l]).0@ == k;
                    if l < i {
                        assert(prev[l] == next[l]);
                    }
                }
                assert(next[i as int] == offsets@[i as int]);
            }
            i = i + 1;
        }
        assert(offsets@.take(offsets.len() as int) =~= offsets@);
        out
    }

    /// Records each committed offset, in order; a later one for a key
    /// replaces an earlier one.
    pub fn commit(&mut self, offsets: &Vec<(String, usize)>)
        requires
            old(self).wf(),
        ensures
            final(self).wf(),
            final(self).id == old(self).id,
            final(self).offset == old(self).offset,
            log_view(final(self).log_map) == log_view(old(self).log_map),
            offsets_view(final(self).committed_offsets) == commit_all(
                offsets_view(old(self).committed_offsets),
                offsets@,
            ),
    {
        let mut i: usize = 0;
        while i < offsets.len()
            invariant
                i <= offsets.len(),
                self.id == old(self).id,
                self.offset == old(self).offset,
                log_view(self.log_map) == log_view(old(self).log_map),
                offsets_view(self.committed_offsets) == commit_all(
                    offsets_view(old(self).committed_offsets),
                    offsets@.take(i as int),
                ),
            decreases offsets.len() - i,
        {
            assert(offsets@.take(i + 1).drop_last() =~= offsets@.take(i as int));
            offsets_insert(&mut self.committed_offsets, offsets[i].0.clone(), offsets[i].1);
            i = i + 1;
        }
        assert(offsets@.take(offsets.len() as int) =~= offsets@);
    }

    /// For each of `keys` that has a log, in order: the key and the offset of
    /// the last entry of its log, or 0 for an empty one.
    pub fn list_committed(&self, keys: &Vec<String>) -> (r: Vec<(String, usize)>)
        ensures
            r@.map_values(|e: (String, usize)| (e.0@, e.1)) == listing(
                keys@,
                log_view(self.log_map),
            ),
    {
        let mut out: Vec<(String, usize)> = Vec::new();
        let mut i: usize = 0;
        while i < keys.len()
            invariant
                i <= keys.len(),
                out@.map_values(|e: (String, usize)| (e.0@, e.1)) == listing(
                    keys@.take(i as int),
                    log_view(self.log_map),
                ),
            decreases keys.len() - i,
        {
            assert(keys@.take(i + 1).drop_last() =~= keys@.take(i as int));
            let key = &keys[i];
            match logs_get(&self.log_map, key) {
                Some(log) => {
                    let last: usize = if log.len() > 0 {
                        log[log.len() - 1].0
                    } else {
                        0
                    };
                    out.push((key.clone(), last));
                },
                None => {},
            }
            assert(out@.map_values(|e: (String, usize)| (e.0@, e.1)) =~= listing(
                keys@.take(i + 1),
                log_view(self.log_map),
            ));
            i = i + 1;
        }
        assert(keys@.take(keys.len() as int) =~= keys@);
        out
    }
}


/// `o` answers `m` with id `id` and payload `p`.
pub open spec fn answered(o: Message<Payload>, m: Message<Payload>, id: usize) -> bool {
    &&& o.src == m.dst
    &&& o.dst == m.src
    &&& o.body.id == Some(id)
    &&& o.body.in_reply_to == m.body.id
}

impl KafkaNode {
    /// How a message moves this node from `self` to `next`, answering `r`.
    pub open spec fn message_step(
        &self,
        next: &Self,
        m: Message<Payload>,
        r: Result<Vec<Message<Payload>>, NodeError>,
    ) -> bool {
        let logs = log_view(self.log_map);
        let next_logs = log_view(next.log_map);
        let committed = offsets_view(self.committed_offsets);
        let next_committed = offsets_view(next.committed_offsets);
        if self.id == usize::MAX {
            r == Err::<Vec<Message<Payload>>, NodeError>(NodeError::IdsExhausted)
        } else {
            &&& next.id == self.id + 1
            &&& match m.body.payload {
                Payload::Send { key, message } => if self.offset == usize::MAX {
                    r == Err::<Vec<Message<Payload>>, NodeError>(NodeError::OffsetsExhausted)
                } else {
                    &&& next.offset == self.offset + 1
                    &&& next_logs == logs.insert(
                        key@,
                        log_of(logs, key@).push((self.offset, message)),
                    )
                    &&& next_committed == committed
                    &&& r matches Ok(out) && out.len() == 1 && answered(out[0], m, self.id)
                        && out[0].body.payload == (Payload::SendOk { offset: self.offset })
                },
                Payload::Poll { offsets } => {
                    &&& next.offset == self.offset
                    &&& next_committed == committed
                    &&& forall|k: Seq<char>|
                        #[trigger] next_logs.contains_key(k) <==> (logs.contains_key(k) || polls_key(
                            offsets@,
                            k,
                        ))
                    &&& forall|k: Seq<char>| #[trigger] log_of(next_logs, k) == log_of(logs, k)
                    &&& r matches Ok(out) && out.len() == 1 && answered(out[0], m, self.id) && (
                    out[0].body.payload matches Payload::PollOk { messages } && messages.len()
                        == offsets.len() && forall|i: int|
                        0 <= i < messages.len() ==> (#[trigger] messages@[i]).0@ == offsets@[i].0@
                            && tail_from(
                            log_of(logs, offsets@[i].0@),
                            offsets@[i].1,
                            messages@[i].1@,
                        ))
                },
                Payload::CommitOffsets { offsets } => {
                    &&& next.offset == self.offset
                    &&& next_logs == logs
                    &&& next_committed == commit_all(committed, offsets@)
                    &&& r matches Ok(out) && out.len() == 1 && answered(out[0], m, self.id)
                        && out[0].body.payload is CommitOffsetsOk
                },
                Payload::ListCommittedOffsets { keys } => {
                    &&& next.offset == self.offset
                    &&& next_logs == logs
                    &&& next_committed == committed
                    &&& r matches Ok(out) && out.len() == 1 && answered(out[0], m, self.id) && (
                    out[0].body.payload matches Payload::ListCommittedOffsetsOk { offsets }
                        && offsets@.map_values(|e: (String, usize)| (e.0@, e.1)) == listing(
                        keys@,
                        logs,
                    ))
                },
                _ => {
                    &&& next.offset == self.offset
                    &&& next_logs == logs
                    &&& next_committed == committed
                    &&& r matches Ok(out) && out.len() == 0
                },
            }
        }
    }
}

impl Node<(), Payload> for KafkaNode {
    open spec fn inv(&self) -> bool {
        self.wf()
    }

    open spec fn fresh(&self, init: Init) -> bool {
        &&& self.id == 1
        &&& self.offset == 0
        &&& log_view(self.log_map) == Map::<Seq<char>, Seq<(usize, usize)>>::empty()
        &&& offsets_view(self.committed_offsets) == Map::<Seq<char>, usize>::empty()
    }

    open spec fn steps_to(
        &self,
        next: &Self,
        input: Event<Payload>,
        r: Result<Vec<Message<Payload>>, NodeError>,
    ) -> bool {
        match input {
            Event::Message(m) => self.message_step(next, m, r),
            _ => r == Err::<Vec<Message<Payload>>, NodeError>(NodeError::UnexpectedEvent),
        }
    }

    fn from_init(_state: (), _init: Init) -> (r: Result<Self, NodeError>) {
        Ok(KafkaNode { id: 1, log_map: new_logs(), committed_offsets: new_offsets(), offset: 0 })
    }

    fn step(&mut self, input: Event<Payload>) -> (r: Result<Vec<Message<Payload>>, NodeError>) {
        let input = match input {
            Event::Message(m) => m,
            _ => {
                return Err(NodeError::UnexpectedEvent);
            },
        };
        if self.id == usize::MAX {
            return Err(NodeError::IdsExhausted);
        }
        let ghost m = input;
        let reply = input.into_reply(Some(&mut self.id));
        let src = reply.src;
        let dst = reply.dst;
        let id = reply.body.id;
        let in_reply_to = reply.body.in_reply_to;
        let payload = match reply.body.payload {
            Payload::Send { key, message } => {
                let offset = self.append(key, message)?;
                Payload::SendOk { offset }
            },
            Payload::Poll { offsets } => {
                let messages = self.poll(&offsets);
                Payload::PollOk { messages }
            },
            Payload::CommitOffsets { offsets } => {
                self.commit(&offsets);
                Payload::CommitOffsetsOk
            },
            Payload::ListCommittedOffsets { keys } => {
                let offsets = self.list_committed(&keys);
                Payload::ListCommittedOffsetsOk { offsets }
            },
            _ => {
                return Ok(Vec::new());
            },
        };
        Ok(vec![Message { src, dst, body: Body { id, in_reply_to, payload } }])
    }
}

} // verus!
