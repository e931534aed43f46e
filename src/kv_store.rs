use vstd::prelude::*;

use dashmap::DashMap;

use crate::error::NodeError;
use crate::message::{Body, Event, Init, Message};
use crate::node::Node;
use crate::store::{cells_get, cells_insert, cells_view, new_cells};

verus! {

/// One operation of a transaction: its name (`r` or `w`), the key, and the
/// value written or read.
pub type Operation = (String, usize, Option<usize>);

/// What a key-value node sends and receives.
#[derive(Debug, Clone)]
pub enum Payload {
    Transaction { transaction: Vec<Operation> },
    TransactionOk { transaction: Vec<Operation> },
}

/// An operation as a value: the name's characters, the key, the value.
pub open spec fn op_view(op: Operation) -> (Seq<char>, usize, Option<usize>) {
    (op.0@, op.1, op.2)
}

/// Runs `ops` in order against `cells`: a write stores its value, a read
/// reports the value under its key if there is one. Gives the cells after the
/// run and the operations as completed, or the error that stops the run.
pub open spec fn run_ops(cells: Map<usize, usize>, ops: Seq<Operation>) -> Result<
    (Map<usize, usize>, Seq<(Seq<char>, usize, Option<usize>)>),
    NodeError,
>
    decreases ops.len(),
{
    if ops.len() == 0 {
        Ok((cells, Seq::empty()))
    } else {
        match run_ops(cells, ops.drop_last()) {
            Err(e) => Err(e),
            Ok((m, done)) => {
                let op = ops.last();
                if op.0@ == seq!['w'] {
                    match op.2 {
                        Some(v) => Ok((m.insert(op.1, v), done.push((op.0@, op.1, Some(v))))),
                        None => Err(NodeError::MissingWriteValue),
                    }
                } else if op.0@ == seq!['r'] {
                    let got = if m.contains_key(op.1) {
                        Some(m[op.1])
                    } else {
                        None
                    };
                    Ok((m, done.push((op.0@, op.1, got))))
                } else {
                    Err(NodeError::UnknownOperation)
                }
            },
        }
    }
}

/// Once a prefix of the operations fails, the whole run fails the same way.
proof fn lemma_run_ops_stops(cells: Map<usize, usize>, ops: Seq<Operation>, n: int)
    requires
        0 <= n <= ops.len(),
        run_ops(cells, ops.take(n)) is Err,
    ensures
        run_ops(cells, ops) == run_ops(cells, ops.take(n)),
    decreases ops.len() - n,
{
    if n < ops.len() {
        assert(ops.take(n + 1).drop_last() =~= ops.take(n));
        lemma_run_ops_stops(cells, ops, n + 1);
    } else {
        assert(ops.take(n) =~= ops);
    }
}

/// A node that runs transactions of reads and writes on a shared map.
pub struct KeyValueStoreNode {
    pub id: usize,
    pub kv_store: DashMap<usize, usize>,
}

impl KeyValueStoreNode {
    /// Runs the operations of `transaction` in order on the store.
    pub fn run_transaction(&mut self, transaction: Vec<Operation>) -> (r: Result<
        Vec<Operation>,
        NodeError,
    >)
        ensures
            match run_ops(cells_view(old(self).kv_store), transaction@) {
                Ok((cells, done)) => {
                    &&& r matches Ok(out) && out@.map_values(|o: Operation| op_view(o)) == done
                    &&& cells_view(final(self).kv_store) == cells
                },
                Err(e) => r == Err::<Vec<Operation>, NodeError>(e),
            },
            final(self).id == old(self).id,
    {
        let w = "w".to_owned();
        let rd = "r".to_owned();
        proof {
            reveal_strlit("w");
            reveal_strlit("r");
        }
        let mut result: Vec<Operation> = Vec::new();
        let mut i: usize = 0;
        while i < transaction.len()
            invariant
                i <= transaction.len(),
                w@ == seq!['w'],
                rd@ == seq!['r'],
                self.id == old(self).id,
                run_ops(cells_view(old(self).kv_store), transaction@.take(i as int)) matches Ok(
                    (cells, done),
                ) && result@.map_values(|o: Operation| op_view(o)) == done && cells_view(
                    self.kv_store,
                ) == cells,
            decreases transaction.len() - i,
        {
            assert(transaction@.take(i + 1).drop_last() =~= transaction@.take(i as int));
            let op = &transaction[i];
            let key = op.1;
            if op.0 == w {
                match op.2 {
                    Some(value) => {
                        cells_insert(&mut self.kv_store, key, value);
                        result.push((op.0.clone(), key, Some(value)));
                    },
                    None => {
                        proof {
                            lemma_run_ops_stops(cells_view(old(self).kv_store), transaction@, i + 1);
                        }
                        return Err(NodeError::MissingWriteValue);
                    },
                }
            } else if op.0 == rd {
                let value = cells_get(&self.kv_store, key);
                result.push((op.0.clone(), key, value));
            } else {
                proof {
                    lemma_run_ops_stops(cells_view(old(self).kv_store), transaction@, i + 1);
                }
                return Err(NodeError::UnknownOperation);
            }
            assert(result@.map_values(|o: Operation| op_view(o)) =~= run_ops(
                cells_view(old(self).kv_store),
                transaction@.take(i + 1),
            )->Ok_0.1);
            i = i + 1;
        }
        assert(transaction@.take(transaction.len() as int) =~= transaction@);
        Ok(result)
    }
}

impl Node<(), Payload> for KeyValueStoreNode {
    open spec fn inv(&self) -> bool {
        true
    }

    open spec fn fresh(&self, init: Init) -> bool {
        self.id == 1 && cells_view(self.kv_store) == Map::<usize, usize>::empty()
    }

    /// A message takes the next id; a transaction is run and answered with
    /// its operations as completed. A node of this kind gets no other event.
    open spec fn steps_to(
        &self,
        next: &Self,
        input: Event<Payload>,
        r: Result<Vec<Message<Payload>>, NodeError>,
    ) -> bool {
        match input {
            Event::Message(m) => if self.id == usize::MAX {
                r == Err::<Vec<Message<Payload>>, NodeError>(NodeError::IdsExhausted)
            } else {
                &&& next.id == self.id + 1
                &&& match m.body.payload {
                    Payload::Transaction { transaction } => match run_ops(
                        cells_view(self.kv_store),
                        transaction@,
                    ) {
                        Ok((cells, done)) => {
                            &&& cells_view(next.kv_store) == cells
                            &&& r matches Ok(out) && out.len() == 1 && {
                                let o = out[0];
                                &&& o.src == m.dst
                                &&& o.dst == m.src
                                &&& o.body.id == Some(self.id)
                                &&& o.body.in_reply_to == m.body.id
                                &&& o.body.payload matches Payload::TransactionOk { transaction }
                                    && transaction@.map_values(|o: Operation| op_view(o)) == done
                            }
                        },
                        Err(e) => r == Err::<Vec<Message<Payload>>, NodeError>(e),
                    },
                    Payload::TransactionOk { .. } => {
                        &&& r matches Ok(out) && out.len() == 0
                        &&& cells_view(next.kv_store) == cells_view(self.kv_store)
                    },
                }
            },
            _ => r == Err::<Vec<Message<Payload>>, NodeError>(NodeError::UnexpectedEvent),
        }
    }

    fn from_init(_state: (), _init: Init) -> (r: Result<Self, NodeError>) {
        Ok(KeyValueStoreNode { id: 1, kv_store: new_cells() })
    }

    fn step(&mut self, input: Event<Payload>) -> (r: Result<Vec<Message<Payload>>, NodeError>) {
        let input = match input {
            Event::Message(m) => m,
            _ => {
                return Err(NodeError::UnexpectedEvent);
            },
        };
        if self.id == usize::MAX {
            return Err(NodeError::IdsExhausted);
        }
        let reply = input.into_reply(Some(&mut self.id));
        match reply.body.payload {
            Payload::Transaction { transaction } => {
                let done = self.run_transaction(transaction)?;
                let out = Message {
                    src: reply.src,
                    dst: reply.dst,
                    body: Body {
                        id: reply.body.id,
                        in_reply_to: reply.body.in_reply_to,
                        payload: Payload::TransactionOk { transaction: done },
                    },
                };
                Ok(vec![out])
            },
            _ => Ok(Vec::new()),
        }
    }
}

} // verus!
