use vstd::prelude::*;
use vstd::string::StringExecFns;

use crate::error::NodeError;
use crate::message::{Body, Event, Init, Message};
use crate::node::Node;

verus! {

/// What a unique-id node sends and receives.
#[derive(Debug, Clone)]
pub enum Payload {
    Generate,
    GenerateOk { guid: String },
}

/// The decimal digits of `n`, most significant first.
pub open spec fn decimal(n: nat) -> Seq<char>
    decreases n,
{
    let digit = (('0' as nat) + n % 10) as char;
    if n < 10 {
        seq![digit]
    } else {
        decimal(n / 10).push(digit)
    }
}

/// The identifier minted by `node` from its counter value `n`: the node's
/// name, a dash, and `n` in decimal.
pub open spec fn guid_of(node: Seq<char>, n: nat) -> Seq<char> {
    node + seq!['-'] + decimal(n)
}

/// Relies on `ToString` through std's `Display` for `usize`: an unsigned
/// integer in decimal, without sign or padding.
#[verifier::external_body]
fn decimal_text(n: usize) -> (r: String)
    ensures
        r@ == decimal(n as nat),
{
    n.to_string()
}

/// The identifier for counter value `n` minted by `node`.
pub fn guid_for(node: &String, n: usize) -> (r: String)
    ensures
        r@ == guid_of(node@, n as nat),
{
    let digits = decimal_text(n);
    let mut guid = node.clone();
    guid.append("-");
    guid.append(digits.as_str());
    proof {
        reveal_strlit("-");
    }
    guid
}

/// A node that mints identifiers unique across the cluster from its own name
/// and a counter that never repeats.
pub struct UniqueNode {
    pub node: String,
    pub id: usize,
}

impl Node<(), Payload> for UniqueNode {
    open spec fn inv(&self) -> bool {
        true
    }

    open spec fn fresh(&self, init: Init) -> bool {
        self.id == 1 && self.node == init.node_id
    }

    /// A message takes the next id; a `generate` is answered with the name
    /// of this node joined to the counter as it stands after that.
    open spec fn steps_to(
        &self,
        next: &Self,
        input: Event<Payload>,
        r: Result<Vec<Message<Payload>>, NodeError>,
    ) -> bool {
        match input {
            Event::Message(m) => if self.id == usize::MAX {
                r == Err::<Vec<Message<Payload>>, NodeError>(NodeError::IdsExhausted)
            } else {
                &&& next.id == self.id + 1
                &&& next.node == self.node
                &&& match m.body.payload {
                    Payload::Generate => r matches Ok(out) && out.len() == 1 && {
                        let o = out[0];
                        &&& o.src == m.dst
                        &&& o.dst == m.src
                        &&& o.body.id == Some(self.id)
                        &&& o.body.in_reply_to == m.body.id
                        &&& o.body.payload matches Payload::GenerateOk { guid } && guid@
                            == guid_of(self.node@, (self.id + 1) as nat)
                    },
                    Payload::GenerateOk { .. } => r matches Ok(out) && out.len() == 0,
                }
            },
            _ => r == Err::<Vec<Message<Payload>>, NodeError>(NodeError::UnexpectedEvent),
        }
    }

    fn from_init(_state: (), init: Init) -> (r: Result<Self, NodeError>) {
        Ok(UniqueNode { node: init.node_id, id: 1 })
    }

    fn step(&mut self, input: Event<Payload>) -> (r: Result<Vec<Message<Payload>>, NodeError>) {
        let input = match input {
            Event::Message(m) => m,
            _ => {
                return Err(NodeError::UnexpectedEvent);
            },
        };
        if self.id == usize::MAX {
            return Err(NodeError::IdsExhausted);
        }
        let reply = input.into_reply(Some(&mut self.id));
        match reply.body.payload {
            Payload::Generate => {
                let guid = guid_for(&self.node, self.id);
                let out = Message {
                    src: reply.src,
                    dst: reply.dst,
                    body: Body {
                        id: reply.body.id,
                        in_reply_to: reply.body.in_reply_to,
                        payload: Payload::GenerateOk { guid },
                    },
                };
                Ok(vec![out])
            },
            _ => Ok(Vec::new()),
        }
    }
}

} // verus!
