use vstd::prelude::*;

use crate::error::NodeError;
use crate::message::{Body, Event, Init, Message};
use crate::node::Node;

verus! {

/// What an echo node sends and receives.
#[derive(Debug, Clone)]
pub enum Payload {
    Echo { echo: String },
    EchoOk { echo: String },
}

/// A node that answers each `echo` request with the same text.
pub struct EchoNode {
    pub id: usize,
}

impl Node<(), Payload> for EchoNode {
    open spec fn inv(&self) -> bool {
        true
    }

    open spec fn fresh(&self, init: Init) -> bool {
        self.id == 1
    }

    /// A message takes the next id; an `echo` is answered with its own text,
    /// anything else is dropped. A node of this kind gets no other event.
    open spec fn steps_to(
        &self,
        next: &Self,
        input: Event<Payload>,
        r: Result<Vec<Message<Payload>>, NodeError>,
    ) -> bool {
        match input {
            Event::Message(m) => if self.id == usize::MAX {
                r == Err::<Vec<Message<Payload>>, NodeError>(NodeError::IdsExhausted)
            } else {
                &&& next.id == self.id + 1
                &&& match m.body.payload {
                    Payload::Echo { echo } => r matches Ok(out) && out.len() == 1 && {
                        let o = out[0];
                        &&& o.src == m.dst
                        &&& o.dst == m.src
                        &&& o.body.id == Some(self.id)
                        &&& o.body.in_reply_to == m.body.id
                        &&& o.body.payload == Payload::EchoOk { echo }
                    },
                    Payload::EchoOk { .. } => r matches Ok(out) && out.len() == 0,
                }
            },
            _ => r == Err::<Vec<Message<Payload>>, NodeError>(NodeError::UnexpectedEvent),
        }
    }

    fn from_init(_state: (), _init: Init) -> (r: Result<Self, NodeError>) {
        Ok(EchoNode { id: 1 })
    }

    fn step(&mut self, input: Event<Payload>) -> (r: Result<Vec<Message<Payload>>, NodeError>) {
        let input = match input {
            Event::Message(m) => m,
            _ => {
                return Err(NodeError::UnexpectedEvent);
            },
        };
        if self.id == usize::MAX {
            return Err(NodeError::IdsExhausted);
        }
        let reply = input.into_reply(Some(&mut self.id));
        match reply.body.payload {
            Payload::Echo { echo } => {
                let out = Message {
                    src: reply.src,
                    dst: reply.dst,
                    body: Body {
                        id: reply.body.id,
                        in_reply_to: reply.body.in_reply_to,
                        payload: Payload::EchoOk { echo },
                    },
                };
                Ok(vec![out])
            },
            _ => Ok(Vec::new()),
        }
    }
}

} // verus!
