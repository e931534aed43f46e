use vstd::prelude::*;

use crate::error::NodeError;

verus! {

/// An envelope of the self-contained node, which does its own handshake.
#[derive(Debug, Clone)]
pub struct Message {
    pub src: String,
    pub dst: String,
    pub body: Body,
}

/// A message body of the self-contained node.
#[derive(Debug, Clone)]
pub struct Body {
    pub id: Option<usize>,
    pub in_reply_to: Option<usize>,
    pub payload: Payload,
}

/// Everything the self-contained node sends and receives.
#[derive(Debug, Clone)]
pub enum Payload {
    Init { node_id: String, node_ids: Vec<String> },
    InitOk,
    Echo { echo: String },
    EchoOk { echo: String },
    Generate,
    GenerateOk { id: usize },
}

/// A node that takes its own `init`, answers `echo`, and hands out its
/// message ids as unique numbers on `generate`.
pub struct Node {
    pub id: String,
    pub node_ids: Vec<String>,
    pub msg_id: usize,
}

/// `r` answers `m` from node `me` with id `id`.
pub open spec fn answers(r: Message, m: Message, me: Seq<char>, id: usize) -> bool {
    &&& r.src@ == me
    &&& r.dst == m.src
    &&& r.body.id == Some(id)
    &&& r.body.in_reply_to == m.body.id
}

impl Node {
    /// A node that has not been told who it is yet.
    pub fn new() -> (r: Self)
        ensures
            r.id@.len() == 0,
            r.node_ids@.len() == 0,
            r.msg_id == 0,
    {
        Node { id: String::new(), node_ids: Vec::new(), msg_id: 0 }
    }

    /// Handles one message. An `init` sets who this node is; `init`, `echo`
    /// and `generate` are answered and take the next message id; a stray
    /// `init_ok` is fatal; the other replies are dropped.
    pub fn step(&mut self, input: Message) -> (r: Result<Vec<Message>, NodeError>)
        ensures
            input.body.payload is InitOk ==> {
                &&& r == Err::<Vec<Message>, NodeError>(NodeError::UnexpectedInitOk)
                &&& *final(self) == *old(self)
            },
            (input.body.payload is EchoOk || input.body.payload is GenerateOk) ==> {
                &&& r matches Ok(out) && out.len() == 0
                &&& *final(self) == *old(self)
            },
            (input.body.payload is Init || input.body.payload is Echo || input.body.payload is Generate)
                ==> {
                &&& old(self).msg_id == usize::MAX ==> {
                    &&& r == Err::<Vec<Message>, NodeError>(NodeError::IdsExhausted)
                    &&& *final(self) == *old(self)
                }
                &&& old(self).msg_id < usize::MAX ==> {
                    &&& final(self).msg_id == old(self).msg_id + 1
                    &&& r matches Ok(out) && out.len() == 1 && answers(
                        out[0],
                        input,
                        final(self).id@,
                        old(self).msg_id,
                    ) && match input.body.payload {
                        Payload::Init { node_id, node_ids } => {
                            &&& final(self).id == node_id
                            &&& final(self).node_ids == node_ids
                            &&& out[0].body.payload is InitOk
                        },
                        Payload::Echo { echo } => {
                            &&& final(self).id == old(self).id
                            &&& final(self).node_ids == old(self).node_ids
                            &&& out[0].body.payload == Payload::EchoOk { echo }
                        },
                        _ => {
                            &&& final(self).id == old(self).id
                            &&& final(self).node_ids == old(self).node_ids
                            &&& out[0].body.payload == Payload::GenerateOk { id: old(self).msg_id }
                        },
                    }
                }
            },
    {
        match input.body.payload {
            Payload::InitOk => {
                return Err(NodeError::UnexpectedInitOk);
            },
            Payload::EchoOk { .. } | Payload::GenerateOk { .. } => {
                return Ok(Vec::new());
            },
            _ => {},
        }
        if self.msg_id == usize::MAX {
            return Err(NodeError::IdsExhausted);
        }
        let payload = match input.body.payload {
            Payload::Init { node_id, node_ids } => {
                self.id = node_id;
                self.node_ids = node_ids;
                Payload::InitOk
            },
            Payload::Echo { echo } => Payload::EchoOk { echo },
            _ => Payload::GenerateOk { id: self.msg_id },
        };
        let reply = Message {
            src: self.id.clone(),
            dst: input.src,
            body: Body { id: Some(self.msg_id), in_reply_to: input.body.id, payload },
        };
        self.msg_id = self.msg_id + 1;
        Ok(vec![reply])
    }
}

} // verus!
