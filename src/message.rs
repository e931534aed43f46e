use vstd::prelude::*;

use crate::error::NodeError;

verus! {

/// An envelope: who sent it, who it is for, and what it carries.
#[derive(Debug, Clone)]
pub struct Message<Payload> {
    pub src: String,
    pub dst: String,
    pub body: Body<Payload>,
}

/// A message body: its sender-assigned id, the id it answers, and the payload.
#[derive(Debug, Clone)]
pub struct Body<Payload> {
    pub id: Option<usize>,
    pub in_reply_to: Option<usize>,
    pub payload: Payload,
}

/// What a node is told about itself and the cluster during the handshake.
#[derive(Debug, Clone)]
pub struct Init {
    pub node_id: String,
    pub node_ids: Vec<String>,
}

/// The payloads of the handshake exchange.
#[derive(Debug, Clone)]
pub enum InitPayload {
    Init(Init),
    InitOk,
}

/// One unit of work for a node: a message from a peer, a signal the node
/// injected for itself, or the end of the input stream.
#[derive(Debug, Clone)]
pub enum Event<Payload, InjectedPayload = ()> {
    Message(Message<Payload>),
    Injected(InjectedPayload),
    EOF,
}

impl<Payload> Message<Payload> {
    /// Turns a request into the skeleton of its reply: the endpoints swap, the
    /// reply answers the request's id, and the payload is carried over for the
    /// caller to replace. With a counter, the reply takes its value as its own id
    /// and the counter moves on by one.
    pub fn into_reply(self, id: Option<&mut usize>) -> (r: Self)
        requires
            id matches Some(c) ==> *c < usize::MAX,
        ensures
            r.src == self.dst,
            r.dst == self.src,
            r.body.in_reply_to == self.body.id,
            r.body.payload == self.body.payload,
            r.body.id == (match id { Some(c) => Some(*c), None => None::<usize> }),
            id matches Some(c) ==> *final(c) == *c + 1,
    {
        let new_id = match id {
            Some(c) => {
                let mid = *c;
                *c = *c + 1;
                Some(mid)
            },
            None => None,
        };
        Message {
            src: self.dst,
            dst: self.src,
            body: Body { id: new_id, in_reply_to: self.body.id, payload: self.body.payload },
        }
    }
}

/// Answers the first message a node receives. It must be an `init` request;
/// the acknowledgement goes back to its sender with id 0 and answers the
/// request's id. Returns what the request told the node alongside the reply.
pub fn handshake(request: Message<InitPayload>) -> (r: Result<(Init, Message<InitPayload>), NodeError>)
    ensures
        request.body.payload is InitOk <==> r == Err::<(Init, Message<InitPayload>), NodeError>(
            NodeError::NotInit,
        ),
        request.body.payload matches InitPayload::Init(init) ==> r matches Ok((got, reply)) && {
            &&& got == init
            &&& reply.src == request.dst
            &&& reply.dst == request.src
            &&& reply.body.id == Some(0usize)
            &&& reply.body.in_reply_to == request.body.id
            &&& reply.body.payload is InitOk
        },
{
    match request.body.payload {
        InitPayload::Init(init) => {
            let reply = Message {
                src: request.dst,
                dst: request.src,
                body: Body { id: Some(0), in_reply_to: request.body.id, payload: InitPayload::InitOk },
            };
            Ok((init, reply))
        },
        InitPayload::InitOk => Err(NodeError::NotInit),
    }
}

} // verus!
