use vstd::prelude::*;

use crate::error::NodeError;
use crate::message::{Event, Init, Message};

verus! {

/// What every node kind offers to the runtime: it is built once from the
/// handshake, then driven one event at a time. A step hands back the messages
/// to send, in order; an error stops the node.
pub trait Node<S, Payload, InjectedPayload = ()>: Sized {
    /// The node's well-formedness: set up by `from_init`, kept by `step`.
    spec fn inv(&self) -> bool;

    /// `self` is the node as it stands right after the handshake `init`.
    spec fn fresh(&self, init: Init) -> bool;

    /// How one event takes the node from `self` to `next`, with result `r`.
    spec fn steps_to(
        &self,
        next: &Self,
        input: Event<Payload, InjectedPayload>,
        r: Result<Vec<Message<Payload>>, NodeError>,
    ) -> bool;

    fn from_init(state: S, init: Init) -> (r: Result<Self, NodeError>)
        ensures
            r matches Ok(n) && n.inv() && n.fresh(init),
    ;

    fn step(&mut self, input: Event<Payload, InjectedPayload>) -> (r: Result<
        Vec<Message<Payload>>,
        NodeError,
    >)
        requires
            old(self).inv(),
        ensures
            final(self).inv(),
            old(self).steps_to(&*final(self), input, r),
    ;
}

} // verus!
