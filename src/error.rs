use vstd::prelude::*;

verus! {

/// The conditions that stop a node. Every one of them is fatal: the process
/// running the node is expected to abort with a diagnostic.
#[derive(Debug, Clone, Copy, PartialEq, Eq, Structural)]
pub enum NodeError {
    /// The first message was not an initialisation request.
    NotInit,
    /// A second initialisation acknowledgement arrived where none is expected.
    UnexpectedInitOk,
    /// A topology did not hold a row for this node.
    MissingTopology,
    /// Gossip came from, or was due to, a peer outside the initial roster.
    UnknownPeer,
    /// The node got an event of a kind it does not handle.
    UnexpectedEvent,
    /// The node has used up every message id it can assign.
    IdsExhausted,
    /// The log has used up every offset it can assign.
    OffsetsExhausted,
    /// A write in a transaction came without a value.
    MissingWriteValue,
    /// A transaction named an operation other than `r` or `w`.
    UnknownOperation,
}

} // verus!
