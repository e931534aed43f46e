//! Node runtime and gossip-based broadcast replication for a simulated cluster
//! whose nodes talk through line-delimited messages.

mod chance;
pub mod echo;
pub mod error;
pub mod gossip;
pub mod kafka;
pub mod kv_store;
pub mod message;
pub mod node;
pub mod standalone;
pub mod store;
pub mod unique;
pub mod valueset;

pub use error::NodeError;
pub use message::{handshake, Body, Event, Init, InitPayload, Message};
pub use node::Node;
pub use gossip::{
    gossip_payload, names_contain, BroadcastNode, InjectedPayload, Payload as BroadcastPayload,
};
