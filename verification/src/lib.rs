//! # Locha P2P
//!
//! The building blocks of a node of the Locha P2P chat: peer discovery
//! policies, gossip message identification, node identities, the UPnP
//! address reporting state machine and the decisions of the network
//! behaviour and of the runtime.

pub mod address;
pub mod discovery;
pub mod identity;
pub mod gossip;
pub mod upnp;
pub mod p2p;
pub mod runtime;
pub mod msg;
pub mod chat;
pub mod miniupnpc;
pub mod ui;
pub mod sync;
