//! The network behaviour of a Locha P2P node.

pub mod behaviour;

pub use self::behaviour::{BehaviourEvent, Inner};
