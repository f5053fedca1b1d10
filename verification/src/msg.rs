//! The messages that chat clients exchange.

use vstd::prelude::*;

verus! {

/// The contents of a chat message.
pub struct Msg {
    pub text: String,
    pub type_file: Option<String>,
    pub file: Option<String>,
}

/// A chat message with its addressing and timing.
pub struct MessageData {
    pub to_uid: String,
    pub msg_id: String,
    pub timestamp: u64,
    pub shipping_time: Option<u64>,
    pub msg_type: u32,
    pub msg: Msg,
}

} // verus!
