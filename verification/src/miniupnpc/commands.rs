//! # UPnP Commands
//!
//! The arguments and answers of the commands sent to a gateway.

use vstd::prelude::*;

verus! {

/// Transport protocol of a port mapping.
pub enum Protocol {
    Tcp,
    Udp,
}

impl Protocol {
    /// The name of the protocol as the gateway takes it.
    pub fn as_str(&self) -> (r: &'static str)
        ensures
            r@ == match self {
                Protocol::Tcp => "TCP"@,
                Protocol::Udp => "UDP"@,
            },
    {
        match self {
            Protocol::Tcp => "TCP",
            Protocol::Udp => "UDP",
        }
    }
}

/// UPnP status information.
pub struct StatusInfo {
    pub status: String,
    pub uptime_secs: u64,
    pub lastconnerror: String,
}

} // verus!
