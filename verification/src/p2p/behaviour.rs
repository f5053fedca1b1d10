//! # Locha libp2p behaviour
//!
//! The decisions of the behaviour that ties together Kademlia, gossipsub,
//! mDNS, UPnP and identify: which peers to dial, when to run a random
//! Kademlia query, and which bootstrap nodes to start with.

use std::collections::VecDeque;

use vstd::prelude::*;
use vstd::arithmetic::power2::pow2;

use crate::address::PeerId;
use crate::discovery::{
    bootstrap_entry_of, default_bootstrap_nodes_ok, default_bootstrap_nodes_valid,
    parse_bootstrap_node, KademliaEventKind, BOOTSTRAP_NODES,
};
use libp2p::Multiaddr;

verus! {

/// Node/agent version string.
pub const AGENT_VERSION: &'static str = "Locha Mesh P2P 1.0.0";

/// Locha P2P Kademlia protocol string.
pub const LOCHA_KAD_PROTOCOL_NAME: &'static str = "/locha/kad/1.0.0";

/// Protocol string of identify.
pub const IDENTIFY_PROTOCOL_VERSION: &'static str = "/locha/identify/1.0.0";

/// Seconds after which a Kademlia query times out.
pub const KAD_QUERY_TIMEOUT_SECS: u64 = 300;

/// Longest wait, in seconds, between two random Kademlia queries.
pub const MAX_QUERY_INTERVAL_SECS: u64 = 60;

/// The default bootstrap nodes, each split into its peer id and address.
pub fn bootstrap_nodes() -> (r: Vec<(PeerId, Multiaddr)>)
    requires
        default_bootstrap_nodes_valid(),
    ensures
        r@.len() == BOOTSTRAP_NODES@.len(),
        forall|i: int|
            0 <= i < BOOTSTRAP_NODES@.len() ==> #[trigger] bootstrap_entry_of(
                BOOTSTRAP_NODES@[i]@,
                r@[i],
            ),
{
    let mut out: Vec<(PeerId, Multiaddr)> = Vec::new();
    let mut i: usize = 0;
    while i < BOOTSTRAP_NODES.len()
        invariant
            0 <= i <= BOOTSTRAP_NODES@.len(),
            default_bootstrap_nodes_valid(),
            out@.len() == i,
            forall|j: int|
                0 <= j < i ==> #[trigger] bootstrap_entry_of(BOOTSTRAP_NODES@[j]@, out@[j]),
        decreases BOOTSTRAP_NODES@.len() - i,
    {
        assert(crate::discovery::bootstrap_node_valid(BOOTSTRAP_NODES@[i as int]@));
        if let Some(entry) = parse_bootstrap_node(BOOTSTRAP_NODES[i]) {
            out.push(entry);
        }
        i = i + 1;
    }
    out
}

/// The default bootstrap nodes, or `None` when one of them is not a valid
/// peer address.
pub fn try_bootstrap_nodes() -> (r: Option<Vec<(PeerId, Multiaddr)>>)
    ensures
        r is Some <==> default_bootstrap_nodes_valid(),
        r matches Some(v) ==> v@.len() == BOOTSTRAP_NODES@.len() && forall|i: int|
            0 <= i < BOOTSTRAP_NODES@.len() ==> #[trigger] bootstrap_entry_of(
                BOOTSTRAP_NODES@[i]@,
                v@[i],
            ),
{
    if default_bootstrap_nodes_ok() {
        Some(bootstrap_nodes())
    } else {
        None
    }
}

/// Kademlia bootstraps at start when it was given bootstrap peers.
pub fn should_bootstrap(bootstrap: &Vec<(PeerId, Multiaddr)>) -> (r: bool)
    ensures
        r == (bootstrap@.len() > 0),
{
    bootstrap.len() != 0
}

/// A behaviour event.
pub enum BehaviourEvent {
    /// A new message received from a peer: its source, its id and its data.
    Message(PeerId, libp2p::gossipsub::MessageId, Vec<u8>),
}

/// The wait before the random query that follows one that waited
/// `current` seconds: twice as long, but at most a minute.
pub open spec fn next_query_interval(current: u64) -> u64 {
    if 2 * current <= MAX_QUERY_INTERVAL_SECS {
        (2 * current) as u64
    } else {
        MAX_QUERY_INTERVAL_SECS
    }
}

/// The state of the behaviour beside its sub-behaviours: the peers to dial
/// and the schedule of random Kademlia queries.
pub struct Inner {
    pending_dials: VecDeque<PeerId>,
    next_query_secs: u64,
}

impl Inner {
    /// The peers that wait to be dialed, oldest first.
    pub closed spec fn pending_dials(&self) -> Seq<PeerId> {
        self.pending_dials@
    }

    /// The wait before the random query after the next one.
    pub closed spec fn next_query_secs(&self) -> u64 {
        self.next_query_secs
    }

    /// A fresh state: nobody to dial; the first random query runs at once
    /// and the one after it waits a second.
    pub fn new() -> (r: Inner)
        ensures
            r.pending_dials().len() == 0,
            r.next_query_secs() == query_wait(0),
    {
        Inner { pending_dials: VecDeque::new(), next_query_secs: 1 }
    }

    /// Queue `peer` to be dialed when it is not connected.
    pub fn queue_dial(&mut self, peer: PeerId)
        ensures
            final(self).pending_dials() == old(self).pending_dials().push(peer),
            final(self).next_query_secs() == old(self).next_query_secs(),
    {
        self.pending_dials.push_back(peer);
    }

    /// Peers found by mDNS: each is queued to be dialed, in the order
    /// found; the peers and addresses are handed back to be added to the
    /// Kademlia routing table.
    pub fn on_mdns_discovered(&mut self, found: Vec<(PeerId, Multiaddr)>) -> (routes: Vec<
        (PeerId, Multiaddr),
    >)
        ensures
            routes@.len() == found@.len(),
            forall|i: int| 0 <= i < found@.len() ==> (#[trigger] routes@[i]).1 == found@[i].1
                && routes@[i].0@ == found@[i].0@,
            final(self).pending_dials().len() == old(self).pending_dials().len() + found@.len(),
            final(self).pending_dials().take(old(self).pending_dials().len() as int) == old(self).pending_dials(),
            forall|i: int|
                0 <= i < found@.len() ==> (#[trigger] final(self).pending_dials()[old(self).pending_dials().len() + i])@ == found@[i].0@,
            final(self).next_query_secs() == old(self).next_query_secs(),
    {
        let ghost start = self.pending_dials@;
        let ghost all = found@;
        let n = found.len();
        let mut rest = found;
        let mut routes: Vec<(PeerId, Multiaddr)> = Vec::new();
        let mut i: usize = 0;
        while rest.len() > 0
            invariant
                n == all.len(),
                i <= n,
                rest@ == all.skip(i as int),
                routes@.len() == i,
                forall|k: int| 0 <= k < i ==> (#[trigger] routes@[k]).1 == all[k].1 && routes@[k].0@
                    == all[k].0@,
                self.pending_dials@.len() == start.len() + i,
                self.pending_dials@.take(start.len() as int) == start,
                forall|k: int|
                    0 <= k < i ==> (#[trigger] self.pending_dials@[start.len() + k])@ == all[k].0@,
                self.next_query_secs == old(self).next_query_secs,
            decreases rest@.len(),
        {
            let (peer, addr) = rest.remove(0);
            proof {
                assert((peer, addr) == all[i as int]);
            }
            let ghost before = self.pending_dials@;
            self.pending_dials.push_back(peer.clone());
            routes.push((peer, addr));
            proof {
                assert(self.pending_dials@.take(start.len() as int) =~= before.take(start.len() as int));
                assert forall|k: int| 0 <= k < i + 1 implies (#[trigger] self.pending_dials@[start.len() + k])@ == all[k].0@ by {
                    if k < i {
                        assert(self.pending_dials@[start.len() + k] == before[start.len() + k]);
                    }
                }
            }
            i = i + 1;
        }
        routes
    }

    /// A Kademlia event: when the routing table was updated with a peer,
    /// that peer is queued to be dialed.
    pub fn on_kademlia_event(&mut self, event: KademliaEventKind)
        ensures
            final(self).pending_dials() == match event {
                KademliaEventKind::RoutingUpdated(p) => old(self).pending_dials().push(p),
                _ => old(self).pending_dials(),
            },
            final(self).next_query_secs() == old(self).next_query_secs(),
    {
        match event {
            KademliaEventKind::RoutingUpdated(peer) => self.queue_dial(peer),
            _ => {},
        }
    }

    /// Take the oldest peer that waits to be dialed.
    pub fn next_dial(&mut self) -> (r: Option<PeerId>)
        ensures
            old(self).pending_dials().len() == 0 ==> r is None && final(self).pending_dials()
                == old(self).pending_dials(),
            old(self).pending_dials().len() > 0 ==> r == Some(old(self).pending_dials()[0])
                && final(self).pending_dials() == old(self).pending_dials().drop_first(),
            final(self).next_query_secs() == old(self).next_query_secs(),
    {
        self.pending_dials.pop_front()
    }

    /// A random query is started now: returns how many seconds to wait
    /// before the next one, and doubles that wait for the query after it,
    /// up to a minute.
    pub fn schedule_next_query(&mut self) -> (wait: u64)
        ensures
            wait == old(self).next_query_secs(),
            final(self).next_query_secs() == next_query_interval(old(self).next_query_secs()),
            final(self).pending_dials() == old(self).pending_dials(),
    {
        let wait = self.next_query_secs;
        self.next_query_secs = if wait <= MAX_QUERY_INTERVAL_SECS / 2 {
            wait * 2
        } else {
            MAX_QUERY_INTERVAL_SECS
        };
        wait
    }
}

/// The wait between random queries never shrinks and stays within one
/// second and one minute; once it reached a minute it stays there.
pub proof fn lemma_query_interval_bounded(current: u64)
    requires
        1 <= current <= MAX_QUERY_INTERVAL_SECS,
    ensures
        current <= next_query_interval(current) <= MAX_QUERY_INTERVAL_SECS,
        current == MAX_QUERY_INTERVAL_SECS ==> next_query_interval(current) == current,
{
}

/// The wait, in seconds, that the `k`-th call of `schedule_next_query`
/// (counting from 0) returns on a fresh state: the gap between the
/// `k`-th random query and the next one.
pub open spec fn query_wait(k: nat) -> u64
    decreases k,
{
    if k == 0 {
        1
    } else {
        next_query_interval(query_wait((k - 1) as nat))
    }
}

/// The gaps between random queries are 1, 2, 4, 8, 16, 32 seconds and then
/// a minute for ever: the `k`-th is 2^k seconds, at most a minute.
pub proof fn lemma_query_waits(k: nat)
    ensures
        query_wait(k) == if pow2(k) <= MAX_QUERY_INTERVAL_SECS {
            pow2(k)
        } else {
            MAX_QUERY_INTERVAL_SECS as nat
        },
    decreases k,
{
    vstd::arithmetic::power2::lemma2_to64();
    if k > 0 {
        lemma_query_waits((k - 1) as nat);
        vstd::arithmetic::power2::lemma_pow2_unfold(k);
    }
}

} // verus!
