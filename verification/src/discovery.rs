//! # Discovery behaviour
//!
//! Which addresses of a peer may be dialed, the configuration of peer
//! discovery, and the queue of discovery events that the behaviour reports.

use std::collections::VecDeque;

use vstd::prelude::*;

use crate::address::{
    components, multiaddr_components, multiaddr_from_str, parse_multiaddr, pop_component,
    Component, PeerId,
};
use libp2p::Multiaddr;

verus! {

/// Kademlia protocol name of Locha P2P.
pub const LOCHA_KAD_PROTOCOL_NAME: &'static str = "/locha/kad/1.0.0";

/// Addresses of the default bootstrap nodes.
pub const BOOTSTRAP_NODES: [&'static str; 1] = [
    "/dns/p2p.locha.io/tcp/45215/p2p/16Uiu2HAm3U4JmNLwVfCypZX3hCLmVkcsdzEh8NHfPFcKRhsaJ8rf",
];

/// An IPv4 address in 10.0.0.0/8, 172.16.0.0/12 or 192.168.0.0/16.
pub open spec fn ipv4_octets_private(o: Seq<u8>) -> bool {
    ||| o[0] == 10
    ||| o[0] == 172 && 16 <= o[1] <= 31
    ||| o[0] == 192 && o[1] == 168
}

/// An IPv4 address in the Shared Address Space 100.64.0.0/10.
pub open spec fn ipv4_octets_shared(o: Seq<u8>) -> bool {
    o[0] == 100 && 64 <= o[1] <= 127
}

/// An IPv6 address whose first segment lies in fc00::/7.
pub open spec fn ipv6_segment_ula(first: u16) -> bool {
    0xfc00 <= first <= 0xfdff
}

/// The address starts with a private IPv4 address.
pub open spec fn head_ipv4_private(c: Seq<Component>) -> bool {
    c.len() > 0 && match c[0] {
        Component::Ip4(o) => ipv4_octets_private(o@),
        _ => false,
    }
}

/// The address starts with an IPv4 address of the Shared Address Space.
pub open spec fn head_ipv4_shared(c: Seq<Component>) -> bool {
    c.len() > 0 && match c[0] {
        Component::Ip4(o) => ipv4_octets_shared(o@),
        _ => false,
    }
}

/// The address starts with an IPv6 unique local address.
pub open spec fn head_ipv6_ula(c: Seq<Component>) -> bool {
    c.len() > 0 && match c[0] {
        Component::Ip6(s) => ipv6_segment_ula(s@[0]),
        _ => false,
    }
}

/// Is the multiaddress an IPv4 private address?
pub fn is_ipv4_private(addr: &Multiaddr) -> (r: bool)
    ensures
        r == head_ipv4_private(multiaddr_components(*addr)),
{
    let c = components(addr);
    if c.len() == 0 {
        return false;
    }
    match &c[0] {
        Component::Ip4(o) => o[0] == 10 || (o[0] == 172 && 16 <= o[1] && o[1] <= 31) || (o[0]
            == 192 && o[1] == 168),
        _ => false,
    }
}

/// Is the multiaddress part of the IPv4 Shared Address Space?
pub fn is_ipv4_shared(addr: &Multiaddr) -> (r: bool)
    ensures
        r == head_ipv4_shared(multiaddr_components(*addr)),
{
    let c = components(addr);
    if c.len() == 0 {
        return false;
    }
    match &c[0] {
        Component::Ip4(o) => {
            let second = o[1];
            assert((second & 0xc0u8 == 0x40u8) <==> (64 <= second && second <= 127))
                by (bit_vector);
            o[0] == 100 && (second & 0b1100_0000 == 0b0100_0000)
        },
        _ => false,
    }
}

/// Is the multiaddress an IPv6 unique local address?
pub fn is_ipv6_ula(addr: &Multiaddr) -> (r: bool)
    ensures
        r == head_ipv6_ula(multiaddr_components(*addr)),
{
    let c = components(addr);
    if c.len() == 0 {
        return false;
    }
    match &c[0] {
        Component::Ip6(s) => {
            let first = s[0];
            assert(((first & 0xfe00u16) == 0xfc00u16) <==> (0xfc00 <= first && first <= 0xfdff))
                by (bit_vector);
            (first & 0xfe00) == 0xfc00
        },
        _ => false,
    }
}


/// The components end with the identity of a peer.
pub open spec fn ends_with_peer(c: Seq<Component>) -> bool {
    c.len() > 0 && c.last() is P2p
}

/// `peer` and `rest` are what an address with components `c` splits into:
/// the peer id of its last component and the components before it.
pub open spec fn splits_into(c: Seq<Component>, peer: PeerId, rest: Seq<Component>) -> bool {
    &&& c.len() > 0
    &&& c.last() == Component::P2p(peer)
    &&& rest == c.drop_last()
}

/// The text parses to a multiaddress that ends with the identity of a peer.
pub open spec fn bootstrap_node_valid(s: Seq<char>) -> bool {
    match multiaddr_from_str(s) {
        Some(c) => ends_with_peer(c),
        None => false,
    }
}

/// Every default bootstrap node is a valid peer address.
pub open spec fn default_bootstrap_nodes_valid() -> bool {
    forall|i: int|
        0 <= i < BOOTSTRAP_NODES@.len() ==> #[trigger] bootstrap_node_valid(BOOTSTRAP_NODES@[i]@)
}

/// `entry` is what the bootstrap node address `s` parses and splits into.
pub open spec fn bootstrap_entry_of(s: Seq<char>, entry: (PeerId, Multiaddr)) -> bool {
    match multiaddr_from_str(s) {
        Some(c) => splits_into(c, entry.0, multiaddr_components(entry.1)),
        None => false,
    }
}

/// Splits an address that ends in `/p2p/<peer id>` into the peer id and the
/// address before it; `None` when the address does not end with a peer id.
pub fn split_peer_address(addr: Multiaddr) -> (r: Option<(PeerId, Multiaddr)>)
    ensures
        r is Some <==> ends_with_peer(multiaddr_components(addr)),
        r matches Some(e) ==> splits_into(
            multiaddr_components(addr),
            e.0,
            multiaddr_components(e.1),
        ),
{
    let mut addr = addr;
    match pop_component(&mut addr) {
        Some(Component::P2p(peer)) => Some((peer, addr)),
        _ => None,
    }
}

/// Parses the text of a bootstrap node address and splits off its peer id.
pub fn parse_bootstrap_node(s: &str) -> (r: Option<(PeerId, Multiaddr)>)
    ensures
        r is Some <==> bootstrap_node_valid(s@),
        r matches Some(e) ==> bootstrap_entry_of(s@, e),
{
    match parse_multiaddr(s) {
        Some(addr) => split_peer_address(addr),
        None => None,
    }
}

/// Whether every default bootstrap node is a valid peer address.
pub fn default_bootstrap_nodes_ok() -> (r: bool)
    ensures
        r == default_bootstrap_nodes_valid(),
{
    let mut i: usize = 0;
    while i < BOOTSTRAP_NODES.len()
        invariant
            0 <= i <= BOOTSTRAP_NODES@.len(),
            forall|j: int| 0 <= j < i ==> #[trigger] bootstrap_node_valid(BOOTSTRAP_NODES@[j]@),
        decreases BOOTSTRAP_NODES@.len() - i,
    {
        if parse_bootstrap_node(BOOTSTRAP_NODES[i]).is_none() {
            return false;
        }
        i = i + 1;
    }
    true
}


/// Configuration builder for the discovery behaviour.
pub struct DiscoveryConfig {
    pub use_mdns: bool,
    pub allow_ipv4_private: bool,
    pub allow_ipv4_shared: bool,
    pub allow_ipv6_ula: bool,
    pub id: Option<PeerId>,
    pub bootstrap: Vec<(PeerId, Multiaddr)>,
}

impl DiscoveryConfig {
    /// A configuration with every option off and no bootstrap address; with
    /// `use_default_bootstrap_nodes`, the default bootstrap nodes are added.
    pub fn new(use_default_bootstrap_nodes: bool) -> (cfg: DiscoveryConfig)
        requires
            use_default_bootstrap_nodes ==> default_bootstrap_nodes_valid(),
        ensures
            !cfg.use_mdns,
            !cfg.allow_ipv4_private,
            !cfg.allow_ipv4_shared,
            !cfg.allow_ipv6_ula,
            cfg.id is None,
            !use_default_bootstrap_nodes ==> cfg.bootstrap@.len() == 0,
            use_default_bootstrap_nodes ==> cfg.bootstrap@.len() == BOOTSTRAP_NODES@.len(),
            use_default_bootstrap_nodes ==> forall|i: int|
                0 <= i < BOOTSTRAP_NODES@.len() ==> #[trigger] bootstrap_entry_of(
                    BOOTSTRAP_NODES@[i]@,
                    cfg.bootstrap@[i],
                ),
    {
        let mut cfg = DiscoveryConfig {
            use_mdns: false,
            allow_ipv4_private: false,
            allow_ipv4_shared: false,
            allow_ipv6_ula: false,
            id: None,
            bootstrap: Vec::new(),
        };
        if use_default_bootstrap_nodes {
            let mut i: usize = 0;
            while i < BOOTSTRAP_NODES.len()
                invariant
                    0 <= i <= BOOTSTRAP_NODES@.len(),
                    default_bootstrap_nodes_valid(),
                    !cfg.use_mdns,
                    !cfg.allow_ipv4_private,
                    !cfg.allow_ipv4_shared,
                    !cfg.allow_ipv6_ula,
                    cfg.id is None,
                    cfg.bootstrap@.len() == i,
                    forall|j: int|
                        0 <= j < i ==> #[trigger] bootstrap_entry_of(
                            BOOTSTRAP_NODES@[j]@,
                            cfg.bootstrap@[j],
                        ),
                decreases BOOTSTRAP_NODES@.len() - i,
            {
                assert(bootstrap_node_valid(BOOTSTRAP_NODES@[i as int]@));
                if let Some(entry) = parse_bootstrap_node(BOOTSTRAP_NODES[i]) {
                    cfg.bootstrap.push(entry);
                }
                i = i + 1;
            }
        }
        cfg
    }

    /// A configuration as `new` makes it, or `None` when the default
    /// bootstrap nodes are asked for and one of them is not a valid peer
    /// address.
    pub fn try_new(use_default_bootstrap_nodes: bool) -> (r: Option<DiscoveryConfig>)
        ensures
            r is None <==> use_default_bootstrap_nodes && !default_bootstrap_nodes_valid(),
            r matches Some(cfg) ==> {
                &&& !cfg.use_mdns && !cfg.allow_ipv4_private && !cfg.allow_ipv4_shared
                    && !cfg.allow_ipv6_ula && cfg.id is None
                &&& !use_default_bootstrap_nodes ==> cfg.bootstrap@.len() == 0
                &&& use_default_bootstrap_nodes ==> cfg.bootstrap@.len() == BOOTSTRAP_NODES@.len()
                    && forall|i: int|
                    0 <= i < BOOTSTRAP_NODES@.len() ==> #[trigger] bootstrap_entry_of(
                        BOOTSTRAP_NODES@[i]@,
                        cfg.bootstrap@[i],
                    )
            },
    {
        if use_default_bootstrap_nodes && !default_bootstrap_nodes_ok() {
            None
        } else {
            Some(DiscoveryConfig::new(use_default_bootstrap_nodes))
        }
    }

    /// Use mDNS for peer discovery?
    pub fn use_mdns(&mut self, v: bool) -> (r: &mut Self)
        ensures
            *r == (DiscoveryConfig { use_mdns: v, ..*old(self) }),
            *final(self) == *final(r),
    {
        self.use_mdns = v;
        self
    }

    /// Allow IPv4 private addresses?
    ///
    /// Address ranges considered private:
    ///
    /// - 10.0.0.0/8
    /// - 172.16.0.0/12
    /// - 192.168.0.0/16
    pub fn allow_ipv4_private(&mut self, v: bool) -> (r: &mut Self)
        ensures
            *r == (DiscoveryConfig { allow_ipv4_private: v, ..*old(self) }),
            *final(self) == *final(r),
    {
        self.allow_ipv4_private = v;
        self
    }

    /// Allow IPv4 shared addresses?
    ///
    /// Addresses considered part of Shared Address Space:
    ///
    /// - 100.64.0.0/10
    pub fn allow_ipv4_shared(&mut self, v: bool) -> (r: &mut Self)
        ensures
            *r == (DiscoveryConfig { allow_ipv4_shared: v, ..*old(self) }),
            *final(self) == *final(r),
    {
        self.allow_ipv4_shared = v;
        self
    }

    /// Allow unique local addresses (fc00::/7)?
    pub fn allow_ipv6_ula(&mut self, v: bool) -> (r: &mut Self)
        ensures
            *r == (DiscoveryConfig { allow_ipv6_ula: v, ..*old(self) }),
            *final(self) == *final(r),
    {
        self.allow_ipv6_ula = v;
        self
    }

    /// Peer Id of the node discovering peers.
    pub fn id(&mut self, id: PeerId) -> (r: &mut Self)
        ensures
            *r == (DiscoveryConfig { id: Some(id), ..*old(self) }),
            *final(self) == *final(r),
    {
        self.id = Some(id);
        self
    }

    /// Add a bootstrap address for the Kademlia DHT.
    pub fn add_address(&mut self, peer_id: &PeerId, addr: &Multiaddr) -> (r: &mut Self)
        ensures
            r.use_mdns == old(self).use_mdns,
            r.allow_ipv4_private == old(self).allow_ipv4_private,
            r.allow_ipv4_shared == old(self).allow_ipv4_shared,
            r.allow_ipv6_ula == old(self).allow_ipv6_ula,
            r.id == old(self).id,
            r.bootstrap@.len() == old(self).bootstrap@.len() + 1,
            r.bootstrap@.drop_last() == old(self).bootstrap@,
            r.bootstrap@.last().0@ == peer_id@,
            multiaddr_components(r.bootstrap@.last().1) == multiaddr_components(*addr),
            *final(self) == *final(r),
    {
        self.bootstrap.push((peer_id.clone(), addr.clone()));
        self
    }

    /// Is the address refused by this configuration?
    pub fn is_address_not_allowed(&self, addr: &Multiaddr) -> (r: bool)
        ensures
            r == address_not_allowed(
                self.allow_ipv4_private,
                self.allow_ipv4_shared,
                self.allow_ipv6_ula,
                multiaddr_components(*addr),
            ),
    {
        (!self.allow_ipv4_private && is_ipv4_private(addr)) || (!self.allow_ipv4_shared
            && is_ipv4_shared(addr)) || (!self.allow_ipv6_ula && is_ipv6_ula(addr))
    }
}

impl Default for DiscoveryConfig {
    fn default() -> (cfg: DiscoveryConfig)
        ensures
            !cfg.use_mdns,
            !cfg.allow_ipv4_private,
            !cfg.allow_ipv4_shared,
            !cfg.allow_ipv6_ula,
            cfg.id is None,
            cfg.bootstrap@.len() == 0,
    {
        DiscoveryConfig::new(false)
    }
}

/// An address is refused when it starts with an address of a kind that the
/// configuration does not allow.
pub open spec fn address_not_allowed(
    allow_private: bool,
    allow_shared: bool,
    allow_ula: bool,
    c: Seq<Component>,
) -> bool {
    ||| !allow_private && head_ipv4_private(c)
    ||| !allow_shared && head_ipv4_shared(c)
    ||| !allow_ula && head_ipv6_ula(c)
}


/// Each option governs its own range, whatever the others are: an address
/// that starts with an IPv4 address in 10.0.0.0/8, 172.16.0.0/12 or
/// 192.168.0.0/16 is refused exactly when private addresses are not
/// allowed; one in 100.64.0.0/10 exactly when shared addresses are not
/// allowed; and any other IPv4 address is never refused.
pub proof fn lemma_ipv4_refusal_by_range(
    allow_private: bool,
    allow_shared: bool,
    allow_ula: bool,
    ip: [u8; 4],
    rest: Seq<Component>,
)
    ensures
        ({
            let c = seq![Component::Ip4(ip)] + rest;
            let refused = address_not_allowed(allow_private, allow_shared, allow_ula, c);
            &&& (ip[0] == 10 || (ip[0] == 172 && 16 <= ip[1] <= 31) || (ip[0] == 192 && ip[1]
                == 168)) ==> (refused <==> !allow_private)
            &&& (ip[0] == 100 && 64 <= ip[1] <= 127) ==> (refused <==> !allow_shared)
            &&& !(ip[0] == 10 || (ip[0] == 172 && 16 <= ip[1] <= 31) || (ip[0] == 192 && ip[1]
                == 168) || (ip[0] == 100 && 64 <= ip[1] <= 127)) ==> !refused
        }),
{
    let c = seq![Component::Ip4(ip)] + rest;
    assert(c[0] == Component::Ip4(ip));
    assert(ip@[0] == ip[0] && ip@[1] == ip[1]);
}

/// An address that starts with an IPv6 address in fc00::/7 is refused
/// exactly when unique local addresses are not allowed, whatever the other
/// options are; any other IPv6 address is never refused.
pub proof fn lemma_ipv6_refusal_by_range(
    allow_private: bool,
    allow_shared: bool,
    allow_ula: bool,
    ip: [u16; 8],
    rest: Seq<Component>,
)
    ensures
        ({
            let c = seq![Component::Ip6(ip)] + rest;
            let refused = address_not_allowed(allow_private, allow_shared, allow_ula, c);
            &&& (0xfc00 <= ip[0] <= 0xfdff) ==> (refused <==> !allow_ula)
            &&& !(0xfc00 <= ip[0] <= 0xfdff) ==> !refused
        }),
{
    let c = seq![Component::Ip6(ip)] + rest;
    assert(c[0] == Component::Ip6(ip));
    assert(ip@[0] == ip[0]);
}

/// A configuration that allows every kind of address refuses none.
pub proof fn lemma_allow_all_refuses_nothing(c: Seq<Component>)
    ensures
        !address_not_allowed(true, true, true, c),
{
}

/// An address refused by a configuration is also refused by one that
/// allows fewer kinds of addresses.
pub proof fn lemma_refusal_monotone(
    p1: bool,
    s1: bool,
    u1: bool,
    p2: bool,
    s2: bool,
    u2: bool,
    c: Seq<Component>,
)
    requires
        p2 ==> p1,
        s2 ==> s1,
        u2 ==> u1,
        address_not_allowed(p1, s1, u1, c),
    ensures
        address_not_allowed(p2, s2, u2, c),
{
}

/// An event reported by the discovery behaviour.
pub enum DiscoveryEvent {
    /// A peer was found, through Kademlia or mDNS.
    Discovered(PeerId),
    /// A peer connected to us but none of its addresses can be routed.
    UnroutablePeer(PeerId),
}

/// What the Kademlia behaviour reports, as far as peer discovery reads it.
pub enum KademliaEventKind {
    /// A query finished or progressed.
    QueryResult,
    /// The routing table now holds `peer`.
    RoutingUpdated(PeerId),
    /// A peer connected but has no routable address.
    UnroutablePeer(PeerId),
    /// A peer may be added to the routing table.
    RoutablePeer(PeerId),
    /// A peer waits to be added to the routing table.
    PendingRoutablePeer(PeerId),
    /// Any other event.
    Other,
}

/// The discovery event that a Kademlia event gives, if any.
pub open spec fn kademlia_discovery_event(ev: KademliaEventKind) -> Option<DiscoveryEvent> {
    match ev {
        KademliaEventKind::RoutingUpdated(p) => Some(DiscoveryEvent::Discovered(p)),
        KademliaEventKind::UnroutablePeer(p) => Some(DiscoveryEvent::UnroutablePeer(p)),
        KademliaEventKind::RoutablePeer(p) => Some(DiscoveryEvent::Discovered(p)),
        _ => None,
    }
}

/// The events reported for peers found by mDNS, in the order found.
pub open spec fn discovered_events(peers: Seq<PeerId>) -> Seq<DiscoveryEvent> {
    peers.map_values(|p: PeerId| DiscoveryEvent::Discovered(p))
}

/// The events waiting after a poll in which Kademlia reported `kademlia`
/// and mDNS found `mdns`: those queued before, then the event that the
/// Kademlia event gives, then one for each peer mDNS found, in order.
pub open spec fn events_after_poll(
    pending: Seq<DiscoveryEvent>,
    kademlia: Option<KademliaEventKind>,
    mdns: Option<Seq<PeerId>>,
) -> Seq<DiscoveryEvent> {
    let kad = match kademlia {
        Some(ev) => match kademlia_discovery_event(ev) {
            Some(e) => seq![e],
            None => Seq::empty(),
        },
        None => Seq::empty(),
    };
    let local = match mdns {
        Some(peers) => discovered_events(peers),
        None => Seq::empty(),
    };
    pending + kad + local
}

/// Maps an event of Kademlia to the discovery event that it reports.
pub fn kademlia_event_to_discovery(ev: KademliaEventKind) -> (r: Option<DiscoveryEvent>)
    ensures
        r == kademlia_discovery_event(ev),
{
    match ev {
        KademliaEventKind::RoutingUpdated(p) => Some(DiscoveryEvent::Discovered(p)),
        KademliaEventKind::UnroutablePeer(p) => Some(DiscoveryEvent::UnroutablePeer(p)),
        KademliaEventKind::RoutablePeer(p) => Some(DiscoveryEvent::Discovered(p)),
        _ => None,
    }
}

/// The state of peer discovery: its configuration and the events that wait
/// to be reported.
pub struct DiscoveryBehaviour {
    kademlia_bootstrap: Vec<(PeerId, Multiaddr)>,
    pending_events: VecDeque<DiscoveryEvent>,
    config: DiscoveryConfig,
}

impl DiscoveryBehaviour {
    /// The state is well formed: the configuration holds the local peer id.
    pub closed spec fn wf(&self) -> bool {
        self.config.id is Some
    }

    /// Starts peer discovery with `config`, whose peer id must be set. The
    /// bootstrap addresses of the configuration move to the addresses that
    /// Kademlia starts with.
    pub fn with_config(config: DiscoveryConfig) -> (d: DiscoveryBehaviour)
        requires
            config.id is Some,
        ensures
            d.wf(),
            d.kademlia_bootstrap() == config.bootstrap@,
            d.config() == (DiscoveryConfig { bootstrap: d.config().bootstrap, ..config }),
            d.config().bootstrap@.len() == 0,
            d.pending_events().len() == 0,
    {
        let mut config = config;
        let mut bootstrap = Vec::new();
        std::mem::swap(&mut bootstrap, &mut config.bootstrap);
        DiscoveryBehaviour { kademlia_bootstrap: bootstrap, pending_events: VecDeque::new(), config }
    }

    /// The peer id of the local node.
    pub fn local_id(&self) -> (r: &PeerId)
        requires
            self.wf(),
        ensures
            Some(*r) == self.config().id,
    {
        self.config.id.as_ref().unwrap()
    }

    /// Is the address refused by the configuration of discovery?
    pub fn is_address_not_allowed(&self, addr: &Multiaddr) -> (r: bool)
        ensures
            r == address_not_allowed(
                self.config().allow_ipv4_private,
                self.config().allow_ipv4_shared,
                self.config().allow_ipv6_ula,
                multiaddr_components(*addr),
            ),
    {
        self.config.is_address_not_allowed(addr)
    }

    /// Was mDNS asked for?
    pub fn uses_mdns(&self) -> (r: bool)
        ensures
            r == self.config().use_mdns,
    {
        self.config.use_mdns
    }

    /// Hands out the addresses that Kademlia starts with.
    pub fn take_kademlia_bootstrap(&mut self) -> (r: Vec<(PeerId, Multiaddr)>)
        ensures
            r@ == old(self).kademlia_bootstrap(),
            final(self).kademlia_bootstrap().len() == 0,
            final(self).pending_events() == old(self).pending_events(),
            final(self).config() == old(self).config(),
            final(self).wf() == old(self).wf(),
    {
        let mut out = Vec::new();
        std::mem::swap(&mut out, &mut self.kademlia_bootstrap);
        out
    }

    /// The addresses under which a peer may be dialed: those that Kademlia
    /// knows and the configuration allows, in their order, followed by all
    /// those that mDNS found, when mDNS runs.
    pub fn addresses_of_peer(
        &self,
        kademlia_addresses: Vec<Multiaddr>,
        mdns_addresses: Option<Vec<Multiaddr>>,
    ) -> (r: Vec<Multiaddr>)
        ensures
            r@ == kademlia_addresses@.filter(self.allowed_address()) + match mdns_addresses {
                Some(m) => m@,
                None => Seq::<Multiaddr>::empty(),
            },
    {
        let ghost pred = self.allowed_address();
        let ghost kad = kademlia_addresses@;
        let n = kademlia_addresses.len();
        let mut ret: Vec<Multiaddr> = Vec::new();
        let mut rest = kademlia_addresses;
        let mut i: usize = 0;
        while rest.len() > 0
            invariant
                pred == self.allowed_address(),
                i <= kad.len(),
                kad.len() == n,
                rest@ == kad.skip(i as int),
                ret@ == kad.take(i as int).filter(pred),
            decreases rest@.len(),
        {
            let addr = rest.remove(0);
            proof {
                assert(addr == kad[i as int]);
                assert(kad.take(i as int + 1) == kad.take(i as int).push(addr));
                kad.take(i as int).lemma_filter_push(addr, pred);
            }
            if !self.is_address_not_allowed(&addr) {
                ret.push(addr);
            }
            i = i + 1;
        }
        proof {
            assert(kad.take(i as int) == kad);
        }
        match mdns_addresses {
            Some(m) => {
                let mut m = m;
                ret.append(&mut m);
            },
            None => {},
        }
        ret
    }

    /// The test that the addresses known to Kademlia must pass.
    pub open spec fn allowed_address(&self) -> spec_fn(Multiaddr) -> bool {
        |a: Multiaddr|
            !address_not_allowed(
                self.config().allow_ipv4_private,
                self.config().allow_ipv4_shared,
                self.config().allow_ipv6_ula,
                multiaddr_components(a),
            )
    }

    /// Takes the oldest event that waits to be reported.
    pub fn next_event(&mut self) -> (r: Option<DiscoveryEvent>)
        ensures
            old(self).pending_events().len() == 0 ==> r is None && final(self).pending_events()
                == old(self).pending_events(),
            old(self).pending_events().len() > 0 ==> r == Some(old(self).pending_events()[0])
                && final(self).pending_events() == old(self).pending_events().drop_first(),
            final(self).config() == old(self).config(),
            final(self).kademlia_bootstrap() == old(self).kademlia_bootstrap(),
            final(self).wf() == old(self).wf(),
    {
        self.pending_events.pop_front()
    }

    /// Peers found by mDNS: each is queued as discovered, in the order
    /// found, and the oldest waiting event is taken.
    pub fn on_mdns_discovered(&mut self, peers: Vec<PeerId>) -> (r: Option<DiscoveryEvent>)
        ensures
            ({
                let all = old(self).pending_events() + discovered_events(peers@);
                &&& all.len() == 0 ==> r is None && final(self).pending_events() == all
                &&& all.len() > 0 ==> r == Some(all[0]) && final(self).pending_events()
                    == all.drop_first()
            }),
            final(self).config() == old(self).config(),
            final(self).kademlia_bootstrap() == old(self).kademlia_bootstrap(),
            final(self).wf() == old(self).wf(),
    {
        let ghost start = self.pending_events@;
        let ghost found = peers@;
        let n = peers.len();
        let mut rest = peers;
        let mut i: usize = 0;
        while rest.len() > 0
            invariant
                i <= found.len(),
                found.len() == n,
                rest@ == found.skip(i as int),
                self.pending_events@ == start + discovered_events(found.take(i as int)),
                self.config == old(self).config,
                self.kademlia_bootstrap == old(self).kademlia_bootstrap,
            decreases rest@.len(),
        {
            let peer = rest.remove(0);
            proof {
                assert(peer == found[i as int]);
                assert(found.take(i as int + 1) == found.take(i as int).push(peer));
                assert(discovered_events(found.take(i as int + 1)) == discovered_events(
                    found.take(i as int),
                ).push(DiscoveryEvent::Discovered(peer)));
            }
            self.pending_events.push_back(DiscoveryEvent::Discovered(peer));
            i = i + 1;
        }
        proof {
            assert(found.take(i as int) == found);
        }
        self.pending_events.pop_front()
    }

    /// One poll of peer discovery, given what Kademlia reported and what
    /// mDNS found in it: events queued before come first, then the one that
    /// the Kademlia event gives, then the peers found by mDNS; the oldest is
    /// reported and the others wait.
    pub fn poll_step(
        &mut self,
        kademlia: Option<KademliaEventKind>,
        mdns: Option<Vec<PeerId>>,
    ) -> (r: Option<DiscoveryEvent>)
        ensures
            ({
                let all = events_after_poll(
                    old(self).pending_events(),
                    kademlia,
                    match mdns {
                        Some(v) => Some(v@),
                        None => None,
                    },
                );
                &&& all.len() == 0 ==> r is None && final(self).pending_events() == all
                &&& all.len() > 0 ==> r == Some(all[0]) && final(self).pending_events()
                    == all.drop_first()
            }),
            final(self).config() == old(self).config(),
            final(self).kademlia_bootstrap() == old(self).kademlia_bootstrap(),
            final(self).wf() == old(self).wf(),
    {
        let ghost start = self.pending_events@;
        let ghost kad_in = kademlia;
        let ev = match kademlia {
            Some(k) => kademlia_event_to_discovery(k),
            None => None,
        };
        match ev {
            Some(e) => {
                self.pending_events.push_back(e);
            },
            None => {},
        }
        let ghost mid = self.pending_events@;
        proof {
            let kad = match kad_in {
                Some(k) => match kademlia_discovery_event(k) {
                    Some(e) => seq![e],
                    None => Seq::<DiscoveryEvent>::empty(),
                },
                None => Seq::<DiscoveryEvent>::empty(),
            };
            assert(mid =~= start + kad);
        }
        match mdns {
            Some(peers) => self.on_mdns_discovered(peers),
            None => {
                proof {
                    assert(mid + Seq::<DiscoveryEvent>::empty() =~= mid);
                }
                self.next_event()
            },
        }
    }

    /// The addresses that Kademlia starts with.
    pub closed spec fn kademlia_bootstrap(&self) -> Seq<(PeerId, Multiaddr)> {
        self.kademlia_bootstrap@
    }

    /// The events that wait to be reported, oldest first.
    pub closed spec fn pending_events(&self) -> Seq<DiscoveryEvent> {
        self.pending_events@
    }

    /// The configuration of discovery.
    pub closed spec fn config(&self) -> DiscoveryConfig {
        self.config
    }
}

} // verus!
