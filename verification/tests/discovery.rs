use libp2p::Multiaddr;
use locha_p2p::discovery::{
    kademlia_event_to_discovery, parse_bootstrap_node, split_peer_address,
    is_ipv4_private, is_ipv4_shared, is_ipv6_ula, DiscoveryBehaviour, DiscoveryConfig,
    DiscoveryEvent, KademliaEventKind, BOOTSTRAP_NODES,
};
use locha_p2p::identity::Identity;
use locha_p2p::address::PeerId;

fn addr(s: &str) -> Multiaddr {
    s.parse().unwrap()
}

#[test]
fn test_discovery_config_bootstrap_nodes() {
    // We expect here for parsing of bootstrap nodes to go very well
    DiscoveryConfig::new(true);
}

#[test]
fn test_is_address_not_allowed() {
    let mut config = DiscoveryConfig::new(false);
    config.id(Identity::generate().id());
    let discovery = DiscoveryBehaviour::with_config(config);

    assert!(discovery.is_address_not_allowed(&"/ip4/192.168.0.1".parse().unwrap()));
    assert!(discovery.is_address_not_allowed(&"/ip4/172.16.0.1".parse().unwrap()));
    assert!(discovery.is_address_not_allowed(&"/ip4/10.0.0.1".parse().unwrap()));
    assert!(discovery.is_address_not_allowed(&"/ip4/100.80.72.1".parse().unwrap()));
    assert!(discovery.is_address_not_allowed(&"/ip6/fc00::1".parse().unwrap()));
    assert!(!discovery.is_address_not_allowed(&"/ip4/186.200.4.1".parse().unwrap()));
    assert!(!discovery.is_address_not_allowed(&"/ip6/2001::2".parse().unwrap()));
}

#[test]
fn test_is_ipv4_prviate() {
    assert!(is_ipv4_private(&"/ip4/192.168.0.1".parse().unwrap()));
    assert!(is_ipv4_private(&"/ip4/172.16.0.1".parse().unwrap()));
    assert!(is_ipv4_private(&"/ip4/10.0.0.1".parse().unwrap()));
    assert!(!is_ipv4_private(&"/ip4/186.200.4.1".parse().unwrap()));
    assert!(!is_ipv4_private(&"/ip4/100.62.64.1".parse().unwrap()));
    assert!(!is_ipv4_private(&"/dns/p2p.locha.io".parse().unwrap()));
}

#[test]
fn test_is_ipv4_shared() {
    assert!(is_ipv4_shared(&"/ip4/100.80.72.1".parse().unwrap()));
    assert!(!is_ipv4_shared(&"/ip4/186.200.4.1".parse().unwrap()));
    assert!(!is_ipv4_shared(&"/dns/p2p.locha.io".parse().unwrap()));
}

#[test]
fn test_ipv6_is_ula() {
    assert!(is_ipv6_ula(&"/ip6/fc00::1".parse().unwrap()));
    assert!(is_ipv6_ula(&"/ip6/fc20::1".parse().unwrap()));
    assert!(is_ipv6_ula(&"/ip6/fd00::1".parse().unwrap()));
    assert!(!is_ipv6_ula(&"/ip6/2001::1".parse().unwrap()));
    assert!(!is_ipv6_ula(&"/dns/p2p.locha.io".parse().unwrap()));
}

#[test]
fn private_range_edges() {
    assert!(is_ipv4_private(&addr("/ip4/172.31.255.255")));
    assert!(!is_ipv4_private(&addr("/ip4/172.32.0.1")));
    assert!(!is_ipv4_private(&addr("/ip4/172.15.0.1")));
    assert!(!is_ipv4_private(&addr("/ip4/192.169.0.1")));
    assert!(is_ipv4_private(&addr("/ip4/10.255.255.255/tcp/80")));
}

#[test]
fn shared_range_edges() {
    assert!(is_ipv4_shared(&addr("/ip4/100.64.0.0")));
    assert!(is_ipv4_shared(&addr("/ip4/100.127.255.255")));
    assert!(!is_ipv4_shared(&addr("/ip4/100.128.0.0")));
    assert!(!is_ipv4_shared(&addr("/ip4/100.63.255.255")));
}

#[test]
fn ula_range_edges() {
    assert!(is_ipv6_ula(&addr("/ip6/fdff::1")));
    assert!(!is_ipv6_ula(&addr("/ip6/fe00::1")));
    assert!(!is_ipv6_ula(&addr("/ip6/fbff::1")));
    assert!(!is_ipv6_ula(&addr("/tcp/80")));
}

#[test]
fn allowing_all_kinds_refuses_nothing() {
    let mut config = DiscoveryConfig::new(false);
    config.allow_ipv4_private(true).allow_ipv4_shared(true).allow_ipv6_ula(true);
    assert!(!config.is_address_not_allowed(&addr("/ip4/192.168.0.1")));
    assert!(!config.is_address_not_allowed(&addr("/ip4/100.80.72.1")));
    assert!(!config.is_address_not_allowed(&addr("/ip6/fc00::1")));
}

#[test]
fn default_config_has_default_bootstrap_nodes() {
    let config = DiscoveryConfig::new(true);
    assert_eq!(config.bootstrap.len(), BOOTSTRAP_NODES.len());
    assert_eq!(config.bootstrap[0].1, addr("/dns/p2p.locha.io/tcp/45215"));
    let empty = DiscoveryConfig::new(false);
    assert_eq!(empty.bootstrap.len(), 0);
    assert!(!empty.use_mdns);
}

#[test]
fn with_config_moves_bootstrap_to_kademlia() {
    let mut config = DiscoveryConfig::new(true);
    config.id(Identity::generate().id()).use_mdns(true);
    let mut discovery = DiscoveryBehaviour::with_config(config);
    assert!(discovery.uses_mdns());
    let boot = discovery.take_kademlia_bootstrap();
    assert_eq!(boot.len(), 1);
    assert_eq!(discovery.take_kademlia_bootstrap().len(), 0);
}

#[test]
fn addresses_of_peer_filters_kademlia_only() {
    let mut config = DiscoveryConfig::new(false);
    config.id(Identity::generate().id());
    let discovery = DiscoveryBehaviour::with_config(config);
    let kad = vec![
        addr("/ip4/192.168.0.1/tcp/1"),
        addr("/ip4/186.200.4.1/tcp/2"),
        addr("/ip6/fc00::1/tcp/3"),
        addr("/ip4/8.8.8.8/tcp/4"),
    ];
    let mdns = vec![addr("/ip4/192.168.1.7/tcp/5")];
    let out = discovery.addresses_of_peer(kad, Some(mdns));
    assert_eq!(
        out,
        vec![
            addr("/ip4/186.200.4.1/tcp/2"),
            addr("/ip4/8.8.8.8/tcp/4"),
            addr("/ip4/192.168.1.7/tcp/5"),
        ]
    );
    let out = discovery.addresses_of_peer(vec![addr("/ip4/10.0.0.1")], None);
    assert!(out.is_empty());
}

fn peer(n: u8) -> PeerId {
    let mut bytes = vec![0u8, 32];
    bytes.extend(std::iter::repeat(n).take(32));
    PeerId::from_bytes(bytes).unwrap()
}

fn discovered(ev: Option<DiscoveryEvent>) -> Vec<u8> {
    match ev {
        Some(DiscoveryEvent::Discovered(p)) => p.to_bytes(),
        _ => panic!("expected a discovered peer"),
    }
}

#[test]
fn mdns_discoveries_come_out_in_order() {
    let mut config = DiscoveryConfig::new(false);
    config.id(Identity::generate().id());
    let mut discovery = DiscoveryBehaviour::with_config(config);
    assert!(discovery.next_event().is_none());
    let first = discovery.on_mdns_discovered(vec![peer(1), peer(2), peer(3)]);
    assert_eq!(discovered(first), peer(1).to_bytes());
    let second = discovery.on_mdns_discovered(vec![peer(4)]);
    assert_eq!(discovered(second), peer(2).to_bytes());
    assert_eq!(discovered(discovery.next_event()), peer(3).to_bytes());
    assert_eq!(discovered(discovery.next_event()), peer(4).to_bytes());
    assert!(discovery.next_event().is_none());
    assert!(discovery.on_mdns_discovered(vec![]).is_none());
}

#[test]
fn kademlia_events_map_to_discovery_events() {
    assert!(matches!(
        kademlia_event_to_discovery(KademliaEventKind::RoutingUpdated(peer(1))),
        Some(DiscoveryEvent::Discovered(_))
    ));
    assert!(matches!(
        kademlia_event_to_discovery(KademliaEventKind::RoutablePeer(peer(1))),
        Some(DiscoveryEvent::Discovered(_))
    ));
    assert!(matches!(
        kademlia_event_to_discovery(KademliaEventKind::UnroutablePeer(peer(1))),
        Some(DiscoveryEvent::UnroutablePeer(_))
    ));
    assert!(kademlia_event_to_discovery(KademliaEventKind::PendingRoutablePeer(peer(1))).is_none());
    assert!(kademlia_event_to_discovery(KademliaEventKind::QueryResult).is_none());
}

#[test]
fn split_peer_address_needs_a_peer_id() {
    assert!(split_peer_address(addr("/ip4/1.2.3.4/tcp/5")).is_none());
    let (id, rest) = parse_bootstrap_node(BOOTSTRAP_NODES[0]).unwrap();
    assert_eq!(rest, addr("/dns/p2p.locha.io/tcp/45215"));
    let expected: libp2p::PeerId = "16Uiu2HAm3U4JmNLwVfCypZX3hCLmVkcsdzEh8NHfPFcKRhsaJ8rf".parse().unwrap();
    assert_eq!(id.to_bytes(), expected.to_bytes());
    assert!(parse_bootstrap_node("not an address").is_none());
}

#[test]
fn peer_id_bytes_are_checked() {
    assert!(PeerId::from_bytes(vec![1, 2, 3]).is_none());
    assert!(PeerId::from_bytes(vec![0x55, 2, 1, 1]).is_none());
    let p = peer(9);
    assert_eq!(p.clone().to_bytes(), p.to_bytes());
    assert_eq!(p.to_bytes().len(), 34);
}

#[test]
fn try_new_with_defaults() {
    let cfg = DiscoveryConfig::try_new(true).unwrap();
    assert_eq!(cfg.bootstrap.len(), BOOTSTRAP_NODES.len());
    let cfg = DiscoveryConfig::default();
    assert!(cfg.bootstrap.is_empty());
    assert!(cfg.id.is_none());
}

#[test]
fn poll_reports_queued_then_kademlia_then_mdns() {
    let mut config = DiscoveryConfig::new(false);
    config.id(Identity::generate().id());
    let mut discovery = DiscoveryBehaviour::with_config(config);
    assert!(discovery.poll_step(None, None).is_none());
    assert!(discovery.poll_step(Some(KademliaEventKind::QueryResult), Some(vec![])).is_none());
    // Kademlia's event comes before the peers mDNS found.
    let first = discovery.poll_step(
        Some(KademliaEventKind::RoutingUpdated(peer(1))),
        Some(vec![peer(2), peer(3)]),
    );
    assert_eq!(discovered(first), peer(1).to_bytes());
    // Queued events come before a new Kademlia event.
    let next = discovery.poll_step(Some(KademliaEventKind::UnroutablePeer(peer(4))), None);
    assert_eq!(discovered(next), peer(2).to_bytes());
    assert_eq!(discovered(discovery.poll_step(None, None)), peer(3).to_bytes());
    assert!(matches!(discovery.poll_step(None, None), Some(DiscoveryEvent::UnroutablePeer(_))));
    assert!(discovery.poll_step(Some(KademliaEventKind::PendingRoutablePeer(peer(5))), None).is_none());
}
