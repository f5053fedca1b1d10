use locha_p2p::address::PeerId;
use locha_p2p::discovery::{KademliaEventKind, BOOTSTRAP_NODES};
use locha_p2p::p2p::behaviour::{bootstrap_nodes, try_bootstrap_nodes, Inner};

#[test]
fn test_parsing_default_bootstraps_nodes_is_ok() {
    assert!(bootstrap_nodes().len() == BOOTSTRAP_NODES.len());
}

#[test]
fn try_bootstrap_nodes_parses_defaults() {
    let nodes = try_bootstrap_nodes().unwrap();
    assert_eq!(nodes.len(), 1);
    assert_eq!(nodes[0].1, "/dns/p2p.locha.io/tcp/45215".parse().unwrap());
}

fn peer(n: u8) -> PeerId {
    let mut bytes = vec![0u8, 32];
    bytes.extend(std::iter::repeat(n).take(32));
    PeerId::from_bytes(bytes).unwrap()
}

#[test]
fn random_query_waits_double_up_to_a_minute() {
    let mut inner = Inner::new();
    let waits: Vec<u64> = (0..9).map(|_| inner.schedule_next_query()).collect();
    assert_eq!(waits, vec![1, 2, 4, 8, 16, 32, 60, 60, 60]);
}

#[test]
fn dials_come_out_in_order() {
    let mut inner = Inner::new();
    assert!(inner.next_dial().is_none());
    let a: libp2p::Multiaddr = "/ip4/192.168.0.2/tcp/4001".parse().unwrap();
    let routes = inner.on_mdns_discovered(vec![(peer(1), a.clone()), (peer(2), a.clone())]);
    assert_eq!(routes.len(), 2);
    assert_eq!(routes[1].0.to_bytes(), peer(2).to_bytes());
    inner.on_kademlia_event(KademliaEventKind::RoutingUpdated(peer(3)));
    inner.on_kademlia_event(KademliaEventKind::RoutablePeer(peer(4)));
    assert_eq!(inner.next_dial().unwrap().to_bytes(), peer(1).to_bytes());
    assert_eq!(inner.next_dial().unwrap().to_bytes(), peer(2).to_bytes());
    assert_eq!(inner.next_dial().unwrap().to_bytes(), peer(3).to_bytes());
    assert!(inner.next_dial().is_none());
}
