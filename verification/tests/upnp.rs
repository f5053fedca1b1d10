use libp2p::Multiaddr;
use locha_p2p::upnp::{GatewayReply, PollStart, UpnpBehaviour};
use std::collections::HashSet;

fn addr(s: &str) -> Multiaddr {
    s.parse().unwrap()
}

#[test]
fn interval_is_twenty_minutes() {
    assert_eq!(UpnpBehaviour::INTERVAL, 1200);
}

#[test]
fn update_ports_reports_removed_ports() {
    let mut upnp = UpnpBehaviour::new("My Great Protocol".to_string());
    let listened = vec![
        addr("/ip4/0.0.0.0/tcp/4001"),
        addr("/ip4/127.0.0.1/tcp/4002"),
        addr("/ip6/::1/tcp/4003"),
        addr("/ip4/127.0.0.1/udp/4004"),
        addr("/ip4/10.0.0.1/tcp/4001"),
    ];
    let diff = upnp.update_ports(&listened);
    assert!(diff.is_empty());
    let mut ports = upnp.port_list();
    ports.sort();
    assert_eq!(ports, vec![4001, 4002]);

    let diff = upnp.update_ports(&vec![addr("/ip4/0.0.0.0/tcp/4002"), addr("/ip4/0.0.0.0/tcp/5000")]);
    assert_eq!(diff, [4001u16].into_iter().collect::<HashSet<u16>>());
    let diff = upnp.update_ports(&vec![addr("/ip4/0.0.0.0/tcp/4002"), addr("/ip4/0.0.0.0/tcp/5000")]);
    assert!(diff.is_empty());
}

#[test]
fn first_poll_without_ports_only_arms_timer() {
    let mut upnp = UpnpBehaviour::new("desc".to_string());
    assert!(matches!(upnp.start_poll(&vec![addr("/ip6/::1/tcp/1")]), PollStart::Pending));
    assert!(matches!(upnp.start_poll(&vec![addr("/ip4/1.1.1.1/tcp/1")]), PollStart::CheckTimer));
}

#[test]
fn first_poll_reports_each_port() {
    let mut upnp = UpnpBehaviour::new("desc".to_string());
    let listened = vec![addr("/ip4/0.0.0.0/tcp/4001"), addr("/ip4/0.0.0.0/tcp/4002")];
    assert!(matches!(upnp.start_poll(&listened), PollStart::QueryGateway));
    let first = upnp.finish_first_poll(GatewayReply::Found(Some([200, 1, 2, 3]))).unwrap();
    let second = match upnp.start_poll(&listened) {
        PollStart::Report(a) => a,
        _ => panic!("a second report waits"),
    };
    let mut got = vec![first, second];
    got.sort();
    let mut expected = vec![addr("/ip4/200.1.2.3/tcp/4001"), addr("/ip4/200.1.2.3/tcp/4002")];
    expected.sort();
    assert_eq!(got, expected);
    assert!(matches!(upnp.start_poll(&listened), PollStart::CheckTimer));
}

#[test]
fn first_poll_without_external_address_reports_nothing() {
    let mut upnp = UpnpBehaviour::new("desc".to_string());
    let listened = vec![addr("/ip4/0.0.0.0/tcp/4001")];
    assert!(matches!(upnp.start_poll(&listened), PollStart::QueryGateway));
    assert!(upnp.finish_first_poll(GatewayReply::NotFound).is_none());
    assert!(matches!(upnp.start_poll(&listened), PollStart::CheckTimer));
}

#[test]
fn interval_maps_ports_only_with_a_gateway() {
    let mut upnp = UpnpBehaviour::new("desc".to_string());
    let listened = vec![addr("/ip4/0.0.0.0/tcp/4001")];
    upnp.start_poll(&listened);
    upnp.finish_first_poll(GatewayReply::Found(Some([5, 6, 7, 8])));
    let (to_map, report) = upnp.finish_interval(GatewayReply::Found(Some([5, 6, 7, 9])));
    assert_eq!(to_map, vec![4001]);
    assert_eq!(report.unwrap(), addr("/ip4/5.6.7.9/tcp/4001"));
    // No gateway: the address stays as it was, so nothing is reported or mapped.
    let (to_map, report) = upnp.finish_interval(GatewayReply::NotFound);
    assert!(to_map.is_empty());
    assert!(report.is_none());
    // The same address again: the port is mapped again but not reported.
    let (to_map, report) = upnp.finish_interval(GatewayReply::Found(Some([5, 6, 7, 9])));
    assert_eq!(to_map, vec![4001]);
    assert!(report.is_none());
    // A gateway that does not tell the address: nothing is reported.
    let (to_map, report) = upnp.finish_interval(GatewayReply::Found(None));
    assert!(to_map.is_empty());
    assert!(report.is_none());
    // An address known again after none was: it is reported.
    let (_, report) = upnp.finish_interval(GatewayReply::Found(Some([5, 6, 7, 9])));
    assert_eq!(report.unwrap(), addr("/ip4/5.6.7.9/tcp/4001"));
}
