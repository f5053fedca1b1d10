//! # UPnP
//!
//! The Universal Plug and Play (UPnP) behaviour reports our external IPv4
//! address when we are behind a NATed router or an Internet Gateway Device
//! (IGD), and maps the open TCP ports of the IPv4 addresses we listen on.
//!
//! Every 20 minutes the external address is checked again and, if it
//! differs from the one observed before, reported again. The ports are
//! mapped again at each check, in case a router drops a mapping or another
//! application changes it.
//!
//! This module holds the decisions of the behaviour; talking to the gateway
//! is left to its caller, who hands in what the gateway answered.

use std::collections::HashSet;
use std::collections::VecDeque;

use vstd::prelude::*;

use crate::address::{components, ip4_tcp_multiaddr, multiaddr_components, Component};
use libp2p::Multiaddr;

verus! {

broadcast use vstd::std_specs::hash::group_hash_axioms;

/// The TCP port of an address that starts with an IPv4 address and a TCP
/// port.
pub open spec fn ip4_tcp_port(c: Seq<Component>) -> Option<u16> {
    if c.len() >= 2 && c[0] is Ip4 && c[1] is Tcp {
        Some(c[1]->Tcp_0)
    } else {
        None
    }
}

/// The TCP ports of the IPv4 addresses among the listened addresses.
pub open spec fn listened_tcp_ports(addrs: Seq<Multiaddr>) -> Set<u16> {
    Set::new(
        |p: u16|
            exists|i: int|
                0 <= i < addrs.len() && #[trigger] ip4_tcp_port(multiaddr_components(addrs[i]))
                    == Some(p),
    )
}


/// Reading the listened addresses one more adds its port, if it has one.
proof fn lemma_listened_push(s: Seq<Multiaddr>, a: Multiaddr)
    ensures
        listened_tcp_ports(s.push(a)) == match ip4_tcp_port(multiaddr_components(a)) {
            Some(p) => listened_tcp_ports(s).insert(p),
            None => listened_tcp_ports(s),
        },
{
    let t = s.push(a);
    let expected = match ip4_tcp_port(multiaddr_components(a)) {
        Some(p) => listened_tcp_ports(s).insert(p),
        None => listened_tcp_ports(s),
    };
    assert forall|p: u16| listened_tcp_ports(t).contains(p) <==> expected.contains(p) by {
        if listened_tcp_ports(s).contains(p) {
            let j = choose|j: int|
                0 <= j < s.len() && #[trigger] ip4_tcp_port(multiaddr_components(s[j])) == Some(p);
            assert(t[j] == s[j]);
        }
        if listened_tcp_ports(t).contains(p) {
            let j = choose|j: int|
                0 <= j < t.len() && #[trigger] ip4_tcp_port(multiaddr_components(t[j])) == Some(p);
            if j < s.len() {
                assert(t[j] == s[j]);
            }
        }
        if ip4_tcp_port(multiaddr_components(a)) == Some(p) {
            assert(t[s.len() as int] == a);
        }
    }
    assert(listened_tcp_ports(t) =~= expected);
}

/// Taking the oldest report after queueing reports of `ip` with each port
/// of `order` behind `before`.
proof fn lemma_take_after_queue(
    before: Seq<Multiaddr>,
    queued: Seq<Multiaddr>,
    after: Seq<Multiaddr>,
    r: Option<Multiaddr>,
    ip: [u8; 4],
    order: Seq<u16>,
)
    requires
        queued.len() == before.len() + order.len(),
        queued.take(before.len() as int) == before,
        reports(queued.skip(before.len() as int), ip, order),
        queued.len() == 0 ==> r is None && after == queued,
        queued.len() > 0 ==> r == Some(queued[0]) && after == queued.drop_first(),
    ensures
        queued_and_taken(before, after, r, ip, order),
{
    let tail = queued.skip(before.len() as int);
    if before.len() > 0 {
        assert(queued[0] == queued.take(before.len() as int)[0]);
        assert(after.take(before.len() - 1) =~= before.drop_first()) by {
            assert forall|k: int| 0 <= k < before.len() - 1 implies after.take(before.len() - 1)[k]
                == before.drop_first()[k] by {
                assert(queued.take(before.len() as int)[k + 1] == queued[k + 1]);
            }
        }
        assert(after.skip(before.len() - 1) =~= tail);
    } else if order.len() > 0 {
        assert(queued == tail);
        assert(is_report(tail[0], ip, order[0]));
        assert forall|k: int| 0 <= k < order.drop_first().len() implies #[trigger] is_report(
            after[k],
            ip,
            order.drop_first()[k],
        ) by {
            assert(is_report(tail[k + 1], ip, order[k + 1]));
        }
    }
}

/// `q` is among the first `n` items of `s`.
spec fn seen(s: Seq<u16>, n: int, q: u16) -> bool {
    exists|k: int| 0 <= k < n && #[trigger] s[k] == q
}

/// Seeing one more item of `s` adds that item.
proof fn lemma_seen_step(s: Seq<u16>, n: int)
    requires
        0 <= n < s.len(),
    ensures
        forall|q: u16| seen(s, n + 1, q) <==> (seen(s, n, q) || s[n] == q),
        n + 1 == s.len() ==> forall|q: u16| seen(s, n + 1, q) <==> s.to_set().contains(q),
{
    assert forall|q: u16| seen(s, n + 1, q) <==> (seen(s, n, q) || s[n] == q) by {
        if seen(s, n + 1, q) {
            let k = choose|k: int| 0 <= k < n + 1 && #[trigger] s[k] == q;
            if k < n {
                assert(seen(s, n, q));
            }
        }
    }
    if n + 1 == s.len() {
        assert forall|q: u16| seen(s, n + 1, q) <==> s.to_set().contains(q) by {
            if s.contains(q) {
                let k = choose|k: int| 0 <= k < s.len() && s[k] == q;
                assert(seen(s, n + 1, q));
            }
        }
    }
}

/// The port of an IPv4/TCP address, from its components.
fn listen_port_of(c: &Vec<Component>) -> (r: Option<u16>)
    ensures
        r == ip4_tcp_port(c@),
{
    if c.len() >= 2 {
        match (&c[0], &c[1]) {
            (Component::Ip4(_), Component::Tcp(port)) => Some(*port),
            _ => None,
        }
    } else {
        None
    }
}

/// `a` reports the external address `ip` with the TCP port `port`.
pub open spec fn is_report(a: Multiaddr, ip: [u8; 4], port: u16) -> bool {
    multiaddr_components(a) == seq![Component::Ip4(ip), Component::Tcp(port)]
}

/// `addrs` report the external address `ip` with each port of `order`, in
/// that order.
pub open spec fn reports(addrs: Seq<Multiaddr>, ip: [u8; 4], order: Seq<u16>) -> bool {
    &&& addrs.len() == order.len()
    &&& forall|i: int| 0 <= i < order.len() ==> #[trigger] is_report(addrs[i], ip, order[i])
}

/// `order` lists each port of `ports` once.
pub open spec fn lists(order: Seq<u16>, ports: Set<u16>) -> bool {
    order.no_duplicates() && order.to_set() == ports
}

/// `r` and `after` are what taking the oldest report gives, once reports
/// of `ip` with each port of `order` were queued behind `before`.
pub open spec fn queued_and_taken(
    before: Seq<Multiaddr>,
    after: Seq<Multiaddr>,
    r: Option<Multiaddr>,
    ip: [u8; 4],
    order: Seq<u16>,
) -> bool {
    if before.len() > 0 {
        &&& r == Some(before[0])
        &&& after.len() == before.len() - 1 + order.len()
        &&& after.take(before.len() - 1) == before.drop_first()
        &&& reports(after.skip(before.len() - 1), ip, order)
    } else if order.len() > 0 {
        &&& r is Some
        &&& is_report(r->0, ip, order[0])
        &&& reports(after, ip, order.drop_first())
    } else {
        r is None && after.len() == 0
    }
}

/// The external address after a gateway reply: what the gateway told when
/// one was found, else the address observed before.
pub open spec fn address_after_reply(reply: GatewayReply, before: Option<[u8; 4]>) -> Option<
    [u8; 4],
> {
    match reply {
        GatewayReply::Found(ip) => ip,
        GatewayReply::NotFound => before,
    }
}

/// The port read from a listening address depends only on its first two
/// components: one that starts with an IPv4 address and a TCP port gives
/// that port, whatever follows; any other gives none.
pub proof fn lemma_port_from_first_two_components(c: Seq<Component>, ip: [u8; 4], port: u16, rest: Seq<Component>)
    ensures
        ip4_tcp_port(seq![Component::Ip4(ip), Component::Tcp(port)] + rest) == Some(port),
        (c.len() < 2 || !(c[0] is Ip4) || !(c[1] is Tcp)) ==> ip4_tcp_port(c) is None,
{
    let d = seq![Component::Ip4(ip), Component::Tcp(port)] + rest;
    assert(d[0] == Component::Ip4(ip));
    assert(d[1] == Component::Tcp(port));
}

/// Every listening address that starts with an IPv4 address and a TCP port
/// contributes that port to the listened ports, whatever follows it; and
/// every listened port comes from such an address.
pub proof fn lemma_listened_ports_exactly(addrs: Seq<Multiaddr>, i: int, ip: [u8; 4], port: u16, rest: Seq<Component>, q: u16)
    ensures
        0 <= i < addrs.len() && multiaddr_components(addrs[i]) == seq![Component::Ip4(ip), Component::Tcp(port)] + rest
            ==> listened_tcp_ports(addrs).contains(port),
        listened_tcp_ports(addrs).contains(q) ==> exists|j: int| 0 <= j < addrs.len() && {
            let c = #[trigger] multiaddr_components(addrs[j]);
            c.len() >= 2 && c[0] is Ip4 && c[1] == Component::Tcp(q)
        },
{
    if 0 <= i < addrs.len() && multiaddr_components(addrs[i]) == seq![Component::Ip4(ip), Component::Tcp(port)] + rest {
        lemma_port_from_first_two_components(multiaddr_components(addrs[i]), ip, port, rest);
        assert(ip4_tcp_port(multiaddr_components(addrs[i])) == Some(port));
    }
    if listened_tcp_ports(addrs).contains(q) {
        let j = choose|j: int| 0 <= j < addrs.len() && #[trigger] ip4_tcp_port(multiaddr_components(addrs[j])) == Some(q);
        let c = multiaddr_components(addrs[j]);
        lemma_port_from_first_two_components(c, ip, port, rest);
        assert(c.len() >= 2 && c[0] is Ip4 && c[1] == Component::Tcp(q));
    }
}

/// A periodic check reports the external address it found exactly when it
/// differs, as a whole, from the address observed before; a check that
/// found no address reports nothing.
pub proof fn lemma_report_exactly_on_change(before: Option<[u8; 4]>, found: [u8; 4])
    ensures
        address_changed(before, Some(found)) <==> before != Some(found),
        !address_changed(before, None),
        before matches Some(b) ==> (address_changed(before, Some(found)) <==> exists|k: int|
            0 <= k < 4 && found[k] != b[k]),
{
    if let Some(b) = before {
        if exists|k: int| 0 <= k < 4 && found[k] != b[k] {
            let k = choose|k: int| 0 <= k < 4 && found[k] != b[k];
            assert(found != b);
        } else {
            assert(found =~= b);
        }
    }
}

/// Reading the same listening addresses twice removes no port the second
/// time: no port leaves a set when the set stays the same.
pub proof fn lemma_same_ports_none_removed(ports: Set<u16>)
    ensures
        ports.difference(ports) == Set::<u16>::empty(),
{
    assert(ports.difference(ports) =~= Set::<u16>::empty());
}

/// `r` and `after` are what taking the oldest report of `before` gives.
pub open spec fn oldest_taken(before: Seq<Multiaddr>, after: Seq<Multiaddr>, r: Option<Multiaddr>) -> bool {
    &&& before.len() == 0 ==> r is None && after == before
    &&& before.len() > 0 ==> r == Some(before[0]) && after == before.drop_first()
}

/// The external address after a check is known and differs from the one
/// observed before it.
pub open spec fn address_changed(before: Option<[u8; 4]>, after: Option<[u8; 4]>) -> bool {
    after is Some && after != before
}

/// What asking the gateways of the local network gave.
pub enum GatewayReply {
    /// No valid Internet Gateway Device was found.
    NotFound,
    /// A gateway was found; it told our external IPv4 address, unless
    /// asking for it failed.
    Found(Option<[u8; 4]>),
}

/// What a poll of the behaviour asks of its caller.
pub enum PollStart {
    /// Nothing to do until the next poll.
    Pending,
    /// Report this observed external address.
    Report(Multiaddr),
    /// Ask the gateways for our external address, then call
    /// `finish_first_poll` with the reply.
    QueryGateway,
    /// Poll the check timer; when it fired, call `update_ports`, ask the
    /// gateways and call `finish_interval` with the reply.
    CheckTimer,
}

/// Whether two IPv4 addresses are the same.
fn same_ip(a: [u8; 4], b: [u8; 4]) -> (r: bool)
    ensures
        r == (a == b),
{
    let r = a[0] == b[0] && a[1] == b[1] && a[2] == b[2] && a[3] == b[3];
    if r {
        assert(a =~= b);
    }
    r
}

/// The UPnP behaviour.
pub struct UpnpBehaviour {
    timer_armed: bool,
    observed_addr: Option<[u8; 4]>,
    pending_actions: VecDeque<Multiaddr>,
    protocol_desc: String,
    ports: HashSet<u16>,
}

impl UpnpBehaviour {
    /// Seconds between two checks of the external IPv4 address and of the
    /// port mappings.
    pub const INTERVAL: u64 = 1200;

    /// Is the check timer running?
    pub closed spec fn timer_armed(&self) -> bool {
        self.timer_armed
    }

    /// The external IPv4 address last observed.
    pub closed spec fn observed_addr(&self) -> Option<[u8; 4]> {
        self.observed_addr
    }

    /// The observed addresses that wait to be reported, oldest first.
    pub closed spec fn pending(&self) -> Seq<Multiaddr> {
        self.pending_actions@
    }

    /// The protocol description shown beside port mappings.
    pub fn description(&self) -> (r: &str)
        ensures
            r@ == self.protocol_desc(),
    {
        self.protocol_desc.as_str()
    }

    /// The protocol description shown beside port mappings.
    pub closed spec fn protocol_desc(&self) -> Seq<char> {
        self.protocol_desc@
    }

    /// The TCP ports of the IPv4 addresses we listen on.
    pub closed spec fn ports(&self) -> Set<u16> {
        self.ports@
    }

    /// Create a new UPnP behaviour.
    ///
    /// `protocol_desc` describes the port mappings; routers usually show it
    /// on their user interface beside the mapping.
    pub fn new(protocol_desc: String) -> (r: UpnpBehaviour)
        ensures
            !r.timer_armed(),
            r.observed_addr() is None,
            r.pending().len() == 0,
            r.protocol_desc() == protocol_desc@,
            r.ports() == Set::<u16>::empty(),
    {
        UpnpBehaviour {
            timer_armed: false,
            observed_addr: None,
            pending_actions: VecDeque::new(),
            protocol_desc,
            ports: HashSet::new(),
        }
    }

    /// Update the listening ports and return the ports that were removed
    /// from the set, for their mappings to be removed.
    pub fn update_ports(&mut self, listened: &Vec<Multiaddr>) -> (diff: HashSet<u16>)
        ensures
            final(self).ports() == listened_tcp_ports(listened@),
            diff@ == old(self).ports().difference(listened_tcp_ports(listened@)),
            final(self).timer_armed() == old(self).timer_armed(),
            final(self).observed_addr() == old(self).observed_addr(),
            final(self).pending() == old(self).pending(),
            final(self).protocol_desc() == old(self).protocol_desc(),
    {
        let ghost addrs = listened@;
        let mut found: HashSet<u16> = HashSet::new();
        let n = listened.len();
        let mut i: usize = 0;
        while i < n
            invariant
                n == addrs.len(),
                addrs == listened@,
                0 <= i <= n,
                found@ == listened_tcp_ports(addrs.take(i as int)),
            decreases n - i,
        {
            let c = components(&listened[i]);
            let port = listen_port_of(&c);
            proof {
                assert(addrs.take(i as int + 1) == addrs.take(i as int).push(addrs[i as int]));
                lemma_listened_push(addrs.take(i as int), addrs[i as int]);
            }
            if let Some(p) = port {
                found.insert(p);
            }
            proof {
                assert(found@ =~= listened_tcp_ports(addrs.take(i as int + 1)));
            }
            i = i + 1;
        }
        proof {
            assert(addrs.take(n as int) == addrs);
        }
        let ghost old_ports = self.ports@;
        let mut diff: HashSet<u16> = HashSet::new();
        for p in it: self.ports.iter()
            invariant
                old_ports == self.ports@,
                it.seq().unref().to_set() == old_ports,
                forall|q: u16|
                    diff@.contains(q) <==> seen(it.seq().unref(), it.index(), q)
                        && !found@.contains(q),
            ensures
                diff@ == old_ports.difference(found@),
        {
            proof {
                lemma_seen_step(it.seq().unref(), it.index());
                assert(it.seq().unref()[it.index()] == *p);
            }
            if !found.contains(p) {
                diff.insert(*p);
            }
        }
        self.ports = found;
        diff
    }

    /// The ports we listen on, each once, in some order.
    pub fn port_list(&self) -> (r: Vec<u16>)
        ensures
            lists(r@, self.ports()),
    {
        let mut out: Vec<u16> = Vec::new();
        for p in it: self.ports.iter()
            invariant
                it.seq().unref().to_set() == self.ports@,
                it.seq().unref().no_duplicates(),
                out@.len() == it.index(),
                forall|k: int|
                    #![trigger out@[k]]
                    #![trigger it.seq().unref()[k]]
                    0 <= k < it.index() ==> out@[k] == it.seq().unref()[k],
            ensures
                out@.no_duplicates(),
                forall|q: u16| out@.contains(q) <==> self.ports@.contains(q),
        {
            out.push(*p);
        }
        proof {
            assert(out@.to_set() =~= self.ports@);
        }
        out
    }

    /// Arm the check timer again.
    pub fn reset_timer(&mut self)
        ensures
            final(self).timer_armed(),
            final(self).observed_addr() == old(self).observed_addr(),
            final(self).pending() == old(self).pending(),
            final(self).protocol_desc() == old(self).protocol_desc(),
            final(self).ports() == old(self).ports(),
    {
        self.timer_armed = true;
    }

    /// Take the oldest report that waits.
    pub fn last_report(&mut self) -> (r: Option<Multiaddr>)
        ensures
            old(self).pending().len() == 0 ==> r is None && final(self).pending() == old(self).pending(),
            old(self).pending().len() > 0 ==> r == Some(old(self).pending()[0])
                && final(self).pending() == old(self).pending().drop_first(),
            final(self).timer_armed() == old(self).timer_armed(),
            final(self).observed_addr() == old(self).observed_addr(),
            final(self).protocol_desc() == old(self).protocol_desc(),
            final(self).ports() == old(self).ports(),
    {
        self.pending_actions.pop_front()
    }

    /// Update our external IPv4 address with what the gateways answered:
    /// when a gateway was found, the address becomes what it told, or none
    /// if asking failed; when none was found, the address stays. Returns
    /// whether a gateway was found.
    pub fn update_ip(&mut self, reply: GatewayReply) -> (found: bool)
        ensures
            found == (reply is Found),
            final(self).observed_addr() == match reply {
                GatewayReply::Found(ip) => ip,
                GatewayReply::NotFound => old(self).observed_addr(),
            },
            final(self).timer_armed() == old(self).timer_armed(),
            final(self).pending() == old(self).pending(),
            final(self).protocol_desc() == old(self).protocol_desc(),
            final(self).ports() == old(self).ports(),
    {
        match reply {
            GatewayReply::Found(ip) => {
                self.observed_addr = ip;
                true
            },
            GatewayReply::NotFound => false,
        }
    }

    /// This is the first poll: the timer never ran and no address was
    /// observed.
    pub open spec fn is_first_poll(&self) -> bool {
        !self.timer_armed() && self.observed_addr() is None
    }

    /// Start a poll, given the addresses we listen on.
    ///
    /// On the first poll the listening ports are read; without any, the
    /// timer is armed and nothing happens, else the gateways must be asked.
    /// On a later poll a waiting report comes first, else the timer must be
    /// checked.
    pub fn start_poll(&mut self, listened: &Vec<Multiaddr>) -> (r: PollStart)
        ensures
            final(self).observed_addr() == old(self).observed_addr(),
            final(self).protocol_desc() == old(self).protocol_desc(),
            old(self).is_first_poll() ==> {
                &&& final(self).ports() == listened_tcp_ports(listened@)
                &&& final(self).pending() == old(self).pending()
                &&& final(self).ports().is_empty() ==> r is Pending && final(self).timer_armed()
                &&& !final(self).ports().is_empty() ==> r is QueryGateway && !(final(self).timer_armed())
            },
            !old(self).is_first_poll() ==> {
                &&& final(self).ports() == old(self).ports()
                &&& final(self).timer_armed() == old(self).timer_armed()
                &&& old(self).pending().len() > 0 ==> r == PollStart::Report(
                    old(self).pending()[0],
                ) && final(self).pending() == old(self).pending().drop_first()
                &&& old(self).pending().len() == 0 ==> r is CheckTimer && final(self).pending()
                    == old(self).pending()
            },
    {
        if !self.timer_armed && self.observed_addr.is_none() {
            self.update_ports(listened);
            if self.ports.is_empty() {
                self.reset_timer();
                return PollStart::Pending;
            }
            return PollStart::QueryGateway;
        }
        match self.last_report() {
            Some(report) => PollStart::Report(report),
            None => PollStart::CheckTimer,
        }
    }

    /// Finish the first poll with what the gateways answered: when an
    /// external address is known, a report of it with each listening port
    /// is queued; the timer is armed, and the oldest report is taken.
    pub fn finish_first_poll(&mut self, reply: GatewayReply) -> (r: Option<Multiaddr>)
        ensures
            final(self).observed_addr() == address_after_reply(reply, old(self).observed_addr()),
            final(self).timer_armed(),
            final(self).ports() == old(self).ports(),
            final(self).protocol_desc() == old(self).protocol_desc(),
            final(self).observed_addr() is None ==> r is None && final(self).pending() == old(self).pending(),
            final(self).observed_addr() matches Some(ip) ==> exists|order: Seq<u16>|
                #[trigger] lists(order, old(self).ports()) && queued_and_taken(
                    old(self).pending(),
                    final(self).pending(),
                    r,
                    ip,
                    order,
                ),
    {
        self.update_ip(reply);
        match self.observed_addr {
            Some(ip) => {
                let order = self.port_list();
                self.queue_reports(ip, &order);
                self.reset_timer();
                let ghost queued = self.pending_actions@;
                let r = self.last_report();
                proof {
                    lemma_take_after_queue(old(self).pending(), queued, self.pending_actions@, r, ip, order@);
                    assert(lists(order@, old(self).ports()));
                }
                r
            },
            None => {
                self.reset_timer();
                None
            },
        }
    }

    /// Finish a periodic check with what the gateways answered: when the
    /// external address is known and differs from the one observed before,
    /// a report of it with each listening port is queued; when a gateway was
    /// found and the address is known, each port is to be mapped again. The
    /// timer is armed again, and the oldest report is taken. Returns the
    /// ports to map and the report taken.
    pub fn finish_interval(&mut self, reply: GatewayReply) -> (r: (Vec<u16>, Option<Multiaddr>))
        ensures
            final(self).observed_addr() == address_after_reply(reply, old(self).observed_addr()),
            final(self).timer_armed(),
            final(self).ports() == old(self).ports(),
            final(self).protocol_desc() == old(self).protocol_desc(),
            reply is Found && final(self).observed_addr() is Some ==> lists(r.0@, old(self).ports()),
            !(reply is Found && final(self).observed_addr() is Some) ==> r.0@.len() == 0,
            !address_changed(old(self).observed_addr(), final(self).observed_addr()) ==> oldest_taken(
                old(self).pending(),
                final(self).pending(),
                r.1,
            ),
            address_changed(old(self).observed_addr(), final(self).observed_addr()) ==> exists|
                order: Seq<u16>,
            |
                #[trigger] lists(order, old(self).ports()) && queued_and_taken(
                    old(self).pending(),
                    final(self).pending(),
                    r.1,
                    final(self).observed_addr()->0,
                    order,
                ) && (reply is Found ==> r.0@ == order),
    {
        let before = self.observed_addr;
        let gateway = self.update_ip(reply);
        match self.observed_addr {
            Some(ip) => {
                let order = self.port_list();
                let mut to_map: Vec<u16> = Vec::new();
                if gateway {
                    to_map = order.clone();
                }
                let changed = match before {
                    Some(b) => !same_ip(b, ip),
                    None => true,
                };
                if changed {
                    self.queue_reports(ip, &order);
                    self.reset_timer();
                    let ghost queued = self.pending_actions@;
                    let r = self.last_report();
                    proof {
                        lemma_take_after_queue(old(self).pending(), queued, self.pending_actions@, r, ip, order@);
                        assert(lists(order@, old(self).ports()));
                    }
                    (to_map, r)
                } else {
                    self.reset_timer();
                    (to_map, self.last_report())
                }
            },
            None => {
                self.reset_timer();
                (Vec::new(), self.last_report())
            },
        }
    }

    /// Queue a report of the external address `ip` with each port of
    /// `order`, in that order.
    fn queue_reports(&mut self, ip: [u8; 4], order: &Vec<u16>)
        ensures
            final(self).pending().len() == old(self).pending().len() + order@.len(),
            final(self).pending().take(old(self).pending().len() as int) == old(self).pending(),
            reports(final(self).pending().skip(old(self).pending().len() as int), ip, order@),
            final(self).timer_armed() == old(self).timer_armed(),
            final(self).observed_addr() == old(self).observed_addr(),
            final(self).protocol_desc() == old(self).protocol_desc(),
            final(self).ports() == old(self).ports(),
    {
        let ghost start = self.pending_actions@;
        let n = order.len();
        let mut i: usize = 0;
        while i < n
            invariant
                n == order@.len(),
                0 <= i <= n,
                self.pending_actions@.len() == start.len() + i,
                self.pending_actions@.take(start.len() as int) == start,
                forall|k: int|
                    0 <= k < i ==> #[trigger] is_report(
                        self.pending_actions@[start.len() + k],
                        ip,
                        order@[k],
                    ),
                self.timer_armed == old(self).timer_armed,
                self.observed_addr == old(self).observed_addr,
                self.protocol_desc == old(self).protocol_desc,
                self.ports == old(self).ports,
            decreases n - i,
        {
            let ghost before = self.pending_actions@;
            self.pending_actions.push_back(ip4_tcp_multiaddr(ip, order[i]));
            proof {
                assert(self.pending_actions@.take(start.len() as int) =~= before.take(
                    start.len() as int,
                ));
                assert forall|k: int| 0 <= k < i + 1 implies #[trigger] is_report(
                    self.pending_actions@[start.len() + k],
                    ip,
                    order@[k],
                ) by {
                    if k < i {
                        assert(self.pending_actions@[start.len() + k] == before[start.len() + k]);
                    }
                }
            }
            i = i + 1;
        }
        proof {
            let tail = self.pending_actions@.skip(start.len() as int);
            assert forall|k: int| 0 <= k < order@.len() implies #[trigger] is_report(
                tail[k],
                ip,
                order@[k],
            ) by {
                assert(tail[k] == self.pending_actions@[start.len() + k]);
            }
        }
    }
}

} // verus!
