//! Multiaddresses and peer identifiers.
//!
//! A [`Multiaddr`] is kept as the value of the outside crate; what the
//! logic of this library reads of it is its list of components, each
//! mapped to a [`Component`].

use vstd::prelude::*;

use libp2p::Multiaddr;

verus! {

#[verifier::external_type_specification]
#[verifier::external_body]
pub struct ExMultiaddr(libp2p::Multiaddr);

/// Identifier of a peer: the bytes of its multihash.
pub struct PeerId {
    pub(crate) bytes: Vec<u8>,
}

impl View for PeerId {
    type V = Seq<u8>;

    closed spec fn view(&self) -> Seq<u8> {
        self.bytes@
    }
}

/// The bytes are those of a peer id: a multihash that libp2p accepts as one.
pub uninterp spec fn peer_id_bytes_valid(bytes: Seq<u8>) -> bool;

/// Whether the bytes are those of a peer id.
///
/// Calls `libp2p::PeerId::from_bytes` and tells whether it succeeded.
#[verifier::external_body]
fn peer_id_bytes_are_valid(bytes: &[u8]) -> (r: bool)
    ensures
        r == peer_id_bytes_valid(bytes@),
{
    libp2p::PeerId::from_bytes(bytes).is_ok()
}

impl PeerId {
    /// Parses a peer id from its bytes; `None` when they are not those of
    /// a peer id.
    pub fn from_bytes(bytes: Vec<u8>) -> (r: Option<PeerId>)
        ensures
            r is Some <==> peer_id_bytes_valid(bytes@),
            r matches Some(p) ==> p@ == bytes@,
    {
        if peer_id_bytes_are_valid(bytes.as_slice()) {
            Some(PeerId { bytes })
        } else {
            None
        }
    }

    /// A peer id made of the bytes of a peer id that libp2p produced.
    pub(crate) fn from_raw(bytes: Vec<u8>) -> (r: PeerId)
        ensures
            r@ == bytes@,
    {
        PeerId { bytes }
    }

    /// The bytes of this peer id.
    pub fn to_bytes(&self) -> (r: Vec<u8>)
        ensures
            r@ == self@,
    {
        self.bytes.clone()
    }
}

impl Clone for PeerId {
    fn clone(&self) -> (r: PeerId)
        ensures
            r@ == self@,
    {
        PeerId { bytes: self.bytes.clone() }
    }
}

/// One component of a multiaddress, as far as this library reads it.
pub enum Component {
    /// An IPv4 address, by its octets.
    Ip4([u8; 4]),
    /// An IPv6 address, by its eight 16-bit segments.
    Ip6([u16; 8]),
    /// A TCP port.
    Tcp(u16),
    /// The identity of the peer reachable on the address.
    P2p(PeerId),
    /// Any other protocol.
    Other,
}

/// The components of a multiaddress, in order, each mapped to a [`Component`].
pub uninterp spec fn multiaddr_components(addr: Multiaddr) -> Seq<Component>;

/// The components of the multiaddress that a text parses to, if it parses.
pub uninterp spec fn multiaddr_from_str(s: Seq<char>) -> Option<Seq<Component>>;


/// Reads the components of a multiaddress.
///
/// Calls `Multiaddr::iter` and maps each `Protocol` to a [`Component`]:
/// IPv4 and IPv6 addresses by their octets and segments, TCP ports, the
/// peer id of `/p2p` by its bytes, and every other protocol to `Other`.
/// Claimed: the result is exactly the named components of `addr`.
#[verifier::external_body]
pub(crate) fn components(addr: &Multiaddr) -> (r: Vec<Component>)
    ensures
        r@ == multiaddr_components(*addr),
{
    let mut out = Vec::new();
    for p in addr.iter() {
        out.push(match p {
            libp2p::multiaddr::Protocol::Ip4(ip) => Component::Ip4(ip.octets()),
            libp2p::multiaddr::Protocol::Ip6(ip) => Component::Ip6(ip.segments()),
            libp2p::multiaddr::Protocol::Tcp(port) => Component::Tcp(port),
            libp2p::multiaddr::Protocol::P2p(id) => Component::P2p(PeerId { bytes: id.to_bytes() }),
            _ => Component::Other,
        });
    }
    out
}

/// The multiaddress `/ip4/<ip>/tcp/<port>`.
///
/// Calls `Multiaddr::from_iter` on `Protocol::Ip4` and `Protocol::Tcp`;
/// as multiaddr's source shows, the address holds these two components.
#[verifier::external_body]
pub(crate) fn ip4_tcp_multiaddr(ip: [u8; 4], port: u16) -> (r: Multiaddr)
    ensures
        multiaddr_components(r) == seq![Component::Ip4(ip), Component::Tcp(port)],
{
    Multiaddr::from_iter([
        libp2p::multiaddr::Protocol::Ip4(ip.into()),
        libp2p::multiaddr::Protocol::Tcp(port),
    ])
}

/// Parses a multiaddress from its text form.
///
/// Calls `<Multiaddr as FromStr>::from_str`. Claimed: it succeeds exactly
/// when the named parse of `s` succeeds, and then the address holds the
/// components that the name gives.
#[verifier::external_body]
pub(crate) fn parse_multiaddr(s: &str) -> (r: Option<Multiaddr>)
    ensures
        match r {
            Some(addr) => multiaddr_from_str(s@) == Some(multiaddr_components(addr)),
            None => multiaddr_from_str(s@) is None,
        },
{
    s.parse::<Multiaddr>().ok()
}

/// Removes the last component of a multiaddress.
///
/// Calls `Multiaddr::pop`, which, as its source shows, returns the last
/// component (or `None` on an empty address) and truncates the address to
/// the components before it.
#[verifier::external_body]
pub(crate) fn pop_component(addr: &mut Multiaddr) -> (r: Option<Component>)
    ensures
        multiaddr_components(*old(addr)).len() == 0 ==> r is None && multiaddr_components(
            *final(addr),
        ) == multiaddr_components(*old(addr)),
        multiaddr_components(*old(addr)).len() > 0 ==> r == Some(
            multiaddr_components(*old(addr)).last(),
        ) && multiaddr_components(*final(addr)) == multiaddr_components(*old(addr)).drop_last(),
{
    match addr.pop() {
        Some(libp2p::multiaddr::Protocol::Ip4(ip)) => Some(Component::Ip4(ip.octets())),
        Some(libp2p::multiaddr::Protocol::Ip6(ip)) => Some(Component::Ip6(ip.segments())),
        Some(libp2p::multiaddr::Protocol::Tcp(port)) => Some(Component::Tcp(port)),
        Some(libp2p::multiaddr::Protocol::P2p(id)) => Some(Component::P2p(PeerId { bytes: id.to_bytes() })),
        Some(_) => Some(Component::Other),
        None => None,
    }
}


/// `Multiaddr` derives `Clone`, which copies its shared byte buffer: the
/// clone holds the same components.
pub assume_specification[ <libp2p::Multiaddr as core::clone::Clone>::clone ](
    a: &libp2p::Multiaddr,
) -> (r: libp2p::Multiaddr)
    ensures
        multiaddr_components(r) == multiaddr_components(*a),
;

} // verus!
