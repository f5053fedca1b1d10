# Locha P2P

A peer-to-peer chat node built on libp2p: nodes find each other through
Kademlia and mDNS, gossip chat messages over gossipsub, and report their
external address and map their ports through UPnP.

## Layout

- `src/` is the library, verified with Verus. It holds the decisions of the
  node and states them in contracts:
  - `address`: peer ids and the components of multiaddresses;
  - `discovery`: which addresses are refused, the bootstrap nodes, and the
    events of peer discovery;
  - `gossip`: the id of a gossiped message (the Keccak-384 multihash of its
    data);
  - `identity`: the secp256k1 identity of a node;
  - `upnp`: the state machine that reports the external address and picks
    the ports to map;
  - `p2p::behaviour`: the peers to dial and the schedule of random Kademlia
    queries;
  - `runtime`: the actions of the runtime task and the chat payload;
  - `chat`, `msg`, `miniupnpc`, `ui`, `sync`: the chat protocol frames, the
    message data, the gateway data, the terminal interface state and the
    task interrupt.
- `app/` is the node program: the swarm, the transport, the async runtime,
  the UPnP gateway calls and the command line. It performs what the library
  decides.
- `tests/` exercises the library on concrete values.
