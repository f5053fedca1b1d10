//! # Runtime
//!
//! A runtime for the chat: the network behaviour and swarm run in a task of
//! their own, which is sent actions and reports events through callbacks.
//! This module holds the runtime's configuration and the decisions of its
//! task: which action comes next, when the task stops, and how a chat
//! message becomes the bytes that are published and back.

use vstd::prelude::*;
use vstd::utf8::{decode_utf8, encode_utf8, valid_utf8};

use crate::address::PeerId;
use crate::identity::Identity;
use libp2p::Multiaddr;

verus! {

/// Gossipsub topic of the chat.
pub const CHAT_TOPIC: &'static str = "locha-p2p-testnet";

/// Runtime configuration.
pub struct RuntimeConfig {
    pub identity: Identity,
    pub listen_addr: Multiaddr,
    pub channel_cap: usize,
    pub heartbeat_interval: u64,
    pub upnp: bool,
    pub mdns: bool,
    pub bootstrap_nodes: Vec<(PeerId, Multiaddr)>,
}

/// Counters of the connections of the node.
pub struct NetworkInfo {
    /// Peers we are connected to.
    pub num_peers: usize,
    /// All connections, pending and established.
    pub num_connections: usize,
    /// Connections being set up.
    pub num_connections_pending: usize,
    /// Connections established.
    pub num_connections_established: usize,
}

/// An action sent to the runtime task.
pub enum RuntimeAction {
    Bootstrap,
    Kbuckets,
    NetworkInfo,
    Stop,
    Dial(Multiaddr),
    SendMessage(String),
    ExternalAddresses,
    PeerId,
}

/// What the task does after an action.
pub enum TaskStep {
    /// Keep serving actions and events.
    Continue,
    /// Close the action channel and end.
    Stop,
}

/// The action performed for what the action channel yielded: a closed
/// channel stops the runtime.
pub open spec fn action_of(received: Option<RuntimeAction>) -> RuntimeAction {
    match received {
        Some(a) => a,
        None => RuntimeAction::Stop,
    }
}

/// The actions that the task performs, in order, for what its channel
/// yields one after the other: each yielded action up to and including the
/// first that stops the task; nothing after it is performed.
pub open spec fn task_run(received: Seq<Option<RuntimeAction>>) -> Seq<RuntimeAction>
    decreases received.len(),
{
    if received.len() == 0 {
        Seq::empty()
    } else {
        let a = action_of(received[0]);
        if a is Stop {
            seq![a]
        } else {
            seq![a] + task_run(received.drop_first())
        }
    }
}

/// The action to perform given what the action channel yielded: a closed
/// channel stops the runtime.
pub fn next_action(received: Option<RuntimeAction>) -> (r: RuntimeAction)
    ensures
        r == action_of(received),
        received matches Some(a) ==> r == a,
        received is None ==> r is Stop,
{
    match received {
        Some(a) => a,
        None => RuntimeAction::Stop,
    }
}

/// The task ends after a stop action, and only then.
pub fn step_after(action: &RuntimeAction) -> (r: TaskStep)
    ensures
        r is Stop <==> action is Stop,
{
    match action {
        RuntimeAction::Stop => TaskStep::Stop,
        _ => TaskStep::Continue,
    }
}

/// An action received from the channel is performed as it is, a stop
/// included, and a closed channel stops the task; a run whose first
/// received action is a stop ends right there.
pub proof fn lemma_received_action_performed(a: RuntimeAction, received: Seq<Option<RuntimeAction>>)
    ensures
        action_of(Some(a)) == a,
        action_of(None) is Stop,
        received.len() > 0 && received[0] == Some(RuntimeAction::Stop) ==> task_run(received)
            == seq![RuntimeAction::Stop],
{
}

/// Actions sent one after the other and then a stop, or a closed channel:
/// the task carries out the actions in the order they were sent and then
/// stops, whatever the channel would yield after.
pub proof fn lemma_task_runs_in_order(received: Seq<Option<RuntimeAction>>, n: nat)
    requires
        n < received.len(),
        forall|i: int| 0 <= i < n ==> (#[trigger] received[i] matches Some(a) && !(a is Stop)),
        action_of(received[n as int]) is Stop,
    ensures
        task_run(received).len() == n + 1,
        forall|i: int| 0 <= i < n ==> #[trigger] task_run(received)[i] == received[i]->0,
        task_run(received)[n as int] is Stop,
    decreases n,
{
    if n > 0 {
        let rest = received.drop_first();
        assert forall|i: int| 0 <= i < n - 1 implies (#[trigger] rest[i] matches Some(a) && !(a
            is Stop)) by {
            assert(rest[i] == received[i + 1]);
        }
        assert(rest[n - 1] == received[n as int]);
        lemma_task_runs_in_order(rest, (n - 1) as nat);
        assert(received[0] matches Some(a) && !(a is Stop));
        let head = action_of(received[0]);
        assert(task_run(received) == seq![head] + task_run(rest));
        assert forall|i: int| 0 <= i < n implies #[trigger] task_run(received)[i] == received[i]->0 by {
            if i > 0 {
                assert(task_run(received)[i] == task_run(rest)[i - 1]);
                assert(rest[i - 1] == received[i]);
            }
        }
    }
}

/// The text that `String::from_utf8_lossy` makes of the bytes.
pub uninterp spec fn utf8_lossy(bytes: Seq<u8>) -> Seq<char>;

/// The text of the bytes, with each invalid sequence replaced.
///
/// Calls `String::from_utf8_lossy`. Claimed: the result is the named text
/// of the bytes, and, as std documents, valid UTF-8 decodes to its text
/// unchanged.
#[verifier::external_body]
fn from_utf8_lossy(bytes: &[u8]) -> (r: String)
    ensures
        r@ == utf8_lossy(bytes@),
        valid_utf8(bytes@) ==> r@ == decode_utf8(bytes@),
{
    String::from_utf8_lossy(bytes).into_owned()
}

/// The bytes that are published for a chat message: its UTF-8 encoding.
pub fn message_payload(message: &String) -> (r: Vec<u8>)
    ensures
        r@ == encode_utf8(message@),
{
    vstd::slice::slice_to_vec(message.as_str().as_bytes())
}

/// The text of a received chat message.
pub fn message_text(data: &[u8]) -> (r: String)
    ensures
        r@ == utf8_lossy(data@),
        valid_utf8(data@) ==> r@ == decode_utf8(data@),
{
    from_utf8_lossy(data)
}

/// A message that is sent arrives with the same text: the text of the
/// bytes published for a message is the message.
pub proof fn lemma_message_round_trip(message: Seq<char>)
    ensures
        valid_utf8(encode_utf8(message)),
        decode_utf8(encode_utf8(message)) == message,
{
    vstd::utf8::encode_utf8_valid_utf8(message);
    vstd::utf8::encode_utf8_decode_utf8(message);
}

} // verus!
