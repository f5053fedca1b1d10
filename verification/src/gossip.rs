//! # Gossipsub
//!
//! The protocol name and timing of the chat's gossip, and the identifier
//! that each gossiped message gets.

use vstd::prelude::*;

use crate::address::PeerId;

verus! {

/// Gossipsub protocol name for Locha P2P Chat.
pub const CHAT_SERVICE_GOSSIP_PROTCOL_ID: &'static str = "/locha/gossip/1.0.0";

/// Seconds between two gossipsub heartbeats.
pub const HEARTBEAT_INTERVAL_SECS: u64 = 5;

/// Multihash code of Keccak-384.
pub const KECCAK_384_CODE: u64 = 0x1c;

#[verifier::external_type_specification]
#[verifier::external_body]
pub struct ExMessageId(libp2p::gossipsub::MessageId);

/// The bytes that a gossipsub message id holds.
pub uninterp spec fn message_id_bytes(id: libp2p::gossipsub::MessageId) -> Seq<u8>;

/// The Keccak-384 digest of the data.
pub uninterp spec fn keccak384_digest(data: Seq<u8>) -> Seq<u8>;

/// A message id made of the given bytes.
///
/// Calls `MessageId::from`, which, as gossipsub's source shows, keeps the
/// bytes as they are.
#[verifier::external_body]
fn message_id_from_bytes(bytes: Vec<u8>) -> (r: libp2p::gossipsub::MessageId)
    ensures
        message_id_bytes(r) == bytes@,
{
    libp2p::gossipsub::MessageId::from(bytes)
}

/// The Keccak-384 digest of the data.
///
/// Calls `sha3::Keccak384::digest`. Claimed: the result is the named digest
/// of the data, and it is 48 bytes long, the output size of Keccak-384.
#[verifier::external_body]
fn keccak384(data: &[u8]) -> (r: Vec<u8>)
    ensures
        r@ == keccak384_digest(data@),
        r@.len() == 48,
{
    <sha3::Keccak384 as sha3::Digest>::digest(data).to_vec()
}

/// The bytes of the multihash with the given code and digest.
///
/// Calls `Multihash::<64>::wrap` and `Multihash::to_bytes`. As multihash's
/// source shows, the bytes are the varint of the code, the varint of the
/// digest's length and the digest; a value under 128 is a varint of one
/// byte. `wrap` fails on a digest longer than 64 bytes, which `requires`
/// rules out.
#[verifier::external_body]
fn multihash_bytes(code: u64, digest: &[u8]) -> (r: Vec<u8>)
    requires
        code < 128,
        digest@.len() <= 64,
    ensures
        r@ == seq![code as u8, digest@.len() as u8] + digest@,
{
    libp2p::multihash::Multihash::<64>::wrap(code, digest).unwrap().to_bytes()
}

/// A gossipsub message, as the message id function receives it.
pub struct GossipsubMessage {
    pub source: Option<PeerId>,
    pub data: Vec<u8>,
    pub sequence_number: Option<u64>,
    pub topics: Vec<String>,
    pub signature: Option<Vec<u8>>,
    pub key: Option<Vec<u8>>,
    pub validated: bool,
}

/// The bytes of the id of a message with the given data: the Keccak-384
/// multihash of the data.
pub open spec fn message_id_of(data: Seq<u8>) -> Seq<u8> {
    seq![KECCAK_384_CODE as u8, 48u8] + keccak384_digest(data)
}

/// Calculate the message id of a gossipsub message.
///
/// The id is the Keccak-384 multihash of the message's data: Keccak-384 is
/// fast and lightweight, with no known attacks and a very low probability
/// of collisions.
pub fn gossipsub_message_id(message: &GossipsubMessage) -> (r: libp2p::gossipsub::MessageId)
    ensures
        message_id_bytes(r) == message_id_of(message.data@),
        message_id_bytes(r) == seq![0x1cu8, 0x30u8] + keccak384_digest(message.data@),
        message_id_bytes(r).len() == 50,
{
    let digest = keccak384(message.data.as_slice());
    message_id_from_bytes(multihash_bytes(KECCAK_384_CODE, digest.as_slice()))
}

/// The id of a message is the Keccak-384 multihash of all of its data:
/// the code 0x1c, the digest length 48, then the digest of the whole data.
pub proof fn lemma_message_id_hashes_whole_data(data: Seq<u8>)
    ensures
        message_id_of(data) == seq![0x1cu8, 0x30u8] + keccak384_digest(data),
        message_id_of(data).subrange(2, message_id_of(data).len() as int) == keccak384_digest(data),
{
    assert(message_id_of(data).subrange(2, message_id_of(data).len() as int) =~= keccak384_digest(data));
}

/// Two messages with the same data get the same id, whatever else they
/// hold.
pub proof fn lemma_message_id_depends_on_data_only(a: GossipsubMessage, b: GossipsubMessage)
    requires
        a.data@ == b.data@,
    ensures
        message_id_of(a.data@) == message_id_of(b.data@),
{
}

} // verus!
