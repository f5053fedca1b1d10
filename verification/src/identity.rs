//! The identity of a node: its secp256k1 secret key.

use vstd::prelude::*;

use crate::address::PeerId;

verus! {

/// Length of a secp256k1 secret key in bytes.
pub const SECRET_KEY_LENGTH: usize = 32;

/// The order of the secp256k1 group.
pub open spec fn secp256k1_order() -> nat {
    0xFFFFFFFFFFFFFFFFFFFFFFFFFFFFFFFEBAAEDCE6AF48A03BBFD25E8CD0364141nat
}

/// The number that the bytes encode, most significant byte first.
pub open spec fn big_endian_value(bytes: Seq<u8>) -> nat
    decreases bytes.len(),
{
    if bytes.len() == 0 {
        0
    } else {
        big_endian_value(bytes.drop_last()) * 256 + bytes.last() as nat
    }
}

/// The bytes are a secp256k1 secret key: 32 bytes whose big-endian value is
/// a non-zero scalar, below the order of the group.
pub open spec fn secp256k1_secret_valid(secret: Seq<u8>) -> bool {
    &&& secret.len() == 32
    &&& 0 < big_endian_value(secret) < secp256k1_order()
}

/// The bytes of the peer id that the public key of a secret key gives.
pub uninterp spec fn peer_id_bytes_of_secret(secret: Seq<u8>) -> Seq<u8>;

/// Whether the bytes are a valid secp256k1 secret key.
///
/// Calls `secp256k1::SecretKey::try_from_bytes` on a copy of the bytes and
/// tells whether it succeeded. As k256's and elliptic-curve's sources show,
/// 32 bytes are read as a big-endian scalar, which is accepted when it is
/// below the group order and not zero.
#[verifier::external_body]
fn secret_key_is_valid(secret: &[u8; 32]) -> (r: bool)
    ensures
        r == secp256k1_secret_valid(secret@),
{
    libp2p::identity::secp256k1::SecretKey::try_from_bytes(*secret).is_ok()
}

/// A fresh random secret key.
///
/// Calls `secp256k1::Keypair::generate` and returns the bytes of its
/// secret key (`SecretKey::to_bytes`). Claimed: those bytes are a valid
/// secret key (a non-zero scalar below the group order, big-endian), as
/// they encode the key that was generated. Nothing is claimed of which key
/// comes out: it is random.
#[verifier::external_body]
fn generate_secret_key() -> (r: [u8; 32])
    ensures
        secp256k1_secret_valid(r@),
{
    libp2p::identity::secp256k1::Keypair::generate().secret().to_bytes()
}

/// The peer id of the node whose secret key is `secret`.
///
/// Calls `secp256k1::SecretKey::try_from_bytes`, promotes the key to a
/// `Keypair`, takes its public key's `to_peer_id` and returns its
/// `to_bytes`. Claimed: the result is the named peer id of the secret.
#[verifier::external_body]
fn peer_id_of_secret(secret: &[u8; 32]) -> (r: Vec<u8>)
    requires
        secp256k1_secret_valid(secret@),
    ensures
        r@ == peer_id_bytes_of_secret(secret@),
{
    let sk = libp2p::identity::secp256k1::SecretKey::try_from_bytes(*secret).unwrap();
    let kp = libp2p::identity::Keypair::from(libp2p::identity::secp256k1::Keypair::from(sk));
    kp.public().to_peer_id().to_bytes()
}

/// Why a secret key could not be loaded.
pub enum IdentityError {
    /// The bytes are not a valid secp256k1 secret key.
    InvalidSecretKey,
}

/// The identity of a single node.
pub struct Identity {
    secret: [u8; 32],
}

impl Identity {
    /// The identity holds a valid secret key: every constructor makes sure
    /// of it.
    #[verifier::type_invariant]
    pub closed spec fn wf(&self) -> bool {
        secp256k1_secret_valid(self.secret@)
    }

    /// The bytes of the secret key of this identity.
    pub closed spec fn secret(&self) -> Seq<u8> {
        self.secret@
    }

    /// Generate a random identity.
    pub fn generate() -> (id: Identity)
        ensures
            id.wf(),
    {
        Identity { secret: generate_secret_key() }
    }

    /// The identity with the given secret key; fails when the bytes are not
    /// a valid secp256k1 secret key. This is what loading an identity from
    /// its saved bytes does.
    pub fn from_secret_bytes(bytes: [u8; 32]) -> (r: Result<Identity, IdentityError>)
        ensures
            r is Ok <==> secp256k1_secret_valid(bytes@),
            r matches Ok(id) ==> id.wf() && id.secret() == bytes@,
    {
        if secret_key_is_valid(&bytes) {
            Ok(Identity { secret: bytes })
        } else {
            Err(IdentityError::InvalidSecretKey)
        }
    }

    /// The bytes of the secret key: what saving an identity writes.
    pub fn to_bytes(&self) -> (r: [u8; 32])
        ensures
            r@ == self.secret(),
    {
        self.secret
    }

    /// The peer id of this identity.
    pub fn id(&self) -> (r: PeerId)
        ensures
            r@ == peer_id_bytes_of_secret(self.secret()),
    {
        proof {
            use_type_invariant(self);
        }
        PeerId::from_raw(peer_id_of_secret(&self.secret))
    }
}

impl Clone for Identity {
    fn clone(&self) -> (r: Identity)
        ensures
            r.secret() == self.secret(),
            r.wf() == self.wf(),
    {
        proof {
            use_type_invariant(self);
        }
        Identity { secret: self.secret }
    }
}

/// Saving an identity and loading it back gives the same identity: the
/// saved bytes are accepted as a secret key, and an identity loaded from
/// them holds the same secret key and has the same peer id.
pub proof fn lemma_saved_identity_loads_back(id: Identity, loaded: Identity)
    requires
        id.wf(),
        loaded.secret() == id.secret(),
    ensures
        secp256k1_secret_valid(id.secret()),
        loaded.wf(),
        peer_id_bytes_of_secret(loaded.secret()) == peer_id_bytes_of_secret(id.secret()),
{
}

} // verus!
