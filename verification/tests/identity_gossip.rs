use locha_p2p::gossip::{gossipsub_message_id, GossipsubMessage};
use locha_p2p::identity::{Identity, SECRET_KEY_LENGTH};

#[test]
fn generate_ok() {
    let id = Identity::generate();
    let _peer_id = id.id();
    let _bytes = id.to_bytes();
}

#[test]
fn saved_identity_loads_back_with_same_peer_id() {
    let id = Identity::generate();
    let saved = id.to_bytes();
    assert_eq!(saved.len(), SECRET_KEY_LENGTH);
    let loaded = match Identity::from_secret_bytes(saved) {
        Ok(l) => l,
        Err(_) => panic!("a saved identity must load back"),
    };
    assert_eq!(loaded.to_bytes(), saved);
    assert_eq!(loaded.id().to_bytes(), id.id().to_bytes());
}

#[test]
fn zero_secret_key_is_refused() {
    assert!(Identity::from_secret_bytes([0u8; 32]).is_err());
    assert!(Identity::from_secret_bytes([0xffu8; 32]).is_err());
}

#[test]
fn peer_id_matches_libp2p() {
    let mut secret = [0u8; 32];
    secret[31] = 1;
    let id = match Identity::from_secret_bytes(secret) {
        Ok(i) => i,
        Err(_) => panic!("valid key"),
    };
    let sk = libp2p::identity::secp256k1::SecretKey::try_from_bytes(secret).unwrap();
    let kp = libp2p::identity::Keypair::from(libp2p::identity::secp256k1::Keypair::from(sk));
    assert_eq!(id.id().to_bytes(), kp.public().to_peer_id().to_bytes());
}

#[test]
fn gossipsub_message_id_works() {
    let message = GossipsubMessage {
        source: None,
        data: vec![0xca, 0xfe, 0xca, 0xfe],
        sequence_number: None,
        topics: vec![],
        signature: None,
        key: None,
        validated: false,
    };

    let id = gossipsub_message_id(&message);
    assert_eq!(id.to_string(), "1c30927f61ecac8caeccc3db58f0b48d6468a4bbdfeb178f9b9ce97147abeed66b39d361996173fed138c7cee4e08ac18fae".to_string());
}

#[test]
fn message_id_is_fifty_bytes() {
    let message = GossipsubMessage {
        source: None,
        data: vec![],
        sequence_number: Some(7),
        topics: vec![],
        signature: None,
        key: None,
        validated: false,
    };
    let id = gossipsub_message_id(&message);
    assert_eq!(id.0.len(), 50);
    assert_eq!(&id.0[..2], &[0x1c, 0x30]);
}

#[test]
fn message_id_depends_on_data_only() {
    let a = GossipsubMessage {
        source: None,
        data: b"hola".to_vec(),
        sequence_number: Some(1),
        topics: vec!["a".to_string()],
        signature: None,
        key: None,
        validated: false,
    };
    let b = GossipsubMessage {
        source: None,
        data: b"hola".to_vec(),
        sequence_number: Some(7),
        topics: vec![],
        signature: Some(vec![1, 2]),
        key: None,
        validated: true,
    };
    let c = GossipsubMessage {
        source: None,
        data: b"hola!".to_vec(),
        sequence_number: Some(1),
        topics: vec![],
        signature: None,
        key: None,
        validated: false,
    };
    let ia = gossipsub_message_id(&a);
    assert_eq!(ia, gossipsub_message_id(&b));
    assert_ne!(ia, gossipsub_message_id(&c));
    assert_eq!(ia.0.len(), 50);
    assert_eq!(&ia.0[..2], &[0x1c, 0x30]);
}

#[test]
fn secret_key_must_be_below_the_group_order() {
    let order: [u8; 32] = [
        0xFF, 0xFF, 0xFF, 0xFF, 0xFF, 0xFF, 0xFF, 0xFF, 0xFF, 0xFF, 0xFF, 0xFF, 0xFF, 0xFF, 0xFF,
        0xFE, 0xBA, 0xAE, 0xDC, 0xE6, 0xAF, 0x48, 0xA0, 0x3B, 0xBF, 0xD2, 0x5E, 0x8C, 0xD0, 0x36,
        0x41, 0x41,
    ];
    assert!(Identity::from_secret_bytes(order).is_err());
    let mut below = order;
    below[31] = 0x40;
    assert!(Identity::from_secret_bytes(below).is_ok());
    let mut one = [0u8; 32];
    one[31] = 1;
    assert!(Identity::from_secret_bytes(one).is_ok());
}
