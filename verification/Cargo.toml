[package]
name = "locha_p2p"
version = "0.1.0"
edition = "2021"
publish = false

[dependencies]
libp2p = { version = "0.53", features = ["async-std", "gossipsub", "identify", "kad", "macros", "mdns", "noise", "tcp", "yamux", "secp256k1"] }
sha3 = "0.10"
futures = "0.3"
futures-timer = "3"
log = "0.4"
async-std = { version = "1.6", features = ["attributes"] }
void = "1.0"
serde = { version = "1.0", features = ["derive"] }
