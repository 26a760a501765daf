[package]
name = "the_man"
version = "0.1.0"
edition = "2021"
publish = false

[dependencies]
libp2p = { version = "=0.52.4", default-features = false, features = ["kad", "identify", "ping", "mdns", "gossipsub", "autonat", "relay", "tcp", "dns", "noise", "yamux", "tokio", "macros", "ed25519", "serde"] }
sha2 = "0.10"
bytes-kman = "*"
tokio = { version = "1", features = ["sync", "rt-multi-thread", "time", "macros", "net", "io-util", "signal"] }
serde = { version = "1", features = ["derive"] }
ron = "0.8"
chrono = { version = "0.4", features = ["serde"] }
dirs = "5"
