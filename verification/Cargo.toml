[package]
name = "asn_net"
version = "0.1.0"
edition = "2021"
publish = false

[dependencies]
libp2p = { version = "*", features = ["tokio", "tcp", "quic", "dns", "websocket", "tls", "noise", "yamux", "kad", "mdns", "gossipsub", "identify", "ping", "relay", "rendezvous", "autonat", "upnp", "request-response", "macros", "ed25519"] }
tokio = { version = "*", features = ["full"] }
tokio-util = "*"
futures = "*"
clap = { version = "*", features = ["derive"] }
tracing = "*"
tracing-subscriber = { version = "*", features = ["env-filter"] }
async-trait = "*"
