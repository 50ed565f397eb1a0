[package]
name = "netmerge"
version = "0.1.0"
edition = "2021"
publish = false

[dependencies]
bytes = "=0.4.12"
# Not called: multiaddr 0.3.1 asks for any cid 0.3, and does not compile with a later one than this.
cid = "=0.3.0"
fnv = "=1.0.7"
futures = "=0.1.31"
log = "=0.4.35"
multiaddr = "=0.3.1"
parking_lot = "=0.12.5"
serde = { version = "=1.0.229", features = ["derive"] }
slab = "=0.4.12"
tokio-core = "=0.1.18"
tokio-timer = "=0.1.2"
