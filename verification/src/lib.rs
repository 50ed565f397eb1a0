//! Networking over two peer-to-peer backends, devp2p and libp2p.
//!
//! The library decides; it does no input or output of its own. Where a backend, a socket or a clock
//! is needed, a function says what to do and another one takes what came of it.
//!
//! - [`peer_id`]: one range of peer identifiers for both backends.
//! - [`routing`]: which backend gets a call that concerns a peer.
//! - [`service`]: both backends behind one service.
//! - [`net_backends_merge`]: both backends with one configuration for each.
//! - [`libp2p`]: the libp2p backend.
//! - [`laws`]: what the operations are for, over all that they are given.
//! - [`config`], [`types`], [`net_settings`]: the values that go in and out.
//! - [`outside`]: what is taken on trust of the crates, and of the standard library, that the library
//!   calls.

pub mod config;
pub mod laws;
pub mod libp2p;
pub mod net_backends_merge;
pub mod net_settings;
pub mod outside;
pub mod peer_id;
pub mod routing;
pub mod service;
pub mod types;

pub use net_settings::NetSettings;
pub use service::NetworkService;
