//! The libp2p backend: its protocols, peers and substreams.

pub mod address;
pub mod context;
pub mod history;
pub mod protocol;
pub mod service;
pub mod shared;
pub mod substream;
pub mod upgrade;

pub use service::NetworkService;
