//! What the operations of the library are for: laws that hold of whatever an operation is given and
//! whatever comes out of it.
//!
//! A law speaks of an operation by its arguments and its result, and says of them what a caller relies
//! on. Laws on how operations work together stand beside the operations.

pub mod addresses;
pub mod backends;
pub mod calls;
pub mod libp2p;
pub mod names;
pub mod onions;
pub mod service;
pub mod state;
