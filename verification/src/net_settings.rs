//! Network settings data.
use vstd::prelude::*;

verus! {

/// Values of network settings.
#[derive(Debug, Copy, Clone, PartialEq, Eq, Structural)]
pub struct NetSettings {
    /// The port devp2p is listening on, or `None` if it is disabled.
    pub devp2p_port: Option<u16>,
    /// The port libp2p is listening on, or `None` if it is disabled.
    pub libp2p_port: Option<u16>,
}

} // verus!
