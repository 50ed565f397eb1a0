//! The values that the backends and the library exchange.
use vstd::prelude::*;

verus! {

/// Names a protocol.
pub type ProtocolId = [u8; 3];

/// Names a kind of packet within a protocol.
pub type PacketId = u8;

/// Names a timer.
pub type TimerToken = usize;

/// One of the two networking backends.
#[derive(Debug, Copy, Clone, PartialEq, Eq, Structural)]
pub enum Backend {
    Devp2p,
    Libp2p,
}

/// What an operation fails with: an error of the library, or one that a backend reported.
#[derive(Debug, PartialEq, Eq)]
pub enum Error<E> {
    /// No backend knows the peer.
    InvalidNodeId,
    /// What the backend reported, unchanged.
    Backend(E),
}

/// Whether peers that are not reserved may connect.
#[derive(Debug, Copy, Clone, PartialEq, Eq, Structural)]
pub enum NonReservedPeerMode {
    Accept,
    Deny,
}

/// An IP address.
#[derive(Debug, Copy, Clone, PartialEq, Eq)]
pub enum IpAddr {
    /// The four bytes of an IPv4 address.
    V4([u8; 4]),
    /// The eight segments of an IPv6 address.
    V6([u16; 8]),
}

/// An IP address with a port.
#[derive(Debug, Copy, Clone, PartialEq, Eq)]
pub enum SocketAddr {
    /// An IPv4 address with a port.
    V4 {
        /// The four bytes of the address.
        octets: [u8; 4],
        /// The port.
        port: u16,
    },
    /// An IPv6 address with a port.
    V6 {
        /// The eight segments of the address.
        segments: [u16; 8],
        /// The port.
        port: u16,
        /// The flow information.
        flowinfo: u32,
        /// The scope.
        scope_id: u32,
    },
}

impl SocketAddr {
    /// The IP address.
    pub open spec fn spec_ip(self) -> IpAddr {
        match self {
            SocketAddr::V4 { octets, .. } => IpAddr::V4(octets),
            SocketAddr::V6 { segments, .. } => IpAddr::V6(segments),
        }
    }

    /// The port.
    pub open spec fn spec_port(self) -> u16 {
        match self {
            SocketAddr::V4 { port, .. } => port,
            SocketAddr::V6 { port, .. } => port,
        }
    }

    /// The IP address.
    pub fn ip(&self) -> (r: IpAddr)
        ensures
            r == self.spec_ip(),
    {
        match *self {
            SocketAddr::V4 { octets, .. } => IpAddr::V4(octets),
            SocketAddr::V6 { segments, .. } => IpAddr::V6(segments),
        }
    }

    /// The port.
    pub fn port(&self) -> (r: u16)
        ensures
            r == self.spec_port(),
    {
        match *self {
            SocketAddr::V4 { port, .. } => port,
            SocketAddr::V6 { port, .. } => port,
        }
    }
}

/// What a backend tells of a session.
#[derive(Debug, PartialEq, Eq)]
pub struct SessionInfo {
    /// The identifier of the node, if it is known.
    pub id: Option<Vec<u8>>,
    /// The client version that the peer reports.
    pub client_version: String,
    /// The version of the base protocol.
    pub protocol_version: u32,
    /// The protocols, with their versions, that the session uses.
    pub capabilities: Vec<(ProtocolId, u8)>,
    /// The protocols, with their versions, that the peer supports.
    pub peer_capabilities: Vec<(ProtocolId, u8)>,
    /// The last round trip, in milliseconds.
    pub ping_ms: Option<u64>,
    /// Whether this side opened the session.
    pub originated: bool,
    /// The address of the other side.
    pub remote_address: String,
    /// The address of this side.
    pub local_address: String,
}

/// Whether two protocols are the same.
pub fn same_protocol(a: &ProtocolId, b: &ProtocolId) -> (r: bool)
    ensures
        r == (*a == *b),
{
    let r = a[0] == b[0] && a[1] == b[1] && a[2] == b[2];
    proof {
        if r {
            assert(*a =~= *b);
        }
    }
    r
}

} // verus!
