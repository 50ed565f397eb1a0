//! The configuration of a backend.
use vstd::prelude::*;

use crate::types::{NonReservedPeerMode, ProtocolId, SocketAddr};

verus! {

/// The number by which a protocol is found in a map.
spec fn protocol_number(id: ProtocolId) -> u32 {
    (id[0] + 0x100 * id[1] + 0x1_0000 * id[2]) as u32
}

/// Protocols are told apart by their numbers.
proof fn lemma_protocol_number(a: ProtocolId, b: ProtocolId)
    ensures
        protocol_number(a) == protocol_number(b) <==> a == b,
{
    if protocol_number(a) == protocol_number(b) {
        assert(a =~= b);
    }
}

/// Gives the number of a protocol.
fn number(id: &ProtocolId) -> (r: u32)
    ensures
        r == protocol_number(*id),
{
    id[0] as u32 + 0x100 * id[1] as u32 + 0x1_0000 * id[2] as u32
}

/// For each of some protocols, a number of peers that is reserved for it.
#[derive(Debug, Clone, PartialEq, Eq)]
pub struct ReservedProtocols {
    // Protocols go by their numbers.
    peers: std::collections::HashMap<u32, u32>,
}

impl View for ReservedProtocols {
    type V = Map<ProtocolId, u32>;

    closed spec fn view(&self) -> Map<ProtocolId, u32> {
        Map::new(
            |id: ProtocolId| self.peers@.contains_key(protocol_number(id)),
            |id: ProtocolId| self.peers@[protocol_number(id)],
        )
    }
}

impl ReservedProtocols {
    /// Nothing is reserved.
    pub fn new() -> (r: Self)
        ensures
            r@ == Map::<ProtocolId, u32>::empty(),
    {
        ReservedProtocols { peers: std::collections::HashMap::new() }
    }

    /// The number of peers that is reserved for a protocol, if one is.
    pub fn get(&self, id: &ProtocolId) -> (r: Option<u32>)
        ensures
            r == self@.get(*id),
    {
        broadcast use vstd::std_specs::hash::group_hash_axioms;

        match self.peers.get(&number(id)) {
            Some(peers) => Some(*peers),
            None => None,
        }
    }

    /// Reserves a number of peers for a protocol, in place of what was reserved for it.
    pub fn insert(&mut self, id: ProtocolId, peers: u32)
        ensures
            final(self)@ == old(self)@.insert(id, peers),
    {
        broadcast use vstd::std_specs::hash::group_hash_axioms;

        let ghost before = self@;
        self.peers.insert(number(&id), peers);
        proof {
            assert forall|other: ProtocolId|
                #![trigger self@.contains_key(other)]
                self@.contains_key(other) == before.insert(id, peers).contains_key(other) && (
                self@.contains_key(other) ==> self@[other] == before.insert(id, peers)[other]) by {
                lemma_protocol_number(id, other);
            }
            assert(self@ =~= before.insert(id, peers));
        }
    }
}

/// The configuration of a backend. The key of the node and the filter for addresses are carried
/// along.
#[derive(Debug, Clone, PartialEq, Eq)]
pub struct BasicNetworkConfiguration<S, F> {
    /// Directory path to store general network configuration. None means nothing will be saved
    pub config_path: Option<String>,
    /// Directory path to store network-specific configuration. None means nothing will be saved
    pub net_config_path: Option<String>,
    /// IP address to listen for incoming connections. Listen to all connections by default
    pub listen_address: Option<SocketAddr>,
    /// IP address to advertise. Detected automatically if none.
    pub public_address: Option<SocketAddr>,
    /// Port for UDP connections, same as TCP by default
    pub udp_port: Option<u16>,
    /// Enable NAT configuration
    pub nat_enabled: bool,
    /// Enable discovery
    pub discovery_enabled: bool,
    /// List of initial node addresses
    pub boot_nodes: Vec<String>,
    /// Use provided node key instead of default
    pub use_secret: Option<S>,
    /// Max number of connected peers to maintain
    pub max_peers: u32,
    /// Min number of connected peers to maintain
    pub min_peers: u32,
    /// Max handshakes
    pub max_handshakes: u32,
    /// Reserved protocols.
    pub reserved_protocols: ReservedProtocols,
    /// List of reserved node addresses.
    pub reserved_nodes: Vec<String>,
    /// IP Filtering
    pub ip_filter: F,
    /// The non-reserved peer mode.
    pub non_reserved_mode: NonReservedPeerMode,
    /// Client version string
    pub client_version: String,
}

} // verus!
