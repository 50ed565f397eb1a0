//! The libp2p backend.
use vstd::prelude::*;

use super::address::{listen_address, parse_bootnode, peer_address, Bootnode, BootnodeError};
use super::context::NetworkContextImpl;
use super::protocol::RegisteredProtocol;
use super::shared::Shared;
use crate::config::BasicNetworkConfiguration;
use crate::outside::{bytes_as_ref, string_from_utf8};
use crate::peer_id::PeerId;
use crate::types::{Error, ProtocolId};

verus! {

/// For how many seconds the address of a bootstrap node is kept: 100000 years.
pub const BOOTNODE_TTL_SECS: u64 = 100000 * 365 * 24 * 3600;

/// How many nodes a search of the distributed hash table asks at once.
pub const KAD_PARALLELISM: u32 = 3;

/// After how many seconds without an answer a search goes on.
pub const KAD_TIMEOUT_SECS: u64 = 10;

/// How many seconds lie between two searches for nodes.
pub const DISCOVERY_INTERVAL_SECS: u64 = 30;

/// The state of the libp2p backend. The handlers, the key of the node and the filter for addresses
/// are carried along.
pub struct NetworkService<H, S, F> {
    /// What the parts of the backend share.
    pub shared: Shared<H>,
    /// The configuration that the service was made with.
    pub config: BasicNetworkConfiguration<S, F>,
}

/// What the events loop starts with.
pub struct Setup {
    /// The nodes to connect to first, in the order of the configuration.
    pub bootnodes: Vec<Bootnode>,
    /// The address to listen on.
    pub listen_addr: multiaddr::Multiaddr,
}

/// The first text of the configuration that does not describe a bootstrap node.
#[derive(Debug, Copy, Clone, PartialEq, Eq, Structural)]
pub struct SetupError {
    /// Where the text stands in the configuration.
    pub index: usize,
    /// What is wrong with it.
    pub error: BootnodeError,
}

/// A node that is to be dialed.
pub struct Dial {
    /// The address of the node.
    pub addr: multiaddr::Multiaddr,
    /// The index of the protocol to be spoken.
    pub index: usize,
}

/// What a node tells of itself.
pub struct IdentifyInfo {
    /// The public key.
    pub public_key: Vec<u8>,
    /// Names the family of protocols.
    pub protocol_version: String,
    /// Names the implementation.
    pub agent_version: String,
    /// The addresses that the node listens on.
    pub listen_addrs: Vec<multiaddr::Multiaddr>,
    /// The protocols that the node speaks.
    pub protocols: Vec<String>,
}

/// Those of some names that are UTF-8, as texts.
pub open spec fn readable_names<V>(names: Seq<(Seq<u8>, V)>) -> Seq<Seq<char>>
    decreases names.len(),
{
    if names.len() == 0 {
        Seq::empty()
    } else {
        let shorter = readable_names(names.drop_last());
        if vstd::utf8::valid_utf8(names.last().0) {
            shorter.push(vstd::utf8::decode_utf8(names.last().0))
        } else {
            shorter
        }
    }
}

/// Every advertised name that is UTF-8 is listed, and nothing else is.
pub proof fn law_readable_names_are_listed<V>(names: Seq<(Seq<u8>, V)>, text: Seq<char>)
    ensures
        readable_names(names).contains(text) <==> exists|i: int|
            0 <= i < names.len() && vstd::utf8::valid_utf8((#[trigger] names[i]).0)
                && vstd::utf8::decode_utf8(names[i].0) == text,
    decreases names.len(),
{
    if names.len() > 0 {
        let shorter = names.drop_last();
        let listed = readable_names(shorter);
        let all = readable_names(names);
        let n = names.len() - 1;
        law_readable_names_are_listed(shorter, text);
        if all.contains(text) {
            let k = choose|k: int| 0 <= k < all.len() && all[k] == text;
            if k < listed.len() {
                assert(listed[k] == text);
                let i = choose|i: int|
                    0 <= i < shorter.len() && vstd::utf8::valid_utf8((#[trigger] shorter[i]).0)
                        && vstd::utf8::decode_utf8(shorter[i].0) == text;
                assert(names[i] == shorter[i]);
            } else {
                assert(vstd::utf8::decode_utf8(names[n].0) == text);
            }
        }
        if exists|i: int|
            0 <= i < names.len() && vstd::utf8::valid_utf8((#[trigger] names[i]).0)
                && vstd::utf8::decode_utf8(names[i].0) == text {
            let i = choose|i: int|
                0 <= i < names.len() && vstd::utf8::valid_utf8((#[trigger] names[i]).0)
                    && vstd::utf8::decode_utf8(names[i].0) == text;
            if i < n {
                assert(shorter[i] == names[i]);
                let k = choose|k: int| 0 <= k < listed.len() && listed[k] == text;
                assert(all[k] == text);
            } else {
                assert(all[listed.len() as int] == text);
            }
        }
    }
}

/// What is dialed when some nodes are found: each node that is not connected, once for each
/// registered protocol. Of a dial, the bytes of the address and the index of the protocol.
pub open spec fn dials_of<H>(
    shared: super::shared::SharedView<H>,
    found: Seq<Vec<u8>>,
) -> Seq<(Seq<u8>, usize)>
    decreases found.len(),
{
    if found.len() == 0 {
        Seq::empty()
    } else {
        let node = found.last()@;
        dials_of(shared, found.drop_last()) + if shared.is_node_connected(node) {
            Seq::empty()
        } else {
            Seq::new(
                shared.protocols.len(),
                |index: int| (super::address::p2p_bytes(node), index as usize),
            )
        }
    }
}

/// Dials as values.
pub open spec fn dials_view(dials: Seq<Dial>) -> Seq<(Seq<u8>, usize)> {
    dials.map_values(|dial: Dial| (crate::outside::multiaddr_bytes(dial.addr), dial.index))
}

/// Only nodes that were found and are not connected are dialed, and only to speak a registered
/// protocol.
pub proof fn law_connected_nodes_are_not_dialed<H>(
    shared: super::shared::SharedView<H>,
    found: Seq<Vec<u8>>,
    dial: (Seq<u8>, usize),
)
    requires
        shared.protocols.len() <= usize::MAX,
        dials_of(shared, found).contains(dial),
    ensures
        dial.1 < shared.protocols.len(),
        exists|i: int|
            0 <= i < found.len() && dial.0 == super::address::p2p_bytes((#[trigger] found[i])@)
                && !shared.is_node_connected(found[i]@),
    decreases found.len(),
{
    if found.len() > 0 {
        let shorter = found.drop_last();
        let before = dials_of(shared, shorter);
        let all = dials_of(shared, found);
        let k = choose|k: int| 0 <= k < all.len() && all[k] == dial;
        if k < before.len() {
            assert(before[k] == dial);
            law_connected_nodes_are_not_dialed(shared, shorter, dial);
            let i = choose|i: int|
                0 <= i < shorter.len() && dial.0 == super::address::p2p_bytes(
                    (#[trigger] shorter[i])@,
                ) && !shared.is_node_connected(shorter[i]@);
            assert(found[i] == shorter[i]);
        } else {
            assert(found[found.len() - 1]@ == found.last()@);
        }
    }
}

/// A node that is found and not connected is dialed for every registered protocol.
pub proof fn law_found_nodes_are_dialed<H>(
    shared: super::shared::SharedView<H>,
    found: Seq<Vec<u8>>,
    i: int,
    index: usize,
)
    requires
        0 <= i < found.len(),
        !shared.is_node_connected(found[i]@),
        index < shared.protocols.len(),
    ensures
        dials_of(shared, found).contains((super::address::p2p_bytes(found[i]@), index)),
    decreases found.len(),
{
    let dial = (super::address::p2p_bytes(found[i]@), index);
    let shorter = found.drop_last();
    let before = dials_of(shared, shorter);
    let all = dials_of(shared, found);
    if i < shorter.len() {
        law_found_nodes_are_dialed(shared, shorter, i, index);
        let k = choose|k: int| 0 <= k < before.len() && before[k] == dial;
        assert(all[k] == dial);
    } else {
        assert(all[before.len() + index] == dial);
    }
}

/// A node that was dialed and has opened a substream is not dialed while that is open: the substream
/// is noted under the node that was found, where the address under which the node was dialed names
/// it.
pub proof fn law_dialed_nodes_are_not_dialed_again<H>(
    before: super::shared::SharedView<H>,
    found: Vec<u8>,
    addr: multiaddr::Multiaddr,
    index: usize,
    version: u8,
    channel: usize,
    r: Result<Option<super::substream::Substream>, super::substream::UpgradeError>,
    after: super::shared::SharedView<H>,
)
    requires
        super::address::reads_back(found@),
        crate::outside::multiaddr_bytes(addr) == super::address::p2p_bytes(found@),
        index < before.protocols.len(),
        super::substream::upgrades(
            before,
            index,
            version,
            super::address::remote_node(addr),
            channel,
            r,
            after,
        ),
    ensures
        r matches Ok(Some(substream)) && after.nodes[found@] == substream.peer,
        dials_of(after, seq![found]) == Seq::<(Seq<u8>, usize)>::empty(),
{
    assert(super::address::remote_node(addr) == Some(found@));
    assert(after.is_node_connected(found@));
    assert(seq![found].drop_last() =~= Seq::<Vec<u8>>::empty());
    reveal_with_fuel(dials_of, 2);
    assert(dials_of(after, seq![found]) =~= Seq::<(Seq<u8>, usize)>::empty());
}

impl Setup {
    /// Reads what the events loop starts with out of the configuration.
    pub fn new<S, F>(config: &BasicNetworkConfiguration<S, F>) -> (r: Result<Setup, SetupError>)
        ensures
            match r {
                Ok(setup) => {
                    &&& setup.bootnodes@.len() == config.boot_nodes@.len()
                    &&& forall|i: int|
                        0 <= i < config.boot_nodes@.len() ==> super::address::describes(
                            (#[trigger] config.boot_nodes@[i])@,
                            setup.bootnodes@[i],
                        )
                    &&& crate::outside::multiaddr_bytes(setup.listen_addr)
                        == super::address::listen_bytes(config.listen_address)
                },
                Err(err) => {
                    &&& err.index < config.boot_nodes@.len()
                    &&& super::address::bootnode_of(config.boot_nodes@[err.index as int]@) == Err::<
                        (Seq<u8>, Seq<u8>),
                        BootnodeError,
                    >(err.error)
                    &&& forall|i: int|
                        0 <= i < err.index ==> super::address::bootnode_of(
                            (#[trigger] config.boot_nodes@[i])@,
                        ) is Ok
                },
            },
    {
        let mut bootnodes: Vec<Bootnode> = Vec::new();
        let mut i: usize = 0;
        while i < config.boot_nodes.len()
            invariant
                i <= config.boot_nodes@.len(),
                bootnodes@.len() == i,
                forall|j: int|
                    0 <= j < i ==> super::address::describes(
                        (#[trigger] config.boot_nodes@[j])@,
                        bootnodes@[j],
                    ),
            decreases config.boot_nodes@.len() - i,
        {
            match parse_bootnode(config.boot_nodes[i].as_str()) {
                Ok(node) => {
                    bootnodes.push(node);
                },
                Err(error) => {
                    return Err(SetupError { index: i, error });
                },
            }
            i = i + 1;
        }
        Ok(Setup { bootnodes, listen_addr: listen_address(config.listen_address) })
    }
}

impl<H, S, F> NetworkService<H, S, F> {
    /// A service without protocols and peers.
    pub fn new(config: BasicNetworkConfiguration<S, F>) -> (r: Self)
        ensures
            r.shared@.wf(),
            r.shared@.protocols.len() == 0,
            r.shared@.nodes == Map::<Seq<u8>, PeerId>::empty(),
            r.shared@.peers == Map::<PeerId, Seq<(ProtocolId, usize, u8)>>::empty(),
            r.config == config,
    {
        NetworkService { shared: Shared::new(), config }
    }

    /// Registers a protocol with its versions, in any order, and tells whether that is late: a node
    /// has connected already. The handler is to be initialized then, in the context of the protocol.
    pub fn register_protocol(
        &mut self,
        handler: H,
        protocol: ProtocolId,
        packet_count: u8,
        versions: &[u8],
    ) -> (late: bool)
        requires
            old(self).shared@.wf(),
        ensures
            late == !(old(self).shared@.nodes.dom() =~= Set::empty()),
            final(self).shared@.wf(),
            final(self).shared@ == old(self).shared@.with_protocol(
                final(self).shared@.protocols.last(),
            ),
            final(self).shared@.protocols.last().id == protocol,
            final(self).shared@.protocols.last().packet_count == packet_count,
            final(self).shared@.protocols.last().supported_versions.to_multiset()
                == versions@.to_multiset(),
            final(self).shared@.protocols.last().handler == handler,
            final(self).config == old(self).config,
    {
        let late = !self.shared.has_no_nodes();
        self.shared.add_protocol(RegisteredProtocol::new(protocol, packet_count, versions, handler));
        late
    }

    /// Returns network configuration.
    pub fn config(&self) -> (r: &BasicNetworkConfiguration<S, F>)
        ensures
            *r == self.config,
    {
        &self.config
    }

    /// Start network IO
    pub fn start<E>(&self) -> (r: Result<(), Error<E>>)
        ensures
            r is Ok,
    {
        Ok(())
    }

    /// Stop network IO
    pub fn stop<E>(&self) -> (r: Result<(), Error<E>>)
        ensures
            r is Ok,
    {
        Ok(())
    }

    /// Get a list of all connected peers by id.
    pub fn connected_peers(&self) -> (r: Vec<PeerId>)
        requires
            self.shared@.wf(),
        ensures
            r@.no_duplicates(),
            forall|peer: PeerId| r@.contains(peer) <==> self.shared@.is_connected(peer),
    {
        self.shared.connected_peers()
    }

    /// The context of a protocol outside of any packet: where its handler is initialized, and where
    /// it is told that the time of a timer is over.
    pub fn context(&self, protocol: ProtocolId) -> (r: NetworkContextImpl<'_, H>)
        ensures
            r == self.spec_context(protocol),
    {
        NetworkContextImpl { inner: &self.shared, protocol, current_peer: None }
    }

    /// The context of a protocol outside of any packet.
    pub open spec fn spec_context(&self, protocol: ProtocolId) -> NetworkContextImpl<'_, H> {
        NetworkContextImpl { inner: &self.shared, protocol, current_peer: None }
    }

    /// Executes action in the network context
    pub fn with_context<A>(&self, protocol: ProtocolId, action: A) where
        A: FnOnce(&NetworkContextImpl<'_, H>),

        requires
            self.shared@.is_registered(protocol) ==> action.requires(
                (&self.spec_context(protocol),),
            ),
        ensures
            self.shared@.is_registered(protocol) ==> action.ensures(
                (&self.spec_context(protocol),),
                (),
            ),
    {
        self.with_context_eval(protocol, action);
    }

    /// Evaluates function in the network context
    pub fn with_context_eval<A, T>(&self, protocol: ProtocolId, action: A) -> (r: Option<T>) where
        A: FnOnce(&NetworkContextImpl<'_, H>) -> T,

        requires
            self.shared@.is_registered(protocol) ==> action.requires(
                (&self.spec_context(protocol),),
            ),
        ensures
            match r {
                Some(value) => self.shared@.is_registered(protocol) && action.ensures(
                    (&self.spec_context(protocol),),
                    value,
                ),
                None => !self.shared@.is_registered(protocol),
            },
    {
        if self.shared.find_protocol(&protocol).is_none() {
            return None;
        }
        let context = self.context(protocol);
        Some(action(&context))
    }

    /// What the node tells of itself, given its public key.
    pub fn identify_info(&self, public_key: Vec<u8>) -> (r: IdentifyInfo)
        requires
            self.shared@.wf(),
            self.shared@.protocols.len() + 2 <= usize::MAX,
        ensures
            r.public_key == public_key,
            r.protocol_version@ == "parity/1.11.0"@,
            r.agent_version@ == "rust-libp2p/1.0.0"@,
            r.listen_addrs@.len() == 0,
            r.protocols@.map_values(|name: String| name@) == readable_names(
                super::upgrade::all_names(self.shared@.protocols),
            ),
    {
        let names = self.shared.protocol_names();
        let ghost all = super::upgrade::all_names(self.shared@.protocols);
        let mut protocols: Vec<String> = Vec::new();
        let mut i: usize = 0;
        while i < names.len()
            invariant
                i <= names@.len(),
                all == super::upgrade::ids_view(names@),
                protocols@.map_values(|name: String| name@) == readable_names(all.take(i as int)),
            decreases names@.len() - i,
        {
            let name = vstd::slice::slice_to_vec(bytes_as_ref(&names[i].0));
            let ghost before = protocols@;
            proof {
                assert(all.take(i + 1).drop_last() =~= all.take(i as int));
                assert(all.take(i + 1).last() == all[i as int]);
                assert(all[i as int].0 == crate::outside::bytes_view(names@[i as int].0));
            }
            match string_from_utf8(name) {
                Some(text) => {
                    protocols.push(text);
                    assert(protocols@.map_values(|name: String| name@) =~= before.map_values(
                        |name: String| name@,
                    ).push(text@));
                },
                None => {},
            }
            i = i + 1;
        }
        assert(all.take(all.len() as int) =~= all);
        IdentifyInfo {
            public_key,
            protocol_version: "parity/1.11.0".to_owned(),
            agent_version: "rust-libp2p/1.0.0".to_owned(),
            listen_addrs: Vec::new(),
            protocols,
        }
    }

    /// Decides what to dial when some nodes were found. The address under which a node is dialed
    /// names that node, where the node's identifier is a SHA-256 multihash.
    pub fn discovered(&self, found: &Vec<Vec<u8>>) -> (r: Vec<Dial>)
        ensures
            dials_view(r@) == dials_of(self.shared@, found@),
            forall|i: int|
                0 <= i < found@.len() && !self.shared@.is_node_connected((#[trigger] found@[i])@)
                    && self.shared@.protocols.len() > 0 && super::address::is_sha256(found@[i]@)
                    ==> super::address::reads_back(found@[i]@),
    {
        let mut r: Vec<Dial> = Vec::new();
        let count: usize = self.shared.num_protocols();
        let mut i: usize = 0;
        while i < found.len()
            invariant
                count == self.shared@.protocols.len(),
                i <= found@.len(),
                dials_view(r@) == dials_of(self.shared@, found@.take(i as int)),
                forall|j: int|
                    0 <= j < i && !self.shared@.is_node_connected((#[trigger] found@[j])@) && count
                        > 0 && super::address::is_sha256(found@[j]@) ==> super::address::reads_back(
                        found@[j]@,
                    ),
            decreases found@.len() - i,
        {
            let ghost before = dials_view(r@);
            let ghost node = found@[i as int]@;
            proof {
                assert(found@.take(i + 1).drop_last() =~= found@.take(i as int));
                assert(found@.take(i + 1).last() == found@[i as int]);
            }
            if !self.shared.is_node_connected(&found[i]) {
                let mut n: usize = 0;
                while n < count
                    invariant
                        i < found@.len(),
                        n <= count,
                        node == found@[i as int]@,
                        n > 0 && super::address::is_sha256(node) ==> super::address::reads_back(
                            node,
                        ),
                        dials_view(r@) == before + Seq::new(
                            n as nat,
                            |index: int| (super::address::p2p_bytes(node), index as usize),
                        ),
                    decreases count - n,
                {
                    let ghost so_far = dials_view(r@);
                    let node_id = vstd::slice::slice_to_vec(found[i].as_slice());
                    let addr = peer_address(node_id);
                    r.push(Dial { addr, index: n });
                    assert(dials_view(r@) =~= so_far.push((super::address::p2p_bytes(node), n)));
                    n = n + 1;
                }
            }
            i = i + 1;
        }
        assert(found@.take(found@.len() as int) =~= found@);
        r
    }
}

} // verus!
