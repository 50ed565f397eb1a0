//! The state of the libp2p backend: what the operations change, and what they tell of it.
use vstd::prelude::*;

use crate::config::BasicNetworkConfiguration;
use crate::libp2p::context::NetworkContextImpl;
use crate::libp2p::protocol::RegisteredProtocol;
use crate::libp2p::service::NetworkService;
use crate::libp2p::shared::Shared;
use crate::libp2p::substream::{Substream, UpgradeError};
use crate::peer_id::PeerId;
use crate::types::{Error, ProtocolId};

verus! {

/// At first there are no protocols, no nodes and no peers.
pub proof fn law_state_is_empty_at_first<H, S, F>(
    shared: Shared<H>,
    config: BasicNetworkConfiguration<S, F>,
    service: NetworkService<H, S, F>,
    kept: &BasicNetworkConfiguration<S, F>,
)
    requires
        call_ensures(Shared::<H>::new, (), shared),
        call_ensures(NetworkService::<H, S, F>::new, (config,), service),
        call_ensures(NetworkService::<H, S, F>::config, (&service,), kept),
    ensures
        shared@.protocols.len() == 0,
        forall|node: Seq<u8>| !(#[trigger] shared@.nodes.contains_key(node)),
        forall|peer: PeerId| !(#[trigger] shared@.peers.contains_key(peer)),
        service.shared@.protocols.len() == 0,
        forall|node: Seq<u8>| !(#[trigger] service.shared@.nodes.contains_key(node)),
        forall|peer: PeerId| !(#[trigger] service.shared@.peers.contains_key(peer)),
        *kept == config,
{
}

/// Opening a substream adds it behind the peer's others, and changes nothing else: the peer is the
/// one that the node has always been, or, for a node that has never connected, one that no node has
/// ever been.
pub proof fn law_opening_adds_the_substream<H>(
    shared: &mut Shared<H>,
    node: Vec<u8>,
    id: ProtocolId,
    channel: usize,
    version: u8,
    peer: PeerId,
)
    requires
        call_ensures(
            Shared::<H>::open_substream,
            (shared, node, id, channel, version),
            peer,
        ),
    ensures
        final(shared)@.protocols == old(shared)@.protocols,
        old(shared)@.nodes.contains_key(node@) ==> peer == old(shared)@.nodes[node@],
        !old(shared)@.nodes.contains_key(node@) ==> !old(shared)@.peers.contains_key(peer),
        forall|n: Seq<u8>| #[trigger]
            final(shared)@.nodes.contains_key(n) <==> old(shared)@.nodes.contains_key(n) || n
                == node@,
        final(shared)@.nodes[node@] == peer,
        forall|n: Seq<u8>|
            n != node@ && #[trigger] old(shared)@.nodes.contains_key(n)
                ==> final(shared)@.nodes[n] == old(shared)@.nodes[n],
        forall|p: PeerId| #[trigger]
            final(shared)@.peers.contains_key(p) <==> old(shared)@.peers.contains_key(p) || p
                == peer,
        forall|p: PeerId|
            p != peer && #[trigger] old(shared)@.peers.contains_key(p) ==> final(shared)@.peers[p]
                == old(shared)@.peers[p],
        old(shared)@.peers.contains_key(peer) ==> final(shared)@.peers[peer]
            == old(shared)@.peers[peer] + seq![(id, channel, version)],
        !old(shared)@.peers.contains_key(peer) ==> final(shared)@.peers[peer] == seq![
            (id, channel, version),
        ],
{
}

/// Closing a substream takes away what its channel leads to of its peer, keeps the peer's other
/// substreams in their order, and changes nothing else.
pub proof fn law_closing_takes_the_substream_away<H>(
    shared: &mut Shared<H>,
    peer: PeerId,
    channel: usize,
    substream: (ProtocolId, usize, u8),
    before: Seq<(ProtocolId, usize, u8)>,
    behind: Seq<(ProtocolId, usize, u8)>,
)
    requires
        call_ensures(Shared::<H>::close_substream, (shared, peer, channel), ()),
    ensures
        final(shared)@.protocols == old(shared)@.protocols,
        final(shared)@.nodes == old(shared)@.nodes,
        forall|p: PeerId| #[trigger]
            final(shared)@.peers.contains_key(p) <==> old(shared)@.peers.contains_key(p),
        forall|p: PeerId|
            p != peer && #[trigger] old(shared)@.peers.contains_key(p) ==> final(shared)@.peers[p]
                == old(shared)@.peers[p],
        old(shared)@.peers.contains_key(peer) ==> {
            &&& final(shared)@.peers[peer].contains(substream) <==> old(shared)@.peers[peer].contains(
                substream,
            ) && substream.1 != channel
            // Where only one substream is the channel's, the others close ranks.
            &&& old(shared)@.peers[peer] == before + seq![substream] + behind && substream.1
                == channel && (forall|i: int|
                0 <= i < before.len() ==> (#[trigger] before[i]).1 != channel) && (forall|i: int|
                0 <= i < behind.len() ==> (#[trigger] behind[i]).1 != channel)
                ==> final(shared)@.peers[peer] == before + behind
        },
{
    if old(shared)@.peers.contains_key(peer) {
        let list = old(shared)@.peers[peer];
        crate::libp2p::shared::lemma_other_substreams(list, channel, substream);
        if list == before + seq![substream] + behind && substream.1 == channel && (forall|i: int|
            0 <= i < before.len() ==> (#[trigger] before[i]).1 != channel) && (forall|i: int|
            0 <= i < behind.len() ==> (#[trigger] behind[i]).1 != channel) {
            let keep = crate::libp2p::shared::other_than(channel);
            Seq::filter_distributes_over_add(before + seq![substream], behind, keep);
            Seq::filter_distributes_over_add(before, seq![substream], keep);
            lemma_filter_keeps_all(before, keep);
            lemma_filter_keeps_all(behind, keep);
            reveal_with_fuel(Seq::filter, 2);
            assert(seq![substream].drop_last() =~= Seq::<(ProtocolId, usize, u8)>::empty());
            assert(seq![substream].filter(keep) =~= Seq::<(ProtocolId, usize, u8)>::empty());
            assert(before + Seq::<(ProtocolId, usize, u8)>::empty() =~= before);
        }
    }
}

/// Nothing is taken away where everything is kept.
proof fn lemma_filter_keeps_all(
    list: Seq<(ProtocolId, usize, u8)>,
    keep: spec_fn((ProtocolId, usize, u8)) -> bool,
)
    requires
        forall|i: int| 0 <= i < list.len() ==> keep(#[trigger] list[i]),
    ensures
        list.filter(keep) == list,
    decreases list.len(),
{
    reveal(Seq::filter);
    if list.len() > 0 {
        lemma_filter_keeps_all(list.drop_last(), keep);
        assert(list.drop_last().push(list.last()) =~= list);
    }
}

/// A protocol is added behind the others, as it was given, and nothing else changes.
pub proof fn law_protocols_are_added<H>(shared: &mut Shared<H>, protocol: RegisteredProtocol<H>)
    requires
        call_ensures(Shared::<H>::add_protocol, (shared, protocol), ()),
    ensures
        final(shared)@.protocols == old(shared)@.protocols + seq![protocol@],
        final(shared)@.nodes == old(shared)@.nodes,
        final(shared)@.peers == old(shared)@.peers,
{
}

/// A registered protocol stands behind the others, with its identifier, its number of packets, its
/// handler, and its versions, the highest first. Nothing else changes. It is late exactly if a node
/// has connected.
pub proof fn law_protocols_are_registered<H, S, F>(
    service: &mut NetworkService<H, S, F>,
    handler: H,
    id: ProtocolId,
    packet_count: u8,
    versions: &[u8],
    late: bool,
)
    requires
        call_ensures(
            NetworkService::<H, S, F>::register_protocol,
            (service, handler, id, packet_count, versions),
            late,
        ),
    ensures
        late <==> exists|node: Seq<u8>| #[trigger] old(service).shared@.nodes.contains_key(node),
        final(service).config == old(service).config,
        final(service).shared@.nodes == old(service).shared@.nodes,
        final(service).shared@.peers == old(service).shared@.peers,
        final(service).shared@.protocols.len() == old(service).shared@.protocols.len() + 1,
        forall|i: int|
            0 <= i < old(service).shared@.protocols.len()
                ==> #[trigger] final(service).shared@.protocols[i]
                == old(service).shared@.protocols[i],
        ({
            let added = final(service).shared@.protocols.last();
            &&& added.id == id
            &&& added.packet_count == packet_count
            &&& added.handler == handler
            &&& added.supported_versions.to_multiset() == versions@.to_multiset()
            &&& forall|i: int, j: int|
                0 <= i <= j < added.supported_versions.len() ==> added.supported_versions[i]
                    >= added.supported_versions[j]
        }),
{
    let before = old(service).shared@;
    let after = final(service).shared@;
    assert(after.protocols[after.protocols.len() - 1].wf());
    if late {
        let node = choose|node: Seq<u8>| before.nodes.dom().contains(node);
        if !(exists|n: Seq<u8>| before.nodes.dom().contains(n)) {
            assert(before.nodes.dom() =~= Set::empty());
        }
        assert(before.nodes.contains_key(node));
    }
    if exists|node: Seq<u8>| #[trigger] before.nodes.contains_key(node) {
        let node = choose|node: Seq<u8>| #[trigger] before.nodes.contains_key(node);
        assert(before.nodes.dom().contains(node));
    }
}

/// The connected peers, nodes, and whether any node has ever connected, are told as they are: a peer
/// is connected exactly if a substream of it is open.
pub proof fn law_connections_are_told<H>(
    shared: &Shared<H>,
    peer: PeerId,
    node: &Vec<u8>,
    peers: Vec<PeerId>,
    connected: bool,
    node_connected: bool,
    none: bool,
)
    requires
        call_ensures(Shared::<H>::connected_peers, (shared,), peers),
        call_ensures(Shared::<H>::is_connected, (shared, peer), connected),
        call_ensures(Shared::<H>::is_node_connected, (shared, node), node_connected),
        call_ensures(Shared::<H>::has_no_nodes, (shared,), none),
    ensures
        forall|i: int, j: int| 0 <= i < j < peers@.len() ==> peers@[i] != peers@[j],
        peers@.contains(peer) <==> connected,
        connected <==> shared@.peers.contains_key(peer) && shared@.peers[peer].len() > 0,
        node_connected <==> shared@.nodes.contains_key(node@) && peers@.contains(
            shared@.nodes[node@],
        ),
        none <==> forall|n: Seq<u8>| !(#[trigger] shared@.nodes.contains_key(n)),
{
    if none {
        assert forall|n: Seq<u8>| !(#[trigger] shared@.nodes.contains_key(n)) by {
            assert(!shared@.nodes.dom().contains(n));
        }
    } else {
        if forall|n: Seq<u8>| !(#[trigger] shared@.nodes.contains_key(n)) {
            assert(shared@.nodes.dom() =~= Set::empty());
        }
    }
}

/// The service lists the peers that its state lists.
pub proof fn law_service_lists_connected_peers<H, S, F>(
    service: &NetworkService<H, S, F>,
    peers: Vec<PeerId>,
    peer: PeerId,
    started: Result<(), Error<()>>,
    stopped: Result<(), Error<()>>,
)
    requires
        call_ensures(NetworkService::<H, S, F>::connected_peers, (service,), peers),
        call_ensures(NetworkService::<H, S, F>::start::<()>, (service,), started),
        call_ensures(NetworkService::<H, S, F>::stop::<()>, (service,), stopped),
    ensures
        forall|i: int, j: int| 0 <= i < j < peers@.len() ==> peers@[i] != peers@[j],
        peers@.contains(peer) <==> service.shared@.peers.contains_key(peer)
            && service.shared@.peers[peer].len() > 0,
        started is Ok,
        stopped is Ok,
{
}

/// Whether an upgrade did what it is for. With a node, and a registered protocol at the index, it
/// gives a substream of that protocol on the given channel, which is noted, with the version, behind
/// those of the peer that the node is; nothing else changes. Without a node it gives no substream,
/// and without a protocol an error, and nothing changes.
pub open spec fn is_upgraded<H>(
    before: &Shared<H>,
    index: usize,
    version: u8,
    node: Option<Seq<u8>>,
    channel: usize,
    r: Result<Option<Substream>, UpgradeError>,
    after: &Shared<H>,
) -> bool {
    match r {
        Err(_) => index >= before@.protocols.len() && after@ == before@,
        Ok(None) => index < before@.protocols.len() && node is None && after@ == before@,
        Ok(Some(substream)) => {
            &&& index < before@.protocols.len()
            &&& node is Some
            &&& substream.index == index
            &&& substream.protocol == before@.protocols[index as int].id
            &&& substream.packet_count == before@.protocols[index as int].packet_count
            &&& substream.channel == channel
            &&& before@.nodes.contains_key(node->0) ==> substream.peer == before@.nodes[node->0]
            &&& !before@.nodes.contains_key(node->0) ==> !before@.peers.contains_key(
                substream.peer,
            )
            &&& after@.protocols == before@.protocols
            &&& after@.nodes == before@.nodes.insert(node->0, substream.peer)
            &&& after@.peers.contains_key(substream.peer)
            &&& after@.peers[substream.peer].len() > 0
            &&& after@.peers[substream.peer].last() == (substream.protocol, channel, version)
            &&& after@.peers[substream.peer].drop_last() == if before@.peers.contains_key(
                substream.peer,
            ) {
                before@.peers[substream.peer]
            } else {
                Seq::empty()
            }
            &&& forall|p: PeerId|
                p != substream.peer ==> (#[trigger] after@.peers.contains_key(p)
                    <==> before@.peers.contains_key(p)) && (before@.peers.contains_key(p)
                    ==> after@.peers[p] == before@.peers[p])
        },
    }
}

/// An upgrade with the node of a remote address opens a substream with that node.
pub proof fn law_upgrades_open_substreams<H>(
    shared: &mut Shared<H>,
    index: usize,
    version: u8,
    node: Option<Vec<u8>>,
    channel: usize,
    r: Result<Option<Substream>, UpgradeError>,
)
    requires
        call_ensures(
            Shared::<H>::upgrade_node,
            (shared, index, version, node, channel),
            r,
        ),
    ensures
        is_upgraded(
            &*old(shared),
            index,
            version,
            match node {
                Some(id) => Some(id@),
                None => None,
            },
            channel,
            r,
            &*final(shared),
        ),
{
    lemma_upgraded(
        &*old(shared),
        index,
        version,
        match node {
            Some(id) => Some(id@),
            None => None,
        },
        channel,
        r,
        &*final(shared),
    );
}

/// What comes of an upgrade is what it is for.
pub proof fn lemma_upgraded<H>(
    before: &Shared<H>,
    index: usize,
    version: u8,
    node: Option<Seq<u8>>,
    channel: usize,
    r: Result<Option<Substream>, UpgradeError>,
    after: &Shared<H>,
)
    requires
        crate::libp2p::substream::upgrades(before@, index, version, node, channel, r, after@),
    ensures
        is_upgraded(before, index, version, node, channel, r, after),
{
    if let Ok(Some(substream)) = r {
        let list = if before@.peers.contains_key(substream.peer) {
            before@.peers[substream.peer]
        } else {
            Seq::empty()
        };
        assert(list.push((substream.protocol, channel, version)).drop_last() =~= list);
    }
}

/// An upgrade to a remote address opens a substream with the node of the address, if the address is
/// `/p2p/<node>` and nothing more: one component, whose protocol has the number 420.
pub proof fn law_addresses_are_upgraded<H>(
    shared: &mut Shared<H>,
    index: usize,
    version: u8,
    addr: &multiaddr::Multiaddr,
    channel: usize,
    r: Result<Option<Substream>, UpgradeError>,
)
    requires
        crate::outside::multiaddr_components(crate::outside::multiaddr_bytes(*addr)) is Some,
        call_ensures(Shared::<H>::upgrade, (shared, index, version, addr, channel), r),
    ensures
        ({
            let parts = crate::outside::multiaddr_components(
                crate::outside::multiaddr_bytes(*addr),
            )->0;
            is_upgraded(
                &*old(shared),
                index,
                version,
                if parts.len() == 1 && parts[0].protocol == 420 {
                    Some(parts[0].key)
                } else {
                    None
                },
                channel,
                r,
                &*final(shared),
            )
        }),
{
    lemma_upgraded(
        &*old(shared),
        index,
        version,
        crate::libp2p::address::remote_node(*addr),
        channel,
        r,
        &*final(shared),
    );
}

/// The handler of an open substream is that of its protocol, and acts in the context of that protocol
/// and of the substream's peer.
pub proof fn law_substreams_have_their_handler<'a, H>(
    substream: &Substream,
    shared: &'a Shared<H>,
    handler: &'a H,
    context: NetworkContextImpl<'a, H>,
)
    requires
        call_ensures(Substream::handler::<H>, (substream, shared), handler),
        call_ensures(Substream::context::<H>, (substream, shared), context),
    ensures
        *handler == shared@.protocols[substream.index as int].handler,
        context.inner == shared,
        context.protocol == substream.protocol,
        context.current_peer == Some(substream.peer),
{
}

/// An action runs exactly if its protocol is registered, in the context of the protocol and outside
/// of any packet, and what it gives comes out.
pub proof fn law_actions_run_for_registered_protocols<H, S, F, A, T, B>(
    service: &NetworkService<H, S, F>,
    protocol: ProtocolId,
    action: A,
    r: Option<T>,
    mute: B,
    outside: NetworkContextImpl<'_, H>,
) where A: FnOnce(&NetworkContextImpl<'_, H>) -> T, B: FnOnce(&NetworkContextImpl<'_, H>)
    requires
        call_ensures(NetworkService::<H, S, F>::context, (service, protocol), outside),
        call_ensures(
            NetworkService::<H, S, F>::with_context::<B>,
            (service, protocol, mute),
            (),
        ),
        call_ensures(
            NetworkService::<H, S, F>::with_context_eval::<A, T>,
            (service, protocol, action),
            r,
        ),
    ensures
        outside.inner == &service.shared,
        outside.protocol == protocol,
        outside.current_peer is None,
        r is Some <==> exists|i: int|
            0 <= i < service.shared@.protocols.len() && (#[trigger] service.shared@.protocols[i]).id
                == protocol,
        r matches Some(value) ==> call_ensures(action, (&outside,), value) && call_ensures(
            mute,
            (&outside,),
            (),
        ),
{
    if exists|i: int|
        0 <= i < service.shared@.protocols.len() && (#[trigger] service.shared@.protocols[i]).id
            == protocol {
        let i = choose|i: int|
            0 <= i < service.shared@.protocols.len() && (#[trigger] service.shared@.protocols[i]).id
                == protocol;
        crate::libp2p::shared::lemma_is_registered(service.shared@.protocols, protocol, i);
    }
    if service.shared@.is_registered(protocol) {
        let i = choose|i: int|
            crate::libp2p::shared::is_first_protocol(service.shared@.protocols, protocol, i);
        assert(service.shared@.protocols[i].id == protocol);
    }
}

} // verus!
