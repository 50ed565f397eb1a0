//! What the parts of the libp2p backend share: the protocols, and the peers with their substreams.
use vstd::prelude::*;

use super::protocol::RegisteredProtocol;
use crate::outside::{
    node_map_get, node_map_insert, node_map_is_empty, node_map_new, node_map_values, slab_get,
    slab_index_mut, slab_insert, slab_new, Substreams,
};
use crate::peer_id::PeerId;
use crate::types::{same_protocol, PacketId, ProtocolId};

verus! {

/// The state that the parts of the backend share.
pub struct Shared<H> {
    // A protocol stays at its index forever.
    protocols: Vec<RegisteredProtocol<H>>,
    // The peer of each node that has ever connected, by the node's identifier.
    peer_by_nodeid: fnv::FnvHashMap<Vec<u8>, usize>,
    // The substreams that are open with each peer; none are with one that has left.
    sender_by_peer: slab::Slab<Substreams>,
}

/// The shared state as a value.
#[verifier::ext_equal]
pub ghost struct SharedView<H> {
    /// The protocols, in the order of their registration.
    pub protocols: Seq<super::protocol::ProtocolView<H>>,
    /// The peer of each node that has ever connected. A node stays the same peer forever.
    pub nodes: Map<Seq<u8>, PeerId>,
    /// The substreams that are open with each peer, in the order in which they were opened. A peer
    /// without any has left.
    pub peers: Map<PeerId, Seq<(ProtocolId, usize, u8)>>,
}

impl<H> View for Shared<H> {
    type V = SharedView<H>;

    closed spec fn view(&self) -> SharedView<H> {
        SharedView {
            protocols: self.protocols@.map_values(|p: RegisteredProtocol<H>| p@),
            nodes: crate::outside::node_map_contents(self.peer_by_nodeid),
            peers: crate::outside::slab_contents(self.sender_by_peer).map_values(
                |list: Substreams| list@,
            ),
        }
    }
}

/// The index of the first protocol with an identifier.
pub open spec fn protocol_index<H>(
    protocols: Seq<super::protocol::ProtocolView<H>>,
    id: ProtocolId,
) -> Option<int> {
    if exists|i: int| is_first_protocol(protocols, id, i) {
        Some(choose|i: int| is_first_protocol(protocols, id, i))
    } else {
        None
    }
}

/// Whether the protocol at an index is the first with an identifier.
pub open spec fn is_first_protocol<H>(
    protocols: Seq<super::protocol::ProtocolView<H>>,
    id: ProtocolId,
    i: int,
) -> bool {
    &&& 0 <= i < protocols.len()
    &&& protocols[i].id == id
    &&& forall|j: int| 0 <= j < i ==> (#[trigger] protocols[j]).id != id
}

/// Whether the substream at an index is the first that speaks a protocol.
pub open spec fn is_first_substream(
    list: Seq<(ProtocolId, usize, u8)>,
    id: ProtocolId,
    i: int,
) -> bool {
    &&& 0 <= i < list.len()
    &&& list[i].0 == id
    &&& forall|j: int| 0 <= j < i ==> (#[trigger] list[j]).0 != id
}

/// The first substream that speaks a protocol.
pub open spec fn substream_for(list: Seq<(ProtocolId, usize, u8)>, id: ProtocolId) -> Option<
    (ProtocolId, usize, u8),
> {
    if exists|i: int| is_first_substream(list, id, i) {
        Some(list[choose|i: int| is_first_substream(list, id, i)])
    } else {
        None
    }
}

/// Whether a channel does not lead to a substream.
pub open spec fn other_than(channel: usize) -> spec_fn((ProtocolId, usize, u8)) -> bool {
    |substream: (ProtocolId, usize, u8)| substream.1 != channel
}

/// The substreams that a channel does not lead to.
pub open spec fn other_substreams(list: Seq<(ProtocolId, usize, u8)>, channel: usize) -> Seq<
    (ProtocolId, usize, u8),
> {
    list.filter(other_than(channel))
}

impl<H> SharedView<H> {
    /// Nodes and peers correspond one to one, every substream speaks a registered protocol, and the
    /// protocols are in order.
    pub open spec fn wf(self) -> bool {
        &&& forall|i: int| 0 <= i < self.protocols.len() ==> (#[trigger] self.protocols[i]).wf()
        &&& forall|node: Seq<u8>| #[trigger]
            self.nodes.contains_key(node) ==> self.peers.contains_key(self.nodes[node])
        &&& forall|node1: Seq<u8>, node2: Seq<u8>| #[trigger]
            self.nodes.contains_key(node1) && #[trigger] self.nodes.contains_key(node2)
                && self.nodes[node1] == self.nodes[node2] ==> node1 == node2
        &&& forall|peer: PeerId| #[trigger]
            self.peers.contains_key(peer) ==> exists|node: Seq<u8>| #[trigger]
                self.nodes.contains_key(node) && self.nodes[node] == peer
        &&& forall|peer: PeerId, i: int|
            #![trigger self.peers[peer][i]]
            self.peers.contains_key(peer) && 0 <= i < self.peers[peer].len() ==> self.is_registered(
                self.peers[peer][i].0,
            )
    }

    /// Whether a protocol is registered.
    pub open spec fn is_registered(self, id: ProtocolId) -> bool {
        protocol_index(self.protocols, id) is Some
    }

    /// The first protocol with an identifier.
    pub open spec fn protocol(self, id: ProtocolId) -> super::protocol::ProtocolView<H> {
        self.protocols[protocol_index(self.protocols, id)->0]
    }

    /// The substream through which a peer is sent packets of a protocol.
    pub open spec fn substream(self, peer: PeerId, id: ProtocolId) -> Option<
        (ProtocolId, usize, u8),
    > {
        if self.peers.contains_key(peer) {
            substream_for(self.peers[peer], id)
        } else {
            None
        }
    }

    /// The channel through which a peer is sent packets of a protocol.
    pub open spec fn channel(self, peer: PeerId, id: ProtocolId) -> Option<usize> {
        match self.substream(peer, id) {
            Some(substream) => Some(substream.1),
            None => None,
        }
    }

    /// The version of a protocol that is spoken with a peer.
    pub open spec fn version(self, peer: PeerId, id: ProtocolId) -> Option<u8> {
        match self.substream(peer, id) {
            Some(substream) => Some(substream.2),
            None => None,
        }
    }

    /// The state with one more substream of a node, which is, or becomes, the given peer.
    pub open spec fn with_substream(
        self,
        node: Seq<u8>,
        peer: PeerId,
        substream: (ProtocolId, usize, u8),
    ) -> SharedView<H> {
        SharedView {
            protocols: self.protocols,
            nodes: self.nodes.insert(node, peer),
            peers: self.peers.insert(
                peer,
                (if self.peers.contains_key(peer) {
                    self.peers[peer]
                } else {
                    Seq::empty()
                }).push(substream),
            ),
        }
    }

    /// Whether a peer is connected: a substream is open with it.
    pub open spec fn is_connected(self, peer: PeerId) -> bool {
        self.peers.contains_key(peer) && self.peers[peer].len() > 0
    }

    /// Whether a node is connected.
    pub open spec fn is_node_connected(self, node: Seq<u8>) -> bool {
        self.nodes.contains_key(node) && self.is_connected(self.nodes[node])
    }

    /// The state without the substream of a peer that a channel leads to. Its node stays the peer
    /// that it is, though no substream may be left.
    pub open spec fn without_substream(self, peer: PeerId, channel: usize) -> SharedView<H> {
        if self.peers.contains_key(peer) {
            SharedView {
                protocols: self.protocols,
                nodes: self.nodes,
                peers: self.peers.insert(peer, other_substreams(self.peers[peer], channel)),
            }
        } else {
            self
        }
    }

    /// The state with one more protocol.
    pub open spec fn with_protocol(self, protocol: super::protocol::ProtocolView<H>) -> SharedView<
        H,
    > {
        SharedView { protocols: self.protocols.push(protocol), nodes: self.nodes, peers: self.peers }
    }

    /// Whether a node becomes a given peer when it connects: the peer that it has been before, or
    /// one that no node has been.
    pub open spec fn admits(self, node: Seq<u8>, peer: PeerId) -> bool {
        if self.nodes.contains_key(node) {
            peer == self.nodes[node]
        } else {
            !self.peers.contains_key(peer)
        }
    }
}

/// There is one first protocol at most.
pub proof fn lemma_protocol_index<H>(
    protocols: Seq<super::protocol::ProtocolView<H>>,
    id: ProtocolId,
    i: int,
)
    requires
        is_first_protocol(protocols, id, i),
    ensures
        protocol_index(protocols, id) == Some(i),
{
    let k = choose|k: int| is_first_protocol(protocols, id, k);
    assert(is_first_protocol(protocols, id, k));
    if k < i {
        assert(protocols[k].id != id);
    } else if i < k {
        assert(protocols[i].id != id);
    }
}

/// A protocol whose identifier occurs is registered.
pub proof fn lemma_is_registered<H>(
    protocols: Seq<super::protocol::ProtocolView<H>>,
    id: ProtocolId,
    i: int,
)
    requires
        0 <= i < protocols.len(),
        protocols[i].id == id,
    ensures
        protocol_index(protocols, id) is Some,
    decreases i,
{
    if forall|j: int| 0 <= j < i ==> (#[trigger] protocols[j]).id != id {
        assert(is_first_protocol(protocols, id, i));
    } else {
        let j = choose|j: int| 0 <= j < i && (#[trigger] protocols[j]).id == id;
        lemma_is_registered(protocols, id, j);
    }
}

/// There is one first substream at most.
pub proof fn lemma_substream_for(list: Seq<(ProtocolId, usize, u8)>, id: ProtocolId, i: int)
    requires
        is_first_substream(list, id, i),
    ensures
        substream_for(list, id) == Some(list[i]),
{
    let k = choose|k: int| is_first_substream(list, id, k);
    assert(is_first_substream(list, id, k));
    if k < i {
        assert(list[k].0 != id);
    } else if i < k {
        assert(list[i].0 != id);
    }
}

/// One more protocol leaves those found before where they are.
proof fn lemma_push_protocol<H>(
    protocols: Seq<super::protocol::ProtocolView<H>>,
    added: super::protocol::ProtocolView<H>,
    id: ProtocolId,
)
    requires
        protocol_index(protocols, id) is Some,
    ensures
        protocol_index(protocols.push(added), id) == protocol_index(protocols, id),
{
    let i = choose|i: int| is_first_protocol(protocols, id, i);
    assert(is_first_protocol(protocols, id, i));
    assert forall|j: int| 0 <= j < i implies (#[trigger] protocols.push(added)[j]).id != id by {
        assert(protocols[j].id != id);
    }
    assert(is_first_protocol(protocols.push(added), id, i));
    lemma_protocol_index(protocols.push(added), id, i);
}

impl<H> Shared<H> {
    /// No protocols and no peers.
    pub fn new() -> (r: Self)
        ensures
            r@.wf(),
            r@.protocols.len() == 0,
            r@.nodes == Map::<Seq<u8>, PeerId>::empty(),
            r@.peers == Map::<PeerId, Seq<(ProtocolId, usize, u8)>>::empty(),
    {
        let r = Shared {
            protocols: Vec::new(),
            peer_by_nodeid: node_map_new(),
            sender_by_peer: slab_new(),
        };
        assert(r@.peers =~= Map::<PeerId, Seq<(ProtocolId, usize, u8)>>::empty());
        r
    }

    /// The number of registered protocols.
    pub fn num_protocols(&self) -> (r: usize)
        ensures
            r == self@.protocols.len(),
    {
        self.protocols.len()
    }

    /// The protocol at an index.
    pub fn protocol_at(&self, index: usize) -> (r: Option<&RegisteredProtocol<H>>)
        ensures
            match r {
                Some(protocol) => index < self@.protocols.len() && protocol@
                    == self@.protocols[index as int],
                None => index >= self@.protocols.len(),
            },
    {
        if index < self.protocols.len() {
            Some(&self.protocols[index])
        } else {
            None
        }
    }

    /// Finds the first protocol with an identifier.
    pub fn find_protocol(&self, id: &ProtocolId) -> (r: Option<&RegisteredProtocol<H>>)
        ensures
            match r {
                Some(protocol) => self@.is_registered(*id) && protocol@ == self@.protocol(*id),
                None => !self@.is_registered(*id),
            },
    {
        let mut i: usize = 0;
        while i < self.protocols.len()
            invariant
                i <= self.protocols@.len(),
                self.protocols@.len() == self@.protocols.len(),
                forall|j: int|
                    0 <= j < i ==> (#[trigger] self@.protocols[j]).id != *id,
            decreases self.protocols@.len() - i,
        {
            if same_protocol(&self.protocols[i].id, id) {
                proof {
                    assert(self@.protocols[i as int] == self.protocols@[i as int]@);
                    assert(is_first_protocol(self@.protocols, *id, i as int));
                    lemma_protocol_index(self@.protocols, *id, i as int);
                }
                return Some(&self.protocols[i]);
            }
            proof {
                assert(self@.protocols[i as int] == self.protocols@[i as int]@);
            }
            i = i + 1;
        }
        proof {
            if self@.is_registered(*id) {
                let k = choose|k: int| is_first_protocol(self@.protocols, *id, k);
                assert(is_first_protocol(self@.protocols, *id, k));
                assert(self@.protocols[k].id != *id);
            }
        }
        None
    }

    /// Whether the interface accepts a packet: its protocol is registered and has such a packet.
    pub fn is_valid_packet(&self, id: &ProtocolId, packet_id: PacketId) -> (r: bool)
        ensures
            r == (self@.is_registered(*id) && packet_id < self@.protocol(*id).packet_count),
    {
        match self.find_protocol(id) {
            Some(protocol) => packet_id < protocol.packet_count,
            None => false,
        }
    }

    /// Adds a protocol behind the others.
    pub fn add_protocol(&mut self, protocol: RegisteredProtocol<H>)
        requires
            old(self)@.wf(),
            protocol@.wf(),
        ensures
            final(self)@.wf(),
            final(self)@ == old(self)@.with_protocol(protocol@),
    {
        let ghost before = self@;
        self.protocols.push(protocol);
        proof {
            assert(self@.protocols =~= before.protocols.push(protocol@));
            lemma_with_protocol_wf(before, protocol@);
        }
    }

    /// Whether no node has connected yet.
    pub fn has_no_nodes(&self) -> (r: bool)
        ensures
            r == (self@.nodes.dom() =~= Set::empty()),
    {
        node_map_is_empty(&self.peer_by_nodeid)
    }

    /// Whether a node is connected.
    pub fn is_node_connected(&self, node_id: &Vec<u8>) -> (r: bool)
        ensures
            r == self@.is_node_connected(node_id@),
    {
        match node_map_get(&self.peer_by_nodeid, node_id) {
            Some(peer) => self.is_connected(peer),
            None => false,
        }
    }

    /// The connected peers, each once, in no particular order.
    pub fn connected_peers(&self) -> (r: Vec<PeerId>)
        requires
            self@.wf(),
        ensures
            r@.no_duplicates(),
            forall|peer: PeerId| r@.contains(peer) <==> self@.is_connected(peer),
    {
        let all = node_map_values(&self.peer_by_nodeid);
        proof {
            lemma_values_are_peers(self@, all@);
        }
        let mut r: Vec<PeerId> = Vec::new();
        let mut i: usize = 0;
        while i < all.len()
            invariant
                i <= all@.len(),
                all@.no_duplicates(),
                r@.no_duplicates(),
                forall|peer: PeerId|
                    r@.contains(peer) <==> all@.take(i as int).contains(peer) && self@.is_connected(
                        peer,
                    ),
            decreases all@.len() - i,
        {
            let peer: PeerId = all[i];
            let ghost before = r@;
            let ghost seen = all@.take(i as int);
            proof {
                assert(all@.take(i + 1) =~= seen.push(peer));
                if seen.contains(peer) {
                    let k = choose|k: int| 0 <= k < seen.len() && seen[k] == peer;
                    assert(all@[k] == all@[i as int]);
                }
                assert(!before.contains(peer));
            }
            if self.is_connected(peer) {
                r.push(peer);
                assert forall|a: int, b: int|
                    0 <= a < r@.len() && 0 <= b < r@.len() && a != b implies r@[a] != r@[b] by {
                    if a < before.len() {
                        assert(before.contains(before[a]));
                    }
                    if b < before.len() {
                        assert(before.contains(before[b]));
                    }
                }
            }
            assert forall|p: PeerId|
                r@.contains(p) == (all@.take(i + 1).contains(p) && self@.is_connected(p)) by {
                lemma_push_contains(seen, peer, p);
                lemma_push_contains(before, peer, p);
            }
            i = i + 1;
        }
        assert(all@.take(i as int) =~= all@);
        r
    }

    /// Whether a peer is connected.
    pub fn is_connected(&self, peer: PeerId) -> (r: bool)
        ensures
            r == self@.is_connected(peer),
    {
        match slab_get(&self.sender_by_peer, peer) {
            Some(list) => {
                assert(self@.peers[peer] == list@);
                list.len() > 0
            },
            None => false,
        }
    }

    /// Finds the first substream of a peer that speaks a protocol.
    pub fn find_substream(&self, peer: PeerId, id: &ProtocolId) -> (r: Option<
        (ProtocolId, usize, u8),
    >)
        ensures
            r == self@.substream(peer, *id),
    {
        let list: &Substreams = match slab_get(&self.sender_by_peer, peer) {
            Some(list) => list,
            None => {
                return None;
            },
        };
        assert(self@.peers[peer] == list@);
        let mut i: usize = 0;
        while i < list.len()
            invariant
                i <= list@.len(),
                self@.peers.contains_key(peer),
                self@.peers[peer] == list@,
                forall|j: int| 0 <= j < i ==> (#[trigger] list@[j]).0 != *id,
            decreases list@.len() - i,
        {
            if same_protocol(&list[i].0, id) {
                proof {
                    assert(is_first_substream(list@, *id, i as int));
                    lemma_substream_for(list@, *id, i as int);
                }
                return Some(list[i]);
            }
            i = i + 1;
        }
        proof {
            if exists|k: int| is_first_substream(list@, *id, k) {
                let k = choose|k: int| is_first_substream(list@, *id, k);
                assert(list@[k].0 != *id);
            }
        }
        None
    }

    /// Notes that a node has opened a substream, and tells which peer the node is. A node that has
    /// never connected becomes a new peer; one that comes back is the peer that it was.
    pub fn open_substream(
        &mut self,
        node_id: Vec<u8>,
        id: ProtocolId,
        channel: usize,
        version: u8,
    ) -> (peer: PeerId)
        requires
            old(self)@.wf(),
            old(self)@.is_registered(id),
        ensures
            final(self)@.wf(),
            old(self)@.admits(node_id@, peer),
            final(self)@ == old(self)@.with_substream(node_id@, peer, (id, channel, version)),
    {
        let ghost before = self@;
        let ghost node = node_id@;
        let peer: PeerId = match node_map_get(&self.peer_by_nodeid, &node_id) {
            Some(peer) => {
                assert(before.nodes.contains_key(node));
                assert(before.peers.contains_key(peer));
                peer
            },
            None => {
                let peer: PeerId = slab_insert(&mut self.sender_by_peer, Vec::new());
                node_map_insert(&mut self.peer_by_nodeid, node_id, peer);
                peer
            },
        };
        let list = slab_index_mut(&mut self.sender_by_peer, peer);
        list.push((id, channel, version));
        proof {
            let after = before.with_substream(node, peer, (id, channel, version));
            assert(before.nodes.contains_key(node) ==> before.nodes.insert(node, peer)
                =~= before.nodes);
            assert(self@.protocols =~= before.protocols);
            assert(self@.nodes =~= after.nodes);
            assert(self@.peers =~= after.peers);
            lemma_with_substream_wf(before, node, peer, (id, channel, version));
        }
        peer
    }

    /// Notes that the substream of a peer that a channel leads to has ended. With its last substream
    /// a peer has left, but its identifier is kept for its node.
    pub fn close_substream(&mut self, peer: PeerId, channel: usize)
        requires
            old(self)@.wf(),
        ensures
            final(self)@.wf(),
            final(self)@ == old(self)@.without_substream(peer, channel),
    {
        let ghost before = self@;
        let ghost after = before.without_substream(peer, channel);
        let left: Substreams = match slab_get(&self.sender_by_peer, peer) {
            Some(list) => keep_other_substreams(list, channel),
            None => {
                return;
            },
        };
        let list = slab_index_mut(&mut self.sender_by_peer, peer);
        *list = left;
        proof {
            assert(self@.protocols =~= after.protocols);
            assert(self@.nodes =~= after.nodes);
            assert(self@.peers =~= after.peers);
            lemma_without_substream_wf(before, peer, channel);
        }
    }
}

/// One more element adds itself to those of a list.
proof fn lemma_push_contains(list: Seq<PeerId>, added: PeerId, peer: PeerId)
    ensures
        list.push(added).contains(peer) <==> list.contains(peer) || peer == added,
{
    let longer = list.push(added);
    if list.contains(peer) {
        let k = choose|k: int| 0 <= k < list.len() && list[k] == peer;
        assert(longer[k] == peer);
    }
    assert(longer[list.len() as int] == added);
}

/// Lists the substreams that a channel does not lead to.
fn keep_other_substreams(list: &Substreams, channel: usize) -> (r: Substreams)
    ensures
        r@ == other_substreams(list@, channel),
{
    let mut r: Substreams = Vec::new();
    let mut i: usize = 0;
    reveal(Seq::filter);
    while i < list.len()
        invariant
            i <= list@.len(),
            r@ == other_substreams(list@.take(i as int), channel),
        decreases list@.len() - i,
    {
        proof {
            reveal(Seq::filter);
            assert(list@.take(i + 1).drop_last() =~= list@.take(i as int));
            assert(list@.take(i + 1).last() == list@[i as int]);
        }
        if list[i].1 != channel {
            r.push(list[i]);
        }
        i = i + 1;
    }
    assert(list@.take(i as int) =~= list@);
    r
}

/// What is left of some substreams are those that the channel does not lead to.
pub proof fn lemma_other_substreams(
    list: Seq<(ProtocolId, usize, u8)>,
    channel: usize,
    substream: (ProtocolId, usize, u8),
)
    ensures
        other_substreams(list, channel).contains(substream) <==> list.contains(substream)
            && substream.1 != channel,
{
    let keep = other_than(channel);
    let left = other_substreams(list, channel);
    if left.contains(substream) {
        list.lemma_filter_contains_rev(keep, substream);
        let i = choose|i: int| 0 <= i < left.len() && left[i] == substream;
        list.lemma_filter_pred(keep, i);
    }
    if list.contains(substream) && substream.1 != channel {
        let i = choose|i: int| 0 <= i < list.len() && list[i] == substream;
        list.lemma_filter_contains(keep, i);
    }
}

/// Closing a substream keeps the correspondence of nodes and peers.
pub proof fn lemma_without_substream_wf<H>(s: SharedView<H>, peer: PeerId, channel: usize)
    requires
        s.wf(),
    ensures
        s.without_substream(peer, channel).wf(),
{
    let t = s.without_substream(peer, channel);
    if s.peers.contains_key(peer) {
        let list = s.peers[peer];
        let left = other_substreams(list, channel);
        assert forall|p: PeerId| #[trigger] t.peers.contains_key(p) implies exists|n: Seq<u8>|
            #[trigger] t.nodes.contains_key(n) && t.nodes[n] == p by {
            assert(s.peers.contains_key(p));
            let n = choose|n: Seq<u8>| #[trigger] s.nodes.contains_key(n) && s.nodes[n] == p;
            assert(t.nodes.contains_key(n));
        }
        assert forall|p: PeerId, i: int|
            #![trigger t.peers[p][i]]
            t.peers.contains_key(p) && 0 <= i < t.peers[p].len() implies t.is_registered(
            t.peers[p][i].0,
        ) by {
            assert(t.protocols == s.protocols);
            assert(s.peers.contains_key(p));
            if p == peer {
                assert(left.contains(left[i]));
                lemma_other_substreams(list, channel, left[i]);
                let k = choose|k: int| 0 <= k < list.len() && list[k] == left[i];
                assert(s.is_registered(s.peers[p][k].0));
            } else {
                assert(s.is_registered(s.peers[p][i].0));
            }
        }
    }
}

/// The peers of all nodes are all peers.
proof fn lemma_values_are_peers<H>(s: SharedView<H>, list: Seq<PeerId>)
    requires
        s.wf(),
        crate::outside::lists_values(s.nodes, list),
    ensures
        list.no_duplicates(),
        forall|peer: PeerId| list.contains(peer) <==> s.peers.contains_key(peer),
{
    let keys = choose|keys: Seq<Seq<u8>>|
        #![trigger keys.no_duplicates()]
        {
            &&& keys.no_duplicates()
            &&& keys.to_set() == s.nodes.dom()
            &&& list == keys.map_values(|key: Seq<u8>| s.nodes[key])
        };
    assert forall|i: int| 0 <= i < keys.len() implies #[trigger] s.nodes.contains_key(keys[i]) by {
        assert(keys.contains(keys[i]));
        assert(keys.to_set().contains(keys[i]));
    }
    assert forall|i: int, j: int|
        0 <= i < list.len() && 0 <= j < list.len() && i != j implies list[i] != list[j] by {
        assert(s.nodes.contains_key(keys[i]));
        assert(s.nodes.contains_key(keys[j]));
    }
    assert forall|peer: PeerId| list.contains(peer) == s.peers.contains_key(peer) by {
        if list.contains(peer) {
            let i = choose|i: int| 0 <= i < list.len() && list[i] == peer;
            assert(s.nodes.contains_key(keys[i]));
        }
        if s.peers.contains_key(peer) {
            let node = choose|node: Seq<u8>| #[trigger]
                s.nodes.contains_key(node) && s.nodes[node] == peer;
            assert(keys.to_set().contains(node));
            let i = choose|i: int| 0 <= i < keys.len() && keys[i] == node;
            assert(list[i] == peer);
        }
    }
}

/// Registering a protocol keeps the state in order.
pub proof fn lemma_with_protocol_wf<H>(s: SharedView<H>, protocol: super::protocol::ProtocolView<H>)
    requires
        s.wf(),
        protocol.wf(),
    ensures
        s.with_protocol(protocol).wf(),
{
    let t = s.with_protocol(protocol);
    assert forall|i: int| 0 <= i < t.protocols.len() implies (#[trigger] t.protocols[i]).wf() by {
        if i < s.protocols.len() {
            assert(s.protocols[i].wf());
        }
    }
    assert forall|peer: PeerId| #[trigger] t.peers.contains_key(peer) implies exists|n: Seq<u8>|
        #[trigger] t.nodes.contains_key(n) && t.nodes[n] == peer by {
        assert(s.peers.contains_key(peer));
        let n = choose|n: Seq<u8>| #[trigger] s.nodes.contains_key(n) && s.nodes[n] == peer;
        assert(t.nodes.contains_key(n));
    }
    assert forall|peer: PeerId, i: int|
        #![trigger t.peers[peer][i]]
        t.peers.contains_key(peer) && 0 <= i < t.peers[peer].len() implies t.is_registered(
        t.peers[peer][i].0,
    ) by {
        assert(s.is_registered(s.peers[peer][i].0));
        lemma_push_protocol(s.protocols, protocol, s.peers[peer][i].0);
    }
}

/// Opening a substream keeps the correspondence of nodes and peers.
pub proof fn lemma_with_substream_wf<H>(
    s: SharedView<H>,
    node: Seq<u8>,
    peer: PeerId,
    substream: (ProtocolId, usize, u8),
)
    requires
        s.wf(),
        s.admits(node, peer),
        s.is_registered(substream.0),
    ensures
        s.with_substream(node, peer, substream).wf(),
{
    let t = s.with_substream(node, peer, substream);
    assert forall|n1: Seq<u8>, n2: Seq<u8>| #[trigger]
        t.nodes.contains_key(n1) && #[trigger] t.nodes.contains_key(n2) && t.nodes[n1]
            == t.nodes[n2] implies n1 == n2 by {
        if n1 != node {
            assert(s.nodes.contains_key(n1));
        }
        if n2 != node {
            assert(s.nodes.contains_key(n2));
        }
    }
    assert forall|n: Seq<u8>| #[trigger] t.nodes.contains_key(n) implies t.peers.contains_key(
        t.nodes[n],
    ) by {
        if n != node {
            assert(s.nodes.contains_key(n));
        }
    }
    assert forall|p: PeerId| #[trigger] t.peers.contains_key(p) implies exists|n: Seq<u8>| #[trigger]
        t.nodes.contains_key(n) && t.nodes[n] == p by {
        if p == peer {
            assert(t.nodes.contains_key(node));
        } else {
            assert(s.peers.contains_key(p));
            let n = choose|n: Seq<u8>| #[trigger] s.nodes.contains_key(n) && s.nodes[n] == p;
            assert(t.nodes.contains_key(n));
        }
    }
    assert forall|p: PeerId, i: int|
        #![trigger t.peers[p][i]]
        t.peers.contains_key(p) && 0 <= i < t.peers[p].len() implies t.is_registered(
        t.peers[p][i].0,
    ) by {
        assert(t.protocols == s.protocols);
        if p != peer {
            assert(s.peers.contains_key(p));
            assert(s.is_registered(s.peers[p][i].0));
        } else if i < t.peers[p].len() - 1 {
            assert(s.peers.contains_key(p));
            assert(s.is_registered(s.peers[p][i].0));
        }
    }
}

/// A list that holds a substream for a protocol finds one.
pub proof fn lemma_substream_is_found(list: Seq<(ProtocolId, usize, u8)>, id: ProtocolId, i: int)
    requires
        0 <= i < list.len(),
        list[i].0 == id,
    ensures
        exists|k: int| is_first_substream(list, id, k),
    decreases i,
{
    if forall|j: int| 0 <= j < i ==> (#[trigger] list[j]).0 != id {
        assert(is_first_substream(list, id, i));
    } else {
        let j = choose|j: int| 0 <= j < i && (#[trigger] list[j]).0 == id;
        lemma_substream_is_found(list, id, j);
    }
}

/// A substream at the end of a list is found only where none was found before.
proof fn lemma_push_substream(
    list: Seq<(ProtocolId, usize, u8)>,
    added: (ProtocolId, usize, u8),
    id: ProtocolId,
)
    ensures
        substream_for(list.push(added), id) == (if substream_for(list, id) is Some {
            substream_for(list, id)
        } else if added.0 == id {
            Some(added)
        } else {
            None
        }),
{
    let longer = list.push(added);
    if exists|i: int| is_first_substream(list, id, i) {
        let i = choose|i: int| is_first_substream(list, id, i);
        assert forall|j: int| 0 <= j < i implies (#[trigger] longer[j]).0 != id by {
            assert(list[j].0 != id);
        }
        assert(is_first_substream(longer, id, i));
        lemma_substream_for(longer, id, i);
    } else {
        assert forall|j: int| 0 <= j < list.len() implies (#[trigger] longer[j]).0 != id by {
            if list[j].0 == id {
                lemma_substream_is_found(list, id, j);
            }
        }
        if added.0 == id {
            assert(is_first_substream(longer, id, list.len() as int));
            lemma_substream_for(longer, id, list.len() as int);
        } else if exists|k: int| is_first_substream(longer, id, k) {
            let k = choose|k: int| is_first_substream(longer, id, k);
            assert(longer[k].0 == id);
        }
    }
}

/// Opening a substream makes its peer connected, and changes that of no other peer: a connected node
/// that opens another substream leaves the connected peers as they are, and any other node adds its
/// own peer.
pub proof fn law_opening_connects_the_peer<H>(
    s: SharedView<H>,
    node: Seq<u8>,
    peer: PeerId,
    substream: (ProtocolId, usize, u8),
    other: PeerId,
)
    requires
        s.wf(),
        s.admits(node, peer),
    ensures
        s.with_substream(node, peer, substream).is_node_connected(node),
        s.with_substream(node, peer, substream).is_connected(other) <==> s.is_connected(other)
            || other == peer,
        s.is_node_connected(node) ==> s.is_connected(peer),
{
}

/// Once a substream is open, its peer can be sent packets of its protocol: through the substream
/// that was open for the protocol before, if there was one, and else through this one. Nothing else
/// changes for any peer and any protocol.
pub proof fn law_open_substream_carries_packets<H>(
    s: SharedView<H>,
    node: Seq<u8>,
    peer: PeerId,
    substream: (ProtocolId, usize, u8),
    other_peer: PeerId,
    other: ProtocolId,
)
    requires
        s.wf(),
        s.admits(node, peer),
    ensures
        s.with_substream(node, peer, substream).substream(peer, substream.0) == (if s.substream(
            peer,
            substream.0,
        ) is Some {
            s.substream(peer, substream.0)
        } else {
            Some(substream)
        }),
        other_peer != peer || other != substream.0 ==> s.with_substream(
            node,
            peer,
            substream,
        ).substream(other_peer, other) == s.substream(other_peer, other),
{
    let list = if s.peers.contains_key(peer) {
        s.peers[peer]
    } else {
        Seq::empty()
    };
    lemma_push_substream(list, substream, substream.0);
    lemma_push_substream(list, substream, other);
    if !s.peers.contains_key(peer) {
        assert(!(exists|i: int| is_first_substream(list, other, i)));
        assert(!(exists|i: int| is_first_substream(list, substream.0, i)));
    }
}

/// Registering a protocol makes it known, and leaves every protocol that was known where it was, and
/// every substream as it was.
pub proof fn law_register_protocol<H>(
    s: SharedView<H>,
    added: super::protocol::ProtocolView<H>,
    id: ProtocolId,
    peer: PeerId,
    index: int,
)
    ensures
        0 <= index < s.protocols.len() ==> s.with_protocol(added).protocols[index]
            == s.protocols[index],
        s.with_protocol(added).is_registered(added.id),
        s.is_registered(id) ==> s.with_protocol(added).is_registered(id) && s.with_protocol(
            added,
        ).protocol(id) == s.protocol(id),
        !s.is_registered(id) && id != added.id ==> !s.with_protocol(added).is_registered(id),
        !s.is_registered(added.id) ==> s.with_protocol(added).protocol(added.id) == added,
        s.with_protocol(added).substream(peer, id) == s.substream(peer, id),
{
    let t = s.with_protocol(added);
    let n = s.protocols.len() as int;
    lemma_is_registered(t.protocols, added.id, n);
    if s.is_registered(id) {
        lemma_push_protocol(s.protocols, added, id);
        assert(is_first_protocol(s.protocols, id, protocol_index(s.protocols, id)->0));
    } else if id != added.id && t.is_registered(id) {
        let k = choose|k: int| is_first_protocol(t.protocols, id, k);
        assert(t.protocols[k] == s.protocols[k]);
        lemma_is_registered(s.protocols, id, k);
    }
    if !s.is_registered(added.id) {
        assert forall|j: int| 0 <= j < n implies (#[trigger] t.protocols[j]).id != added.id by {
            if s.protocols[j].id == added.id {
                lemma_is_registered(s.protocols, added.id, j);
            }
        }
        assert(is_first_protocol(t.protocols, added.id, n));
        lemma_protocol_index(t.protocols, added.id, n);
    }
}

/// Once a substream is closed, no substream of its peer is the closed one; those that other channels
/// lead to stay, and nothing changes for any other peer. The peer is connected as long as it has a
/// substream that another channel leads to. Every node stays the peer that it is.
pub proof fn law_closed_substream_is_gone<H>(
    s: SharedView<H>,
    peer: PeerId,
    channel: usize,
    substream: (ProtocolId, usize, u8),
    other_peer: PeerId,
)
    requires
        s.peers.contains_key(peer),
    ensures
        ({
            let t = s.without_substream(peer, channel);
            &&& t.protocols == s.protocols
            &&& t.nodes == s.nodes
            &&& t.peers[peer].contains(substream) <==> s.peers[peer].contains(substream)
                && substream.1 != channel
            &&& t.is_connected(peer) <==> exists|i: int|
                0 <= i < s.peers[peer].len() && (#[trigger] s.peers[peer][i]).1 != channel
            &&& other_peer != peer ==> (t.peers.contains_key(other_peer) == s.peers.contains_key(
                other_peer,
            ) && t.peers[other_peer] == s.peers[other_peer])
        }),
{
    let t = s.without_substream(peer, channel);
    let list = s.peers[peer];
    let left = other_substreams(list, channel);
    lemma_other_substreams(list, channel, substream);
    if left.len() > 0 {
        assert(left.contains(left[0]));
        lemma_other_substreams(list, channel, left[0]);
        let k = choose|k: int| 0 <= k < list.len() && list[k] == left[0];
        assert(list[k].1 != channel);
    }
    if exists|i: int| 0 <= i < list.len() && (#[trigger] list[i]).1 != channel {
        let i = choose|i: int| 0 <= i < list.len() && (#[trigger] list[i]).1 != channel;
        assert(list.contains(list[i]));
        lemma_other_substreams(list, channel, list[i]);
        assert(left.len() > 0);
    }
}

/// Closing a substream undoes opening it, where its channel led to no other substream of the peer:
/// what is open is as before, and so is the whole state if the node had connected before. A new node
/// is remembered.
pub proof fn law_closing_undoes_opening<H>(
    s: SharedView<H>,
    node: Seq<u8>,
    peer: PeerId,
    substream: (ProtocolId, usize, u8),
    other: PeerId,
)
    requires
        s.wf(),
        s.admits(node, peer),
        s.peers.contains_key(peer) ==> forall|i: int|
            0 <= i < s.peers[peer].len() ==> (#[trigger] s.peers[peer][i]).1 != substream.1,
    ensures
        ({
            let t = s.with_substream(node, peer, substream).without_substream(peer, substream.1);
            &&& t.is_connected(other) == s.is_connected(other)
            &&& s.peers.contains_key(other) ==> t.peers[other] == s.peers[other]
            &&& s.nodes.contains_key(node) ==> t == s
            &&& t.nodes == s.nodes.insert(node, peer)
        }),
{
    let open = s.with_substream(node, peer, substream);
    let t = open.without_substream(peer, substream.1);
    let before = if s.peers.contains_key(peer) {
        s.peers[peer]
    } else {
        Seq::empty()
    };
    assert(before.push(substream).drop_last() =~= before);
    reveal(Seq::filter);
    lemma_filter_keeps_all(before, other_than(substream.1));
    assert(other_substreams(open.peers[peer], substream.1) == before);
    if s.nodes.contains_key(node) {
        assert(s.peers.contains_key(s.nodes[node]));
        assert(t.nodes =~= s.nodes);
        assert(t.peers =~= s.peers);
    }
}

/// Nothing is taken away where everything is kept.
proof fn lemma_filter_keeps_all(
    list: Seq<(ProtocolId, usize, u8)>,
    keep: spec_fn((ProtocolId, usize, u8)) -> bool,
)
    requires
        forall|i: int| 0 <= i < list.len() ==> keep(#[trigger] list[i]),
    ensures
        list.filter(keep) == list,
    decreases list.len(),
{
    reveal(Seq::filter);
    if list.len() > 0 {
        lemma_filter_keeps_all(list.drop_last(), keep);
        assert(list.drop_last().push(list.last()) =~= list);
    }
}

} // verus!
