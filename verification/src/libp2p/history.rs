//! What the shared state is after any number of steps.
use vstd::prelude::*;

use crate::peer_id::PeerId;
use crate::types::ProtocolId;

verus! {

/// A step that changes the shared state.
pub ghost enum Event<H> {
    /// A protocol was registered.
    Registered(super::protocol::ProtocolView<H>),
    /// A node, which is a peer, has opened a substream.
    Opened { node: Seq<u8>, peer: PeerId, substream: (ProtocolId, usize, u8) },
    /// The substream of a peer that a channel led to has ended.
    Closed { peer: PeerId, channel: usize },
}

impl<H> super::shared::SharedView<H> {
    /// The state after a step.
    pub open spec fn after(self, event: Event<H>) -> super::shared::SharedView<H> {
        match event {
            Event::Registered(protocol) => self.with_protocol(protocol),
            Event::Opened { node, peer, substream } => self.with_substream(node, peer, substream),
            Event::Closed { peer, channel } => self.without_substream(peer, channel),
        }
    }

    /// Whether a step can happen in a state.
    pub open spec fn allows(self, event: Event<H>) -> bool {
        match event {
            Event::Registered(protocol) => protocol.wf(),
            Event::Opened { node, peer, substream } => self.admits(node, peer)
                && self.is_registered(substream.0),
            Event::Closed { .. } => true,
        }
    }

    /// Whether no node has connected yet.
    pub open spec fn is_fresh(self) -> bool {
        &&& self.wf()
        &&& self.nodes == Map::<Seq<u8>, PeerId>::empty()
        &&& self.peers == Map::<PeerId, Seq<(ProtocolId, usize, u8)>>::empty()
    }
}

/// The state after some steps.
pub open spec fn run<H>(
    start: super::shared::SharedView<H>,
    events: Seq<Event<H>>,
) -> super::shared::SharedView<H>
    decreases events.len(),
{
    if events.len() == 0 {
        start
    } else {
        run(start, events.drop_last()).after(events.last())
    }
}

/// Whether some steps can happen one after the other, from a state in which no node has connected.
pub open spec fn is_history<H>(
    start: super::shared::SharedView<H>,
    events: Seq<Event<H>>,
) -> bool
    decreases events.len(),
{
    if events.len() == 0 {
        start.is_fresh()
    } else {
        is_history(start, events.drop_last()) && run(start, events.drop_last()).allows(
            events.last(),
        )
    }
}

/// Whether a step opened a substream that has not ended since.
pub open spec fn is_still_open<H>(events: Seq<Event<H>>, i: int) -> bool {
    &&& 0 <= i < events.len()
    &&& events[i] matches Event::Opened { peer, substream, .. } && forall|j: int|
        i < j < events.len() ==> #[trigger] events[j] != (Event::<H>::Closed {
            peer,
            channel: substream.1,
        })
}

/// Whether a step opened a given substream of a given peer, which has not ended since.
pub open spec fn opens<H>(
    events: Seq<Event<H>>,
    i: int,
    peer: PeerId,
    substream: (ProtocolId, usize, u8),
) -> bool {
    &&& is_still_open(events, i)
    &&& events[i] matches Event::Opened { peer: p, substream: s, .. } && p == peer && s
        == substream
}

/// Whether a step made a node a peer.
pub open spec fn connects<H>(events: Seq<Event<H>>, i: int, node: Seq<u8>, peer: PeerId) -> bool {
    &&& 0 <= i < events.len()
    &&& events[i] matches Event::Opened { node: n, peer: p, .. } && n == node && p == peer
}

/// The nodes that have opened a substream which has not ended.
pub open spec fn connected_nodes<H>(events: Seq<Event<H>>) -> Set<Seq<u8>> {
    Set::new(
        |node: Seq<u8>|
            exists|i: int, peer: PeerId| #[trigger]
                connects(events, i, node, peer) && is_still_open(events, i),
    )
}

/// Every step keeps the state in order.
pub proof fn lemma_history_wf<H>(start: super::shared::SharedView<H>, events: Seq<Event<H>>)
    requires
        is_history(start, events),
    ensures
        run(start, events).wf(),
    decreases events.len(),
{
    if events.len() > 0 {
        let before = run(start, events.drop_last());
        lemma_history_wf(start, events.drop_last());
        match events.last() {
            Event::Registered(protocol) => {
                super::shared::lemma_with_protocol_wf(before, protocol);
            },
            Event::Opened { node, peer, substream } => {
                super::shared::lemma_with_substream_wf(before, node, peer, substream);
            },
            Event::Closed { peer, channel } => {
                super::shared::lemma_without_substream_wf(before, peer, channel);
            },
        }
    }
}

/// A node is a peer exactly if some step made it that peer.
proof fn lemma_nodes_of_history<H>(
    start: super::shared::SharedView<H>,
    events: Seq<Event<H>>,
    node: Seq<u8>,
    peer: PeerId,
)
    requires
        is_history(start, events),
    ensures
        (run(start, events).nodes.contains_key(node) && run(start, events).nodes[node] == peer)
            <==> exists|i: int| #[trigger] connects(events, i, node, peer),
    decreases events.len(),
{
    let after = run(start, events);
    if events.len() > 0 {
        let shorter = events.drop_last();
        let before = run(start, shorter);
        let n = events.len() - 1;
        lemma_nodes_of_history(start, shorter, node, peer);
        if exists|i: int| #[trigger] connects(events, i, node, peer) {
            let i = choose|i: int| #[trigger] connects(events, i, node, peer);
            if i < n {
                assert(connects(shorter, i, node, peer));
                assert(before.nodes.contains_key(node) && before.nodes[node] == peer);
            }
        }
        if after.nodes.contains_key(node) && after.nodes[node] == peer {
            if before.nodes.contains_key(node) && before.nodes[node] == peer {
                let i = choose|i: int| #[trigger] connects(shorter, i, node, peer);
                assert(connects(events, i, node, peer));
            } else {
                assert(connects(events, n, node, peer));
            }
        }
    }
}

/// One more step leaves a substream open unless it closes it.
proof fn lemma_still_open<H>(events: Seq<Event<H>>, i: int)
    requires
        0 <= i < events.len() - 1,
    ensures
        is_still_open(events, i) <==> is_still_open(events.drop_last(), i) && (events[i] matches
            Event::Opened { peer, substream, .. } && events.last() != (Event::<H>::Closed {
            peer,
            channel: substream.1,
        })),
{
    let shorter = events.drop_last();
    if is_still_open(events, i) {
        assert forall|j: int| i < j < shorter.len() implies #[trigger] shorter[j] == events[j] by {}
        assert(events[events.len() - 1] == events.last());
    }
    if is_still_open(shorter, i) {
        assert forall|j: int| i < j < shorter.len() implies #[trigger] events[j] == shorter[j] by {}
    }
}

/// A substream is noted for a peer exactly if some step opened it and none has ended it since.
proof fn lemma_substreams_of_history<H>(
    start: super::shared::SharedView<H>,
    events: Seq<Event<H>>,
    peer: PeerId,
    substream: (ProtocolId, usize, u8),
)
    requires
        is_history(start, events),
    ensures
        (run(start, events).peers.contains_key(peer) && run(start, events).peers[peer].contains(
            substream,
        )) <==> exists|i: int| #[trigger] opens(events, i, peer, substream),
    decreases events.len(),
{
    let after = run(start, events);
    if events.len() > 0 {
        let shorter = events.drop_last();
        let before = run(start, shorter);
        let n = events.len() - 1;
        let noted = before.peers.contains_key(peer) && before.peers[peer].contains(substream);
        lemma_substreams_of_history(start, shorter, peer, substream);
        let kept = noted && events.last() != (Event::<H>::Closed { peer, channel: substream.1 });
        let added = events.last() matches Event::Opened { peer: p, substream: s, .. } && p == peer
            && s == substream;
        // What is noted after the step.
        assert((after.peers.contains_key(peer) && after.peers[peer].contains(substream)) <==> kept
            || added) by {
            match events.last() {
                Event::Registered(_) => {},
                Event::Opened { peer: p, substream: s, .. } => {
                    if p == peer {
                        let list = if before.peers.contains_key(peer) {
                            before.peers[peer]
                        } else {
                            Seq::empty()
                        };
                        lemma_push_contains(list, s, substream);
                    }
                },
                Event::Closed { peer: p, channel } => {
                    if p == peer && before.peers.contains_key(peer) {
                        super::shared::lemma_other_substreams(
                            before.peers[peer],
                            channel,
                            substream,
                        );
                    }
                },
            }
        }
        // What the steps say.
        if exists|i: int| #[trigger] opens(events, i, peer, substream) {
            let i = choose|i: int| #[trigger] opens(events, i, peer, substream);
            if i < n {
                lemma_still_open(events, i);
                assert(opens(shorter, i, peer, substream));
            }
        }
        if kept {
            let i = choose|i: int| #[trigger] opens(shorter, i, peer, substream);
            lemma_still_open(events, i);
            assert(opens(events, i, peer, substream));
        }
        if added {
            assert(is_still_open(events, n));
            assert(opens(events, n, peer, substream));
        }
    }
}

/// One more element adds itself to those of a list.
proof fn lemma_push_contains(
    list: Seq<(ProtocolId, usize, u8)>,
    added: (ProtocolId, usize, u8),
    substream: (ProtocolId, usize, u8),
)
    ensures
        list.push(added).contains(substream) <==> list.contains(substream) || substream == added,
{
    let longer = list.push(added);
    if list.contains(substream) {
        let k = choose|k: int| 0 <= k < list.len() && list[k] == substream;
        assert(longer[k] == substream);
    }
    assert(longer[list.len() as int] == added);
}

/// A node keeps its peer identifier over all its protocols and reconnections, and no other node ever
/// gets it: of any two steps that open a substream, whatever was opened and closed before and in
/// between, the peers are the same exactly if the nodes are.
pub proof fn law_node_keeps_its_peer<H>(
    start: super::shared::SharedView<H>,
    events: Seq<Event<H>>,
    i: int,
    node1: Seq<u8>,
    peer1: PeerId,
    j: int,
    node2: Seq<u8>,
    peer2: PeerId,
)
    requires
        is_history(start, events),
        connects(events, i, node1, peer1),
        connects(events, j, node2, peer2),
    ensures
        peer1 == peer2 <==> node1 == node2,
{
    lemma_history_wf(start, events);
    lemma_nodes_of_history(start, events, node1, peer1);
    lemma_nodes_of_history(start, events, node2, peer2);
}

/// A peer is connected exactly if some step opened a substream of it that has not ended since.
pub proof fn law_connected_peers_have_open_substreams<H>(
    start: super::shared::SharedView<H>,
    events: Seq<Event<H>>,
    peer: PeerId,
)
    requires
        is_history(start, events),
    ensures
        run(start, events).is_connected(peer) <==> exists|i: int, node: Seq<u8>| #[trigger]
            connects(events, i, node, peer) && is_still_open(events, i),
{
    let after = run(start, events);
    if after.is_connected(peer) {
        let substream = after.peers[peer][0];
        assert(after.peers[peer].contains(substream));
        lemma_substreams_of_history(start, events, peer, substream);
        let i = choose|i: int| #[trigger] opens(events, i, peer, substream);
        let node = events[i]->node;
        assert(connects(events, i, node, peer));
    }
    if exists|i: int, node: Seq<u8>| #[trigger]
        connects(events, i, node, peer) && is_still_open(events, i) {
        let (i, node) = choose|i: int, node: Seq<u8>| #[trigger]
            connects(events, i, node, peer) && is_still_open(events, i);
        let substream = events[i]->substream;
        assert(opens(events, i, peer, substream));
        lemma_substreams_of_history(start, events, peer, substream);
        assert(after.peers[peer].len() > 0);
    }
}

/// Whatever protocols were registered and whatever substreams were opened and closed, the list of the
/// connected peers holds the peers of the nodes that have an open substream, each once however many
/// it has, and nothing else; so it is as long as there are such nodes. It is empty where no
/// substream was ever opened.
pub proof fn law_connected_peers_over_a_history<H>(
    start: super::shared::SharedView<H>,
    events: Seq<Event<H>>,
    list: Seq<PeerId>,
)
    requires
        is_history(start, events),
        list.no_duplicates(),
        forall|peer: PeerId| list.contains(peer) <==> run(start, events).is_connected(peer),
    ensures
        forall|peer: PeerId|
            list.contains(peer) <==> exists|i: int, node: Seq<u8>| #[trigger]
                connects(events, i, node, peer) && is_still_open(events, i),
        list.len() == connected_nodes(events).len(),
        (forall|i: int| 0 <= i < events.len() ==> !(#[trigger] events[i] is Opened)) ==> list.len()
            == 0,
{
    let after = run(start, events);
    lemma_history_wf(start, events);
    assert forall|peer: PeerId|
        list.contains(peer) <==> exists|i: int, node: Seq<u8>| #[trigger]
            connects(events, i, node, peer) && is_still_open(events, i) by {
        law_connected_peers_have_open_substreams(start, events, peer);
    }
    let node_of = |peer: PeerId|
        choose|node: Seq<u8>| #[trigger]
            after.nodes.contains_key(node) && after.nodes[node] == peer;
    let nodes = list.map_values(node_of);
    assert forall|k: int| 0 <= k < list.len() implies after.nodes.contains_key(
        #[trigger] nodes[k],
    ) && after.nodes[nodes[k]] == list[k] by {
        assert(list.contains(list[k]));
        assert(after.peers.contains_key(list[k]));
    }
    assert(nodes.no_duplicates());
    assert forall|node: Seq<u8>| nodes.to_set().contains(node) == connected_nodes(events).contains(
        node,
    ) by {
        if nodes.contains(node) {
            let k = choose|k: int| 0 <= k < nodes.len() && nodes[k] == node;
            let peer = list[k];
            assert(list.contains(peer));
            let (i, n) = choose|i: int, n: Seq<u8>| #[trigger]
                connects(events, i, n, peer) && is_still_open(events, i);
            lemma_nodes_of_history(start, events, n, peer);
            assert(n == node);
            assert(connects(events, i, node, peer) && is_still_open(events, i));
        }
        if connected_nodes(events).contains(node) {
            let (i, peer) = choose|i: int, peer: PeerId| #[trigger]
                connects(events, i, node, peer) && is_still_open(events, i);
            lemma_nodes_of_history(start, events, node, peer);
            assert(connects(events, i, node, peer) && is_still_open(events, i));
            assert(list.contains(peer));
            let k = choose|k: int| 0 <= k < list.len() && list[k] == peer;
            assert(nodes[k] == node);
        }
    }
    assert(nodes.to_set() =~= connected_nodes(events));
    nodes.unique_seq_to_set();
    if list.len() > 0 {
        assert(list.contains(list[0]));
        let (i, n) = choose|i: int, n: Seq<u8>| #[trigger]
            connects(events, i, n, list[0]) && is_still_open(events, i);
        assert(events[i] is Opened);
    }
}

/// An upgrade that gives a substream is a step that can happen; any other upgrade changes nothing.
pub proof fn law_upgrade_is_a_step<H>(
    before: super::shared::SharedView<H>,
    index: usize,
    version: u8,
    node: Option<Seq<u8>>,
    channel: usize,
    r: Result<Option<super::substream::Substream>, super::substream::UpgradeError>,
    after: super::shared::SharedView<H>,
)
    requires
        super::substream::upgrades(before, index, version, node, channel, r, after),
    ensures
        match r {
            Ok(Some(substream)) => {
                let event = Event::<H>::Opened {
                    node: node->0,
                    peer: substream.peer,
                    substream: (substream.protocol, channel, version),
                };
                before.allows(event) && after == before.after(event)
            },
            _ => after == before,
        },
{
    if let Ok(Some(substream)) = r {
        super::shared::lemma_is_registered(before.protocols, substream.protocol, index as int);
    }
}

} // verus!
