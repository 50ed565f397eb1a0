//! A substream that speaks a registered protocol: how it opens, and what its messages cause.
use vstd::prelude::*;

use super::address::{node_of_addr, parse_remote_addr};
use super::context::NetworkContextImpl;
use super::shared::Shared;
use crate::outside::{bytes_mut_as_ref, bytes_mut_split_off};
use crate::peer_id::PeerId;
use crate::types::{PacketId, ProtocolId};

verus! {

/// An open substream.
#[derive(Debug, Copy, Clone, PartialEq, Eq)]
pub struct Substream {
    /// The index of the protocol that is spoken.
    pub index: usize,
    /// The protocol that is spoken.
    pub protocol: ProtocolId,
    /// The number of different packet identifiers of the protocol.
    pub packet_count: u8,
    /// The peer at the other end.
    pub peer: PeerId,
    /// The channel that leads to the substream.
    pub channel: usize,
}

/// Why a substream was not opened.
#[derive(Debug, Copy, Clone, PartialEq, Eq, Structural)]
pub enum UpgradeError {
    /// No protocol is registered at the index.
    NotRegistered,
}

/// What a substream handles next.
pub enum Message {
    /// A packet came from the peer.
    RecvSocket(bytes::BytesMut),
    /// A packet shall go to the peer. Its identifier is the first byte.
    SendReq(bytes::Bytes),
    /// The substream shall be closed.
    Disconnect,
}

/// Why a packet is ignored.
#[derive(Debug, Copy, Clone, PartialEq, Eq, Structural)]
pub enum IgnoreReason {
    /// The packet is empty, so that it has no identifier.
    Empty,
    /// The protocol has no packet with this identifier.
    TooLarge(PacketId),
}

/// What a message causes.
pub enum LoopStep {
    /// The packet is ignored; the substream goes on.
    Ignore(IgnoreReason),
    /// The handler is given a packet; the substream goes on.
    Read {
        /// Names the kind of packet.
        packet_id: PacketId,
        /// What follows the identifier.
        data: bytes::BytesMut,
    },
    /// The bytes are written to the peer; the substream goes on.
    Write(bytes::Bytes),
    /// The substream ends, and is to be closed.
    Break,
}

/// What a message causes, of a protocol with a number of packet identifiers. No message means that
/// both sources of messages have ended.
pub open spec fn step_of(message: Option<Message>, packet_count: u8, step: LoopStep) -> bool {
    match message {
        Some(Message::RecvSocket(packet)) => {
            let received = crate::outside::bytes_mut_view(packet);
            if received.len() == 0 {
                step == LoopStep::Ignore(IgnoreReason::Empty)
            } else if received[0] >= packet_count {
                step == LoopStep::Ignore(IgnoreReason::TooLarge(received[0]))
            } else {
                step matches LoopStep::Read { packet_id, data } && super::context::frame(
                    packet_id,
                    crate::outside::bytes_mut_view(data),
                ) == received
            }
        },
        Some(Message::SendReq(packet)) => step == LoopStep::Write(packet),
        Some(Message::Disconnect) | None => step is Break,
    }
}

/// What a handler is given is what the other side sent: the bytes of a packet determine its
/// identifier and its data.
pub proof fn law_packets_arrive_as_sent(
    sent_id: PacketId,
    sent_data: Seq<u8>,
    read_id: PacketId,
    read_data: Seq<u8>,
)
    requires
        super::context::frame(read_id, read_data) == super::context::frame(sent_id, sent_data),
    ensures
        read_id == sent_id,
        read_data == sent_data,
{
    assert(super::context::frame(read_id, read_data)[0] == read_id);
    assert(super::context::frame(sent_id, sent_data)[0] == sent_id);
    assert(super::context::frame(read_id, read_data).skip(1) =~= read_data);
    assert(super::context::frame(sent_id, sent_data).skip(1) =~= sent_data);
}

impl<H> Shared<H> {
    /// Opens a substream with the node at a remote address, to speak a version of the protocol at
    /// an index; the substream gets its messages from a channel. An address that is not
    /// `/p2p/<node>` is ignored: then there is no substream.
    pub fn upgrade(
        &mut self,
        index: usize,
        version: u8,
        remote_addr: &multiaddr::Multiaddr,
        channel: usize,
    ) -> (r: Result<Option<Substream>, UpgradeError>)
        requires
            old(self)@.wf(),
            index < old(self)@.protocols.len() ==> crate::outside::multiaddr_components(
                crate::outside::multiaddr_bytes(*remote_addr),
            ) is Some,
        ensures
            final(self)@.wf(),
            upgrades(
                old(self)@,
                index,
                version,
                super::address::remote_node(*remote_addr),
                channel,
                r,
                final(self)@,
            ),
    {
        if index >= self.num_protocols() {
            return Err(UpgradeError::NotRegistered);
        }
        let node_id = node_of_addr(remote_addr);
        self.upgrade_node(index, version, node_id, channel)
    }

    /// Opens a substream as `upgrade` does, with the remote address in text form. A text that is no
    /// multiaddress, or whose components cannot be read, is ignored like any other address that is
    /// not `/p2p/<node>`.
    pub fn upgrade_text(
        &mut self,
        index: usize,
        version: u8,
        remote_addr: &str,
        channel: usize,
    ) -> (r: Result<Option<Substream>, UpgradeError>)
        requires
            old(self)@.wf(),
        ensures
            final(self)@.wf(),
            upgrades(
                old(self)@,
                index,
                version,
                super::address::node_of_text(remote_addr@),
                channel,
                r,
                final(self)@,
            ),
    {
        match parse_remote_addr(remote_addr) {
            Some(addr) => self.upgrade(index, version, &addr, channel),
            None => self.upgrade_node(index, version, None, channel),
        }
    }

    /// Opens a substream with a node, if the remote address named one.
    pub fn upgrade_node(
        &mut self,
        index: usize,
        version: u8,
        node_id: Option<Vec<u8>>,
        channel: usize,
    ) -> (r: Result<Option<Substream>, UpgradeError>)
        requires
            old(self)@.wf(),
        ensures
            final(self)@.wf(),
            upgrades(
                old(self)@,
                index,
                version,
                match node_id {
                    Some(id) => Some(id@),
                    None => None,
                },
                channel,
                r,
                final(self)@,
            ),
    {
        let (protocol, packet_count): (ProtocolId, u8) = match self.protocol_at(index) {
            Some(registered) => (registered.id, registered.packet_count),
            None => {
                return Err(UpgradeError::NotRegistered);
            },
        };
        match node_id {
            None => Ok(None),
            Some(node_id) => {
                proof {
                    super::shared::lemma_is_registered(self@.protocols, protocol, index as int);
                }
                let peer: PeerId = self.open_substream(node_id, protocol, channel, version);
                Ok(Some(Substream { index, protocol, packet_count, peer, channel }))
            },
        }
    }
}

/// How opening a substream with the node of a remote address, if it has one, changes the state, and
/// what comes out.
pub open spec fn upgrades<H>(
    before: super::shared::SharedView<H>,
    index: usize,
    version: u8,
    node: Option<Seq<u8>>,
    channel: usize,
    r: Result<Option<Substream>, UpgradeError>,
    after: super::shared::SharedView<H>,
) -> bool {
    if index >= before.protocols.len() {
        &&& r == Err::<Option<Substream>, UpgradeError>(UpgradeError::NotRegistered)
        &&& after == before
    } else {
        match node {
            None => {
                &&& r == Ok::<Option<Substream>, UpgradeError>(None)
                &&& after == before
            },
            Some(node) => {
                &&& r matches Ok(Some(substream))
                &&& substream.index == index
                &&& substream.channel == channel
                &&& substream.is_of(before)
                &&& before.admits(node, substream.peer)
                &&& after == before.with_substream(
                    node,
                    substream.peer,
                    (substream.protocol, channel, version),
                )
            },
        }
    }
}

impl<H> super::shared::SharedView<H> {
    /// Whether a substream is open.
    pub open spec fn is_open(self, substream: Substream) -> bool {
        &&& substream.is_of(self)
        &&& self.peers.contains_key(substream.peer)
        &&& exists|version: u8| #[trigger]
            self.peers[substream.peer].contains((substream.protocol, substream.channel, version))
    }

    /// Whether the handler of a substream's protocol can send to the substream's peer, and is found
    /// when a timer is set.
    pub open spec fn can_answer(self, substream: Substream) -> bool {
        &&& self.substream(substream.peer, substream.protocol) is Some
        &&& self.is_registered(substream.protocol)
    }
}

impl Substream {
    /// Whether the substream speaks a registered protocol.
    pub open spec fn is_of<H>(self, shared: super::shared::SharedView<H>) -> bool {
        &&& self.index < shared.protocols.len()
        &&& self.protocol == shared.protocols[self.index as int].id
        &&& self.packet_count == shared.protocols[self.index as int].packet_count
    }

    /// The handler of the protocol, which is told that the peer has connected when the substream is
    /// open, and is given its packets from then on.
    pub fn handler<'a, H>(&self, shared: &'a Shared<H>) -> (r: &'a H)
        requires
            self.is_of(shared@),
        ensures
            *r == shared@.protocols[self.index as int].handler,
    {
        match shared.protocol_at(self.index) {
            Some(registered) => &registered.handler,
            None => vstd::pervasive::unreached(),
        }
    }

    /// The context in which the handler acts.
    pub fn context<'a, H>(&self, shared: &'a Shared<H>) -> (r: NetworkContextImpl<'a, H>)
        ensures
            r.inner == shared,
            r.protocol == self.protocol,
            r.current_peer == Some(self.peer),
    {
        NetworkContextImpl { inner: shared, protocol: self.protocol, current_peer: Some(self.peer) }
    }

    /// Decides what a message causes; no message means that both sources of messages have ended.
    pub fn step(&self, message: Option<Message>) -> (r: LoopStep)
        ensures
            step_of(message, self.packet_count, r),
    {
        match message {
            Some(Message::RecvSocket(packet)) => {
                let mut packet = packet;
                let ghost received = crate::outside::bytes_mut_view(packet);
                let bytes = bytes_mut_as_ref(&packet);
                if bytes.len() == 0 {
                    return LoopStep::Ignore(IgnoreReason::Empty);
                }
                let packet_id: PacketId = bytes[0];
                if packet_id >= self.packet_count {
                    return LoopStep::Ignore(IgnoreReason::TooLarge(packet_id));
                }
                let data = bytes_mut_split_off(&mut packet, 1);
                assert(super::context::frame(packet_id, received.skip(1)) =~= received);
                LoopStep::Read { packet_id, data }
            },
            Some(Message::SendReq(packet)) => LoopStep::Write(packet),
            Some(Message::Disconnect) => LoopStep::Break,
            None => LoopStep::Break,
        }
    }
}

/// The substream that an upgrade gives is open.
pub proof fn law_upgrade_opens_the_substream<H>(
    before: super::shared::SharedView<H>,
    index: usize,
    version: u8,
    node: Option<Seq<u8>>,
    channel: usize,
    substream: Substream,
    after: super::shared::SharedView<H>,
)
    requires
        upgrades(
            before,
            index,
            version,
            node,
            channel,
            Ok::<Option<Substream>, UpgradeError>(Some(substream)),
            after,
        ),
    ensures
        after.is_open(substream),
{
    let list = after.peers[substream.peer];
    assert(list.last() == (substream.protocol, channel, version));
    assert(list[list.len() - 1] == (substream.protocol, channel, version));
    assert(list.contains((substream.protocol, substream.channel, version)));
}

/// Whoever chooses an advertised name of a registered protocol, and upgrades to what is chosen, speaks
/// the protocol and the version that the name is made of.
pub proof fn law_upgrade_speaks_what_was_chosen<H>(
    before: super::shared::SharedView<H>,
    k: int,
    id: usize,
    index: usize,
    version: u8,
    node: Option<Seq<u8>>,
    channel: usize,
    r: Result<Option<Substream>, UpgradeError>,
    after: super::shared::SharedView<H>,
)
    requires
        before.wf(),
        0 <= k < super::upgrade::all_names(before.protocols).len(),
        super::upgrade::all_names(before.protocols)[k].1 == (id as int, version),
        super::upgrade::target_of(id, version) == super::upgrade::UpgradeTarget::Custom(
            index,
            version,
        ),
        upgrades(before, index, version, node, channel, r, after),
    ensures
        r is Ok,
        node is Some <==> r->Ok_0 is Some,
        r matches Ok(Some(substream)) ==> {
            &&& super::upgrade::all_names(before.protocols)[k].0 == super::protocol::base_name(
                substream.protocol,
            ) + super::protocol::decimal(version)
            &&& after.peers[substream.peer].last() == (substream.protocol, channel, version)
        },
{
    super::upgrade::law_names_lead_to_their_protocols(before.protocols, k, id, version);
}

/// Whoever handles what happens on an open substream can answer, and can set timers: the session has
/// not expired, the peer has a substream for the protocol, and the protocol has a handler.
pub proof fn law_handlers_can_answer<H>(s: super::shared::SharedView<H>, substream: Substream)
    requires
        s.wf(),
        s.is_open(substream),
    ensures
        s.is_connected(substream.peer),
        s.can_answer(substream),
{
    let version = choose|version: u8| #[trigger]
        s.peers[substream.peer].contains((substream.protocol, substream.channel, version));
    let list = s.peers[substream.peer];
    let i = choose|i: int|
        0 <= i < list.len() && list[i] == (substream.protocol, substream.channel, version);
    super::shared::lemma_substream_is_found(list, substream.protocol, i);
    super::shared::lemma_is_registered(s.protocols, substream.protocol, substream.index as int);
}

/// An open substream stays open when a protocol is registered, when another substream is opened, and
/// when another substream is closed.
pub proof fn law_substreams_stay_open<H>(
    s: super::shared::SharedView<H>,
    substream: Substream,
    added: super::protocol::ProtocolView<H>,
    node: Seq<u8>,
    peer: PeerId,
    opened: (ProtocolId, usize, u8),
    channel: usize,
)
    requires
        s.wf(),
        s.is_open(substream),
    ensures
        s.with_protocol(added).is_open(substream),
        s.admits(node, peer) ==> s.with_substream(node, peer, opened).is_open(substream),
        peer != substream.peer || channel != substream.channel ==> s.without_substream(
            peer,
            channel,
        ).is_open(substream),
{
    let version = choose|version: u8| #[trigger]
        s.peers[substream.peer].contains((substream.protocol, substream.channel, version));
    let entry = (substream.protocol, substream.channel, version);
    let list = s.peers[substream.peer];
    let i = choose|i: int| 0 <= i < list.len() && list[i] == entry;
    let registered = s.with_protocol(added);
    assert(registered.protocols[substream.index as int] == s.protocols[substream.index as int]);
    assert(registered.peers[substream.peer].contains(entry));
    if s.admits(node, peer) {
        let more = s.with_substream(node, peer, opened);
        assert(more.peers[substream.peer][i] == entry);
        assert(more.peers[substream.peer].contains(entry));
    }
    if peer != substream.peer || channel != substream.channel {
        let fewer = s.without_substream(peer, channel);
        if s.peers.contains_key(peer) {
            super::shared::law_closed_substream_is_gone(
                s,
                peer,
                channel,
                entry,
                substream.peer,
            );
        }
        assert(fewer.peers[substream.peer].contains(entry));
    }
}

} // verus!
