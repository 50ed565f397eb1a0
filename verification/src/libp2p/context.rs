//! What a protocol handler can do with the libp2p backend.
use vstd::prelude::*;

use super::shared::Shared;
use crate::outside::{bytes_extend, bytes_with_capacity};
use crate::peer_id::PeerId;
use crate::types::{PacketId, ProtocolId, SessionInfo, TimerToken};

verus! {

/// The context in which a handler of a protocol acts, as long as it reads the shared state.
pub struct NetworkContextImpl<'a, H> {
    /// The state of the backend.
    pub inner: &'a Shared<H>,
    /// The protocol of the handler.
    pub protocol: ProtocolId,
    /// The peer whose packet is being handled, if one is.
    pub current_peer: Option<PeerId>,
}

/// A message to be put on a channel.
pub struct Outgoing {
    /// The channel of the substream.
    pub channel: usize,
    /// What the substream shall send.
    pub message: bytes::Bytes,
}

/// A timer to be set.
pub struct TimerRequest<'a, H> {
    /// Gets told when the time is over.
    pub handler: &'a H,
    /// The protocol of the handler.
    pub protocol: ProtocolId,
    /// Names the timer.
    pub token: TimerToken,
    /// After how many milliseconds the time is over.
    pub ms: u64,
}

/// A packet as it stands on the network: its identifier, then its data.
pub open spec fn frame(packet_id: PacketId, data: Seq<u8>) -> Seq<u8> {
    seq![packet_id] + data
}

impl<'a, H> NetworkContextImpl<'a, H> {
    /// Sends a packet of the handler's protocol.
    pub fn send(&self, peer: PeerId, packet_id: PacketId, data: Vec<u8>) -> (r: Outgoing)
        requires
            self.inner@.substream(peer, self.protocol) is Some,
            data@.len() < isize::MAX,
        ensures
            Some(r.channel) == self.inner@.channel(peer, self.protocol),
            crate::outside::bytes_view(r.message) == frame(packet_id, data@),
    {
        self.send_protocol(self.protocol, peer, packet_id, data)
    }

    /// Sends a packet of any protocol. The peer has to have opened a substream for the protocol.
    pub fn send_protocol(
        &self,
        protocol: ProtocolId,
        peer: PeerId,
        packet_id: PacketId,
        data: Vec<u8>,
    ) -> (r: Outgoing)
        requires
            self.inner@.substream(peer, protocol) is Some,
            data@.len() < isize::MAX,
        ensures
            Some(r.channel) == self.inner@.channel(peer, protocol),
            crate::outside::bytes_view(r.message) == frame(packet_id, data@),
    {
        let channel: usize = match self.inner.find_substream(peer, &protocol) {
            Some(substream) => substream.1,
            None => vstd::pervasive::unreached(),
        };
        let mut message = bytes_with_capacity(1 + data.len());
        let head: [u8; 1] = [packet_id];
        bytes_extend(&mut message, head.as_slice());
        bytes_extend(&mut message, data.as_slice());
        assert(crate::outside::bytes_view(message) =~= frame(packet_id, data@));
        Outgoing { channel, message }
    }

    /// Answers the peer whose packet is being handled.
    pub fn respond(&self, packet_id: PacketId, data: Vec<u8>) -> (r: Outgoing)
        requires
            self.current_peer is Some,
            self.inner@.substream(self.current_peer->0, self.protocol) is Some,
            data@.len() < isize::MAX,
        ensures
            Some(r.channel) == self.inner@.channel(self.current_peer->0, self.protocol),
            crate::outside::bytes_view(r.message) == frame(packet_id, data@),
    {
        match self.current_peer {
            Some(peer) => self.send_protocol(self.protocol, peer, packet_id, data),
            None => vstd::pervasive::unreached(),
        }
    }

    /// Whether the peer whose packet is being handled has left.
    pub fn is_expired(&self) -> (r: bool)
        ensures
            r == match self.current_peer {
                Some(peer) => !self.inner@.is_connected(peer),
                None => false,
            },
    {
        match self.current_peer {
            Some(peer) => !self.inner.is_connected(peer),
            None => false,
        }
    }

    /// Asks for the handler to be told when some time is over.
    pub fn register_timer(&self, token: TimerToken, ms: u64) -> (r: TimerRequest<'a, H>)
        requires
            self.inner@.is_registered(self.protocol),
        ensures
            *r.handler == self.inner@.protocol(self.protocol).handler,
            r.protocol == self.protocol,
            r.token == token,
            r.ms == ms,
    {
        match self.inner.find_protocol(&self.protocol) {
            Some(registered) => TimerRequest {
                handler: &registered.handler,
                protocol: self.protocol,
                token,
                ms,
            },
            None => vstd::pervasive::unreached(),
        }
    }

    /// The client version of a peer, which the backend does not learn.
    pub fn peer_client_version(&self, peer: PeerId) -> (r: String)
        ensures
            r@ == Seq::<char>::empty(),
    {
        String::new()
    }

    /// What is known of the session with a peer: nothing but the version of the base protocol.
    pub fn session_info(&self, peer: PeerId) -> (r: Option<SessionInfo>)
        ensures
            r matches Some(info) && info.id is None && info.client_version@ == Seq::<char>::empty()
                && info.protocol_version == 1 && info.capabilities@.len() == 0
                && info.peer_capabilities@.len() == 0 && info.ping_ms is None && !info.originated
                && info.remote_address@ == Seq::<char>::empty() && info.local_address@ == Seq::<
                char,
            >::empty(),
    {
        Some(
            SessionInfo {
                id: None,
                client_version: String::new(),
                protocol_version: 1,
                capabilities: Vec::new(),
                peer_capabilities: Vec::new(),
                ping_ms: None,
                originated: false,
                remote_address: String::new(),
                local_address: String::new(),
            },
        )
    }

    /// The version of a protocol that is spoken with a peer.
    pub fn protocol_version(&self, protocol: ProtocolId, peer: PeerId) -> (r: Option<u8>)
        ensures
            r == self.inner@.version(peer, protocol),
    {
        match self.inner.find_substream(peer, &protocol) {
            Some(substream) => Some(substream.2),
            None => None,
        }
    }

    /// The protocol of the handler.
    pub fn subprotocol_name(&self) -> (r: ProtocolId)
        ensures
            r == self.protocol,
    {
        self.protocol
    }
}

} // verus!
