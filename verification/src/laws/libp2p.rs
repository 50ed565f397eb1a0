//! The libp2p backend: its state, its substreams, and what handlers can do.
use vstd::prelude::*;

use crate::libp2p::context::{NetworkContextImpl, Outgoing, TimerRequest};
use crate::libp2p::protocol::RegisteredProtocol;
use crate::libp2p::shared::Shared;
use crate::libp2p::substream::{IgnoreReason, LoopStep, Message, Substream};
use crate::peer_id::PeerId;
use crate::types::{PacketId, ProtocolId, SessionInfo, TimerToken};

verus! {

/// Whether a peer's substream at an index is the first of the peer's that speaks a protocol.
pub open spec fn speaks_first<H>(shared: &Shared<H>, peer: PeerId, id: ProtocolId, i: int) -> bool {
    &&& shared@.peers.contains_key(peer)
    &&& 0 <= i < shared@.peers[peer].len()
    &&& shared@.peers[peer][i].0 == id
    &&& forall|j: int| 0 <= j < i ==> (#[trigger] shared@.peers[peer][j]).0 != id
}

/// Whether some substream of a peer speaks a protocol.
pub open spec fn is_spoken<H>(shared: &Shared<H>, peer: PeerId, id: ProtocolId) -> bool {
    shared@.peers.contains_key(peer) && exists|i: int|
        0 <= i < shared@.peers[peer].len() && (#[trigger] shared@.peers[peer][i]).0 == id
}

/// Where a substream of a peer speaks a protocol, there is a first one.
proof fn lemma_first<H>(shared: &Shared<H>, peer: PeerId, id: ProtocolId)
    ensures
        is_spoken(shared, peer, id) ==> shared@.substream(peer, id) is Some,
        shared@.substream(peer, id) matches Some(found) ==> exists|i: int|
            #[trigger] speaks_first(shared, peer, id, i) && shared@.peers[peer][i] == found,
{
    let list = shared@.peers[peer];
    if is_spoken(shared, peer, id) {
        let i = choose|i: int| 0 <= i < list.len() && (#[trigger] list[i]).0 == id;
        crate::libp2p::shared::lemma_substream_is_found(list, id, i);
    }
    if shared@.substream(peer, id) is Some {
        let i = choose|i: int| crate::libp2p::shared::is_first_substream(list, id, i);
        assert(speaks_first(shared, peer, id, i));
    }
}

/// The substream that is found for a protocol is the first of the peer's that speaks it; none is
/// found only where none does.
pub proof fn law_first_substream_is_found<H>(
    shared: &Shared<H>,
    peer: PeerId,
    id: &ProtocolId,
    r: Option<(ProtocolId, usize, u8)>,
)
    requires
        call_ensures(Shared::<H>::find_substream, (shared, peer, id), r),
    ensures
        match r {
            Some(found) => exists|i: int| #[trigger]
                speaks_first(shared, peer, *id, i) && shared@.peers[peer][i] == found,
            None => !is_spoken(shared, peer, *id),
        },
{
    lemma_first(shared, peer, *id);
}

/// Whether a message carries a packet: its identifier, and behind it its data.
pub open spec fn carries(message: bytes::Bytes, packet_id: PacketId, data: Seq<u8>) -> bool {
    &&& crate::outside::bytes_view(message).len() == data.len() + 1
    &&& crate::outside::bytes_view(message)[0] == packet_id
    &&& forall|i: int|
        0 <= i < data.len() ==> #[trigger] data[i] == crate::outside::bytes_view(message)[i + 1]
}

/// A packet of a protocol is put on the channel of a substream of the peer which speaks this very
/// protocol, and arrives there with its identifier and its data.
pub proof fn law_packets_go_through_their_protocol<'a, H>(
    context: &NetworkContextImpl<'a, H>,
    protocol: ProtocolId,
    peer: PeerId,
    packet_id: PacketId,
    data: Vec<u8>,
    r: Outgoing,
)
    requires
        is_spoken(context.inner, peer, protocol),
        call_ensures(
            NetworkContextImpl::<'a, H>::send_protocol,
            (context, protocol, peer, packet_id, data),
            r,
        ),
    ensures
        exists|i: int| #[trigger]
            speaks_first(context.inner, peer, protocol, i) && context.inner@.peers[peer][i].1
                == r.channel,
        carries(r.message, packet_id, data@),
{
    lemma_first(context.inner, peer, protocol);
}

/// A packet that names no protocol is put on the channel of a substream of the peer which speaks the
/// protocol of the handler.
pub proof fn law_packets_go_through_the_handlers_protocol<'a, H>(
    context: &NetworkContextImpl<'a, H>,
    peer: PeerId,
    packet_id: PacketId,
    data: Vec<u8>,
    r: Outgoing,
)
    requires
        is_spoken(context.inner, peer, context.protocol),
        call_ensures(NetworkContextImpl::<'a, H>::send, (context, peer, packet_id, data), r),
    ensures
        exists|i: int| #[trigger]
            speaks_first(context.inner, peer, context.protocol, i)
                && context.inner@.peers[peer][i].1 == r.channel,
        carries(r.message, packet_id, data@),
{
    lemma_first(context.inner, peer, context.protocol);
}

/// An answer is put on the channel of a substream which speaks the protocol of the handler, and of
/// the peer whose packet is being handled.
pub proof fn law_answers_go_to_the_current_peer<'a, H>(
    context: &NetworkContextImpl<'a, H>,
    peer: PeerId,
    packet_id: PacketId,
    data: Vec<u8>,
    r: Outgoing,
)
    requires
        context.current_peer == Some(peer),
        is_spoken(context.inner, peer, context.protocol),
        call_ensures(NetworkContextImpl::<'a, H>::respond, (context, packet_id, data), r),
    ensures
        exists|i: int| #[trigger]
            speaks_first(context.inner, peer, context.protocol, i)
                && context.inner@.peers[peer][i].1 == r.channel,
        carries(r.message, packet_id, data@),
{
    lemma_first(context.inner, peer, context.protocol);
}

/// The version of a protocol that is told is the one that the peer's first substream for it speaks;
/// none is told only where none is spoken.
pub proof fn law_spoken_version_is_told<'a, H>(
    context: &NetworkContextImpl<'a, H>,
    protocol: ProtocolId,
    peer: PeerId,
    r: Option<u8>,
)
    requires
        call_ensures(
            NetworkContextImpl::<'a, H>::protocol_version,
            (context, protocol, peer),
            r,
        ),
    ensures
        match r {
            Some(version) => exists|i: int| #[trigger]
                speaks_first(context.inner, peer, protocol, i) && context.inner@.peers[peer][i].2
                    == version,
            None => !is_spoken(context.inner, peer, protocol),
        },
{
    lemma_first(context.inner, peer, protocol);
}

/// A session has expired exactly if its peer has no open substream any more; outside of a session
/// nothing expires.
pub proof fn law_sessions_expire_with_their_peer<'a, H>(
    context: &NetworkContextImpl<'a, H>,
    r: bool,
    name: ProtocolId,
)
    requires
        call_ensures(NetworkContextImpl::<'a, H>::is_expired, (context,), r),
        call_ensures(NetworkContextImpl::<'a, H>::subprotocol_name, (context,), name),
    ensures
        r <==> (context.current_peer matches Some(peer) && !(context.inner@.peers.contains_key(peer)
            && context.inner@.peers[peer].len() > 0)),
        name == context.protocol,
{
}

/// Of a session and of a client nothing is told but what is known.
pub proof fn law_nothing_is_made_up<'a, H>(
    context: &NetworkContextImpl<'a, H>,
    peer: PeerId,
    client: String,
    session: Option<SessionInfo>,
)
    requires
        call_ensures(NetworkContextImpl::<'a, H>::peer_client_version, (context, peer), client),
        call_ensures(NetworkContextImpl::<'a, H>::session_info, (context, peer), session),
    ensures
        client@ == Seq::<char>::empty(),
        session matches Some(info) && info.id is None && info.client_version@ == Seq::<char>::empty()
            && info.protocol_version == 1 && info.capabilities@.len() == 0
            && info.peer_capabilities@.len() == 0 && info.ping_ms is None && !info.originated
            && info.remote_address@ == Seq::<char>::empty() && info.local_address@ == Seq::<
            char,
        >::empty(),
{
}

/// Whether the registered protocol at an index is the first with an identifier.
pub open spec fn is_first_registered<H>(shared: &Shared<H>, id: ProtocolId, i: int) -> bool {
    &&& 0 <= i < shared@.protocols.len()
    &&& shared@.protocols[i].id == id
    &&& forall|j: int| 0 <= j < i ==> (#[trigger] shared@.protocols[j]).id != id
}

/// Whether some registered protocol has an identifier.
pub open spec fn is_known<H>(shared: &Shared<H>, id: ProtocolId) -> bool {
    exists|i: int| 0 <= i < shared@.protocols.len() && (#[trigger] shared@.protocols[i]).id == id
}

/// Where a protocol with an identifier is registered, there is a first one.
proof fn lemma_known<H>(shared: &Shared<H>, id: ProtocolId)
    ensures
        is_known(shared, id) <==> shared@.is_registered(id),
        shared@.is_registered(id) ==> exists|i: int| #[trigger]
            is_first_registered(shared, id, i) && shared@.protocols[i] == shared@.protocol(id),
{
    if is_known(shared, id) {
        let i = choose|i: int|
            0 <= i < shared@.protocols.len() && (#[trigger] shared@.protocols[i]).id == id;
        crate::libp2p::shared::lemma_is_registered(shared@.protocols, id, i);
    }
    if shared@.is_registered(id) {
        let i = choose|i: int|
            crate::libp2p::shared::is_first_protocol(shared@.protocols, id, i);
        assert(crate::libp2p::shared::is_first_protocol(shared@.protocols, id, i));
        assert(is_first_registered(shared, id, i));
    }
}

/// A protocol is found by its identifier, the first one where there are several, and by its index;
/// it is not found only where there is none. A packet is valid if its protocol is registered and has
/// such a packet.
pub proof fn law_registered_protocols_are_found<H>(
    shared: &Shared<H>,
    id: &ProtocolId,
    packet_id: PacketId,
    index: usize,
    found: Option<&RegisteredProtocol<H>>,
    at: Option<&RegisteredProtocol<H>>,
    count: usize,
    valid: bool,
)
    requires
        call_ensures(Shared::<H>::find_protocol, (shared, id), found),
        call_ensures(Shared::<H>::protocol_at, (shared, index), at),
        call_ensures(Shared::<H>::num_protocols, (shared,), count),
        call_ensures(Shared::<H>::is_valid_packet, (shared, id, packet_id), valid),
    ensures
        match found {
            Some(protocol) => exists|i: int| #[trigger]
                is_first_registered(shared, *id, i) && shared@.protocols[i] == protocol@,
            None => !is_known(shared, *id),
        },
        match at {
            Some(protocol) => index < shared@.protocols.len() && protocol@
                == shared@.protocols[index as int],
            None => index >= shared@.protocols.len(),
        },
        count == shared@.protocols.len(),
        valid <==> exists|i: int| #[trigger]
            is_first_registered(shared, *id, i) && packet_id < shared@.protocols[i].packet_count,
{
    lemma_known(shared, *id);
    if shared@.is_registered(*id) {
        let k = choose|i: int| #[trigger]
            is_first_registered(shared, *id, i) && shared@.protocols[i] == shared@.protocol(*id);
        assert forall|i: int| #[trigger] is_first_registered(shared, *id, i) implies i == k by {
            if i < k {
                assert(shared@.protocols[i].id != *id);
            } else if k < i {
                assert(shared@.protocols[k].id != *id);
            }
        }
    } else {
        assert forall|i: int| !(#[trigger] is_first_registered(shared, *id, i)) by {}
    }
}

/// A registered protocol is seen as it is.
pub proof fn law_protocols_are_seen_as_they_are<H>(protocol: RegisteredProtocol<H>)
    ensures
        protocol@.id == protocol.id,
        protocol@.base_name == crate::outside::bytes_view(protocol.base_name),
        protocol@.supported_versions == protocol.supported_versions@,
        protocol@.packet_count == protocol.packet_count,
        protocol@.handler == protocol.handler,
{
}

/// A timer is set with its token and its time, for the handler of the context's protocol.
pub proof fn law_timers_reach_their_handler<'a, H>(
    context: &NetworkContextImpl<'a, H>,
    token: TimerToken,
    ms: u64,
    r: TimerRequest<'a, H>,
)
    requires
        is_known(context.inner, context.protocol),
        call_ensures(NetworkContextImpl::<'a, H>::register_timer, (context, token, ms), r),
    ensures
        r.token == token,
        r.ms == ms,
        r.protocol == context.protocol,
        exists|i: int| #[trigger]
            is_first_registered(context.inner, context.protocol, i) && *r.handler
                == context.inner@.protocols[i].handler,
{
    lemma_known(context.inner, context.protocol);
}

/// What the other side sends is read: every packet with an identifier that the protocol has reaches
/// the handler, with that identifier and the data behind it. A packet is ignored as empty only if it
/// has no bytes, and as too large only if the protocol has no such packet. What is to be sent is
/// written as it is, and the substream ends when it shall be closed or when nothing comes any more.
pub proof fn law_messages_are_handled(
    substream: &Substream,
    message: Option<Message>,
    r: LoopStep,
)
    requires
        call_ensures(Substream::step, (substream, message), r),
    ensures
        match message {
            Some(Message::RecvSocket(packet)) => {
                let bytes = crate::outside::bytes_mut_view(packet);
                match r {
                    LoopStep::Read { packet_id, data } => bytes.len() > 0 && packet_id == bytes[0]
                        && packet_id < substream.packet_count
                        && crate::outside::bytes_mut_view(data) == bytes.subrange(
                        1,
                        bytes.len() as int,
                    ),
                    LoopStep::Ignore(IgnoreReason::Empty) => bytes.len() == 0,
                    LoopStep::Ignore(IgnoreReason::TooLarge(packet_id)) => bytes.len() > 0
                        && packet_id == bytes[0] && packet_id >= substream.packet_count,
                    _ => false,
                }
            },
            Some(Message::SendReq(packet)) => r matches LoopStep::Write(written) && written == packet,
            Some(Message::Disconnect) => r is Break,
            None => r is Break,
        },
{
    if let Some(Message::RecvSocket(packet)) = message {
        let bytes = crate::outside::bytes_mut_view(packet);
        if let LoopStep::Read { packet_id, data } = r {
            let read = crate::outside::bytes_mut_view(data);
            let frame = crate::libp2p::context::frame(packet_id, read);
            assert(frame[0] == packet_id);
            assert(frame.subrange(1, frame.len() as int) =~= read);
        }
    }
}

/// What one side sends is what the other side reads: the bytes that a handler's packet goes out as
/// are read as a packet with the same identifier and the same data.
pub proof fn law_sent_packets_are_read<'a, H>(
    context: &NetworkContextImpl<'a, H>,
    protocol: ProtocolId,
    peer: PeerId,
    packet_id: PacketId,
    data: Vec<u8>,
    sent: Outgoing,
    writer: &Substream,
    written: LoopStep,
    received: bytes::BytesMut,
    reader: &Substream,
    read: LoopStep,
)
    requires
        call_ensures(
            NetworkContextImpl::<'a, H>::send_protocol,
            (context, protocol, peer, packet_id, data),
            sent,
        ),
        call_ensures(Substream::step, (writer, Some(Message::SendReq(sent.message))), written),
        written matches LoopStep::Write(bytes) && crate::outside::bytes_mut_view(received)
            == crate::outside::bytes_view(bytes),
        call_ensures(Substream::step, (reader, Some(Message::RecvSocket(received))), read),
        packet_id < reader.packet_count,
    ensures
        read matches LoopStep::Read { packet_id: id, data: same } && id == packet_id
            && crate::outside::bytes_mut_view(same) == data@,
{
    law_messages_are_handled(writer, Some(Message::SendReq(sent.message)), written);
    law_messages_are_handled(reader, Some(Message::RecvSocket(received)), read);
    let bytes = crate::outside::bytes_mut_view(received);
    assert(bytes == crate::libp2p::context::frame(packet_id, data@));
    assert(bytes[0] == packet_id);
    assert(bytes.subrange(1, bytes.len() as int) =~= data@);
}

} // verus!
