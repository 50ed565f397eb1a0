//! Peer identifiers of two backends in one range.
//!
//! The identifiers between `0` and `usize::MAX / 2` belong to devp2p, and those between
//! `usize::MAX / 2` and `usize::MAX` belong to libp2p. In order to convert between a libp2p
//! identifier and an exposed one, the bits are inverted.
use vstd::prelude::*;

verus! {

/// Identifies a peer.
pub type PeerId = usize;

/// A peer identifier together with the backend that it belongs to.
#[derive(Debug, Copy, Clone, PartialEq, Eq, Structural)]
pub enum InternalPeerId {
    /// The identifier is the one that devp2p uses.
    Devp2p(PeerId),
    /// The identifier is the one that libp2p uses.
    Libp2p(PeerId),
}

/// The backend and the backend's own identifier behind an exposed identifier: the lower half of
/// the range belongs to devp2p, and the upper half is libp2p counted down from the top.
pub open spec fn ext_to_int(peer_id: PeerId) -> InternalPeerId {
    if peer_id >= usize::MAX / 2 {
        InternalPeerId::Libp2p((usize::MAX - peer_id) as usize)
    } else {
        InternalPeerId::Devp2p(peer_id)
    }
}

impl InternalPeerId {
    /// Whether the backend's own identifier is small enough to have an exposed one.
    pub open spec fn in_range(self) -> bool {
        match self {
            InternalPeerId::Devp2p(peer_id) => peer_id < usize::MAX / 2,
            InternalPeerId::Libp2p(peer_id) => usize::MAX - peer_id >= usize::MAX / 2,
        }
    }
}

/// The exposed identifier of a backend's peer.
pub open spec fn int_to_ext(peer_id: InternalPeerId) -> PeerId {
    match peer_id {
        InternalPeerId::Devp2p(peer_id) => peer_id,
        InternalPeerId::Libp2p(peer_id) => (usize::MAX - peer_id) as usize,
    }
}

/// Inverting the bits of a number counts it down from the top.
proof fn lemma_not(n: usize)
    ensures
        !n == usize::MAX - n,
{
    let top: usize = usize::MAX;
    assert(top <= !0usize) by (bit_vector);
    assert(!n == (!0usize) - n) by (bit_vector);
}

/// Turns an exposed identifier into the backend's own.
pub fn peer_id_ext_to_int(peer_id: PeerId) -> (r: InternalPeerId)
    ensures
        r == ext_to_int(peer_id),
        r.in_range(),
{
    proof {
        lemma_not(peer_id);
    }
    if peer_id >= usize::MAX / 2 {
        InternalPeerId::Libp2p(!peer_id)
    } else {
        InternalPeerId::Devp2p(peer_id)
    }
}

/// Turns a backend's own identifier into the exposed one. An identifier that is too large has none.
pub fn peer_id_int_to_ext(peer_id: InternalPeerId) -> (r: PeerId)
    requires
        peer_id.in_range(),
    ensures
        r == int_to_ext(peer_id),
{
    match peer_id {
        InternalPeerId::Devp2p(peer_id) => peer_id,
        InternalPeerId::Libp2p(peer_id) => {
            proof {
                lemma_not(peer_id);
            }
            !peer_id
        },
    }
}

/// Every exposed identifier stands for one backend's identifier, from which it is got back.
pub proof fn law_exposed_id_round_trip(peer_id: PeerId)
    ensures
        ext_to_int(peer_id).in_range(),
        int_to_ext(ext_to_int(peer_id)) == peer_id,
{
}

/// Every identifier of a backend that has an exposed one is got back from it, together with its
/// backend.
pub proof fn law_backend_id_round_trip(peer_id: InternalPeerId)
    requires
        peer_id.in_range(),
    ensures
        ext_to_int(int_to_ext(peer_id)) == peer_id,
{
}

/// An identifier of a libp2p peer and the exposed one have inverted bits.
pub proof fn law_libp2p_ids_are_inverted(peer_id: PeerId)
    ensures
        int_to_ext(InternalPeerId::Libp2p(peer_id)) == !peer_id,
{
    lemma_not(peer_id);
}

/// The backends share no exposed identifier, and no two peers of one backend do: the lower half of
/// the range belongs to devp2p and the upper half to libp2p.
pub proof fn law_backends_are_apart(a: InternalPeerId, b: InternalPeerId)
    requires
        a.in_range(),
        b.in_range(),
    ensures
        int_to_ext(a) == int_to_ext(b) ==> a == b,
        a is Devp2p <==> int_to_ext(a) < usize::MAX / 2,
        a is Libp2p <==> int_to_ext(a) >= usize::MAX / 2,
{
}

} // verus!
