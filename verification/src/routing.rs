//! Which backend gets a call that concerns a peer, and what the caller is answered.
use vstd::prelude::*;

use crate::peer_id::{peer_id_ext_to_int, peer_id_int_to_ext, InternalPeerId, PeerId};
use crate::types::{Backend, PacketId, ProtocolId, TimerToken};

verus! {

/// The context that a backend handed out for what is being handled.
pub enum Session<'a, C> {
    /// The context is one of devp2p.
    Devp2p(&'a C),
    /// The context is one of libp2p.
    Libp2p(&'a C),
}

/// The context of a session.
pub open spec fn session_context<'a, C>(session: Session<'a, C>) -> &'a C {
    match session {
        Session::Devp2p(context) => context,
        Session::Libp2p(context) => context,
    }
}

/// The session in which a backend handed out a context.
pub open spec fn session_of<'a, C>(backend: Backend, context: &'a C) -> Session<'a, C> {
    match backend {
        Backend::Devp2p => Session::Devp2p(context),
        Backend::Libp2p => Session::Libp2p(context),
    }
}

impl<'a, C> Session<'a, C> {
    /// The session in which a backend handed out a context.
    pub fn new(backend: Backend, context: &'a C) -> (r: Session<'a, C>)
        ensures
            r == session_of(backend, context),
    {
        match backend {
            Backend::Devp2p => Session::Devp2p(context),
            Backend::Libp2p => Session::Libp2p(context),
        }
    }

    /// The context of the session, whichever backend handed it out.
    pub fn context(&self) -> (r: &'a C)
        ensures
            r == session_context(*self),
    {
        match self {
            Session::Devp2p(context) => *context,
            Session::Libp2p(context) => *context,
        }
    }
}

/// A call on the context of the session.
pub struct SessionCall<'a, C, A> {
    /// The context.
    pub context: &'a C,
    /// What to call it with.
    pub arguments: A,
}

/// One of the backends.
pub enum BackendRef<'a, D, L> {
    Devp2p(&'a D),
    Libp2p(&'a L),
}

/// A timer to be set.
pub struct TimerCall<'a, D, L, T> {
    /// The backend that sets it.
    pub service: BackendRef<'a, D, L>,
    /// The protocol in whose context it is set.
    pub protocol: ProtocolId,
    /// Names the timer.
    pub token: TimerToken,
    /// How long it runs.
    pub duration: T,
}

/// What is done with a request for one backend: it is passed on, or it is answered without that.
pub enum Delegate<'a, B, A, R> {
    /// Pass the request on, with these arguments.
    Ask(&'a B, A),
    /// Give this answer.
    Answer(R),
}

impl<'a, B, A, R> Delegate<'a, B, A, R> {
    /// A request for a backend, which is answered as given where the backend is disabled.
    pub open spec fn to(service: Option<&'a B>, arguments: A, absent: R) -> Delegate<'a, B, A, R> {
        match service {
            Some(service) => Delegate::Ask(service, arguments),
            None => Delegate::Answer(absent),
        }
    }

    /// Decides what is done with a request for a backend.
    pub fn new(service: Option<&'a B>, arguments: A, absent: R) -> (r: Delegate<'a, B, A, R>)
        ensures
            r == Delegate::<B, A, R>::to(service, arguments, absent),
    {
        match service {
            Some(service) => Delegate::Ask(service, arguments),
            None => Delegate::Answer(absent),
        }
    }
}

/// A call that concerns a peer.
pub enum PeerCall {
    /// Send a packet of the handler's protocol.
    Send {
        /// Names the kind of packet.
        packet_id: PacketId,
        /// The packet.
        data: Vec<u8>,
    },
    /// Send a packet of any protocol.
    SendProtocol {
        /// The protocol of the packet.
        protocol: ProtocolId,
        /// Names the kind of packet.
        packet_id: PacketId,
        /// The packet.
        data: Vec<u8>,
    },
    /// Disconnect the peer and keep it away.
    DisablePeer,
    /// Disconnect the peer.
    DisconnectPeer,
    /// Ask for the client version.
    PeerClientVersion,
    /// Ask for the session.
    SessionInfo,
    /// Ask for the version of a protocol.
    ProtocolVersion(ProtocolId),
    /// Ask whether the peer is reserved.
    IsReservedPeer,
}

/// Where a call that concerns a peer goes, with the identifier that the peer has there.
pub enum Route<'a, D, L, C> {
    /// To the context of the session, which is one of the peer's backend.
    Session(&'a C, PeerId),
    /// To devp2p.
    Devp2p(&'a D, PeerId),
    /// To libp2p.
    Libp2p(&'a L, PeerId),
    /// Nowhere: the peer's backend is disabled.
    Absent,
}

/// What is done with a call: it is made, or it is answered without being made.
pub enum Step<'a, D, L, C, R> {
    /// Make the call on the context of the session.
    Session {
        /// The context.
        context: &'a C,
        /// The peer, as the backend knows it.
        peer: PeerId,
        /// What to call.
        call: PeerCall,
    },
    /// Make the call on a context that devp2p gives for a protocol.
    Devp2p {
        /// The devp2p service.
        devp2p: &'a D,
        /// The protocol.
        protocol: ProtocolId,
        /// The peer, as devp2p knows it.
        peer: PeerId,
        /// What to call.
        call: PeerCall,
    },
    /// Make the call on a context that libp2p gives for a protocol.
    Libp2p {
        /// The libp2p service.
        libp2p: &'a L,
        /// The protocol.
        protocol: ProtocolId,
        /// The peer, as libp2p knows it.
        peer: PeerId,
        /// What to call.
        call: PeerCall,
    },
    /// Give this answer.
    Answer(R),
}

/// Where a call that concerns a peer goes: to the session if that is one of the peer's backend,
/// otherwise to the backend itself, if it is enabled.
pub open spec fn route_of<'a, D, L, C>(
    devp2p: Option<&'a D>,
    libp2p: Option<&'a L>,
    session: Option<Session<'a, C>>,
    peer: PeerId,
) -> Route<'a, D, L, C> {
    match crate::peer_id::ext_to_int(peer) {
        InternalPeerId::Devp2p(id) => match (session, devp2p) {
            (Some(Session::Devp2p(context)), _) => Route::Session(context, id),
            (_, Some(service)) => Route::Devp2p(service, id),
            (_, None) => Route::Absent,
        },
        InternalPeerId::Libp2p(id) => match (session, libp2p) {
            (Some(Session::Libp2p(context)), _) => Route::Session(context, id),
            (_, Some(service)) => Route::Libp2p(service, id),
            (_, None) => Route::Absent,
        },
    }
}

/// Decides where a call that concerns a peer goes.
pub fn route<'a, D, L, C>(
    devp2p: Option<&'a D>,
    libp2p: Option<&'a L>,
    session: &Option<Session<'a, C>>,
    peer: PeerId,
) -> (r: Route<'a, D, L, C>)
    ensures
        r == route_of(devp2p, libp2p, *session, peer),
{
    match peer_id_ext_to_int(peer) {
        InternalPeerId::Devp2p(id) => match session {
            Some(Session::Devp2p(context)) => Route::Session(*context, id),
            _ => match devp2p {
                Some(service) => Route::Devp2p(service, id),
                None => Route::Absent,
            },
        },
        InternalPeerId::Libp2p(id) => match session {
            Some(Session::Libp2p(context)) => Route::Session(*context, id),
            _ => match libp2p {
                Some(service) => Route::Libp2p(service, id),
                None => Route::Absent,
            },
        },
    }
}

impl<'a, D, L, C> Route<'a, D, L, C> {
    /// What is done with a call that goes this way; where it goes nowhere it is answered as given.
    pub open spec fn step<R>(self, protocol: ProtocolId, call: PeerCall, absent: R) -> Step<
        'a,
        D,
        L,
        C,
        R,
    > {
        match self {
            Route::Session(context, peer) => Step::Session { context, peer, call },
            Route::Devp2p(devp2p, peer) => Step::Devp2p { devp2p, protocol, peer, call },
            Route::Libp2p(libp2p, peer) => Step::Libp2p { libp2p, protocol, peer, call },
            Route::Absent => Step::Answer(absent),
        }
    }

    /// Decides what is done with a call.
    pub fn into_step<R>(self, protocol: ProtocolId, call: PeerCall, absent: R) -> (r: Step<
        'a,
        D,
        L,
        C,
        R,
    >)
        ensures
            r == self.step(protocol, call, absent),
    {
        match self {
            Route::Session(context, peer) => Step::Session { context, peer, call },
            Route::Devp2p(devp2p, peer) => Step::Devp2p { devp2p, protocol, peer, call },
            Route::Libp2p(libp2p, peer) => Step::Libp2p { libp2p, protocol, peer, call },
            Route::Absent => Step::Answer(absent),
        }
    }
}

/// A call never reaches the wrong backend: one that concerns a peer in the lower half of the range
/// goes to a session of devp2p or to devp2p, one that concerns a peer in the upper half goes to a
/// session of libp2p or to libp2p, and with the identifier that the peer has there.
pub proof fn law_calls_reach_their_backend<'a, D, L, C>(
    devp2p: Option<&'a D>,
    libp2p: Option<&'a L>,
    session: Option<Session<'a, C>>,
    peer: PeerId,
)
    ensures
        match route_of(devp2p, libp2p, session, peer) {
            Route::Session(context, id) => session matches Some(s) && (s == Session::Devp2p(context)
                && peer < usize::MAX / 2 && crate::peer_id::int_to_ext(InternalPeerId::Devp2p(id))
                == peer || s == Session::Libp2p(context) && peer >= usize::MAX / 2
                && crate::peer_id::int_to_ext(InternalPeerId::Libp2p(id)) == peer),
            Route::Devp2p(service, id) => devp2p == Some(service) && peer < usize::MAX / 2
                && crate::peer_id::int_to_ext(InternalPeerId::Devp2p(id)) == peer,
            Route::Libp2p(service, id) => libp2p == Some(service) && peer >= usize::MAX / 2
                && crate::peer_id::int_to_ext(InternalPeerId::Libp2p(id)) == peer,
            Route::Absent => (peer < usize::MAX / 2 ==> devp2p is None) && (peer >= usize::MAX / 2
                ==> libp2p is None),
        },
{
}

/// In a session, a peer of the session's backend is reached through the context of the session.
pub proof fn lemma_session_route<'a, D, L, C>(
    devp2p: Option<&'a D>,
    libp2p: Option<&'a L>,
    backend: Backend,
    context: &'a C,
    peer: PeerId,
)
    requires
        peer_of(backend, peer).in_range(),
    ensures
        route_of(
            devp2p,
            libp2p,
            Some(session_of(backend, context)),
            crate::peer_id::int_to_ext(peer_of(backend, peer)),
        ) == Route::<D, L, C>::Session(context, peer),
{
}

/// What a protocol handler is told.
pub enum HandlerEvent<'d> {
    /// The protocol is registered.
    Initialize,
    /// A packet came.
    Read {
        /// The peer that sent it.
        peer: PeerId,
        /// Names the kind of packet.
        packet_id: PacketId,
        /// The packet.
        data: &'d [u8],
    },
    /// A peer connected.
    Connected(PeerId),
    /// A peer disconnected.
    Disconnected(PeerId),
    /// The time of a timer is over.
    Timeout(TimerToken),
}

/// The peer of a backend.
pub open spec fn peer_of(backend: Backend, peer: PeerId) -> InternalPeerId {
    match backend {
        Backend::Devp2p => InternalPeerId::Devp2p(peer),
        Backend::Libp2p => InternalPeerId::Libp2p(peer),
    }
}

impl<'d> HandlerEvent<'d> {
    /// The peer of an event, if it has one.
    pub open spec fn peer(self) -> Option<PeerId> {
        match self {
            HandlerEvent::Read { peer, .. } => Some(peer),
            HandlerEvent::Connected(peer) => Some(peer),
            HandlerEvent::Disconnected(peer) => Some(peer),
            HandlerEvent::Initialize | HandlerEvent::Timeout(_) => None,
        }
    }

    /// Whether the peer of an event, if it has one, has an exposed identifier.
    pub open spec fn in_range(self, backend: Backend) -> bool {
        self.peer() matches Some(peer) ==> peer_of(backend, peer).in_range()
    }

    /// The event of a backend with the exposed identifier of the peer.
    pub open spec fn exposed(self, backend: Backend) -> HandlerEvent<'d> {
        match self {
            HandlerEvent::Read { peer, packet_id, data } => HandlerEvent::Read {
                peer: crate::peer_id::int_to_ext(peer_of(backend, peer)),
                packet_id,
                data,
            },
            HandlerEvent::Connected(peer) => HandlerEvent::Connected(
                crate::peer_id::int_to_ext(peer_of(backend, peer)),
            ),
            HandlerEvent::Disconnected(peer) => HandlerEvent::Disconnected(
                crate::peer_id::int_to_ext(peer_of(backend, peer)),
            ),
            other => other,
        }
    }

    /// Turns an event of a backend into one with the exposed identifier of the peer.
    pub fn into_exposed(self, backend: Backend) -> (r: HandlerEvent<'d>)
        requires
            self.in_range(backend),
        ensures
            r == self.exposed(backend),
    {
        match self {
            HandlerEvent::Initialize => HandlerEvent::Initialize,
            HandlerEvent::Read { peer, packet_id, data } => HandlerEvent::Read {
                peer: expose(backend, peer),
                packet_id,
                data,
            },
            HandlerEvent::Connected(peer) => HandlerEvent::Connected(expose(backend, peer)),
            HandlerEvent::Disconnected(peer) => HandlerEvent::Disconnected(expose(backend, peer)),
            HandlerEvent::Timeout(timer) => HandlerEvent::Timeout(timer),
        }
    }
}

/// The exposed identifier of a backend's peer.
pub fn expose(backend: Backend, peer: PeerId) -> (r: PeerId)
    requires
        peer_of(backend, peer).in_range(),
    ensures
        r == crate::peer_id::int_to_ext(peer_of(backend, peer)),
{
    match backend {
        Backend::Devp2p => peer_id_int_to_ext(InternalPeerId::Devp2p(peer)),
        Backend::Libp2p => peer_id_int_to_ext(InternalPeerId::Libp2p(peer)),
    }
}

/// The exposed identifiers of a backend's peers.
pub open spec fn exposed_peers(backend: Backend, peers: Seq<PeerId>) -> Seq<PeerId> {
    peers.map_values(|peer: PeerId| crate::peer_id::int_to_ext(peer_of(backend, peer)))
}

/// Lists the peers of both backends by their exposed identifiers, those of devp2p first.
pub fn merge_peers(devp2p: &Vec<PeerId>, libp2p: &Vec<PeerId>) -> (r: Vec<PeerId>)
    requires
        forall|i: int|
            0 <= i < devp2p@.len() ==> InternalPeerId::Devp2p(#[trigger] devp2p@[i]).in_range(),
        forall|i: int|
            0 <= i < libp2p@.len() ==> InternalPeerId::Libp2p(#[trigger] libp2p@[i]).in_range(),
    ensures
        r@ == exposed_peers(Backend::Devp2p, devp2p@) + exposed_peers(Backend::Libp2p, libp2p@),
{
    let mut r: Vec<PeerId> = Vec::new();
    append_exposed(&mut r, Backend::Devp2p, devp2p);
    append_exposed(&mut r, Backend::Libp2p, libp2p);
    r
}

/// Appends the peers of a backend by their exposed identifiers.
fn append_exposed(r: &mut Vec<PeerId>, backend: Backend, peers: &Vec<PeerId>)
    requires
        forall|i: int| 0 <= i < peers@.len() ==> peer_of(backend, #[trigger] peers@[i]).in_range(),
    ensures
        final(r)@ == old(r)@ + exposed_peers(backend, peers@),
{
    let ghost before = r@;
    let mut i: usize = 0;
    while i < peers.len()
        invariant
            i <= peers@.len(),
            forall|i: int|
                0 <= i < peers@.len() ==> peer_of(backend, #[trigger] peers@[i]).in_range(),
            r@ == before + exposed_peers(backend, peers@).take(i as int),
        decreases peers@.len() - i,
    {
        r.push(expose(backend, peers[i]));
        assert(exposed_peers(backend, peers@).take(i + 1) =~= exposed_peers(backend, peers@).take(
            i as int,
        ).push(exposed_peers(backend, peers@)[i as int]));
        i = i + 1;
    }
    assert(exposed_peers(backend, peers@).take(i as int) =~= exposed_peers(backend, peers@));
}

/// Where no backend lists a peer twice, no peer occurs twice in the list of all peers, and a peer
/// is listed exactly if its backend lists it.
pub proof fn law_peers_stay_apart(devp2p: Seq<PeerId>, libp2p: Seq<PeerId>, peer: PeerId)
    requires
        forall|i: int|
            0 <= i < devp2p.len() ==> InternalPeerId::Devp2p(#[trigger] devp2p[i]).in_range(),
        forall|i: int|
            0 <= i < libp2p.len() ==> InternalPeerId::Libp2p(#[trigger] libp2p[i]).in_range(),
        devp2p.no_duplicates(),
        libp2p.no_duplicates(),
    ensures
        (exposed_peers(Backend::Devp2p, devp2p) + exposed_peers(
            Backend::Libp2p,
            libp2p,
        )).no_duplicates(),
        (exposed_peers(Backend::Devp2p, devp2p) + exposed_peers(Backend::Libp2p, libp2p)).contains(
            peer,
        ) <==> match crate::peer_id::ext_to_int(peer) {
            InternalPeerId::Devp2p(id) => devp2p.contains(id),
            InternalPeerId::Libp2p(id) => libp2p.contains(id),
        },
{
    let lower = exposed_peers(Backend::Devp2p, devp2p);
    let upper = exposed_peers(Backend::Libp2p, libp2p);
    let all = lower + upper;
    assert forall|i: int| 0 <= i < devp2p.len() implies #[trigger] all[i] == devp2p[i] && all[i]
        < usize::MAX / 2 by {
        assert(InternalPeerId::Devp2p(devp2p[i]).in_range());
    }
    assert forall|i: int| devp2p.len() <= i < all.len() implies #[trigger] all[i] == usize::MAX
        - libp2p[i - devp2p.len()] && all[i] >= usize::MAX / 2 by {
        assert(InternalPeerId::Libp2p(libp2p[i - devp2p.len()]).in_range());
    }
    match crate::peer_id::ext_to_int(peer) {
        InternalPeerId::Devp2p(id) => {
            if devp2p.contains(id) {
                let i = choose|i: int| 0 <= i < devp2p.len() && devp2p[i] == id;
                assert(all[i] == peer);
            }
            if all.contains(peer) {
                let i = choose|i: int| 0 <= i < all.len() && all[i] == peer;
                assert(i < devp2p.len());
                assert(devp2p[i] == id);
            }
        },
        InternalPeerId::Libp2p(id) => {
            if libp2p.contains(id) {
                let i = choose|i: int| 0 <= i < libp2p.len() && libp2p[i] == id;
                assert(all[devp2p.len() + i] == peer);
            }
            if all.contains(peer) {
                let i = choose|i: int| 0 <= i < all.len() && all[i] == peer;
                assert(i >= devp2p.len());
                assert(libp2p[i - devp2p.len()] == id);
            }
        },
    }
}

} // verus!
