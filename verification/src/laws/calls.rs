//! Calls that concern a peer, and events that handlers are told of.
use vstd::prelude::*;

use crate::peer_id::{peer_id_ext_to_int, peer_id_int_to_ext, InternalPeerId, PeerId};
use crate::routing::{
    expose, merge_peers, route, BackendRef, Delegate, HandlerEvent, PeerCall, Route, Session,
    SessionCall, Step, TimerCall,
};
use crate::service::{MergedNetworkContext, NetworkServiceInner};
use crate::types::{
    same_protocol, Backend, Error, PacketId, ProtocolId, SessionInfo, TimerToken,
};

verus! {

/// Whether an identifier that handlers see stands for a peer of a backend: devp2p has the lower half
/// of the range as it is, and libp2p the upper half, counted down from the top.
pub open spec fn stands_for(shown: PeerId, backend: Backend, own: PeerId) -> bool {
    match backend {
        Backend::Devp2p => shown < usize::MAX / 2 && own == shown,
        Backend::Libp2p => shown >= usize::MAX / 2 && own + shown == usize::MAX,
    }
}

/// An identifier that handlers see stands for the peer that comes out.
pub proof fn law_shown_peers_are_told_apart(shown: PeerId, r: InternalPeerId)
    requires
        call_ensures(peer_id_ext_to_int, (shown,), r),
    ensures
        match r {
            InternalPeerId::Devp2p(own) => stands_for(shown, Backend::Devp2p, own),
            InternalPeerId::Libp2p(own) => stands_for(shown, Backend::Libp2p, own) && own == !shown,
        },
{
    if r is Libp2p {
        crate::peer_id::law_libp2p_ids_are_inverted(shown);
    }
}

/// The identifier that comes out is one that handlers see, and stands for the peer that went in.
pub proof fn law_peers_are_shown(own: PeerId, shown: PeerId, backend: Backend, exposed: PeerId)
    requires
        call_ensures(
            peer_id_int_to_ext,
            (match backend {
                Backend::Devp2p => InternalPeerId::Devp2p(own),
                Backend::Libp2p => InternalPeerId::Libp2p(own),
            },),
            shown,
        ),
        call_ensures(expose, (backend, own), exposed),
        match backend {
            Backend::Devp2p => own < usize::MAX / 2,
            Backend::Libp2p => usize::MAX - own >= usize::MAX / 2,
        },
    ensures
        stands_for(shown, backend, own),
        stands_for(exposed, backend, own),
{
}

/// Every listed identifier stands for the peer in its place: first those of devp2p, then those of
/// libp2p.
pub proof fn law_all_peers_are_listed(devp2p: &Vec<PeerId>, libp2p: &Vec<PeerId>, r: Vec<PeerId>)
    requires
        call_ensures(merge_peers, (devp2p, libp2p), r),
        forall|i: int| 0 <= i < devp2p@.len() ==> (#[trigger] devp2p@[i]) < usize::MAX / 2,
        forall|i: int|
            0 <= i < libp2p@.len() ==> usize::MAX - (#[trigger] libp2p@[i]) >= usize::MAX / 2,
    ensures
        r@.len() == devp2p@.len() + libp2p@.len(),
        forall|i: int|
            0 <= i < devp2p@.len() ==> stands_for(#[trigger] r@[i], Backend::Devp2p, devp2p@[i]),
        forall|i: int|
            devp2p@.len() <= i < r@.len() ==> stands_for(
                #[trigger] r@[i],
                Backend::Libp2p,
                libp2p@[i - devp2p@.len()],
            ),
{
}

/// Whether a step makes a call on a peer that handlers see under an identifier: the call is the very
/// one that was made, the peer is the one that the identifier stands for, and its own backend is
/// asked, through the session if that is one of this backend, and otherwise, in the context of the
/// protocol, through the service. Only where there is neither, the call is answered without being
/// made.
pub open spec fn is_made<D, L, C, R>(
    step: Step<'_, D, L, C, R>,
    devp2p: Option<&D>,
    libp2p: Option<&L>,
    session: Option<Session<'_, C>>,
    protocol: ProtocolId,
    shown: PeerId,
    call: PeerCall,
) -> bool {
    match step {
        Step::Session { context, peer, call: made } => {
            &&& made == call
            &&& match session {
                Some(Session::Devp2p(io)) => io == context && stands_for(
                    shown,
                    Backend::Devp2p,
                    peer,
                ),
                Some(Session::Libp2p(io)) => io == context && stands_for(
                    shown,
                    Backend::Libp2p,
                    peer,
                ),
                None => false,
            }
        },
        Step::Devp2p { devp2p: service, protocol: of, peer, call: made } => {
            &&& made == call
            &&& of == protocol
            &&& devp2p == Some(service)
            &&& stands_for(shown, Backend::Devp2p, peer)
            &&& !(session matches Some(Session::Devp2p(_)))
        },
        Step::Libp2p { libp2p: service, protocol: of, peer, call: made } => {
            &&& made == call
            &&& of == protocol
            &&& libp2p == Some(service)
            &&& stands_for(shown, Backend::Libp2p, peer)
            &&& !(session matches Some(Session::Libp2p(_)))
        },
        Step::Answer(_) => if shown < usize::MAX / 2 {
            devp2p is None && !(session matches Some(Session::Devp2p(_)))
        } else {
            libp2p is None && !(session matches Some(Session::Libp2p(_)))
        },
    }
}

/// A session is one of the backend that handed out its context, and gives that context back; protocols
/// are the same exactly if all their bytes are.
pub proof fn law_sessions_keep_their_context<'a, C>(
    backend: Backend,
    io: &'a C,
    session: Session<'a, C>,
    context: &'a C,
    a: &ProtocolId,
    b: &ProtocolId,
    same: bool,
)
    requires
        call_ensures(Session::<'a, C>::new, (backend, io), session),
        call_ensures(Session::<'a, C>::context, (&session,), context),
        call_ensures(same_protocol, (a, b), same),
    ensures
        match session {
            Session::Devp2p(of) => backend is Devp2p && of == io,
            Session::Libp2p(of) => backend is Libp2p && of == io,
        },
        context == io,
        same <==> a[0] == b[0] && a[1] == b[1] && a[2] == b[2],
{
    if a[0] == b[0] && a[1] == b[1] && a[2] == b[2] {
        assert(*a =~= *b);
    }
}

/// A call goes where its peer is: to the session, if that is one of the peer's backend, else to the
/// backend, if it is enabled, and with the identifier that the peer has there.
pub proof fn law_routes_lead_to_the_peer<'a, D, L, C>(
    devp2p: Option<&'a D>,
    libp2p: Option<&'a L>,
    session: &Option<Session<'a, C>>,
    shown: PeerId,
    r: Route<'a, D, L, C>,
)
    requires
        call_ensures(route::<D, L, C>, (devp2p, libp2p, session, shown), r),
    ensures
        match r {
            Route::Session(context, own) => match *session {
                Some(Session::Devp2p(io)) => io == context && stands_for(
                    shown,
                    Backend::Devp2p,
                    own,
                ),
                Some(Session::Libp2p(io)) => io == context && stands_for(
                    shown,
                    Backend::Libp2p,
                    own,
                ),
                None => false,
            },
            Route::Devp2p(service, own) => devp2p == Some(service) && stands_for(
                shown,
                Backend::Devp2p,
                own,
            ) && !(*session matches Some(Session::Devp2p(_))),
            Route::Libp2p(service, own) => libp2p == Some(service) && stands_for(
                shown,
                Backend::Libp2p,
                own,
            ) && !(*session matches Some(Session::Libp2p(_))),
            Route::Absent => if shown < usize::MAX / 2 {
                devp2p is None && !(*session matches Some(Session::Devp2p(_)))
            } else {
                libp2p is None && !(*session matches Some(Session::Libp2p(_)))
            },
        },
{
}

/// Whichever way a call goes, it arrives as it was made, with all its arguments, on the peer of the
/// route; a call that goes nowhere gets the answer that was given for this.
pub proof fn law_calls_arrive_as_made<'a, D, L, C, R>(
    way: Route<'a, D, L, C>,
    protocol: ProtocolId,
    call: PeerCall,
    absent: R,
    r: Step<'a, D, L, C, R>,
)
    requires
        call_ensures(Route::<'a, D, L, C>::into_step::<R>, (way, protocol, call, absent), r),
    ensures
        match r {
            Step::Session { context, peer, call: made } => made == call && way == Route::<
                D,
                L,
                C,
            >::Session(context, peer),
            Step::Devp2p { devp2p, protocol: of, peer, call: made } => made == call && of == protocol
                && way == Route::<D, L, C>::Devp2p(devp2p, peer),
            Step::Libp2p { libp2p, protocol: of, peer, call: made } => made == call && of == protocol
                && way == Route::<D, L, C>::Libp2p(libp2p, peer),
            Step::Answer(answer) => answer == absent && way is Absent,
        },
{
}

/// A request goes to its backend with its arguments, and is answered without that only where the
/// backend is disabled.
pub proof fn law_requests_reach_their_backend<'a, B, A, R>(
    service: Option<&'a B>,
    arguments: A,
    absent: R,
    r: Delegate<'a, B, A, R>,
)
    requires
        call_ensures(Delegate::<'a, B, A, R>::new, (service, arguments, absent), r),
    ensures
        match r {
            Delegate::Ask(asked, given) => service == Some(asked) && given == arguments,
            Delegate::Answer(answer) => service is None && answer == absent,
        },
{
}

/// The services of the backends that are enabled.
pub open spec fn services<'a, D, L>(inner: &'a NetworkServiceInner<D, L>) -> (
    Option<&'a D>,
    Option<&'a L>,
) {
    match inner {
        NetworkServiceInner::Devp2p(devp2p) => (Some(devp2p), None),
        NetworkServiceInner::Libp2p(libp2p) => (None, Some(libp2p)),
        NetworkServiceInner::Both(devp2p, libp2p) => (Some(devp2p), Some(libp2p)),
    }
}

/// The services that are told to be enabled are those that are.
pub proof fn law_services_are_found<'a, D, L>(
    inner: &'a NetworkServiceInner<D, L>,
    devp2p: Option<&'a D>,
    libp2p: Option<&'a L>,
)
    requires
        call_ensures(NetworkServiceInner::<D, L>::devp2p, (inner,), devp2p),
        call_ensures(NetworkServiceInner::<D, L>::libp2p, (inner,), libp2p),
    ensures
        services(inner) == (devp2p, libp2p),
{
}

/// A packet goes out as it was given, to the peer that it was meant for and under the protocol that
/// it was sent with: the one named, or else that of the handler. The sender learns where the
/// peer's backend is disabled.
pub proof fn law_packets_go_out_as_given<'a, D, L, C, E>(
    context: &MergedNetworkContext<'a, D, L, C>,
    protocol: ProtocolId,
    peer: PeerId,
    packet_id: PacketId,
    data: Vec<u8>,
    sent: Step<'a, D, L, C, Result<(), Error<E>>>,
    sent_protocol: Step<'a, D, L, C, Result<(), Error<E>>>,
)
    requires
        call_ensures(
            MergedNetworkContext::<'a, D, L, C>::send::<E>,
            (context, peer, packet_id, data),
            sent,
        ),
        call_ensures(
            MergedNetworkContext::<'a, D, L, C>::send_protocol::<E>,
            (context, protocol, peer, packet_id, data),
            sent_protocol,
        ),
    ensures
        is_made(
            sent,
            services(context.inner).0,
            services(context.inner).1,
            context.context,
            context.protocol,
            peer,
            PeerCall::Send { packet_id, data },
        ),
        is_made(
            sent_protocol,
            services(context.inner).0,
            services(context.inner).1,
            context.context,
            context.protocol,
            peer,
            PeerCall::SendProtocol { protocol, packet_id, data },
        ),
        sent matches Step::Answer(answer) ==> answer == Err::<(), Error<E>>(Error::InvalidNodeId),
        sent_protocol matches Step::Answer(answer) ==> answer == Err::<(), Error<E>>(
            Error::InvalidNodeId,
        ),
{
}

/// It is the given peer that is disconnected, or disconnected and kept away.
pub proof fn law_given_peers_are_disconnected<'a, D, L, C>(
    context: &MergedNetworkContext<'a, D, L, C>,
    peer: PeerId,
    disabled: Step<'a, D, L, C, ()>,
    disconnected: Step<'a, D, L, C, ()>,
)
    requires
        call_ensures(
            MergedNetworkContext::<'a, D, L, C>::disable_peer,
            (context, peer),
            disabled,
        ),
        call_ensures(
            MergedNetworkContext::<'a, D, L, C>::disconnect_peer,
            (context, peer),
            disconnected,
        ),
    ensures
        is_made(
            disabled,
            services(context.inner).0,
            services(context.inner).1,
            context.context,
            context.protocol,
            peer,
            PeerCall::DisablePeer,
        ),
        is_made(
            disconnected,
            services(context.inner).0,
            services(context.inner).1,
            context.context,
            context.protocol,
            peer,
            PeerCall::DisconnectPeer,
        ),
{
}

/// What is asked of a peer is asked of that peer's backend; where that is disabled, nothing is known
/// of the peer.
pub proof fn law_questions_reach_the_peer<'a, D, L, C>(
    context: &MergedNetworkContext<'a, D, L, C>,
    protocol: ProtocolId,
    peer: PeerId,
    client: Step<'a, D, L, C, String>,
    session: Step<'a, D, L, C, Option<SessionInfo>>,
    version: Step<'a, D, L, C, Option<u8>>,
    reserved: Step<'a, D, L, C, bool>,
)
    requires
        call_ensures(
            MergedNetworkContext::<'a, D, L, C>::peer_client_version,
            (context, peer),
            client,
        ),
        call_ensures(MergedNetworkContext::<'a, D, L, C>::session_info, (context, peer), session),
        call_ensures(
            MergedNetworkContext::<'a, D, L, C>::protocol_version,
            (context, protocol, peer),
            version,
        ),
        call_ensures(
            MergedNetworkContext::<'a, D, L, C>::is_reserved_peer,
            (context, peer),
            reserved,
        ),
    ensures
        is_made(
            client,
            services(context.inner).0,
            services(context.inner).1,
            context.context,
            context.protocol,
            peer,
            PeerCall::PeerClientVersion,
        ),
        is_made(
            session,
            services(context.inner).0,
            services(context.inner).1,
            context.context,
            context.protocol,
            peer,
            PeerCall::SessionInfo,
        ),
        is_made(
            version,
            services(context.inner).0,
            services(context.inner).1,
            context.context,
            context.protocol,
            peer,
            PeerCall::ProtocolVersion(protocol),
        ),
        is_made(
            reserved,
            services(context.inner).0,
            services(context.inner).1,
            context.context,
            context.protocol,
            peer,
            PeerCall::IsReservedPeer,
        ),
        client matches Step::Answer(answer) ==> answer@ == "unknown"@,
        session matches Step::Answer(answer) ==> answer is None,
        version matches Step::Answer(answer) ==> answer is None,
        reserved matches Step::Answer(answer) ==> !answer,
{
}

/// What concerns the session goes to the context that its backend handed out, whichever backend
/// that is.
pub proof fn law_answers_go_through_the_session<'a, D, L, C>(
    context: &MergedNetworkContext<'a, D, L, C>,
    packet_id: PacketId,
    data: Vec<u8>,
    io: &'a C,
    answer: SessionCall<'a, C, (PacketId, Vec<u8>)>,
    expired: SessionCall<'a, C, ()>,
)
    requires
        context.context matches Some(session) && (session == Session::Devp2p(io) || session
            == Session::Libp2p(io)),
        call_ensures(
            MergedNetworkContext::<'a, D, L, C>::respond,
            (context, packet_id, data),
            answer,
        ),
        call_ensures(MergedNetworkContext::<'a, D, L, C>::is_expired, (context,), expired),
    ensures
        answer.context == io,
        answer.arguments == (packet_id, data),
        expired.context == io,
{
}

/// A timer is set once, with its token and its time, in the context of the handler's protocol: by
/// libp2p, where it is enabled, and else by devp2p.
pub proof fn law_timers_are_not_split<'a, D, L, C, T>(
    context: &MergedNetworkContext<'a, D, L, C>,
    token: TimerToken,
    duration: T,
    r: TimerCall<'a, D, L, T>,
    name: ProtocolId,
)
    requires
        call_ensures(
            MergedNetworkContext::<'a, D, L, C>::register_timer::<T>,
            (context, token, duration),
            r,
        ),
        call_ensures(MergedNetworkContext::<'a, D, L, C>::subprotocol_name, (context,), name),
    ensures
        r.token == token,
        r.duration == duration,
        r.protocol == context.protocol,
        name == context.protocol,
        match r.service {
            BackendRef::Libp2p(service) => services(context.inner).1 == Some(service),
            BackendRef::Devp2p(service) => services(context.inner).1 is None && services(
                context.inner,
            ).0 == Some(service),
        },
{
}

/// Whether what a handler is told is what its backend reported: the same kind of event with the same
/// packet or the same timer, and of the same peer, under the identifier that handlers see.
pub open spec fn tells(told: HandlerEvent<'_>, backend: Backend, event: HandlerEvent<'_>) -> bool {
    match (event, told) {
        (HandlerEvent::Initialize, HandlerEvent::Initialize) => true,
        (
            HandlerEvent::Read { peer, packet_id, data },
            HandlerEvent::Read { peer: shown, packet_id: id, data: same },
        ) => stands_for(shown, backend, peer) && id == packet_id && same@ == data@,
        (HandlerEvent::Connected(peer), HandlerEvent::Connected(shown)) => stands_for(
            shown,
            backend,
            peer,
        ),
        (HandlerEvent::Disconnected(peer), HandlerEvent::Disconnected(shown)) => stands_for(
            shown,
            backend,
            peer,
        ),
        (HandlerEvent::Timeout(timer), HandlerEvent::Timeout(same)) => same == timer,
        _ => false,
    }
}

/// Whether the peer of an event, if it has one, is one that handlers can see.
pub open spec fn can_be_shown(event: HandlerEvent<'_>, backend: Backend) -> bool {
    match (event, backend) {
        (HandlerEvent::Read { peer, .. }, Backend::Devp2p) => peer < usize::MAX / 2,
        (HandlerEvent::Connected(peer), Backend::Devp2p) => peer < usize::MAX / 2,
        (HandlerEvent::Disconnected(peer), Backend::Devp2p) => peer < usize::MAX / 2,
        (HandlerEvent::Read { peer, .. }, Backend::Libp2p) => usize::MAX - peer >= usize::MAX / 2,
        (HandlerEvent::Connected(peer), Backend::Libp2p) => usize::MAX - peer >= usize::MAX / 2,
        (HandlerEvent::Disconnected(peer), Backend::Libp2p) => usize::MAX - peer >= usize::MAX / 2,
        _ => true,
    }
}

/// Events are shown to handlers as they are, but for how peers are named.
pub proof fn law_events_are_shown_as_they_are<'d>(
    event: HandlerEvent<'d>,
    backend: Backend,
    r: HandlerEvent<'d>,
)
    requires
        call_ensures(HandlerEvent::<'d>::into_exposed, (event, backend), r),
        can_be_shown(event, backend),
    ensures
        tells(r, backend, event),
{
}

/// Whatever either backend reports, a wrapped handler is told, in the session of that backend and for
/// that protocol; only that the protocol is registered it is not told by a backend.
pub proof fn law_events_are_passed_on<'a, 'd, D, L, C>(
    inner: &'a NetworkServiceInner<D, L>,
    backend: Backend,
    io: &'a C,
    protocol: ProtocolId,
    event: HandlerEvent<'d>,
    r: Option<(MergedNetworkContext<'a, D, L, C>, HandlerEvent<'d>)>,
)
    requires
        call_ensures(
            NetworkServiceInner::<D, L>::forward::<C>,
            (inner, backend, io, protocol, event),
            r,
        ),
        can_be_shown(event, backend),
    ensures
        r is None <==> event is Initialize,
        r matches Some((context, told)) ==> {
            &&& tells(told, backend, event)
            &&& context.inner == inner
            &&& context.protocol == protocol
            &&& context.context == Some(
                match backend {
                    Backend::Devp2p => Session::Devp2p(io),
                    Backend::Libp2p => Session::Libp2p(io),
                },
            )
        },
{
}

} // verus!
