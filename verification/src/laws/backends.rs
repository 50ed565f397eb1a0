//! The backends with one configuration for each.
use vstd::prelude::*;

use crate::config::{BasicNetworkConfiguration, ReservedProtocols};
use crate::net_backends_merge::{
    peer_client_version_reply, send_reply, ChainStep, MergedNetworkContext, NetBackend,
    NetworkConfiguration, OpenError, OpenStep,
};
use crate::peer_id::PeerId;
use crate::routing::{BackendRef, Delegate, HandlerEvent, PeerCall, Session, SessionCall, Step};
use crate::service::{NetworkServiceInner, StartStep};
use crate::types::{
    Backend, NonReservedPeerMode, PacketId, ProtocolId, SessionInfo, SocketAddr, TimerToken,
};

verus! {

/// What is reserved for a protocol is read back until something else is reserved for it; reserving
/// for one protocol changes nothing for any other, and at first nothing is reserved.
pub proof fn law_reservations_are_read_back(
    fresh: ReservedProtocols,
    reserved: &mut ReservedProtocols,
    id: ProtocolId,
    peers: u32,
    other: &ProtocolId,
    at_first: Option<u32>,
    before: Option<u32>,
    after: Option<u32>,
)
    requires
        call_ensures(ReservedProtocols::new, (), fresh),
        call_ensures(ReservedProtocols::get, (&fresh, other), at_first),
        call_ensures(ReservedProtocols::get, (&*old(reserved), other), before),
        call_ensures(ReservedProtocols::insert, (reserved, id, peers), ()),
        call_ensures(ReservedProtocols::get, (&*final(reserved), other), after),
    ensures
        at_first is None,
        *other == id ==> after == Some(peers),
        *other != id ==> after == before,
{
}

/// A configuration for a backend has every setting of the one that it was made of, each in its own
/// field; the addresses are what was parsed, and exactly the number of peers for snapshots is
/// reserved. Only an address that is not one stands in the way, the one to listen on first.
pub proof fn law_settings_reach_the_backend<S, F, P, E>(
    config: NetworkConfiguration<S, F>,
    warp: ProtocolId,
    parse: P,
    r: Result<BasicNetworkConfiguration<S, F>, E>,
) where P: Fn(&String) -> Result<SocketAddr, E>
    requires
        call_ensures(
            NetworkConfiguration::<S, F>::into_basic::<P, E>,
            (config, warp, parse),
            r,
        ),
    ensures
        r matches Ok(basic) ==> {
            &&& basic.config_path == config.config_path
            &&& basic.net_config_path == config.net_config_path
            &&& basic.udp_port == config.udp_port
            &&& basic.nat_enabled == config.nat_enabled
            &&& basic.discovery_enabled == config.discovery_enabled
            &&& basic.boot_nodes == config.boot_nodes
            &&& basic.use_secret == config.use_secret
            &&& basic.max_peers == config.max_peers
            &&& basic.min_peers == config.min_peers
            &&& basic.max_handshakes == config.max_pending_peers
            &&& basic.reserved_nodes == config.reserved_nodes
            &&& basic.ip_filter == config.ip_filter
            &&& basic.client_version == config.client_version
            &&& (basic.non_reserved_mode is Accept <==> config.allow_non_reserved)
            &&& match config.listen_address {
                Some(text) => basic.listen_address matches Some(addr) && call_ensures(
                    parse,
                    (&text,),
                    Ok(addr),
                ),
                None => basic.listen_address is None,
            }
            &&& match config.public_address {
                Some(text) => basic.public_address matches Some(addr) && call_ensures(
                    parse,
                    (&text,),
                    Ok(addr),
                ),
                None => basic.public_address is None,
            }
            &&& forall|id: ProtocolId|
                #![trigger basic.reserved_protocols@.contains_key(id)]
                basic.reserved_protocols@.contains_key(id) <==> id == warp
            &&& basic.reserved_protocols@[warp] == config.snapshot_peers
        },
        r matches Err(err) ==> {
            ||| config.listen_address matches Some(text) && call_ensures(parse, (&text,), Err(err))
            ||| {
                &&& config.public_address matches Some(text) && call_ensures(
                    parse,
                    (&text,),
                    Err(err),
                )
                &&& config.listen_address matches Some(text) ==> exists|addr: SocketAddr|
                    #[trigger] call_ensures(parse, (&text,), Ok(addr))
            }
        },
{
    if let Err(err) = r {
        if !crate::net_backends_merge::parses(
            parse,
            config.listen_address,
            Err::<Option<SocketAddr>, E>(err),
        ) {
            if let Some(text) = config.listen_address {
                let addr = choose|addr: Option<SocketAddr>| #[trigger]
                    crate::net_backends_merge::parses(
                        parse,
                        config.listen_address,
                        Ok::<Option<SocketAddr>, E>(addr),
                    );
                assert(call_ensures(parse, (&text,), Ok(addr->0)));
            }
        }
    }
}

/// A configuration that was made of that of a backend has every setting of it, each in its own field;
/// the addresses are written out, and of the reservations the number for snapshots is kept, which
/// is 0 where there is none.
pub proof fn law_settings_come_back<S, F, W>(
    basic: BasicNetworkConfiguration<S, F>,
    warp: ProtocolId,
    format: W,
    config: NetworkConfiguration<S, F>,
) where W: Fn(&SocketAddr) -> String
    requires
        ({
            ||| call_ensures(
                NetworkConfiguration::<S, F>::from_basic::<W>,
                (basic, warp, format),
                config,
            )
            ||| call_ensures(
                NetworkConfiguration::<S, F>::new::<W>,
                (basic, warp, format),
                config,
            )
            ||| call_ensures(
                NetworkConfiguration::<S, F>::new_local::<W>,
                (basic, warp, format),
                config,
            )
        }),
    ensures
        basic.config_path == config.config_path,
        basic.net_config_path == config.net_config_path,
        basic.udp_port == config.udp_port,
        basic.nat_enabled == config.nat_enabled,
        basic.discovery_enabled == config.discovery_enabled,
        basic.boot_nodes == config.boot_nodes,
        basic.use_secret == config.use_secret,
        basic.max_peers == config.max_peers,
        basic.min_peers == config.min_peers,
        basic.max_handshakes == config.max_pending_peers,
        basic.reserved_nodes == config.reserved_nodes,
        basic.ip_filter == config.ip_filter,
        basic.client_version == config.client_version,
        (basic.non_reserved_mode is Accept <==> config.allow_non_reserved),
        match basic.listen_address {
            Some(addr) => config.listen_address matches Some(text) && call_ensures(
                format,
                (&addr,),
                text,
            ),
            None => config.listen_address is None,
        },
        match basic.public_address {
            Some(addr) => config.public_address matches Some(text) && call_ensures(
                format,
                (&addr,),
                text,
            ),
            None => config.public_address is None,
        },
        basic.reserved_protocols@.contains_key(warp) ==> config.snapshot_peers
            == basic.reserved_protocols@[warp],
        !basic.reserved_protocols@.contains_key(warp) ==> config.snapshot_peers == 0,
{
}

/// Whether a backend is opened with the settings of a configuration.
pub open spec fn is_opened_with<S, F, P, X>(
    basic: BasicNetworkConfiguration<S, F>,
    config: NetworkConfiguration<S, F>,
    warp: ProtocolId,
    parse: P,
) -> bool where P: Fn(&String) -> Result<SocketAddr, X> {
    &&& basic.config_path == config.config_path
    &&& basic.net_config_path == config.net_config_path
    &&& basic.udp_port == config.udp_port
    &&& basic.nat_enabled == config.nat_enabled
    &&& basic.discovery_enabled == config.discovery_enabled
    &&& basic.boot_nodes == config.boot_nodes
    &&& basic.use_secret == config.use_secret
    &&& basic.max_peers == config.max_peers
    &&& basic.min_peers == config.min_peers
    &&& basic.max_handshakes == config.max_pending_peers
    &&& basic.reserved_nodes == config.reserved_nodes
    &&& basic.ip_filter == config.ip_filter
    &&& basic.client_version == config.client_version
    &&& (basic.non_reserved_mode is Accept <==> config.allow_non_reserved)
    &&& match config.listen_address {
        Some(text) => basic.listen_address matches Some(addr) && call_ensures(
            parse,
            (&text,),
            Ok(addr),
        ),
        None => basic.listen_address is None,
    }
    &&& match config.public_address {
        Some(text) => basic.public_address matches Some(addr) && call_ensures(
            parse,
            (&text,),
            Ok(addr),
        ),
        None => basic.public_address is None,
    }
    &&& forall|id: ProtocolId|
        #![trigger basic.reserved_protocols@.contains_key(id)]
        basic.reserved_protocols@.contains_key(id) <==> id == warp
    &&& basic.reserved_protocols@[warp] == config.snapshot_peers
}

/// Whether an address of a configuration is the reason for an error.
pub open spec fn has_wrong_address<S, F, P, X>(
    config: NetworkConfiguration<S, F>,
    parse: P,
    err: X,
) -> bool where P: Fn(&String) -> Result<SocketAddr, X> {
    ||| config.listen_address matches Some(text) && call_ensures(parse, (&text,), Err(err))
    ||| config.public_address matches Some(text) && call_ensures(parse, (&text,), Err(err))
}

/// Exactly the backends that are configured are opened, devp2p first, each with its own
/// configuration. What goes wrong with a backend or with its addresses ends the opening.
pub proof fn law_configured_backends_are_opened<D, L, S, F, P, X, E>(
    devp2p_config: Option<NetworkConfiguration<S, F>>,
    libp2p_config: Option<NetworkConfiguration<S, F>>,
    warp: ProtocolId,
    parse: P,
    first: OpenStep<D, L, S, F, X, E>,
    devp2p: Result<D, E>,
    second: OpenStep<D, L, S, F, X, E>,
    opened: Option<D>,
    libp2p: Result<L, E>,
    last: Result<NetBackend<D, L>, OpenError<X, E>>,
) where P: Fn(&String) -> Result<SocketAddr, X>
    requires
        devp2p_config is Some || libp2p_config is Some,
        call_ensures(
            NetBackend::<D, L>::new::<S, F, P, X, E>,
            (devp2p_config, libp2p_config, warp, parse),
            first,
        ),
        call_ensures(
            NetBackend::<D, L>::opened_devp2p::<S, F, P, X, E>,
            (devp2p, libp2p_config, warp, parse),
            second,
        ),
        call_ensures(NetBackend::<D, L>::opened_libp2p::<X, E>, (opened, libp2p), last),
    ensures
        match first {
            OpenStep::OpenDevp2p { config, libp2p: next } => devp2p_config matches Some(given)
                && is_opened_with(config, given, warp, parse) && next == libp2p_config,
            OpenStep::OpenLibp2p { config, devp2p: beside } => libp2p_config matches Some(given)
                && is_opened_with(config, given, warp, parse) && devp2p_config is None && beside is None,
            OpenStep::Done(Err(OpenError::Address(err))) => match devp2p_config {
                Some(given) => has_wrong_address(given, parse, err),
                None => libp2p_config matches Some(given) && has_wrong_address(given, parse, err),
            },
            OpenStep::Done(_) => false,
        },
        match second {
            OpenStep::OpenDevp2p { .. } => false,
            OpenStep::OpenLibp2p { config, devp2p: beside } => libp2p_config matches Some(given)
                && is_opened_with(config, given, warp, parse) && devp2p is Ok && beside == Some(
                devp2p->Ok_0,
            ),
            OpenStep::Done(Ok(backends)) => devp2p is Ok && libp2p_config is None && backends.inner
                == NetworkServiceInner::<D, L>::Devp2p(devp2p->Ok_0),
            OpenStep::Done(Err(OpenError::Address(err))) => libp2p_config matches Some(given)
                && has_wrong_address(given, parse, err) && devp2p is Ok,
            OpenStep::Done(Err(OpenError::Backend(err))) => devp2p == Err::<D, E>(err),
        },
        match last {
            Ok(backends) => libp2p is Ok && backends.inner == match opened {
                Some(beside) => NetworkServiceInner::Both(beside, libp2p->Ok_0),
                None => NetworkServiceInner::Libp2p(libp2p->Ok_0),
            },
            Err(OpenError::Backend(err)) => libp2p == Err::<L, E>(err),
            Err(OpenError::Address(_)) => false,
        },
{
}

/// Whether a request is asked of the backend that comes first.
pub open spec fn is_asked_first<D, L, A, E>(
    backends: &NetBackend<D, L>,
    request: A,
    step: ChainStep<A, E>,
) -> bool {
    step matches ChainStep::Ask(backend, given) && given == request && (backend is Libp2p
        <==> backends.inner is Libp2p)
}

/// A request goes to every enabled backend as it was made, devp2p first, up to the first that fails,
/// whose error comes out.
pub proof fn law_requests_go_to_every_backend<'p, 'v, D, L, E>(
    backends: &NetBackend<D, L>,
    peer: &'p str,
    added: ChainStep<&'p str, E>,
    removed: ChainStep<&'p str, E>,
    stopped: ChainStep<(), E>,
    protocol: ProtocolId,
    packet_count: u8,
    versions: &'v [u8],
    registered: ChainStep<(ProtocolId, u8, &'v [u8]), E>,
)
    requires
        call_ensures(NetBackend::<D, L>::add_reserved_peer::<E>, (backends, peer), added),
        call_ensures(NetBackend::<D, L>::remove_reserved_peer::<E>, (backends, peer), removed),
        call_ensures(NetBackend::<D, L>::stop::<E>, (backends,), stopped),
        call_ensures(
            NetBackend::<D, L>::register_protocol::<E>,
            (backends, protocol, packet_count, versions),
            registered,
        ),
    ensures
        is_asked_first(backends, peer, added),
        is_asked_first(backends, peer, removed),
        is_asked_first(backends, (), stopped),
        is_asked_first(backends, (protocol, packet_count, versions), registered),
{
}

/// After devp2p, libp2p is asked the same, where both are enabled and devp2p did not fail.
pub proof fn law_requests_go_on<D, L, A, E>(
    backends: &NetBackend<D, L>,
    backend: Backend,
    reply: Result<(), E>,
    request: A,
    r: ChainStep<A, E>,
)
    requires
        call_ensures(NetBackend::<D, L>::chained::<A, E>, (backends, backend, reply, request), r),
    ensures
        match r {
            ChainStep::Ask(next, given) => backends.inner is Both && backend is Devp2p && reply is Ok
                && next is Libp2p && given == request,
            ChainStep::Done(Ok(())) => reply is Ok && !(backends.inner is Both
                && backend is Devp2p),
            ChainStep::Done(Err(err)) => reply == Err::<(), E>(err),
        },
{
}

/// The backends are started, devp2p first; a failure comes out, and where it is that of the second,
/// the first is stopped again.
pub proof fn law_net_backends_are_started<D, L, E>(
    backends: &NetBackend<D, L>,
    first: StartStep<E>,
    backend: Backend,
    reply: Result<(), E>,
    next: StartStep<E>,
)
    requires
        call_ensures(NetBackend::<D, L>::start::<E>, (backends,), first),
        call_ensures(NetBackend::<D, L>::started::<E>, (backends, backend, reply), next),
    ensures
        first matches StartStep::Start(asked) && (asked is Libp2p <==> backends.inner is Libp2p),
        match next {
            StartStep::Start(asked) => backends.inner is Both && backend is Devp2p && reply is Ok
                && asked is Libp2p,
            StartStep::Stop(stopped, err) => backends.inner is Both && backend is Libp2p
                && stopped is Devp2p && reply == Err::<(), E>(err),
            StartStep::Done(Ok(())) => reply is Ok && !(backends.inner is Both
                && backend is Devp2p),
            StartStep::Done(Err(err)) => reply == Err::<(), E>(err) && !(backends.inner is Both
                && backend is Libp2p),
        },
{
}

/// The connected peers of every enabled backend are listed, each in its place and under the
/// identifier that handlers see, those of devp2p first.
pub proof fn law_net_peers_are_listed<D, L>(
    backends: &NetBackend<D, L>,
    devp2p: Vec<PeerId>,
    libp2p: Vec<PeerId>,
    r: Vec<PeerId>,
)
    requires
        call_ensures(NetBackend::<D, L>::connected_peers, (backends, devp2p, libp2p), r),
        forall|i: int| 0 <= i < devp2p@.len() ==> (#[trigger] devp2p@[i]) < usize::MAX / 2,
        forall|i: int|
            0 <= i < libp2p@.len() ==> usize::MAX - (#[trigger] libp2p@[i]) >= usize::MAX / 2,
    ensures
        ({
            let lower = if backends.inner is Libp2p {
                Seq::empty()
            } else {
                devp2p@
            };
            let upper = if backends.inner is Devp2p {
                Seq::empty()
            } else {
                libp2p@
            };
            &&& r@.len() == lower.len() + upper.len()
            &&& forall|i: int|
                0 <= i < lower.len() ==> super::calls::stands_for(
                    #[trigger] r@[i],
                    Backend::Devp2p,
                    lower[i],
                )
            &&& forall|i: int|
                lower.len() <= i < r@.len() ==> super::calls::stands_for(
                    #[trigger] r@[i],
                    Backend::Libp2p,
                    upper[i - lower.len()],
                )
        }),
{
}

/// The configuration and the external address are those of devp2p, where it is enabled; without it,
/// the configuration is that of libp2p, and there is no address. Every enabled backend is told the
/// mode.
pub proof fn law_net_backends_tell_of_themselves<'a, D, L>(
    backends: &'a NetBackend<D, L>,
    config: BackendRef<'a, D, L>,
    url: Delegate<'a, D, (), Option<String>>,
    mode: NonReservedPeerMode,
    told: Vec<(Backend, NonReservedPeerMode)>,
)
    requires
        call_ensures(NetBackend::<D, L>::config, (backends,), config),
        call_ensures(NetBackend::<D, L>::external_url, (backends,), url),
        call_ensures(NetBackend::<D, L>::set_non_reserved_mode, (backends, mode), told),
    ensures
        ({
            let (devp2p, libp2p) = super::calls::services(&backends.inner);
            &&& match config {
                BackendRef::Devp2p(service) => devp2p == Some(service),
                BackendRef::Libp2p(service) => devp2p is None && libp2p == Some(service),
            }
            &&& match url {
                Delegate::Ask(asked, ()) => devp2p == Some(asked),
                Delegate::Answer(answer) => devp2p is None && answer is None,
            }
        }),
        told@ == match backends.inner {
            NetworkServiceInner::Devp2p(_) => seq![(Backend::Devp2p, mode)],
            NetworkServiceInner::Libp2p(_) => seq![(Backend::Libp2p, mode)],
            NetworkServiceInner::Both(_, _) => seq![
                (Backend::Devp2p, mode),
                (Backend::Libp2p, mode),
            ],
        },
{
}

/// An action runs, whichever backends are enabled and for every protocol, in the context of that
/// protocol and outside of any session, and what it gives comes out.
pub proof fn law_net_actions_run<D, L, C, A, T, B>(
    backends: &NetBackend<D, L>,
    protocol: ProtocolId,
    action: A,
    r: Option<T>,
    mute: B,
) where
    A: FnOnce(&crate::service::MergedNetworkContext<'_, D, L, C>) -> T,
    B: FnOnce(&crate::service::MergedNetworkContext<'_, D, L, C>),

    requires
        call_ensures(NetBackend::<D, L>::with_context::<C, B>, (backends, protocol, mute), ()),
        call_ensures(
            NetBackend::<D, L>::with_context_eval::<C, A, T>,
            (backends, protocol, action),
            r,
        ),
    ensures
        r matches Some(value) && exists|
            context: &crate::service::MergedNetworkContext<'_, D, L, C>,
        |
            context.inner == &backends.inner && context.protocol == protocol
                && context.context is None && #[trigger] call_ensures(action, (context,), value),
        exists|context: &crate::service::MergedNetworkContext<'_, D, L, C>|
            context.inner == &backends.inner && context.protocol == protocol
                && context.context is None && #[trigger] call_ensures(mute, (context,), ()),
{
    let context = crate::service::MergedNetworkContext::<'_, D, L, C> {
        inner: &backends.inner,
        protocol,
        context: None,
    };
    assert(call_ensures(action, (&context,), r->0));
    assert(call_ensures(mute, (&context,), ()));
}

/// Whatever either backend reports, the handler is told, in the session of that backend and for that
/// protocol. That the protocol is registered it is told by libp2p, where it is enabled, and else by
/// devp2p.
pub proof fn law_net_events_are_passed_on<'a, 'd, D, L, C>(
    backends: &'a NetBackend<D, L>,
    backend: Backend,
    io: &'a C,
    protocol: ProtocolId,
    event: HandlerEvent<'d>,
    r: Option<(MergedNetworkContext<'a, D, L, C>, HandlerEvent<'d>)>,
)
    requires
        call_ensures(
            NetBackend::<D, L>::forward::<C>,
            (backends, backend, io, protocol, event),
            r,
        ),
        super::calls::can_be_shown(event, backend),
    ensures
        r is None <==> event is Initialize && backend is Devp2p && backends.inner is Both,
        r matches Some((context, told)) ==> {
            &&& super::calls::tells(told, backend, event)
            &&& (context.devp2p, context.libp2p) == super::calls::services(&backends.inner)
            &&& context.protocol == protocol
            &&& context.context == match backend {
                Backend::Devp2p => Session::Devp2p(io),
                Backend::Libp2p => Session::Libp2p(io),
            }
        },
{
}

/// In a session, a packet goes out as it was given, to the peer that it was meant for and under the
/// protocol that it was sent with: the one named, or else that of the session.
pub proof fn law_session_packets_go_out_as_given<'a, D, L, C>(
    context: &MergedNetworkContext<'a, D, L, C>,
    protocol: ProtocolId,
    peer: PeerId,
    packet_id: PacketId,
    data: Vec<u8>,
    sent: Step<'a, D, L, C, ()>,
    sent_protocol: Step<'a, D, L, C, ()>,
)
    requires
        call_ensures(
            MergedNetworkContext::<'a, D, L, C>::send,
            (context, peer, packet_id, data),
            sent,
        ),
        call_ensures(
            MergedNetworkContext::<'a, D, L, C>::send_protocol,
            (context, protocol, peer, packet_id, data),
            sent_protocol,
        ),
    ensures
        super::calls::is_made(
            sent,
            context.devp2p,
            context.libp2p,
            Some(context.context),
            context.protocol,
            peer,
            PeerCall::Send { packet_id, data },
        ),
        super::calls::is_made(
            sent_protocol,
            context.devp2p,
            context.libp2p,
            Some(context.context),
            context.protocol,
            peer,
            PeerCall::SendProtocol { protocol, packet_id, data },
        ),
{
}

/// In a session, what concerns a peer reaches that peer; of a peer whose backend is disabled nothing
/// is known.
pub proof fn law_session_calls_reach_the_peer<'a, D, L, C>(
    context: &MergedNetworkContext<'a, D, L, C>,
    protocol: ProtocolId,
    peer: PeerId,
    disabled: Step<'a, D, L, C, ()>,
    disconnected: Step<'a, D, L, C, ()>,
    client: Step<'a, D, L, C, String>,
    session: Step<'a, D, L, C, Option<SessionInfo>>,
    version: Step<'a, D, L, C, Option<u8>>,
)
    requires
        call_ensures(MergedNetworkContext::<'a, D, L, C>::disable_peer, (context, peer), disabled),
        call_ensures(
            MergedNetworkContext::<'a, D, L, C>::disconnect_peer,
            (context, peer),
            disconnected,
        ),
        call_ensures(
            MergedNetworkContext::<'a, D, L, C>::peer_client_version,
            (context, peer),
            client,
        ),
        call_ensures(MergedNetworkContext::<'a, D, L, C>::session_info, (context, peer), session),
        call_ensures(
            MergedNetworkContext::<'a, D, L, C>::protocol_version,
            (context, protocol, peer),
            version,
        ),
    ensures
        super::calls::is_made(
            disabled,
            context.devp2p,
            context.libp2p,
            Some(context.context),
            context.protocol,
            peer,
            PeerCall::DisablePeer,
        ),
        super::calls::is_made(
            disconnected,
            context.devp2p,
            context.libp2p,
            Some(context.context),
            context.protocol,
            peer,
            PeerCall::DisconnectPeer,
        ),
        super::calls::is_made(
            client,
            context.devp2p,
            context.libp2p,
            Some(context.context),
            context.protocol,
            peer,
            PeerCall::PeerClientVersion,
        ),
        super::calls::is_made(
            session,
            context.devp2p,
            context.libp2p,
            Some(context.context),
            context.protocol,
            peer,
            PeerCall::SessionInfo,
        ),
        super::calls::is_made(
            version,
            context.devp2p,
            context.libp2p,
            Some(context.context),
            context.protocol,
            peer,
            PeerCall::ProtocolVersion(protocol),
        ),
        client matches Step::Answer(answer) ==> answer@ == Seq::<char>::empty(),
        session matches Step::Answer(answer) ==> answer is None,
        version matches Step::Answer(answer) ==> answer is None,
{
}

/// What concerns the session goes to the context that its backend handed out, whichever backend
/// that is.
pub proof fn law_session_answers_go_through_the_session<'a, D, L, C>(
    context: &MergedNetworkContext<'a, D, L, C>,
    packet_id: PacketId,
    data: Vec<u8>,
    token: TimerToken,
    ms: u64,
    io: &'a C,
    answer: SessionCall<'a, C, (PacketId, Vec<u8>)>,
    expired: SessionCall<'a, C, ()>,
    timer: SessionCall<'a, C, (TimerToken, u64)>,
    name: ProtocolId,
)
    requires
        context.context == Session::Devp2p(io) || context.context == Session::Libp2p(io),
        call_ensures(
            MergedNetworkContext::<'a, D, L, C>::respond,
            (context, packet_id, data),
            answer,
        ),
        call_ensures(MergedNetworkContext::<'a, D, L, C>::is_expired, (context,), expired),
        call_ensures(
            MergedNetworkContext::<'a, D, L, C>::register_timer,
            (context, token, ms),
            timer,
        ),
        call_ensures(MergedNetworkContext::<'a, D, L, C>::subprotocol_name, (context,), name),
    ensures
        answer.context == io,
        answer.arguments == (packet_id, data),
        expired.context == io,
        timer.context == io,
        timer.arguments == (token, ms),
        name == context.protocol,
{
}

/// What the backend replies is what the caller gets; without a reply nothing is known of the client.
pub proof fn law_net_replies_are_handed_on<E>(
    sent: Result<(), E>,
    send_answer: Result<(), E>,
    client: Option<String>,
    client_answer: String,
)
    requires
        call_ensures(send_reply::<E>, (Some(sent),), send_answer),
        call_ensures(peer_client_version_reply, (client,), client_answer),
    ensures
        send_answer == sent,
        match client {
            Some(reply) => client_answer@ == reply@,
            None => client_answer@ == Seq::<char>::empty(),
        },
{
}

} // verus!
