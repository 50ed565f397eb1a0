//! Unification of devp2p and libp2p.
//!
//! Where the service has to ask a backend, its methods say what to ask, and take the reply.
use std::ops::Range;
use vstd::prelude::*;

use crate::peer_id::PeerId;
use crate::routing::{
    merge_peers, route, BackendRef, Delegate, HandlerEvent, PeerCall, Session, SessionCall, Step,
    TimerCall,
};
use crate::types::{Backend, Error, NonReservedPeerMode, PacketId, ProtocolId, SessionInfo, TimerToken};

verus! {

/// The backends that are enabled.
pub enum NetworkServiceInner<D, L> {
    /// Only devp2p.
    Devp2p(D),
    /// Only libp2p.
    Libp2p(L),
    /// Both.
    Both(D, L),
}

/// Unification of devp2p and libp2p.
pub struct NetworkService<D, L> {
    /// The backends.
    pub inner: NetworkServiceInner<D, L>,
    /// The number of peers allowed; the end is exclusive.
    pub num_peers_range: Range<u32>,
}

/// What a service is opened with.
#[derive(Debug, Copy, Clone, PartialEq, Eq, Structural)]
pub struct ServiceConfig {
    /// Whether devp2p is enabled.
    pub enabled_devp2p: bool,
    /// Whether libp2p is enabled.
    pub enabled_libp2p: bool,
    /// Max number of connected peers to maintain
    pub max_peers: u32,
}

impl ServiceConfig {
    /// The number of peers allowed: none up to the maximum. The end, which is exclusive, stops at the
    /// greatest number there is.
    pub open spec fn spec_peers_range(self) -> Range<u32> {
        Range {
            start: 0,
            end: if self.max_peers == u32::MAX {
                u32::MAX
            } else {
                (self.max_peers + 1) as u32
            },
        }
    }

    /// The number of peers allowed.
    pub fn peers_range(&self) -> (r: Range<u32>)
        ensures
            r == self.spec_peers_range(),
    {
        Range { start: 0, end: self.max_peers.saturating_add(1) }
    }
}

/// What is done next to open the service.
pub enum OpenStep<D, L, E> {
    /// Open devp2p.
    OpenDevp2p,
    /// Open libp2p, beside devp2p if that is open.
    OpenLibp2p(Option<D>),
    /// The service is open, or a backend failed to open.
    Done(Result<NetworkService<D, L>, E>),
}

/// What a protocol is registered with.
#[derive(Copy, Clone)]
pub struct Registration<'v> {
    /// The protocol.
    pub protocol: ProtocolId,
    /// Its versions, each with the number of its packet identifiers.
    pub versions: &'v [(u8, u8)],
}

/// What is done next to register a protocol.
pub enum RegisterStep<'a, 'v, D, L, C, E> {
    /// Register the protocol with a backend.
    Register {
        /// The backend.
        backend: Backend,
        /// Whether the backend is given the handler in a wrapper, which translates peers.
        wrapped: bool,
        /// The protocol.
        registration: Registration<'v>,
    },
    /// Initialize the handler.
    Initialize(MergedNetworkContext<'a, D, L, C>),
    /// The protocol is registered, or a backend refused it.
    Done(Result<(), E>),
}

/// What is done next to start the network.
pub enum StartStep<E> {
    /// Start a backend.
    Start(Backend),
    /// Stop a backend, because the other failed to start with this error, which then comes out.
    Stop(Backend, E),
    /// The network is started, or a backend failed to start.
    Done(Result<(), E>),
}

/// The context in which a handler acts.
pub struct MergedNetworkContext<'a, D, L, C> {
    /// The backends.
    pub inner: &'a NetworkServiceInner<D, L>,
    /// The protocol of the handler.
    pub protocol: ProtocolId,
    /// The context that a backend handed out for what is being handled, if anything is.
    pub context: Option<Session<'a, C>>,
}

impl<D, L> NetworkServiceInner<D, L> {
    /// The devp2p service, if it is enabled.
    pub open spec fn spec_devp2p(&self) -> Option<&D> {
        match self {
            NetworkServiceInner::Devp2p(devp2p) => Some(devp2p),
            NetworkServiceInner::Libp2p(_) => None,
            NetworkServiceInner::Both(devp2p, _) => Some(devp2p),
        }
    }

    /// The libp2p service, if it is enabled.
    pub open spec fn spec_libp2p(&self) -> Option<&L> {
        match self {
            NetworkServiceInner::Devp2p(_) => None,
            NetworkServiceInner::Libp2p(libp2p) => Some(libp2p),
            NetworkServiceInner::Both(_, libp2p) => Some(libp2p),
        }
    }

    /// Whether a backend is enabled.
    pub open spec fn has(&self, backend: Backend) -> bool {
        match backend {
            Backend::Devp2p => self.spec_devp2p() is Some,
            Backend::Libp2p => self.spec_libp2p() is Some,
        }
    }

    /// Returns the devp2p service, if it's enabled.
    pub fn devp2p(&self) -> (r: Option<&D>)
        ensures
            r == self.spec_devp2p(),
    {
        match self {
            NetworkServiceInner::Devp2p(devp2p) => Some(devp2p),
            NetworkServiceInner::Libp2p(_) => None,
            NetworkServiceInner::Both(devp2p, _) => Some(devp2p),
        }
    }

    /// Returns the libp2p service, if it's enabled.
    pub fn libp2p(&self) -> (r: Option<&L>)
        ensures
            r == self.spec_libp2p(),
    {
        match self {
            NetworkServiceInner::Devp2p(_) => None,
            NetworkServiceInner::Libp2p(libp2p) => Some(libp2p),
            NetworkServiceInner::Both(_, libp2p) => Some(libp2p),
        }
    }

    /// The first step to start the network.
    pub open spec fn start_step<E>(&self) -> StartStep<E> {
        match self {
            NetworkServiceInner::Libp2p(_) => StartStep::Start(Backend::Libp2p),
            _ => StartStep::Start(Backend::Devp2p),
        }
    }

    /// The step that follows the reply of a backend to its start.
    pub open spec fn started_step<E>(&self, backend: Backend, reply: Result<(), E>) -> StartStep<E> {
        match (self, backend, reply) {
            (NetworkServiceInner::Both(_, _), Backend::Devp2p, Ok(())) => StartStep::Start(
                Backend::Libp2p,
            ),
            (NetworkServiceInner::Both(_, _), Backend::Libp2p, Err(err)) => StartStep::Stop(
                Backend::Devp2p,
                err,
            ),
            (_, _, Ok(())) => StartStep::Done(Ok(())),
            (_, _, Err(err)) => StartStep::Done(Err(err)),
        }
    }

    /// Decides which backend is started first.
    pub fn start<E>(&self) -> (r: StartStep<E>)
        ensures
            r == self.start_step::<E>(),
    {
        match self {
            NetworkServiceInner::Devp2p(_) => StartStep::Start(Backend::Devp2p),
            NetworkServiceInner::Libp2p(_) => StartStep::Start(Backend::Libp2p),
            NetworkServiceInner::Both(_, _) => StartStep::Start(Backend::Devp2p),
        }
    }

    /// Decides how the start goes on after the reply of a backend.
    pub fn started<E>(&self, backend: Backend, reply: Result<(), E>) -> (r: StartStep<E>)
        requires
            self.has(backend),
        ensures
            r == self.started_step::<E>(backend, reply),
    {
        match self {
            NetworkServiceInner::Both(_, _) => match backend {
                Backend::Devp2p => match reply {
                    Ok(()) => StartStep::Start(Backend::Libp2p),
                    Err(err) => StartStep::Done(Err(err)),
                },
                Backend::Libp2p => match reply {
                    Ok(()) => StartStep::Done(Ok(())),
                    Err(err) => StartStep::Stop(Backend::Devp2p, err),
                },
            },
            _ => match reply {
                Ok(()) => StartStep::Done(Ok(())),
                Err(err) => StartStep::Done(Err(err)),
            },
        }
    }

    /// The backends that are enabled, devp2p first.
    pub open spec fn enabled(&self) -> Seq<Backend> {
        match self {
            NetworkServiceInner::Devp2p(_) => seq![Backend::Devp2p],
            NetworkServiceInner::Libp2p(_) => seq![Backend::Libp2p],
            NetworkServiceInner::Both(_, _) => seq![Backend::Devp2p, Backend::Libp2p],
        }
    }

    /// The peers that are listed as connected, given those of the backends.
    pub open spec fn listed_peers(&self, devp2p: Seq<PeerId>, libp2p: Seq<PeerId>) -> Seq<PeerId> {
        match self {
            NetworkServiceInner::Devp2p(_) => devp2p,
            NetworkServiceInner::Libp2p(_) => crate::routing::exposed_peers(
                Backend::Libp2p,
                libp2p,
            ),
            NetworkServiceInner::Both(_, _) => crate::routing::exposed_peers(
                Backend::Devp2p,
                devp2p,
            ) + crate::routing::exposed_peers(Backend::Libp2p, libp2p),
        }
    }

    /// The backends to be told a non-reserved peer mode, in this order.
    pub fn set_non_reserved_mode(&self, mode: NonReservedPeerMode) -> (r: Vec<
        (Backend, NonReservedPeerMode),
    >)
        ensures
            r@ == self.enabled().map_values(|backend: Backend| (backend, mode)),
    {
        let mut r: Vec<(Backend, NonReservedPeerMode)> = Vec::new();
        if self.devp2p().is_some() {
            r.push((Backend::Devp2p, mode));
        }
        if self.libp2p().is_some() {
            r.push((Backend::Libp2p, mode));
        }
        assert(r@ =~= self.enabled().map_values(|backend: Backend| (backend, mode)));
        r
    }

    /// What a wrapped handler is told of an event of its backend, and in which context. That its
    /// protocol is registered it is not told: it would be told twice.
    pub open spec fn forwarded<'a, 'd, C>(
        &'a self,
        backend: Backend,
        io: &'a C,
        protocol: ProtocolId,
        event: HandlerEvent<'d>,
    ) -> Option<(MergedNetworkContext<'a, D, L, C>, HandlerEvent<'d>)> {
        if event is Initialize {
            None
        } else {
            Some(
                (
                    MergedNetworkContext {
                        inner: self,
                        protocol,
                        context: Some(crate::routing::session_of(backend, io)),
                    },
                    event.exposed(backend),
                ),
            )
        }
    }

    /// Decides what a wrapped handler is told of an event of its backend, which handed out a context
    /// for a protocol.
    pub fn forward<'a, 'd, C>(
        &'a self,
        backend: Backend,
        io: &'a C,
        protocol: ProtocolId,
        event: HandlerEvent<'d>,
    ) -> (r: Option<(MergedNetworkContext<'a, D, L, C>, HandlerEvent<'d>)>)
        requires
            event.in_range(backend),
        ensures
            r == self.forwarded(backend, io, protocol, event),
    {
        match event {
            HandlerEvent::Initialize => None,
            event => Some(
                (
                    MergedNetworkContext {
                        inner: self,
                        protocol,
                        context: Some(Session::new(backend, io)),
                    },
                    event.into_exposed(backend),
                ),
            ),
        }
    }
}

impl<D, L> NetworkService<D, L> {
    /// A service with the given backends.
    pub open spec fn of(
        config: ServiceConfig,
        inner: NetworkServiceInner<D, L>,
    ) -> NetworkService<D, L> {
        NetworkService { inner, num_peers_range: config.spec_peers_range() }
    }

    /// The first step to open the service.
    pub open spec fn new_step<E>(config: ServiceConfig) -> OpenStep<D, L, E> {
        if config.enabled_devp2p {
            OpenStep::OpenDevp2p
        } else {
            OpenStep::OpenLibp2p(None)
        }
    }

    /// The step that follows the opening of devp2p.
    pub open spec fn opened_devp2p_step<E>(config: ServiceConfig, reply: Result<D, E>) -> OpenStep<
        D,
        L,
        E,
    > {
        match reply {
            Err(err) => OpenStep::Done(Err(err)),
            Ok(devp2p) => if config.enabled_libp2p {
                OpenStep::OpenLibp2p(Some(devp2p))
            } else {
                OpenStep::Done(Ok(NetworkService::of(config, NetworkServiceInner::Devp2p(devp2p))))
            },
        }
    }

    /// The step that follows the opening of libp2p.
    pub open spec fn opened_libp2p_step<E>(
        config: ServiceConfig,
        devp2p: Option<D>,
        reply: Result<L, E>,
    ) -> OpenStep<D, L, E> {
        match (devp2p, reply) {
            (_, Err(err)) => OpenStep::Done(Err(err)),
            (Some(devp2p), Ok(libp2p)) => OpenStep::Done(
                Ok(NetworkService::of(config, NetworkServiceInner::Both(devp2p, libp2p))),
            ),
            (None, Ok(libp2p)) => OpenStep::Done(
                Ok(NetworkService::of(config, NetworkServiceInner::Libp2p(libp2p))),
            ),
        }
    }

    /// Decides which backend is opened first. At least one has to be enabled.
    pub fn new<E>(config: ServiceConfig) -> (r: OpenStep<D, L, E>)
        requires
            config.enabled_devp2p || config.enabled_libp2p,
        ensures
            r == NetworkService::<D, L>::new_step::<E>(config),
    {
        if config.enabled_devp2p {
            OpenStep::OpenDevp2p
        } else {
            OpenStep::OpenLibp2p(None)
        }
    }

    /// Decides how the opening goes on after devp2p.
    pub fn opened_devp2p<E>(config: ServiceConfig, reply: Result<D, E>) -> (r: OpenStep<D, L, E>)
        ensures
            r == NetworkService::<D, L>::opened_devp2p_step::<E>(config, reply),
    {
        match reply {
            Err(err) => OpenStep::Done(Err(err)),
            Ok(devp2p) => if config.enabled_libp2p {
                OpenStep::OpenLibp2p(Some(devp2p))
            } else {
                OpenStep::Done(
                    Ok(
                        NetworkService {
                            inner: NetworkServiceInner::Devp2p(devp2p),
                            num_peers_range: config.peers_range(),
                        },
                    ),
                )
            },
        }
    }

    /// Decides how the opening goes on after libp2p.
    pub fn opened_libp2p<E>(config: ServiceConfig, devp2p: Option<D>, reply: Result<L, E>) -> (r:
        OpenStep<D, L, E>)
        ensures
            r == NetworkService::<D, L>::opened_libp2p_step::<E>(config, devp2p, reply),
    {
        match reply {
            Err(err) => OpenStep::Done(Err(err)),
            Ok(libp2p) => {
                let inner = match devp2p {
                    Some(devp2p) => NetworkServiceInner::Both(devp2p, libp2p),
                    None => NetworkServiceInner::Libp2p(libp2p),
                };
                OpenStep::Done(
                    Ok(NetworkService { inner, num_peers_range: config.peers_range() }),
                )
            },
        }
    }

    /// The context of a protocol outside of any session.
    pub open spec fn spec_context<'a, C>(
        &'a self,
        protocol: ProtocolId,
    ) -> MergedNetworkContext<'a, D, L, C> {
        MergedNetworkContext { inner: &self.inner, protocol, context: None }
    }

    /// The first step to register a protocol: devp2p comes first. Where libp2p is enabled, whose own
    /// identifiers are not those that handlers are told, the handler goes into wrappers.
    pub open spec fn register_step<'a, 'v, C, E>(
        &'a self,
        registration: Registration<'v>,
    ) -> RegisterStep<'a, 'v, D, L, C, E> {
        match self.inner {
            NetworkServiceInner::Devp2p(_) => RegisterStep::Register {
                backend: Backend::Devp2p,
                wrapped: false,
                registration,
            },
            NetworkServiceInner::Libp2p(_) => RegisterStep::Register {
                backend: Backend::Libp2p,
                wrapped: true,
                registration,
            },
            NetworkServiceInner::Both(_, _) => RegisterStep::Register {
                backend: Backend::Devp2p,
                wrapped: true,
                registration,
            },
        }
    }

    /// The step that follows the reply of a backend to a registration. The reply of libp2p, which
    /// never refuses a protocol, is not looked at.
    pub open spec fn registered_step<'a, 'v, C, E>(
        &'a self,
        registration: Registration<'v>,
        backend: Backend,
        reply: Result<(), E>,
    ) -> RegisterStep<'a, 'v, D, L, C, E> {
        match (self.inner, backend) {
            (NetworkServiceInner::Both(_, _), Backend::Devp2p) => match reply {
                Ok(()) => RegisterStep::Register {
                    backend: Backend::Libp2p,
                    wrapped: true,
                    registration,
                },
                Err(err) => RegisterStep::Done(Err(err)),
            },
            (_, Backend::Devp2p) => match reply {
                Ok(()) => RegisterStep::Done(Ok(())),
                Err(err) => RegisterStep::Done(Err(err)),
            },
            (_, Backend::Libp2p) => RegisterStep::Initialize(
                self.spec_context(registration.protocol),
            ),
        }
    }

    /// Register a new protocol handler with the event loop: decides which backend comes first.
    pub fn register_protocol<'a, 'v, C, E>(&'a self, registration: Registration<'v>) -> (r:
        RegisterStep<'a, 'v, D, L, C, E>)
        ensures
            r == self.register_step::<C, E>(registration),
    {
        match self.inner {
            NetworkServiceInner::Devp2p(_) => RegisterStep::Register {
                backend: Backend::Devp2p,
                wrapped: false,
                registration,
            },
            NetworkServiceInner::Libp2p(_) => RegisterStep::Register {
                backend: Backend::Libp2p,
                wrapped: true,
                registration,
            },
            NetworkServiceInner::Both(_, _) => RegisterStep::Register {
                backend: Backend::Devp2p,
                wrapped: true,
                registration,
            },
        }
    }

    /// Decides how a registration goes on after the reply of a backend.
    pub fn registered<'a, 'v, C, E>(
        &'a self,
        registration: Registration<'v>,
        backend: Backend,
        reply: Result<(), E>,
    ) -> (r: RegisterStep<'a, 'v, D, L, C, E>)
        requires
            self.inner.has(backend),
        ensures
            r == self.registered_step::<C, E>(registration, backend, reply),
    {
        match backend {
            Backend::Devp2p => match reply {
                Ok(()) => match self.inner {
                    NetworkServiceInner::Both(_, _) => RegisterStep::Register {
                        backend: Backend::Libp2p,
                        wrapped: true,
                        registration,
                    },
                    _ => RegisterStep::Done(Ok(())),
                },
                Err(err) => RegisterStep::Done(Err(err)),
            },
            Backend::Libp2p => RegisterStep::Initialize(
                MergedNetworkContext {
                    inner: &self.inner,
                    protocol: registration.protocol,
                    context: None,
                },
            ),
        }
    }

    /// Start network IO: decides which backend comes first.
    pub fn start<E>(&self) -> (r: StartStep<E>)
        ensures
            r == self.inner.start_step::<E>(),
    {
        self.inner.start()
    }

    /// Decides how the start goes on after the reply of a backend.
    pub fn started<E>(&self, backend: Backend, reply: Result<(), E>) -> (r: StartStep<E>)
        requires
            self.inner.has(backend),
        ensures
            r == self.inner.started_step::<E>(backend, reply),
    {
        self.inner.started(backend, reply)
    }

    /// Stop network IO: the backends to be stopped, in this order.
    pub fn stop(&self) -> (r: Vec<Backend>)
        ensures
            r@ == self.inner.enabled(),
    {
        let mut r: Vec<Backend> = Vec::new();
        if self.inner.devp2p().is_some() {
            r.push(Backend::Devp2p);
        }
        if self.inner.libp2p().is_some() {
            r.push(Backend::Libp2p);
        }
        r
    }

    /// Get a list of all connected peers by id, given those of the backends. The peers of libp2p go
    /// by their exposed identifiers, whether or not devp2p is enabled too.
    pub fn connected_peers(&self, devp2p: Vec<PeerId>, libp2p: Vec<PeerId>) -> (r: Vec<PeerId>)
        requires
            self.inner is Both ==> forall|i: int|
                0 <= i < devp2p@.len() ==> crate::peer_id::InternalPeerId::Devp2p(
                    #[trigger] devp2p@[i],
                ).in_range(),
            self.inner.has(Backend::Libp2p) ==> forall|i: int|
                0 <= i < libp2p@.len() ==> crate::peer_id::InternalPeerId::Libp2p(
                    #[trigger] libp2p@[i],
                ).in_range(),
        ensures
            r@ == self.inner.listed_peers(devp2p@, libp2p@),
    {
        match self.inner {
            NetworkServiceInner::Devp2p(_) => devp2p,
            NetworkServiceInner::Libp2p(_) => merge_peers(&Vec::new(), &libp2p),
            NetworkServiceInner::Both(_, _) => merge_peers(&devp2p, &libp2p),
        }
    }

    /// Try to add a reserved peer to devp2p.
    /// The format of the parameter is specific to devp2p.
    pub fn add_reserved_peer_devp2p<'a, 'p, E>(&'a self, peer: &'p str) -> (r: Delegate<
        'a,
        D,
        &'p str,
        Result<(), E>,
    >)
        ensures
            r == Delegate::<D, &'p str, Result<(), E>>::to(self.inner.spec_devp2p(), peer, Ok(())),
    {
        Delegate::new(self.inner.devp2p(), peer, Ok(()))
    }

    /// Try to add a reserved peer to libp2p.
    /// The format of the parameter is specific to libp2p.
    pub fn add_reserved_peer_libp2p<'a, 'p, E>(&'a self, peer: &'p str) -> (r: Delegate<
        'a,
        L,
        &'p str,
        Result<(), E>,
    >)
        ensures
            r == Delegate::<L, &'p str, Result<(), E>>::to(self.inner.spec_libp2p(), peer, Ok(())),
    {
        Delegate::new(self.inner.libp2p(), peer, Ok(()))
    }

    /// Try to remove a reserved peer from devp2p.
    /// The format of the parameter is specific to devp2p.
    pub fn remove_reserved_peer_devp2p<'a, 'p, E>(&'a self, peer: &'p str) -> (r: Delegate<
        'a,
        D,
        &'p str,
        Result<(), E>,
    >)
        ensures
            r == Delegate::<D, &'p str, Result<(), E>>::to(self.inner.spec_devp2p(), peer, Ok(())),
    {
        Delegate::new(self.inner.devp2p(), peer, Ok(()))
    }

    /// Try to remove a reserved peer.
    /// The format of the parameter is specific to libp2p.
    pub fn remove_reserved_peer_libp2p<'a, 'p, E>(&'a self, peer: &'p str) -> (r: Delegate<
        'a,
        L,
        &'p str,
        Result<(), E>,
    >)
        ensures
            r == Delegate::<L, &'p str, Result<(), E>>::to(self.inner.spec_libp2p(), peer, Ok(())),
    {
        Delegate::new(self.inner.libp2p(), peer, Ok(()))
    }

    /// Set the non-reserved peer mode: the backends to be told the mode, in this order.
    pub fn set_non_reserved_mode(&self, mode: NonReservedPeerMode) -> (r: Vec<
        (Backend, NonReservedPeerMode),
    >)
        ensures
            r@ == self.inner.enabled().map_values(|backend: Backend| (backend, mode)),
    {
        self.inner.set_non_reserved_mode(mode)
    }

    /// Returns the external url of devp2p if available.
    pub fn external_url_devp2p(&self) -> (r: Delegate<'_, D, (), Option<String>>)
        ensures
            r == Delegate::<D, (), Option<String>>::to(self.inner.spec_devp2p(), (), None),
    {
        Delegate::new(self.inner.devp2p(), (), None)
    }

    /// Returns the number of peers allowed.
    ///
    /// Keep in mind that `range.end` is *exclusive*.
    pub fn num_peers_range(&self) -> (r: Range<u32>)
        ensures
            r == self.num_peers_range,
    {
        Range { start: self.num_peers_range.start, end: self.num_peers_range.end }
    }

    /// Executes action in the network context
    pub fn with_context<C, A>(&self, protocol: ProtocolId, action: A) where
        A: FnOnce(&MergedNetworkContext<'_, D, L, C>),

        requires
            action.requires((&self.spec_context::<C>(protocol),)),
        ensures
            action.ensures((&self.spec_context::<C>(protocol),), ()),
    {
        self.with_context_eval(protocol, action);
    }

    /// Evaluates function in the network context
    pub fn with_context_eval<C, A, T>(&self, protocol: ProtocolId, action: A) -> (r: Option<
        T,
    >) where A: FnOnce(&MergedNetworkContext<'_, D, L, C>) -> T
        requires
            action.requires((&self.spec_context::<C>(protocol),)),
        ensures
            r matches Some(value) && action.ensures((&self.spec_context::<C>(protocol),), value),
    {
        let context: MergedNetworkContext<'_, D, L, C> = MergedNetworkContext {
            inner: &self.inner,
            protocol,
            context: None,
        };
        Some(action(&context))
    }
}

impl<'a, D, L, C> MergedNetworkContext<'a, D, L, C> {
    /// Where a call that concerns a peer goes.
    pub open spec fn route(&self, peer: PeerId) -> crate::routing::Route<'a, D, L, C> {
        crate::routing::route_of(
            self.inner.spec_devp2p(),
            self.inner.spec_libp2p(),
            self.context,
            peer,
        )
    }

    /// Decides what is done with a call that concerns a peer.
    fn dispatch<R>(&self, peer: PeerId, call: PeerCall, absent: R) -> (r: Step<'a, D, L, C, R>)
        ensures
            r == self.route(peer).step(self.protocol, call, absent),
    {
        route(self.inner.devp2p(), self.inner.libp2p(), &self.context, peer).into_step(
            self.protocol,
            call,
            absent,
        )
    }

    /// Sends a packet of the handler's protocol. A peer of a disabled backend is not known.
    pub fn send<E>(&self, peer: PeerId, packet_id: PacketId, data: Vec<u8>) -> (r: Step<
        'a,
        D,
        L,
        C,
        Result<(), Error<E>>,
    >)
        ensures
            r == self.route(peer).step(
                self.protocol,
                PeerCall::Send { packet_id, data },
                Err::<(), Error<E>>(Error::InvalidNodeId),
            ),
    {
        self.dispatch(peer, PeerCall::Send { packet_id, data }, Err(Error::InvalidNodeId))
    }

    /// Sends a packet of any protocol. A peer of a disabled backend is not known.
    pub fn send_protocol<E>(
        &self,
        protocol: ProtocolId,
        peer: PeerId,
        packet_id: PacketId,
        data: Vec<u8>,
    ) -> (r: Step<'a, D, L, C, Result<(), Error<E>>>)
        ensures
            r == self.route(peer).step(
                self.protocol,
                PeerCall::SendProtocol { protocol, packet_id, data },
                Err::<(), Error<E>>(Error::InvalidNodeId),
            ),
    {
        self.dispatch(
            peer,
            PeerCall::SendProtocol { protocol, packet_id, data },
            Err(Error::InvalidNodeId),
        )
    }

    /// Answers the peer whose packet is being handled, through the context of the session.
    pub fn respond(&self, packet_id: PacketId, data: Vec<u8>) -> (r: SessionCall<
        'a,
        C,
        (PacketId, Vec<u8>),
    >)
        requires
            self.context is Some,
        ensures
            r == (SessionCall {
                context: crate::routing::session_context(self.context->0),
                arguments: (packet_id, data),
            }),
    {
        match &self.context {
            Some(session) => SessionCall { context: session.context(), arguments: (packet_id, data) },
            None => vstd::pervasive::unreached(),
        }
    }

    /// Disconnects a peer and keeps it away. Of a peer of a disabled backend nothing is done.
    pub fn disable_peer(&self, peer: PeerId) -> (r: Step<'a, D, L, C, ()>)
        ensures
            r == self.route(peer).step(self.protocol, PeerCall::DisablePeer, ()),
    {
        self.dispatch(peer, PeerCall::DisablePeer, ())
    }

    /// Disconnects a peer. Of a peer of a disabled backend nothing is done.
    pub fn disconnect_peer(&self, peer: PeerId) -> (r: Step<'a, D, L, C, ()>)
        ensures
            r == self.route(peer).step(self.protocol, PeerCall::DisconnectPeer, ()),
    {
        self.dispatch(peer, PeerCall::DisconnectPeer, ())
    }

    /// Whether the session has expired, which the context of the session knows.
    pub fn is_expired(&self) -> (r: SessionCall<'a, C, ()>)
        requires
            self.context is Some,
        ensures
            r == (SessionCall {
                context: crate::routing::session_context(self.context->0),
                arguments: (),
            }),
    {
        match &self.context {
            Some(session) => SessionCall { context: session.context(), arguments: () },
            None => vstd::pervasive::unreached(),
        }
    }

    /// The backend that gets all timers: libp2p, if it is enabled, so that they are not split.
    pub open spec fn timer_service(&self) -> BackendRef<'a, D, L> {
        match self.inner {
            NetworkServiceInner::Devp2p(devp2p) => BackendRef::Devp2p(devp2p),
            NetworkServiceInner::Libp2p(libp2p) => BackendRef::Libp2p(libp2p),
            NetworkServiceInner::Both(_, libp2p) => BackendRef::Libp2p(libp2p),
        }
    }

    /// Asks for the handler to be told when some time is over.
    pub fn register_timer<T>(&self, token: TimerToken, duration: T) -> (r: TimerCall<'a, D, L, T>)
        ensures
            r == (TimerCall {
                service: self.timer_service(),
                protocol: self.protocol,
                token,
                duration,
            }),
    {
        let service = match self.inner {
            NetworkServiceInner::Devp2p(devp2p) => BackendRef::Devp2p(devp2p),
            NetworkServiceInner::Libp2p(libp2p) => BackendRef::Libp2p(libp2p),
            NetworkServiceInner::Both(_, libp2p) => BackendRef::Libp2p(libp2p),
        };
        TimerCall { service, protocol: self.protocol, token, duration }
    }

    /// Asks for the client version of a peer; that of a peer of a disabled backend is "unknown".
    pub fn peer_client_version(&self, peer: PeerId) -> (r: Step<'a, D, L, C, String>)
        ensures
            exists|unknown: String|
                unknown@ == "unknown"@ && r == #[trigger] self.route(peer).step(
                    self.protocol,
                    PeerCall::PeerClientVersion,
                    unknown,
                ),
    {
        self.dispatch(peer, PeerCall::PeerClientVersion, "unknown".to_owned())
    }

    /// Asks for the session with a peer; a peer of a disabled backend has none.
    pub fn session_info(&self, peer: PeerId) -> (r: Step<'a, D, L, C, Option<SessionInfo>>)
        ensures
            r == self.route(peer).step(
                self.protocol,
                PeerCall::SessionInfo,
                None::<SessionInfo>,
            ),
    {
        self.dispatch(peer, PeerCall::SessionInfo, None)
    }

    /// Asks for the version of a protocol that is spoken with a peer; with a peer of a disabled
    /// backend none is.
    pub fn protocol_version(&self, protocol: ProtocolId, peer: PeerId) -> (r: Step<
        'a,
        D,
        L,
        C,
        Option<u8>,
    >)
        ensures
            r == self.route(peer).step(
                self.protocol,
                PeerCall::ProtocolVersion(protocol),
                None::<u8>,
            ),
    {
        self.dispatch(peer, PeerCall::ProtocolVersion(protocol), None)
    }

    /// The protocol of the handler.
    pub fn subprotocol_name(&self) -> (r: ProtocolId)
        ensures
            r == self.protocol,
    {
        self.protocol
    }

    /// Asks whether a peer is reserved; a peer of a disabled backend is not.
    pub fn is_reserved_peer(&self, peer: PeerId) -> (r: Step<'a, D, L, C, bool>)
        ensures
            r == self.route(peer).step(self.protocol, PeerCall::IsReservedPeer, false),
    {
        self.dispatch(peer, PeerCall::IsReservedPeer, false)
    }
}

/// What the sender of a packet is answered, given the reply of the backend. A backend that is
/// enabled always replies.
pub fn send_reply<E>(reply: Option<Result<(), E>>) -> (r: Result<(), Error<E>>)
    requires
        reply is Some,
    ensures
        r == match reply->0 {
            Ok(()) => Ok::<(), Error<E>>(()),
            Err(err) => Err(Error::Backend(err)),
        },
{
    send_protocol_reply(reply)
}

/// What the sender of a packet of any protocol is answered, given the reply of the backend, if it
/// has the protocol.
pub fn send_protocol_reply<E>(reply: Option<Result<(), E>>) -> (r: Result<(), Error<E>>)
    ensures
        r == match reply {
            Some(Ok(())) => Ok::<(), Error<E>>(()),
            Some(Err(err)) => Err(Error::Backend(err)),
            None => Err(Error::InvalidNodeId),
        },
{
    match reply {
        Some(Ok(())) => Ok(()),
        Some(Err(err)) => Err(Error::Backend(err)),
        None => Err(Error::InvalidNodeId),
    }
}

/// The client version of a peer, given the reply of the backend, if it has the protocol.
pub fn peer_client_version_reply(reply: Option<String>) -> (r: String)
    ensures
        match reply {
            Some(version) => r == version,
            None => r@ == "unknown"@,
        },
{
    match reply {
        Some(version) => version,
        None => "unknown".to_owned(),
    }
}

/// The session with a peer, given the reply of the backend, if it has the protocol.
pub fn session_info_reply(reply: Option<Option<SessionInfo>>) -> (r: Option<SessionInfo>)
    ensures
        r == match reply {
            Some(info) => info,
            None => None,
        },
{
    match reply {
        Some(info) => info,
        None => None,
    }
}

/// The version of a protocol, given the reply of the backend, if it has the protocol.
pub fn protocol_version_reply(reply: Option<Option<u8>>) -> (r: Option<u8>)
    ensures
        r == match reply {
            Some(version) => version,
            None => None,
        },
{
    match reply {
        Some(version) => version,
        None => None,
    }
}

/// Whether a peer is reserved, given the reply of the backend, if it has the protocol.
pub fn is_reserved_peer_reply(reply: Option<bool>) -> (r: bool)
    ensures
        r == match reply {
            Some(reserved) => reserved,
            None => false,
        },
{
    match reply {
        Some(reserved) => reserved,
        None => false,
    }
}

/// A wrapped handler that is told of a peer reaches that very peer by the identifier it was given,
/// through the context that the backend handed out.
pub proof fn law_answers_reach_the_sender<'a, 'd, D, L, C>(
    backends: &'a NetworkServiceInner<D, L>,
    backend: Backend,
    io: &'a C,
    protocol: ProtocolId,
    event: HandlerEvent<'d>,
)
    requires
        event.in_range(backend),
        event.peer() is Some,
    ensures
        backends.forwarded(backend, io, protocol, event) matches Some((context, told))
            && told.peer() matches Some(peer) && context.route(peer)
            == crate::routing::Route::<D, L, C>::Session(io, event.peer()->0),
{
    crate::routing::lemma_session_route(
        backends.spec_devp2p(),
        backends.spec_libp2p(),
        backend,
        io,
        event.peer()->0,
    );
}

/// Every peer that is listed as connected is reached outside of any session by the identifier under
/// which it is listed: its own backend is called with the backend's identifier of it.
pub proof fn law_listed_peers_are_reached<'a, D, L, C>(
    service: &'a NetworkService<D, L>,
    protocol: ProtocolId,
    devp2p: Seq<PeerId>,
    libp2p: Seq<PeerId>,
    peer: PeerId,
)
    requires
        forall|i: int|
            0 <= i < devp2p.len() ==> crate::peer_id::InternalPeerId::Devp2p(
                #[trigger] devp2p[i],
            ).in_range(),
        forall|i: int|
            0 <= i < libp2p.len() ==> crate::peer_id::InternalPeerId::Libp2p(
                #[trigger] libp2p[i],
            ).in_range(),
        service.inner.listed_peers(devp2p, libp2p).contains(peer),
    ensures
        match service.spec_context::<C>(protocol).route(peer) {
            crate::routing::Route::Devp2p(net, id) => service.inner.spec_devp2p() == Some(net)
                && devp2p.contains(id),
            crate::routing::Route::Libp2p(net, id) => service.inner.spec_libp2p() == Some(net)
                && libp2p.contains(id),
            _ => false,
        },
{
    let all = service.inner.listed_peers(devp2p, libp2p);
    let k = choose|k: int| 0 <= k < all.len() && all[k] == peer;
    let from = if service.inner is Libp2p {
        0
    } else {
        devp2p.len() as int
    };
    if k < from {
        assert(crate::peer_id::InternalPeerId::Devp2p(devp2p[k]).in_range());
        assert(devp2p.contains(devp2p[k]));
    } else {
        assert(crate::peer_id::InternalPeerId::Libp2p(libp2p[k - from]).in_range());
        assert(libp2p.contains(libp2p[k - from]));
    }
}

/// The identifier by which a handler of a service is told of a peer of a backend. Where libp2p is
/// enabled, the handler is wrapped and told the exposed one.
pub open spec fn told_peer<D, L>(
    inner: NetworkServiceInner<D, L>,
    backend: Backend,
    peer: PeerId,
) -> PeerId {
    if inner.has(Backend::Libp2p) {
        crate::peer_id::int_to_ext(crate::routing::peer_of(backend, peer))
    } else {
        peer
    }
}

/// One rule holds for the identifiers of peers throughout a service, whichever backends it has. A
/// handler is told of a peer by the identifier under which the peer is listed as connected, while it
/// is, and by that identifier the peer is reached outside of any session.
pub proof fn law_handlers_and_lists_agree<'a, 'd, 'v, D, L, C, E>(
    service: &'a NetworkService<D, L>,
    registration: Registration<'v>,
    devp2p_reply: Result<(), E>,
    libp2p_reply: Result<(), E>,
    backend: Backend,
    io: &'a C,
    event: HandlerEvent<'d>,
    devp2p: Seq<PeerId>,
    libp2p: Seq<PeerId>,
)
    requires
        service.inner.has(backend),
        event.in_range(backend),
        event.peer() is Some,
        forall|i: int|
            0 <= i < devp2p.len() ==> crate::peer_id::InternalPeerId::Devp2p(
                #[trigger] devp2p[i],
            ).in_range(),
        forall|i: int|
            0 <= i < libp2p.len() ==> crate::peer_id::InternalPeerId::Libp2p(
                #[trigger] libp2p[i],
            ).in_range(),
    ensures
        ({
            let peer = event.peer()->0;
            let told = told_peer(service.inner, backend, peer);
            let steps = registration_steps::<D, L, C, E>(
                service,
                registration,
                service.register_step::<C, E>(registration),
                devp2p_reply,
                libp2p_reply,
                4,
            );
            &&& forall|i: int|
                0 <= i < steps.len() ==> (#[trigger] steps[i] matches RegisterStep::Register {
                    wrapped,
                    ..
                } ==> if wrapped {
                    service.inner.forwarded(backend, io, registration.protocol, event) matches Some(
                        (_, passed),
                    ) && passed.peer() == Some(told)
                } else {
                    told == peer
                })
            &&& service.inner.listed_peers(devp2p, libp2p).contains(told) <==> match backend {
                Backend::Devp2p => devp2p.contains(peer),
                Backend::Libp2p => libp2p.contains(peer),
            }
            &&& service.spec_context::<C>(registration.protocol).route(told) == match backend {
                Backend::Devp2p => crate::routing::Route::<D, L, C>::Devp2p(
                    service.inner.spec_devp2p()->0,
                    peer,
                ),
                Backend::Libp2p => crate::routing::Route::Libp2p(
                    service.inner.spec_libp2p()->0,
                    peer,
                ),
            }
        }),
{
    reveal_with_fuel(registration_steps, 5);
    let peer = event.peer()->0;
    let told = told_peer(service.inner, backend, peer);
    let all = service.inner.listed_peers(devp2p, libp2p);
    let from = if service.inner is Libp2p {
        0
    } else {
        devp2p.len() as int
    };
    if all.contains(told) {
        let k = choose|k: int| 0 <= k < all.len() && all[k] == told;
        if k < from {
            assert(crate::peer_id::InternalPeerId::Devp2p(devp2p[k]).in_range());
            assert(devp2p[k] == told);
        } else {
            assert(crate::peer_id::InternalPeerId::Libp2p(libp2p[k - from]).in_range());
            assert(libp2p[k - from] == peer);
        }
    }
    match backend {
        Backend::Devp2p => {
            if devp2p.contains(peer) {
                let k = choose|k: int| 0 <= k < devp2p.len() && devp2p[k] == peer;
                assert(all[k] == told);
            }
        },
        Backend::Libp2p => {
            if libp2p.contains(peer) {
                let k = choose|k: int| 0 <= k < libp2p.len() && libp2p[k] == peer;
                assert(all[from + k] == told);
            }
        },
    }
}

/// The outcome of opening the service, from a step on, where the backends reply as given.
pub open spec fn open_outcome<D, L, E>(
    step: OpenStep<D, L, E>,
    config: ServiceConfig,
    devp2p: Result<D, E>,
    libp2p: Result<L, E>,
    steps: nat,
) -> Option<Result<NetworkService<D, L>, E>>
    decreases steps,
{
    match step {
        OpenStep::Done(outcome) => Some(outcome),
        _ if steps == 0 => None,
        OpenStep::OpenDevp2p => open_outcome(
            NetworkService::opened_devp2p_step(config, devp2p),
            config,
            devp2p,
            libp2p,
            (steps - 1) as nat,
        ),
        OpenStep::OpenLibp2p(opened) => open_outcome(
            NetworkService::opened_libp2p_step(config, opened, libp2p),
            config,
            devp2p,
            libp2p,
            (steps - 1) as nat,
        ),
    }
}

/// An open service has exactly the backends that are enabled, and the number of peers that its
/// configuration allows; if a backend fails to open, there is no service, and the error is that of
/// the first backend that failed.
pub proof fn law_service_has_the_enabled_backends<D, L, E>(
    config: ServiceConfig,
    devp2p: Result<D, E>,
    libp2p: Result<L, E>,
)
    requires
        config.enabled_devp2p || config.enabled_libp2p,
    ensures
        open_outcome(
            NetworkService::<D, L>::new_step::<E>(config),
            config,
            devp2p,
            libp2p,
            2,
        ) == Some(
            match (config.enabled_devp2p, config.enabled_libp2p, devp2p, libp2p) {
                (true, _, Err(err), _) => Err(err),
                (_, true, _, Err(err)) => Err(err),
                (true, true, Ok(d), Ok(l)) => Ok(
                    NetworkService::of(config, NetworkServiceInner::Both(d, l)),
                ),
                (true, _, Ok(d), _) => Ok(
                    NetworkService::of(config, NetworkServiceInner::Devp2p(d)),
                ),
                (_, _, _, Ok(l)) => Ok(NetworkService::of(config, NetworkServiceInner::Libp2p(l))),
                (_, _, _, Err(err)) => Err(err),
            },
        ),
{
    reveal_with_fuel(open_outcome, 3);
}

/// A number of peers lies in the range of a service exactly if it is not above the maximum of the
/// configuration. The maximum itself has to leave room for an end behind it.
pub proof fn law_range_holds_the_allowed_numbers<D, L>(
    config: ServiceConfig,
    inner: NetworkServiceInner<D, L>,
    peers: u32,
)
    requires
        config.max_peers < u32::MAX,
    ensures
        ({
            let range = NetworkService::of(config, inner).num_peers_range;
            range.start <= peers < range.end <==> peers <= config.max_peers
        }),
{
}

/// The steps of a registration, from a step on, where the backends reply as given.
pub open spec fn registration_steps<'a, 'v, D, L, C, E>(
    service: &'a NetworkService<D, L>,
    registration: Registration<'v>,
    step: RegisterStep<'a, 'v, D, L, C, E>,
    devp2p: Result<(), E>,
    libp2p: Result<(), E>,
    steps: nat,
) -> Seq<RegisterStep<'a, 'v, D, L, C, E>>
    decreases steps,
{
    seq![step] + match step {
        _ if steps == 0 => Seq::empty(),
        RegisterStep::Done(_) => Seq::empty(),
        RegisterStep::Register { backend, .. } => registration_steps(
            service,
            registration,
            service.registered_step::<C, E>(
                registration,
                backend,
                match backend {
                    Backend::Devp2p => devp2p,
                    Backend::Libp2p => libp2p,
                },
            ),
            devp2p,
            libp2p,
            (steps - 1) as nat,
        ),
        RegisterStep::Initialize(_) => registration_steps(
            service,
            registration,
            RegisterStep::Done(Ok(())),
            devp2p,
            libp2p,
            (steps - 1) as nat,
        ),
    }
}

/// How often some steps initialize the handler: a backend that gets it unwrapped does so itself, and
/// a wrapper does not pass the initialization on.
pub open spec fn initializations<'a, 'v, D, L, C, E>(
    steps: Seq<RegisterStep<'a, 'v, D, L, C, E>>,
) -> nat
    decreases steps.len(),
{
    if steps.len() == 0 {
        0
    } else {
        initializations(steps.drop_last()) + match steps.last() {
            RegisterStep::Register { wrapped, .. } => if wrapped {
                0nat
            } else {
                1nat
            },
            RegisterStep::Initialize(_) => 1nat,
            RegisterStep::Done(_) => 0nat,
        }
    }
}

/// Registering a protocol comes to an end. Where it succeeds, every enabled backend has been given
/// the protocol, and the handler has been initialized exactly once. It fails only where devp2p
/// refuses the protocol; with both backends enabled, libp2p has not been given it then, and the
/// handler has not been initialized. A wrapper that is told that its protocol is registered does not
/// pass that on.
pub proof fn law_handler_is_initialized_once<'a, 'v, D, L, C, E>(
    service: &'a NetworkService<D, L>,
    registration: Registration<'v>,
    devp2p: Result<(), E>,
    libp2p: Result<(), E>,
    backend: Backend,
    io: &'a C,
)
    ensures
        ({
            let steps = registration_steps(
                service,
                registration,
                service.register_step::<C, E>(registration),
                devp2p,
                libp2p,
                4,
            );
            let refused = service.inner.has(Backend::Devp2p) && devp2p is Err;
            &&& steps.last() == RegisterStep::<D, L, C, E>::Done(
                if refused {
                    devp2p
                } else {
                    Ok(())
                },
            )
            &&& !refused ==> initializations(steps) == 1
            &&& refused && service.inner is Both ==> initializations(steps) == 0
            &&& forall|b: Backend|
                (!refused && service.inner.has(b)) ==> exists|i: int|
                    0 <= i < steps.len() && (#[trigger] steps[i] matches RegisterStep::Register {
                        backend: at,
                        registration: given,
                        ..
                    } && at == b && given == registration)
        }),
        service.inner.forwarded(backend, io, registration.protocol, HandlerEvent::Initialize)
            is None,
{
    reveal_with_fuel(registration_steps, 5);
    reveal_with_fuel(initializations, 5);
    let first = service.register_step::<C, E>(registration);
    let steps = registration_steps(service, registration, first, devp2p, libp2p, 4);
    let done = RegisterStep::<D, L, C, E>::Done(Ok(()));
    match service.inner {
        NetworkServiceInner::Both(_, _) => {
            let second = service.registered_step::<C, E>(registration, Backend::Devp2p, devp2p);
            if devp2p is Ok {
                let third = service.registered_step::<C, E>(registration, Backend::Libp2p, libp2p);
                assert(steps =~= seq![first, second, third, done]);
                assert(steps.drop_last() =~= seq![first, second, third]);
                assert(steps.drop_last().drop_last() =~= seq![first, second]);
                assert(steps.drop_last().drop_last().drop_last() =~= seq![first]);
                assert(steps.drop_last().drop_last().drop_last().drop_last() =~= seq![]);
                assert(steps[0] == first);
                assert(steps[1] == second);
            } else {
                assert(steps =~= seq![first, second]);
                assert(steps.drop_last() =~= seq![first]);
                assert(steps.drop_last().drop_last() =~= seq![]);
            }
        },
        NetworkServiceInner::Devp2p(_) => {
            let last = service.registered_step::<C, E>(registration, Backend::Devp2p, devp2p);
            assert(steps =~= seq![first, last]);
            assert(steps.drop_last() =~= seq![first]);
            assert(steps.drop_last().drop_last() =~= seq![]);
            assert(steps[0] == first);
        },
        NetworkServiceInner::Libp2p(_) => {
            let second = service.registered_step::<C, E>(registration, Backend::Libp2p, libp2p);
            assert(steps =~= seq![first, second, done]);
            assert(steps.drop_last() =~= seq![first, second]);
            assert(steps.drop_last().drop_last() =~= seq![first]);
            assert(steps.drop_last().drop_last().drop_last() =~= seq![]);
            assert(steps[0] == first);
        },
    }
}

/// What runs and what comes out when the network is started, from a step on, where the backends
/// reply as given and some backends run already.
pub open spec fn start_outcome<D, L, E>(
    backends: NetworkServiceInner<D, L>,
    step: StartStep<E>,
    running: Set<Backend>,
    devp2p: Result<(), E>,
    libp2p: Result<(), E>,
    steps: nat,
) -> Option<(Set<Backend>, Result<(), E>)>
    decreases steps,
{
    match step {
        StartStep::Done(outcome) => Some((running, outcome)),
        _ if steps == 0 => None,
        StartStep::Start(backend) => {
            let reply = match backend {
                Backend::Devp2p => devp2p,
                Backend::Libp2p => libp2p,
            };
            start_outcome(
                backends,
                backends.started_step::<E>(backend, reply),
                if reply is Ok {
                    running.insert(backend)
                } else {
                    running
                },
                devp2p,
                libp2p,
                (steps - 1) as nat,
            )
        },
        StartStep::Stop(backend, err) => start_outcome(
            backends,
            StartStep::Done(Err(err)),
            running.remove(backend),
            devp2p,
            libp2p,
            (steps - 1) as nat,
        ),
    }
}

/// Starting the network starts every enabled backend or leaves none running: where a backend fails
/// to start, the error comes out and the other backend is stopped again.
pub proof fn law_start_is_all_or_nothing<D, L, E>(
    backends: NetworkServiceInner<D, L>,
    devp2p: Result<(), E>,
    libp2p: Result<(), E>,
)
    ensures
        start_outcome(
            backends,
            backends.start_step::<E>(),
            Set::<Backend>::empty(),
            devp2p,
            libp2p,
            3,
        ) == Some(
            if backends.has(Backend::Devp2p) && devp2p is Err {
                (Set::<Backend>::empty(), devp2p)
            } else if backends.has(Backend::Libp2p) && libp2p is Err {
                (Set::<Backend>::empty(), libp2p)
            } else {
                (backends.enabled().to_set(), Ok(()))
            },
        ),
{
    reveal_with_fuel(start_outcome, 4);
    let all = backends.enabled();
    let none = Set::<Backend>::empty();
    assert(none.insert(Backend::Devp2p).remove(Backend::Devp2p) =~= none);
    match backends {
        NetworkServiceInner::Devp2p(_) => {
            assert(all[0] == Backend::Devp2p);
            assert(all.to_set() =~= none.insert(Backend::Devp2p));
        },
        NetworkServiceInner::Libp2p(_) => {
            assert(all[0] == Backend::Libp2p);
            assert(all.to_set() =~= none.insert(Backend::Libp2p));
        },
        NetworkServiceInner::Both(_, _) => {
            assert(all[0] == Backend::Devp2p);
            assert(all[1] == Backend::Libp2p);
            assert(all.to_set() =~= none.insert(Backend::Devp2p).insert(Backend::Libp2p));
        },
    }
}

} // verus!
