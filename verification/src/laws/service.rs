//! The service that unites the backends.
use std::ops::Range;
use vstd::prelude::*;

use crate::peer_id::PeerId;
use crate::routing::Delegate;
use crate::service::{
    is_reserved_peer_reply, peer_client_version_reply, protocol_version_reply, send_protocol_reply,
    send_reply, session_info_reply, MergedNetworkContext, NetworkService, NetworkServiceInner,
    OpenStep, RegisterStep, Registration, ServiceConfig, StartStep,
};
use crate::types::{Backend, Error, NonReservedPeerMode, ProtocolId, SessionInfo};

verus! {

/// Every number of peers up to the maximum is allowed, and no other, as far as an exclusive end can
/// say.
pub proof fn law_range_is_that_of_the_configuration(config: ServiceConfig, r: Range<u32>)
    requires
        call_ensures(ServiceConfig::peers_range, (&config,), r),
    ensures
        r.start == 0,
        config.max_peers < u32::MAX ==> r.end == config.max_peers + 1,
        config.max_peers == u32::MAX ==> r.end == u32::MAX,
{
}

/// Whether a service has the given backends and allows the numbers of peers that its configuration
/// allows.
pub open spec fn is_opened<D, L>(
    service: NetworkService<D, L>,
    config: ServiceConfig,
    inner: NetworkServiceInner<D, L>,
) -> bool {
    &&& service.inner == inner
    &&& service.num_peers_range.start == 0
    &&& config.max_peers < u32::MAX ==> service.num_peers_range.end == config.max_peers + 1
    &&& config.max_peers == u32::MAX ==> service.num_peers_range.end == u32::MAX
}

/// Devp2p is opened if and only if it is enabled, and then first; libp2p is opened if and only if it
/// is enabled. What a backend fails with ends the opening, and else the service has the backends
/// that were opened.
pub proof fn law_enabled_backends_are_opened<D, L, E>(
    config: ServiceConfig,
    first: OpenStep<D, L, E>,
    devp2p: Result<D, E>,
    second: OpenStep<D, L, E>,
    opened: Option<D>,
    libp2p: Result<L, E>,
    last: OpenStep<D, L, E>,
)
    requires
        call_ensures(NetworkService::<D, L>::new::<E>, (config,), first),
        call_ensures(NetworkService::<D, L>::opened_devp2p::<E>, (config, devp2p), second),
        call_ensures(NetworkService::<D, L>::opened_libp2p::<E>, (config, opened, libp2p), last),
    ensures
        match first {
            OpenStep::OpenDevp2p => config.enabled_devp2p,
            OpenStep::OpenLibp2p(beside) => !config.enabled_devp2p && beside is None,
            OpenStep::Done(_) => false,
        },
        match second {
            OpenStep::OpenDevp2p => false,
            OpenStep::OpenLibp2p(beside) => config.enabled_libp2p && devp2p is Ok && beside == Some(
                devp2p->Ok_0,
            ),
            OpenStep::Done(Ok(service)) => !config.enabled_libp2p && devp2p is Ok && is_opened(
                service,
                config,
                NetworkServiceInner::Devp2p(devp2p->Ok_0),
            ),
            OpenStep::Done(Err(err)) => devp2p == Err::<D, E>(err),
        },
        match last {
            OpenStep::Done(Ok(service)) => libp2p is Ok && is_opened(
                service,
                config,
                match opened {
                    Some(beside) => NetworkServiceInner::Both(beside, libp2p->Ok_0),
                    None => NetworkServiceInner::Libp2p(libp2p->Ok_0),
                },
            ),
            OpenStep::Done(Err(err)) => libp2p == Err::<L, E>(err),
            _ => false,
        },
{
}

/// Every enabled backend is given the protocol as it was registered, devp2p first, in a wrapper if
/// libp2p is enabled. A refusal of devp2p comes out at once. Where libp2p is enabled, the handler is
/// initialized at the end, in the context of its protocol and outside of any session.
pub proof fn law_protocols_are_registered<'a, 'v, D, L, C, E>(
    service: &'a NetworkService<D, L>,
    registration: Registration<'v>,
    first: RegisterStep<'a, 'v, D, L, C, E>,
    devp2p: Result<(), E>,
    after_devp2p: RegisterStep<'a, 'v, D, L, C, E>,
    libp2p: Result<(), E>,
    after_libp2p: RegisterStep<'a, 'v, D, L, C, E>,
)
    requires
        call_ensures(
            NetworkService::<D, L>::register_protocol::<C, E>,
            (service, registration),
            first,
        ),
        call_ensures(
            NetworkService::<D, L>::registered::<C, E>,
            (service, registration, Backend::Devp2p, devp2p),
            after_devp2p,
        ),
        call_ensures(
            NetworkService::<D, L>::registered::<C, E>,
            (service, registration, Backend::Libp2p, libp2p),
            after_libp2p,
        ),
    ensures
        first matches RegisterStep::Register { backend, wrapped, registration: given } && given
            == registration && match service.inner {
            NetworkServiceInner::Devp2p(_) => backend is Devp2p && !wrapped,
            NetworkServiceInner::Libp2p(_) => backend is Libp2p && wrapped,
            NetworkServiceInner::Both(_, _) => backend is Devp2p && wrapped,
        },
        match after_devp2p {
            RegisterStep::Register { backend, wrapped, registration: given } => service.inner is Both
                && devp2p is Ok && backend is Libp2p && wrapped && given == registration,
            RegisterStep::Initialize(_) => false,
            RegisterStep::Done(Ok(())) => !(service.inner is Both) && devp2p is Ok,
            RegisterStep::Done(Err(err)) => devp2p == Err::<(), E>(err),
        },
        after_libp2p matches RegisterStep::Initialize(context) && context.inner == &service.inner
            && context.protocol == registration.protocol && context.context is None,
{
}

/// The enabled backends are started, devp2p first; a failure comes out, and where it is that of the
/// second, the first is stopped again.
pub proof fn law_backends_are_started<D, L, E>(
    inner: &NetworkServiceInner<D, L>,
    first: StartStep<E>,
    backend: Backend,
    reply: Result<(), E>,
    next: StartStep<E>,
)
    requires
        call_ensures(NetworkServiceInner::<D, L>::start::<E>, (inner,), first),
        call_ensures(NetworkServiceInner::<D, L>::started::<E>, (inner, backend, reply), next),
    ensures
        first matches StartStep::Start(asked) && (asked is Libp2p <==> inner is Libp2p),
        match next {
            StartStep::Start(asked) => inner is Both && backend is Devp2p && reply is Ok
                && asked is Libp2p,
            StartStep::Stop(stopped, err) => inner is Both && backend is Libp2p && stopped is Devp2p
                && reply == Err::<(), E>(err),
            StartStep::Done(Ok(())) => reply is Ok && !(inner is Both && backend is Devp2p),
            StartStep::Done(Err(err)) => reply == Err::<(), E>(err) && !(inner is Both
                && backend is Libp2p),
        },
{
}

/// A service is started as its backends are.
pub proof fn law_service_is_started<D, L, E>(
    service: &NetworkService<D, L>,
    first: StartStep<E>,
    backend: Backend,
    reply: Result<(), E>,
    next: StartStep<E>,
)
    requires
        call_ensures(NetworkService::<D, L>::start::<E>, (service,), first),
        call_ensures(NetworkService::<D, L>::started::<E>, (service, backend, reply), next),
    ensures
        first matches StartStep::Start(asked) && (asked is Libp2p <==> service.inner is Libp2p),
        match next {
            StartStep::Start(asked) => service.inner is Both && backend is Devp2p && reply is Ok
                && asked is Libp2p,
            StartStep::Stop(stopped, err) => service.inner is Both && backend is Libp2p
                && stopped is Devp2p && reply == Err::<(), E>(err),
            StartStep::Done(Ok(())) => reply is Ok && !(service.inner is Both
                && backend is Devp2p),
            StartStep::Done(Err(err)) => reply == Err::<(), E>(err) && !(service.inner is Both
                && backend is Libp2p),
        },
{
}

/// Every enabled backend is stopped, and is told the mode that was set; no other is.
pub proof fn law_every_backend_is_told<D, L>(
    service: &NetworkService<D, L>,
    stopped: Vec<Backend>,
    mode: NonReservedPeerMode,
    told: Vec<(Backend, NonReservedPeerMode)>,
    told_inner: Vec<(Backend, NonReservedPeerMode)>,
)
    requires
        call_ensures(NetworkService::<D, L>::stop, (service,), stopped),
        call_ensures(NetworkService::<D, L>::set_non_reserved_mode, (service, mode), told),
        call_ensures(
            NetworkServiceInner::<D, L>::set_non_reserved_mode,
            (&service.inner, mode),
            told_inner,
        ),
    ensures
        match service.inner {
            NetworkServiceInner::Devp2p(_) => stopped@ == seq![Backend::Devp2p] && told@ == seq![
                (Backend::Devp2p, mode),
            ],
            NetworkServiceInner::Libp2p(_) => stopped@ == seq![Backend::Libp2p] && told@ == seq![
                (Backend::Libp2p, mode),
            ],
            NetworkServiceInner::Both(_, _) => stopped@ == seq![Backend::Devp2p, Backend::Libp2p]
                && told@ == seq![(Backend::Devp2p, mode), (Backend::Libp2p, mode)],
        },
        told_inner@ == told@,
{
    match service.inner {
        NetworkServiceInner::Devp2p(_) => {
            assert(told@ =~= seq![(Backend::Devp2p, mode)]);
        },
        NetworkServiceInner::Libp2p(_) => {
            assert(told@ =~= seq![(Backend::Libp2p, mode)]);
        },
        NetworkServiceInner::Both(_, _) => {
            assert(told@ =~= seq![(Backend::Devp2p, mode), (Backend::Libp2p, mode)]);
        },
    }
}

/// The connected peers of every enabled backend are listed, each in its place and under the
/// identifier that handlers see, those of devp2p first.
pub proof fn law_connected_peers_are_listed<D, L>(
    service: &NetworkService<D, L>,
    devp2p: Vec<PeerId>,
    libp2p: Vec<PeerId>,
    r: Vec<PeerId>,
)
    requires
        call_ensures(NetworkService::<D, L>::connected_peers, (service, devp2p, libp2p), r),
        forall|i: int| 0 <= i < devp2p@.len() ==> (#[trigger] devp2p@[i]) < usize::MAX / 2,
        forall|i: int|
            0 <= i < libp2p@.len() ==> usize::MAX - (#[trigger] libp2p@[i]) >= usize::MAX / 2,
    ensures
        ({
            let lower = if service.inner is Libp2p {
                Seq::empty()
            } else {
                devp2p@
            };
            let upper = if service.inner is Devp2p {
                Seq::empty()
            } else {
                libp2p@
            };
            &&& r@.len() == lower.len() + upper.len()
            &&& forall|i: int|
                0 <= i < lower.len() ==> super::calls::stands_for(
                    #[trigger] r@[i],
                    Backend::Devp2p,
                    lower[i],
                )
            &&& forall|i: int|
                lower.len() <= i < r@.len() ==> super::calls::stands_for(
                    #[trigger] r@[i],
                    Backend::Libp2p,
                    upper[i - lower.len()],
                )
        }),
{
}

/// A request for one backend goes to that backend, with the peer that was named; where the backend is
/// disabled, there is nothing to do.
pub proof fn law_reserved_peers_are_handed_on<'a, 'p, D, L, E>(
    service: &'a NetworkService<D, L>,
    peer: &'p str,
    add_devp2p: Delegate<'a, D, &'p str, Result<(), E>>,
    add_libp2p: Delegate<'a, L, &'p str, Result<(), E>>,
    remove_devp2p: Delegate<'a, D, &'p str, Result<(), E>>,
    remove_libp2p: Delegate<'a, L, &'p str, Result<(), E>>,
)
    requires
        call_ensures(
            NetworkService::<D, L>::add_reserved_peer_devp2p::<E>,
            (service, peer),
            add_devp2p,
        ),
        call_ensures(
            NetworkService::<D, L>::add_reserved_peer_libp2p::<E>,
            (service, peer),
            add_libp2p,
        ),
        call_ensures(
            NetworkService::<D, L>::remove_reserved_peer_devp2p::<E>,
            (service, peer),
            remove_devp2p,
        ),
        call_ensures(
            NetworkService::<D, L>::remove_reserved_peer_libp2p::<E>,
            (service, peer),
            remove_libp2p,
        ),
    ensures
        ({
            let (devp2p, libp2p) = super::calls::services(&service.inner);
            &&& match add_devp2p {
                Delegate::Ask(asked, given) => devp2p == Some(asked) && given == peer,
                Delegate::Answer(answer) => devp2p is None && answer is Ok,
            }
            &&& match add_libp2p {
                Delegate::Ask(asked, given) => libp2p == Some(asked) && given == peer,
                Delegate::Answer(answer) => libp2p is None && answer is Ok,
            }
            &&& match remove_devp2p {
                Delegate::Ask(asked, given) => devp2p == Some(asked) && given == peer,
                Delegate::Answer(answer) => devp2p is None && answer is Ok,
            }
            &&& match remove_libp2p {
                Delegate::Ask(asked, given) => libp2p == Some(asked) && given == peer,
                Delegate::Answer(answer) => libp2p is None && answer is Ok,
            }
        }),
{
}

/// The external address is that of devp2p, and the range is that of the service.
pub proof fn law_service_tells_of_itself<'a, D, L>(
    service: &'a NetworkService<D, L>,
    url: Delegate<'a, D, (), Option<String>>,
    range: Range<u32>,
)
    requires
        call_ensures(NetworkService::<D, L>::external_url_devp2p, (service,), url),
        call_ensures(NetworkService::<D, L>::num_peers_range, (service,), range),
    ensures
        match url {
            Delegate::Ask(asked, ()) => super::calls::services(&service.inner).0 == Some(asked),
            Delegate::Answer(answer) => super::calls::services(&service.inner).0 is None
                && answer is None,
        },
        range.start == service.num_peers_range.start,
        range.end == service.num_peers_range.end,
{
}

/// An action runs, on every service and for every protocol, in the context of that protocol and
/// outside of any session, and what it gives comes out.
pub proof fn law_actions_run<D, L, C, A, T, B>(
    service: &NetworkService<D, L>,
    protocol: ProtocolId,
    action: A,
    r: Option<T>,
    mute: B,
) where
    A: FnOnce(&MergedNetworkContext<'_, D, L, C>) -> T,
    B: FnOnce(&MergedNetworkContext<'_, D, L, C>),

    requires
        call_ensures(
            NetworkService::<D, L>::with_context::<C, B>,
            (service, protocol, mute),
            (),
        ),
        call_ensures(
            NetworkService::<D, L>::with_context_eval::<C, A, T>,
            (service, protocol, action),
            r,
        ),
    ensures
        r matches Some(value) && exists|context: &MergedNetworkContext<'_, D, L, C>|
            context.inner == &service.inner && context.protocol == protocol && context.context is None
                && #[trigger] call_ensures(action, (context,), value),
        exists|context: &MergedNetworkContext<'_, D, L, C>|
            context.inner == &service.inner && context.protocol == protocol && context.context is None
                && #[trigger] call_ensures(mute, (context,), ()),
{
    let context = MergedNetworkContext::<'_, D, L, C> {
        inner: &service.inner,
        protocol,
        context: None,
    };
    assert(call_ensures(action, (&context,), r->0));
    assert(call_ensures(mute, (&context,), ()));
}

/// What the backend replies is what the caller gets; without a reply the caller gets that nothing is
/// known.
pub proof fn law_replies_are_handed_on<E>(
    sent: Option<Result<(), E>>,
    send_answer: Result<(), Error<E>>,
    protocol_answer: Result<(), Error<E>>,
    client: Option<String>,
    client_answer: String,
    session: Option<Option<SessionInfo>>,
    session_answer: Option<SessionInfo>,
    version: Option<Option<u8>>,
    version_answer: Option<u8>,
    reserved: Option<bool>,
    reserved_answer: bool,
)
    requires
        sent is Some ==> call_ensures(send_reply::<E>, (sent,), send_answer),
        call_ensures(send_protocol_reply::<E>, (sent,), protocol_answer),
        call_ensures(peer_client_version_reply, (client,), client_answer),
        call_ensures(session_info_reply, (session,), session_answer),
        call_ensures(protocol_version_reply, (version,), version_answer),
        call_ensures(is_reserved_peer_reply, (reserved,), reserved_answer),
    ensures
        sent matches Some(reply) ==> send_answer == protocol_answer && match reply {
            Ok(()) => send_answer is Ok,
            Err(err) => send_answer == Err::<(), Error<E>>(Error::Backend(err)),
        },
        sent is None ==> protocol_answer == Err::<(), Error<E>>(Error::InvalidNodeId),
        match client {
            Some(reply) => client_answer@ == reply@,
            None => client_answer@ == "unknown"@,
        },
        match session {
            Some(reply) => session_answer == reply,
            None => session_answer is None,
        },
        match version {
            Some(reply) => version_answer == reply,
            None => version_answer is None,
        },
        match reserved {
            Some(reply) => reserved_answer == reply,
            None => !reserved_answer,
        },
{
}

} // verus!
