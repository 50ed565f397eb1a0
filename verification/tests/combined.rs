use netmerge::peer_id::PeerId;
use netmerge::routing::{BackendRef, Delegate, HandlerEvent, PeerCall, Session, Step};
use netmerge::service::{
    is_reserved_peer_reply, peer_client_version_reply, protocol_version_reply, send_protocol_reply,
    send_reply, session_info_reply, MergedNetworkContext, NetworkService, NetworkServiceInner,
    OpenStep, RegisterStep, Registration, ServiceConfig, StartStep,
};
use netmerge::types::{Backend, Error, NonReservedPeerMode};

type Service = NetworkService<&'static str, &'static str>;
type Context<'a> = MergedNetworkContext<'a, &'static str, &'static str, u8>;

fn devp2p() -> Service {
    NetworkService { inner: NetworkServiceInner::Devp2p("devp2p"), num_peers_range: 0..1 }
}

fn libp2p() -> Service {
    NetworkService { inner: NetworkServiceInner::Libp2p("libp2p"), num_peers_range: 0..1 }
}

fn both() -> Service {
    NetworkService { inner: NetworkServiceInner::Both("devp2p", "libp2p"), num_peers_range: 0..1 }
}

fn open(
    enabled_devp2p: bool,
    enabled_libp2p: bool,
    devp2p: Result<&'static str, u8>,
    libp2p: Result<&'static str, u8>,
) -> (Vec<Backend>, Result<Service, u8>) {
    let config = ServiceConfig { enabled_devp2p, enabled_libp2p, max_peers: 50 };
    let mut opened = vec![];
    let mut step = Service::new(config);
    loop {
        step = match step {
            OpenStep::OpenDevp2p => {
                opened.push(Backend::Devp2p);
                Service::opened_devp2p(config, devp2p)
            }
            OpenStep::OpenLibp2p(before) => {
                opened.push(Backend::Libp2p);
                Service::opened_libp2p(config, before, libp2p)
            }
            OpenStep::Done(outcome) => return (opened, outcome),
        };
    }
}

#[test]
fn enabled_backends_are_opened() {
    let (opened, service) = open(true, true, Ok("d"), Ok("l"));
    assert_eq!(opened, vec![Backend::Devp2p, Backend::Libp2p]);
    let service = service.unwrap_or_else(|_| panic!("not opened"));
    assert!(matches!(service.inner, NetworkServiceInner::Both("d", "l")));
    assert_eq!(service.num_peers_range(), 0..51);

    let (opened, service) = open(true, false, Ok("d"), Ok("l"));
    assert_eq!(opened, vec![Backend::Devp2p]);
    let service = service.unwrap_or_else(|_| panic!("not opened"));
    assert!(matches!(service.inner, NetworkServiceInner::Devp2p("d")));

    let (opened, service) = open(false, true, Ok("d"), Ok("l"));
    assert_eq!(opened, vec![Backend::Libp2p]);
    let service = service.unwrap_or_else(|_| panic!("not opened"));
    assert!(matches!(service.inner, NetworkServiceInner::Libp2p("l")));
}

#[test]
fn first_error_ends_the_opening() {
    let (opened, service) = open(true, true, Err(1), Err(2));
    assert_eq!(opened, vec![Backend::Devp2p]);
    assert!(matches!(service, Err(1)));
    let (opened, service) = open(true, true, Ok("d"), Err(2));
    assert_eq!(opened, vec![Backend::Devp2p, Backend::Libp2p]);
    assert!(matches!(service, Err(2)));
    let (_, service) = open(false, true, Ok("d"), Err(3));
    assert!(matches!(service, Err(3)));
    let (_, service) = open(true, false, Err(4), Ok("l"));
    assert!(matches!(service, Err(4)));
}

#[test]
fn backends_are_found() {
    assert_eq!(both().inner.devp2p(), Some(&"devp2p"));
    assert_eq!(both().inner.libp2p(), Some(&"libp2p"));
    assert_eq!(devp2p().inner.libp2p(), None);
    assert_eq!(libp2p().inner.devp2p(), None);
}

fn register(
    service: &Service,
    devp2p: Result<(), u8>,
    libp2p: Result<(), u8>,
) -> (Vec<(Backend, bool)>, usize, Result<(), u8>) {
    let versions = [(63, 17)];
    let registration = Registration { protocol: *b"eth", versions: &versions };
    let mut registered = vec![];
    let mut initialized = 0;
    let mut step: RegisterStep<'_, '_, _, _, u8, u8> = service.register_protocol(registration);
    loop {
        step = match step {
            RegisterStep::Register { backend, wrapped, registration: given } => {
                assert_eq!(given.protocol, *b"eth");
                assert_eq!(given.versions, &[(63, 17)]);
                registered.push((backend, wrapped));
                let reply = if backend == Backend::Devp2p { devp2p } else { libp2p };
                service.registered(given, backend, reply)
            }
            RegisterStep::Initialize(context) => {
                assert_eq!(context.subprotocol_name(), *b"eth");
                assert!(context.context.is_none());
                initialized += 1;
                RegisterStep::Done(Ok(()))
            }
            RegisterStep::Done(outcome) => return (registered, initialized, outcome),
        };
    }
}

#[test]
fn handler_of_both_backends_is_wrapped_and_initialized_once() {
    assert_eq!(
        register(&both(), Ok(()), Ok(())),
        (vec![(Backend::Devp2p, true), (Backend::Libp2p, true)], 1, Ok(()))
    );
    assert_eq!(
        register(&both(), Ok(()), Err(2)),
        (vec![(Backend::Devp2p, true), (Backend::Libp2p, true)], 1, Ok(()))
    );
    assert_eq!(register(&both(), Err(1), Ok(())), (vec![(Backend::Devp2p, true)], 0, Err(1)));
}

#[test]
fn handler_of_devp2p_alone_is_not_wrapped() {
    assert_eq!(register(&devp2p(), Ok(()), Ok(())), (vec![(Backend::Devp2p, false)], 0, Ok(())));
    assert_eq!(register(&devp2p(), Err(1), Ok(())), (vec![(Backend::Devp2p, false)], 0, Err(1)));
}

#[test]
fn handler_of_libp2p_alone_is_wrapped_and_initialized_once() {
    assert_eq!(register(&libp2p(), Ok(()), Ok(())), (vec![(Backend::Libp2p, true)], 1, Ok(())));
    assert_eq!(register(&libp2p(), Ok(()), Err(2)), (vec![(Backend::Libp2p, true)], 1, Ok(())));
}

#[test]
fn handlers_are_told_the_listed_peers() {
    let io = 1u8;
    for (service, backend) in [
        (libp2p(), Backend::Libp2p),
        (both(), Backend::Libp2p),
        (both(), Backend::Devp2p),
    ] {
        let own = vec![0usize, 7];
        let listed = match backend {
            Backend::Devp2p => service.connected_peers(own.clone(), vec![]),
            Backend::Libp2p => service.connected_peers(vec![], own.clone()),
        };
        for (peer, shown) in own.into_iter().zip(listed) {
            let event = HandlerEvent::Connected(peer);
            match service.inner.forward(backend, &io, *b"eth", event) {
                Some((_, HandlerEvent::Connected(told))) => assert_eq!(told, shown),
                _ => panic!("not told"),
            }
        }
    }
}

fn start(
    service: &Service,
    devp2p: Result<(), u8>,
    libp2p: Result<(), u8>,
) -> (Vec<Backend>, Result<(), u8>) {
    let mut running = vec![];
    let mut step = service.start();
    loop {
        step = match step {
            StartStep::Start(backend) => {
                let reply = if backend == Backend::Devp2p { devp2p } else { libp2p };
                if reply.is_ok() {
                    running.push(backend);
                }
                service.started(backend, reply)
            }
            StartStep::Stop(backend, err) => {
                running.retain(|b| *b != backend);
                StartStep::Done(Err(err))
            }
            StartStep::Done(outcome) => return (running, outcome),
        };
    }
}

#[test]
fn start_is_all_or_nothing() {
    assert_eq!(
        start(&both(), Ok(()), Ok(())),
        (vec![Backend::Devp2p, Backend::Libp2p], Ok(()))
    );
    assert_eq!(start(&both(), Err(1), Ok(())), (vec![], Err(1)));
    assert_eq!(start(&both(), Ok(()), Err(2)), (vec![], Err(2)));
    assert_eq!(start(&devp2p(), Ok(()), Err(2)), (vec![Backend::Devp2p], Ok(())));
    assert_eq!(start(&libp2p(), Err(1), Ok(())), (vec![Backend::Libp2p], Ok(())));
    assert_eq!(start(&libp2p(), Ok(()), Err(2)), (vec![], Err(2)));
}

#[test]
fn enabled_backends_are_stopped_and_told_the_mode() {
    assert_eq!(both().stop(), vec![Backend::Devp2p, Backend::Libp2p]);
    assert_eq!(devp2p().stop(), vec![Backend::Devp2p]);
    assert_eq!(libp2p().stop(), vec![Backend::Libp2p]);
    let deny = NonReservedPeerMode::Deny;
    assert_eq!(
        both().set_non_reserved_mode(deny),
        vec![(Backend::Devp2p, deny), (Backend::Libp2p, deny)]
    );
    assert_eq!(libp2p().set_non_reserved_mode(deny), vec![(Backend::Libp2p, deny)]);
}

#[test]
fn peers_of_both_backends_are_listed() {
    assert_eq!(
        both().connected_peers(vec![1, 2], vec![0, 3]),
        vec![1, 2, usize::MAX, usize::MAX - 3]
    );
    assert_eq!(devp2p().connected_peers(vec![1, 2], vec![]), vec![1, 2]);
    assert_eq!(
        libp2p().connected_peers(vec![], vec![0, 1]),
        vec![usize::MAX, usize::MAX - 1]
    );
}

#[test]
fn reserved_peers_go_to_their_backend() {
    assert!(matches!(
        both().add_reserved_peer_devp2p::<u8>("enode"),
        Delegate::Ask(&"devp2p", "enode")
    ));
    assert!(matches!(
        both().add_reserved_peer_libp2p::<u8>("multiaddr"),
        Delegate::Ask(&"libp2p", "multiaddr")
    ));
    assert!(matches!(
        devp2p().remove_reserved_peer_devp2p::<u8>("enode"),
        Delegate::Ask(&"devp2p", "enode")
    ));
    assert!(matches!(
        libp2p().remove_reserved_peer_libp2p::<u8>("multiaddr"),
        Delegate::Ask(&"libp2p", "multiaddr")
    ));
    assert!(matches!(
        libp2p().add_reserved_peer_devp2p::<u8>("enode"),
        Delegate::Answer(Ok(()))
    ));
    assert!(matches!(
        devp2p().add_reserved_peer_libp2p::<u8>("multiaddr"),
        Delegate::Answer(Ok(()))
    ));
    assert!(matches!(
        libp2p().remove_reserved_peer_devp2p::<u8>("enode"),
        Delegate::Answer(Ok(()))
    ));
    assert!(matches!(
        devp2p().remove_reserved_peer_libp2p::<u8>("multiaddr"),
        Delegate::Answer(Ok(()))
    ));
}

#[test]
fn external_url_is_that_of_devp2p() {
    assert!(matches!(both().external_url_devp2p(), Delegate::Ask(&"devp2p", ())));
    assert!(matches!(devp2p().external_url_devp2p(), Delegate::Ask(&"devp2p", ())));
    assert!(matches!(libp2p().external_url_devp2p(), Delegate::Answer(None)));
}

#[test]
fn actions_always_run() {
    let service = both();
    let name =
        service.with_context_eval(*b"eth", |context: &Context<'_>| context.subprotocol_name());
    assert_eq!(name, Some(*b"eth"));
    let called = std::cell::Cell::new(false);
    service.with_context(*b"eth", |_: &Context<'_>| called.set(true));
    assert!(called.get());
}

fn sent<'a>(context: &Context<'a>, peer: PeerId) -> (&'static str, PeerId, Vec<u8>) {
    match context.send::<u8>(peer, 4, vec![1, 2]) {
        Step::Session { peer, call: PeerCall::Send { packet_id: 4, data }, .. } => {
            ("session", peer, data)
        }
        Step::Devp2p { devp2p, protocol, peer, call: PeerCall::Send { packet_id: 4, data } } => {
            assert_eq!(protocol, *b"eth");
            (*devp2p, peer, data)
        }
        Step::Libp2p { libp2p, protocol, peer, call: PeerCall::Send { packet_id: 4, data } } => {
            assert_eq!(protocol, *b"eth");
            (*libp2p, peer, data)
        }
        Step::Answer(answer) => {
            assert_eq!(answer, Err(Error::InvalidNodeId));
            ("nowhere", 0, vec![])
        }
        _ => panic!("another call"),
    }
}

#[test]
fn calls_reach_the_backend_of_the_peer() {
    let service = both();
    let session = 1u8;
    let in_devp2p: Context<'_> = MergedNetworkContext {
        inner: &service.inner,
        protocol: *b"eth",
        context: Some(Session::Devp2p(&session)),
    };
    assert_eq!(sent(&in_devp2p, 5), ("session", 5, vec![1, 2]));
    assert_eq!(sent(&in_devp2p, usize::MAX - 5), ("libp2p", 5, vec![1, 2]));
    let in_libp2p: Context<'_> = MergedNetworkContext {
        inner: &service.inner,
        protocol: *b"eth",
        context: Some(Session::Libp2p(&session)),
    };
    assert_eq!(sent(&in_libp2p, 5), ("devp2p", 5, vec![1, 2]));
    assert_eq!(sent(&in_libp2p, usize::MAX - 5), ("session", 5, vec![1, 2]));
    let outside: Context<'_> =
        MergedNetworkContext { inner: &service.inner, protocol: *b"eth", context: None };
    assert_eq!(sent(&outside, 5), ("devp2p", 5, vec![1, 2]));
    assert_eq!(sent(&outside, usize::MAX - 5), ("libp2p", 5, vec![1, 2]));
}

#[test]
fn peers_of_a_disabled_backend_are_not_known() {
    let service = devp2p();
    let context: Context<'_> =
        MergedNetworkContext { inner: &service.inner, protocol: *b"eth", context: None };
    let peer = usize::MAX;
    assert_eq!(sent(&context, peer), ("nowhere", 0, vec![]));
    assert!(matches!(
        context.send_protocol::<u8>(*b"par", peer, 1, vec![]),
        Step::Answer(Err(Error::InvalidNodeId))
    ));
    assert!(matches!(context.disable_peer(peer), Step::Answer(())));
    assert!(matches!(context.disconnect_peer(peer), Step::Answer(())));
    match context.peer_client_version(peer) {
        Step::Answer(version) => assert_eq!(version, "unknown"),
        _ => panic!("a backend was asked"),
    }
    assert!(matches!(context.session_info(peer), Step::Answer(None)));
    assert!(matches!(context.protocol_version(*b"eth", peer), Step::Answer(None)));
    assert!(matches!(context.is_reserved_peer(peer), Step::Answer(false)));
}

#[test]
fn calls_keep_their_arguments() {
    let service = both();
    let context: Context<'_> =
        MergedNetworkContext { inner: &service.inner, protocol: *b"eth", context: None };
    match context.send_protocol::<u8>(*b"par", 3, 9, vec![7]) {
        Step::Devp2p { protocol, peer, call: PeerCall::SendProtocol { protocol: of, packet_id, data }, .. } => {
            assert_eq!((protocol, peer, of, packet_id, data), (*b"eth", 3, *b"par", 9, vec![7]));
        }
        _ => panic!("another call"),
    }
    assert!(matches!(
        context.disable_peer(3),
        Step::Devp2p { peer: 3, call: PeerCall::DisablePeer, .. }
    ));
    assert!(matches!(
        context.disconnect_peer(!3),
        Step::Libp2p { peer: 3, call: PeerCall::DisconnectPeer, .. }
    ));
    assert!(matches!(
        context.peer_client_version(3),
        Step::Devp2p { peer: 3, call: PeerCall::PeerClientVersion, .. }
    ));
    assert!(matches!(
        context.session_info(!3),
        Step::Libp2p { peer: 3, call: PeerCall::SessionInfo, .. }
    ));
    assert!(matches!(
        context.protocol_version(*b"par", 3),
        Step::Devp2p { peer: 3, call: PeerCall::ProtocolVersion([b'p', b'a', b'r']), .. }
    ));
    assert!(matches!(
        context.is_reserved_peer(!3),
        Step::Libp2p { peer: 3, call: PeerCall::IsReservedPeer, .. }
    ));
}

#[test]
fn session_answers_and_expires() {
    let service = both();
    let session = 42u8;
    let context: Context<'_> = MergedNetworkContext {
        inner: &service.inner,
        protocol: *b"eth",
        context: Some(Session::Libp2p(&session)),
    };
    let call = context.respond(3, vec![4]);
    assert_eq!((*call.context, call.arguments), (42, (3, vec![4])));
    assert_eq!(*context.is_expired().context, 42);
}

#[test]
fn timers_are_not_split() {
    let services = [devp2p(), libp2p(), both()];
    let mut names = vec![];
    for service in services.iter() {
        let context: Context<'_> =
            MergedNetworkContext { inner: &service.inner, protocol: *b"eth", context: None };
        let timer = context.register_timer(5, 1000u64);
        assert_eq!((timer.protocol, timer.token, timer.duration), (*b"eth", 5, 1000));
        names.push(match timer.service {
            BackendRef::Devp2p(name) => *name,
            BackendRef::Libp2p(name) => *name,
        });
    }
    assert_eq!(names, vec!["devp2p", "libp2p", "libp2p"]);
}

#[test]
fn replies_become_answers() {
    assert_eq!(send_reply::<u8>(Some(Ok(()))), Ok(()));
    assert_eq!(send_reply::<u8>(Some(Err(6))), Err(Error::Backend(6)));
    assert_eq!(send_protocol_reply::<u8>(Some(Ok(()))), Ok(()));
    assert_eq!(send_protocol_reply::<u8>(Some(Err(6))), Err(Error::Backend(6)));
    assert_eq!(send_protocol_reply::<u8>(None), Err(Error::InvalidNodeId));
    assert_eq!(peer_client_version_reply(Some("x".to_string())), "x");
    assert_eq!(peer_client_version_reply(None), "unknown");
    assert_eq!(session_info_reply(None), None);
    assert_eq!(session_info_reply(Some(None)), None);
    assert_eq!(protocol_version_reply(Some(Some(3))), Some(3));
    assert_eq!(protocol_version_reply(Some(None)), None);
    assert_eq!(protocol_version_reply(None), None);
    assert!(is_reserved_peer_reply(Some(true)));
    assert!(!is_reserved_peer_reply(Some(false)));
    assert!(!is_reserved_peer_reply(None));
}

#[test]
fn wrapped_handlers_see_exposed_peers() {
    let service = both();
    let io = 8u8;
    let data = [1, 2, 3];
    let event = HandlerEvent::Read { peer: 2, packet_id: 6, data: &data };
    match service.inner.forward(Backend::Libp2p, &io, *b"eth", event) {
        Some((context, HandlerEvent::Read { peer, packet_id, data })) => {
            assert_eq!((peer, packet_id, data), (usize::MAX - 2, 6, &[1, 2, 3][..]));
            assert_eq!(context.subprotocol_name(), *b"eth");
            assert_eq!(sent(&context, peer), ("session", 2, vec![1, 2]));
        }
        _ => panic!("not told"),
    }
    match service.inner.forward(Backend::Devp2p, &io, *b"eth", HandlerEvent::Connected(2)) {
        Some((context, HandlerEvent::Connected(peer))) => {
            assert_eq!(peer, 2);
            assert_eq!(sent(&context, peer), ("session", 2, vec![1, 2]));
        }
        _ => panic!("not told"),
    }
    assert!(matches!(
        service.inner.forward(Backend::Libp2p, &io, *b"eth", HandlerEvent::Disconnected(0)),
        Some((_, HandlerEvent::Disconnected(usize::MAX)))
    ));
    assert!(matches!(
        service.inner.forward(Backend::Devp2p, &io, *b"eth", HandlerEvent::Timeout(4)),
        Some((_, HandlerEvent::Timeout(4)))
    ));
}

#[test]
fn wrapped_handlers_are_not_initialized() {
    let service = both();
    let io = 8u8;
    for backend in [Backend::Devp2p, Backend::Libp2p] {
        assert!(service.inner.forward(backend, &io, *b"eth", HandlerEvent::Initialize).is_none());
    }
}

#[test]
fn allowed_peers_come_from_the_configuration() {
    let range = |max_peers| {
        ServiceConfig { enabled_devp2p: true, enabled_libp2p: true, max_peers }.peers_range()
    };
    assert_eq!(range(0), 0..1);
    assert_eq!(range(25), 0..26);
    assert!(range(25).contains(&25));
    assert!(!range(25).contains(&26));
    assert_eq!(range(u32::MAX - 1), 0..u32::MAX);
    assert_eq!(range(u32::MAX), 0..u32::MAX);
}

#[test]
fn listed_peers_of_libp2p_lead_back_to_libp2p() {
    let service = libp2p();
    for (own, peer) in service.connected_peers(vec![], vec![0, 1]).into_iter().enumerate() {
        service.with_context(*b"eth", |context: &Context<'_>| {
            assert_eq!(sent(context, peer), ("libp2p", own, vec![1, 2]));
        });
    }
}
