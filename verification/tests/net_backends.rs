use netmerge::config::{BasicNetworkConfiguration, ReservedProtocols};
use netmerge::net_backends_merge::{
    peer_client_version_reply, send_reply, ChainStep, MergedNetworkContext, NetBackend,
    NetworkConfiguration, OpenError, OpenStep,
};
use netmerge::routing::{BackendRef, Delegate, HandlerEvent, PeerCall, Session, Step};
use netmerge::service::{NetworkServiceInner, StartStep};
use netmerge::types::{Backend, NonReservedPeerMode, SocketAddr};

type Backends = NetBackend<&'static str, &'static str>;
type Outside<'a> =
    netmerge::service::MergedNetworkContext<'a, &'static str, &'static str, u8>;
type Config = NetworkConfiguration<(), ()>;

const WARP: [u8; 3] = *b"par";

fn devp2p() -> Backends {
    NetBackend { inner: NetworkServiceInner::Devp2p("devp2p") }
}

fn libp2p() -> Backends {
    NetBackend { inner: NetworkServiceInner::Libp2p("libp2p") }
}

fn both() -> Backends {
    NetBackend { inner: NetworkServiceInner::Both("devp2p", "libp2p") }
}

fn parse(text: &String) -> Result<SocketAddr, String> {
    match text.as_str() {
        "local" => Ok(SocketAddr::V4 { octets: [127, 0, 0, 1], port: 1 }),
        _ => Err(text.clone()),
    }
}

fn config(listen: &str, max_peers: u32) -> Config {
    let basic = BasicNetworkConfiguration {
        config_path: None,
        net_config_path: None,
        listen_address: Some(SocketAddr::V4 { octets: [127, 0, 0, 1], port: 1 }),
        public_address: None,
        udp_port: None,
        nat_enabled: true,
        discovery_enabled: true,
        boot_nodes: vec![],
        use_secret: None,
        max_peers,
        min_peers: 25,
        max_handshakes: 64,
        reserved_protocols: ReservedProtocols::new(),
        reserved_nodes: vec![],
        ip_filter: (),
        non_reserved_mode: NonReservedPeerMode::Accept,
        client_version: "client".to_string(),
    };
    NetworkConfiguration::new_local(basic, WARP, |_| listen.to_string())
}

fn open(
    devp2p_config: Option<Config>,
    libp2p_config: Option<Config>,
    devp2p: Result<&'static str, u8>,
    libp2p: Result<&'static str, u8>,
) -> (Vec<(Backend, u32)>, Result<Backends, OpenError<String, u8>>) {
    let mut opened = vec![];
    let mut step = Backends::new(devp2p_config, libp2p_config, WARP, parse);
    loop {
        step = match step {
            OpenStep::OpenDevp2p { config, libp2p } => {
                opened.push((Backend::Devp2p, config.max_peers));
                Backends::opened_devp2p(devp2p, libp2p, WARP, parse)
            }
            OpenStep::OpenLibp2p { config, devp2p } => {
                opened.push((Backend::Libp2p, config.max_peers));
                return (opened, Backends::opened_libp2p(devp2p, libp2p));
            }
            OpenStep::Done(outcome) => return (opened, outcome),
        };
    }
}

#[test]
fn configured_backends_are_opened() {
    let (opened, backends) =
        open(Some(config("local", 1)), Some(config("local", 2)), Ok("d"), Ok("l"));
    assert_eq!(opened, vec![(Backend::Devp2p, 1), (Backend::Libp2p, 2)]);
    assert!(matches!(
        backends.unwrap_or_else(|_| panic!("not opened")).inner,
        NetworkServiceInner::Both("d", "l")
    ));
    let (opened, backends) = open(Some(config("local", 1)), None, Ok("d"), Ok("l"));
    assert_eq!(opened, vec![(Backend::Devp2p, 1)]);
    assert!(matches!(
        backends.unwrap_or_else(|_| panic!("not opened")).inner,
        NetworkServiceInner::Devp2p("d")
    ));
    let (opened, backends) = open(None, Some(config("local", 2)), Ok("d"), Ok("l"));
    assert_eq!(opened, vec![(Backend::Libp2p, 2)]);
    assert!(matches!(
        backends.unwrap_or_else(|_| panic!("not opened")).inner,
        NetworkServiceInner::Libp2p("l")
    ));
}

#[test]
fn opening_stops_at_the_first_error() {
    let address = |text: &str| OpenError::Address(text.to_string());
    let (opened, backends) =
        open(Some(config("bad", 1)), Some(config("worse", 2)), Ok("d"), Ok("l"));
    assert!(opened.is_empty());
    assert_eq!(backends.err(), Some(address("bad")));
    let (opened, backends) =
        open(Some(config("local", 1)), Some(config("worse", 2)), Ok("d"), Ok("l"));
    assert_eq!(opened, vec![(Backend::Devp2p, 1)]);
    assert_eq!(backends.err(), Some(address("worse")));
    let (opened, backends) =
        open(Some(config("local", 1)), Some(config("worse", 2)), Err(7), Ok("l"));
    assert_eq!(opened, vec![(Backend::Devp2p, 1)]);
    assert_eq!(backends.err(), Some(OpenError::Backend(7)));
    let (_, backends) = open(None, Some(config("local", 2)), Ok("d"), Err(8));
    assert_eq!(backends.err(), Some(OpenError::Backend(8)));
    let (_, backends) = open(None, Some(config("bad", 2)), Ok("d"), Ok("l"));
    assert_eq!(backends.err(), Some(address("bad")));
}

fn run<A>(
    backends: &Backends,
    first: ChainStep<A, u8>,
    devp2p: Result<(), u8>,
    libp2p: Result<(), u8>,
) -> (Vec<Backend>, Result<(), u8>) {
    let mut asked = vec![];
    let mut step = first;
    loop {
        step = match step {
            ChainStep::Ask(backend, request) => {
                asked.push(backend);
                let reply = if backend == Backend::Devp2p { devp2p } else { libp2p };
                backends.chained(backend, reply, request)
            }
            ChainStep::Done(outcome) => return (asked, outcome),
        };
    }
}

#[test]
fn requests_go_to_every_backend_up_to_an_error() {
    let all = both();
    let order = vec![Backend::Devp2p, Backend::Libp2p];
    assert_eq!(run(&all, all.stop(), Ok(()), Ok(())), (order.clone(), Ok(())));
    assert_eq!(run(&all, all.stop(), Err(1), Ok(())), (vec![Backend::Devp2p], Err(1)));
    assert_eq!(run(&all, all.add_reserved_peer("p"), Ok(()), Err(2)), (order.clone(), Err(2)));
    assert_eq!(run(&all, all.remove_reserved_peer("p"), Ok(()), Ok(())), (order.clone(), Ok(())));
    let versions = [1, 2];
    let step = all.register_protocol(*b"eth", 8, &versions);
    assert!(matches!(step, ChainStep::Ask(Backend::Devp2p, ([b'e', b't', b'h'], 8, [1, 2]))));
    assert_eq!(run(&all, step, Ok(()), Ok(())), (order, Ok(())));
    let one = devp2p();
    assert_eq!(run(&one, one.stop(), Err(1), Ok(())), (vec![Backend::Devp2p], Err(1)));
    let one = libp2p();
    assert_eq!(run(&one, one.stop(), Err(1), Ok(())), (vec![Backend::Libp2p], Ok(())));
}

#[test]
fn failed_start_of_libp2p_stops_devp2p() {
    let all = both();
    assert!(matches!(all.start::<u8>(), StartStep::Start(Backend::Devp2p)));
    assert!(matches!(
        all.started::<u8>(Backend::Devp2p, Ok(())),
        StartStep::Start(Backend::Libp2p)
    ));
    assert!(matches!(
        all.started(Backend::Libp2p, Err(9u8)),
        StartStep::Stop(Backend::Devp2p, 9)
    ));
    assert!(matches!(all.started(Backend::Devp2p, Err(9u8)), StartStep::Done(Err(9))));
    assert!(matches!(libp2p().start::<u8>(), StartStep::Start(Backend::Libp2p)));
}

#[test]
fn configuration_is_that_of_devp2p_first() {
    assert!(matches!(both().config(), BackendRef::Devp2p(&"devp2p")));
    assert!(matches!(devp2p().config(), BackendRef::Devp2p(&"devp2p")));
    assert!(matches!(libp2p().config(), BackendRef::Libp2p(&"libp2p")));
}

#[test]
fn peers_always_go_by_exposed_identifiers() {
    assert_eq!(both().connected_peers(vec![4], vec![4]), vec![4, usize::MAX - 4]);
    assert_eq!(devp2p().connected_peers(vec![4], vec![5]), vec![4]);
    assert_eq!(libp2p().connected_peers(vec![4], vec![5]), vec![usize::MAX - 5]);
}

#[test]
fn mode_and_url_go_to_the_backends() {
    let accept = NonReservedPeerMode::Accept;
    assert_eq!(
        both().set_non_reserved_mode(accept),
        vec![(Backend::Devp2p, accept), (Backend::Libp2p, accept)]
    );
    assert!(matches!(both().external_url(), Delegate::Ask(&"devp2p", ())));
    assert!(matches!(libp2p().external_url(), Delegate::Answer(None)));
}

#[test]
fn handlers_are_initialized_once() {
    let all = both();
    let io = 1u8;
    assert!(all.forward(Backend::Devp2p, &io, *b"eth", HandlerEvent::Initialize).is_none());
    assert!(matches!(
        all.forward(Backend::Libp2p, &io, *b"eth", HandlerEvent::Initialize),
        Some((_, HandlerEvent::Initialize))
    ));
    for (one, backend) in [(devp2p(), Backend::Devp2p), (libp2p(), Backend::Libp2p)] {
        assert!(matches!(
            one.forward(backend, &io, *b"eth", HandlerEvent::Initialize),
            Some((_, HandlerEvent::Initialize))
        ));
    }
}

#[test]
fn actions_run_outside_of_a_session() {
    let all = both();
    let called = all.with_context_eval(*b"eth", |context: &Outside<'_>| {
        assert_eq!(context.subprotocol_name(), *b"eth");
        assert!(context.context.is_none());
        assert!(matches!(
            context.send::<u8>(usize::MAX - 6, 1, vec![]),
            Step::Libp2p { libp2p: &"libp2p", protocol: [b'e', b't', b'h'], peer: 6, .. }
        ));
        assert!(matches!(
            context.disconnect_peer(6),
            Step::Devp2p { devp2p: &"devp2p", peer: 6, call: PeerCall::DisconnectPeer, .. }
        ));
        42
    });
    assert_eq!(called, Some(42));
    let called = std::cell::Cell::new(false);
    libp2p().with_context(*b"par", |context: &Outside<'_>| {
        assert!(matches!(context.is_reserved_peer(6), Step::Answer(false)));
        called.set(true);
    });
    assert!(called.get());
}

#[test]
fn handlers_see_exposed_peers_in_the_session() {
    let all = both();
    let io = 1u8;
    match all.forward(Backend::Libp2p, &io, *b"eth", HandlerEvent::Connected(6)) {
        Some((context, HandlerEvent::Connected(peer))) => {
            assert_eq!(peer, usize::MAX - 6);
            assert_eq!(context.subprotocol_name(), *b"eth");
            assert!(matches!(
                context.send(peer, 1, vec![]),
                Step::Session { context: &1, peer: 6, call: PeerCall::Send { packet_id: 1, .. } }
            ));
            assert!(matches!(
                context.send_protocol(*b"par", 6, 1, vec![]),
                Step::Devp2p { peer: 6, protocol: [b'e', b't', b'h'], .. }
            ));
        }
        _ => panic!("not told"),
    }
}

#[test]
fn session_gets_what_concerns_no_peer() {
    let io = 5u8;
    let context: MergedNetworkContext<'_, &'static str, &'static str, u8> = MergedNetworkContext {
        devp2p: None,
        libp2p: Some(&"libp2p"),
        protocol: *b"eth",
        context: Session::Libp2p(&io),
    };
    let call = context.respond(2, vec![9]);
    assert_eq!((*call.context, call.arguments), (5, (2, vec![9])));
    let call = context.register_timer(3, 100);
    assert_eq!((*call.context, call.arguments), (5, (3, 100)));
    assert_eq!(*context.is_expired().context, 5);
    assert!(matches!(context.disable_peer(1), Step::Answer(())));
    assert!(matches!(context.disconnect_peer(1), Step::Answer(())));
    match context.peer_client_version(1) {
        Step::Answer(version) => assert_eq!(version, ""),
        _ => panic!("a backend was asked"),
    }
    assert!(matches!(context.session_info(1), Step::Answer(None)));
    assert!(matches!(context.protocol_version(*b"eth", 1), Step::Answer(None)));
    assert!(matches!(
        context.disable_peer(!1),
        Step::Session { context: &5, peer: 1, call: PeerCall::DisablePeer }
    ));
}

#[test]
fn replies_are_handed_on() {
    assert_eq!(send_reply::<u8>(Some(Err(3))), Err(3));
    assert_eq!(send_reply::<u8>(Some(Ok(()))), Ok(()));
    assert_eq!(peer_client_version_reply(None), "");
    assert_eq!(peer_client_version_reply(Some("v".to_string())), "v");
}
