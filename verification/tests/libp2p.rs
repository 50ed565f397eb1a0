use bytes::{Bytes, BytesMut};
use multiaddr::{AddrComponent, Multiaddr};
use netmerge::config::{BasicNetworkConfiguration, ReservedProtocols};
use netmerge::libp2p::address::{
    bootnode_key, has_onion, listen_address, node_id, node_of_addr, parse_bootnode, peer_address,
    remote_node_id, BootnodeError, Component,
};
use netmerge::libp2p::protocol::{sort_versions, to_decimal};
use netmerge::libp2p::service::{Setup, SetupError};
use netmerge::libp2p::shared::Shared;
use netmerge::libp2p::substream::{IgnoreReason, LoopStep, Message, Substream, UpgradeError};
use netmerge::libp2p::upgrade::{select_upgrade, UpgradeTarget};
use netmerge::libp2p::NetworkService;
use netmerge::types::{NonReservedPeerMode, SocketAddr};

const KEY_TEXT: &str = "QmcgpsyWgH8Y8ajJz1Cu72KnS5uo2Aa2LpzU7kinSupNKC";
const OTHER_TEXT: &str = "QmYwAPJzv5CZsnA625s3Xf2nemtYgPpHdWEz79ojWnPbdG";

const KEY: [u8; 34] = [
    0x12, 0x20, 0xd5, 0x2e, 0xbb, 0x89, 0xd8, 0x5b, 0x02, 0xa2, 0x84, 0x94, 0x82, 0x03, 0xa6, 0x2f,
    0xf2, 0x83, 0x89, 0xc5, 0x7c, 0x9f, 0x42, 0xbe, 0xec, 0x4e, 0xc2, 0x0d, 0xb7, 0x6a, 0x68, 0x91,
    0x1c, 0x0b,
];

fn config(boot_nodes: Vec<String>) -> BasicNetworkConfiguration<(), ()> {
    BasicNetworkConfiguration {
        config_path: None,
        net_config_path: None,
        listen_address: None,
        public_address: None,
        udp_port: None,
        nat_enabled: true,
        discovery_enabled: true,
        boot_nodes,
        use_secret: None,
        max_peers: 50,
        min_peers: 25,
        max_handshakes: 64,
        reserved_protocols: ReservedProtocols::new(),
        reserved_nodes: vec![],
        ip_filter: (),
        non_reserved_mode: NonReservedPeerMode::Accept,
        client_version: "client".to_string(),
    }
}

fn service() -> NetworkService<&'static str, (), ()> {
    let mut service = NetworkService::new(config(vec![]));
    assert!(!service.register_protocol("eth handler", *b"eth", 8, &[62, 63]));
    assert!(!service.register_protocol("par handler", *b"par", 21, &[1, 2, 3]));
    service
}

fn remote(key: &str) -> String {
    format!("/p2p/{}", key)
}

fn connect(shared: &mut Shared<&'static str>, index: usize, key: &str, channel: usize) -> Substream {
    shared.upgrade_text(index, 2, &remote(key), channel).unwrap().unwrap()
}

#[test]
fn builds_and_finishes_in_finite_time() {
    let service: NetworkService<&'static str, (), ()> = NetworkService::new(config(vec![]));
    let setup = match Setup::new(service.config()) {
        Ok(setup) => setup,
        Err(_) => panic!("the configuration has no bootstrap nodes"),
    };
    assert!(setup.bootnodes.is_empty());
    assert!(service.start::<()>().is_ok());
    assert!(service.stop::<()>().is_ok());
}

#[test]
fn new_service_knows_nothing() {
    let service: NetworkService<&'static str, (), ()> = NetworkService::new(config(vec![]));
    assert_eq!(service.shared.num_protocols(), 0);
    assert!(service.connected_peers().is_empty());
    assert!(service.shared.has_no_nodes());
    assert_eq!(service.config().max_peers, 50);
}

#[test]
fn numbers_are_written_in_decimal() {
    assert_eq!(to_decimal(0), b"0".to_vec());
    assert_eq!(to_decimal(9), b"9".to_vec());
    assert_eq!(to_decimal(10), b"10".to_vec());
    assert_eq!(to_decimal(63), b"63".to_vec());
    assert_eq!(to_decimal(100), b"100".to_vec());
    assert_eq!(to_decimal(205), b"205".to_vec());
    assert_eq!(to_decimal(255), b"255".to_vec());
}

#[test]
fn highest_version_comes_first() {
    assert_eq!(sort_versions(&[1, 3, 2]), vec![3, 2, 1]);
    assert_eq!(sort_versions(&[5, 5, 200, 0]), vec![200, 5, 5, 0]);
    assert_eq!(sort_versions(&[]), Vec::<u8>::new());
}

#[test]
fn protocols_are_advertised_by_version() {
    let service = service();
    let names = service.shared.names_of_protocol(1);
    assert_eq!(
        names,
        vec![
            (Bytes::from("/parity/par/3"), 3),
            (Bytes::from("/parity/par/2"), 2),
            (Bytes::from("/parity/par/1"), 1),
        ]
    );
    assert!(service.shared.names_of_protocol(2).is_empty());
    assert_eq!(
        service.shared.custom_protocol_names(),
        vec![
            (Bytes::from("/parity/eth/63"), (0, 63)),
            (Bytes::from("/parity/eth/62"), (0, 62)),
            (Bytes::from("/parity/par/3"), (1, 3)),
            (Bytes::from("/parity/par/2"), (1, 2)),
            (Bytes::from("/parity/par/1"), (1, 1)),
        ]
    );
}

#[test]
fn every_advertised_name_leads_to_its_protocol() {
    let service = service();
    let names = service.shared.protocol_names();
    assert_eq!(names.len(), 7);
    assert_eq!(names[0], (Bytes::from("/ipfs/kad/1.0.0"), (0, 0)));
    assert_eq!(names[1], (Bytes::from("/ipfs/id/1.0.0"), (1, 0)));
    assert_eq!(names[2], (Bytes::from("/parity/eth/63"), (2, 63)));
    assert_eq!(names[6], (Bytes::from("/parity/par/1"), (3, 1)));
    assert_eq!(select_upgrade(0, 0), UpgradeTarget::Kad);
    assert_eq!(select_upgrade(1, 0), UpgradeTarget::Identify);
    assert_eq!(select_upgrade(2, 63), UpgradeTarget::Custom(0, 63));
    assert_eq!(select_upgrade(3, 1), UpgradeTarget::Custom(1, 1));
}

#[test]
fn bootnode_is_read() {
    for protocol in ["p2p", "ipfs"] {
        let text = format!("/ip4/127.0.0.1/tcp/30303/{}/{}", protocol, KEY_TEXT);
        let node = match parse_bootnode(&text) {
            Ok(node) => node,
            Err(err) => panic!("{:?}", err),
        };
        assert_eq!(node.addr, "/ip4/127.0.0.1/tcp/30303".parse::<Multiaddr>().unwrap());
        assert_eq!(node.key, KEY.to_vec());
    }
}

#[test]
fn wrong_bootnodes_are_refused() {
    let error = |text: &str| match parse_bootnode(text) {
        Ok(_) => panic!("{} was accepted", text),
        Err(err) => err,
    };
    assert_eq!(error("127.0.0.1:30303"), BootnodeError::WrongFormat);
    assert_eq!(error("/ip4/127.0.0.1/tcp/99999"), BootnodeError::WrongFormat);
    assert_eq!(error("/onion/timaq4ygg2iegci7:80"), BootnodeError::Unreadable);
    assert_eq!(error(""), BootnodeError::Empty);
    assert_eq!(error("/ip4/127.0.0.1/tcp/30303"), BootnodeError::NoPeer);
}

fn component(protocol: u32, key: &[u8]) -> Component {
    Component { protocol, key: key.to_vec(), bytes: vec![1] }
}

#[test]
fn key_is_taken_from_the_last_component() {
    assert_eq!(bootnode_key(Some(component(420, &[1, 2]))), Ok(vec![1, 2]));
    assert_eq!(bootnode_key(Some(component(421, &[3]))), Ok(vec![3]));
    assert_eq!(bootnode_key(Some(component(6, &[]))), Err(BootnodeError::NoPeer));
    assert_eq!(bootnode_key(None), Err(BootnodeError::Empty));
}

#[test]
fn bootnodes_keep_host_and_port() {
    for at in ["/ip4/10.1.2.3/tcp/1", "/dns4/example.org/tcp/443/wss", "/ip6/::1/udp/65535"] {
        let text = format!("{}/p2p/{}", at, KEY_TEXT);
        let node = match parse_bootnode(&text) {
            Ok(node) => node,
            Err(err) => panic!("{:?}", err),
        };
        assert_eq!(node.addr, at.parse::<Multiaddr>().unwrap());
        let mut whole = node.addr.to_bytes();
        whole.extend_from_slice(&[0xa4, 0x03, 34]);
        whole.extend_from_slice(&node.key);
        assert_eq!(whole, text.parse::<Multiaddr>().unwrap().to_bytes());
    }
}

#[test]
fn onions_are_found_where_they_are_components() {
    assert!(has_onion("/onion/a:80"));
    assert!(has_onion("/ip4/127.0.0.1/ws/onion/a:80"));
    assert!(!has_onion("/onion"));
    assert!(!has_onion("/dns4/onion/tcp/80"));
    assert!(!has_onion("/ip4/127.0.0.1/tcp/80"));
    assert!(!has_onion(""));
}

#[test]
fn remote_address_names_a_node() {
    assert_eq!(remote_node_id(&remote(KEY_TEXT)), Some(KEY.to_vec()));
    assert_eq!(remote_node_id(&format!("/ipfs/{}", KEY_TEXT)), None);
    assert_eq!(remote_node_id(&format!("/ip4/127.0.0.1/p2p/{}", KEY_TEXT)), None);
    assert_eq!(remote_node_id(&format!("/p2p/{}/ws", KEY_TEXT)), None);
    assert_eq!(remote_node_id("/ip4/127.0.0.1/tcp/30303"), None);
    assert_eq!(remote_node_id("/onion/timaq4ygg2iegci7:80"), None);
    assert_eq!(remote_node_id("not an address"), None);
    assert_eq!(remote_node_id(""), None);
    let addr: Multiaddr = remote(KEY_TEXT).parse().unwrap();
    assert_eq!(node_of_addr(&addr), Some(KEY.to_vec()));
}

#[test]
fn node_is_picked_out_of_a_single_component() {
    assert_eq!(node_id(vec![component(420, &[7, 8])]), Some(vec![7, 8]));
    assert_eq!(node_id(vec![component(421, &[7, 8])]), None);
    assert_eq!(node_id(vec![component(420, &[7]), component(6, &[])]), None);
    assert_eq!(node_id(vec![]), None);
}

#[test]
fn addresses_are_built() {
    assert_eq!(peer_address(vec![9, 8, 7]).to_bytes(), vec![0xa4, 0x03, 3, 9, 8, 7]);
    assert_eq!(peer_address(KEY.to_vec()), remote(KEY_TEXT).parse::<Multiaddr>().unwrap());
    assert_eq!(listen_address(None), "/ip4/0.0.0.0/tcp/0".parse::<Multiaddr>().unwrap());
    let v4 = SocketAddr::V4 { octets: [192, 168, 0, 7], port: 30303 };
    assert_eq!(listen_address(Some(v4)).to_bytes(), vec![4, 192, 168, 0, 7, 6, 0x76, 0x5f]);
    let v6 = SocketAddr::V6 {
        segments: [0x2001, 0xdb8, 0, 0, 0, 0, 0, 1],
        port: 80,
        flowinfo: 5,
        scope_id: 6,
    };
    assert_eq!(
        listen_address(Some(v6)),
        "/ip6/2001:db8::1/tcp/80".parse::<Multiaddr>().unwrap()
    );
}

#[test]
fn setup_reads_the_bootnodes_in_order() {
    let nodes = vec![
        format!("/ip4/10.0.0.1/tcp/1/p2p/{}", KEY_TEXT),
        format!("/ip4/10.0.0.2/tcp/2/p2p/{}", OTHER_TEXT),
    ];
    let mut config = config(nodes);
    config.listen_address = Some(SocketAddr::V4 { octets: [127, 0, 0, 1], port: 4001 });
    let setup = match Setup::new(&config) {
        Ok(setup) => setup,
        Err(err) => panic!("{:?}", err),
    };
    assert_eq!(setup.bootnodes.len(), 2);
    assert_eq!(setup.bootnodes[0].addr, "/ip4/10.0.0.1/tcp/1".parse::<Multiaddr>().unwrap());
    assert_eq!(setup.bootnodes[0].key, KEY.to_vec());
    assert_eq!(setup.bootnodes[1].addr, "/ip4/10.0.0.2/tcp/2".parse::<Multiaddr>().unwrap());
    assert_eq!(setup.listen_addr, "/ip4/127.0.0.1/tcp/4001".parse::<Multiaddr>().unwrap());
}

#[test]
fn setup_stops_at_the_first_wrong_bootnode() {
    let nodes = vec![
        format!("/ip4/10.0.0.1/tcp/1/p2p/{}", KEY_TEXT),
        "/ip4/10.0.0.2/tcp/2".to_string(),
        "wrong".to_string(),
    ];
    match Setup::new(&config(nodes)) {
        Ok(_) => panic!("accepted"),
        Err(err) => assert_eq!(err, SetupError { index: 1, error: BootnodeError::NoPeer }),
    }
}

#[test]
fn node_keeps_its_peer() {
    let mut service = service();
    let first = connect(&mut service.shared, 0, KEY_TEXT, 10);
    let second = connect(&mut service.shared, 1, KEY_TEXT, 11);
    let other = connect(&mut service.shared, 0, OTHER_TEXT, 12);
    assert_eq!(first.peer, second.peer);
    assert_ne!(first.peer, other.peer);
    assert!(service.shared.is_node_connected(&KEY.to_vec()));
    let mut peers = service.connected_peers();
    peers.sort();
    let mut expected = vec![first.peer, other.peer];
    expected.sort();
    assert_eq!(peers, expected);
}

#[test]
fn upgrade_opens_a_substream() {
    let mut service = service();
    let substream = service.shared.upgrade_text(1, 3, &remote(KEY_TEXT), 5).unwrap().unwrap();
    assert_eq!(substream.index, 1);
    assert_eq!(substream.protocol, *b"par");
    assert_eq!(substream.packet_count, 21);
    assert_eq!(*substream.handler(&service.shared), "par handler");
    assert_eq!(
        service.shared.find_substream(substream.peer, b"par"),
        Some((*b"par", 5, 3))
    );
    assert_eq!(service.shared.find_substream(substream.peer, b"eth"), None);
    let addr: Multiaddr = remote(KEY_TEXT).parse().unwrap();
    let again = service.shared.upgrade(0, 63, &addr, 6).unwrap().unwrap();
    assert_eq!(again.peer, substream.peer);
    assert_eq!(service.shared.find_substream(again.peer, b"eth"), Some((*b"eth", 6, 63)));
}

#[test]
fn first_substream_of_a_protocol_is_used() {
    let mut service = service();
    let first = connect(&mut service.shared, 0, KEY_TEXT, 1);
    connect(&mut service.shared, 0, KEY_TEXT, 2);
    assert_eq!(service.shared.find_substream(first.peer, b"eth"), Some((*b"eth", 1, 2)));
}

#[test]
fn upgrade_refuses_and_ignores() {
    let mut service = service();
    assert_eq!(
        service.shared.upgrade_text(2, 1, &remote(KEY_TEXT), 0),
        Err(UpgradeError::NotRegistered)
    );
    assert_eq!(service.shared.upgrade_text(0, 1, "/ip4/127.0.0.1/tcp/1", 0), Ok(None));
    assert_eq!(service.shared.upgrade_text(0, 1, "wrong", 0), Ok(None));
    assert_eq!(service.shared.upgrade_node(0, 1, None, 0), Ok(None));
    assert!(service.connected_peers().is_empty());
    let opened = service.shared.upgrade_node(0, 1, Some(vec![1, 2, 3]), 0).unwrap().unwrap();
    assert_eq!(opened.protocol, *b"eth");
    assert_eq!(service.connected_peers(), vec![opened.peer]);
}

#[test]
fn registering_late_is_noticed() {
    let mut service = service();
    connect(&mut service.shared, 0, KEY_TEXT, 1);
    assert!(service.register_protocol("pip handler", *b"pip", 1, &[1]));
    assert_eq!(service.shared.num_protocols(), 3);
}

#[test]
fn packets_are_framed_and_read_back() {
    let mut service = service();
    let substream = connect(&mut service.shared, 0, KEY_TEXT, 33);
    let outgoing = substream.context(&service.shared).send(substream.peer, 4, vec![1, 2, 3]);
    assert_eq!(outgoing.channel, 33);
    assert_eq!(outgoing.message, Bytes::from(&[4u8, 1, 2, 3][..]));
    let received = Message::RecvSocket(BytesMut::from(&outgoing.message[..]));
    match substream.step(Some(received)) {
        LoopStep::Read { packet_id, data } => {
            assert_eq!(packet_id, 4);
            assert_eq!(data, BytesMut::from(&[1u8, 2, 3][..]));
        }
        _ => panic!("the packet was not read"),
    }
}

#[test]
fn messages_cause_their_steps() {
    let substream =
        Substream { index: 0, protocol: *b"eth", packet_count: 8, peer: 0, channel: 0 };
    assert!(matches!(
        substream.step(Some(Message::RecvSocket(BytesMut::new()))),
        LoopStep::Ignore(IgnoreReason::Empty)
    ));
    match substream.step(Some(Message::RecvSocket(BytesMut::from(&[7u8][..])))) {
        LoopStep::Read { packet_id, data } => {
            assert_eq!(packet_id, 7);
            assert!(data.is_empty());
        }
        _ => panic!("the packet was not read"),
    }
    match substream.step(Some(Message::SendReq(Bytes::from(&[5u8, 6][..])))) {
        LoopStep::Write(bytes) => assert_eq!(bytes, Bytes::from(&[5u8, 6][..])),
        _ => panic!("the packet was not written"),
    }
    assert!(matches!(substream.step(Some(Message::Disconnect)), LoopStep::Break));
    assert!(matches!(substream.step(None), LoopStep::Break));
}

#[test]
fn context_of_a_substream_answers_its_peer() {
    let mut service = service();
    let substream = connect(&mut service.shared, 1, KEY_TEXT, 3);
    let context = substream.context(&service.shared);
    assert_eq!(context.subprotocol_name(), *b"par");
    assert!(!context.is_expired());
    let outgoing = context.respond(20, vec![]);
    assert_eq!(outgoing.channel, 3);
    assert_eq!(outgoing.message, Bytes::from(&[20u8][..]));
    assert_eq!(context.protocol_version(*b"par", substream.peer), Some(2));
    assert_eq!(context.protocol_version(*b"eth", substream.peer), None);
    assert_eq!(context.protocol_version(*b"par", substream.peer + 1), None);
    let timer = context.register_timer(9, 250);
    assert_eq!(*timer.handler, "par handler");
    assert_eq!(timer.protocol, *b"par");
    assert_eq!(timer.token, 9);
    assert_eq!(timer.ms, 250);
}

#[test]
fn context_tells_little_of_a_session() {
    let service = service();
    let context = service.context(*b"eth");
    assert!(!context.is_expired());
    assert_eq!(context.peer_client_version(0), "");
    let info = context.session_info(0).unwrap();
    assert_eq!(info.id, None);
    assert_eq!(info.client_version, "");
    assert_eq!(info.protocol_version, 1);
    assert!(info.capabilities.is_empty());
    assert!(info.peer_capabilities.is_empty());
    assert_eq!(info.ping_ms, None);
    assert!(!info.originated);
    assert_eq!(info.remote_address, "");
    assert_eq!(info.local_address, "");
}

#[test]
fn session_of_an_unknown_peer_is_expired() {
    let service = service();
    let substream =
        Substream { index: 0, protocol: *b"eth", packet_count: 8, peer: 77, channel: 0 };
    assert!(substream.context(&service.shared).is_expired());
}

#[test]
fn packets_are_checked_against_their_protocol() {
    let service = service();
    assert!(service.shared.is_valid_packet(b"eth", 7));
    assert!(!service.shared.is_valid_packet(b"eth", 8));
    assert!(service.shared.is_valid_packet(b"par", 20));
    assert!(!service.shared.is_valid_packet(b"pip", 0));
}

#[test]
fn actions_run_only_for_registered_protocols() {
    let service = service();
    let name = service.with_context_eval(*b"par", |context| context.subprotocol_name());
    assert_eq!(name, Some(*b"par"));
    let none = service.with_context_eval(*b"pip", |context| context.subprotocol_name());
    assert_eq!(none, None);
    let called = std::cell::Cell::new(0);
    service.with_context(*b"eth", |_| called.set(called.get() + 1));
    service.with_context(*b"pip", |_| called.set(called.get() + 1));
    assert_eq!(called.get(), 1);
}

#[test]
fn identification_lists_the_readable_names() {
    let mut service = service();
    service.register_protocol("odd handler", [0xff, 0xfe, 0xfd], 1, &[1]);
    let info = service.identify_info(vec![1, 2]);
    assert_eq!(info.public_key, vec![1, 2]);
    assert_eq!(info.protocol_version, "parity/1.11.0");
    assert_eq!(info.agent_version, "rust-libp2p/1.0.0");
    assert!(info.listen_addrs.is_empty());
    assert_eq!(
        info.protocols,
        vec![
            "/ipfs/kad/1.0.0".to_string(),
            "/ipfs/id/1.0.0".to_string(),
            "/parity/eth/63".to_string(),
            "/parity/eth/62".to_string(),
            "/parity/par/3".to_string(),
            "/parity/par/2".to_string(),
            "/parity/par/1".to_string(),
        ]
    );
}

#[test]
fn discovery_dials_new_nodes_for_every_protocol() {
    let mut service = service();
    connect(&mut service.shared, 0, KEY_TEXT, 1);
    let dials = service.discovered(&vec![vec![5, 6], KEY.to_vec(), vec![7]]);
    let seen: Vec<(Multiaddr, usize)> = dials.into_iter().map(|d| (d.addr, d.index)).collect();
    let five: Multiaddr = AddrComponent::P2P(vec![5, 6]).into();
    let seven: Multiaddr = AddrComponent::P2P(vec![7]).into();
    assert_eq!(
        seen,
        vec![(five.clone(), 0), (five, 1), (seven.clone(), 0), (seven, 1)]
    );
    assert!(service.discovered(&vec![]).is_empty());
}

#[test]
fn dialed_nodes_are_not_dialed_again() {
    let mut service = service();
    let found = vec![KEY.to_vec()];
    let dials = service.discovered(&found);
    assert_eq!(dials.len(), 2);
    assert_eq!(node_of_addr(&dials[0].addr), Some(KEY.to_vec()));
    let opened = service.shared.upgrade(dials[0].index, 63, &dials[0].addr, 0);
    assert!(matches!(opened, Ok(Some(_))));
    assert!(service.discovered(&found).is_empty());
}

#[test]
fn handlers_can_still_answer_when_the_state_has_grown() {
    let mut service = service();
    let substream = connect(&mut service.shared, 0, KEY_TEXT, 4);
    connect(&mut service.shared, 1, KEY_TEXT, 5);
    connect(&mut service.shared, 0, OTHER_TEXT, 6);
    service.register_protocol("late handler", *b"eth", 3, &[1]);
    let context = substream.context(&service.shared);
    assert_eq!(context.respond(1, vec![]).channel, 4);
    assert_eq!(*context.register_timer(0, 0).handler, "eth handler");
    assert_eq!(*substream.handler(&service.shared), "eth handler");
}

#[test]
fn packets_that_the_protocol_does_not_have_are_ignored() {
    let mut service = service();
    let substream = connect(&mut service.shared, 0, KEY_TEXT, 1);
    for id in [8u8, 9, 255] {
        match substream.step(Some(Message::RecvSocket(BytesMut::from(&[id, 1][..])))) {
            LoopStep::Ignore(reason) => assert_eq!(reason, IgnoreReason::TooLarge(id)),
            _ => panic!("the packet was not ignored"),
        }
    }
}

#[test]
fn peers_are_gone_with_their_last_substream() {
    let mut service = service();
    let first = connect(&mut service.shared, 0, KEY_TEXT, 1);
    let second = connect(&mut service.shared, 1, KEY_TEXT, 2);
    let other = connect(&mut service.shared, 0, OTHER_TEXT, 3);
    service.shared.close_substream(first.peer, first.channel);
    assert_eq!(service.connected_peers().len(), 2);
    assert_eq!(service.shared.find_substream(first.peer, b"eth"), None);
    assert_eq!(second.context(&service.shared).respond(1, vec![]).channel, 2);
    service.shared.close_substream(second.peer, second.channel);
    assert_eq!(service.connected_peers(), vec![other.peer]);
    assert!(second.context(&service.shared).is_expired());
    assert!(!other.context(&service.shared).is_expired());
    assert!(!service.shared.is_node_connected(&KEY.to_vec()));
    assert_eq!(service.discovered(&vec![KEY.to_vec()]).len(), 2);
    service.shared.close_substream(second.peer, second.channel);
    service.shared.close_substream(other.peer, 77);
    assert_eq!(service.connected_peers(), vec![other.peer]);
    service.shared.close_substream(other.peer, other.channel);
    assert!(service.connected_peers().is_empty());
    assert!(!service.shared.has_no_nodes());
}

#[test]
fn nodes_can_come_back() {
    let mut service = service();
    let first = connect(&mut service.shared, 0, KEY_TEXT, 1);
    service.shared.close_substream(first.peer, first.channel);
    let again = connect(&mut service.shared, 0, KEY_TEXT, 2);
    assert_eq!(again.peer, first.peer);
    assert_eq!(service.connected_peers(), vec![again.peer]);
    assert_eq!(again.context(&service.shared).respond(0, vec![]).channel, 2);
}

#[test]
fn peers_of_nodes_that_left_are_not_handed_on() {
    let mut service = service();
    let first = connect(&mut service.shared, 0, KEY_TEXT, 1);
    service.shared.close_substream(first.peer, first.channel);
    let other = connect(&mut service.shared, 0, OTHER_TEXT, 2);
    assert_ne!(other.peer, first.peer);
    assert_eq!(service.connected_peers(), vec![other.peer]);
    assert_eq!(service.shared.find_substream(first.peer, b"eth"), None);
    let again = connect(&mut service.shared, 1, KEY_TEXT, 3);
    assert_eq!(again.peer, first.peer);
    assert_eq!(service.connected_peers().len(), 2);
}

#[test]
fn connected_peers_follow_every_step() {
    let mut service = service();
    let mut open = vec![];
    for (channel, text) in [KEY_TEXT, OTHER_TEXT, KEY_TEXT, OTHER_TEXT].iter().enumerate() {
        open.push(connect(&mut service.shared, channel % 2, text, channel));
        let mut expected: Vec<usize> = open.iter().map(|substream| substream.peer).collect();
        expected.sort();
        expected.dedup();
        let mut peers = service.connected_peers();
        peers.sort();
        assert_eq!(peers, expected);
    }
    for closed in [2usize, 0, 1, 0] {
        let substream = open.remove(closed);
        service.shared.close_substream(substream.peer, substream.channel);
        let mut expected: Vec<usize> = open.iter().map(|substream| substream.peer).collect();
        expected.sort();
        expected.dedup();
        let mut peers = service.connected_peers();
        peers.sort();
        assert_eq!(peers, expected);
    }
    assert!(service.connected_peers().is_empty());
}

#[test]
fn names_keep_their_place() {
    let mut service = service();
    let before = service.shared.protocol_names();
    service.register_protocol("pip handler", *b"pip", 1, &[1, 4]);
    let after = service.shared.protocol_names();
    assert_eq!(after[..before.len()], before[..]);
    assert_eq!(
        after[before.len()..],
        [(Bytes::from("/parity/pip/4"), (4, 4)), (Bytes::from("/parity/pip/1"), (4, 1))]
    );
}

#[test]
fn unregistered_protocols_are_refused_whatever_the_address() {
    let mut service = service();
    let addr: Multiaddr = "/ip4/127.0.0.1".parse().unwrap();
    assert_eq!(service.shared.upgrade(9, 1, &addr, 0), Err(UpgradeError::NotRegistered));
}
