use netmerge::config::{BasicNetworkConfiguration, ReservedProtocols};
use netmerge::net_backends_merge::NetworkConfiguration;
use netmerge::types::{NonReservedPeerMode, SocketAddr};

const WARP: [u8; 3] = *b"par";

fn basic() -> BasicNetworkConfiguration<u64, bool> {
    let mut reserved_protocols = ReservedProtocols::new();
    reserved_protocols.insert(WARP, 7);
    BasicNetworkConfiguration {
        config_path: Some("/var/net".to_string()),
        net_config_path: None,
        listen_address: Some(SocketAddr::V4 { octets: [127, 0, 0, 1], port: 30303 }),
        public_address: None,
        udp_port: Some(30304),
        nat_enabled: true,
        discovery_enabled: false,
        boot_nodes: vec!["a".to_string(), "b".to_string()],
        use_secret: Some(42),
        max_peers: 50,
        min_peers: 25,
        max_handshakes: 64,
        reserved_protocols,
        reserved_nodes: vec!["c".to_string()],
        ip_filter: true,
        non_reserved_mode: NonReservedPeerMode::Accept,
        client_version: "client/1".to_string(),
    }
}

const V6: SocketAddr = SocketAddr::V6 {
    segments: [0xfe80, 0, 0, 0, 0, 0, 0, 1],
    port: 8080,
    flowinfo: 0,
    scope_id: 3,
};

fn format(addr: &SocketAddr) -> String {
    match *addr {
        SocketAddr::V4 { octets: o, port } => {
            format!("{}.{}.{}.{}:{}", o[0], o[1], o[2], o[3], port)
        }
        v6 => {
            assert_eq!(v6, V6);
            "[fe80::1%3]:8080".to_string()
        }
    }
}

fn parse_v4(text: &str) -> Option<SocketAddr> {
    let (ip, port) = text.split_once(':')?;
    let numbers: Vec<u8> = ip.split('.').filter_map(|n| n.parse().ok()).collect();
    if numbers.len() != 4 {
        return None;
    }
    let octets = [numbers[0], numbers[1], numbers[2], numbers[3]];
    Some(SocketAddr::V4 { octets, port: port.parse().ok()? })
}

fn parse(text: &String) -> Result<SocketAddr, String> {
    if text == "[fe80::1%3]:8080" {
        return Ok(V6);
    }
    parse_v4(text).ok_or_else(|| text.clone())
}

#[test]
fn reserved_protocols_are_told_apart() {
    let ids = [[1, 0, 0], [0, 1, 0], [0, 0, 1], [255, 255, 255], [0, 0, 0]];
    let mut there = ReservedProtocols::new();
    let mut back = ReservedProtocols::new();
    for (peers, id) in ids.iter().enumerate() {
        there.insert(*id, peers as u32);
    }
    for (peers, id) in ids.iter().enumerate().rev() {
        assert_eq!(there.get(id), Some(peers as u32));
        back.insert(*id, peers as u32);
    }
    assert_eq!(there, back);
    assert_eq!(there.get(&[1, 1, 0]), None);
}

#[test]
fn reserved_protocols_hold_one_number_each() {
    let mut reserved = ReservedProtocols::new();
    assert_eq!(reserved.get(b"eth"), None);
    reserved.insert(*b"eth", 3);
    reserved.insert(*b"par", 4);
    assert_eq!(reserved.get(b"eth"), Some(3));
    assert_eq!(reserved.get(b"par"), Some(4));
    reserved.insert(*b"eth", 9);
    assert_eq!(reserved.get(b"eth"), Some(9));
    assert_eq!(reserved.get(b"par"), Some(4));
    assert_eq!(reserved.get(b"pip"), None);
}

#[test]
fn configuration_takes_over_the_settings_of_a_backend() {
    let config = NetworkConfiguration::from_basic(basic(), WARP, format);
    assert_eq!(config.config_path, Some("/var/net".to_string()));
    assert_eq!(config.net_config_path, None);
    assert_eq!(config.listen_address, Some("127.0.0.1:30303".to_string()));
    assert_eq!(config.public_address, None);
    assert_eq!(config.udp_port, Some(30304));
    assert!(config.nat_enabled);
    assert!(!config.discovery_enabled);
    assert_eq!(config.boot_nodes, vec!["a".to_string(), "b".to_string()]);
    assert_eq!(config.use_secret, Some(42));
    assert_eq!(config.max_peers, 50);
    assert_eq!(config.min_peers, 25);
    assert_eq!(config.max_pending_peers, 64);
    assert_eq!(config.snapshot_peers, 7);
    assert_eq!(config.reserved_nodes, vec!["c".to_string()]);
    assert!(config.allow_non_reserved);
    assert!(config.ip_filter);
    assert_eq!(config.client_version, "client/1");
}

#[test]
fn new_configurations_come_of_the_given_ones() {
    let expected = NetworkConfiguration::from_basic(basic(), WARP, format);
    assert_eq!(NetworkConfiguration::new(basic(), WARP, format), expected);
    assert_eq!(NetworkConfiguration::new_local(basic(), WARP, format), expected);
}

#[test]
fn no_snapshot_peers_where_none_are_reserved() {
    let mut other = basic();
    other.reserved_protocols = ReservedProtocols::new();
    other.non_reserved_mode = NonReservedPeerMode::Deny;
    let config = NetworkConfiguration::from_basic(other, WARP, format);
    assert_eq!(config.snapshot_peers, 0);
    assert!(!config.allow_non_reserved);
}

#[test]
fn configuration_round_trips() {
    let config = NetworkConfiguration::from_basic(basic(), WARP, format);
    let there = config.clone().into_basic(WARP, parse).unwrap();
    assert_eq!(there, basic());
    assert_eq!(NetworkConfiguration::from_basic(there, WARP, format), config);
}

#[test]
fn only_the_reservation_for_snapshots_stays() {
    let mut other = basic();
    other.reserved_protocols.insert(*b"eth", 3);
    let config = NetworkConfiguration::from_basic(other, WARP, format);
    let there = config.into_basic(WARP, parse).unwrap();
    assert_eq!(there.reserved_protocols.get(&WARP), Some(7));
    assert_eq!(there.reserved_protocols.get(b"eth"), None);
}

#[test]
fn denied_mode_and_ipv6_addresses_are_kept() {
    let mut config = NetworkConfiguration::from_basic(basic(), WARP, format);
    config.allow_non_reserved = false;
    config.public_address = Some("[fe80::1%3]:8080".to_string());
    let there = config.into_basic(WARP, parse).unwrap();
    assert_eq!(there.non_reserved_mode, NonReservedPeerMode::Deny);
    assert_eq!(there.public_address, Some(V6));
    let back = NetworkConfiguration::from_basic(there, WARP, format);
    assert_eq!(back.public_address, Some("[fe80::1%3]:8080".to_string()));
}

#[test]
fn first_wrong_address_is_the_error() {
    let mut config = NetworkConfiguration::from_basic(basic(), WARP, format);
    config.public_address = Some("nowhere".to_string());
    assert_eq!(config.clone().into_basic(WARP, parse), Err("nowhere".to_string()));
    config.listen_address = Some("anywhere".to_string());
    assert_eq!(config.into_basic(WARP, parse), Err("anywhere".to_string()));
}
