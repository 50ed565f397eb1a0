//! Addresses: where nodes are found, which nodes are dialed, and where this node listens.
use vstd::prelude::*;

use crate::config::BasicNetworkConfiguration;
use crate::libp2p::address::{
    bootnode_key, listen_address, node_id, node_of_addr, parse_bootnode, parse_remote_addr,
    peer_address, remote_node_id, Bootnode, BootnodeError, Component,
};
use crate::libp2p::service::{Dial, NetworkService, Setup, SetupError};
use crate::libp2p::shared::Shared;
use crate::libp2p::substream::{Substream, UpgradeError};
use crate::types::{IpAddr, SocketAddr};

verus! {

/// The number that some groups of seven bits stand for, the lowest first.
pub open spec fn groups_value(groups: Seq<u8>) -> int
    decreases groups.len(),
{
    if groups.len() == 0 {
        0
    } else {
        groups[0] % 128 + 128 * groups_value(groups.skip(1))
    }
}

/// Whether some bytes are a number in groups of seven bits, the lowest first: every group but the
/// last is marked, and there is no empty group at the end.
pub open spec fn is_grouped(groups: Seq<u8>, n: nat) -> bool {
    &&& groups.len() > 0
    &&& forall|i: int| 0 <= i < groups.len() - 1 ==> #[trigger] groups[i] >= 128
    &&& groups.last() < 128
    &&& groups.len() > 1 ==> groups.last() > 0
    &&& groups_value(groups) == n
}

/// The groups of a number stand for it.
proof fn lemma_varint(n: nat)
    ensures
        is_grouped(crate::libp2p::address::varint(n), n),
        n > 0 ==> crate::libp2p::address::varint(n).last() > 0,
    decreases n,
{
    let groups = crate::libp2p::address::varint(n);
    reveal_with_fuel(groups_value, 2);
    if n < 128 {
        assert(groups.skip(1) =~= Seq::<u8>::empty());
    } else {
        let rest = crate::libp2p::address::varint(n / 128);
        lemma_varint(n / 128);
        assert(groups.skip(1) =~= rest);
        assert forall|i: int| 0 <= i < groups.len() - 1 implies #[trigger] groups[i] >= 128 by {
            if i > 0 {
                assert(groups[i] == rest[i - 1]);
            }
        }
        assert(groups.last() == rest.last());
        assert(groups[0] % 128 == n % 128);
    }
}

/// Whether some bytes are the component `/p2p/<key>`, whose protocol has the number 420, or
/// `/ipfs/<key>`, whose protocol has the number 421: the number, the length of the key, and the key.
pub open spec fn is_key_component(bytes: Seq<u8>, protocol: u32, key: Seq<u8>) -> bool {
    exists|groups: Seq<u8>| #[trigger]
        is_grouped(groups, key.len()) && bytes == seq![
            (if protocol == 420 {
                0xa4u8
            } else {
                0xa5u8
            }),
            0x03u8,
        ] + groups + key
}

/// A component that carries a key is written as it should be.
proof fn lemma_key_component(protocol: u32, key: Seq<u8>)
    requires
        protocol == 420 || protocol == 421,
    ensures
        is_key_component(crate::libp2p::address::key_bytes(protocol, key), protocol, key),
{
    lemma_varint(key.len());
    let groups = crate::libp2p::address::varint(key.len());
    reveal_with_fuel(crate::libp2p::address::varint, 3);
    let head = seq![
        (if protocol == 420 {
            0xa4u8
        } else {
            0xa5u8
        }),
        0x03u8,
    ];
    assert(crate::libp2p::address::varint(protocol as nat) =~= head);
    assert(is_grouped(groups, key.len()) && crate::libp2p::address::key_bytes(protocol, key) == head
        + groups + key);
}

/// A node is dialed under the address `/p2p/<node>`, and that address names it, where the node's
/// identifier is a SHA-256 multihash.
pub proof fn law_nodes_have_their_address(node: Vec<u8>, r: multiaddr::Multiaddr)
    requires
        call_ensures(peer_address, (node,), r),
    ensures
        is_key_component(crate::outside::multiaddr_bytes(r), 420, node@),
        node@.len() == 34 && node@[0] == 0x12 && node@[1] == 0x20 ==> {
            &&& crate::outside::multiaddr_components(
                crate::outside::multiaddr_bytes(r),
            ) matches Some(parts) && parts.len() == 1 && parts[0].protocol == 420 && parts[0].key
                == node@
        },
{
    lemma_key_component(420, node@);
}

/// A component of an address is seen as it is.
pub proof fn law_components_are_seen_as_they_are(component: Component)
    ensures
        component@.protocol == component.protocol,
        component@.key == component.key@,
        component@.bytes == component.bytes@,
{
}

/// The parts of a socket address are what they are.
pub proof fn law_socket_addresses_have_their_parts(addr: SocketAddr, ip: IpAddr, port: u16)
    requires
        call_ensures(SocketAddr::ip, (&addr,), ip),
        call_ensures(SocketAddr::port, (&addr,), port),
    ensures
        match addr {
            SocketAddr::V4 { octets, port: given } => ip == IpAddr::V4(octets) && port == given,
            SocketAddr::V6 { segments, port: given, .. } => ip == IpAddr::V6(segments) && port
                == given,
        },
{
}

/// The node listens where it is configured to, and else on any port of every interface. The bytes are
/// those of `/ip4/<ip>/tcp/<port>` or `/ip6/<ip>/tcp/<port>`: of each part the number of its protocol,
/// and behind it the address or the port, the highest byte first.
pub proof fn law_node_listens_where_configured(
    configured: Option<SocketAddr>,
    r: multiaddr::Multiaddr,
)
    requires
        call_ensures(listen_address, (configured,), r),
    ensures
        ({
            let bytes = crate::outside::multiaddr_bytes(r);
            match configured {
                Some(SocketAddr::V4 { octets, port }) => bytes.len() == 8 && bytes[0] == 4
                    && bytes[1] == octets[0] && bytes[2] == octets[1] && bytes[3] == octets[2]
                    && bytes[4] == octets[3] && bytes[5] == 6 && 256 * bytes[6] + bytes[7] == port,
                Some(SocketAddr::V6 { segments, port, .. }) => {
                    &&& bytes.len() == 20
                    &&& bytes[0] == 41
                    &&& forall|i: int|
                        0 <= i < 8 ==> 256 * bytes[1 + 2 * i] + bytes[2 + 2 * i]
                            == #[trigger] segments[i]
                    &&& bytes[17] == 6
                    &&& 256 * bytes[18] + bytes[19] == port
                },
                None => bytes == seq![4u8, 0, 0, 0, 0, 6, 0, 0],
            }
        }),
{
    let bytes = crate::outside::multiaddr_bytes(r);
    match configured {
        Some(SocketAddr::V4 { octets, port }) => {
            assert(bytes =~= seq![4u8] + octets@ + seq![6u8]
                + crate::libp2p::address::big_endian(port));
            assert(bytes[1] == octets@[0]);
            assert(bytes[2] == octets@[1]);
            assert(bytes[3] == octets@[2]);
            assert(bytes[4] == octets@[3]);
        },
        Some(SocketAddr::V6 { segments, port, .. }) => {
            let ip = Seq::new(
                16,
                |i: int| crate::libp2p::address::big_endian(segments@[i / 2])[i % 2],
            );
            assert(bytes =~= seq![41u8] + ip + seq![6u8] + crate::libp2p::address::big_endian(port));
            assert forall|i: int| 0 <= i < 8 implies 256 * bytes[1 + 2 * i] + bytes[2 + 2 * i]
                == #[trigger] segments[i] by {
                assert(bytes[1 + 2 * i] == ip[2 * i]);
                assert(bytes[2 + 2 * i] == ip[2 * i + 1]);
                assert((2 * i) / 2 == i && (2 * i) % 2 == 0);
                assert((2 * i + 1) / 2 == i && (2 * i + 1) % 2 == 1);
                assert(segments@[i] == segments[i]);
            }
        },
        None => {
            let zeros: [u8; 4] = [0, 0, 0, 0];
            assert(bytes =~= seq![4u8, 0, 0, 0, 0, 6, 0, 0]);
        },
    }
}

/// The node that a remote address names is that of `/p2p/<node>`; an address with another number of
/// components, or with another protocol, names none.
pub proof fn law_remote_nodes_are_named(
    components: Vec<Component>,
    named: Option<Vec<u8>>,
    addr: &multiaddr::Multiaddr,
    of_addr: Option<Vec<u8>>,
)
    requires
        call_ensures(node_id, (components,), named),
        crate::outside::multiaddr_components(crate::outside::multiaddr_bytes(*addr)) is Some,
        call_ensures(node_of_addr, (addr,), of_addr),
    ensures
        match named {
            Some(node) => components@.len() == 1 && components@[0].protocol == 420 && node@
                == components@[0].key@,
            None => components@.len() != 1 || components@[0].protocol != 420,
        },
        ({
            let parts = crate::outside::multiaddr_components(
                crate::outside::multiaddr_bytes(*addr),
            )->0;
            match of_addr {
                Some(node) => parts.len() == 1 && parts[0].protocol == 420 && node@ == parts[0].key,
                None => parts.len() != 1 || parts[0].protocol != 420,
            }
        }),
{
    let view = components@.map_values(|c: Component| c@);
    assert(view.len() == components@.len());
    if components@.len() == 1 {
        assert(view[0] == components@[0]@);
    }
}

/// The components of an address in text form: there are some if the text is a multiaddress whose
/// components can be read.
pub open spec fn parts_of(text: Seq<char>) -> Option<Seq<crate::libp2p::address::ComponentView>> {
    if crate::libp2p::address::mentions_onion(vstd::utf8::encode_utf8(text)) {
        None
    } else if let Some(bytes) = crate::outside::parsed_multiaddr(text) {
        crate::outside::multiaddr_components(bytes)
    } else {
        None
    }
}

/// The node that an address in text form names, which is that of `/p2p/<node>`.
pub open spec fn named_node(text: Seq<char>) -> Option<Seq<u8>> {
    if parts_of(text) matches Some(parts) && parts.len() == 1 && parts[0].protocol == 420 {
        Some(parts_of(text)->0[0].key)
    } else {
        None
    }
}

/// A remote address in text form is read exactly if its components can be, and names the node of
/// `/p2p/<node>`.
pub proof fn law_remote_addresses_are_read(
    text: &str,
    addr: Option<multiaddr::Multiaddr>,
    node: Option<Vec<u8>>,
)
    requires
        call_ensures(parse_remote_addr, (text,), addr),
        call_ensures(remote_node_id, (text,), node),
    ensures
        match addr {
            Some(read) => crate::outside::parsed_multiaddr(text@) == Some(
                crate::outside::multiaddr_bytes(read),
            ) && parts_of(text@) is Some,
            None => parts_of(text@) is None,
        },
        match node {
            Some(id) => named_node(text@) == Some(id@),
            None => named_node(text@) is None,
        },
{
}

/// An upgrade to a remote address in text form opens a substream with the node that it names.
pub proof fn law_texts_are_upgraded<H>(
    shared: &mut Shared<H>,
    index: usize,
    version: u8,
    text: &str,
    channel: usize,
    r: Result<Option<Substream>, UpgradeError>,
)
    requires
        call_ensures(Shared::<H>::upgrade_text, (shared, index, version, text, channel), r),
    ensures
        super::state::is_upgraded(
            &*old(shared),
            index,
            version,
            named_node(text@),
            channel,
            r,
            &*final(shared),
        ),
{
    super::state::lemma_upgraded(
        &*old(shared),
        index,
        version,
        crate::libp2p::address::node_of_text(text@),
        channel,
        r,
        &*final(shared),
    );
    assert(crate::libp2p::address::node_of_text(text@) == named_node(text@));
}

/// The key of a bootstrap node is that of the last component, which has to be `/p2p/<key>` or
/// `/ipfs/<key>`.
pub proof fn law_last_component_has_the_key(
    last: Option<Component>,
    r: Result<Vec<u8>, BootnodeError>,
)
    requires
        call_ensures(bootnode_key, (last,), r),
    ensures
        match last {
            None => r == Err::<Vec<u8>, BootnodeError>(BootnodeError::Empty),
            Some(component) => if component.protocol == 420 || component.protocol == 421 {
                r matches Ok(key) && key@ == component.key@
            } else {
                r == Err::<Vec<u8>, BootnodeError>(BootnodeError::NoPeer)
            },
        },
{
}

/// Whether a text describes a bootstrap node: it stands for the address of the node, byte for byte,
/// followed by the component that has the node's key.
pub open spec fn is_described(text: Seq<char>, node: Bootnode) -> bool {
    let addr = crate::outside::multiaddr_bytes(node.addr);
    &&& parts_of(text) matches Some(parts) && parts.len() > 0 && (parts.last().protocol == 420
        || parts.last().protocol == 421) && node.key@ == parts.last().key
        && crate::outside::multiaddr_components(addr) == Some(parts.drop_last())
    &&& exists|component: Seq<u8>|
        crate::outside::parsed_multiaddr(text) == Some(#[trigger] (addr + component)) && (
        is_key_component(component, 420, node.key@) || is_key_component(component, 421, node.key@))
}

/// Whether a text describes no bootstrap node, and why.
pub open spec fn is_wrong(text: Seq<char>, err: BootnodeError) -> bool {
    let onion = crate::libp2p::address::mentions_onion(vstd::utf8::encode_utf8(text));
    let parsed = crate::outside::parsed_multiaddr(text);
    match err {
        BootnodeError::WrongFormat => !onion && parsed is None,
        BootnodeError::Unreadable => parts_of(text) is None && (onion || parsed is Some),
        BootnodeError::Empty => parts_of(text) matches Some(parts) && parts.len() == 0,
        BootnodeError::NoPeer => parts_of(text) matches Some(parts) && parts.len() > 0
            && parts.last().protocol != 420 && parts.last().protocol != 421,
    }
}

/// What is described as it should be is described.
proof fn lemma_described(text: Seq<char>, node: Bootnode)
    requires
        crate::libp2p::address::describes(text, node),
    ensures
        is_described(text, node),
{
    let addr = crate::outside::multiaddr_bytes(node.addr);
    lemma_key_component(420, node.key@);
    lemma_key_component(421, node.key@);
    let p2p = crate::libp2p::address::key_bytes(420, node.key@);
    let ipfs = crate::libp2p::address::key_bytes(421, node.key@);
    if crate::outside::parsed_multiaddr(text) == Some(addr + p2p) {
        assert(crate::outside::parsed_multiaddr(text) == Some(addr + p2p) && is_key_component(
            p2p,
            420,
            node.key@,
        ));
    } else {
        assert(crate::outside::parsed_multiaddr(text) == Some(addr + ipfs) && is_key_component(
            ipfs,
            421,
            node.key@,
        ));
    }
}

/// The address and the key of a bootstrap node are those that the text describes, and where it
/// describes none, the error says why.
pub proof fn law_bootnodes_are_read(text: &str, r: Result<Bootnode, BootnodeError>)
    requires
        call_ensures(parse_bootnode, (text,), r),
    ensures
        match r {
            Ok(node) => is_described(text@, node),
            Err(err) => is_wrong(text@, err),
        },
{
    if let Ok(node) = r {
        lemma_described(text@, node);
    }
}

/// All bootstrap nodes of the configuration are read, in their order, or the first that describes
/// none is told. The node listens where it is configured to.
pub proof fn law_setup_is_that_of_the_configuration<S, F>(
    config: &BasicNetworkConfiguration<S, F>,
    r: Result<Setup, SetupError>,
    i: int,
    listen: multiaddr::Multiaddr,
)
    requires
        call_ensures(Setup::new::<S, F>, (config,), r),
        call_ensures(listen_address, (config.listen_address,), listen),
    ensures
        match r {
            Ok(setup) => {
                &&& setup.bootnodes@.len() == config.boot_nodes@.len()
                &&& 0 <= i < config.boot_nodes@.len() ==> is_described(
                    config.boot_nodes@[i]@,
                    setup.bootnodes@[i],
                )
                &&& crate::outside::multiaddr_bytes(setup.listen_addr)
                    == crate::outside::multiaddr_bytes(listen)
            },
            Err(err) => {
                &&& err.index < config.boot_nodes@.len()
                &&& is_wrong(config.boot_nodes@[err.index as int]@, err.error)
                &&& 0 <= i < err.index ==> (parts_of(config.boot_nodes@[i]@) matches Some(parts)
                    && parts.len() > 0 && (parts.last().protocol == 420 || parts.last().protocol
                    == 421))
            },
        },
{
    match r {
        Ok(setup) => {
            if 0 <= i < config.boot_nodes@.len() {
                lemma_described(config.boot_nodes@[i]@, setup.bootnodes@[i]);
            }
        },
        Err(err) => {
            if 0 <= i < err.index {
                assert(crate::libp2p::address::bootnode_of(config.boot_nodes@[i]@) is Ok);
            }
        },
    }
}

/// A node that is found alone is dialed once for each registered protocol, in their order and under
/// its own address, if it is not connected; a connected node is not dialed.
pub proof fn law_found_node_is_dialed<H, S, F>(
    service: &NetworkService<H, S, F>,
    found: &Vec<Vec<u8>>,
    r: Vec<Dial>,
    connected: bool,
)
    requires
        found@.len() == 1,
        call_ensures(Shared::<H>::is_node_connected, (&service.shared, &found@[0]), connected),
        call_ensures(NetworkService::<H, S, F>::discovered, (service, found), r),
    ensures
        connected ==> r@.len() == 0,
        !connected ==> r@.len() == service.shared@.protocols.len() && forall|i: int|
            0 <= i < r@.len() ==> (#[trigger] r@[i]).index == i && is_key_component(
                crate::outside::multiaddr_bytes(r@[i].addr),
                420,
                found@[0]@,
            ),
{
    let node = found@[0];
    let dials = crate::libp2p::service::dials_view(r@);
    reveal_with_fuel(crate::libp2p::service::dials_of, 2);
    assert(found@.drop_last() =~= Seq::<Vec<u8>>::empty());
    assert(found@.last() == node);
    assert(dials.len() == r@.len());
    assert(r.len() == r@.len());
    if !connected {
        lemma_key_component(420, node@);
        assert forall|i: int| 0 <= i < r@.len() implies (#[trigger] r@[i]).index == i
            && is_key_component(crate::outside::multiaddr_bytes(r@[i].addr), 420, node@) by {
            assert(dials[i] == (crate::outside::multiaddr_bytes(r@[i].addr), r@[i].index));
            assert(dials[i] == (crate::libp2p::address::p2p_bytes(node@), i as usize));
        }
    }
}

/// What is dialed for the nodes that were found is what is dialed for the first of them, and then
/// what is dialed for the others.
pub proof fn law_found_nodes_are_dialed_in_order<H, S, F>(
    service: &NetworkService<H, S, F>,
    first: &Vec<Vec<u8>>,
    others: &Vec<Vec<u8>>,
    all: &Vec<Vec<u8>>,
    of_first: Vec<Dial>,
    of_others: Vec<Dial>,
    of_all: Vec<Dial>,
)
    requires
        all@ == first@ + others@,
        call_ensures(NetworkService::<H, S, F>::discovered, (service, first), of_first),
        call_ensures(NetworkService::<H, S, F>::discovered, (service, others), of_others),
        call_ensures(NetworkService::<H, S, F>::discovered, (service, all), of_all),
    ensures
        of_all@.len() == of_first@.len() + of_others@.len(),
        forall|i: int|
            0 <= i < of_first@.len() ==> (#[trigger] of_all@[i]).index == of_first@[i].index
                && crate::outside::multiaddr_bytes(of_all@[i].addr)
                == crate::outside::multiaddr_bytes(of_first@[i].addr),
        forall|i: int|
            of_first@.len() <= i < of_all@.len() ==> (#[trigger] of_all@[i]).index
                == of_others@[i - of_first@.len()].index && crate::outside::multiaddr_bytes(
                of_all@[i].addr,
            ) == crate::outside::multiaddr_bytes(of_others@[i - of_first@.len()].addr),
{
    let a = crate::libp2p::service::dials_view(of_first@);
    let b = crate::libp2p::service::dials_view(of_others@);
    let c = crate::libp2p::service::dials_view(of_all@);
    lemma_dials_of_more(service.shared@, first@, others@);
    assert(c == a + b);
    assert forall|i: int| 0 <= i < of_first@.len() implies (#[trigger] of_all@[i]).index
        == of_first@[i].index && crate::outside::multiaddr_bytes(of_all@[i].addr)
        == crate::outside::multiaddr_bytes(of_first@[i].addr) by {
        assert(c[i] == a[i]);
    }
    assert forall|i: int| of_first@.len() <= i < of_all@.len() implies (#[trigger] of_all@[i]).index
        == of_others@[i - of_first@.len()].index && crate::outside::multiaddr_bytes(of_all@[i].addr)
        == crate::outside::multiaddr_bytes(of_others@[i - of_first@.len()].addr) by {
        assert(c[i] == b[i - a.len()]);
    }
}

/// More nodes add their dials behind the others.
proof fn lemma_dials_of_more<H>(
    shared: crate::libp2p::shared::SharedView<H>,
    first: Seq<Vec<u8>>,
    others: Seq<Vec<u8>>,
)
    ensures
        crate::libp2p::service::dials_of(shared, first + others)
            == crate::libp2p::service::dials_of(shared, first) + crate::libp2p::service::dials_of(
            shared,
            others,
        ),
    decreases others.len(),
{
    let dials = crate::libp2p::service::dials_of(shared, first);
    if others.len() == 0 {
        assert(first + others =~= first);
        assert(dials + crate::libp2p::service::dials_of(shared, others) =~= dials);
    } else {
        let fewer = others.drop_last();
        lemma_dials_of_more(shared, first, fewer);
        assert((first + others).drop_last() =~= first + fewer);
        assert((first + others).last() == others.last());
        assert(crate::libp2p::service::dials_of(shared, first + others) =~= dials
            + crate::libp2p::service::dials_of(shared, others));
    }
}

/// Bootstrap nodes are kept for 100000 years of 365 days; a search asks three nodes at once and goes
/// on after ten seconds, and there is a search every half minute.
pub proof fn law_times_are_those_of_the_search()
    ensures
        crate::libp2p::service::BOOTNODE_TTL_SECS == 100000 * 365 * 86400,
        crate::libp2p::service::KAD_PARALLELISM == 3,
        crate::libp2p::service::KAD_TIMEOUT_SECS == 10,
        2 * crate::libp2p::service::DISCOVERY_INTERVAL_SECS == 60,
{
}

} // verus!
