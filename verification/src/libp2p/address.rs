//! Multiaddresses: those of the bootstrap nodes, of remote peers, and the one to listen on.
use vstd::prelude::*;

use crate::outside::{
    multiaddr_is_readable, multiaddr_iter, multiaddr_of_p2p, multiaddr_of_socket, multiaddr_parse,
    multiaddr_pop,
};
use crate::types::{IpAddr, SocketAddr};

verus! {

/// The number of the `/p2p` protocol.
pub const P2P: u32 = 420;

/// The number of the `/ipfs` protocol.
pub const IPFS: u32 = 421;

/// Where the part of a slash-separated text that starts at `from` ends.
pub open spec fn part_end(text: Seq<u8>, from: int) -> int
    decreases text.len() - from,
{
    if from < 0 || from >= text.len() || text[from] == 0x2f {
        from
    } else {
        part_end(text, from + 1)
    }
}

/// A part ends at or behind its start.
pub proof fn lemma_part_end(text: Seq<u8>, from: int)
    requires
        0 <= from,
    ensures
        from <= part_end(text, from),
        from <= text.len() ==> part_end(text, from) <= text.len(),
    decreases text.len() - from,
{
    if from < text.len() && text[from] != 0x2f {
        lemma_part_end(text, from + 1);
    }
}

/// Whether a protocol of a multiaddress takes no argument.
pub open spec fn takes_no_argument(name: Seq<u8>) -> bool {
    ||| name == vstd::utf8::encode_utf8("udt"@)
    ||| name == vstd::utf8::encode_utf8("utp"@)
    ||| name == vstd::utf8::encode_utf8("http"@)
    ||| name == vstd::utf8::encode_utf8("https"@)
    ||| name == vstd::utf8::encode_utf8("quic"@)
    ||| name == vstd::utf8::encode_utf8("ws"@)
    ||| name == vstd::utf8::encode_utf8("wss"@)
    ||| name == vstd::utf8::encode_utf8("p2p-websocket-star"@)
    ||| name == vstd::utf8::encode_utf8("p2p-webrtc-star"@)
    ||| name == vstd::utf8::encode_utf8("p2p-webrtc-direct"@)
    ||| name == vstd::utf8::encode_utf8("p2p-circuit"@)
}

/// Whether the components from `from` on hold an `/onion` with an argument, where `from` is the
/// start of a protocol's name.
pub open spec fn onion_from(text: Seq<u8>, from: int) -> bool
    decreases text.len() + 2 - from,
    when 0 <= from
{
    if from > text.len() {
        false
    } else {
        proof {
            lemma_part_end(text, from);
            lemma_part_end(text, part_end(text, from) + 1);
        }
        let end = part_end(text, from);
        let name = text.subrange(from, end);
        if name == vstd::utf8::encode_utf8("onion"@) {
            end < text.len()
        } else if takes_no_argument(name) {
            onion_from(text, end + 1)
        } else {
            onion_from(text, part_end(text, end + 1) + 1)
        }
    }
}

/// Whether a multiaddress in text form has an `/onion` component with an argument.
pub open spec fn mentions_onion(text: Seq<u8>) -> bool {
    onion_from(text, part_end(text, 0) + 1)
}

/// A component of a multiaddress.
#[derive(Debug, PartialEq, Eq)]
pub struct Component {
    /// The number of the protocol.
    pub protocol: u32,
    /// The key, where the protocol is `/p2p` or `/ipfs`; otherwise it is empty.
    pub key: Vec<u8>,
    /// The component as it is written, protocol and argument.
    pub bytes: Vec<u8>,
}

/// A component as a value.
pub ghost struct ComponentView {
    pub protocol: u32,
    pub key: Seq<u8>,
    pub bytes: Seq<u8>,
}

impl View for Component {
    type V = ComponentView;

    open spec fn view(&self) -> ComponentView {
        ComponentView { protocol: self.protocol, key: self.key@, bytes: self.bytes@ }
    }
}

/// What taking the last component off a multiaddress gives, and which components it leaves.
pub open spec fn pops(
    before: Seq<ComponentView>,
    last: Option<Component>,
    after: Option<Seq<ComponentView>>,
) -> bool {
    match last {
        None => before.len() == 0 && after == Some(before),
        Some(component) => {
            &&& before.len() > 0
            &&& component@ == before.last()
            &&& after == Some(before.drop_last())
        },
    }
}

/// Which bytes taking the last component off a multiaddress leaves.
pub open spec fn pops_bytes(before: Seq<u8>, last: Option<Component>, after: Seq<u8>) -> bool {
    match last {
        None => before == after,
        Some(component) => {
            &&& before == after + component.bytes@
            &&& component.protocol == P2P || component.protocol == IPFS ==> component.bytes@
                == key_bytes(component.protocol, component.key@)
        },
    }
}

/// A number in groups of seven bits, the lowest first; every group but the last is marked.
pub open spec fn varint(n: nat) -> Seq<u8>
    decreases n,
{
    if n < 128 {
        seq![n as u8]
    } else {
        seq![(128 + n % 128) as u8] + varint(n / 128)
    }
}

/// The bytes of a component that carries a key: `/p2p/<key>` or `/ipfs/<key>`.
pub open spec fn key_bytes(protocol: u32, key: Seq<u8>) -> Seq<u8> {
    varint(protocol as nat) + varint(key.len()) + key
}

/// The bytes of the multiaddress `/p2p/<key>`.
pub open spec fn p2p_bytes(key: Seq<u8>) -> Seq<u8> {
    key_bytes(P2P, key)
}

/// The component `/p2p/<key>`.
pub open spec fn p2p_component(key: Seq<u8>) -> ComponentView {
    ComponentView { protocol: P2P, key, bytes: p2p_bytes(key) }
}

/// Whether a key is a SHA-256 multihash, as the keys of nodes are.
pub open spec fn is_sha256(key: Seq<u8>) -> bool {
    key.len() == 34 && key[0] == 0x12 && key[1] == 0x20
}

/// Whether the multiaddress `/p2p/<key>` is read as what it says.
pub open spec fn reads_back(key: Seq<u8>) -> bool {
    crate::outside::multiaddr_components(p2p_bytes(key)) == Some(seq![p2p_component(key)])
}

/// The two bytes of a number, the higher first.
pub open spec fn big_endian(n: u16) -> Seq<u8> {
    seq![(n / 256) as u8, (n % 256) as u8]
}

/// The bytes of the multiaddress `/ip4/<ip>/tcp/<port>` or `/ip6/<ip>/tcp/<port>`.
pub open spec fn socket_bytes(ip: IpAddr, port: u16) -> Seq<u8> {
    let ip = match ip {
        IpAddr::V4(octets) => seq![4u8] + octets@,
        IpAddr::V6(segments) => seq![41u8] + Seq::new(
            16,
            |i: int| big_endian(segments@[i / 2])[i % 2],
        ),
    };
    ip + seq![6u8] + big_endian(port)
}

/// The bytes of the address to listen on: the one of the configuration, or else any port of every
/// interface.
pub open spec fn listen_bytes(configured: Option<SocketAddr>) -> Seq<u8> {
    match configured {
        Some(addr) => socket_bytes(addr.spec_ip(), addr.spec_port()),
        None => socket_bytes(IpAddr::V4([0, 0, 0, 0]), 0),
    }
}

/// A node to connect to first.
pub struct Bootnode {
    /// Where the node is reached.
    pub addr: multiaddr::Multiaddr,
    /// The key that identifies the node.
    pub key: Vec<u8>,
}

/// Why a text does not describe a bootstrap node.
#[derive(Debug, Copy, Clone, PartialEq, Eq, Structural)]
pub enum BootnodeError {
    /// The text is no multiaddress.
    WrongFormat,
    /// A component of the multiaddress cannot be read.
    Unreadable,
    /// The multiaddress has no components.
    Empty,
    /// The last component is no `/p2p` or `/ipfs`.
    NoPeer,
}

/// The key at the end of a multiaddress, given its last component.
pub open spec fn key_of_last(last: Option<ComponentView>) -> Result<Seq<u8>, BootnodeError> {
    match last {
        None => Err(BootnodeError::Empty),
        Some(component) => if component.protocol == P2P || component.protocol == IPFS {
            Ok(component.key)
        } else {
            Err(BootnodeError::NoPeer)
        },
    }
}

/// The last of some components.
pub open spec fn last_of(components: Seq<ComponentView>) -> Option<ComponentView> {
    if components.len() == 0 {
        None
    } else {
        Some(components.last())
    }
}

/// What a text describes: the bytes of the address at which the bootstrap node is reached, which are
/// those before the last component, and the key of the node.
pub open spec fn bootnode_of(text: Seq<char>) -> Result<(Seq<u8>, Seq<u8>), BootnodeError> {
    if mentions_onion(vstd::utf8::encode_utf8(text)) {
        Err(BootnodeError::Unreadable)
    } else {
        match crate::outside::parsed_multiaddr(text) {
            None => Err(BootnodeError::WrongFormat),
            Some(bytes) => match crate::outside::multiaddr_components(bytes) {
                None => Err(BootnodeError::Unreadable),
                Some(components) => match key_of_last(last_of(components)) {
                    Ok(key) => Ok((bytes.take(bytes.len() - components.last().bytes.len()), key)),
                    Err(err) => Err(err),
                },
            },
        }
    }
}

/// Whether a bootstrap node is the one that a text describes. What the text stands for is the
/// address of the node, byte for byte, followed by `/p2p/<key>` or `/ipfs/<key>`.
pub open spec fn describes(text: Seq<char>, node: Bootnode) -> bool {
    let addr = crate::outside::multiaddr_bytes(node.addr);
    let parsed = crate::outside::parsed_multiaddr(text);
    &&& bootnode_of(text) == Ok::<(Seq<u8>, Seq<u8>), BootnodeError>((addr, node.key@))
    &&& parsed == Some(addr + key_bytes(P2P, node.key@)) || parsed == Some(
        addr + key_bytes(IPFS, node.key@),
    )
    &&& crate::outside::multiaddr_components(addr) == Some(
        crate::outside::multiaddr_components(parsed->0)->0.drop_last(),
    )
}

/// The node that a remote address names: it has to be `/p2p/<node>` and nothing more.
pub open spec fn node_of(components: Seq<ComponentView>) -> Option<Seq<u8>> {
    if components.len() == 1 && components[0].protocol == P2P {
        Some(components[0].key)
    } else {
        None
    }
}

/// The node that a remote address names.
pub open spec fn remote_node(addr: multiaddr::Multiaddr) -> Option<Seq<u8>> {
    node_of(crate::outside::multiaddr_components(crate::outside::multiaddr_bytes(addr))->0)
}

/// The components of an address in text form, if it is a multiaddress and they can be read.
pub open spec fn readable_components(text: Seq<char>) -> Option<Seq<ComponentView>> {
    if mentions_onion(vstd::utf8::encode_utf8(text)) {
        None
    } else {
        match crate::outside::parsed_multiaddr(text) {
            None => None,
            Some(bytes) => crate::outside::multiaddr_components(bytes),
        }
    }
}

/// The node that a remote address in text form names.
pub open spec fn node_of_text(text: Seq<char>) -> Option<Seq<u8>> {
    match readable_components(text) {
        None => None,
        Some(components) => node_of(components),
    }
}

/// Finds where the part that starts at `from` ends.
fn find_part_end(text: &[u8], from: usize) -> (r: usize)
    requires
        from <= text@.len(),
    ensures
        r == part_end(text@, from as int),
        from <= r <= text@.len(),
{
    let mut i: usize = from;
    while i < text.len() && text[i] != 0x2f
        invariant
            from <= i <= text@.len(),
            part_end(text@, i as int) == part_end(text@, from as int),
        decreases text@.len() - i,
    {
        i = i + 1;
    }
    i
}

/// Whether the part from `start` to `end` is the given word.
fn part_is(text: &[u8], start: usize, end: usize, word: &str) -> (r: bool)
    requires
        start <= end <= text@.len(),
    ensures
        r == (text@.subrange(start as int, end as int) == vstd::utf8::encode_utf8(word@)),
{
    let bytes = word.as_bytes();
    if bytes.len() != end - start {
        return false;
    }
    let mut i: usize = 0;
    while i < bytes.len()
        invariant
            bytes@ == vstd::utf8::encode_utf8(word@),
            start <= end <= text@.len(),
            bytes@.len() == end - start,
            i <= bytes@.len(),
            forall|j: int| 0 <= j < i ==> text@[start + j] == bytes@[j],
        decreases bytes@.len() - i,
    {
        if text[start + i] != bytes[i] {
            proof {
                assert(text@.subrange(start as int, end as int)[i as int] != bytes@[i as int]);
            }
            return false;
        }
        i = i + 1;
    }
    assert(text@.subrange(start as int, end as int) =~= bytes@);
    true
}

/// Whether the protocol named by the part from `start` to `end` takes no argument.
fn part_takes_no_argument(text: &[u8], start: usize, end: usize) -> (r: bool)
    requires
        start <= end <= text@.len(),
    ensures
        r == takes_no_argument(text@.subrange(start as int, end as int)),
{
    part_is(text, start, end, "udt") || part_is(text, start, end, "utp") || part_is(
        text,
        start,
        end,
        "http",
    ) || part_is(text, start, end, "https") || part_is(text, start, end, "quic") || part_is(
        text,
        start,
        end,
        "ws",
    ) || part_is(text, start, end, "wss") || part_is(text, start, end, "p2p-websocket-star")
        || part_is(text, start, end, "p2p-webrtc-star") || part_is(
        text,
        start,
        end,
        "p2p-webrtc-direct",
    ) || part_is(text, start, end, "p2p-circuit")
}

/// Whether a multiaddress in text form has an `/onion` component with an argument.
pub fn has_onion(text: &str) -> (r: bool)
    ensures
        r == mentions_onion(vstd::utf8::encode_utf8(text@)),
{
    let bytes = text.as_bytes();
    let len: usize = bytes.len();
    let mut end: usize = find_part_end(bytes, 0);
    while end < len
        invariant
            bytes@ == vstd::utf8::encode_utf8(text@),
            len == bytes@.len(),
            end <= len,
            onion_from(bytes@, end + 1) == mentions_onion(bytes@),
        decreases len - end,
    {
        let start: usize = end + 1;
        end = find_part_end(bytes, start);
        if part_is(bytes, start, end, "onion") {
            return end < len;
        }
        if !part_takes_no_argument(bytes, start, end) {
            if end == len {
                assert(!onion_from(bytes@, part_end(bytes@, len + 1) + 1));
                return false;
            }
            end = find_part_end(bytes, end + 1);
        }
    }
    false
}

/// Picks the key out of the last component of a bootstrap node's address.
pub fn bootnode_key(last: Option<Component>) -> (r: Result<Vec<u8>, BootnodeError>)
    ensures
        match r {
            Ok(key) => last is Some && key_of_last(Some(last->0@)) == Ok::<Seq<u8>, BootnodeError>(
                key@,
            ),
            Err(err) => key_of_last(
                match last {
                    Some(c) => Some(c@),
                    None => None,
                },
            ) == Err::<Seq<u8>, BootnodeError>(err),
        },
{
    match last {
        None => Err(BootnodeError::Empty),
        Some(component) => if component.protocol == P2P || component.protocol == IPFS {
            Ok(component.key)
        } else {
            Err(BootnodeError::NoPeer)
        },
    }
}

/// Reads the address of a bootstrap node, which ends in `/p2p/<key>` or `/ipfs/<key>`.
pub fn parse_bootnode(text: &str) -> (r: Result<Bootnode, BootnodeError>)
    ensures
        match r {
            Ok(node) => describes(text@, node),
            Err(err) => bootnode_of(text@) == Err::<(Seq<u8>, Seq<u8>), BootnodeError>(err),
        },
{
    if has_onion(text) {
        return Err(BootnodeError::Unreadable);
    }
    match multiaddr_parse(text) {
        None => Err(BootnodeError::WrongFormat),
        Some(mut addr) => {
            let ghost bytes = crate::outside::multiaddr_bytes(addr);
            if !multiaddr_is_readable(&addr) {
                return Err(BootnodeError::Unreadable);
            }
            let last = multiaddr_pop(&mut addr);
            proof {
                if last is Some {
                    let left = crate::outside::multiaddr_bytes(addr);
                    assert(bytes.take(bytes.len() - last->0.bytes@.len()) =~= left);
                }
            }
            match bootnode_key(last) {
                Ok(key) => Ok(Bootnode { addr, key }),
                Err(err) => Err(err),
            }
        },
    }
}

/// Picks the node out of the components of a remote address.
pub fn node_id(components: Vec<Component>) -> (r: Option<Vec<u8>>)
    ensures
        match r {
            Some(id) => node_of(components@.map_values(|c: Component| c@)) == Some(id@),
            None => node_of(components@.map_values(|c: Component| c@)) is None,
        },
{
    let mut components = components;
    if components.len() == 1 {
        match components.pop() {
            Some(component) => if component.protocol == P2P {
                Some(component.key)
            } else {
                None
            },
            None => None,
        }
    } else {
        None
    }
}

/// Finds the node that a remote address names, which is `/p2p/<node>`; any other address names no
/// node.
pub fn node_of_addr(addr: &multiaddr::Multiaddr) -> (r: Option<Vec<u8>>)
    requires
        crate::outside::multiaddr_components(crate::outside::multiaddr_bytes(*addr)) is Some,
    ensures
        match r {
            Some(id) => remote_node(*addr) == Some(id@),
            None => remote_node(*addr) is None,
        },
{
    node_id(multiaddr_iter(addr))
}

/// Reads a remote address; `None` if it is no multiaddress or a component of it cannot be read.
pub fn parse_remote_addr(text: &str) -> (r: Option<multiaddr::Multiaddr>)
    ensures
        match r {
            Some(addr) => !mentions_onion(vstd::utf8::encode_utf8(text@))
                && crate::outside::parsed_multiaddr(text@) == Some(
                crate::outside::multiaddr_bytes(addr),
            ) && crate::outside::multiaddr_components(crate::outside::multiaddr_bytes(addr)) is Some,
            None => readable_components(text@) is None,
        },
{
    if has_onion(text) {
        return None;
    }
    match multiaddr_parse(text) {
        None => None,
        Some(addr) => if multiaddr_is_readable(&addr) {
            Some(addr)
        } else {
            None
        },
    }
}

/// Reads the address of a remote peer in text form and finds the node that it names.
pub fn remote_node_id(text: &str) -> (r: Option<Vec<u8>>)
    ensures
        match r {
            Some(id) => node_of_text(text@) == Some(id@),
            None => node_of_text(text@) is None,
        },
{
    match parse_remote_addr(text) {
        Some(addr) => node_of_addr(&addr),
        None => None,
    }
}

/// The address under which a node found by discovery is dialed. Where the node's identifier is a
/// SHA-256 multihash, the address names that node.
pub fn peer_address(node_id: Vec<u8>) -> (r: multiaddr::Multiaddr)
    ensures
        crate::outside::multiaddr_bytes(r) == p2p_bytes(node_id@),
        is_sha256(node_id@) ==> reads_back(node_id@),
{
    multiaddr_of_p2p(node_id)
}

/// The address to listen on: the one of the configuration, or else any port of every interface.
pub fn listen_address(configured: Option<SocketAddr>) -> (r: multiaddr::Multiaddr)
    ensures
        crate::outside::multiaddr_bytes(r) == listen_bytes(configured),
{
    match configured {
        Some(addr) => multiaddr_of_socket(addr.ip(), addr.port()),
        None => multiaddr_of_socket(IpAddr::V4([0, 0, 0, 0]), 0),
    }
}

} // verus!
