//! What the library relies on of the crates, and of the standard library, that it calls. Every item
//! here is taken on trust: its contract is what the named function does, and nothing in this file is
//! proved.
use vstd::prelude::*;

use crate::libp2p::address::{Component, ComponentView};

verus! {

/// The substreams that are open with one peer: for each the protocol, the number of the channel
/// that leads to it, and the version of the protocol.
pub type Substreams = Vec<([u8; 3], usize, u8)>;

/// `slab::Slab`, which stores values under keys that it picks.
#[verifier::external_type_specification]
#[verifier::external_body]
#[verifier::reject_recursive_types(T)]
pub struct ExSlab<T>(slab::Slab<T>);

/// What a slab holds: the value under each occupied key.
pub uninterp spec fn slab_contents(s: slab::Slab<Substreams>) -> Map<usize, Substreams>;

/// `Slab::new`: the slab holds nothing.
#[verifier::external_body]
pub(crate) fn slab_new() -> (r: slab::Slab<Substreams>)
    ensures
        slab_contents(r) == (Map::<usize, Substreams>::empty()),
{
    slab::Slab::new()
}

/// `Slab::insert`: the value is stored under a key that was vacant, and every other key keeps its
/// value. Which vacant key is picked depends on the slab's past and is left unsaid.
#[verifier::external_body]
pub(crate) fn slab_insert(s: &mut slab::Slab<Substreams>, value: Substreams) -> (key: usize)
    ensures
        !slab_contents(*old(s)).contains_key(key),
        slab_contents(*final(s)) == slab_contents(*old(s)).insert(key, value),
{
    s.insert(value)
}

/// `Slab::get`: the value under the key, if the key is occupied.
#[verifier::external_body]
pub(crate) fn slab_get(s: &slab::Slab<Substreams>, key: usize) -> (r: Option<&Substreams>)
    ensures
        match r {
            Some(value) => slab_contents(*s).contains_key(key) && *value == slab_contents(*s)[key],
            None => !slab_contents(*s).contains_key(key),
        },
{
    s.get(key)
}

/// `Slab`'s `IndexMut::index_mut`: the value under the key, to be changed in place. It panics on a
/// vacant key.
#[verifier::external_body]
pub(crate) fn slab_index_mut(s: &mut slab::Slab<Substreams>, key: usize) -> (r: &mut Substreams)
    requires
        slab_contents(*old(s)).contains_key(key),
    ensures
        *r == slab_contents(*old(s))[key],
        slab_contents(*final(s)) == slab_contents(*old(s)).insert(key, *final(r)),
{
    &mut s[key]
}

/// `fnv::FnvHasher`, the hash function of `fnv::FnvHashMap`.
#[verifier::external_type_specification]
#[verifier::external_body]
pub struct ExFnvHasher(fnv::FnvHasher);

/// `std::hash::BuildHasherDefault`, through which `fnv::FnvHashMap` gets its hashers.
#[verifier::external_type_specification]
#[verifier::external_body]
#[verifier::reject_recursive_types(H)]
pub struct ExBuildHasherDefault<H>(std::hash::BuildHasherDefault<H>);

/// What a hash map from node identifiers to peers holds.
pub uninterp spec fn node_map_contents(m: fnv::FnvHashMap<Vec<u8>, usize>) -> Map<Seq<u8>, usize>;

/// `FnvHashMap::default`: the map holds nothing.
#[verifier::external_body]
pub(crate) fn node_map_new() -> (r: fnv::FnvHashMap<Vec<u8>, usize>)
    ensures
        node_map_contents(r) == (Map::<Seq<u8>, usize>::empty()),
{
    fnv::FnvHashMap::default()
}

/// `FnvHashMap::get`: the peer of the node, if the map holds the node.
#[verifier::external_body]
pub(crate) fn node_map_get(m: &fnv::FnvHashMap<Vec<u8>, usize>, node_id: &Vec<u8>) -> (r: Option<
    usize,
>)
    ensures
        r == node_map_contents(*m).get(node_id@),
{
    m.get(node_id).cloned()
}

/// `FnvHashMap::insert`: the map now holds the pair, and every other node keeps its peer.
#[verifier::external_body]
pub(crate) fn node_map_insert(
    m: &mut fnv::FnvHashMap<Vec<u8>, usize>,
    node_id: Vec<u8>,
    peer: usize,
) -> (r: Option<usize>)
    ensures
        r == node_map_contents(*old(m)).get(node_id@),
        node_map_contents(*final(m)) == node_map_contents(*old(m)).insert(node_id@, peer),
{
    m.insert(node_id, peer)
}

/// `FnvHashMap::is_empty`: whether the map holds no node.
#[verifier::external_body]
pub(crate) fn node_map_is_empty(m: &fnv::FnvHashMap<Vec<u8>, usize>) -> (r: bool)
    ensures
        r == (node_map_contents(*m).dom() =~= Set::empty()),
{
    m.is_empty()
}

/// Whether a list holds the value of each key of a map, once for each key, in some order.
pub open spec fn lists_values(m: Map<Seq<u8>, usize>, list: Seq<usize>) -> bool {
    exists|keys: Seq<Seq<u8>>|
        #![trigger keys.no_duplicates()]
        {
            &&& keys.no_duplicates()
            &&& keys.to_set() == m.dom()
            &&& list == keys.map_values(|key: Seq<u8>| m[key])
        }
}

/// `FnvHashMap::values`: the peer of each node of the map, once for each node. The order in which
/// the nodes are walked is left unsaid.
#[verifier::external_body]
pub(crate) fn node_map_values(m: &fnv::FnvHashMap<Vec<u8>, usize>) -> (r: Vec<usize>)
    ensures
        lists_values(node_map_contents(*m), r@),
{
    m.values().cloned().collect()
}

/// `bytes::Bytes`, a string of bytes.
#[verifier::external_type_specification]
#[verifier::external_body]
pub struct ExBytes(bytes::Bytes);

/// What a `Bytes` holds.
pub uninterp spec fn bytes_view(b: bytes::Bytes) -> Seq<u8>;

/// `Bytes::from` on a string slice: the bytes are those of the slice.
#[verifier::external_body]
pub(crate) fn bytes_from_str(text: &str) -> (r: bytes::Bytes)
    ensures
        bytes_view(r) == vstd::utf8::encode_utf8(text@),
{
    bytes::Bytes::from(text)
}

/// `Bytes::with_capacity`: no bytes. It panics on a capacity beyond `isize::MAX`.
#[verifier::external_body]
pub(crate) fn bytes_with_capacity(capacity: usize) -> (r: bytes::Bytes)
    requires
        capacity <= isize::MAX,
    ensures
        bytes_view(r) == (Seq::<u8>::empty()),
{
    bytes::Bytes::with_capacity(capacity)
}

/// `Bytes::extend_from_slice`: the slice is appended. It panics where the length would not fit.
#[verifier::external_body]
pub(crate) fn bytes_extend(b: &mut bytes::Bytes, extend: &[u8])
    requires
        bytes_view(*old(b)).len() + extend@.len() <= isize::MAX,
    ensures
        bytes_view(*final(b)) == bytes_view(*old(b)) + extend@,
{
    b.extend_from_slice(extend)
}

/// `Bytes`'s `Clone::clone`: the same bytes.
#[verifier::external_body]
pub(crate) fn bytes_clone(b: &bytes::Bytes) -> (r: bytes::Bytes)
    ensures
        bytes_view(r) == bytes_view(*b),
{
    b.clone()
}

/// `Bytes`'s `AsRef::as_ref`: the same bytes as a slice.
#[verifier::external_body]
pub(crate) fn bytes_as_ref(b: &bytes::Bytes) -> (r: &[u8])
    ensures
        r@ == bytes_view(*b),
{
    b.as_ref()
}

/// `bytes::BytesMut`, a string of bytes that its holder owns.
#[verifier::external_type_specification]
#[verifier::external_body]
pub struct ExBytesMut(bytes::BytesMut);

/// What a `BytesMut` holds.
pub uninterp spec fn bytes_mut_view(b: bytes::BytesMut) -> Seq<u8>;

/// `BytesMut`'s `AsRef::as_ref`: the same bytes as a slice.
#[verifier::external_body]
pub(crate) fn bytes_mut_as_ref(b: &bytes::BytesMut) -> (r: &[u8])
    ensures
        r@ == bytes_mut_view(*b),
{
    b.as_ref()
}

/// `BytesMut::split_off`: the bytes from `at` on are returned, and those before it stay. It panics
/// beyond the capacity.
#[verifier::external_body]
pub(crate) fn bytes_mut_split_off(b: &mut bytes::BytesMut, at: usize) -> (r: bytes::BytesMut)
    requires
        at <= bytes_mut_view(*old(b)).len(),
    ensures
        bytes_mut_view(r) == bytes_mut_view(*old(b)).skip(at as int),
        bytes_mut_view(*final(b)) == bytes_mut_view(*old(b)).take(at as int),
{
    b.split_off(at)
}

/// `String::from_utf8`: the text that the bytes encode, if they are UTF-8.
#[verifier::external_body]
pub(crate) fn string_from_utf8(bytes: Vec<u8>) -> (r: Option<String>)
    ensures
        match r {
            Some(text) => vstd::utf8::valid_utf8(bytes@) && text@ == vstd::utf8::decode_utf8(bytes@),
            None => !vstd::utf8::valid_utf8(bytes@),
        },
{
    String::from_utf8(bytes).ok()
}

/// `multiaddr::Multiaddr`, a list of address components.
#[verifier::external_type_specification]
#[verifier::external_body]
pub struct ExMultiaddr(multiaddr::Multiaddr);

/// The bytes that a multiaddress holds.
pub uninterp spec fn multiaddr_bytes(a: multiaddr::Multiaddr) -> Seq<u8>;

/// The bytes of the multiaddress that a text describes, if it describes one.
pub uninterp spec fn parsed_multiaddr(text: Seq<char>) -> Option<Seq<u8>>;

/// The components that the bytes of a multiaddress stand for, if each of them can be read.
pub uninterp spec fn multiaddr_components(bytes: Seq<u8>) -> Option<Seq<ComponentView>>;

/// `Multiaddr`'s `FromStr::from_str`: what comes out depends on the text alone. It panics where it
/// meets an `/onion` component that has an argument.
#[verifier::external_body]
pub(crate) fn multiaddr_parse(text: &str) -> (r: Option<multiaddr::Multiaddr>)
    requires
        !crate::libp2p::address::mentions_onion(vstd::utf8::encode_utf8(text@)),
    ensures
        match r {
            Some(a) => parsed_multiaddr(text@) == Some(multiaddr_bytes(a)),
            None => parsed_multiaddr(text@) is None,
        },
{
    text.parse().ok()
}

/// `Multiaddr::from_bytes` on the bytes of a multiaddress that came out of a text: whether each of
/// its components can be read. On bytes from elsewhere it may panic.
#[verifier::external_body]
pub(crate) fn multiaddr_is_readable(a: &multiaddr::Multiaddr) -> (r: bool)
    requires
        exists|text: Seq<char>| parsed_multiaddr(text) == Some(multiaddr_bytes(*a)),
    ensures
        r == (multiaddr_components(multiaddr_bytes(*a)) is Some),
{
    multiaddr::Multiaddr::from_bytes(a.to_bytes()).is_ok()
}

/// `Multiaddr::iter`: the components in their order, each with its protocol, its key, and the bytes
/// that `AddrComponent::write_bytes` gives of it. It panics on one that cannot be read.
#[verifier::external_body]
pub(crate) fn multiaddr_iter(a: &multiaddr::Multiaddr) -> (r: Vec<Component>)
    requires
        multiaddr_components(multiaddr_bytes(*a)) is Some,
    ensures
        multiaddr_components(multiaddr_bytes(*a)) == Some(r@.map_values(|c: Component| c@)),
{
    a.iter()
        .map(|c| {
            let mut bytes = Vec::new();
            let _ = c.clone().write_bytes(&mut bytes);
            Component {
                protocol: u32::from(c.protocol_id()),
                bytes,
                key: match c {
                    multiaddr::AddrComponent::P2P(key) | multiaddr::AddrComponent::IPFS(key) => key,
                    _ => Vec::new(),
                },
            }
        })
        .collect()
}

/// `Multiaddr::pop` on a multiaddress that came out of a text: takes the last component off, if
/// there is one, and leaves the bytes before it. Of a `/p2p` or `/ipfs` component the bytes are the
/// number of the protocol, the length of the key, and the key. It panics on a component that cannot
/// be read.
#[verifier::external_body]
pub(crate) fn multiaddr_pop(a: &mut multiaddr::Multiaddr) -> (r: Option<Component>)
    requires
        exists|text: Seq<char>| parsed_multiaddr(text) == Some(multiaddr_bytes(*old(a))),
        multiaddr_components(multiaddr_bytes(*old(a))) is Some,
    ensures
        crate::libp2p::address::pops(
            multiaddr_components(multiaddr_bytes(*old(a)))->0,
            r,
            multiaddr_components(multiaddr_bytes(*final(a))),
        ),
        crate::libp2p::address::pops_bytes(
            multiaddr_bytes(*old(a)),
            r,
            multiaddr_bytes(*final(a)),
        ),
{
    a.pop().map(|c| {
        let mut bytes = Vec::new();
        let _ = c.clone().write_bytes(&mut bytes);
        Component {
            protocol: u32::from(c.protocol_id()),
            bytes,
            key: match c {
                multiaddr::AddrComponent::P2P(key) | multiaddr::AddrComponent::IPFS(key) => key,
                _ => Vec::new(),
            },
        }
    })
}

/// `Multiaddr`'s `From<AddrComponent>::from` on a `/p2p` component: the number of the protocol, the
/// length of the key, and the key. Where the key is a SHA-256 multihash, the component is read back
/// as it is; what is read of another key is left unsaid.
#[verifier::external_body]
pub(crate) fn multiaddr_of_p2p(key: Vec<u8>) -> (r: multiaddr::Multiaddr)
    ensures
        multiaddr_bytes(r) == crate::libp2p::address::p2p_bytes(key@),
        crate::libp2p::address::is_sha256(key@) ==> multiaddr_components(multiaddr_bytes(r))
            == Some(seq![crate::libp2p::address::p2p_component(key@)]),
{
    multiaddr::AddrComponent::P2P(key).into()
}

/// `Multiaddr`'s `FromIterator::from_iter` on an IP component and a TCP component: for each the
/// number of the protocol, then the address or the port with its highest byte first.
#[verifier::external_body]
pub(crate) fn multiaddr_of_socket(ip: crate::types::IpAddr, port: u16) -> (r: multiaddr::Multiaddr)
    ensures
        multiaddr_bytes(r) == crate::libp2p::address::socket_bytes(ip, port),
{
    let ip = match ip {
        crate::types::IpAddr::V4(octets) => multiaddr::AddrComponent::IP4(octets.into()),
        crate::types::IpAddr::V6(segments) => multiaddr::AddrComponent::IP6(segments.into()),
    };
    [ip, multiaddr::AddrComponent::TCP(port)].into_iter().collect()
}

} // verus!
