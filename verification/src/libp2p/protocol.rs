//! Registered protocols and the names under which they are advertised.
use vstd::prelude::*;

use crate::outside::{bytes_clone, bytes_extend, bytes_from_str};
use crate::types::ProtocolId;

verus! {

/// A protocol that the node speaks.
pub struct RegisteredProtocol<H> {
    /// Names the protocol in the interface.
    pub id: ProtocolId,
    /// The name of the protocol on the network, up to and with the `/` before the version.
    pub base_name: bytes::Bytes,
    /// The versions that are supported, the highest first.
    pub supported_versions: Vec<u8>,
    /// The number of different packet identifiers.
    pub packet_count: u8,
    /// Gets what happens on the protocol.
    pub handler: H,
}

/// A registered protocol as a value.
#[verifier::ext_equal]
pub ghost struct ProtocolView<H> {
    pub id: ProtocolId,
    pub base_name: Seq<u8>,
    pub supported_versions: Seq<u8>,
    pub packet_count: u8,
    pub handler: H,
}

impl<H> View for RegisteredProtocol<H> {
    type V = ProtocolView<H>;

    open spec fn view(&self) -> ProtocolView<H> {
        ProtocolView {
            id: self.id,
            base_name: crate::outside::bytes_view(self.base_name),
            supported_versions: self.supported_versions@,
            packet_count: self.packet_count,
            handler: self.handler,
        }
    }
}

impl<H> ProtocolView<H> {
    /// A protocol carries the name that belongs to its identifier, and its versions descend.
    pub open spec fn wf(self) -> bool {
        &&& self.base_name == base_name(self.id)
        &&& descending(self.supported_versions)
    }

    /// The names under which the protocol is advertised, each with its version.
    pub open spec fn names(self) -> Seq<(Seq<u8>, u8)> {
        self.supported_versions.map_values(|version: u8| (self.base_name + decimal(version), version))
    }
}

/// Names with what they stand for, as values.
pub open spec fn names_view<V>(names: Seq<(bytes::Bytes, V)>) -> Seq<(Seq<u8>, V)> {
    names.map_values(|name: (bytes::Bytes, V)| (crate::outside::bytes_view(name.0), name.1))
}

/// The name of a protocol on the network, without a version: `/parity/<id>/`.
pub open spec fn base_name(id: ProtocolId) -> Seq<u8> {
    vstd::utf8::encode_utf8("/parity/"@) + id@ + vstd::utf8::encode_utf8("/"@)
}

/// A number in decimal digits.
pub open spec fn decimal(n: u8) -> Seq<u8> {
    if n < 10 {
        seq![(48 + n) as u8]
    } else if n < 100 {
        seq![(48 + n / 10) as u8, (48 + n % 10) as u8]
    } else {
        seq![(48 + n / 100) as u8, (48 + n / 10 % 10) as u8, (48 + n % 10) as u8]
    }
}

/// No later version is higher than an earlier one.
pub open spec fn descending(versions: Seq<u8>) -> bool {
    forall|i: int, j: int| 0 <= i <= j < versions.len() ==> versions[i] >= versions[j]
}

/// The name of a protocol holds its identifier behind eight fixed bytes and ends with `/`, so that a
/// version can follow.
pub proof fn lemma_base_name(id: ProtocolId)
    ensures
        base_name(id).len() == 12,
        base_name(id).subrange(8, 11) == id@,
        base_name(id).last() == 0x2f,
{
    reveal_strlit("/parity/");
    reveal_strlit("/");
    vstd::utf8::is_ascii_chars_encode_utf8("/parity/"@);
    vstd::utf8::is_ascii_chars_encode_utf8("/"@);
    assert(base_name(id).subrange(8, 11) =~= id@);
}

/// There is only one way to order versions so that the highest comes first.
pub proof fn law_order_of_versions_is_unique(versions1: Seq<u8>, versions2: Seq<u8>)
    requires
        descending(versions1),
        descending(versions2),
        versions1.to_multiset() == versions2.to_multiset(),
    ensures
        versions1 == versions2,
{
    vstd::seq_lib::lemma_sorted_unique(versions1, versions2, |a: u8, b: u8| a >= b);
}

/// Two advertised names are the same only for the same version of the same protocol.
pub proof fn law_names_are_distinct(id1: ProtocolId, version1: u8, id2: ProtocolId, version2: u8)
    requires
        base_name(id1) + decimal(version1) == base_name(id2) + decimal(version2),
    ensures
        id1 == id2,
        version1 == version2,
{
    lemma_base_name(id1);
    lemma_base_name(id2);
    let name1 = base_name(id1) + decimal(version1);
    let name2 = base_name(id2) + decimal(version2);
    assert(name1.subrange(8, 11) =~= id1@);
    assert(name2.subrange(8, 11) =~= id2@);
    assert(id1 =~= id2) by {
        assert(id1@ == id2@);
        assert forall|i: int| 0 <= i < 3 implies id1[i] == id2[i] by {
            assert(id1@[i] == id2@[i]);
        }
    }
    assert(name1.skip(12) =~= decimal(version1));
    assert(name2.skip(12) =~= decimal(version2));
    lemma_decimal_is_injective(version1, version2);
}

/// Different numbers have different digits.
proof fn lemma_decimal_is_injective(n1: u8, n2: u8)
    requires
        decimal(n1) == decimal(n2),
    ensures
        n1 == n2,
{
    let d1 = decimal(n1);
    let d2 = decimal(n2);
    assert(d1.len() == d2.len());
    assert(d1[0] == d2[0]);
    if d1.len() > 1 {
        assert(d1[1] == d2[1]);
    }
    if d1.len() > 2 {
        assert(d1[2] == d2[2]);
    }
}

/// Writes a number in decimal digits.
pub fn to_decimal(n: u8) -> (r: Vec<u8>)
    ensures
        r@ == decimal(n),
{
    let mut r: Vec<u8> = Vec::new();
    if n >= 100 {
        r.push(48 + n / 100);
    }
    if n >= 10 {
        r.push(48 + n / 10 % 10);
    }
    r.push(48 + n % 10);
    assert(r@ =~= decimal(n));
    r
}

/// Inserting an element adds it to the elements.
proof fn lemma_insert_to_multiset(s: Seq<u8>, i: int, x: u8)
    requires
        0 <= i <= s.len(),
    ensures
        s.insert(i, x).to_multiset() == s.to_multiset().insert(x),
{
    let t = s.insert(i, x);
    assert(t.remove(i) =~= s);
    assert(t[i] == x);
    broadcast use vstd::seq_lib::group_to_multiset_ensures;
    assert(t.contains(x));
    assert(t.to_multiset().count(x) > 0);
    assert(t.to_multiset() =~= t.to_multiset().remove(x).insert(x));
}

/// Orders versions so that the highest comes first.
pub fn sort_versions(versions: &[u8]) -> (r: Vec<u8>)
    ensures
        descending(r@),
        r@.to_multiset() == versions@.to_multiset(),
{
    let mut r: Vec<u8> = Vec::new();
    let mut i: usize = 0;
    proof {
        assert(versions@.take(0) =~= Seq::<u8>::empty());
    }
    while i < versions.len()
        invariant
            i <= versions@.len(),
            descending(r@),
            r@.to_multiset() == versions@.take(i as int).to_multiset(),
        decreases versions@.len() - i,
    {
        let version: u8 = versions[i];
        let mut at: usize = 0;
        while at < r.len() && r[at] >= version
            invariant
                at <= r@.len(),
                forall|j: int| 0 <= j < at ==> r@[j] >= version,
            decreases r@.len() - at,
        {
            at = at + 1;
        }
        proof {
            lemma_insert_to_multiset(r@, at as int, version);
            assert(versions@.take(i + 1) =~= versions@.take(i as int).push(version));
            broadcast use vstd::seq_lib::group_to_multiset_ensures;
            assert(versions@.take(i as int).push(version).to_multiset() =~= versions@.take(
                i as int,
            ).to_multiset().insert(version));
        }
        r.insert(at, version);
        i = i + 1;
    }
    assert(versions@.take(versions@.len() as int) =~= versions@);
    r
}

/// Builds the name of a protocol on the network, without a version.
fn build_base_name(id: &ProtocolId) -> (r: bytes::Bytes)
    ensures
        crate::outside::bytes_view(r) == base_name(*id),
{
    proof {
        reveal_strlit("/parity/");
        reveal_strlit("/");
        vstd::utf8::is_ascii_chars_encode_utf8("/parity/"@);
        vstd::utf8::is_ascii_chars_encode_utf8("/"@);
    }
    let mut name = bytes_from_str("/parity/");
    bytes_extend(&mut name, id.as_slice());
    bytes_extend(&mut name, "/".as_bytes());
    name
}

impl<H> RegisteredProtocol<H> {
    /// A protocol with the given versions, in any order.
    pub fn new(id: ProtocolId, packet_count: u8, versions: &[u8], handler: H) -> (r: Self)
        ensures
            r@.wf(),
            r@.id == id,
            r@.supported_versions.to_multiset() == versions@.to_multiset(),
            r@.packet_count == packet_count,
            r@.handler == handler,
    {
        RegisteredProtocol {
            base_name: build_base_name(&id),
            id,
            supported_versions: sort_versions(versions),
            packet_count,
            handler,
        }
    }

    /// The names under which the protocol is advertised: one for each version, the best first.
    pub fn protocol_names(&self) -> (r: Vec<(bytes::Bytes, u8)>)
        requires
            self@.wf(),
        ensures
            names_view(r@) == self@.names(),
    {
        let mut r: Vec<(bytes::Bytes, u8)> = Vec::new();
        let mut i: usize = 0;
        proof {
            lemma_base_name(self.id);
        }
        while i < self.supported_versions.len()
            invariant
                self@.base_name.len() == 12,
                i <= self.supported_versions@.len(),
                r@.len() == i,
                forall|j: int|
                    0 <= j < i ==> crate::outside::bytes_view((#[trigger] r@[j]).0)
                        == self@.base_name + decimal(self.supported_versions@[j]) && r@[j].1
                        == self.supported_versions@[j],
            decreases self.supported_versions@.len() - i,
        {
            let version: u8 = self.supported_versions[i];
            let digits = to_decimal(version);
            let mut name = bytes_clone(&self.base_name);
            bytes_extend(&mut name, digits.as_slice());
            r.push((name, version));
            i = i + 1;
        }
        assert(names_view(r@) =~= self@.names());
        r
    }
}

} // verus!
