//! Negotiating the protocol of a substream.
use vstd::prelude::*;

use super::shared::Shared;
use crate::outside::{bytes_clone, bytes_from_str};

verus! {

/// The names of the registered protocols, each with the index of the protocol and its version.
pub open spec fn custom_names<H>(protocols: Seq<super::protocol::ProtocolView<H>>) -> Seq<
    (Seq<u8>, (int, u8)),
>
    decreases protocols.len(),
{
    if protocols.len() == 0 {
        Seq::empty()
    } else {
        custom_names(protocols.drop_last()) + numbered(
            protocols.last().names(),
            protocols.len() - 1,
        )
    }
}

/// The names of one protocol, each with a number for the protocol.
pub open spec fn numbered(names: Seq<(Seq<u8>, u8)>, number: int) -> Seq<(Seq<u8>, (int, u8))> {
    names.map_values(|name: (Seq<u8>, u8)| (name.0, (number, name.1)))
}

/// Names whose numbers are two more, to make room for the protocols of the infrastructure.
pub open spec fn shifted(names: Seq<(Seq<u8>, (int, u8))>) -> Seq<(Seq<u8>, (int, u8))> {
    names.map_values(|name: (Seq<u8>, (int, u8))| (name.0, ((name.1).0 + 2, (name.1).1)))
}

/// The names of all protocols, each with an identifier by which it is chosen: first the protocols
/// of the infrastructure, then the registered ones.
pub open spec fn all_names<H>(protocols: Seq<super::protocol::ProtocolView<H>>) -> Seq<
    (Seq<u8>, (int, u8)),
> {
    seq![
        (vstd::utf8::encode_utf8("/ipfs/kad/1.0.0"@), (0int, 0u8)),
        (vstd::utf8::encode_utf8("/ipfs/id/1.0.0"@), (1int, 0u8)),
    ] + shifted(custom_names(protocols))
}

/// Names with their identifiers, as values.
pub open spec fn ids_view(names: Seq<(bytes::Bytes, (usize, u8))>) -> Seq<(Seq<u8>, (int, u8))> {
    names.map_values(
        |name: (bytes::Bytes, (usize, u8))|
            (crate::outside::bytes_view(name.0), ((name.1).0 as int, (name.1).1)),
    )
}

/// What a substream is upgraded to.
#[derive(Debug, Copy, Clone, PartialEq, Eq, Structural)]
pub enum UpgradeTarget {
    /// Kademlia.
    Kad,
    /// Identification of the peers.
    Identify,
    /// A version of the registered protocol at an index.
    Custom(usize, u8),
}

/// What is chosen by an identifier.
pub open spec fn target_of(id: usize, version: u8) -> UpgradeTarget {
    if id == 0 {
        UpgradeTarget::Kad
    } else if id == 1 {
        UpgradeTarget::Identify
    } else {
        UpgradeTarget::Custom((id - 2) as usize, version)
    }
}

/// Finds what is chosen by an identifier that was advertised with a name.
pub fn select_upgrade(id: usize, version: u8) -> (r: UpgradeTarget)
    ensures
        r == target_of(id, version),
{
    if id == 0 {
        UpgradeTarget::Kad
    } else if id == 1 {
        UpgradeTarget::Identify
    } else {
        UpgradeTarget::Custom(id - 2, version)
    }
}

/// Each name of a registered protocol comes with an index and a version that it belongs to.
proof fn lemma_custom_names<H>(protocols: Seq<super::protocol::ProtocolView<H>>, k: int)
    requires
        0 <= k < custom_names(protocols).len(),
    ensures
        ({
            let (name, (index, version)) = custom_names(protocols)[k];
            &&& 0 <= index < protocols.len()
            &&& protocols[index].supported_versions.contains(version)
            &&& name == protocols[index].base_name + super::protocol::decimal(version)
        }),
    decreases protocols.len(),
{
    let shorter = custom_names(protocols.drop_last());
    if k < shorter.len() {
        lemma_custom_names(protocols.drop_last(), k);
    } else {
        let i = k - shorter.len();
        assert(protocols.last().supported_versions.contains(
            protocols.last().supported_versions[i],
        ));
    }
}

/// Whoever chooses an advertised name gets the protocol that the name stands for: the two of the
/// infrastructure come first, and behind them each name leads to the registered protocol and the
/// version that it is made of.
pub proof fn law_names_lead_to_their_protocols<H>(
    protocols: Seq<super::protocol::ProtocolView<H>>,
    k: int,
    id: usize,
    version: u8,
)
    requires
        0 <= k < all_names(protocols).len(),
        all_names(protocols)[k].1 == (id as int, version),
        forall|i: int| 0 <= i < protocols.len() ==> (#[trigger] protocols[i]).wf(),
    ensures
        ({
            let name = all_names(protocols)[k].0;
            match target_of(id, version) {
                UpgradeTarget::Kad => k == 0 && id == 0 && name == vstd::utf8::encode_utf8(
                    "/ipfs/kad/1.0.0"@,
                ),
                UpgradeTarget::Identify => k == 1 && id == 1 && name == vstd::utf8::encode_utf8(
                    "/ipfs/id/1.0.0"@,
                ),
                UpgradeTarget::Custom(index, v) => k >= 2 && index == id - 2 && v == version && index
                    < protocols.len() && protocols[index as int].supported_versions.contains(v)
                    && name == super::protocol::base_name(protocols[index as int].id)
                    + super::protocol::decimal(v),
            }
        }),
{
    if k >= 2 {
        lemma_custom_names(protocols, k - 2);
        let (name, (index, v)) = custom_names(protocols)[k - 2];
        assert(all_names(protocols)[k] == (name, (index + 2, v)));
        assert(protocols[index].wf());
    }
}

/// Every version of every registered protocol is advertised.
pub proof fn law_every_version_is_advertised<H>(
    protocols: Seq<super::protocol::ProtocolView<H>>,
    index: int,
    version: u8,
)
    requires
        0 <= index < protocols.len(),
        protocols[index].supported_versions.contains(version),
    ensures
        exists|k: int|
            0 <= k < all_names(protocols).len() && #[trigger] all_names(protocols)[k] == (
                protocols[index].base_name + super::protocol::decimal(version),
                (index + 2, version),
            ),
{
    let k = lemma_version_is_listed(protocols, index, version);
    assert(all_names(protocols)[k + 2] == (
        protocols[index].base_name + super::protocol::decimal(version),
        (index + 2, version),
    ));
}

/// Finds the place at which a version of a protocol is listed.
proof fn lemma_version_is_listed<H>(
    protocols: Seq<super::protocol::ProtocolView<H>>,
    index: int,
    version: u8,
) -> (k: int)
    requires
        0 <= index < protocols.len(),
        protocols[index].supported_versions.contains(version),
    ensures
        0 <= k < custom_names(protocols).len(),
        custom_names(protocols)[k] == (
            protocols[index].base_name + super::protocol::decimal(version),
            (index, version),
        ),
    decreases protocols.len(),
{
    let shorter = custom_names(protocols.drop_last());
    if index < protocols.len() - 1 {
        lemma_version_is_listed(protocols.drop_last(), index, version)
    } else {
        let i = choose|i: int|
            0 <= i < protocols[index].supported_versions.len()
                && protocols[index].supported_versions[i] == version;
        assert(protocols.last().names()[i] == (
            protocols[index].base_name + super::protocol::decimal(version),
            version,
        ));
        shorter.len() + i
    }
}

/// A name that is advertised stays where it is, with its identifier, whatever is registered later.
/// Registering a protocol with some versions adds a name for each of them behind the others, with
/// the number of the protocols that were registered before, and two more, and the version.
pub proof fn law_names_keep_their_place<H>(
    s: super::shared::SharedView<H>,
    added: super::protocol::ProtocolView<H>,
    versions: Seq<u8>,
    k: int,
)
    requires
        added.supported_versions.to_multiset() == versions.to_multiset(),
        0 <= k < all_names(s.with_protocol(added).protocols).len(),
    ensures
        ({
            let before = all_names(s.protocols);
            let after = all_names(s.with_protocol(added).protocols);
            &&& after.len() == before.len() + versions.len()
            &&& k < before.len() ==> after[k] == before[k]
            &&& k >= before.len() ==> {
                &&& (after[k].1).0 == s.protocols.len() + 2
                &&& versions.contains((after[k].1).1)
                &&& after[k].0 == added.base_name + super::protocol::decimal((after[k].1).1)
            }
        }),
{
    let before = all_names(s.protocols);
    let protocols = s.with_protocol(added).protocols;
    let after = all_names(protocols);
    assert(protocols.drop_last() =~= s.protocols);
    assert(protocols.last() == added);
    added.supported_versions.to_multiset_ensures();
    versions.to_multiset_ensures();
    assert(added.supported_versions.len() == versions.len());
    if k >= before.len() {
        let i = k - before.len();
        let version = added.supported_versions[i];
        assert(after[k].1.1 == version);
        assert(added.supported_versions.contains(version));
        assert(versions.to_multiset().count(version) > 0);
    }
}

impl<H> Shared<H> {
    /// The names under which the protocol at an index is advertised; none if there is no such
    /// protocol.
    pub fn names_of_protocol(&self, index: usize) -> (r: Vec<(bytes::Bytes, u8)>)
        requires
            self@.wf(),
        ensures
            super::protocol::names_view(r@) == if index < self@.protocols.len() {
                self@.protocols[index as int].names()
            } else {
                Seq::<(Seq<u8>, u8)>::empty()
            },
    {
        match self.protocol_at(index) {
            Some(protocol) => {
                assert(self@.protocols[index as int].wf());
                protocol.protocol_names()
            },
            None => Vec::new(),
        }
    }

    /// The names under which the registered protocols are advertised.
    pub fn custom_protocol_names(&self) -> (r: Vec<(bytes::Bytes, (usize, u8))>)
        requires
            self@.wf(),
        ensures
            ids_view(r@) == custom_names(self@.protocols),
    {
        let mut r: Vec<(bytes::Bytes, (usize, u8))> = Vec::new();
        let count: usize = self.num_protocols();
        let mut n: usize = 0;
        while n < count
            invariant
                self@.wf(),
                count == self@.protocols.len(),
                n <= count,
                ids_view(r@) == custom_names(self@.protocols.take(n as int)),
            decreases count - n,
        {
            let names = self.names_of_protocol(n);
            append_numbered(&mut r, n, names);
            proof {
                let taken = self@.protocols.take(n + 1);
                assert(taken.drop_last() =~= self@.protocols.take(n as int));
                assert(taken.last() == self@.protocols[n as int]);
                assert(ids_view(r@) =~= custom_names(taken));
            }
            n = n + 1;
        }
        assert(self@.protocols.take(count as int) =~= self@.protocols);
        r
    }

    /// The names under which all protocols are advertised.
    pub fn protocol_names(&self) -> (r: Vec<(bytes::Bytes, (usize, u8))>)
        requires
            self@.wf(),
            self@.protocols.len() + 2 <= usize::MAX,
        ensures
            ids_view(r@) == all_names(self@.protocols),
    {
        let mut r: Vec<(bytes::Bytes, (usize, u8))> = Vec::new();
        r.push((bytes_from_str("/ipfs/kad/1.0.0"), (0, 0)));
        r.push((bytes_from_str("/ipfs/id/1.0.0"), (1, 0)));
        let custom = self.custom_protocol_names();
        let ghost listed = custom_names(self@.protocols);
        let count: usize = custom.len();
        let mut i: usize = 0;
        while i < count
            invariant
                count == custom@.len() == listed.len(),
                i <= count,
                self@.protocols.len() + 2 <= usize::MAX,
                listed == custom_names(self@.protocols),
                listed == ids_view(custom@),
                r@.len() == i + 2,
                forall|j: int|
                    0 <= j < i + 2 ==> #[trigger] ids_view(r@)[j] == all_names(
                        self@.protocols,
                    )[j],
            decreases count - i,
        {
            let name = &custom[i];
            proof {
                lemma_custom_names(self@.protocols, i as int);
                assert(listed[i as int].1 == (name.1.0 as int, name.1.1));
            }
            let ghost before = r@;
            r.push((bytes_clone(&name.0), (name.1.0 + 2, name.1.1)));
            assert forall|j: int| 0 <= j < i + 3 implies #[trigger] ids_view(r@)[j]
                == all_names(self@.protocols)[j] by {
                if j < i + 2 {
                    assert(ids_view(before)[j] == all_names(self@.protocols)[j]);
                } else {
                    assert(ids_view(custom@)[i as int] == listed[i as int]);
                }
            }
            i = i + 1;
        }
        assert(ids_view(r@) =~= all_names(self@.protocols));
        r
    }
}

/// Appends the names of a protocol, each with the index of the protocol and its version.
fn append_numbered(
    r: &mut Vec<(bytes::Bytes, (usize, u8))>,
    index: usize,
    names: Vec<(bytes::Bytes, u8)>,
)
    ensures
        ids_view(final(r)@) == ids_view(old(r)@) + numbered(
            super::protocol::names_view(names@),
            index as int,
        ),
{
    let ghost before = ids_view(r@);
    let ghost added = numbered(super::protocol::names_view(names@), index as int);
    let count: usize = names.len();
    let mut i: usize = 0;
    assert(before =~= before + added.take(0));
    while i < count
        invariant
            count == names@.len(),
            i <= count,
            added == numbered(super::protocol::names_view(names@), index as int),
            ids_view(r@) == before + added.take(i as int),
        decreases count - i,
    {
        let name = &names[i];
        let ghost so_far = ids_view(r@);
        r.push((bytes_clone(&name.0), (index, name.1)));
        proof {
            assert(ids_view(r@) =~= so_far.push(added[i as int]));
            assert(added.take(i + 1) =~= added.take(i as int).push(added[i as int]));
            assert(before + added.take(i + 1) =~= (before + added.take(i as int)).push(
                added[i as int],
            ));
        }
        i = i + 1;
    }
    assert(added.take(count as int) =~= added);
}

} // verus!
