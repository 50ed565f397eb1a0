//! The names under which protocols are advertised.
use vstd::prelude::*;

use crate::libp2p::protocol::{sort_versions, to_decimal, RegisteredProtocol};
use crate::libp2p::service::{IdentifyInfo, NetworkService};
use crate::libp2p::shared::Shared;
use crate::libp2p::upgrade::{select_upgrade, UpgradeTarget};
use crate::types::ProtocolId;

verus! {

/// The number that some decimal digits stand for.
pub open spec fn value(digits: Seq<u8>) -> int
    decreases digits.len(),
{
    if digits.len() == 0 {
        0
    } else {
        10 * value(digits.drop_last()) + (digits.last() - 0x30)
    }
}

/// Whether some bytes are a number in decimal digits, without a zero in front.
pub open spec fn is_written(digits: Seq<u8>, n: u8) -> bool {
    &&& digits.len() > 0
    &&& forall|i: int| 0 <= i < digits.len() ==> 0x30 <= #[trigger] digits[i] <= 0x39
    &&& digits.len() > 1 ==> digits[0] != 0x30
    &&& value(digits) == n
}

/// A number is written in decimal digits that stand for it, without a zero in front.
pub proof fn law_numbers_are_written_out(n: u8, r: Vec<u8>)
    requires
        call_ensures(to_decimal, (n,), r),
    ensures
        is_written(r@, n),
{
    lemma_decimal(n);
}

/// The digits of a number stand for it.
proof fn lemma_decimal(n: u8)
    ensures
        is_written(crate::libp2p::protocol::decimal(n), n),
{
    let digits = crate::libp2p::protocol::decimal(n);
    reveal_with_fuel(value, 4);
    if n < 10 {
        assert(digits.drop_last() =~= Seq::<u8>::empty());
    } else if n < 100 {
        assert(digits.drop_last() =~= seq![(48 + n / 10) as u8]);
        assert(digits.drop_last().drop_last() =~= Seq::<u8>::empty());
    } else {
        assert(digits.drop_last() =~= seq![(48 + n / 100) as u8, (48 + n / 10 % 10) as u8]);
        assert(digits.drop_last().drop_last() =~= seq![(48 + n / 100) as u8]);
        assert(digits.drop_last().drop_last().drop_last() =~= Seq::<u8>::empty());
    }
}

/// Versions are put in order, the highest first; each occurs as often as before.
pub proof fn law_versions_are_put_in_order(versions: &[u8], r: Vec<u8>, version: u8)
    requires
        call_ensures(sort_versions, (versions,), r),
    ensures
        r@.len() == versions@.len(),
        forall|i: int, j: int| 0 <= i < j < r@.len() ==> r@[i] >= r@[j],
        r@.to_multiset().count(version) == versions@.to_multiset().count(version),
{
    r@.to_multiset_ensures();
    versions@.to_multiset_ensures();
}

/// Whether some bytes are the name of a version of a protocol: `/parity/<id>/<version>`.
pub open spec fn is_name(name: Seq<u8>, id: ProtocolId, version: u8) -> bool {
    &&& name.len() > 12
    &&& name.subrange(0, 8) == seq![0x2fu8, 0x70, 0x61, 0x72, 0x69, 0x74, 0x79, 0x2f]
    &&& name[8] == id[0] && name[9] == id[1] && name[10] == id[2]
    &&& name[11] == 0x2f
    &&& is_written(name.subrange(12, name.len() as int), version)
}

/// The name of a protocol, followed by the digits of a version, is the name of that version.
proof fn lemma_name(id: ProtocolId, version: u8)
    ensures
        is_name(
            crate::libp2p::protocol::base_name(id) + crate::libp2p::protocol::decimal(version),
            id,
            version,
        ),
{
    let base = crate::libp2p::protocol::base_name(id);
    let digits = crate::libp2p::protocol::decimal(version);
    let name = base + digits;
    lemma_decimal(version);
    crate::libp2p::protocol::lemma_base_name(id);
    reveal_strlit("/parity/");
    reveal_strlit("/");
    vstd::utf8::is_ascii_chars_encode_utf8("/parity/"@);
    vstd::utf8::is_ascii_chars_encode_utf8("/"@);
    assert(name.subrange(0, 8) =~= seq![0x2fu8, 0x70, 0x61, 0x72, 0x69, 0x74, 0x79, 0x2f]);
    assert(name.subrange(12, name.len() as int) =~= digits);
    assert forall|i: int| 0 <= i < 3 implies #[trigger] id@[i] == name[8 + i] by {
        assert(base.subrange(8, 11)[i] == base[8 + i]);
    }
    assert(name[8] == id@[0]);
    assert(name[9] == id@[1]);
    assert(name[10] == id@[2]);
}

/// A protocol keeps what it is made of, its versions with the highest first, and is advertised under
/// a name for each of its versions, in that order.
pub proof fn law_every_version_has_its_name<H>(
    id: ProtocolId,
    packet_count: u8,
    versions: &[u8],
    handler: H,
    protocol: RegisteredProtocol<H>,
    names: Vec<(bytes::Bytes, u8)>,
    version: u8,
)
    requires
        call_ensures(
            RegisteredProtocol::<H>::new,
            (id, packet_count, versions, handler),
            protocol,
        ),
        call_ensures(RegisteredProtocol::<H>::protocol_names, (&protocol,), names),
    ensures
        protocol.id == id,
        protocol.packet_count == packet_count,
        protocol.handler == handler,
        protocol.supported_versions@.to_multiset().count(version) == versions@.to_multiset().count(
            version,
        ),
        protocol.supported_versions@.len() == versions@.len(),
        names@.len() == versions@.len(),
        forall|i: int, j: int| 0 <= i < j < names@.len() ==> names@[i].1 >= names@[j].1,
        forall|i: int|
            0 <= i < names@.len() ==> (#[trigger] names@[i]).1 == protocol.supported_versions@[i]
                && is_name(crate::outside::bytes_view(names@[i].0), id, names@[i].1),
{
    protocol.supported_versions@.to_multiset_ensures();
    versions@.to_multiset_ensures();
    let view = crate::libp2p::protocol::names_view(names@);
    assert(view.len() == names@.len());
    assert forall|i: int| 0 <= i < names@.len() implies (#[trigger] names@[i]).1
        == protocol.supported_versions@[i] && is_name(
        crate::outside::bytes_view(names@[i].0),
        id,
        names@[i].1,
    ) by {
        assert(view[i] == protocol@.names()[i]);
        lemma_name(id, protocol.supported_versions@[i]);
    }
}

/// The number of versions that some protocols have together.
pub open spec fn versions_of<H>(
    protocols: Seq<crate::libp2p::protocol::ProtocolView<H>>,
) -> nat
    decreases protocols.len(),
{
    if protocols.len() == 0 {
        0
    } else {
        versions_of(protocols.drop_last()) + protocols.last().supported_versions.len()
    }
}

/// The names of the registered protocols, one protocol after the other, and of each protocol the
/// versions in their order.
proof fn lemma_custom_names<H>(
    protocols: Seq<crate::libp2p::protocol::ProtocolView<H>>,
    index: int,
    j: int,
)
    requires
        forall|i: int| 0 <= i < protocols.len() ==> (#[trigger] protocols[i]).wf(),
        0 <= index < protocols.len(),
        0 <= j < protocols[index].supported_versions.len(),
    ensures
        ({
            let names = crate::libp2p::upgrade::custom_names(protocols);
            let at = versions_of(protocols.take(index)) + j;
            &&& at < names.len()
            &&& names[at].1 == (index, protocols[index].supported_versions[j])
            &&& is_name(
                names[at].0,
                protocols[index].id,
                protocols[index].supported_versions[j],
            )
        }),
    decreases protocols.len(),
{
    let shorter = protocols.drop_last();
    lemma_custom_len(shorter);
    assert forall|i: int| 0 <= i < shorter.len() implies (#[trigger] shorter[i]).wf() by {
        assert(protocols[i].wf());
    }
    if index < protocols.len() - 1 {
        lemma_custom_names(shorter, index, j);
        assert(shorter.take(index) =~= protocols.take(index));
    } else {
        assert(protocols.take(index) =~= shorter);
        assert(protocols[index].wf());
        lemma_name(protocols[index].id, protocols[index].supported_versions[j]);
    }
}

/// There are as many names as versions.
proof fn lemma_custom_len<H>(protocols: Seq<crate::libp2p::protocol::ProtocolView<H>>)
    ensures
        crate::libp2p::upgrade::custom_names(protocols).len() == versions_of(protocols),
    decreases protocols.len(),
{
    if protocols.len() > 0 {
        lemma_custom_len(protocols.drop_last());
    }
}

/// All protocols are advertised: first Kademlia and the identification, with the numbers 0 and 1, and
/// then each registered protocol, one after the other, with its index and two more. Of each protocol
/// every version has its name, the highest first, and there are no other names.
pub proof fn law_all_protocols_are_advertised<H>(
    shared: &Shared<H>,
    r: Vec<(bytes::Bytes, (usize, u8))>,
    index: int,
    j: int,
)
    requires
        shared@.wf(),
        call_ensures(Shared::<H>::protocol_names, (shared,), r),
    ensures
        r@.len() == 2 + versions_of(shared@.protocols),
        crate::outside::bytes_view(r@[0].0) == vstd::utf8::encode_utf8("/ipfs/kad/1.0.0"@),
        r@[0].1 == (0usize, 0u8),
        crate::outside::bytes_view(r@[1].0) == vstd::utf8::encode_utf8("/ipfs/id/1.0.0"@),
        r@[1].1 == (1usize, 0u8),
        0 <= index < shared@.protocols.len() && 0 <= j
            < shared@.protocols[index].supported_versions.len() ==> {
            let at = 2 + versions_of(shared@.protocols.take(index)) + j;
            let version = shared@.protocols[index].supported_versions[j];
            &&& at < r@.len()
            &&& r@[at].1.0 == index + 2
            &&& r@[at].1.1 == version
            &&& is_name(
                crate::outside::bytes_view(r@[at].0),
                shared@.protocols[index].id,
                version,
            )
        },
{
    let protocols = shared@.protocols;
    let all = crate::libp2p::upgrade::ids_view(r@);
    lemma_custom_len(protocols);
    assert(all.len() == r@.len());
    assert(all[0] == crate::libp2p::upgrade::all_names(protocols)[0]);
    assert(all[1] == crate::libp2p::upgrade::all_names(protocols)[1]);
    if 0 <= index < protocols.len() && 0 <= j < protocols[index].supported_versions.len() {
        lemma_custom_names(protocols, index, j);
        let at = 2 + versions_of(protocols.take(index)) + j;
        assert(all[at] == crate::libp2p::upgrade::all_names(protocols)[at]);
        assert(crate::libp2p::upgrade::all_names(protocols)[at]
            == crate::libp2p::upgrade::shifted(
            crate::libp2p::upgrade::custom_names(protocols),
        )[at - 2]);
    }
}

/// The registered protocols are advertised in the same order on their own, each with its index; of
/// one protocol, every version has its name, and of an index without a protocol there are none.
pub proof fn law_registered_protocols_are_advertised<H>(
    shared: &Shared<H>,
    r: Vec<(bytes::Bytes, (usize, u8))>,
    index: usize,
    j: int,
    names: Vec<(bytes::Bytes, u8)>,
)
    requires
        shared@.wf(),
        call_ensures(Shared::<H>::custom_protocol_names, (shared,), r),
        call_ensures(Shared::<H>::names_of_protocol, (shared, index), names),
    ensures
        r@.len() == versions_of(shared@.protocols),
        index >= shared@.protocols.len() ==> names@.len() == 0,
        index < shared@.protocols.len() ==> names@.len()
            == shared@.protocols[index as int].supported_versions.len(),
        index < shared@.protocols.len() && 0 <= j < names@.len() ==> {
            let at = versions_of(shared@.protocols.take(index as int)) + j;
            let version = shared@.protocols[index as int].supported_versions[j];
            &&& at < r@.len()
            &&& r@[at].1 == (index, version)
            &&& names@[j].1 == version
            &&& is_name(
                crate::outside::bytes_view(r@[at].0),
                shared@.protocols[index as int].id,
                version,
            )
            &&& is_name(
                crate::outside::bytes_view(names@[j].0),
                shared@.protocols[index as int].id,
                version,
            )
        },
{
    let protocols = shared@.protocols;
    let all = crate::libp2p::upgrade::ids_view(r@);
    let view = crate::libp2p::protocol::names_view(names@);
    lemma_custom_len(protocols);
    assert(all.len() == r@.len());
    assert(view.len() == names@.len());
    if index < protocols.len() && 0 <= j < names@.len() {
        lemma_custom_names(protocols, index as int, j);
        let at = versions_of(protocols.take(index as int)) + j;
        assert(all[at] == crate::libp2p::upgrade::custom_names(protocols)[at]);
        assert(view[j] == protocols[index as int].names()[j]);
        assert(protocols[index as int].wf());
        lemma_name(protocols[index as int].id, protocols[index as int].supported_versions[j]);
    }
}

/// Whoever chooses an advertised name gets what it stands for: the numbers 0 and 1 are those of
/// Kademlia and of the identification, and the others, less two, are indices of registered protocols.
pub proof fn law_choices_lead_to_their_protocol(id: usize, version: u8, r: UpgradeTarget)
    requires
        call_ensures(select_upgrade, (id, version), r),
    ensures
        match r {
            UpgradeTarget::Kad => id == 0,
            UpgradeTarget::Identify => id == 1,
            UpgradeTarget::Custom(index, chosen) => index + 2 == id && chosen == version,
        },
{
}

/// Whether some texts are those of the names at some places, in their order, and these are all places
/// at which a name is UTF-8.
pub open spec fn lists_readable(
    names: Seq<(bytes::Bytes, (usize, u8))>,
    texts: Seq<String>,
    places: Seq<int>,
) -> bool {
    &&& texts.len() == places.len()
    &&& forall|k: int|
        0 <= k < places.len() ==> 0 <= #[trigger] places[k] < names.len()
            && vstd::utf8::valid_utf8(crate::outside::bytes_view(names[places[k]].0)) && texts[k]@
            == vstd::utf8::decode_utf8(crate::outside::bytes_view(names[places[k]].0))
    &&& forall|k: int, l: int| 0 <= k < l < places.len() ==> places[k] < places[l]
    &&& forall|i: int|
        0 <= i < names.len() && vstd::utf8::valid_utf8(
            crate::outside::bytes_view((#[trigger] names[i]).0),
        ) ==> places.contains(i)
}

/// Those of some names that are UTF-8 stand at places in their order.
proof fn lemma_readable(
    names: Seq<(bytes::Bytes, (usize, u8))>,
    texts: Seq<String>,
) -> (places: Seq<int>)
    requires
        texts.map_values(|name: String| name@) == crate::libp2p::service::readable_names(
            crate::libp2p::upgrade::ids_view(names),
        ),
    ensures
        lists_readable(names, texts, places),
    decreases names.len(),
{
    let listed = texts.map_values(|name: String| name@);
    let view = crate::libp2p::upgrade::ids_view(names);
    if names.len() == 0 {
        assert(listed.len() == texts.len());
        Seq::empty()
    } else {
        let n = names.len() - 1;
        let shorter = names.drop_last();
        assert(crate::libp2p::upgrade::ids_view(shorter) =~= view.drop_last());
        assert(view.last().0 == crate::outside::bytes_view(names[n].0));
        if vstd::utf8::valid_utf8(view.last().0) {
            let fewer = texts.drop_last();
            assert(listed.len() == texts.len());
            assert(fewer.map_values(|name: String| name@) =~= listed.drop_last());
            assert(listed.drop_last() =~= crate::libp2p::service::readable_names(view.drop_last()));
            let before = lemma_readable(shorter, fewer);
            let places = before.push(n);
            assert(listed.last() == vstd::utf8::decode_utf8(view.last().0));
            assert(listed[texts.len() - 1] == texts[texts.len() - 1]@);
            assert forall|k: int| 0 <= k < places.len() implies 0 <= #[trigger] places[k]
                < names.len() && vstd::utf8::valid_utf8(
                crate::outside::bytes_view(names[places[k]].0),
            ) && texts[k]@ == vstd::utf8::decode_utf8(
                crate::outside::bytes_view(names[places[k]].0),
            ) by {
                if k < before.len() {
                    assert(0 <= before[k] < shorter.len());
                    assert(fewer[k] == texts[k]);
                    assert(shorter[before[k]] == names[places[k]]);
                }
            }
            assert forall|k: int, l: int| 0 <= k < l < places.len() implies places[k]
                < places[l] by {
                if l == before.len() {
                    assert(before[k] < shorter.len());
                }
            }
            assert forall|i: int|
                0 <= i < names.len() && vstd::utf8::valid_utf8(
                    crate::outside::bytes_view((#[trigger] names[i]).0),
                ) implies places.contains(i) by {
                if i < n {
                    assert(shorter[i] == names[i]);
                    let k = choose|k: int| 0 <= k < before.len() && before[k] == i;
                    assert(places[k] == i);
                } else {
                    assert(places[before.len() as int] == i);
                }
            }
            places
        } else {
            let before = lemma_readable(shorter, texts);
            assert forall|k: int| 0 <= k < before.len() implies 0 <= #[trigger] before[k]
                < names.len() && vstd::utf8::valid_utf8(
                crate::outside::bytes_view(names[before[k]].0),
            ) && texts[k]@ == vstd::utf8::decode_utf8(
                crate::outside::bytes_view(names[before[k]].0),
            ) by {
                assert(shorter[before[k]] == names[before[k]]);
            }
            assert forall|i: int|
                0 <= i < names.len() && vstd::utf8::valid_utf8(
                    crate::outside::bytes_view((#[trigger] names[i]).0),
                ) implies before.contains(i) by {
                assert(shorter[i] == names[i]);
            }
            before
        }
    }
}

/// A node tells of itself its key, what it is, and the names under which its protocols are
/// advertised: all that are UTF-8, each once for each time that it is advertised, in the same order.
pub proof fn law_node_tells_its_names<H, S, F>(
    service: &NetworkService<H, S, F>,
    public_key: Vec<u8>,
    r: IdentifyInfo,
    names: Vec<(bytes::Bytes, (usize, u8))>,
)
    requires
        call_ensures(NetworkService::<H, S, F>::identify_info, (service, public_key), r),
        call_ensures(Shared::<H>::protocol_names, (&service.shared,), names),
    ensures
        r.public_key@ == public_key@,
        r.protocol_version@ == "parity/1.11.0"@,
        r.agent_version@ == "rust-libp2p/1.0.0"@,
        r.listen_addrs@.len() == 0,
        exists|places: Seq<int>| #[trigger] lists_readable(names@, r.protocols@, places),
{
    let places = lemma_readable(names@, r.protocols@);
    assert(lists_readable(names@, r.protocols@, places));
}

} // verus!
