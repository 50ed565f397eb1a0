//! Which texts mention an `/onion` component with an argument.
use vstd::prelude::*;

use crate::libp2p::address::has_onion;

verus! {

/// Whether some bytes hold no slash.
pub open spec fn is_part(bytes: Seq<u8>) -> bool {
    forall|i: int| 0 <= i < bytes.len() ==> #[trigger] bytes[i] != 0x2f
}

/// Whether some bytes are further components: there are none, or they begin with a slash.
pub open spec fn are_components(bytes: Seq<u8>) -> bool {
    bytes.len() == 0 || bytes[0] == 0x2f
}

/// Whether a component with a name has no argument.
pub open spec fn stands_alone(name: Seq<u8>) -> bool {
    ||| name == vstd::utf8::encode_utf8("udt"@)
    ||| name == vstd::utf8::encode_utf8("utp"@)
    ||| name == vstd::utf8::encode_utf8("http"@)
    ||| name == vstd::utf8::encode_utf8("https"@)
    ||| name == vstd::utf8::encode_utf8("quic"@)
    ||| name == vstd::utf8::encode_utf8("ws"@)
    ||| name == vstd::utf8::encode_utf8("wss"@)
    ||| name == vstd::utf8::encode_utf8("p2p-websocket-star"@)
    ||| name == vstd::utf8::encode_utf8("p2p-webrtc-star"@)
    ||| name == vstd::utf8::encode_utf8("p2p-webrtc-direct"@)
    ||| name == vstd::utf8::encode_utf8("p2p-circuit"@)
}

/// A part ends at the next slash, or at the end of the text.
proof fn lemma_part_end(text: Seq<u8>, from: int, end: int)
    requires
        0 <= from <= end <= text.len(),
        forall|i: int| from <= i < end ==> #[trigger] text[i] != 0x2f,
        end == text.len() || text[end] == 0x2f,
    ensures
        crate::libp2p::address::part_end(text, from) == end,
    decreases end - from,
{
    if from < end {
        lemma_part_end(text, from + 1, end);
    }
}

/// Where a part ends does not depend on what stands before it.
proof fn lemma_part_end_behind(front: Seq<u8>, text: Seq<u8>, from: int)
    requires
        0 <= from,
    ensures
        crate::libp2p::address::part_end(front + text, front.len() + from) == front.len()
            + crate::libp2p::address::part_end(text, from),
    decreases text.len() - from,
{
    if from < text.len() {
        assert((front + text)[front.len() + from] == text[from]);
        lemma_part_end_behind(front, text, from + 1);
    }
}

/// What components mention does not depend on what stands before them.
proof fn lemma_onion_behind(front: Seq<u8>, text: Seq<u8>, from: int)
    requires
        0 <= from,
    ensures
        crate::libp2p::address::onion_from(front + text, front.len() + from)
            == crate::libp2p::address::onion_from(text, from),
    decreases text.len() + 2 - from,
{
    if from <= text.len() {
        let end = crate::libp2p::address::part_end(text, from);
        crate::libp2p::address::lemma_part_end(text, from);
        crate::libp2p::address::lemma_part_end(text, end + 1);
        lemma_part_end_behind(front, text, from);
        lemma_part_end_behind(front, text, end + 1);
        assert((front + text).subrange(front.len() + from, front.len() + end) =~= text.subrange(
            from,
            end,
        ));
        lemma_onion_behind(front, text, end + 1);
        lemma_onion_behind(front, text, crate::libp2p::address::part_end(text, end + 1) + 1);
    }
}

/// Further components mention what they mention from their first name on.
proof fn lemma_components(text: Seq<u8>)
    requires
        are_components(text),
    ensures
        crate::libp2p::address::mentions_onion(text) == crate::libp2p::address::onion_from(text, 1),
{
}

/// A component with an argument that is named `onion` is mentioned, whatever follows.
pub proof fn law_onions_are_found(text: &str, argument: Seq<u8>, r: bool)
    requires
        call_ensures(has_onion, (text,), r),
        vstd::utf8::encode_utf8(text@) == seq![0x2fu8, 0x6f, 0x6e, 0x69, 0x6f, 0x6e, 0x2f]
            + argument,
    ensures
        r,
{
    let bytes = vstd::utf8::encode_utf8(text@);
    lemma_part_end(bytes, 1, 6);
    reveal_strlit("onion");
    vstd::utf8::is_ascii_chars_encode_utf8("onion"@);
    assert(bytes.subrange(1, 6) =~= vstd::utf8::encode_utf8("onion"@));
}

/// A component that has no argument mentions no onion, and what follows it mentions what it would
/// mention alone.
pub proof fn law_components_without_argument_are_skipped(
    text: &str,
    name: Seq<u8>,
    others: &str,
    r: bool,
    of_others: bool,
)
    requires
        is_part(name),
        stands_alone(name),
        name != vstd::utf8::encode_utf8("onion"@),
        are_components(vstd::utf8::encode_utf8(others@)),
        vstd::utf8::encode_utf8(text@) == seq![0x2fu8] + name + vstd::utf8::encode_utf8(others@),
        call_ensures(has_onion, (text,), r),
        call_ensures(has_onion, (others,), of_others),
    ensures
        r == of_others,
{
    let bytes = vstd::utf8::encode_utf8(text@);
    let rest = vstd::utf8::encode_utf8(others@);
    let front = seq![0x2fu8] + name;
    assert(bytes =~= front + rest);
    assert forall|i: int| 1 <= i < front.len() implies #[trigger] bytes[i] != 0x2f by {
        assert(bytes[i] == name[i - 1]);
    }
    if rest.len() > 0 {
        assert(bytes[front.len() as int] == rest[0]);
    }
    lemma_part_end(bytes, 1, front.len() as int);
    assert(bytes.subrange(1, front.len() as int) =~= name);
    lemma_components(bytes);
    lemma_components(rest);
    lemma_onion_behind(front, rest, 1);
}

/// A component that has an argument and is not named `onion` mentions none, whatever its argument is,
/// and what follows it mentions what it would mention alone.
pub proof fn law_components_with_argument_are_skipped(
    text: &str,
    name: Seq<u8>,
    argument: Seq<u8>,
    others: &str,
    r: bool,
    of_others: bool,
)
    requires
        is_part(name),
        is_part(argument),
        !stands_alone(name),
        name != vstd::utf8::encode_utf8("onion"@),
        are_components(vstd::utf8::encode_utf8(others@)),
        vstd::utf8::encode_utf8(text@) == seq![0x2fu8] + name + seq![0x2fu8] + argument
            + vstd::utf8::encode_utf8(others@),
        call_ensures(has_onion, (text,), r),
        call_ensures(has_onion, (others,), of_others),
    ensures
        r == of_others,
{
    let bytes = vstd::utf8::encode_utf8(text@);
    let rest = vstd::utf8::encode_utf8(others@);
    let front = seq![0x2fu8] + name + seq![0x2fu8] + argument;
    let end = 1 + name.len() as int;
    assert(bytes =~= front + rest);
    assert forall|i: int| 1 <= i < end implies #[trigger] bytes[i] != 0x2f by {
        assert(bytes[i] == name[i - 1]);
    }
    assert(bytes[end] == 0x2f);
    lemma_part_end(bytes, 1, end);
    assert forall|i: int| end + 1 <= i < front.len() implies #[trigger] bytes[i] != 0x2f by {
        assert(bytes[i] == argument[i - end - 1]);
    }
    if rest.len() > 0 {
        assert(bytes[front.len() as int] == rest[0]);
    }
    lemma_part_end(bytes, end + 1, front.len() as int);
    assert(bytes.subrange(1, end) =~= name);
    lemma_components(bytes);
    lemma_components(rest);
    lemma_onion_behind(front, rest, 1);
}

/// What stands before the first slash mentions nothing.
pub proof fn law_front_is_skipped(
    text: &str,
    front: Seq<u8>,
    others: &str,
    r: bool,
    of_others: bool,
)
    requires
        is_part(front),
        are_components(vstd::utf8::encode_utf8(others@)),
        vstd::utf8::encode_utf8(text@) == front + vstd::utf8::encode_utf8(others@),
        call_ensures(has_onion, (text,), r),
        call_ensures(has_onion, (others,), of_others),
    ensures
        r == of_others,
{
    let bytes = vstd::utf8::encode_utf8(text@);
    let rest = vstd::utf8::encode_utf8(others@);
    assert forall|i: int| 0 <= i < front.len() implies #[trigger] bytes[i] != 0x2f by {
        assert(bytes[i] == front[i]);
    }
    if rest.len() > 0 {
        assert(bytes[front.len() as int] == rest[0]);
    }
    lemma_part_end(bytes, 0, front.len() as int);
    lemma_components(rest);
    lemma_onion_behind(front, rest, 1);
}

/// Only a text that holds `/onion/` mentions an onion.
pub proof fn law_only_onions_are_found(text: &str, r: bool)
    requires
        call_ensures(has_onion, (text,), r),
        r,
    ensures
        exists|i: int|
            0 <= i && i + 7 <= vstd::utf8::encode_utf8(text@).len()
                && #[trigger] vstd::utf8::encode_utf8(text@).subrange(i, i + 7) == seq![
                0x2fu8,
                0x6f,
                0x6e,
                0x69,
                0x6f,
                0x6e,
                0x2f,
            ],
{
    let bytes = vstd::utf8::encode_utf8(text@);
    let end = crate::libp2p::address::part_end(bytes, 0);
    crate::libp2p::address::lemma_part_end(bytes, 0);
    lemma_slash_at_end(bytes, 0);
    if end < bytes.len() {
        let i = lemma_onion_stands_there(bytes, end + 1);
        assert(bytes.subrange(i, i + 7) == seq![0x2fu8, 0x6f, 0x6e, 0x69, 0x6f, 0x6e, 0x2f]);
    }
}

/// A part that ends before the text does ends at a slash.
proof fn lemma_slash_at_end(text: Seq<u8>, from: int)
    requires
        0 <= from,
        crate::libp2p::address::part_end(text, from) < text.len(),
    ensures
        text[crate::libp2p::address::part_end(text, from)] == 0x2f,
    decreases text.len() - from,
{
    if from < text.len() && text[from] != 0x2f {
        lemma_slash_at_end(text, from + 1);
    }
}

/// Finds the onion that is mentioned behind a slash.
proof fn lemma_onion_stands_there(text: Seq<u8>, from: int) -> (i: int)
    requires
        1 <= from <= text.len(),
        text[from - 1] == 0x2f,
        crate::libp2p::address::onion_from(text, from),
    ensures
        0 <= i,
        i + 7 <= text.len(),
        text.subrange(i, i + 7) == seq![0x2fu8, 0x6f, 0x6e, 0x69, 0x6f, 0x6e, 0x2f],
    decreases text.len() - from,
{
    let end = crate::libp2p::address::part_end(text, from);
    crate::libp2p::address::lemma_part_end(text, from);
    crate::libp2p::address::lemma_part_end(text, end + 1);
    let name = text.subrange(from, end);
    reveal_strlit("onion");
    vstd::utf8::is_ascii_chars_encode_utf8("onion"@);
    if end < text.len() {
        lemma_slash_at_end(text, from);
    }
    if name == vstd::utf8::encode_utf8("onion"@) {
        assert(name.len() == 5);
        assert forall|k: int| 0 <= k < 5 implies #[trigger] text[from + k] == name[k] by {}
        assert(text[from] == name[0]);
        assert(text[from + 1] == name[1]);
        assert(text[from + 2] == name[2]);
        assert(text[from + 3] == name[3]);
        assert(text[from + 4] == name[4]);
        assert(text.subrange(from - 1, from + 6) =~= seq![
            0x2fu8,
            0x6f,
            0x6e,
            0x69,
            0x6f,
            0x6e,
            0x2f,
        ]);
        from - 1
    } else if crate::libp2p::address::takes_no_argument(name) {
        assert(crate::libp2p::address::onion_from(text, end + 1));
        assert(end + 1 <= text.len());
        lemma_onion_stands_there(text, end + 1)
    } else {
        let behind = crate::libp2p::address::part_end(text, end + 1);
        assert(crate::libp2p::address::onion_from(text, behind + 1));
        assert(behind + 1 <= text.len());
        lemma_slash_at_end(text, end + 1);
        lemma_onion_stands_there(text, behind + 1)
    }
}

} // verus!
