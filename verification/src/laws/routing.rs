//! Chat messages: the session that a message belongs to, and what the agent is given of it.

use vstd::prelude::*;
use vstd::string::*;
use crate::adapter;
use crate::adapter::{BlockModel, ChannelRef};
use crate::text;

verus! {

/// A session is a thread where there is one, and a channel otherwise: its key is the platform, a
/// colon and the id of that. Nothing else of a channel counts.
pub proof fn lemma_sessions_are_threads_or_channels(platform: Seq<char>, channel: ChannelRef)
    ensures
        channel.thread_id is Some ==> adapter::session_key(platform, channel) == platform + ":"@
            + channel.thread_id->0@,
        channel.thread_id is None ==> adapter::session_key(platform, channel) == platform + ":"@
            + channel.channel_id@,
{
}

/// Different threads have different sessions, and so have different channels without a thread,
/// whatever their parents are. Channels that agree in thread and channel id share a session.
pub proof fn lemma_sessions_are_told_apart(platform: Seq<char>, one: ChannelRef, other: ChannelRef)
    ensures
        one.thread_id is None && other.thread_id is None && one.channel_id@ != other.channel_id@
            ==> adapter::session_key(platform, one) != adapter::session_key(platform, other),
        one.thread_id is Some && other.thread_id is Some && one.thread_id->0@
            != other.thread_id->0@ ==> adapter::session_key(platform, one) != adapter::session_key(
            platform,
            other,
        ),
        one.thread_id is None && other.thread_id is None && one.channel_id@ == other.channel_id@
            ==> adapter::session_key(platform, one) == adapter::session_key(platform, other),
        one.thread_id is Some && other.thread_id is Some && one.thread_id->0@
            == other.thread_id->0@ ==> adapter::session_key(platform, one) == adapter::session_key(
            platform,
            other,
        ),
        one.thread_id is Some && other.thread_id is None && one.thread_id->0@
            == other.channel_id@ ==> adapter::session_key(platform, one) == adapter::session_key(
            platform,
            other,
        ),
{
    let head = platform + ":"@;
    let a = adapter::session_key(platform, one);
    let b = adapter::session_key(platform, other);
    if one.thread_id is None && other.thread_id is None {
        assert(a.skip(head.len() as int) =~= one.channel_id@);
        assert(b.skip(head.len() as int) =~= other.channel_id@);
    }
    if one.thread_id is Some && other.thread_id is Some {
        assert(a.skip(head.len() as int) =~= one.thread_id->0@);
        assert(b.skip(head.len() as int) =~= other.thread_id->0@);
    }
}

/// What identifies a channel is its platform, its id, its thread and its parent.
pub proof fn lemma_channels_are_told_apart(one: ChannelRef, other: ChannelRef)
    ensures
        one.identity() == other.identity() <==> {
            &&& one.platform@ == other.platform@
            &&& one.channel_id@ == other.channel_id@
            &&& one.thread_id is Some <==> other.thread_id is Some
            &&& one.thread_id is Some ==> one.thread_id->0@ == other.thread_id->0@
            &&& one.parent_id is Some <==> other.parent_id is Some
            &&& one.parent_id is Some ==> one.parent_id->0@ == other.parent_id->0@
        },
{
}

/// A packed message starts with its sender. Then come its text blocks in their order, then what
/// was typed, if anything was, and then its other blocks in their order.
pub proof fn lemma_messages_are_packed(
    sender: Seq<char>,
    prompt: Seq<char>,
    texts: Seq<BlockModel>,
    others: Seq<BlockModel>,
    extra: Seq<BlockModel>,
)
    requires
        forall|i: int| 0 <= i < texts.len() ==> (#[trigger] texts[i]) is Text,
        forall|i: int| 0 <= i < others.len() ==> !((#[trigger] others[i]) is Text),
        extra == texts + others || extra == others + texts,
    ensures
        prompt.len() > 0 ==> adapter::packed(sender, prompt, extra) == seq![
            BlockModel::Text("<sender_context>\n"@ + sender + "\n</sender_context>"@),
        ] + texts + seq![BlockModel::Text(prompt)] + others,
        prompt.len() == 0 ==> adapter::packed(sender, prompt, extra) == seq![
            BlockModel::Text("<sender_context>\n"@ + sender + "\n</sender_context>"@),
        ] + texts + others,
{
    lemma_selected(texts, others, true);
    lemma_selected(others, texts, false);
    lemma_selected(texts, others, false);
    lemma_selected(others, texts, true);
    assert(texts + Seq::empty() =~= texts);
    assert(Seq::empty() + texts =~= texts);
    assert(others + Seq::empty() =~= others);
    assert(Seq::empty() + others =~= others);
    let head = seq![BlockModel::Text("<sender_context>\n"@ + sender + "\n</sender_context>"@)];
    if prompt.len() == 0 {
        assert(head + texts + Seq::empty() + others =~= head + texts + others);
    }
}

proof fn lemma_selected(one: Seq<BlockModel>, other: Seq<BlockModel>, wanted: bool)
    requires
        (forall|i: int| 0 <= i < one.len() ==> (#[trigger] one[i]) is Text) || (forall|i: int|
            0 <= i < one.len() ==> !((#[trigger] one[i]) is Text)),
        (forall|i: int| 0 <= i < other.len() ==> (#[trigger] other[i]) is Text) || (forall|i: int|
            0 <= i < other.len() ==> !((#[trigger] other[i]) is Text)),
    ensures
        adapter::select(one + other, wanted) == (if one.len() > 0 && (one[0] is Text) == wanted {
            one
        } else {
            Seq::empty()
        }) + (if other.len() > 0 && (other[0] is Text) == wanted {
            other
        } else {
            Seq::empty()
        }),
    decreases one.len() + other.len(),
{
    let all = one + other;
    if other.len() > 0 {
        let front = other.drop_last();
        assert(all.drop_last() =~= one + front);
        assert(all.last() == other[other.len() - 1]);
        assert forall|i: int| 0 <= i < front.len() implies front[i] == other[i] by {}
        lemma_selected(one, front, wanted);
        assert(other =~= front.push(other[other.len() - 1]));
        assert(other[0] is Text == other[other.len() - 1] is Text);
    } else if one.len() > 0 {
        let front = one.drop_last();
        assert(all =~= one);
        assert(front + other =~= front);
        assert(all.drop_last() =~= front);
        lemma_selected(front, other, wanted);
        assert(one =~= front.push(one[one.len() - 1]));
        assert(one[0] is Text == one[one.len() - 1] is Text);
    }
    assert(adapter::select(all, wanted) =~= (if one.len() > 0 && (one[0] is Text) == wanted {
        one
    } else {
        Seq::empty()
    }) + (if other.len() > 0 && (other[0] is Text) == wanted {
        other
    } else {
        Seq::empty()
    }));
}

/// The order of the blocks is kept also where text and other blocks alternate: another block at
/// the end of a message is the last of its sort.
pub proof fn lemma_blocks_keep_their_order(
    extra: Seq<BlockModel>,
    block: BlockModel,
    wanted: bool,
)
    ensures
        adapter::select(extra.push(block), wanted) == if (block is Text) == wanted {
            adapter::select(extra, wanted).push(block)
        } else {
            adapter::select(extra, wanted)
        },
{
    assert(extra.push(block).drop_last() =~= extra);
}

} // verus!
