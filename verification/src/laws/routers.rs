//! What callers get of the router of chat messages.

use vstd::prelude::*;
use vstd::string::*;
use crate::acp::connection::ContentBlock;
use crate::adapter;
use crate::adapter::{AdapterRouter, ChannelRef, ReactionEnd, ReactionsConfig, TableMode};
use crate::acp_turn_driver::turn::TurnDeliveryContext;
use crate::laws::routing;

verus! {

/// The key of a session is made of the platform and the thread, and of the channel only where there
/// is no thread. The parent of a channel never counts.
pub proof fn lemma_keys_are_made_of_threads(
    platform: &str,
    channel: &ChannelRef,
    moved: &ChannelRef,
    r: String,
    s: String,
)
    requires
        call_ensures(AdapterRouter::thread_key, (platform, channel), r),
        call_ensures(AdapterRouter::thread_key, (platform, moved), s),
        moved.channel_id@ == channel.channel_id@,
        moved.thread_id is Some <==> channel.thread_id is Some,
        moved.thread_id is Some ==> moved.thread_id->0@ == channel.thread_id->0@,
    ensures
        channel.thread_id is Some ==> r@ == platform@ + ":"@ + channel.thread_id->0@,
        channel.thread_id is None ==> r@ == platform@ + ":"@ + channel.channel_id@,
        r@ == s@,
{
    routing::lemma_sessions_are_threads_or_channels(platform@, *channel);
    routing::lemma_sessions_are_threads_or_channels(platform@, *moved);
}

/// Two channels without threads never share a session, whatever their parents are; nor do two
/// threads.
pub proof fn lemma_keys_tell_channels_apart(
    platform: &str,
    one: &ChannelRef,
    other: &ChannelRef,
    r: String,
    s: String,
)
    requires
        call_ensures(AdapterRouter::thread_key, (platform, one), r),
        call_ensures(AdapterRouter::thread_key, (platform, other), s),
    ensures
        one.thread_id is None && other.thread_id is None ==> (r@ == s@ <==> one.channel_id@
            == other.channel_id@),
        one.thread_id is Some && other.thread_id is Some ==> (r@ == s@ <==> one.thread_id->0@
            == other.thread_id->0@),
{
    routing::lemma_sessions_are_told_apart(platform@, *one, *other);
}

/// A message is handed to the agent as who wrote it, then what was said in it, then what was typed,
/// and then what else came with it; each text and each image as it is.
pub proof fn lemma_messages_are_handed_over(
    sender: &str,
    prompt: &str,
    texts: Seq<ContentBlock>,
    images: Seq<ContentBlock>,
    extra: Vec<ContentBlock>,
    r: Vec<ContentBlock>,
)
    requires
        call_ensures(AdapterRouter::pack_arrival_event, (sender, prompt, extra), r),
        extra@ == texts + images,
        forall|i: int| 0 <= i < texts.len() ==> #[trigger] texts[i] is Text,
        forall|i: int| 0 <= i < images.len() ==> #[trigger] images[i] is Image,
    ensures
        ({
            let typed: int = if prompt@.len() > 0 {
                1
            } else {
                0
            };
            &&& r@.len() == 1 + texts.len() + typed + images.len()
            &&& r@[0] is Text
            &&& r@[0]->text@ == "<sender_context>\n"@ + sender@ + "\n</sender_context>"@
            &&& forall|i: int|
                0 <= i < texts.len() ==> r@[1 + i] is Text && r@[1 + i]->text@ == (
                #[trigger] texts[i])->text@
            &&& prompt@.len() > 0 ==> r@[texts.len() + typed] is Text && r@[texts.len()
                + typed]->text@ == prompt@
            &&& forall|i: int|
                0 <= i < images.len() ==> r@[1 + texts.len() + typed + i] is Image && r@[1
                    + texts.len() + typed + i]->data@ == (#[trigger] images[i])->data@ && r@[1
                    + texts.len() + typed + i]->media_type@ == images[i]->media_type@
        }),
{
    let models = adapter::block_models(extra@);
    let a = adapter::block_models(texts);
    let b = adapter::block_models(images);
    assert(models =~= a + b);
    assert forall|i: int| 0 <= i < a.len() implies #[trigger] a[i] is Text by {
        assert(texts[i] is Text);
    }
    assert forall|i: int| 0 <= i < b.len() implies !(#[trigger] b[i] is Text) by {
        assert(images[i] is Image);
    }
    lemma_selection(a, b);
    let out = adapter::block_models(r@);
    assert(out.len() == r@.len());
    let typed: int = if prompt@.len() > 0 {
        1
    } else {
        0
    };
    assert(out[0] == adapter::sender_block(sender@));
    assert(out[0] == adapter::block_model(r@[0]));
    assert forall|i: int| 0 <= i < texts.len() implies r@[1 + i] is Text && r@[1 + i]->text@ == (
    #[trigger] texts[i])->text@ by {
        assert(out[1 + i] == a[i]);
        assert(out[1 + i] == adapter::block_model(r@[1 + i]));
    }
    if prompt@.len() > 0 {
        let at = 1 + texts.len() as int;
        assert(out[at] == adapter::BlockModel::Text(prompt@));
        assert(out[at] == adapter::block_model(r@[at]));
    }
    assert forall|i: int| 0 <= i < images.len() implies r@[1 + texts.len() + typed + i] is Image
        && r@[1 + texts.len() + typed + i]->data@ == (#[trigger] images[i])->data@ && r@[1
        + texts.len() + typed + i]->media_type@ == images[i]->media_type@ by {
        let at = 1 + texts.len() + typed + i;
        assert(out[at] == b[i]);
        assert(out[at] == adapter::block_model(r@[at]));
    }
}

proof fn lemma_selection(a: Seq<adapter::BlockModel>, b: Seq<adapter::BlockModel>)
    requires
        forall|i: int| 0 <= i < a.len() ==> #[trigger] a[i] is Text,
        forall|i: int| 0 <= i < b.len() ==> !(#[trigger] b[i] is Text),
    ensures
        adapter::select(a + b, true) == a,
        adapter::select(a + b, false) == b,
    decreases a.len() + b.len(),
{
    let all = a + b;
    if b.len() > 0 {
        assert(all.drop_last() =~= a + b.drop_last());
        assert(!(b[b.len() - 1] is Text));
        assert forall|i: int| 0 <= i < b.drop_last().len() implies !(
        #[trigger] b.drop_last()[i] is Text) by {
            assert(!(b[i] is Text));
        }
        lemma_selection(a, b.drop_last());
        assert(b.drop_last().push(b.last()) =~= b);
    } else if a.len() > 0 {
        assert(all =~= a);
        assert(a[a.len() - 1] is Text);
        assert(a.drop_last() + b =~= a.drop_last());
        assert forall|i: int| 0 <= i < a.drop_last().len() implies #[trigger] a.drop_last()[i]
            is Text by {
            assert(a[i] is Text);
        }
        lemma_selection(a.drop_last(), b);
        assert(a.drop_last().push(a.last()) =~= a);
        assert(b =~= Seq::empty());
    } else {
        assert(all =~= Seq::empty());
        assert(a =~= Seq::empty());
        assert(b =~= Seq::empty());
    }
}

/// Users are told of an error with a warning sign.
pub proof fn lemma_errors_are_marked(error: &str, r: String)
    requires
        call_ensures(AdapterRouter::error_notice, (error,), r),
    ensures
        r@ == "⚠️ "@ + error@,
{
}

/// A message shows whether its answer succeeded, unless a status is shown instead. The sign is
/// taken away, where that is configured, after the time for a success or that for a failure.
pub proof fn lemma_answers_are_marked(
    router: &AdapterRouter,
    status: bool,
    ok: bool,
    r: Option<ReactionEnd>,
)
    requires
        call_ensures(AdapterRouter::reaction_end, (router, status, ok), r),
    ensures
        r is None <==> status,
        r is Some ==> r->0.done == ok,
        r is Some && !router.reactions().remove_after_reply ==> r->0.clear_after_ms is None,
        r is Some && router.reactions().remove_after_reply && ok ==> r->0.clear_after_ms == Some(
            router.reactions().timing.done_hold_ms,
        ),
        r is Some && router.reactions().remove_after_reply && !ok ==> r->0.clear_after_ms == Some(
            router.reactions().timing.error_hold_ms,
        ),
{
}

/// Tables are left alone where the platform renders them itself.
pub proof fn lemma_native_tables_are_left_alone(router: &AdapterRouter, native: bool, r: TableMode)
    requires
        call_ensures(AdapterRouter::effective_table_mode, (router, native), r),
    ensures
        native ==> r is Off,
        !native ==> r == router.tables(),
{
}

/// A turn is delivered with the router's times and displays, and in the way it is told.
pub proof fn lemma_turns_are_delivered_as_configured(
    router: &AdapterRouter,
    reset: bool,
    streaming: bool,
    native: bool,
    status: bool,
    r: TurnDeliveryContext,
)
    requires
        call_ensures(
            AdapterRouter::delivery_context,
            (router, reset, streaming, native, status),
            r,
        ),
    ensures
        r.reset == reset,
        r.streaming == streaming,
        r.native == native,
        r.assistant_status == status,
        r.prompt_hard_timeout.secs == router.timeout_secs(),
        r.prompt_hard_timeout.nanos == 0,
        r.liveness_check_interval.secs == router.check_secs(),
        r.liveness_check_interval.nanos == 0,
        r.tool_display == router.reactions().tool_display,
        r.narration_display == router.reactions().narration_display,
{
}

/// An agent is looked after too seldom when that happens only as often as a turn may last.
pub proof fn lemma_agents_are_looked_after(router: &AdapterRouter, r: bool)
    requires
        call_ensures(AdapterRouter::checks_too_seldom, (router,), r),
    ensures
        r <==> router.timeout_secs() <= router.check_secs(),
{
}

/// Two references are to one channel when they have the platform, the channel, the thread and the
/// parent in common. The event that each came with never counts.
pub proof fn lemma_references_to_one_channel_are_equal(
    one: &ChannelRef,
    other: &ChannelRef,
    r: bool,
)
    requires
        call_ensures(ChannelRef::eq, (one, other), r),
    ensures
        r <==> {
            &&& one.platform@ == other.platform@
            &&& one.channel_id@ == other.channel_id@
            &&& one.thread_id is Some <==> other.thread_id is Some
            &&& one.thread_id is Some ==> one.thread_id->0@ == other.thread_id->0@
            &&& one.parent_id is Some <==> other.parent_id is Some
            &&& one.parent_id is Some ==> one.parent_id->0@ == other.parent_id->0@
        },
{
    routing::lemma_channels_are_told_apart(*one, *other);
}

/// A router gives back what it was made with: the names of workspaces in their order, the
/// directory that they lie in, and how answers are marked.
pub proof fn lemma_routers_keep_their_settings(
    reactions: ReactionsConfig,
    tables: TableMode,
    timeout: u64,
    check: u64,
    aliases: Vec<(String, String)>,
    home: String,
    router: AdapterRouter,
    marks: &ReactionsConfig,
    listed: Vec<(String, String)>,
    path: String,
    i: int,
)
    requires
        call_ensures(
            AdapterRouter::new,
            (reactions, tables, timeout, check, aliases, home),
            router,
        ),
        call_ensures(AdapterRouter::reactions_config, (&router,), marks),
        call_ensures(AdapterRouter::workspace_aliases_map, (&router,), listed),
        call_ensures(AdapterRouter::bot_home_path, (&router,), path),
    ensures
        *marks == reactions,
        path@ == home@,
        listed@.len() == aliases@.len(),
        0 <= i < aliases@.len() ==> listed@[i].0@ == aliases@[i].0@ && listed@[i].1@
            == aliases@[i].1@,
        router.tables() == tables,
        router.timeout_secs() == timeout,
        router.check_secs() == check,
{
    let given = adapter::pair_texts(aliases@);
    let told = adapter::pair_texts(listed@);
    assert(given.len() == aliases@.len() && told.len() == listed@.len());
    if 0 <= i < aliases@.len() {
        assert(given[i] == (aliases@[i].0@, aliases@[i].1@));
        assert(told[i] == (listed@[i].0@, listed@[i].1@));
    }
}

} // verus!
