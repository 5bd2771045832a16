//! What all chat platforms share: where messages come from, how they are packed for an agent, and
//! what is shown of a message that is being answered.

use vstd::prelude::*;
use vstd::string::*;
use crate::acp::connection::ContentBlock;
use crate::acp_turn_driver::display::ToolDisplay;
use crate::acp_turn_driver::turn::{Span, TurnDeliveryContext};
use crate::text;

verus! {

/// Identifies a channel or thread across platforms.
///
/// It says where messages are sent: `channel_id` is the id that the adapter sends messages to. For
/// a Discord thread that is the thread's own channel id, and `parent_id` is the channel around it.
///
/// In [`SenderContext`], which describes the sender to the agent, `channel_id` is the channel
/// around a thread on every platform.
#[derive(Clone, Debug)]
pub struct ChannelRef {
    pub platform: String,
    pub channel_id: String,
    /// A thread within a channel. Discord threads are channels of their own, and have none.
    pub thread_id: Option<String>,
    /// The channel around a thread that is a channel of its own.
    pub parent_id: Option<String>,
    /// The event that a message came with. Two references to one channel are equal whatever event
    /// they came with.
    pub origin_event_id: Option<String>,
}

fn same_opt(a: &Option<String>, b: &Option<String>) -> (r: bool)
    ensures
        r == (text::opt_text(*a) == text::opt_text(*b)),
{
    match (a, b) {
        (Some(a), Some(b)) => text::str_eq(a.as_str(), b.as_str()),
        (None, None) => true,
        _ => false,
    }
}

impl ChannelRef {
    /// What identifies the channel.
    pub open spec fn identity(self) -> (Seq<char>, Seq<char>, Option<Seq<char>>, Option<Seq<char>>) {
        (self.platform@, self.channel_id@, text::opt_text(self.thread_id), text::opt_text(self.parent_id))
    }
}

impl PartialEq for ChannelRef {
    fn eq(&self, other: &Self) -> (r: bool) {
        text::str_eq(self.platform.as_str(), other.platform.as_str()) && text::str_eq(
            self.channel_id.as_str(),
            other.channel_id.as_str(),
        ) && same_opt(&self.thread_id, &other.thread_id) && same_opt(
            &self.parent_id,
            &other.parent_id,
        )
    }
}

impl vstd::std_specs::cmp::PartialEqSpecImpl for ChannelRef {
    open spec fn obeys_eq_spec() -> bool {
        true
    }

    open spec fn eq_spec(&self, other: &Self) -> bool {
        self.identity() == other.identity()
    }
}

impl Eq for ChannelRef {

}

/// `String::hash` of the standard library. Nothing is claimed of what it does to the hasher.
pub assume_specification<H: std::hash::Hasher>[ <String as std::hash::Hash>::hash ](
    s: &String,
    state: &mut H,
)
;

/// `Option::hash` of the standard library. Nothing is claimed of what it does to the hasher.
pub assume_specification<T: std::hash::Hash, H: std::hash::Hasher>[ <Option<
    T,
> as std::hash::Hash>::hash ](s: &Option<T>, state: &mut H)
;

impl std::hash::Hash for ChannelRef {
    fn hash<H: std::hash::Hasher>(&self, state: &mut H) {
        self.platform.hash(state);
        self.channel_id.hash(state);
        self.thread_id.hash(state);
        self.parent_id.hash(state);
    }
}

/// Identifies a message across platforms.
#[derive(Clone, Debug)]
pub struct MessageRef {
    pub channel: ChannelRef,
    pub message_id: String,
}

/// A message to be answered.
pub struct MessageContext {
    pub thread_channel: ChannelRef,
    pub sender_json: String,
    pub prompt: String,
    pub extra_blocks: Vec<ContentBlock>,
    pub trigger_msg: MessageRef,
    pub other_bot_present: bool,
}

/// Who sent a message and where, as the agent is told.
///
/// `channel_id` is the channel around a thread on every platform, and `thread_id` the thread.
#[derive(Clone, Debug)]
pub struct SenderContext {
    pub schema: String,
    pub sender_id: String,
    pub sender_name: String,
    pub display_name: String,
    pub channel: String,
    pub channel_id: String,
    /// The thread that the message is in.
    pub thread_id: Option<String>,
    pub is_bot: bool,
    /// When the message was written, in ISO 8601, if the platform says so.
    pub timestamp: Option<String>,
    /// The message itself. Agents can reply to it with a `[[reply_to:<message_id>]]` directive.
    pub message_id: Option<String>,
    /// The user id of the bot that received the message.
    pub receiver_id: Option<String>,
}

/// What a platform lets an adapter do.
pub trait ChatAdapter {
    /// The platform's name, which session keys start with.
    fn platform(&self) -> &'static str;

    /// The maximum number of characters of a message.
    fn message_limit(&self) -> usize;

    /// Whether the adapter edits a message while the answer is written. With another bot in the
    /// thread, edits would get in its way.
    fn use_streaming(&self, other_bot_present: bool) -> bool;

    /// Whether the platform has streams of its own.
    fn uses_native_streaming(&self, other_bot_present: bool) -> (r: bool)
        default_ensures
            !r,
    {
        false
    }

    /// Whether progress is shown as a status, not as a reaction.
    fn uses_assistant_status(&self) -> (r: bool)
        default_ensures
            !r,
    {
        false
    }

    /// Whether the platform shows Markdown tables itself.
    fn renders_native_tables(&self, platform: &str) -> (r: bool)
        default_ensures
            !r,
    {
        false
    }

    /// Whether a placeholder is posted before the answer is written.
    fn show_streaming_placeholder(&self) -> (r: bool)
        default_ensures
            r,
    {
        true
    }
}

/// How tables are shown on platforms that cannot show them.
#[derive(Debug, Clone, Copy, PartialEq, Eq, Structural)]
pub enum TableMode {
    /// As code blocks.
    Code,
    /// As lists.
    Bullets,
    /// As they are.
    Off,
}

/// For how long the last reaction to a message stays, in milliseconds.
#[derive(Debug, Clone, Copy, PartialEq, Eq, Structural)]
pub struct ReactionTiming {
    pub done_hold_ms: u64,
    pub error_hold_ms: u64,
}

/// How the progress of an answer is shown.
#[derive(Debug, Clone, Copy, PartialEq, Eq, Structural)]
pub struct ReactionsConfig {
    pub enabled: bool,
    pub remove_after_reply: bool,
    pub tool_display: ToolDisplay,
    pub narration_display: bool,
    pub timing: ReactionTiming,
}

/// A content block as a mathematical value.
#[verifier::ext_equal]
pub enum BlockModel {
    Text(Seq<char>),
    Image(Seq<char>, Seq<char>),
}

pub open spec fn block_model(block: ContentBlock) -> BlockModel {
    match block {
        ContentBlock::Text { text } => BlockModel::Text(text@),
        ContentBlock::Image { media_type, data } => BlockModel::Image(media_type@, data@),
    }
}

pub open spec fn block_models(blocks: Seq<ContentBlock>) -> Seq<BlockModel> {
    blocks.map_values(|b: ContentBlock| block_model(b))
}

/// The blocks that are text, or those that are not, in order.
pub open spec fn select(blocks: Seq<BlockModel>, texts: bool) -> Seq<BlockModel>
    decreases blocks.len(),
{
    if blocks.len() == 0 {
        Seq::empty()
    } else if (blocks.last() is Text) == texts {
        select(blocks.drop_last(), texts).push(blocks.last())
    } else {
        select(blocks.drop_last(), texts)
    }
}

/// The block that tells the agent who wrote a message.
pub open spec fn sender_block(sender_json: Seq<char>) -> BlockModel {
    BlockModel::Text("<sender_context>\n"@ + sender_json + "\n</sender_context>"@)
}

/// The blocks of one message: who wrote it, its transcripts, what was typed, and the rest.
pub open spec fn packed(
    sender_json: Seq<char>,
    prompt: Seq<char>,
    extra: Seq<BlockModel>,
) -> Seq<BlockModel> {
    let typed = if prompt.len() > 0 {
        seq![BlockModel::Text(prompt)]
    } else {
        Seq::empty()
    };
    seq![sender_block(sender_json)] + select(extra, true) + typed + select(extra, false)
}

fn copy_block(block: &ContentBlock) -> (r: ContentBlock)
    ensures
        r == *block,
{
    match block {
        ContentBlock::Text { text } => ContentBlock::Text { text: text.clone() },
        ContentBlock::Image { media_type, data } => ContentBlock::Image {
            media_type: media_type.clone(),
            data: data.clone(),
        },
    }
}

fn push_selected(blocks: &mut Vec<ContentBlock>, extra: &Vec<ContentBlock>, texts: bool)
    ensures
        block_models(final(blocks)@) == block_models(old(blocks)@) + select(
            block_models(extra@),
            texts,
        ),
{
    let ghost start = block_models(blocks@);
    let ghost all = block_models(extra@);
    let mut i: usize = 0;
    assert(all.take(0) =~= Seq::empty());
    assert(start + select(all.take(0), texts) =~= start);
    while i < extra.len()
        invariant
            i <= extra@.len(),
            all == block_models(extra@),
            block_models(blocks@) == start + select(all.take(i as int), texts),
        decreases extra@.len() - i,
    {
        assert(all.take(i + 1).drop_last() =~= all.take(i as int));
        assert(all.take(i + 1).last() == block_model(extra@[i as int]));
        let is_text = match &extra[i] {
            ContentBlock::Text { .. } => true,
            _ => false,
        };
        if is_text == texts {
            let ghost before = blocks@;
            blocks.push(copy_block(&extra[i]));
            assert(block_models(blocks@) =~= block_models(before).push(
                block_model(extra@[i as int]),
            ));
        }
        assert(block_models(blocks@) =~= start + select(all.take(i + 1), texts));
        i = i + 1;
    }
    assert(all.take(all.len() as int) =~= all);
}

/// The session that a channel's messages belong to.
pub open spec fn session_key(platform: Seq<char>, channel: ChannelRef) -> Seq<char> {
    platform + ":"@ + match channel.thread_id {
        Some(thread) => thread@,
        None => channel.channel_id@,
    }
}

/// How a message shows that its answer is complete.
#[derive(Debug, Clone, Copy, PartialEq, Eq, Structural)]
pub struct ReactionEnd {
    /// Whether the answer succeeded.
    pub done: bool,
    /// After how many milliseconds the reaction is removed, if it is.
    pub clear_after_ms: Option<u64>,
}

/// What messages on all platforms are answered with.
pub struct AdapterRouter {
    reactions: ReactionsConfig,
    table_mode: TableMode,
    prompt_hard_timeout_secs: u64,
    liveness_check_secs: u64,
    workspace_aliases: Vec<(String, String)>,
    bot_home: String,
}

/// The pairs of a list of texts.
pub open spec fn pair_texts(pairs: Seq<(String, String)>) -> Seq<(Seq<char>, Seq<char>)> {
    pairs.map_values(|p: (String, String)| (p.0@, p.1@))
}

impl AdapterRouter {
    pub closed spec fn reactions(self) -> ReactionsConfig {
        self.reactions
    }

    pub closed spec fn tables(self) -> TableMode {
        self.table_mode
    }

    pub closed spec fn timeout_secs(self) -> u64 {
        self.prompt_hard_timeout_secs
    }

    pub closed spec fn check_secs(self) -> u64 {
        self.liveness_check_secs
    }

    pub closed spec fn aliases(self) -> Seq<(Seq<char>, Seq<char>)> {
        pair_texts(self.workspace_aliases@)
    }

    pub closed spec fn home(self) -> Seq<char> {
        self.bot_home@
    }

    pub fn new(
        reactions_config: ReactionsConfig,
        table_mode: TableMode,
        prompt_hard_timeout_secs: u64,
        liveness_check_secs: u64,
        workspace_aliases: Vec<(String, String)>,
        bot_home: String,
    ) -> (r: Self)
        ensures
            r.reactions() == reactions_config,
            r.tables() == table_mode,
            r.timeout_secs() == prompt_hard_timeout_secs,
            r.check_secs() == liveness_check_secs,
            r.aliases() == pair_texts(workspace_aliases@),
            r.home() == bot_home@,
    {
        AdapterRouter {
            reactions: reactions_config,
            table_mode,
            prompt_hard_timeout_secs,
            liveness_check_secs,
            workspace_aliases,
            bot_home,
        }
    }

    /// Whether the agent is looked at too seldom for its time limit to hold.
    pub fn checks_too_seldom(&self) -> (r: bool)
        ensures
            r == (self.check_secs() >= self.timeout_secs()),
    {
        self.liveness_check_secs >= self.prompt_hard_timeout_secs
    }

    pub fn reactions_config(&self) -> (r: &ReactionsConfig)
        ensures
            *r == self.reactions(),
    {
        &self.reactions
    }

    /// The names of workspaces.
    pub fn workspace_aliases_map(&self) -> (r: Vec<(String, String)>)
        ensures
            pair_texts(r@) == self.aliases(),
    {
        let mut out: Vec<(String, String)> = Vec::new();
        let mut i: usize = 0;
        while i < self.workspace_aliases.len()
            invariant
                i <= self.workspace_aliases@.len(),
                out@.len() == i,
                forall|j: int|
                    0 <= j < i ==> (#[trigger] out@[j]) == self.workspace_aliases@[j],
            decreases self.workspace_aliases@.len() - i,
        {
            let pair = &self.workspace_aliases[i];
            out.push((pair.0.clone(), pair.1.clone()));
            i = i + 1;
        }
        assert(pair_texts(out@) =~= pair_texts(self.workspace_aliases@));
        out
    }

    /// The directory that workspaces must lie in.
    pub fn bot_home_path(&self) -> (r: String)
        ensures
            r@ == self.home(),
    {
        self.bot_home.clone()
    }

    /// Packs one message into content blocks. The block that says who wrote it stands alone, so
    /// that agents see where a message starts when several are packed one after the other.
    pub fn pack_arrival_event(
        sender_json: &str,
        prompt: &str,
        extra_blocks: Vec<ContentBlock>,
    ) -> (r: Vec<ContentBlock>)
        ensures
            block_models(r@) == packed(sender_json@, prompt@, block_models(extra_blocks@)),
    {
        let ghost extra = block_models(extra_blocks@);
        let header = String::from_str("<sender_context>\n").concat(sender_json).concat(
            "\n</sender_context>",
        );
        let mut blocks: Vec<ContentBlock> = Vec::new();
        blocks.push(ContentBlock::Text { text: header });
        assert(block_models(blocks@) =~= seq![sender_block(sender_json@)]);
        push_selected(&mut blocks, &extra_blocks, true);
        let ghost before = block_models(blocks@);
        if !prompt.is_empty() {
            blocks.push(ContentBlock::Text { text: prompt.to_owned() });
            assert(block_models(blocks@) =~= before.push(BlockModel::Text(prompt@)));
        }
        push_selected(&mut blocks, &extra_blocks, false);
        assert(block_models(blocks@) =~= packed(sender_json@, prompt@, extra));
        blocks
    }

    /// The session that a channel's messages belong to: that of its thread, where it has one.
    pub fn thread_key(platform: &str, channel: &ChannelRef) -> (r: String)
        ensures
            r@ == session_key(platform@, *channel),
    {
        let prefix = platform.to_owned().concat(":");
        match &channel.thread_id {
            Some(thread) => prefix.concat(thread.as_str()),
            None => prefix.concat(channel.channel_id.as_str()),
        }
    }

    /// What users are told of an error.
    pub fn error_notice(error: &str) -> (r: String)
        ensures
            r@ == "⚠️ "@ + error@,
    {
        String::from_str("⚠️ ").concat(error)
    }

    /// How a message shows that its answer is complete. A status that is shown instead has no
    /// such end.
    pub fn reaction_end(&self, assistant_status: bool, ok: bool) -> (r: Option<ReactionEnd>)
        ensures
            r == if assistant_status {
                None
            } else {
                Some(
                    ReactionEnd {
                        done: ok,
                        clear_after_ms: if !self.reactions().remove_after_reply {
                            None
                        } else if ok {
                            Some(self.reactions().timing.done_hold_ms)
                        } else {
                            Some(self.reactions().timing.error_hold_ms)
                        },
                    },
                )
            },
    {
        if assistant_status {
            return None;
        }
        let hold_ms = if ok {
            self.reactions.timing.done_hold_ms
        } else {
            self.reactions.timing.error_hold_ms
        };
        let clear_after_ms = if self.reactions.remove_after_reply {
            Some(hold_ms)
        } else {
            None
        };
        Some(ReactionEnd { done: ok, clear_after_ms })
    }

    /// How tables are converted for a platform.
    pub fn effective_table_mode(&self, renders_native_tables: bool) -> (r: TableMode)
        ensures
            r == if renders_native_tables {
                TableMode::Off
            } else {
                self.tables()
            },
    {
        if renders_native_tables {
            TableMode::Off
        } else {
            self.table_mode
        }
    }

    /// What is fixed of a turn before it starts.
    pub fn delivery_context(
        &self,
        reset: bool,
        streaming: bool,
        native: bool,
        assistant_status: bool,
    ) -> (r: TurnDeliveryContext)
        ensures
            r == (TurnDeliveryContext {
                reset,
                streaming,
                native,
                assistant_status,
                narration_display: self.reactions().narration_display,
                tool_display: self.reactions().tool_display,
                prompt_hard_timeout: Span { secs: self.timeout_secs(), nanos: 0 },
                liveness_check_interval: Span { secs: self.check_secs(), nanos: 0 },
            }),
    {
        TurnDeliveryContext {
            reset,
            streaming,
            native,
            assistant_status,
            narration_display: self.reactions.narration_display,
            tool_display: self.reactions.tool_display,
            prompt_hard_timeout: Span { secs: self.prompt_hard_timeout_secs, nanos: 0 },
            liveness_check_interval: Span { secs: self.liveness_check_secs, nanos: 0 },
        }
    }
}

proof fn lemma_selection_is_complete(blocks: Seq<BlockModel>)
    ensures
        select(blocks, true).len() + select(blocks, false).len() == blocks.len(),
        blocks.to_multiset() =~= select(blocks, true).to_multiset().add(
            select(blocks, false).to_multiset(),
        ),
    decreases blocks.len(),
{
    broadcast use vstd::seq_lib::group_to_multiset_ensures;

    if blocks.len() > 0 {
        lemma_selection_is_complete(blocks.drop_last());
        assert(blocks =~= blocks.drop_last().push(blocks.last()));
    }
}

/// Packing loses nothing: besides the block about the sender and the typed text, exactly the given
/// blocks are handed on.
pub proof fn lemma_packing_loses_nothing(
    sender_json: Seq<char>,
    prompt: Seq<char>,
    extra: Seq<BlockModel>,
)
    ensures
        packed(sender_json, prompt, extra)[0] == sender_block(sender_json),
        packed(sender_json, prompt, extra).len() == extra.len() + if prompt.len() > 0 {
            2int
        } else {
            1int
        },
        extra.to_multiset() =~= select(extra, true).to_multiset().add(
            select(extra, false).to_multiset(),
        ),
{
    lemma_selection_is_complete(extra);
}

/// Where a message came with another event, its channel is still the same.
pub proof fn lemma_event_does_not_identify(channel: ChannelRef, event: Option<String>)
    ensures
        (ChannelRef { origin_event_id: event, ..channel }).identity() == channel.identity(),
{
}

} // verus!
