//! What callers get of the intent broker: who is asked, who may answer and what is done then.

use vstd::prelude::*;
use vstd::string::*;
use crate::discord_voice_intent;
use crate::discord_voice_intent::language;
use crate::discord_voice_intent::language::Confirmation;
use crate::discord_voice_intent::messages;
use crate::discord_voice_intent::targets;
use crate::discord_voice_intent::targets::{IntentProposal, IntentTarget};
use crate::discord_voice_intent::{
    Delivery, DeliveryRetry, DiscordVoiceIntentBroker, DiscordVoiceIntentConfig,
    FinalTranscriptEvent, LocalIntentExecution, OutgoingMessage, PendingMessage, PendingPhase,
    Sessions, StalePrompt, TextEffect, VoiceIntentTextOutcome, VoiceIntentTranscriptOutcome,
};
use crate::discord_voice_runtime::VoiceSessionToken;
use crate::laws::broker;
use crate::laws::broker::awaits;
use crate::text;

verus! {

/// Whether nothing happened to any session but that of one guild.
pub open spec fn only_at(before: Sessions, after: Sessions, guild: u64) -> bool {
    forall|g: u64|
        g != guild ==> (#[trigger] after.contains_key(g) <==> before.contains_key(g)) && (
        before.contains_key(g) ==> after[g] == before[g])
}

/// Whether an intent is the pending one of the session of a token, in a phase.
pub open spec fn pends(
    sessions: Sessions,
    token: VoiceSessionToken,
    id: u128,
    revision: u64,
    phase: PendingPhase,
) -> bool {
    &&& sessions.contains_key(token.guild())
    &&& sessions[token.guild()].token == token
    &&& sessions[token.guild()].pending is Some
    &&& sessions[token.guild()].pending->0.id == id
    &&& sessions[token.guild()].pending->0.revision == revision
    &&& sessions[token.guild()].pending->0.phase == phase
}

/// Work that waits is dropped by a no, and handed on by a yes: to the one it is for, or to the
/// voice agent itself. The answer is what the text means.
pub proof fn lemma_answers_decide(
    b: &mut DiscordVoiceIntentBroker,
    guild: u64,
    channel: u64,
    user: u64,
    content: &str,
    fresh: u128,
    r: TextEffect,
    answer: Confirmation,
)
    requires
        old(b).wf(),
        awaits(old(b).settings(), old(b)@, guild, channel, user),
        call_ensures(
            DiscordVoiceIntentBroker::answer_text_message,
            (b, guild, channel, user, content, fresh),
            r,
        ),
        call_ensures(language::classify_confirmation, (content,), answer),
    ensures
        answer is Negative ==> {
            &&& final(b)@[guild].pending is None
            &&& r is Cancel
            &&& r->Cancel_0.channel_id == channel
            &&& r->Cancel_0.content@ == "<@"@ + text::decimal(user as nat) + ">"@
                + " 已取消這次語音任務。"@
        },
        answer is Affirmative ==> {
            let work = old(b)@[guild].pending->0;
            &&& final(b)@[guild].pending is Some
            &&& final(b)@[guild].pending->0.id == work.id
            &&& final(b)@[guild].pending->0.phase is Dispatching
            &&& final(b)@[guild].pending->0.proposal == work.proposal
            &&& work.proposal.destination is Local ==> r is ExecuteLocal
                && r->ExecuteLocal_0.task@ == work.proposal.task && r->ExecuteLocal_0.intent_id
                == work.id && r->ExecuteLocal_0.operator_user_id == user
            &&& work.proposal.destination is Delegate ==> r is Dispatch
                && r->Dispatch_0.outgoing.channel_id == channel
        },
        answer is Unrelated ==> r is NotApplicable && final(b)@ == old(b)@,
        r is Dispatch || r is ExecuteLocal ==> answer is Affirmative,
        r is Cancel ==> answer is Negative,
        only_at(old(b)@, final(b)@, guild),
{
    let s = old(b).settings();
    if answer is Negative {
        broker::lemma_no_cancels(s, old(b)@, guild, channel, user, content@, fresh, r);
    }
    if answer is Affirmative {
        broker::lemma_yes_dispatches(s, old(b)@, guild, channel, user, content@, fresh, r);
    }
}

/// Nobody but the operator decides, nor does anything that is said elsewhere, and nothing is
/// decided twice.
pub proof fn lemma_others_do_not_decide(
    b: &mut DiscordVoiceIntentBroker,
    guild: u64,
    channel: u64,
    user: u64,
    content: &str,
    fresh: u128,
    r: TextEffect,
)
    requires
        old(b).wf(),
        !awaits(old(b).settings(), old(b)@, guild, channel, user),
        call_ensures(
            DiscordVoiceIntentBroker::answer_text_message,
            (b, guild, channel, user, content, fresh),
            r,
        ),
    ensures
        final(b)@ == old(b)@,
        r is NotApplicable || r is AlreadyProcessing,
        r is AlreadyProcessing ==> old(b).settings().enabled && old(b)@.contains_key(guild)
            && old(b)@[guild].channel == channel && old(b)@[guild].operator == user
            && old(b)@[guild].pending is Some,
{
}

/// What the operator says becomes work once, where it is a command and no other work is pending,
/// and the operator is asked about it.
pub proof fn lemma_commands_are_asked_about(
    b: &mut DiscordVoiceIntentBroker,
    event: &FinalTranscriptEvent,
    fresh: u128,
    r: (VoiceIntentTranscriptOutcome, Option<Delivery>),
    again: &mut DiscordVoiceIntentBroker,
    other: u128,
    second: (VoiceIntentTranscriptOutcome, Option<Delivery>),
)
    requires
        old(b).wf(),
        call_ensures(DiscordVoiceIntentBroker::propose_transcript, (b, event, fresh), r),
        *old(again) == *final(b),
        call_ensures(DiscordVoiceIntentBroker::propose_transcript, (again, event, other), second),
    ensures
        ({
            let guild = event.token.guild();
            let before = old(b)@[guild];
            let after = final(b)@[guild];
            &&& r.0 is Proposed <==> r.1 is Some
            &&& !(r.0 is Ignored) ==> {
                &&& old(b).settings().enabled
                &&& old(b)@.contains_key(guild)
                &&& before.token == event.token
                &&& before.channel == event.control_channel_id
                &&& before.operator == event.key.speaker_id
                &&& !before.keys.contains(event.key)
                &&& second.0 is Ignored
                &&& final(again)@ == final(b)@
            }
            &&& r.0 is Ignored ==> final(b)@ == old(b)@
            &&& r.0 is AwaitingConfirmation ==> before.pending is Some && after.pending
                == before.pending
            &&& r.0 is Proposed ==> {
                &&& before.pending is None
                &&& after.pending is Some
                &&& after.pending->0.id == fresh
                &&& after.pending->0.phase is PostingConfirmation
                &&& r.1->0.outgoing.channel_id == before.channel
                &&& r.1->0.message.intent.id == fresh
            }
            &&& only_at(old(b)@, final(b)@, guild)
        }),
{
    broker::lemma_transcripts_become_work(old(b).settings(), old(b)@, *event, fresh);
    let guild = event.token.guild();
    if !(r.0 is Ignored) {
        let keys = old(b)@[guild].keys;
        let now = final(b)@[guild].keys;
        assert(now.last() == event.key);
        assert(now[now.len() - 1] == event.key);
        assert(now.contains(event.key));
        broker::lemma_transcripts_become_work(old(again).settings(), old(again)@, *event, other);
    }
}

/// A session listens for the intents of one operator in one channel; binding it anew forgets what
/// was pending, and the prompt of that is to be deleted.
pub proof fn lemma_operators_are_bound(
    b: &mut DiscordVoiceIntentBroker,
    token: VoiceSessionToken,
    channel: u64,
    operator: u64,
    name: &str,
    r: (bool, Option<StalePrompt>),
)
    requires
        old(b).wf(),
        call_ensures(
            DiscordVoiceIntentBroker::bind_session,
            (b, token, channel, operator, name),
            r,
        ),
    ensures
        r.0 <==> old(b).settings().enabled,
        r.0 ==> {
            let bound = final(b)@[token.guild()];
            &&& final(b)@.contains_key(token.guild())
            &&& bound.token == token
            &&& bound.channel == channel
            &&& bound.operator == operator
            &&& bound.pending is None
            &&& bound.keys.len() == 0
        },
        !r.0 ==> final(b)@ == old(b)@ && r.1 is None,
        r.1 is Some ==> {
            let before = old(b)@[token.guild()];
            &&& old(b)@.contains_key(token.guild())
            &&& before.pending is Some
            &&& !(before.pending->0.phase is Dispatching)
            &&& before.pending->0.message_id == Some(r.1->0.message_id@)
            &&& r.1->0.channel_id == before.channel
        },
        only_at(old(b)@, final(b)@, token.guild()),
{
}

/// A session is given up by its own token; its prompt is deleted unless it was confirmed.
pub proof fn lemma_sessions_are_given_up(
    b: &mut DiscordVoiceIntentBroker,
    token: VoiceSessionToken,
    r: (bool, Option<StalePrompt>),
)
    requires
        old(b).wf(),
        call_ensures(DiscordVoiceIntentBroker::abandon_session, (b, token), r),
    ensures
        r.0 <==> old(b).settings().enabled && old(b)@.contains_key(token.guild())
            && old(b)@[token.guild()].token == token,
        r.0 ==> !final(b)@.contains_key(token.guild()),
        !r.0 ==> final(b)@ == old(b)@ && r.1 is None,
        r.0 && old(b)@[token.guild()].pending is Some ==> {
            let work = old(b)@[token.guild()].pending->0;
            &&& r.1 is Some <==> !(work.phase is Dispatching) && work.message_id is Some
            &&& r.1 is Some ==> r.1->0.message_id@ == work.message_id->0
        },
        only_at(old(b)@, final(b)@, token.guild()),
{
}

/// Work waits once its prompt was posted, in a period of its own.
pub proof fn lemma_posted_prompts_wait(
    b: &mut DiscordVoiceIntentBroker,
    m: &PendingMessage,
    message_id: String,
    r: Option<u64>,
)
    requires
        old(b).wf(),
        call_ensures(
            DiscordVoiceIntentBroker::enter_waiting_after_confirmation_post,
            (b, m, message_id),
            r,
        ),
    ensures
        r is Some <==> pends(
            old(b)@,
            m.token,
            m.intent.id,
            m.intent.revision,
            PendingPhase::PostingConfirmation,
        ),
        r is Some ==> {
            let work = final(b)@[m.token.guild()].pending;
            &&& pends(
                final(b)@,
                m.token,
                m.intent.id,
                m.intent.revision,
                PendingPhase::WaitingConfirmation,
            )
            &&& work->0.waiting_epoch == r->0
            &&& work->0.message_id == Some(message_id@)
            &&& work->0.proposal == old(b)@[m.token.guild()].pending->0.proposal
            &&& r->0 < u64::MAX ==> final(b)@[m.token.guild()].next_epoch == r->0 + 1
        },
        r is None ==> final(b)@ == old(b)@,
        only_at(old(b)@, final(b)@, m.token.guild()),
{
}

/// Work that was being handed on and could not be waits again, in a new period.
pub proof fn lemma_failed_work_waits_again(
    b: &mut DiscordVoiceIntentBroker,
    m: &PendingMessage,
    r: Option<u64>,
    c: &mut DiscordVoiceIntentBroker,
    request: &LocalIntentExecution,
    s: Option<u64>,
)
    requires
        old(b).wf(),
        old(c).wf(),
        call_ensures(DiscordVoiceIntentBroker::restore_waiting_if_current, (b, m), r),
        call_ensures(DiscordVoiceIntentBroker::reopen_local_execution, (c, request), s),
    ensures
        r is Some <==> pends(
            old(b)@,
            m.token,
            m.intent.id,
            m.intent.revision,
            PendingPhase::Dispatching,
        ),
        r is Some ==> pends(
            final(b)@,
            m.token,
            m.intent.id,
            m.intent.revision,
            PendingPhase::WaitingConfirmation,
        ) && final(b)@[m.token.guild()].pending->0.waiting_epoch == r->0,
        r is None ==> final(b)@ == old(b)@,
        s is Some <==> pends(
            old(c)@,
            request.session,
            request.intent_id,
            request.revision,
            PendingPhase::Dispatching,
        ) && old(c)@[request.session.guild()].pending->0.proposal.destination is Local,
        s is Some ==> pends(
            final(c)@,
            request.session,
            request.intent_id,
            request.revision,
            PendingPhase::WaitingConfirmation,
        ) && final(c)@[request.session.guild()].pending->0.waiting_epoch == s->0,
        s is None ==> final(c)@ == old(c)@,
        only_at(old(b)@, final(b)@, m.token.guild()),
        only_at(old(c)@, final(c)@, request.session.guild()),
{
}

/// Work expires only in the period it waits in, and the operator is told that nothing was done.
pub proof fn lemma_work_expires(
    b: &mut DiscordVoiceIntentBroker,
    token: VoiceSessionToken,
    id: u128,
    revision: u64,
    epoch: u64,
    r: Option<OutgoingMessage>,
)
    requires
        old(b).wf(),
        call_ensures(
            DiscordVoiceIntentBroker::expire_pending,
            (b, token, id, revision, epoch),
            r,
        ),
    ensures
        r is Some <==> pends(old(b)@, token, id, revision, PendingPhase::WaitingConfirmation)
            && old(b)@[token.guild()].pending->0.waiting_epoch == epoch,
        r is Some ==> {
            &&& final(b)@[token.guild()].pending is None
            &&& r->0.channel_id == old(b)@[token.guild()].channel
            &&& r->0.content@ == messages::shortened(
                "<@"@ + text::decimal(old(b)@[token.guild()].operator as nat) + ">"@
                    + " 語音任務確認已逾時，未送出或執行任何指令。"@,
                2000,
            )
            &&& r->0.nonce is None
        },
        r is None ==> final(b)@ == old(b)@,
        only_at(old(b)@, final(b)@, token.guild()),
{
}

/// Work that the voice agent took over, that was recovered, or whose prompt cannot be posted, is
/// pending no more; only the work that is meant is.
pub proof fn lemma_completed_work_is_forgotten(
    b: &mut DiscordVoiceIntentBroker,
    request: &LocalIntentExecution,
    done: bool,
    c: &mut DiscordVoiceIntentBroker,
    d: &mut DiscordVoiceIntentBroker,
    m: &PendingMessage,
    recovered: bool,
    exhausted: bool,
)
    requires
        old(b).wf() && old(c).wf() && old(d).wf(),
        call_ensures(DiscordVoiceIntentBroker::complete_local_execution, (b, request), done),
        call_ensures(DiscordVoiceIntentBroker::dispatch_recovered, (c, m), recovered),
        call_ensures(DiscordVoiceIntentBroker::confirmation_retries_exhausted, (d, m), exhausted),
    ensures
        done <==> pends(
            old(b)@,
            request.session,
            request.intent_id,
            request.revision,
            PendingPhase::Dispatching,
        ),
        recovered <==> pends(
            old(c)@,
            m.token,
            m.intent.id,
            m.intent.revision,
            PendingPhase::Dispatching,
        ),
        exhausted <==> pends(
            old(d)@,
            m.token,
            m.intent.id,
            m.intent.revision,
            PendingPhase::PostingConfirmation,
        ),
        done ==> final(b)@[request.session.guild()].pending is None,
        recovered ==> final(c)@[m.token.guild()].pending is None,
        exhausted ==> final(d)@[m.token.guild()].pending is None,
        !done ==> final(b)@ == old(b)@,
        !recovered ==> final(c)@ == old(c)@,
        !exhausted ==> final(d)@ == old(d)@,
        only_at(old(b)@, final(b)@, request.session.guild()),
        only_at(old(c)@, final(c)@, m.token.guild()),
        only_at(old(d)@, final(d)@, m.token.guild()),
{
}

/// What comes of an answer once its message was sent, or was not: work is dispatched when it was
/// sent and is on its way otherwise; a cancellation or a hint that could not be sent is an error.
pub proof fn lemma_effects_are_told(
    b: &mut DiscordVoiceIntentBroker,
    effect: TextEffect,
    sent: bool,
    r: Result<VoiceIntentTextOutcome, String>,
)
    requires
        old(b).wf(),
        call_ensures(DiscordVoiceIntentBroker::apply_text_effect, (b, effect, sent), r),
    ensures
        effect is NotApplicable ==> r is Ok && r->Ok_0 is NotApplicable,
        effect is AlreadyProcessing ==> r is Ok && r->Ok_0 is AlreadyProcessing,
        effect is Dispatch && sent ==> r is Ok && r->Ok_0 is Dispatched,
        effect is Dispatch && !sent ==> r is Ok && r->Ok_0 is Dispatching && final(b)@ == old(b)@,
        effect is ExecuteLocal ==> r is Ok && r->Ok_0 == VoiceIntentTextOutcome::ExecuteLocal(
            effect->ExecuteLocal_0,
        ),
        effect is Cancel && sent ==> r is Ok && r->Ok_0 is Cancelled,
        effect is Cancel && !sent ==> r is Err,
        effect is Correct ==> r is Ok && r->Ok_0 is Corrected,
        effect is RejectCorrection && sent ==> r is Ok && r->Ok_0 is CorrectionRejected,
        effect is RejectCorrection && !sent ==> r is Err,
        effect is Dispatch && sent ==> {
            let m = effect->Dispatch_0.message;
            let current = pends(
                old(b)@,
                m.token,
                m.intent.id,
                m.intent.revision,
                PendingPhase::Dispatching,
            );
            &&& current ==> final(b)@[m.token.guild()].pending is None
            &&& !current ==> final(b)@ == old(b)@
        },
        !(effect is Dispatch) ==> final(b)@ == old(b)@,
{
}

/// A delivery is tried again after 1, 2, 4, 8 and 8 seconds, and then no more.
pub proof fn lemma_deliveries_are_retried(retry: &DeliveryRetry, r: Option<u64>)
    requires
        call_ensures(DeliveryRetry::next_delay, (retry,), r),
    ensures
        retry.attempt == 0 ==> r == Some(1u64),
        retry.attempt == 1 ==> r == Some(2u64),
        retry.attempt == 2 ==> r == Some(4u64),
        retry.attempt == 3 || retry.attempt == 4 ==> r == Some(8u64),
        retry.attempt >= 5 ==> r is None,
{
}

/// What is no longer current may be sent twice more, and what is current always.
pub proof fn lemma_stale_deliveries_are_bounded(
    retry: &mut DeliveryRetry,
    current: bool,
    r: bool,
    other: &mut DeliveryRetry,
)
    requires
        call_ensures(DeliveryRetry::may_send, (retry, current), r),
        old(other).attempt < 5,
        call_ensures(DeliveryRetry::failed, (other,), ()),
    ensures
        current ==> r && *final(retry) == *old(retry),
        !current ==> (r <==> old(retry).stale_recoveries < 2),
        !current && r ==> final(retry).stale_recoveries == old(retry).stale_recoveries + 1,
        !r ==> *final(retry) == *old(retry),
        final(retry).attempt == old(retry).attempt,
        final(other).attempt == old(other).attempt + 1,
        final(other).stale_recoveries == old(other).stale_recoveries,
{
}

/// A broker has the targets of its configuration, each under its name, its user and its aliases,
/// and waits at least a second. A target whose user is no number is an error.
pub proof fn lemma_targets_are_configured(
    config: DiscordVoiceIntentConfig,
    r: Result<DiscordVoiceIntentBroker, String>,
    i: int,
)
    requires
        call_ensures(DiscordVoiceIntentBroker::new, (config,), r),
        0 <= i < config.targets@.len(),
    ensures
        ({
            let number = text::parsed_number(
                text::trimmed_white(config.targets@[i].1.discord_user_id@),
            );
            &&& r is Ok ==> {
                let target = r->Ok_0.settings().targets[i];
                &&& r->Ok_0.settings().targets.len() == config.targets@.len()
                &&& target.canonical@ == config.targets@[i].0@
                &&& number == Some(target.discord_user_id as nat)
                &&& target.aliases@.len() == config.targets@[i].1.aliases@.len() + 1
                &&& target.aliases@[0]@ == targets::match_form(config.targets@[i].0@)
                &&& forall|j: int|
                    0 <= j < config.targets@[i].1.aliases@.len() ==> target.aliases@[j + 1]@
                        == targets::match_form((#[trigger] config.targets@[i].1.aliases@[j])@)
                &&& r->Ok_0.settings().enabled == config.enabled
                &&& r->Ok_0.settings().default_to_local == config.default_to_local
                &&& config.confirmation_timeout_seconds > 0 ==> r->Ok_0.settings().timeout_seconds
                    == config.confirmation_timeout_seconds
                &&& config.confirmation_timeout_seconds == 0
                    ==> r->Ok_0.settings().timeout_seconds == 1
                &&& forall|g: u64| !#[trigger] r->Ok_0@.contains_key(g)
            }
            &&& number is None || number->0 > u64::MAX ==> r is Err
        }),
{
    if r is Ok {
        let target = r->Ok_0.settings().targets[i];
        let named = text::strings(target.aliases@);
        let aliases = config.targets@[i].1.aliases@;
        assert(discord_voice_intent::is_configured(
            target,
            config.targets@[i].0@,
            config.targets@[i].1,
        ));
        assert(named.len() == target.aliases@.len());
        assert(named.len() == aliases.len() + 1);
        assert(named[0] == target.aliases@[0]@);
        assert forall|j: int| 0 <= j < aliases.len() implies target.aliases@[j + 1]@
            == targets::match_form((#[trigger] aliases[j])@) by {
            assert(named[j + 1] == target.aliases@[j + 1]@);
        }
    }
}

/// The notices to the operator, and the prompt of work for the voice agent, as they are written.
pub proof fn lemma_notices_are_written(
    user: u64,
    cancelled: String,
    expired: String,
    task: &str,
    local: String,
)
    requires
        call_ensures(messages::cancelled_message, (user,), cancelled),
        call_ensures(messages::expired_message, (user,), expired),
        call_ensures(messages::local_confirmation_message, (user, task), local),
    ensures
        cancelled@ == messages::shortened(
            "<@"@ + text::decimal(user as nat) + ">"@ + " 已取消這次語音任務。"@,
            2000,
        ),
        expired@ == messages::shortened(
            "<@"@ + text::decimal(user as nat) + ">"@
                + " 語音任務確認已逾時，未送出或執行任何指令。"@,
            2000,
        ),
        local@ == messages::shortened(
            "<@"@ + text::decimal(user as nat) + ">"@ + " 我理解為：由我直接處理「"@ + task@
                + "」，對嗎？請回覆「對」、「不是」，或用「更正：...」修正。"@,
            2000,
        ),
{
}

/// Delegated work is announced to the one it is for, with the one who asked.
pub proof fn lemma_work_is_handed_on(
    target: u64,
    user: u64,
    name: &str,
    task: &str,
    whom: &str,
    sent: String,
    asked: String,
)
    requires
        call_ensures(messages::dispatch_message, (target, user, name, task), sent),
        call_ensures(messages::delegate_confirmation_message, (user, whom, task), asked),
    ensures
        sent@ == messages::shortened(
            "<@"@ + text::decimal(target as nat) + ">"@ + " "@ + name@ + " ("@ + ("<@"@
                + text::decimal(user as nat) + ">"@) + ") asked via voice:\n"@ + task@,
            2000,
        ),
        asked@ == messages::shortened(
            "<@"@ + text::decimal(user as nat) + ">"@ + " 我理解為：要請 "@ + whom@ + " "@ + task@
                + "，對嗎？請回覆「對」、「不是」，或用「更正：...」修正。"@,
            2000,
        ),
{
}

/// A text of at most the limit is kept; a longer one is cut to it and ends in an ellipsis.
pub proof fn lemma_long_texts_are_cut(s: &str, limit: usize, r: String)
    requires
        call_ensures(messages::shorten, (s, limit), r),
    ensures
        s@.len() <= limit ==> r@ == s@,
        s@.len() > limit && limit > 0 ==> r@.len() == limit && r@[limit - 1] as int == 0x2026
            && r@.take(limit - 1) == s@.take(limit - 1),
{
    broker::lemma_texts_are_cut(s@, limit as nat);
}

/// A text message that is not an answer goes its ordinary way; every other one is taken.
pub proof fn lemma_answers_are_taken(outcome: &VoiceIntentTextOutcome, r: bool)
    requires
        call_ensures(VoiceIntentTextOutcome::consumed, (outcome,), r),
    ensures
        r <==> !(*outcome is NotApplicable),
{
}

/// An intent is current in a phase when it is the pending one of its session, in that phase, and
/// only then is it removed.
pub proof fn lemma_only_current_work_is_removed(
    b: &DiscordVoiceIntentBroker,
    m: &PendingMessage,
    phase: PendingPhase,
    current: bool,
    c: &mut DiscordVoiceIntentBroker,
    token: VoiceSessionToken,
    id: u128,
    revision: u64,
    removed: bool,
)
    requires
        old(c).wf(),
        call_ensures(DiscordVoiceIntentBroker::is_current_phase, (b, m, phase), current),
        call_ensures(
            DiscordVoiceIntentBroker::remove_pending_if_current,
            (c, token, id, revision, phase),
            removed,
        ),
    ensures
        current <==> pends(b@, m.token, m.intent.id, m.intent.revision, phase),
        removed <==> pends(old(c)@, token, id, revision, phase),
        removed ==> final(c)@[token.guild()].pending is None,
        !removed ==> final(c)@ == old(c)@,
        only_at(old(c)@, final(c)@, token.guild()),
{
}

/// With an id of its own the broker answers a message as with a given one: who may decide, and
/// what, is the same.
pub proof fn lemma_messages_are_handled(
    b: &mut DiscordVoiceIntentBroker,
    guild: u64,
    channel: u64,
    user: u64,
    content: &str,
    r: TextEffect,
    answer: Confirmation,
)
    requires
        old(b).wf(),
        call_ensures(
            DiscordVoiceIntentBroker::handle_text_message,
            (b, guild, channel, user, content),
            r,
        ),
        call_ensures(language::classify_confirmation, (content,), answer),
    ensures
        !awaits(old(b).settings(), old(b)@, guild, channel, user) ==> final(b)@ == old(b)@ && (r
            is NotApplicable || r is AlreadyProcessing),
        awaits(old(b).settings(), old(b)@, guild, channel, user) && answer is Negative ==> r
            is Cancel && final(b)@[guild].pending is None,
        awaits(old(b).settings(), old(b)@, guild, channel, user) && answer is Affirmative ==> (r
            is Dispatch || r is ExecuteLocal) && final(b)@[guild].pending is Some
            && final(b)@[guild].pending->0.phase is Dispatching,
        r is Dispatch || r is ExecuteLocal ==> answer is Affirmative,
        r is Cancel ==> answer is Negative,
        only_at(old(b)@, final(b)@, guild),
{
    if awaits(old(b).settings(), old(b)@, guild, channel, user) {
        let s = old(b).settings();
        let fresh = choose|fresh: u128|
            final(b)@ == #[trigger] discord_voice_intent::after_text(
                s,
                old(b)@,
                guild,
                channel,
                user,
                content@,
                fresh,
            );
        if answer is Negative {
            broker::lemma_no_cancels(s, old(b)@, guild, channel, user, content@, fresh, r);
        }
        if answer is Affirmative {
            broker::lemma_yes_dispatches(s, old(b)@, guild, channel, user, content@, fresh, r);
        }
    }
}

/// With an id of its own the broker takes a transcript as with a given one: what was said by
/// another, or elsewhere, or before, is ignored.
pub proof fn lemma_transcripts_are_handled(
    b: &mut DiscordVoiceIntentBroker,
    event: &FinalTranscriptEvent,
    r: (VoiceIntentTranscriptOutcome, Option<Delivery>),
)
    requires
        old(b).wf(),
        call_ensures(DiscordVoiceIntentBroker::handle_final_transcript, (b, event), r),
    ensures
        ({
            let guild = event.token.guild();
            let before = old(b)@[guild];
            let after = final(b)@[guild];
            &&& r.0 is Proposed <==> r.1 is Some
            &&& r.0 is Ignored ==> final(b)@ == old(b)@
            &&& !(r.0 is Ignored) ==> {
                &&& old(b).settings().enabled
                &&& old(b)@.contains_key(guild)
                &&& before.token == event.token
                &&& before.channel == event.control_channel_id
                &&& before.operator == event.key.speaker_id
                &&& !before.keys.contains(event.key)
                &&& after.keys.last() == event.key
            }
            &&& r.0 is AwaitingConfirmation ==> before.pending is Some && after.pending
                == before.pending
            &&& r.0 is Proposed ==> before.pending is None && after.pending is Some
                && after.pending->0.phase is PostingConfirmation
            &&& only_at(old(b)@, final(b)@, guild)
        }),
{
    let s = old(b).settings();
    let fresh = choose|fresh: u128|
        (final(b)@, r.0) == #[trigger] discord_voice_intent::after_transcript(
            s,
            old(b)@,
            *event,
            fresh,
        );
    broker::lemma_transcripts_become_work(s, old(b)@, *event, fresh);
}

/// A message to Discord holds at most 2000 characters, and a task is cut like any text.
pub proof fn lemma_messages_are_bounded(
    message: String,
    r: String,
    task: &str,
    room: usize,
    t: String,
    delay: u64,
    attempt: usize,
)
    requires
        call_ensures(messages::bounded_discord_message, (message,), r),
        call_ensures(messages::canonicalize_task, (task, room), t),
        call_ensures(messages::confirmation_retry_delay, (attempt,), delay),
    ensures
        message@.len() <= 2000 ==> r@ == message@,
        message@.len() > 2000 ==> r@.len() == 2000 && r@[1999] as int == 0x2026,
        task@.len() <= room ==> t@ == task@,
        task@.len() > room && room > 0 ==> t@.len() == room && t@[room - 1] as int == 0x2026,
        attempt == 0 ==> delay == 1,
        attempt == 1 ==> delay == 2,
        attempt == 2 ==> delay == 4,
        attempt >= 3 ==> delay == 8,
{
    broker::lemma_texts_are_cut(message@, 2000);
    broker::lemma_texts_are_cut(task@, room as nat);
}

/// Work is cut so that both messages about it fit, keeps its destination, and is none where it
/// goes nowhere.
pub proof fn lemma_work_is_made_to_fit(
    user: u64,
    name: &str,
    proposal: IntentProposal,
    all: &Vec<IntentTarget>,
    r: Option<IntentProposal>,
    task: &str,
    asked: Option<String>,
)
    requires
        call_ensures(messages::canonicalize_proposal, (user, name, proposal, all), r),
        r is Some,
        task@ == r->0.task@,
        call_ensures(
            messages::confirmation_message_for,
            (user, proposal.destination, all, task),
            asked,
        ),
    ensures
        r->0.destination == proposal.destination,
        proposal.destination is Delegate ==> proposal.destination->target_index < all@.len(),
        asked is Some,
        asked->0@.len() <= 2000,
        r->0.task@.len() <= proposal.task@.len(),
{
    broker::lemma_texts_are_cut(
        proposal.task@,
        messages::task_room(user, name@, proposal.destination, all@) as nat,
    );
    broker::lemma_texts_are_cut(
        messages::confirmation_text(user, proposal.destination, all@, r->0.task@),
        2000,
    );
}

} // verus!
