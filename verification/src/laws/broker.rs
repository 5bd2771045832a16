//! The intent broker: what a transcript and an answer do to pending work, and what is sent for it.

use vstd::prelude::*;
use vstd::string::*;
use crate::discord_voice_intent;
use crate::discord_voice_intent::language;
use crate::discord_voice_intent::messages;
use crate::discord_voice_intent::targets;
use crate::discord_voice_intent::targets::{IntentDestination, IntentTarget, ProposalModel};
use crate::discord_voice_intent::{
    BoundModel, BrokerSettings, Delivery, FinalTranscriptEvent, PendingModel, PendingPhase,
    Sessions, TextEffect,
};
use crate::discord_voice_runtime::VoiceSessionToken;
use crate::laws::characters;
use crate::text;
use crate::text::CharClass;

verus! {

/// Whether the work of a session waits for the answer of the one who may give it, where they are
/// asked.
pub open spec fn awaits(
    settings: BrokerSettings,
    sessions: Sessions,
    guild: u64,
    channel: u64,
    user: u64,
) -> bool {
    &&& settings.enabled
    &&& sessions.contains_key(guild)
    &&& sessions[guild].channel == channel
    &&& sessions[guild].operator == user
    &&& sessions[guild].pending is Some
    &&& sessions[guild].pending->0.phase == PendingPhase::WaitingConfirmation
}

/// A no is never a yes: an answer that cancels takes the work away and tells so, and nothing is
/// dispatched or executed.
pub proof fn lemma_no_cancels(
    settings: BrokerSettings,
    sessions: Sessions,
    guild: u64,
    channel: u64,
    user: u64,
    content: Seq<char>,
    fresh_id: u128,
    effect: TextEffect,
)
    requires
        awaits(settings, sessions, guild, channel, user),
        language::confirmation_of(content) is Negative,
    ensures
        ({
            let before = sessions[guild];
            let after = discord_voice_intent::after_text(
                settings,
                sessions,
                guild,
                channel,
                user,
                content,
                fresh_id,
            );
            &&& after == sessions.insert(guild, BoundModel { pending: None, ..before })
            &&& effect.follows(
                settings,
                before,
                language::confirmation_of(content),
                after[guild],
            ) ==> {
                &&& effect matches TextEffect::Cancel(outgoing)
                &&& outgoing.channel_id == channel
                &&& outgoing.content@ == "<@"@ + text::decimal(user as nat) + ">"@
                    + " 已取消這次語音任務。"@
                &&& outgoing.nonce is None
            }
        }),
{
    lemma_short_notice(user, " 已取消這次語音任務。"@);
}

proof fn lemma_short_notice(user: u64, words: Seq<char>)
    requires
        words == " 已取消這次語音任務。"@,
    ensures
        messages::notice(user, words) == "<@"@ + text::decimal(user as nat) + ">"@ + words,
{
    reveal_strlit(" 已取消這次語音任務。");
    reveal_strlit("<@");
    reveal_strlit(">");
    lemma_decimal_len(user as nat);
}

proof fn lemma_decimal_len(n: nat)
    requires
        n <= u64::MAX,
    ensures
        text::decimal(n).len() <= 20,
{
    reveal_with_fuel(text::decimal, 21);
}

/// A yes dispatches the work that was confirmed: it goes into dispatch as it is, to its target or to
/// the voice agent itself.
pub proof fn lemma_yes_dispatches(
    settings: BrokerSettings,
    sessions: Sessions,
    guild: u64,
    channel: u64,
    user: u64,
    content: Seq<char>,
    fresh_id: u128,
    effect: TextEffect,
)
    requires
        awaits(settings, sessions, guild, channel, user),
        language::confirmation_of(content) is Affirmative,
    ensures
        ({
            let before = sessions[guild];
            let work = before.pending->0;
            let after = discord_voice_intent::after_text(
                settings,
                sessions,
                guild,
                channel,
                user,
                content,
                fresh_id,
            );
            &&& after == sessions.insert(
                guild,
                BoundModel {
                    pending: Some(PendingModel { phase: PendingPhase::Dispatching, ..work }),
                    ..before
                },
            )
            &&& effect.follows(
                settings,
                before,
                language::confirmation_of(content),
                after[guild],
            ) ==> match work.proposal.destination {
                IntentDestination::Delegate { target_index } => {
                    &&& effect matches TextEffect::Dispatch(delivery)
                    &&& delivery.outgoing.channel_id == channel
                    &&& delivery.outgoing.content@ == messages::shortened(
                        "<@"@ + text::decimal(
                            settings.targets[target_index as int].discord_user_id as nat,
                        ) + ">"@ + " "@ + before.operator_name + " ("@ + ("<@"@ + text::decimal(
                            user as nat,
                        ) + ">"@) + ") asked via voice:\n"@ + work.proposal.task,
                        2000,
                    )
                    &&& text::opt_text(delivery.outgoing.nonce) == Some(
                        messages::nonce("oabv1"@, work.id),
                    )
                    &&& delivery.message.intent@.id == work.id
                    &&& delivery.message.intent@.revision == work.revision
                },
                IntentDestination::Local => {
                    &&& effect matches TextEffect::ExecuteLocal(request)
                    &&& request.intent_id == work.id
                    &&& request.revision == work.revision
                    &&& request.session == before.token
                    &&& request.control_channel_id == channel
                    &&& request.operator_user_id == user
                    &&& request.operator_display_name@ == before.operator_name
                    &&& request.task@ == work.proposal.task
                },
            }
        }),
{
}

/// Who is not asked does not decide: a message of another user, in another channel, of another
/// guild, or that is no answer, changes nothing, nor does any message unless work waits for its
/// confirmation.
pub proof fn lemma_nobody_else_decides(
    settings: BrokerSettings,
    sessions: Sessions,
    guild: u64,
    channel: u64,
    user: u64,
    content: Seq<char>,
    fresh_id: u128,
)
    ensures
        ({
            let after = discord_voice_intent::after_text(
                settings,
                sessions,
                guild,
                channel,
                user,
                content,
                fresh_id,
            );
            &&& !awaits(settings, sessions, guild, channel, user) || language::confirmation_of(
                content,
            ) is Unrelated ==> after == sessions
            &&& forall|g: u64|
                g != guild ==> (#[trigger] after.contains_key(g) <==> sessions.contains_key(g))
                    && after[g] == sessions[g]
        }),
        discord_voice_intent::answers(settings, sessions, guild, channel, user, content) <==> {
            &&& settings.enabled
            &&& sessions.contains_key(guild)
            &&& sessions[guild].channel == channel
            &&& sessions[guild].operator == user
            &&& sessions[guild].pending is Some
            &&& !(language::confirmation_of(content) is Unrelated)
        },
{
}

/// A correction that can be carried out makes new work of it, under a new id and revision, which
/// has to be confirmed in turn; one that cannot leaves the work as it was.
pub proof fn lemma_corrections_make_new_work(
    settings: BrokerSettings,
    sessions: Sessions,
    guild: u64,
    channel: u64,
    user: u64,
    content: Seq<char>,
    fresh_id: u128,
)
    requires
        awaits(settings, sessions, guild, channel, user),
        language::confirmation_of(content) is Correction,
    ensures
        ({
            let before = sessions[guild];
            let proposal = targets::correction_of(
                before.pending->0.proposal.destination,
                language::confirmation_of(content)->Correction_0,
                targets::target_names(settings.targets),
                settings.default_to_local,
            );
            let after = discord_voice_intent::after_text(
                settings,
                sessions,
                guild,
                channel,
                user,
                content,
                fresh_id,
            )[guild];
            let task = messages::canonical_task(
                before.operator,
                before.operator_name,
                proposal->0.destination,
                settings.targets,
                proposal->0.task,
            );
            &&& proposal is None || task is None ==> after == before
            &&& proposal is Some && task is Some ==> {
                &&& after.pending is Some
                &&& after.pending->0.id == fresh_id
                &&& after.pending->0.revision == before.next_revision
                &&& after.pending->0.proposal.destination == proposal->0.destination
                &&& after.pending->0.proposal.task == task->0
                &&& after.pending->0.phase == PendingPhase::PostingConfirmation
                &&& after.pending->0.message_id is None
                &&& before.next_revision < u64::MAX ==> after.next_revision == before.next_revision
                    + 1
                &&& after == (BoundModel {
                    pending: after.pending,
                    next_revision: after.next_revision,
                    ..before
                })
            }
        }),
{
}

/// Only the operator of a session is heard, in its channel, and only while the broker is enabled. A
/// command is remembered; it becomes the pending work where there is none, and waits its turn where
/// there is.
pub proof fn lemma_transcripts_become_work(
    settings: BrokerSettings,
    sessions: Sessions,
    event: FinalTranscriptEvent,
    fresh_id: u128,
)
    ensures
        ({
            let guild = event.token.guild();
            let before = sessions[guild];
            let (after, outcome) = discord_voice_intent::after_transcript(
                settings,
                sessions,
                event,
                fresh_id,
            );
            let proposal = targets::proposal_of(
                event.text@,
                targets::target_names(settings.targets),
                settings.default_to_local,
            );
            let task = messages::canonical_task(
                before.operator,
                before.operator_name,
                proposal->0.destination,
                settings.targets,
                proposal->0.task,
            );
            let heard = settings.enabled && sessions.contains_key(guild) && before.token
                == event.token && before.channel == event.control_channel_id && before.operator
                == event.key.speaker_id;
            let taken = heard && proposal is Some && task is Some && !before.keys.contains(
                event.key,
            );
            &&& outcome is Ignored <==> !taken
            &&& outcome is Ignored ==> after == sessions
            &&& outcome is AwaitingConfirmation <==> taken && before.pending is Some
            &&& outcome is Proposed <==> taken && before.pending is None
            &&& outcome is AwaitingConfirmation ==> after[guild].pending == before.pending
            &&& outcome is Proposed ==> after[guild].pending == Some(
                PendingModel {
                    id: fresh_id,
                    revision: before.next_revision,
                    waiting_epoch: 0,
                    proposal: ProposalModel {
                        destination: proposal->0.destination,
                        task: task->0,
                    },
                    phase: PendingPhase::PostingConfirmation,
                    message_id: None,
                },
            )
            &&& taken ==> {
                &&& after == sessions.insert(guild, after[guild])
                &&& after[guild].token == before.token
                &&& after[guild].channel == before.channel
                &&& after[guild].operator == before.operator
                &&& after[guild].operator_name == before.operator_name
                &&& after[guild].next_epoch == before.next_epoch
                &&& before.keys.len() < 1024 ==> after[guild].keys == before.keys.push(event.key)
                &&& before.keys.len() == 1024 ==> after[guild].keys == before.keys.push(
                    event.key,
                ).skip(1)
            }
        }),
{
}

/// A confirmation shows the operator what is to be done, by whom, and how to answer.
pub proof fn lemma_confirmations_show_the_work(
    delivery: Delivery,
    bound: BoundModel,
    targets: Seq<IntentTarget>,
)
    requires
        delivery.asks_confirmation(bound, targets),
    ensures
        bound.pending is Some,
        delivery.outgoing.channel_id == bound.channel,
        text::opt_text(delivery.outgoing.nonce) == Some(
            messages::nonce("oabp1"@, bound.pending->0.id),
        ),
        delivery.outgoing.content@ == match bound.pending->0.proposal.destination {
            IntentDestination::Delegate { target_index } => messages::shortened(
                "<@"@ + text::decimal(bound.operator as nat) + ">"@ + " 我理解為：要請 "@
                    + targets[target_index as int].canonical@ + " "@
                    + bound.pending->0.proposal.task
                    + "，對嗎？請回覆「對」、「不是」，或用「更正：...」修正。"@,
                2000,
            ),
            IntentDestination::Local => messages::shortened(
                "<@"@ + text::decimal(bound.operator as nat) + ">"@ + " 我理解為：由我直接處理「"@
                    + bound.pending->0.proposal.task
                    + "」，對嗎？請回覆「對」、「不是」，或用「更正：...」修正。"@,
                2000,
            ),
        },
{
}

/// A text that fits is left as it is. One that does not is cut to the limit and ends in an ellipsis.
pub proof fn lemma_texts_are_cut(s: Seq<char>, limit: nat)
    ensures
        s.len() <= limit ==> messages::shortened(s, limit) == s,
        s.len() > limit && limit > 0 ==> {
            let cut = messages::shortened(s, limit);
            &&& cut.len() == limit
            &&& cut[limit - 1] as int == 0x2026
            &&& cut.take(limit - 1) == s.take(limit - 1)
        },
{
    if s.len() > limit && limit > 0 {
        assert(messages::shortened(s, limit).take(limit - 1) =~= s.take(limit - 1));
    }
}

/// The task that is confirmed is the task that was asked for, cut so that the messages about it
/// fit: a task has all the room that both leave, and none is proposed where that is less than 16
/// characters.
pub proof fn lemma_tasks_are_cut_to_fit(
    operator: u64,
    name: Seq<char>,
    destination: IntentDestination,
    targets: Seq<IntentTarget>,
    task: Seq<char>,
)
    requires
        destination matches IntentDestination::Delegate { target_index } ==> target_index
            < targets.len(),
    ensures
        ({
            let nothing = Seq::<char>::empty();
            let asked = messages::shortened(
                messages::confirmation_text(operator, destination, targets, nothing),
                2000,
            ).len();
            let sent = match destination {
                IntentDestination::Delegate { target_index } => messages::shortened(
                    messages::dispatch_text(
                        targets[target_index as int].discord_user_id,
                        operator,
                        name,
                        nothing,
                    ),
                    2000,
                ).len(),
                IntentDestination::Local => 0,
            };
            let most = if asked > sent {
                asked
            } else {
                sent
            };
            &&& most > 1984 ==> messages::canonical_task(
                operator,
                name,
                destination,
                targets,
                task,
            ) is None
            &&& most <= 1984 ==> messages::canonical_task(
                operator,
                name,
                destination,
                targets,
                task,
            ) == Some(messages::shortened(task, (2000 - most) as nat))
        }),
{
}

/// There is no work for a target that there is not.
pub proof fn lemma_no_work_for_nobody(
    operator: u64,
    name: Seq<char>,
    target_index: usize,
    targets: Seq<IntentTarget>,
    task: Seq<char>,
)
    requires
        target_index >= targets.len(),
    ensures
        messages::canonical_task(
            operator,
            name,
            IntentDestination::Delegate { target_index },
            targets,
            task,
        ) is None,
{
}

/// What waits again does so in a waiting period of its own, so that the timer of an earlier one does
/// not end it.
pub proof fn lemma_waiting_periods_are_new(bound: BoundModel, message_id: Seq<char>)
    requires
        bound.pending is Some,
    ensures
        ({
            let work = bound.pending->0;
            let after = bound.waiting();
            &&& after.pending == Some(
                PendingModel {
                    phase: PendingPhase::WaitingConfirmation,
                    waiting_epoch: bound.next_epoch,
                    ..work
                },
            )
            &&& bound.next_epoch < u64::MAX ==> after.next_epoch == bound.next_epoch + 1
            &&& bound.next_epoch == u64::MAX ==> after.next_epoch == u64::MAX
            &&& after == (BoundModel {
                pending: after.pending,
                next_epoch: after.next_epoch,
                ..bound
            })
            &&& bound.waiting_by(message_id) == (BoundModel {
                pending: Some(
                    PendingModel { message_id: Some(message_id), ..after.pending->0 },
                ),
                ..after
            })
            &&& bound.cleared() == (BoundModel { pending: None, ..bound })
        }),
{
}

/// A session that was just bound has nothing pending and remembers nothing.
pub proof fn lemma_fresh_sessions(
    token: VoiceSessionToken,
    channel: u64,
    operator: u64,
    name: Seq<char>,
)
    ensures
        ({
            let fresh = BoundModel::fresh(token, channel, operator, name);
            &&& fresh.token == token
            &&& fresh.channel == channel
            &&& fresh.operator == operator
            &&& fresh.operator_name == name
            &&& fresh.pending is None
            &&& fresh.keys.len() == 0
            &&& fresh.next_revision == 1
            &&& fresh.next_epoch == 1
        }),
{
}

/// The prompt of a session is deleted with it, unless it was confirmed.
pub proof fn lemma_prompts_are_deleted(bound: BoundModel)
    ensures
        bound.visible_prompt() is Some <==> bound.pending is Some && bound.pending->0.phase
            != PendingPhase::Dispatching && bound.pending->0.message_id is Some,
        bound.visible_prompt() is Some ==> bound.visible_prompt()->0 == (
            bound.channel,
            bound.pending->0.message_id->0,
        ),
{
}

/// A pending intent is identified by its session, its id, its revision and its phase.
pub proof fn lemma_pending_work_is_identified(
    sessions: Sessions,
    token: VoiceSessionToken,
    id: u128,
    revision: u64,
    phase: PendingPhase,
)
    ensures
        discord_voice_intent::is_pending(sessions, token, id, revision, phase) <==> {
            let guild = token.guild();
            &&& sessions.contains_key(guild)
            &&& sessions[guild].token == token
            &&& sessions[guild].pending is Some
            &&& sessions[guild].pending->0.id == id
            &&& sessions[guild].pending->0.revision == revision
            &&& sessions[guild].pending->0.phase == phase
        },
{
}

/// The words of a name stand with one space between them, and no at sign in it can mention anybody:
/// a zero-width space follows each. A name of nothing but white space is shown as the operator's id.
pub proof fn lemma_names_mention_nobody(name: Seq<char>, c: char, operator: u64)
    ensures
        messages::defused(Seq::empty()) == Seq::<char>::empty(),
        messages::defused(name.push(c)) == messages::defused(name) + (if c as int == 64 {
            seq!['@', '\u{200b}']
        } else {
            seq![c]
        }),
        messages::words(name).len() == 0 ==> messages::shown_name(name, operator) == text::decimal(
            operator as nat,
        ),
        messages::words(name).len() > 0 ==> messages::shown_name(name, operator)
            == messages::defused(text::joined(messages::words(name), " "@)),
        forall|i: int|
            0 <= i < messages::defused(name).len() && (#[trigger] messages::defused(name)[i]) as int
                == 64 ==> i + 1 < messages::defused(name).len() && messages::defused(name)[i
                + 1] as int == 0x200b,
{
    assert(name.push(c).drop_last() =~= name);
    assert(messages::defused(name.push(c)) =~= messages::defused(name) + (if c as int == 64 {
        seq!['@', '\u{200b}']
    } else {
        seq![c]
    }));
    lemma_defused(name);
    if messages::words(name).len() > 0 {
        lemma_words(name);
        let words = messages::words(name);
        lemma_joined_len(words);
        lemma_defused_len(text::joined(words, " "@));
    }
}

proof fn lemma_defused(s: Seq<char>)
    ensures
        forall|i: int|
            0 <= i < messages::defused(s).len() && (#[trigger] messages::defused(s)[i]) as int
                == 64 ==> i + 1 < messages::defused(s).len() && messages::defused(s)[i + 1] as int
                == 0x200b,
    decreases s.len(),
{
    if s.len() > 0 {
        lemma_defused(s.drop_last());
        let before = messages::defused(s.drop_last());
        let now = messages::defused(s);
        assert forall|i: int| 0 <= i < now.len() && (#[trigger] now[i]) as int == 64 implies i + 1
            < now.len() && now[i + 1] as int == 0x200b by {
            if i < before.len() {
                assert(now[i] == before[i]);
                assert(now[i + 1] == before[i + 1]);
            }
        }
    }
}

proof fn lemma_defused_len(s: Seq<char>)
    ensures
        messages::defused(s).len() >= s.len(),
    decreases s.len(),
{
    if s.len() > 0 {
        lemma_defused_len(s.drop_last());
    }
}

/// The words of a text are its longest pieces without white space: none is empty, none holds white
/// space, and another word behind white space is another word.
pub proof fn lemma_words(s: Seq<char>)
    ensures
        forall|i: int|
            0 <= i < messages::words(s).len() ==> (#[trigger] messages::words(s)[i]).len() > 0
                && forall|j: int|
                0 <= j < messages::words(s)[i].len() ==> !CharClass::White.has(
                    #[trigger] messages::words(s)[i][j],
                ),
{
    lemma_word_state(s);
}

proof fn lemma_word_state(s: Seq<char>)
    ensures
        ({
            let (words, open) = messages::word_state(s);
            &&& forall|i: int|
                0 <= i < words.len() ==> (#[trigger] words[i]).len() > 0 && forall|j: int|
                    0 <= j < words[i].len() ==> !CharClass::White.has(#[trigger] words[i][j])
            &&& forall|j: int| 0 <= j < open.len() ==> !CharClass::White.has(#[trigger] open[j])
        }),
    decreases s.len(),
{
    if s.len() > 0 {
        lemma_word_state(s.drop_last());
        let (before, half) = messages::word_state(s.drop_last());
        let (words, open) = messages::word_state(s);
        assert forall|i: int| 0 <= i < words.len() implies (#[trigger] words[i]).len() > 0
            && forall|j: int|
            0 <= j < words[i].len() ==> !CharClass::White.has(#[trigger] words[i][j]) by {
            if i < before.len() {
                assert(words[i] == before[i]);
            } else {
                assert(words[i] == half);
            }
        }
        assert forall|j: int| 0 <= j < open.len() implies !CharClass::White.has(
            #[trigger] open[j],
        ) by {
            if j < half.len() {
                assert(open[j] == half[j]);
            }
        }
    }
}

/// A word behind white space is another word, and white space at the end changes nothing.
pub proof fn lemma_words_are_split(s: Seq<char>, gap: Seq<char>, word: Seq<char>)
    requires
        gap.len() > 0,
        characters::all_in(gap, CharClass::White),
        word.len() > 0,
        forall|i: int| 0 <= i < word.len() ==> !CharClass::White.has(#[trigger] word[i]),
    ensures
        messages::words(s + gap) == messages::words(s),
        messages::words(s + gap + word) == messages::words(s).push(word),
        messages::words(word) == seq![word],
        messages::words(Seq::empty()) == Seq::<Seq<char>>::empty(),
{
    lemma_gap_closes(s, gap);
    lemma_word_opens(s + gap, word);
    let none = Seq::<char>::empty();
    lemma_word_opens(none, word);
    assert(none + word =~= word);
}

proof fn lemma_gap_closes(s: Seq<char>, gap: Seq<char>)
    requires
        gap.len() > 0,
        characters::all_in(gap, CharClass::White),
    ensures
        messages::word_state(s + gap) == (messages::words(s), Seq::<char>::empty()),
    decreases gap.len(),
{
    let all = s + gap;
    let front = gap.drop_last();
    assert(all.drop_last() =~= s + front);
    assert(all.last() == gap[gap.len() - 1]);
    assert(CharClass::White.has(gap[gap.len() - 1]));
    if front.len() > 0 {
        assert forall|i: int| 0 <= i < front.len() implies CharClass::White.has(
            #[trigger] front[i],
        ) by {
            assert(front[i] == gap[i]);
        }
        lemma_gap_closes(s, front);
    } else {
        assert(s + front =~= s);
        let open = messages::word_state(s).1;
        if open.len() == 0 {
            assert(open =~= Seq::empty());
        }
    }
}

proof fn lemma_word_opens(s: Seq<char>, word: Seq<char>)
    requires
        messages::word_state(s).1.len() == 0,
        forall|i: int| 0 <= i < word.len() ==> !CharClass::White.has(#[trigger] word[i]),
    ensures
        messages::word_state(s + word) == (messages::word_state(s).0, word),
    decreases word.len(),
{
    let all = s + word;
    if word.len() > 0 {
        let front = word.drop_last();
        assert(all.drop_last() =~= s + front);
        assert(all.last() == word[word.len() - 1]);
        assert(!CharClass::White.has(word[word.len() - 1]));
        assert forall|i: int| 0 <= i < front.len() implies !CharClass::White.has(
            #[trigger] front[i],
        ) by {
            assert(front[i] == word[i]);
        }
        lemma_word_opens(s, front);
        assert(front.push(word[word.len() - 1]) =~= word);
    } else {
        assert(all =~= s);
        assert(messages::word_state(s).1 =~= word);
    }
}

proof fn lemma_joined_len(words: Seq<Seq<char>>)
    requires
        words.len() > 0,
        forall|i: int| 0 <= i < words.len() ==> (#[trigger] words[i]).len() > 0,
    ensures
        text::joined(words, " "@).len() > 0,
    decreases words.len(),
{
    assert(words[words.len() - 1].len() > 0);
    assert(words[0].len() > 0);
}

/// An id is written in hexadecimal digits, the last of which counts one; another digit makes
/// sixteen times the number. A nonce is a version and the first twenty of its thirty-two digits.
pub proof fn lemma_ids_are_written(n: nat, d: nat, len: nat, prefix: Seq<char>, id: u128)
    requires
        d < 16,
    ensures
        messages::hex_digits(n, 0) == Seq::<char>::empty(),
        messages::hex_digits(16 * n + d, len + 1) == messages::hex_digits(n, len).push(
            (if d < 10 {
                48 + d
            } else {
                87 + d
            }) as char,
        ),
        messages::nonce(prefix, id).len() == prefix.len() + 20,
        messages::nonce(prefix, id).take(prefix.len() as int) == prefix,
        messages::nonce(prefix, id).skip(prefix.len() as int) == messages::hex_digits(
            id as nat,
            32,
        ).take(20),
{
    assert((16 * n + d) / 16 == n);
    assert((16 * n + d) % 16 == d);
    messages::lemma_hex_digits_len(id as nat, 32);
    assert(messages::nonce(prefix, id).take(prefix.len() as int) =~= prefix);
    assert(messages::nonce(prefix, id).skip(prefix.len() as int) =~= messages::hex_digits(
        id as nat,
        32,
    ).take(20));
}

} // verus!
