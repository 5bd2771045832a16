//! The Discord messages of the voice intent flow.
//!
//! A confirmation shows the task that is carried out once it is confirmed, so a task that does
//! not fit is shortened once, before either message is written.

use vstd::prelude::*;
use vstd::slice::slice_subrange;
use vstd::string::*;
use crate::discord_voice_intent::targets::{IntentDestination, IntentProposal, IntentTarget};
use crate::text;

verus! {

/// How many characters a Discord message can have.
pub const DISCORD_MESSAGE_LIMIT: usize = 2_000;

/// How often a message whose fate is unknown is sent again.
pub const MAX_CONFIRMATION_RETRY_ATTEMPTS: usize = 5;

/// How often it is sent again once nobody waits for it any more, to find and delete it.
pub const MAX_STALE_CONFIRMATION_RECOVERY_ATTEMPTS: usize = 2;

/// The last `len` hexadecimal digits of `n`, the most significant first, in lower case.
pub open spec fn hex_digits(n: nat, len: nat) -> Seq<char>
    decreases len,
{
    if len == 0 {
        Seq::empty()
    } else {
        hex_digits(n / 16, (len - 1) as nat).push(text::hex_digit(n as int % 16))
    }
}

pub proof fn lemma_hex_digits_len(n: nat, len: nat)
    ensures
        hex_digits(n, len).len() == len,
    decreases len,
{
    if len > 0 {
        lemma_hex_digits_len(n / 16, (len - 1) as nat);
    }
}

/// Writes an id with `uuid::Uuid::simple`.
///
/// Trusted: the simple form of a UUID is its 32 hexadecimal digits in lower case.
#[verifier::external_body]
fn simple_form(id: u128) -> (r: String)
    ensures
        r@ == hex_digits(id as nat, 32),
{
    uuid::Uuid::from_u128(id).simple().to_string()
}

/// A version prefix and the first 20 digits of an id.
pub open spec fn nonce(prefix: Seq<char>, id: u128) -> Seq<char> {
    prefix + hex_digits(id as nat, 32).take(20)
}

fn nonce_of(prefix: &str, id: u128) -> (r: String)
    ensures
        r@ == nonce(prefix@, id),
        r@.len() == prefix@.len() + 20,
{
    let digits = text::to_chars(simple_form(id).as_str());
    proof {
        lemma_hex_digits_len(id as nat, 32);
    }
    let mut s = String::from_str(prefix);
    let short = slice_subrange(digits.as_slice(), 0, 20);
    assert(short@ =~= hex_digits(id as nat, 32).take(20));
    text::push_chars(&mut s, short);
    s
}

/// The nonce of the message that dispatches an intent. It is the same on every retry, and as
/// long as Discord allows.
pub fn dispatch_nonce(intent_id: u128) -> (r: String)
    ensures
        r@ == nonce("oabv1"@, intent_id),
        r@.len() == 25,
{
    proof {
        reveal_strlit("oabv1");
    }
    nonce_of("oabv1", intent_id)
}

/// The nonce of the message that asks for the confirmation of an intent.
pub fn confirmation_nonce(intent_id: u128) -> (r: String)
    ensures
        r@ == nonce("oabp1"@, intent_id),
        r@.len() == 25,
{
    proof {
        reveal_strlit("oabp1");
    }
    nonce_of("oabp1", intent_id)
}

/// The message that asks for a confirmation is never taken for one that dispatches: their nonces
/// differ, whatever intents they are for.
pub proof fn lemma_nonces_tell_messages_apart(confirmed: u128, dispatched: u128)
    ensures
        nonce("oabp1"@, confirmed) != nonce("oabv1"@, dispatched),
{
    reveal_strlit("oabp1");
    reveal_strlit("oabv1");
    assert(nonce("oabp1"@, confirmed)[3] == 'p');
    assert(nonce("oabv1"@, dispatched)[3] == 'v');
}

/// Seconds before a retry: they double from one, up to eight.
pub fn confirmation_retry_delay(attempt: usize) -> (seconds: u64)
    ensures
        seconds == if attempt == 0 {
            1u64
        } else if attempt == 1 {
            2u64
        } else if attempt == 2 {
            4u64
        } else {
            8u64
        },
{
    if attempt == 0 {
        1
    } else if attempt == 1 {
        2
    } else if attempt == 2 {
        4
    } else {
        8
    }
}

/// A text of at most `limit` characters: a longer one is cut and ends in an ellipsis.
pub open spec fn shortened(s: Seq<char>, limit: nat) -> Seq<char> {
    if s.len() <= limit {
        s
    } else {
        s.take(if limit == 0 {
            0
        } else {
            limit - 1
        }).push('…')
    }
}

/// Cuts a text that is too long.
pub fn shorten(s: &str, limit: usize) -> (r: String)
    ensures
        r@ == shortened(s@, limit as nat),
{
    let chars = text::to_chars(s);
    if chars.len() <= limit {
        return String::from_str(s);
    }
    let kept = if limit == 0 {
        0
    } else {
        limit - 1
    };
    let head = slice_subrange(chars.as_slice(), 0, kept);
    assert(head@ =~= s@.take(kept as int));
    let mut r = text::from_chars(head);
    r.push('…');
    r
}

/// Cuts a message to what Discord takes.
pub fn bounded_discord_message(message: String) -> (r: String)
    ensures
        r@ == shortened(message@, 2000),
        r@.len() <= 2000,
{
    shorten(message.as_str(), DISCORD_MESSAGE_LIMIT)
}

/// Cuts a task to the given number of characters.
pub fn canonicalize_task(task: &str, maximum_chars: usize) -> (r: String)
    ensures
        r@ == shortened(task@, maximum_chars as nat),
{
    shorten(task, maximum_chars)
}

/// A mention of a user.
pub open spec fn mention(user_id: u64) -> Seq<char> {
    "<@"@ + text::decimal(user_id as nat) + ">"@
}

fn push_mention(out: &mut String, user_id: u64)
    ensures
        final(out)@ == old(out)@ + mention(user_id),
{
    let ghost start = out@;
    out.append("<@");
    text::push_decimal(out, user_id);
    out.append(">");
    assert(out@ =~= start + mention(user_id));
}

/// What a confirmation of delegated work says, before it is cut.
pub open spec fn delegate_confirmation(operator: u64, target: Seq<char>, task: Seq<char>) -> Seq<
    char,
> {
    mention(operator) + " 我理解為：要請 "@ + target + " "@ + task
        + "，對嗎？請回覆「對」、「不是」，或用「更正：...」修正。"@
}

/// What a confirmation of work by the voice agent itself says, before it is cut.
pub open spec fn local_confirmation(operator: u64, task: Seq<char>) -> Seq<char> {
    mention(operator) + " 我理解為：由我直接處理「"@ + task
        + "」，對嗎？請回覆「對」、「不是」，或用「更正：...」修正。"@
}

/// What the message to a target says, before it is cut.
pub open spec fn dispatch_text(
    target_user: u64,
    operator: u64,
    operator_name: Seq<char>,
    task: Seq<char>,
) -> Seq<char> {
    mention(target_user) + " "@ + operator_name + " ("@ + mention(operator)
        + ") asked via voice:\n"@ + task
}

/// Asks for the confirmation of delegated work.
pub fn delegate_confirmation_message(operator_user_id: u64, target: &str, task: &str) -> (r: String)
    ensures
        r@ == shortened(delegate_confirmation(operator_user_id, target@, task@), 2000),
{
    let mut s = String::new();
    push_mention(&mut s, operator_user_id);
    s.append(" 我理解為：要請 ");
    s.append(target);
    s.append(" ");
    s.append(task);
    s.append("，對嗎？請回覆「對」、「不是」，或用「更正：...」修正。");
    assert(s@ =~= delegate_confirmation(operator_user_id, target@, task@));
    bounded_discord_message(s)
}

/// Asks for the confirmation of work by the voice agent itself.
pub fn local_confirmation_message(operator_user_id: u64, task: &str) -> (r: String)
    ensures
        r@ == shortened(local_confirmation(operator_user_id, task@), 2000),
{
    let mut s = String::new();
    push_mention(&mut s, operator_user_id);
    s.append(" 我理解為：由我直接處理「");
    s.append(task);
    s.append("」，對嗎？請回覆「對」、「不是」，或用「更正：...」修正。");
    assert(s@ =~= local_confirmation(operator_user_id, task@));
    bounded_discord_message(s)
}

/// Hands work to a target.
pub fn dispatch_message(
    target_user_id: u64,
    operator_user_id: u64,
    operator_display_name: &str,
    task: &str,
) -> (r: String)
    ensures
        r@ == shortened(
            dispatch_text(target_user_id, operator_user_id, operator_display_name@, task@),
            2000,
        ),
{
    let mut s = String::new();
    push_mention(&mut s, target_user_id);
    s.append(" ");
    s.append(operator_display_name);
    s.append(" (");
    push_mention(&mut s, operator_user_id);
    s.append(") asked via voice:\n");
    s.append(task);
    assert(s@ =~= dispatch_text(
        target_user_id,
        operator_user_id,
        operator_display_name@,
        task@,
    ));
    bounded_discord_message(s)
}

/// A mention followed by a fixed text, cut to what Discord takes.
pub open spec fn notice(operator: u64, text: Seq<char>) -> Seq<char> {
    shortened(mention(operator) + text, 2000)
}

fn notice_message(operator_user_id: u64, text: &str) -> (r: String)
    ensures
        r@ == notice(operator_user_id, text@),
{
    let mut s = String::new();
    push_mention(&mut s, operator_user_id);
    s.append(text);
    assert(s@ =~= mention(operator_user_id) + text@);
    bounded_discord_message(s)
}

/// Says that an intent was cancelled.
pub fn cancelled_message(operator_user_id: u64) -> (r: String)
    ensures
        r@ == notice(operator_user_id, " 已取消這次語音任務。"@),
{
    notice_message(operator_user_id, " 已取消這次語音任務。")
}

/// Says that nobody confirmed an intent in time.
pub fn expired_message(operator_user_id: u64) -> (r: String)
    ensures
        r@ == notice(operator_user_id, " 語音任務確認已逾時，未送出或執行任何指令。"@),
{
    notice_message(operator_user_id, " 語音任務確認已逾時，未送出或執行任何指令。")
}

/// Says how a correction is written.
pub fn correction_guidance_message(operator_user_id: u64) -> (r: String)
    ensures
        r@ == notice(
            operator_user_id,
            " 我沒有理解這個修正；請用「更正：請 Sam review PR #123」委派，或用「更正：幫我 review PR #123」改由我處理。"@,
        ),
{
    notice_message(
        operator_user_id,
        " 我沒有理解這個修正；請用「更正：請 Sam review PR #123」委派，或用「更正：幫我 review PR #123」改由我處理。",
    )
}

/// The words of a text that are complete, and the word that is still open.
pub open spec fn word_state(s: Seq<char>) -> (Seq<Seq<char>>, Seq<char>)
    decreases s.len(),
{
    if s.len() == 0 {
        (Seq::empty(), Seq::empty())
    } else {
        let (words, open) = word_state(s.drop_last());
        if !text::is_white(s.last()) {
            (words, open.push(s.last()))
        } else if open.len() > 0 {
            (words.push(open), Seq::empty())
        } else {
            (words, open)
        }
    }
}

/// The words of a text: what stands between white space.
pub open spec fn words(s: Seq<char>) -> Seq<Seq<char>> {
    let (words, open) = word_state(s);
    if open.len() > 0 {
        words.push(open)
    } else {
        words
    }
}

/// A text in which no `@` can start a mention: a zero-width space follows each.
pub open spec fn defused(s: Seq<char>) -> Seq<char>
    decreases s.len(),
{
    if s.len() == 0 {
        Seq::empty()
    } else if s.last() == '@' {
        defused(s.drop_last()).push('@').push('\u{200b}')
    } else {
        defused(s.drop_last()).push(s.last())
    }
}

/// The name under which an operator is shown: on one line, unable to mention anybody, and the
/// operator's id where nothing is left of it.
pub open spec fn shown_name(name: Seq<char>, operator: u64) -> Seq<char> {
    let shown = defused(text::joined(words(name), " "@));
    if shown.len() == 0 {
        text::decimal(operator as nat)
    } else {
        shown
    }
}

/// Splits a text into its words.
pub fn split_words(s: &str) -> (r: Vec<String>)
    ensures
        text::strings(r@) == words(s@),
{
    let chars = text::to_chars(s);
    let mut done: Vec<String> = Vec::new();
    let mut open = String::new();
    let mut i: usize = 0;
    assert(chars@.take(0) =~= Seq::empty());
    assert(text::strings(done@) =~= Seq::empty());
    assert(open@ =~= Seq::empty());
    while i < chars.len()
        invariant
            i <= chars@.len(),
            (text::strings(done@), open@) == word_state(chars@.take(i as int)),
        decreases chars@.len() - i,
    {
        assert(chars@.take(i + 1).drop_last() =~= chars@.take(i as int));
        if !text::is_whitespace(chars[i]) {
            open.push(chars[i]);
        } else if !open.as_str().is_empty() {
            let ghost before = done@;
            let mut word = String::new();
            std::mem::swap(&mut word, &mut open);
            done.push(word);
            assert(text::strings(done@) =~= text::strings(before).push(word@));
            assert(open@ =~= Seq::empty());
        }
        i = i + 1;
    }
    assert(chars@.take(chars@.len() as int) =~= s@);
    if !open.as_str().is_empty() {
        let ghost before = done@;
        done.push(open);
        assert(text::strings(done@) =~= text::strings(before).push(open@));
    }
    done
}

/// Prepares the name under which an operator is shown.
pub fn sanitize_display_name(name: &str, operator_user_id: u64) -> (r: String)
    ensures
        r@ == shown_name(name@, operator_user_id),
{
    let parts = split_words(name);
    let line = text::join(parts.as_slice(), " ");
    let chars = text::to_chars(line.as_str());
    let mut shown = String::new();
    let mut i: usize = 0;
    assert(chars@.take(0) =~= Seq::empty());
    assert(shown@ =~= Seq::empty());
    while i < chars.len()
        invariant
            i <= chars@.len(),
            shown@ == defused(chars@.take(i as int)),
        decreases chars@.len() - i,
    {
        assert(chars@.take(i + 1).drop_last() =~= chars@.take(i as int));
        shown.push(chars[i]);
        if chars[i] == '@' {
            shown.push('\u{200b}');
        }
        i = i + 1;
    }
    assert(chars@.take(chars@.len() as int) =~= chars@);
    if shown.as_str().is_empty() {
        text::decimal_string(operator_user_id)
    } else {
        shown
    }
}

/// What the confirmation of a task says, before it is cut.
pub open spec fn confirmation_text(
    operator: u64,
    destination: IntentDestination,
    targets: Seq<IntentTarget>,
    task: Seq<char>,
) -> Seq<char> {
    match destination {
        IntentDestination::Delegate { target_index } => delegate_confirmation(
            operator,
            targets[target_index as int].canonical@,
            task,
        ),
        IntentDestination::Local => local_confirmation(operator, task),
    }
}

/// Whether a destination is one that there is.
pub open spec fn known_destination(destination: IntentDestination, targets: Seq<IntentTarget>) -> bool {
    destination matches IntentDestination::Delegate { target_index } ==> target_index
        < targets.len()
}

/// How many characters of the two messages about a task are not the task.
pub open spec fn message_overhead(
    operator: u64,
    operator_name: Seq<char>,
    destination: IntentDestination,
    targets: Seq<IntentTarget>,
) -> nat {
    let confirmation = shortened(
        confirmation_text(operator, destination, targets, Seq::empty()),
        2000,
    ).len();
    let dispatch = match destination {
        IntentDestination::Delegate { target_index } => shortened(
            dispatch_text(
                targets[target_index as int].discord_user_id,
                operator,
                operator_name,
                Seq::empty(),
            ),
            2000,
        ).len(),
        IntentDestination::Local => 0,
    };
    if confirmation > dispatch {
        confirmation
    } else {
        dispatch
    }
}

/// How many characters a task can have so that both messages about it fit.
pub open spec fn task_room(
    operator: u64,
    operator_name: Seq<char>,
    destination: IntentDestination,
    targets: Seq<IntentTarget>,
) -> int {
    2000 - message_overhead(operator, operator_name, destination, targets)
}

/// The task as it is confirmed and carried out. Where there is no such destination, or the names
/// around the task leave no room to speak of, there is none.
pub open spec fn canonical_task(
    operator: u64,
    operator_name: Seq<char>,
    destination: IntentDestination,
    targets: Seq<IntentTarget>,
    task: Seq<char>,
) -> Option<Seq<char>> {
    let room = task_room(operator, operator_name, destination, targets);
    if !known_destination(destination, targets) || room < 16 {
        None
    } else {
        Some(shortened(task, room as nat))
    }
}

/// Asks for the confirmation of a task.
pub fn confirmation_message_for(
    operator_user_id: u64,
    destination: IntentDestination,
    targets: &Vec<IntentTarget>,
    task: &str,
) -> (r: Option<String>)
    ensures
        match r {
            Some(s) => known_destination(destination, targets@) && s@ == shortened(
                confirmation_text(operator_user_id, destination, targets@, task@),
                2000,
            ),
            None => !known_destination(destination, targets@),
        },
{
    match destination {
        IntentDestination::Delegate { target_index } => {
            if target_index >= targets.len() {
                return None;
            }
            Some(
                delegate_confirmation_message(
                    operator_user_id,
                    targets[target_index].canonical.as_str(),
                    task,
                ),
            )
        },
        IntentDestination::Local => Some(local_confirmation_message(operator_user_id, task)),
    }
}

/// Cuts the task of a proposal so that both messages about it fit.
pub fn canonicalize_proposal(
    operator_user_id: u64,
    operator_display_name: &str,
    proposal: IntentProposal,
    targets: &Vec<IntentTarget>,
) -> (r: Option<IntentProposal>)
    ensures
        match canonical_task(
            operator_user_id,
            operator_display_name@,
            proposal.destination,
            targets@,
            proposal.task@,
        ) {
            Some(task) => r matches Some(p) && p.destination == proposal.destination && p.task@
                == task,
            None => r is None,
        },
{
    proof {
        reveal_strlit("");
        assert(""@ =~= Seq::empty());
    }
    let confirmation = match confirmation_message_for(
        operator_user_id,
        proposal.destination,
        targets,
        "",
    ) {
        Some(message) => message.as_str().unicode_len(),
        None => return None,
    };
    let dispatch = match proposal.destination {
        IntentDestination::Delegate { target_index } => dispatch_message(
            targets[target_index].discord_user_id,
            operator_user_id,
            operator_display_name,
            "",
        ).as_str().unicode_len(),
        IntentDestination::Local => 0,
    };
    let overhead = if confirmation > dispatch {
        confirmation
    } else {
        dispatch
    };
    let room = DISCORD_MESSAGE_LIMIT - overhead;
    if room < 16 {
        return None;
    }
    let task = canonicalize_task(proposal.task.as_str(), room);
    Some(IntentProposal { destination: proposal.destination, task })
}

/// What the operator confirms is what is carried out: neither the confirmation of a canonical
/// task nor the message that dispatches it is cut, so both hold the task as it is.
pub proof fn lemma_canonical_task_is_shown_in_full(
    operator: u64,
    operator_name: Seq<char>,
    destination: IntentDestination,
    targets: Seq<IntentTarget>,
    task: Seq<char>,
)
    requires
        canonical_task(operator, operator_name, destination, targets, task) is Some,
    ensures
        ({
            let shown = canonical_task(operator, operator_name, destination, targets, task)->0;
            let confirmation = confirmation_text(operator, destination, targets, shown);
            &&& shortened(confirmation, 2000) == confirmation
            &&& text::holds_text(confirmation, shown)
            &&& destination matches IntentDestination::Delegate { target_index } ==> {
                let dispatch = dispatch_text(
                    targets[target_index as int].discord_user_id,
                    operator,
                    operator_name,
                    shown,
                );
                shortened(dispatch, 2000) == dispatch && text::finishes_with(dispatch, shown)
            }
        }),
{
    let shown = canonical_task(operator, operator_name, destination, targets, task)->0;
    let confirmation = confirmation_text(operator, destination, targets, shown);
    match destination {
        IntentDestination::Delegate { target_index } => {
            let target = targets[target_index as int];
            let before = mention(operator) + " 我理解為：要請 "@ + target.canonical@ + " "@;
            assert(confirmation.subrange(
                before.len() as int,
                before.len() + shown.len() as int,
            ) =~= shown);
            assert(text::occurs_at(confirmation, shown, before.len() as int));
            let dispatch = dispatch_text(target.discord_user_id, operator, operator_name, shown);
            assert(dispatch.subrange(dispatch.len() - shown.len(), dispatch.len() as int)
                =~= shown);
        },
        IntentDestination::Local => {
            let before = mention(operator) + " 我理解為：由我直接處理「"@;
            assert(confirmation.subrange(
                before.len() as int,
                before.len() + shown.len() as int,
            ) =~= shown);
            assert(text::occurs_at(confirmation, shown, before.len() as int));
        },
    }
}

} // verus!
