//! What callers get of spoken commands: who is meant, and what they are to do.

use vstd::prelude::*;
use vstd::string::*;
use crate::discord_voice_intent::language;
use crate::discord_voice_intent::messages;
use crate::discord_voice_intent::targets;
use crate::discord_voice_intent::targets::{
    IntentDestination, IntentProposal, IntentTarget, TargetMatch,
};
use crate::laws::broker;
use crate::laws::characters;
use crate::laws::characters::{all_in, any_case_of, firm};
use crate::laws::commands;
use crate::laws::targets::{
    lemma_corrections, lemma_fillers, lemma_names_are_found, lemma_no_other_fillers,
    lemma_one_target, lemma_proposals, lemma_tasks, named_at, wordy,
};
use crate::text;
use crate::text::CharClass;

verus! {

/// A task is what is left without separators around it and without the words that lead up to it:
/// it is the task of what follows such a word.
pub proof fn lemma_tasks_are_cleaned(
    s: &[char],
    rest: &[char],
    word: Seq<char>,
    w: Seq<char>,
    r: Option<&[char]>,
    t: Option<&[char]>,
)
    requires
        call_ensures(language::clean_task, (s,), r),
        call_ensures(language::clean_task, (rest,), t),
        language::bare(s@) == w + rest@,
        any_case_of(w, word),
        word == "請幫我"@ || word == "请帮我"@ || word == "幫我"@ || word == "帮我"@ || ((word
            == "to"@ || word == "please"@) && (rest@.len() == 0 || !wordy(rest@[0]))),
    ensures
        r is Some <==> t is Some,
        r is Some ==> r->0@ == t->0@,
{
    lemma_fillers(word, w, rest@);
    lemma_tasks(s@);
}

/// A text that does not begin with such a word is a task as it is, without the separators around
/// it, unless nothing is left.
pub proof fn lemma_plain_tasks_are_kept(s: &[char], r: Option<&[char]>)
    requires
        call_ensures(language::clean_task, (s,), r),
        language::bare(s@).len() > 0 ==> {
            let n = language::bare(s@)[0] as int;
            n != 0x8acb && n != 0x8bf7 && n != 0x5e6b && n != 0x5e2e && n != 0x53bb && n != 84 && n
                != 116 && n != 80 && n != 112
        },
    ensures
        r is Some <==> language::bare(s@).len() > 0,
        r is Some ==> r->0@ == language::bare(s@),
{
    lemma_no_other_fillers(language::bare(s@));
    lemma_tasks(s@);
}

/// A name is found where it stands first, and a name made of word characters only where it is a
/// word of its own.
pub proof fn lemma_first_names_are_found(s: &[char], alias: &[char], r: Option<usize>)
    requires
        call_ensures(targets::find_alias, (s, alias), r),
        alias@.len() > 0,
    ensures
        r is Some ==> named_at(s@, alias@, r->0 as int) && forall|j: int|
            0 <= j < r->0 ==> !#[trigger] named_at(s@, alias@, j),
        r is None ==> forall|j: int| 0 <= j ==> !#[trigger] named_at(s@, alias@, j),
{
    lemma_names_are_found(s@, alias@, 0);
}

/// A text means a target when it names that one and no other.
pub proof fn lemma_one_target_is_meant(
    s: &[char],
    all: &Vec<IntentTarget>,
    r: TargetMatch,
    any: bool,
    i: int,
)
    requires
        call_ensures(targets::find_target_match, (s, all), r),
        call_ensures(targets::mentions_any_target, (s, all), any),
        0 <= i < all@.len(),
    ensures
        ({
            let span = targets::name_span(s@, text::strings(all@[i].aliases@));
            &&& r@ is Nobody ==> span is None && !any
            &&& r@ is Delegate && r@->target == i ==> span == Some((r@->start, r@->end))
            &&& r@ is Delegate && r@->target != i ==> span is None
            &&& !(r@ is Nobody) ==> any
        }),
{
    let names = targets::target_names(all@);
    lemma_one_target(s@, names);
    assert(names[i] == text::strings(all@[i].aliases@));
}

/// Work is for nobody when two are named. When nobody is named, it is for the voice agent, where
/// that takes work.
pub proof fn lemma_work_needs_one_target(
    s: &str,
    all: &Vec<IntentTarget>,
    local: bool,
    r: Option<IntentProposal>,
)
    requires
        call_ensures(targets::resolve_proposal, (s, all, local), r),
    ensures
        ({
            let named = targets::named_target(targets::lowered(s@), targets::target_names(all@));
            let task = language::local_task(s@);
            &&& named is Ambiguous ==> r is None
            &&& named is Nobody && !local ==> r is None
            &&& named is Nobody && local ==> (r is Some <==> task is Some)
            &&& named is Nobody && r is Some ==> r->0.destination is Local && r->0.task@ == task->0
            &&& r is Some && r->0.destination is Local ==> local && r->0.task@ == task->0
            &&& r is Some && r->0.destination is Delegate ==> named is Delegate && named->target
                == r->0.destination->target_index && language::prefix_allowed(
                targets::lowered(s@).take(named->start),
            )
        }),
{
    lemma_proposals(
        s@,
        targets::lowered(s@),
        targets::lowered_starts(s@),
        targets::target_names(all@),
        local,
    );
    lemma_one_target(targets::lowered(s@), targets::target_names(all@));
    assert(targets::target_names(all@).len() == all@.len());
    assert(all.len() == all@.len());
    assert(targets::proposal_model(r) == targets::proposal_of(
        s@,
        targets::target_names(all@),
        local,
    ));
    if r is Some {
        assert(targets::proposal_model(r)->0 == r->0@);
    }
}

/// A correction that says where its work goes is taken as it is; one that does not keeps the work
/// where it was. One that names a target without being a command to it is refused.
pub proof fn lemma_corrections_are_applied(
    current: IntentDestination,
    correction: &str,
    all: &Vec<IntentTarget>,
    local: bool,
    r: Option<IntentProposal>,
    alone: Option<IntentProposal>,
    names: bool,
)
    requires
        call_ensures(targets::resolve_correction, (current, correction, all, local), r),
        call_ensures(targets::resolve_proposal, (correction, all, local), alone),
        call_ensures(targets::text_mentions_any_target, (correction, all), names),
    ensures
        ({
            let asks = language::local_request(language::bare(correction@)) is Some;
            &&& alone is Some && (alone->0.destination is Delegate || asks) ==> r is Some
                && r->0.destination == alone->0.destination && r->0.task@ == alone->0.task@
            &&& alone is Some && alone->0.destination is Local && !asks ==> r is Some
                && r->0.destination == current && r->0.task@ == alone->0.task@
            &&& alone is None && names ==> r is None
            &&& alone is None && !names ==> (r is Some <==> language::task_of(correction@) is Some)
            &&& alone is None && r is Some ==> r->0.destination == current && Some(r->0.task@)
                == language::task_of(correction@)
        }),
{
    lemma_corrections(
        current,
        correction@,
        targets::proposal_model(alone),
        names,
        targets::target_names(all@),
        local,
    );
    if r is Some {
        assert(targets::proposal_model(r)->0 == r->0@);
    }
    if alone is Some {
        assert(targets::proposal_model(alone)->0 == alone->0@);
    }
}

/// The words that may stand before a name are those that hand work on, in any punctuation.
pub proof fn lemma_only_addresses_hand_work_on(
    prefix: &[char],
    r: bool,
    word: Seq<char>,
    a: Seq<char>,
    u: Seq<char>,
    v: Seq<char>,
    b: Seq<char>,
)
    requires
        call_ensures(language::command_prefix_allowed, (prefix,), r),
        prefix@ == a + u + word + v + b,
        all_in(a, CharClass::CommandSeparator),
        all_in(b, CharClass::CommandSeparator),
        all_in(u, CharClass::White),
        all_in(v, CharClass::White),
        firm(word, CharClass::White),
        firm(word, CharClass::CommandSeparator),
    ensures
        r <==> word == "請"@ || word == "请"@ || word == "叫"@ || word == "讓"@ || word == "让"@ || word
            == "麻煩"@ || word == "麻烦"@ || word == "幫我叫"@ || word == "帮我叫"@ || word == "幫我請"@
            || word == "帮我请"@ || word == "請幫我叫"@ || word == "请帮我叫"@ || word == "可以請"@ || word
            == "可以请"@ || word == "你幫我叫"@ || word == "你帮我叫"@ || word == "please"@ || word
            == "ask"@ || word == "tell"@ || word == "please ask"@ || word == "please tell"@ || word
            == "have"@ || word == "get"@,
{
    commands::lemma_addresses(word, a, u, v, b);
}

/// A request to the voice agent is recognised by its opening words, and what follows them is what
/// it asks for.
pub proof fn lemma_requests_are_recognised(
    s: &[char],
    r: Option<&[char]>,
    word: Seq<char>,
    w: Seq<char>,
    rest: Seq<char>,
)
    requires
        call_ensures(language::strip_local_request_prefix, (s,), r),
        s@ == w + rest,
        any_case_of(w, word),
        word == "麻煩你幫我"@ || word == "麻烦你帮我"@ || word == "可以請你幫我"@ || word == "可以请你帮我"@
            || word == "請你幫我"@ || word == "请你帮我"@ || word == "麻煩幫我"@ || word == "麻烦帮我"@
            || word == "可以幫我"@ || word == "可以帮我"@ || word == "請幫我"@ || word == "请帮我"@ || word
            == "你幫我"@ || word == "你帮我"@ || word == "幫我"@ || word == "帮我"@ || ((word
            == "could you"@ || word == "can you"@ || word == "please"@) && (rest.len() == 0 || !({
            let n = rest[0] as int;
            48 <= n <= 57 || 65 <= n <= 90 || 97 <= n <= 122 || n == 95
        }))),
    ensures
        r is Some,
        r->0@ == rest,
{
    commands::lemma_requests(word, w, rest);
}

/// Work for the voice agent is what a request asks for, or a command that begins with an action;
/// anything else is none.
pub proof fn lemma_local_work_is_asked_for(
    s: &[char],
    core: &[char],
    r: Option<String>,
    request: Option<&[char]>,
    action: bool,
    rest: &[char],
    task: Option<&[char]>,
    whole: Option<&[char]>,
)
    requires
        call_ensures(language::resolve_local_task, (s,), r),
        core@ == language::bare(s@),
        call_ensures(language::strip_local_request_prefix, (core,), request),
        call_ensures(language::starts_with_local_action, (core,), action),
        request is Some ==> rest@ == request->0@,
        call_ensures(language::clean_task, (rest,), task),
        call_ensures(language::clean_task, (core,), whole),
    ensures
        request is Some ==> (r is Some <==> task is Some) && (r is Some ==> r->0@ == task->0@),
        request is None && action ==> (r is Some <==> whole is Some) && (r is Some ==> r->0@
            == whole->0@),
        request is None && !action ==> r is None,
{
    crate::laws::targets::lemma_local_tasks(s@);
}

/// A command begins with an action when its first word is one of these, whatever its case.
pub proof fn lemma_actions_are_recognised(s: &[char], r: bool)
    requires
        call_ensures(language::starts_with_local_action, (s,), r),
        s@.len() == 0 || s@[0] as int != 0x5148,
    ensures
        ({
            let c = text::ascii_lowered(s@);
            r <==> commands::leads(c, "檢查"@) || commands::leads(c, "检查"@) || commands::leads(
                c,
                "執行"@,
            ) || commands::leads(c, "执行"@) || commands::leads(c, "修復"@) || commands::leads(
                c,
                "修复"@,
            ) || commands::leads(c, "整理"@) || commands::leads(c, "總結"@) || commands::leads(
                c,
                "总结"@,
            ) || commands::leads(c, "調查"@) || commands::leads(c, "调查"@) || commands::leads(
                c,
                "查看"@,
            ) || commands::leads_as_word(c, "review"@) || commands::leads_as_word(c, "check"@)
                || commands::leads_as_word(c, "inspect"@) || commands::leads_as_word(c, "run"@)
                || commands::leads_as_word(c, "fix"@) || commands::leads_as_word(c, "summarize"@)
                || commands::leads_as_word(c, "analyse"@) || commands::leads_as_word(c, "analyze"@)
        }),
{
    commands::lemma_actions(s@);
}

/// Names are shown in one line, with single spaces and with nobody mentioned; a name without any
/// word is shown as the user's number.
pub proof fn lemma_names_are_shown_safely(name: &str, user: u64, r: String, i: int)
    requires
        call_ensures(messages::sanitize_display_name, (name, user), r),
        messages::words(name@).len() > 0,
        0 <= i < r@.len(),
        r@[i] as int == 64,
    ensures
        i + 1 < r@.len(),
        r@[i + 1] as int == 0x200b,
{
    broker::lemma_names_mention_nobody(text::joined(messages::words(name@), " "@), 'a', user);
    broker::lemma_names_mention_nobody(name@, 'a', user);
}

/// The marks of prompts and of dispatches differ, and both are 25 characters long.
pub proof fn lemma_marks_differ(id: u128, other: u128, r: String, s: String)
    requires
        call_ensures(messages::dispatch_nonce, (id,), r),
        call_ensures(messages::confirmation_nonce, (other,), s),
    ensures
        r@ != s@,
        r@.len() == 25,
        s@.len() == 25,
        r@.take(5) == "oabv1"@,
        s@.take(5) == "oabp1"@,
{
    reveal_strlit("oabv1");
    reveal_strlit("oabp1");
    broker::lemma_ids_are_written(0, 0, 0, "oabv1"@, id);
    broker::lemma_ids_are_written(0, 0, 0, "oabp1"@, other);
    assert("oabv1"@[3] == 'v');
    assert("oabp1"@[3] == 'p');
    assert(r@.take(5)[3] == 'v');
    assert(s@.take(5)[3] == 'p');
}

/// A work item's mark depends on nothing but its id, of which it holds the first twenty
/// hexadecimal digits.
pub proof fn lemma_marks_hold_the_id(id: u128, r: String, s: String)
    requires
        call_ensures(messages::dispatch_nonce, (id,), r),
        call_ensures(messages::confirmation_nonce, (id,), s),
    ensures
        r@.skip(5) == s@.skip(5),
        r@.skip(5) == messages::hex_digits(id as nat, 32).take(20),
{
    reveal_strlit("oabv1");
    reveal_strlit("oabp1");
    broker::lemma_ids_are_written(0, 0, 0, "oabv1"@, id);
    broker::lemma_ids_are_written(0, 0, 0, "oabp1"@, id);
}

/// White space and separators around a text make no difference to what is left of it.
pub proof fn lemma_texts_are_bared(
    s: &[char],
    r: &[char],
    p: Seq<char>,
    core: Seq<char>,
    q: Seq<char>,
)
    requires
        call_ensures(language::trim_bare, (s,), r),
        s@ == p + core + q,
        all_in(p, CharClass::CommandGap),
        all_in(q, CharClass::CommandGap),
        firm(core, CharClass::CommandGap),
    ensures
        r@ == core,
{
    crate::laws::targets::lemma_commands_are_bared(p, core, q);
}

/// Numbers are written in decimal and read back as they were.
pub proof fn lemma_numbers_survive(n: u64, s: String, chars: &[char], r: Option<u64>)
    requires
        call_ensures(text::decimal_string, (n,), s),
        chars@ == s@,
        call_ensures(text::parse_u64, (chars,), r),
    ensures
        r == Some(n),
{
    characters::lemma_numbers_are_read(n as nat, Seq::empty(), 0);
}

/// White space at either end is trimmed, and nothing else is.
pub proof fn lemma_white_space_is_trimmed(
    s: &[char],
    r: &[char],
    p: Seq<char>,
    core: Seq<char>,
    q: Seq<char>,
    blank: bool,
    whole: &str,
)
    requires
        call_ensures(text::trim_white, (s,), r),
        s@ == p + core + q,
        all_in(p, CharClass::White),
        all_in(q, CharClass::White),
        firm(core, CharClass::White),
        call_ensures(text::is_blank, (whole,), blank),
        whole@ == s@,
    ensures
        r@ == core,
        !blank,
{
    characters::lemma_trimming_bares(p, core, q, CharClass::White);
    assert(s@[p.len() as int] == core[0]);
}

/// A command is explicitly for the voice agent when it opens with a request to it.
pub proof fn lemma_explicit_requests_are_seen(
    s: &[char],
    core: &[char],
    r: bool,
    request: Option<&[char]>,
)
    requires
        core@ == language::bare(s@),
        call_ensures(language::has_explicit_local_prefix, (s,), r),
        call_ensures(language::strip_local_request_prefix, (core,), request),
    ensures
        r <==> request is Some,
{
}

/// What a correction comes to depends on what it was resolved to: a command to a target, or a
/// request to the voice agent, goes where it says; other work keeps the destination.
pub proof fn lemma_corrections_follow_their_resolution(
    current: IntentDestination,
    correction: &str,
    resolved: Option<IntentProposal>,
    names: bool,
    r: Option<IntentProposal>,
)
    requires
        call_ensures(targets::apply_correction, (current, correction, resolved, names), r),
    ensures
        ({
            let asks = language::local_request(language::bare(correction@)) is Some;
            &&& resolved is Some ==> r is Some && r->0.task@ == resolved->0.task@
            &&& resolved is Some && (resolved->0.destination is Delegate || asks)
                ==> r->0.destination == resolved->0.destination
            &&& resolved is Some && resolved->0.destination is Local && !asks
                ==> r->0.destination == current
            &&& resolved is None && names ==> r is None
            &&& resolved is None && !names ==> (r is Some <==> language::task_of(correction@)
                is Some)
            &&& resolved is None && r is Some ==> r->0.destination == current && Some(r->0.task@)
                == language::task_of(correction@)
        }),
{
    if r is Some {
        assert(targets::proposal_model(r)->0 == r->0@);
    }
    if resolved is Some {
        assert(targets::proposal_model(resolved)->0 == resolved->0@);
    }
}

} // verus!
