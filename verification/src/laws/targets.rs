//! Tasks and targets: what is left of a command, whom it names, and the work that it comes to.

use vstd::prelude::*;
use vstd::string::*;
use crate::discord_voice_intent::language;
use crate::discord_voice_intent::targets;
use crate::discord_voice_intent::targets::{IntentDestination, ProposalModel, TargetModel};
use crate::laws::characters;
use crate::laws::characters::{all_in, any_case_of, firm};
use crate::laws::commands::no_capital;
use crate::text;
use crate::text::CharClass;

verus! {

/// Whether a character is a letter, a digit or an underscore of ASCII.
pub open spec fn wordy(c: char) -> bool {
    let n = c as int;
    48 <= n <= 57 || 65 <= n <= 90 || 97 <= n <= 122 || n == 95
}

/// What stands around a command is no part of it.
pub proof fn lemma_commands_are_bared(p: Seq<char>, core: Seq<char>, q: Seq<char>)
    requires
        all_in(p, CharClass::CommandGap),
        all_in(q, CharClass::CommandGap),
        firm(core, CharClass::CommandGap),
    ensures
        language::bare(p + core + q) == core,
{
    characters::lemma_trimming_bares(p, core, q, CharClass::CommandGap);
    let none = Seq::<char>::empty();
    assert(none + core + none =~= core);
    characters::lemma_trimming_bares(none, core, none, CharClass::White);
}

proof fn lemma_filler_words()
    ensures
        forall|i: int|
            0 <= i < 9 ==> no_capital((#[trigger] language::leading_fillers()[i])@),
        language::all_letters("to"@),
        language::all_letters("please"@),
        forall|i: int|
            0 <= i < 7 ==> !language::all_letters((#[trigger] language::leading_fillers()[i])@),
        !language::is_loose_filler("請"@),
        !language::is_loose_filler("请"@),
        !language::is_loose_filler("去"@),
{
    reveal_strlit("請幫我");
    reveal_strlit("请帮我");
    reveal_strlit("幫我");
    reveal_strlit("帮我");
    reveal_strlit("請");
    reveal_strlit("请");
    reveal_strlit("去");
    reveal_strlit("to");
    reveal_strlit("please");
    assert forall|i: int| 0 <= i < 7 implies !language::all_letters(
        (#[trigger] language::leading_fillers()[i])@,
    ) by {
        assert(!text::is_ascii_letter(language::leading_fillers()[i]@[0]));
    }
    assert("請"@.len() == 1 && "请"@.len() == 1 && "去"@.len() == 1);
    assert("請幫我"@.len() == 3 && "请帮我"@.len() == 3 && "幫我"@.len() == 2 && "帮我"@.len() == 2);
}

proof fn lemma_filler_at(s: Seq<char>, fillers: Seq<&str>, k: int)
    requires
        0 <= k < fillers.len(),
        forall|i: int|
            0 <= i < fillers.len() && i != k ==> language::after_filler(
                s,
                (#[trigger] fillers[i])@,
            ) is None,
    ensures
        language::after_first_filler(s, fillers) == language::after_filler(s, fillers[k]@),
    decreases fillers.len(),
{
    let later = fillers.skip(1);
    assert forall|i: int| 0 <= i < later.len() implies later[i] == fillers[i + 1] by {}
    if k > 0 {
        assert(language::after_filler(s, fillers[0]@) is None);
        assert forall|i: int| 0 <= i < later.len() && i != k - 1 implies language::after_filler(
            s,
            (#[trigger] later[i])@,
        ) is None by {
            assert(later[i] == fillers[i + 1]);
        }
        lemma_filler_at(s, later, k - 1);
    } else if language::after_filler(s, fillers[0]@) is None {
        assert forall|i: int| 0 <= i < later.len() implies language::after_filler(
            s,
            (#[trigger] later[i])@,
        ) is None by {
            assert(later[i] == fillers[i + 1]);
        }
        lemma_no_filler(s, later);
    }
}

proof fn lemma_no_filler(s: Seq<char>, fillers: Seq<&str>)
    requires
        forall|i: int|
            0 <= i < fillers.len() ==> language::after_filler(s, (#[trigger] fillers[i])@) is None,
    ensures
        language::after_first_filler(s, fillers) is None,
    decreases fillers.len(),
{
    if fillers.len() > 0 {
        assert(language::after_filler(s, fillers[0]@) is None);
        let later = fillers.skip(1);
        assert forall|i: int| 0 <= i < later.len() implies language::after_filler(
            s,
            (#[trigger] later[i])@,
        ) is None by {
            assert(later[i] == fillers[i + 1]);
        }
        lemma_no_filler(s, later);
    }
}

/// Fillers before a task are no part of it. After words like "help me" anything may follow; a bare
/// "please" or "go" in Chinese is followed by a gap, a letter or a digit, and an English filler is
/// a word of its own.
pub proof fn lemma_fillers(word: Seq<char>, w: Seq<char>, rest: Seq<char>)
    requires
        any_case_of(w, word),
    ensures
        word == "請幫我"@ || word == "请帮我"@ || word == "幫我"@ || word == "帮我"@
            ==> language::after_first_filler(w + rest, language::leading_fillers()) == Some(rest),
        (word == "請"@ || word == "请"@ || word == "去"@) && (rest.len() == 0 || rest[0] as int
            != 0x5e6b && rest[0] as int != 0x5e2e) ==> language::after_first_filler(
            w + rest,
            language::leading_fillers(),
        ) == if rest.len() == 0 || CharClass::CommandGap.has(rest[0]) || (wordy(rest[0])
            && rest[0] as int != 95) {
            Some(rest)
        } else {
            None
        },
        word == "to"@ || word == "please"@ ==> language::after_first_filler(
            w + rest,
            language::leading_fillers(),
        ) == if rest.len() == 0 || !wordy(rest[0]) {
            Some(rest)
        } else {
            None
        },
{
    reveal_strlit("請幫我");
    reveal_strlit("请帮我");
    reveal_strlit("幫我");
    reveal_strlit("帮我");
    reveal_strlit("請");
    reveal_strlit("请");
    reveal_strlit("去");
    reveal_strlit("to");
    reveal_strlit("please");
    lemma_filler_words();
    let all = language::leading_fillers();
    assert(all[0] == "請幫我" && all[1] == "请帮我" && all[2] == "幫我" && all[3] == "帮我" && all[4]
        == "請" && all[5] == "请" && all[6] == "去" && all[7] == "to" && all[8] == "please");
    if exists|k: int| 0 <= k < 9 && (#[trigger] all[k])@ == word {
        let k = choose|k: int| 0 <= k < 9 && (#[trigger] all[k])@ == word;
        let s = w + rest;
        let l = text::ascii_lowered(s);
        characters::lemma_lower_case(w, word);
        characters::lemma_lower_case(s, word);
        assert(l.subrange(0, word.len() as int) =~= text::ascii_lowered(w));
        assert(text::begins_with(l, word));
        assert(s.skip(word.len() as int) =~= rest);
        assert(l[0] == word[0]) by {
            assert(l.subrange(0, word.len() as int)[0] == l[0]);
        }
        if word.len() > 1 {
            assert(l.subrange(0, word.len() as int)[1] == l[1]);
        }
        if rest.len() > 0 {
            characters::lemma_word_characters(rest[0]);
            let n = word.len() as int;
            assert(s[n] == rest[0]);
            assert(l[n] as int == if 65 <= rest[0] as int <= 90 {
                rest[0] as int + 32
            } else {
                rest[0] as int
            });
        }
        assert forall|i: int| 0 <= i < all.len() && text::begins_with(l, (#[trigger] all[i])@)
            implies all[i]@[0] == l[0] && (all[i]@.len() > 1 ==> l.len() > 1 && all[i]@[1]
            == l[1]) by {
            let x = l.subrange(0, all[i]@.len() as int);
            assert(x[0] == l[0]);
            assert(x.len() > 1 ==> x[1] == l[1]);
        }
        if k == 0 || k == 1 {
            lemma_first_filler_wins(s, all, k, rest);
        } else if word.len() == 1 && rest.len() > 0 && (rest[0] as int == 0x5e6b || rest[0] as int
            == 0x5e2e) {
        } else {
            assert forall|i: int| 0 <= i < all.len() && i != k implies language::after_filler(
                s,
                (#[trigger] all[i])@,
            ) is None by {
                assert(!text::begins_with(l, all[i]@));
            }
            lemma_filler_at(s, all, k);
        }
    }
}

proof fn lemma_first_filler_wins(s: Seq<char>, fillers: Seq<&str>, k: int, rest: Seq<char>)
    requires
        0 <= k < fillers.len(),
        language::after_filler(s, fillers[k]@) == Some(rest),
        forall|i: int|
            0 <= i < k ==> language::after_filler(s, (#[trigger] fillers[i])@) is None,
    ensures
        language::after_first_filler(s, fillers) == Some(rest),
    decreases k,
{
    if k > 0 {
        assert(language::after_filler(s, fillers[0]@) is None);
        let later = fillers.skip(1);
        assert(later[k - 1] == fillers[k]);
        assert forall|i: int| 0 <= i < k - 1 implies language::after_filler(
            s,
            (#[trigger] later[i])@,
        ) is None by {
            assert(later[i] == fillers[i + 1]);
        }
        lemma_first_filler_wins(s, later, k - 1, rest);
    }
}

/// A text that starts with none of these words has no filler.
pub proof fn lemma_no_other_fillers(s: Seq<char>)
    requires
        s.len() > 0 ==> {
            let n = s[0] as int;
            n != 0x8acb && n != 0x8bf7 && n != 0x5e6b && n != 0x5e2e && n != 0x53bb && n != 84 && n
                != 116 && n != 80 && n != 112
        },
    ensures
        language::after_first_filler(s, language::leading_fillers()) is None,
{
    reveal_strlit("請幫我");
    reveal_strlit("请帮我");
    reveal_strlit("幫我");
    reveal_strlit("帮我");
    reveal_strlit("請");
    reveal_strlit("请");
    reveal_strlit("去");
    reveal_strlit("to");
    reveal_strlit("please");
    let all = language::leading_fillers();
    let l = text::ascii_lowered(s);
    characters::lemma_lower_case(s, Seq::empty());
    assert forall|i: int| 0 <= i < all.len() implies language::after_filler(
        s,
        (#[trigger] all[i])@,
    ) is None by {
        let word = all[i]@;
        if text::begins_with(l, word) {
            assert(l.subrange(0, word.len() as int)[0] == l[0]);
            assert(l[0] as int == if 65 <= s[0] as int <= 90 {
                s[0] as int + 32
            } else {
                s[0] as int
            });
            assert(false);
        }
    }
    lemma_no_filler(s, all);
}

/// The task of a text is what is left when the gaps around it and the fillers before it are gone,
/// one after the other, and there is none where nothing is left.
pub proof fn lemma_tasks(s: Seq<char>)
    ensures
        language::after_first_filler(language::bare(s), language::leading_fillers()) is None ==> {
            &&& language::bare(s).len() > 0 ==> language::task_of(s) == Some(language::bare(s))
            &&& language::bare(s).len() == 0 ==> language::task_of(s) is None
        },
        language::after_first_filler(language::bare(s), language::leading_fillers()) matches Some(
            rest,
        ) ==> language::task_of(s) == language::task_of(rest),
{
}

/// The voice agent itself is asked by words that say so, or by an action.
pub proof fn lemma_local_tasks(s: Seq<char>)
    ensures
        language::local_request(language::bare(s)) matches Some(rest) ==> language::local_task(s)
            == language::task_of(rest),
        language::local_request(language::bare(s)) is None && language::is_local_action(
            language::bare(s),
        ) ==> language::local_task(s) == language::task_of(language::bare(s)),
        language::local_request(language::bare(s)) is None && !language::is_local_action(
            language::bare(s),
        ) ==> language::local_task(s) is None,
{
}

/// Whether a name stands at a place, and as a word of its own where it is made of the characters of
/// words.
pub open spec fn named_at(s: Seq<char>, alias: Seq<char>, k: int) -> bool {
    &&& 0 <= k
    &&& k + alias.len() <= s.len()
    &&& s.subrange(k, k + alias.len()) == alias
    &&& (forall|i: int| 0 <= i < alias.len() ==> wordy(#[trigger] alias[i])) ==> {
        &&& k > 0 ==> !wordy(s[k - 1])
        &&& k + alias.len() < s.len() ==> !wordy(s[k + alias.len()])
    }
}

proof fn lemma_named_at(s: Seq<char>, alias: Seq<char>, k: int)
    ensures
        named_at(s, alias, k) <==> text::occurs_at(s, alias, k) && targets::stands_alone(
            s,
            alias,
            k,
        ),
{
    if language::all_word_chars(alias) {
        assert forall|i: int| 0 <= i < alias.len() implies wordy(#[trigger] alias[i]) by {
            assert(text::is_word_char(alias[i]));
        }
    } else if forall|i: int| 0 <= i < alias.len() ==> wordy(#[trigger] alias[i]) {
        assert forall|i: int| 0 <= i < alias.len() implies text::is_word_char(
            #[trigger] alias[i],
        ) by {
            assert(wordy(alias[i]));
        }
    }
}

/// A name is found at the first place where it stands.
pub proof fn lemma_names_are_found(s: Seq<char>, alias: Seq<char>, i: int)
    requires
        0 <= i,
        alias.len() > 0,
    ensures
        match targets::alias_from(s, alias, i) {
            Some(k) => i <= k && named_at(s, alias, k) && forall|j: int|
                i <= j < k ==> !#[trigger] named_at(s, alias, j),
            None => forall|j: int| i <= j ==> !#[trigger] named_at(s, alias, j),
        },
    decreases s.len() + 1 - i,
{
    characters::lemma_finding(s, alias, i);
    match text::occurrence_from(s, alias, i) {
        None => {
            assert forall|j: int| i <= j implies !#[trigger] named_at(s, alias, j) by {
                lemma_named_at(s, alias, j);
            }
        },
        Some(k) => {
            lemma_named_at(s, alias, k);
            assert forall|j: int| i <= j < k implies !#[trigger] named_at(s, alias, j) by {
                lemma_named_at(s, alias, j);
            }
            if !targets::stands_alone(s, alias, k) {
                let next = k + alias.len();
                lemma_names_are_found(s, alias, next);
                assert forall|j: int| k < j < next implies !#[trigger] named_at(s, alias, j) by {
                    lemma_named_at(s, alias, j);
                    if named_at(s, alias, j) {
                        let before = s.subrange(k, next)[j - 1 - k];
                        assert(before == s[j - 1]);
                        assert(text::is_word_char(alias[j - 1 - k]));
                        assert(false);
                    }
                }
            }
        },
    }
}

/// Of a target's names the one that stands first counts, and of those the longest.
pub proof fn lemma_first_and_longest_name(s: Seq<char>, aliases: Seq<Seq<char>>)
    ensures
        match targets::name_span(s, aliases) {
            None => forall|i: int|
                0 <= i < aliases.len() ==> targets::alias_from(
                    s,
                    #[trigger] aliases[i],
                    0,
                ) is None,
            Some((start, end)) => {
                &&& exists|i: int|
                    0 <= i < aliases.len() && targets::alias_from(s, #[trigger] aliases[i], 0)
                        == Some(start) && end == start + aliases[i].len()
                &&& forall|i: int|
                    0 <= i < aliases.len() && targets::alias_from(
                        s,
                        #[trigger] aliases[i],
                        0,
                    ) is Some ==> {
                        let k = targets::alias_from(s, aliases[i], 0)->0;
                        start < k || start == k && aliases[i].len() <= end - start
                    }
            },
        },
    decreases aliases.len(),
{
    if aliases.len() > 0 {
        let front = aliases.drop_last();
        lemma_first_and_longest_name(s, front);
        assert forall|i: int| 0 <= i < front.len() implies front[i] == aliases[i] by {}
        let last = aliases[aliases.len() - 1];
        assert(aliases.last() == last);
        match targets::name_span(s, aliases) {
            None => {
                assert forall|i: int| 0 <= i < aliases.len() implies targets::alias_from(
                    s,
                    #[trigger] aliases[i],
                    0,
                ) is None by {
                    if i < front.len() {
                        assert(front[i] == aliases[i]);
                    }
                }
            },
            Some((start, end)) => {
                if targets::name_span(s, front) == Some((start, end)) {
                    let i = choose|i: int|
                        0 <= i < front.len() && targets::alias_from(s, #[trigger] front[i], 0)
                            == Some(start) && end == start + front[i].len();
                    assert(targets::alias_from(s, aliases[i], 0) == Some(start));
                } else {
                    assert(targets::alias_from(s, aliases[aliases.len() - 1], 0) == Some(start));
                }
                assert forall|i: int|
                    0 <= i < aliases.len() && targets::alias_from(
                        s,
                        #[trigger] aliases[i],
                        0,
                    ) is Some implies {
                    let k = targets::alias_from(s, aliases[i], 0)->0;
                    start < k || start == k && aliases[i].len() <= end - start
                } by {
                    if i < front.len() {
                        assert(front[i] == aliases[i]);
                    }
                }
            },
        }
    }
}

/// A command goes to the one target that it names. Naming two is ambiguous, and naming none names
/// nobody.
pub proof fn lemma_one_target(s: Seq<char>, names: Seq<Seq<Seq<char>>>)
    ensures
        match targets::named_target(s, names) {
            TargetModel::Nobody => forall|i: int|
                0 <= i < names.len() ==> targets::name_span(s, #[trigger] names[i]) is None,
            TargetModel::Delegate { target, start, end } => {
                &&& 0 <= target < names.len()
                &&& targets::name_span(s, names[target]) == Some((start, end))
                &&& forall|i: int|
                    0 <= i < names.len() && i != target ==> targets::name_span(
                        s,
                        #[trigger] names[i],
                    ) is None
            },
            TargetModel::Ambiguous => exists|i: int, j: int|
                0 <= i < j < names.len() && targets::name_span(s, #[trigger] names[i]) is Some
                    && targets::name_span(s, #[trigger] names[j]) is Some,
        },
        targets::names_any(s, names) <==> exists|i: int|
            0 <= i < names.len() && targets::name_span(s, #[trigger] names[i]) is Some,
    decreases names.len(),
{
    if names.len() > 0 {
        let front = names.drop_last();
        lemma_one_target(s, front);
        assert forall|i: int| 0 <= i < front.len() implies front[i] == names[i] by {}
        let n = names.len() - 1;
        match targets::named_target(s, front) {
            TargetModel::Ambiguous => {
                let (i, j) = choose|i: int, j: int|
                    0 <= i < j < front.len() && targets::name_span(s, #[trigger] front[i]) is Some
                        && targets::name_span(s, #[trigger] front[j]) is Some;
                assert(targets::name_span(s, names[i]) is Some);
                assert(targets::name_span(s, names[j]) is Some);
            },
            TargetModel::Delegate { target, start, end } => {
                assert(targets::name_span(s, names[target]) is Some);
                if targets::name_span(s, names[n]) is Some {
                    assert(0 <= target < n);
                }
            },
            TargetModel::Nobody => {
                if targets::name_span(s, names[n]) is Some {
                }
            },
        }
        assert forall|i: int|
            0 <= i < names.len() && targets::name_span(s, #[trigger] names[i]) is Some
                && targets::named_target(s, names) is Nobody implies false by {
            if i < n {
                assert(front[i] == names[i]);
            }
        }
    }
}

/// The work that a transcript asks for. A command to a target has nothing but an address before
/// its name, and its task is what follows the name; a command that names nobody in that way is for
/// the voice agent itself, where it takes such work, and one that names several is none.
pub proof fn lemma_proposals(
    s: Seq<char>,
    value: Seq<char>,
    starts: Seq<int>,
    names: Seq<Seq<Seq<char>>>,
    default_to_local: bool,
)
    ensures
        ({
            let named = targets::named_target(value, names);
            let proposal = targets::proposal_from(s, value, starts, names, default_to_local);
            let local = match language::local_task(s) {
                Some(task) => Some(ProposalModel { destination: IntentDestination::Local, task }),
                None => None,
            };
            &&& named is Ambiguous ==> proposal is None
            &&& named is Nobody && default_to_local ==> proposal == local
            &&& named is Nobody && !default_to_local ==> proposal is None
            &&& named matches TargetModel::Delegate { target, start, end } ==> {
                let addressed = language::prefix_allowed(value.take(start));
                &&& !addressed && default_to_local ==> proposal == local
                &&& !addressed && !default_to_local ==> proposal is None
                &&& addressed ==> {
                    match targets::original_position(starts, end) {
                        None => proposal is None,
                        Some(i) => match language::task_of(s.skip(i)) {
                            None => proposal is None,
                            Some(task) => proposal == Some(
                                ProposalModel {
                                    destination: IntentDestination::Delegate {
                                        target_index: target as usize,
                                    },
                                    task,
                                },
                            ),
                        },
                    }
                }
            }
        }),
        targets::proposal_of(s, names, default_to_local) == targets::proposal_from(
            s,
            targets::lowered(s),
            targets::lowered_starts(s),
            names,
            default_to_local,
        ),
{
}

/// A text is put into lower case character by character, and each of its characters is found again
/// by where its lower-case form starts.
pub proof fn lemma_lower_case_by_character(s: Seq<char>, c: char, starts: Seq<int>, index: int)
    ensures
        targets::lowered(Seq::empty()) == Seq::<char>::empty(),
        targets::lowered(s.push(c)) == targets::lowered(s) + targets::char_lowercase(c),
        targets::lowered_starts(s).len() == s.len() + 1,
        forall|i: int|
            0 <= i <= s.len() ==> #[trigger] targets::lowered_starts(s)[i] == targets::lowered(
                s.take(i),
            ).len(),
        match targets::original_position(starts, index) {
            Some(i) => 0 <= i < starts.len() && starts[i] == index && forall|j: int|
                0 <= j < i ==> #[trigger] starts[j] != index,
            None => forall|j: int| 0 <= j < starts.len() ==> #[trigger] starts[j] != index,
        },
        targets::match_form(s) == targets::str_lowercase(text::trimmed_white(s)),
    decreases starts.len(),
{
    assert(s.push(c).drop_last() =~= s);
    if starts.len() > 0 {
        let front = starts.drop_last();
        lemma_lower_case_by_character(s, c, front, index);
        assert forall|j: int| 0 <= j < front.len() implies front[j] == starts[j] by {}
    }
}

/// A correction that is a command of its own goes where it says; one that does not say so keeps the
/// destination; one that names a target without being a command to it is refused.
pub proof fn lemma_corrections(
    current: IntentDestination,
    correction: Seq<char>,
    resolved: Option<ProposalModel>,
    names_target: bool,
    names: Seq<Seq<Seq<char>>>,
    default_to_local: bool,
)
    ensures
        ({
            let r = targets::correction_from(current, correction, resolved, names_target);
            let asks_local = language::local_request(language::bare(correction)) is Some;
            &&& resolved matches Some(p) ==> {
                &&& p.destination != IntentDestination::Local || asks_local ==> r == Some(p)
                &&& p.destination == IntentDestination::Local && !asks_local ==> r == Some(
                    ProposalModel { destination: current, task: p.task },
                )
            }
            &&& resolved is None && names_target ==> r is None
            &&& resolved is None && !names_target ==> r == match language::task_of(correction) {
                Some(task) => Some(ProposalModel { destination: current, task }),
                None => None,
            }
        }),
        targets::correction_of(current, correction, names, default_to_local)
            == targets::correction_from(
            current,
            correction,
            targets::proposal_of(correction, names, default_to_local),
            targets::names_any(
                targets::str_lowercase(text::trimmed_white(correction)),
                names,
            ),
        ),
{
}

} // verus!
