//! Spoken commands: fillers, actions, requests and the words that address somebody.

use vstd::prelude::*;
use vstd::string::*;
use crate::discord_voice_intent::language;
use crate::laws::characters;
use crate::laws::characters::{all_in, any_case_of, firm};
use crate::text;
use crate::text::CharClass;

verus! {

/// Whether a text starts with a word that is no part of a longer one.
pub open spec fn leads_as_word(s: Seq<char>, word: Seq<char>) -> bool {
    &&& word.len() <= s.len()
    &&& s.take(word.len() as int) == word
    &&& s.len() > word.len() ==> {
        let n = s[word.len() as int] as int;
        !(48 <= n <= 57 || 65 <= n <= 90 || 97 <= n <= 122 || n == 95)
    }
}

/// Whether a text starts with another.
pub open spec fn leads(s: Seq<char>, word: Seq<char>) -> bool {
    word.len() <= s.len() && s.take(word.len() as int) == word
}

proof fn lemma_leads(s: Seq<char>, word: Seq<char>)
    ensures
        text::begins_with(s, word) <==> leads(s, word),
{
    characters::lemma_finding(s, word, 0);
}

proof fn lemma_action(s: Seq<char>, word: Seq<char>)
    ensures
        language::all_letters(word) ==> (language::starts_with_action(s, word) <==> leads_as_word(
            s,
            word,
        )),
        !language::all_letters(word) ==> (language::starts_with_action(s, word) <==> leads(
            s,
            word,
        )),
{
    lemma_leads(s, word);
    if s.len() > word.len() {
        characters::lemma_word_characters(s[word.len() as int]);
    }
}

proof fn lemma_letters_of_actions()
    ensures
        forall|i: int|
            0 <= i < 12 ==> !language::all_letters((#[trigger] language::local_actions()[i])@),
        forall|i: int|
            12 <= i < 20 ==> language::all_letters((#[trigger] language::local_actions()[i])@),
{
    reveal_strlit("檢查");
    reveal_strlit("检查");
    reveal_strlit("執行");
    reveal_strlit("执行");
    reveal_strlit("修復");
    reveal_strlit("修复");
    reveal_strlit("整理");
    reveal_strlit("總結");
    reveal_strlit("总结");
    reveal_strlit("調查");
    reveal_strlit("调查");
    reveal_strlit("查看");
    reveal_strlit("review");
    reveal_strlit("check");
    reveal_strlit("inspect");
    reveal_strlit("run");
    reveal_strlit("fix");
    reveal_strlit("summarize");
    reveal_strlit("analyse");
    reveal_strlit("analyze");
    assert forall|i: int| 0 <= i < 12 implies !language::all_letters(
        (#[trigger] language::local_actions()[i])@,
    ) by {
        let word = language::local_actions()[i]@;
        assert(!text::is_ascii_letter(word[0]));
    }
}

/// Work for the voice agent itself starts with one of these actions, in any case, possibly after
/// the word for "first". An English action is a word of its own.
pub proof fn lemma_actions(s: Seq<char>)
    ensures
        ({
            let c = language::action_command(s);
            language::is_local_action(s) <==> leads(c, "檢查"@) || leads(c, "检查"@) || leads(
                c,
                "執行"@,
            ) || leads(c, "执行"@) || leads(c, "修復"@) || leads(c, "修复"@) || leads(c, "整理"@)
                || leads(c, "總結"@) || leads(c, "总结"@) || leads(c, "調查"@) || leads(c, "调查"@)
                || leads(c, "查看"@) || leads_as_word(c, "review"@) || leads_as_word(c, "check"@)
                || leads_as_word(c, "inspect"@) || leads_as_word(c, "run"@) || leads_as_word(
                c,
                "fix"@,
            ) || leads_as_word(c, "summarize"@) || leads_as_word(c, "analyse"@) || leads_as_word(
                c,
                "analyze"@,
            )
        }),
        s.len() == 0 || s[0] as int != 0x5148 ==> language::action_command(s)
            == text::ascii_lowered(s),
{
    let c = language::action_command(s);
    let all = language::local_actions();
    lemma_letters_of_actions();
    assert forall|i: int| 0 <= i < all.len() implies language::starts_with_action(
        c,
        (#[trigger] all[i])@,
    ) == (if i < 12 {
        leads(c, all[i]@)
    } else {
        leads_as_word(c, all[i]@)
    }) by {
        lemma_action(c, all[i]@);
    }
    assert(all[0] == "檢查" && all[1] == "检查" && all[2] == "執行" && all[3] == "执行" && all[4]
        == "修復" && all[5] == "修复" && all[6] == "整理" && all[7] == "總結" && all[8] == "总结"
        && all[9] == "調查" && all[10] == "调查" && all[11] == "查看" && all[12] == "review"
        && all[13] == "check" && all[14] == "inspect" && all[15] == "run" && all[16] == "fix"
        && all[17] == "summarize" && all[18] == "analyse" && all[19] == "analyze");
    if s.len() > 0 {
        characters::lemma_lower_case(s, Seq::empty());
        assert(text::ascii_lowered(s)[0] as int == 0x5148 ==> s[0] as int == 0x5148);
    }
}

/// The word for "first" before an action makes no difference, nor does white space behind it.
pub proof fn lemma_first_makes_no_difference(gap: Seq<char>, s: Seq<char>)
    requires
        all_in(gap, CharClass::White),
        s.len() > 0,
        !CharClass::White.has(s[0]),
        s[0] as int != 0x5148,
    ensures
        language::action_command(seq!['先'] + gap + s) == language::action_command(s),
        language::is_local_action(seq!['先'] + gap + s) == language::is_local_action(s),
{
    let all = seq!['先'] + gap + s;
    let lowered = text::ascii_lowered(all);
    let tail = text::ascii_lowered(s);
    characters::lemma_lower_case(all, Seq::empty());
    characters::lemma_lower_case(s, Seq::empty());
    characters::lemma_lower_case(gap, Seq::empty());
    assert(lowered[0] as int == all[0] as int);
    assert(lowered[0] == '先');
    assert forall|i: int| 0 <= i < gap.len() implies text::ascii_lowered(gap)[i] == gap[i] by {
        assert(CharClass::White.has(gap[i]));
        assert(text::ascii_lowered(gap)[i] as int == gap[i] as int);
    }
    assert(lowered.skip(1) =~= gap + tail) by {
        assert forall|i: int| 0 <= i < lowered.len() - 1 implies lowered.skip(1)[i] == (gap
            + tail)[i] by {
            if i < gap.len() {
                assert(all[i + 1] == gap[i]);
                assert(text::ascii_lowered(gap)[i] == gap[i]);
            } else {
                assert(all[i + 1] == s[i - gap.len()]);
            }
        }
    }
    assert(tail[0] as int == if 65 <= s[0] as int <= 90 {
        s[0] as int + 32
    } else {
        s[0] as int
    });
    assert(!CharClass::White.has(tail[0]));
    lemma_trimmed_lead(gap, tail, CharClass::White);
}

proof fn lemma_trimmed_lead(p: Seq<char>, rest: Seq<char>, class: CharClass)
    requires
        all_in(p, class),
        rest.len() > 0,
        !class.has(rest[0]),
    ensures
        text::trimmed_start(p + rest, class) == rest,
    decreases p.len(),
{
    if p.len() == 0 {
        assert(p + rest =~= rest);
    } else {
        assert((p + rest)[0] == p[0]);
        assert((p + rest).skip(1) =~= p.skip(1) + rest);
        assert forall|i: int| 0 <= i < p.skip(1).len() implies class.has(#[trigger] p.skip(1)[i]) by {
            assert(p.skip(1)[i] == p[i + 1]);
        }
        lemma_trimmed_lead(p.skip(1), rest, class);
    }
}

/// The words that ask the voice agent itself, by their first three characters: no two of them, but
/// for the bare "please" in Chinese, can start one text.
proof fn lemma_requests_exclude_each_other(s: Seq<char>, i: int, j: int)
    requires
        0 <= i < j < 19,
        text::begins_with(text::ascii_lowered(s), language::local_request_prefixes()[j]@),
    ensures
        !text::begins_with(text::ascii_lowered(s), language::local_request_prefixes()[i]@),
{
    reveal_strlit("麻煩你幫我");
    reveal_strlit("麻烦你帮我");
    reveal_strlit("可以請你幫我");
    reveal_strlit("可以请你帮我");
    reveal_strlit("請你幫我");
    reveal_strlit("请你帮我");
    reveal_strlit("麻煩幫我");
    reveal_strlit("麻烦帮我");
    reveal_strlit("可以幫我");
    reveal_strlit("可以帮我");
    reveal_strlit("請幫我");
    reveal_strlit("请帮我");
    reveal_strlit("你幫我");
    reveal_strlit("你帮我");
    reveal_strlit("幫我");
    reveal_strlit("帮我");
    reveal_strlit("could you");
    reveal_strlit("can you");
    reveal_strlit("please");
    let l = text::ascii_lowered(s);
    let a = language::local_request_prefixes()[i]@;
    let b = language::local_request_prefixes()[j]@;
    if text::begins_with(l, a) {
        let x = l.subrange(0, a.len() as int);
        let y = l.subrange(0, b.len() as int);
        assert(x[0] == l[0] && y[0] == l[0]);
        assert(x[1] == l[1] && y[1] == l[1]);
        assert(a.len() > 2 ==> x[2] == l[2]);
        assert(b.len() > 2 ==> y[2] == l[2]);
        assert(a[0] == b[0] && a[1] == b[1]);
        assert(false);
    }
}

/// Asking the voice agent itself: what follows one of these words is what is asked for. English
/// words stand on their own.
pub proof fn lemma_requests(word: Seq<char>, w: Seq<char>, rest: Seq<char>)
    requires
        any_case_of(w, word),
        word == "麻煩你幫我"@ || word == "麻烦你帮我"@ || word == "可以請你幫我"@ || word == "可以请你帮我"@
            || word == "請你幫我"@ || word == "请你帮我"@ || word == "麻煩幫我"@ || word == "麻烦帮我"@
            || word == "可以幫我"@ || word == "可以帮我"@ || word == "請幫我"@ || word == "请帮我"@ || word
            == "你幫我"@ || word == "你帮我"@ || word == "幫我"@ || word == "帮我"@ || ((word
            == "could you"@ || word == "can you"@ || word == "please"@) && (rest.len() == 0 || !({
            let n = rest[0] as int;
            48 <= n <= 57 || 65 <= n <= 90 || 97 <= n <= 122 || n == 95
        }))),
    ensures
        language::local_request(w + rest) == Some(rest),
{
    let all = language::local_request_prefixes();
    assert(all[0] == "麻煩你幫我" && all[1] == "麻烦你帮我" && all[2] == "可以請你幫我" && all[3]
        == "可以请你帮我" && all[4] == "請你幫我" && all[5] == "请你帮我" && all[6] == "麻煩幫我" && all[7]
        == "麻烦帮我" && all[8] == "可以幫我" && all[9] == "可以帮我" && all[10] == "請幫我" && all[11]
        == "请帮我" && all[12] == "你幫我" && all[13] == "你帮我" && all[14] == "幫我" && all[15] == "帮我"
        && all[16] == "could you" && all[17] == "can you" && all[18] == "please");
    let k = choose|k: int| 0 <= k < 19 && (#[trigger] all[k])@ == word;
    assert(0 <= k < 19 && all[k]@ == word);
    lemma_request_words();
    let s = w + rest;
    characters::lemma_lower_case(w, word);
    characters::lemma_lower_case(s, word);
    let l = text::ascii_lowered(s);
    assert(l.subrange(0, word.len() as int) =~= text::ascii_lowered(w));
    assert(text::begins_with(l, word));
    assert(s.skip(word.len() as int) =~= rest);
    if rest.len() > 0 {
        characters::lemma_word_characters(rest[0]);
    }
    assert(language::after_request(s, word) == Some(rest));
    assert forall|i: int| 0 <= i < k implies language::after_request(
        s,
        (#[trigger] all[i])@,
    ) is None by {
        lemma_requests_exclude_each_other(s, i, k);
    }
    lemma_first_request(s, all, k, rest);
}

proof fn lemma_request_words()
    ensures
        forall|i: int|
            0 <= i < 19 ==> no_capital(
                (#[trigger] language::local_request_prefixes()[i])@,
            ) && language::local_request_prefixes()[i]@ != "請"@
                && language::local_request_prefixes()[i]@ != "请"@,
        forall|i: int|
            0 <= i < 16 ==> !language::all_letters_or_white(
                (#[trigger] language::local_request_prefixes()[i])@,
            ),
{
    reveal_strlit("請");
    reveal_strlit("请");
    reveal_strlit("麻煩你幫我");
    reveal_strlit("麻烦你帮我");
    reveal_strlit("可以請你幫我");
    reveal_strlit("可以请你帮我");
    reveal_strlit("請你幫我");
    reveal_strlit("请你帮我");
    reveal_strlit("麻煩幫我");
    reveal_strlit("麻烦帮我");
    reveal_strlit("可以幫我");
    reveal_strlit("可以帮我");
    reveal_strlit("請幫我");
    reveal_strlit("请帮我");
    reveal_strlit("你幫我");
    reveal_strlit("你帮我");
    reveal_strlit("幫我");
    reveal_strlit("帮我");
    reveal_strlit("could you");
    reveal_strlit("can you");
    reveal_strlit("please");
    assert forall|i: int| 0 <= i < 19 implies no_capital(
        (#[trigger] language::local_request_prefixes()[i])@,
    ) && language::local_request_prefixes()[i]@ != "請"@ && language::local_request_prefixes()[i]@
        != "请"@ by {
        let word = language::local_request_prefixes()[i]@;
        assert(word.len() >= 2);
        assert("請"@.len() == 1 && "请"@.len() == 1);
    }
    assert forall|i: int| 0 <= i < 16 implies !language::all_letters_or_white(
        (#[trigger] language::local_request_prefixes()[i])@,
    ) by {
        let word = language::local_request_prefixes()[i]@;
        assert(!text::is_ascii_letter(word[0]) && !text::is_white(word[0]));
    }
}

/// Whether a word has no capital letter.
pub open spec fn no_capital(word: Seq<char>) -> bool {
    forall|i: int| 0 <= i < word.len() ==> !(65 <= #[trigger] word[i] as int <= 90)
}

proof fn lemma_first_request(s: Seq<char>, words: Seq<&str>, k: int, rest: Seq<char>)
    requires
        0 <= k < words.len(),
        language::after_request(s, words[k]@) == Some(rest),
        forall|i: int|
            0 <= i < k ==> language::after_request(s, (#[trigger] words[i])@) is None,
    ensures
        language::after_first_request(s, words) == Some(rest),
    decreases k,
{
    if k > 0 {
        assert(language::after_request(s, words[0]@) is None);
        let later = words.skip(1);
        assert(later[k - 1] == words[k]);
        assert forall|i: int| 0 <= i < k - 1 implies language::after_request(
            s,
            (#[trigger] later[i])@,
        ) is None by {
            assert(later[i] == words[i + 1]);
        }
        lemma_first_request(s, later, k - 1, rest);
    }
}

/// A bare "please" in Chinese asks the voice agent itself only for an action.
pub proof fn lemma_bare_please(rest: Seq<char>)
    requires
        rest.len() > 0,
        rest[0] as int != 0x5e6b,
        rest[0] as int != 0x5e2e,
        rest[0] as int != 0x4f60,
    ensures
        language::local_request(seq!['請'] + rest) == if language::is_local_action(
            text::trimmed_white(text::trimmed_start(rest, CharClass::CommandGap)),
        ) {
            Some(rest)
        } else {
            None
        },
        language::local_request(seq!['请'] + rest) == if language::is_local_action(
            text::trimmed_white(text::trimmed_start(rest, CharClass::CommandGap)),
        ) {
            Some(rest)
        } else {
            None
        },
{
    lemma_bare_please_by(19, '請', rest);
    lemma_bare_please_by(20, '请', rest);
}

proof fn lemma_bare_please_by(k: int, c: char, rest: Seq<char>)
    requires
        k == 19 && c == '請' || k == 20 && c == '请',
        rest.len() > 0,
        rest[0] as int != 0x5e6b,
        rest[0] as int != 0x5e2e,
        rest[0] as int != 0x4f60,
    ensures
        language::local_request(seq![c] + rest) == if language::is_local_action(
            text::trimmed_white(text::trimmed_start(rest, CharClass::CommandGap)),
        ) {
            Some(rest)
        } else {
            None
        },
{
    reveal_strlit("請");
    reveal_strlit("请");
    reveal_strlit("麻煩你幫我");
    reveal_strlit("麻烦你帮我");
    reveal_strlit("可以請你幫我");
    reveal_strlit("可以请你帮我");
    reveal_strlit("請你幫我");
    reveal_strlit("请你帮我");
    reveal_strlit("麻煩幫我");
    reveal_strlit("麻烦帮我");
    reveal_strlit("可以幫我");
    reveal_strlit("可以帮我");
    reveal_strlit("請幫我");
    reveal_strlit("请帮我");
    reveal_strlit("你幫我");
    reveal_strlit("你帮我");
    reveal_strlit("幫我");
    reveal_strlit("帮我");
    reveal_strlit("could you");
    reveal_strlit("can you");
    reveal_strlit("please");
    let all = language::local_request_prefixes();
    let s = seq![c] + rest;
    let l = text::ascii_lowered(s);
    characters::lemma_lower_case(s, Seq::empty());
    assert(s[0] == c && s[1] == rest[0]);
    assert(l[0] as int == c as int);
    assert(l[1] as int == if 65 <= rest[0] as int <= 90 {
        rest[0] as int + 32
    } else {
        rest[0] as int
    });
    assert forall|i: int| 0 <= i < all.len() && i != k implies language::after_request(
        s,
        (#[trigger] all[i])@,
    ) is None by {
        let word = all[i]@;
        if text::begins_with(l, word) {
            let x = l.subrange(0, word.len() as int);
            assert(x[0] == l[0]);
            assert(word.len() > 1 ==> x[1] == l[1]);
            assert(false);
        }
    }
    let word = all[k]@;
    assert(word =~= seq![c]);
    assert(l.subrange(0, 1) =~= word);
    assert(s.skip(1) =~= rest);
    assert(!language::all_letters_or_white(word)) by {
        assert(!text::is_ascii_letter(word[0]) && !text::is_white(word[0]));
    }
    if language::after_request(s, word) is Some {
        lemma_first_request(s, all, k, rest);
    } else {
        lemma_no_request(s, all);
    }
}

proof fn lemma_no_request(s: Seq<char>, words: Seq<&str>)
    requires
        forall|i: int|
            0 <= i < words.len() ==> language::after_request(s, (#[trigger] words[i])@) is None,
    ensures
        language::after_first_request(s, words) is None,
    decreases words.len(),
{
    if words.len() > 0 {
        assert(language::after_request(s, words[0]@) is None);
        let later = words.skip(1);
        assert forall|i: int| 0 <= i < later.len() implies language::after_request(
            s,
            (#[trigger] later[i])@,
        ) is None by {
            assert(later[i] == words[i + 1]);
        }
        lemma_no_request(s, later);
    }
}

/// A text without any of these words at its start asks the voice agent itself for nothing.
pub proof fn lemma_no_other_requests(s: Seq<char>)
    requires
        ({
            let l = text::ascii_lowered(s);
            !leads(l, "麻煩"@) && !leads(l, "麻烦"@) && !leads(l, "可以"@) && !leads(l, "請"@) && !leads(
                l,
                "请"@,
            ) && !leads(l, "你"@) && !leads(l, "幫我"@) && !leads(l, "帮我"@) && !leads(
                l,
                "could you"@,
            ) && !leads(l, "can you"@) && !leads(l, "please"@)
        }),
    ensures
        language::local_request(s) is None,
{
    reveal_strlit("請");
    reveal_strlit("请");
    reveal_strlit("你");
    reveal_strlit("麻煩");
    reveal_strlit("麻烦");
    reveal_strlit("可以");
    reveal_strlit("麻煩你幫我");
    reveal_strlit("麻烦你帮我");
    reveal_strlit("可以請你幫我");
    reveal_strlit("可以请你帮我");
    reveal_strlit("請你幫我");
    reveal_strlit("请你帮我");
    reveal_strlit("麻煩幫我");
    reveal_strlit("麻烦帮我");
    reveal_strlit("可以幫我");
    reveal_strlit("可以帮我");
    reveal_strlit("請幫我");
    reveal_strlit("请帮我");
    reveal_strlit("你幫我");
    reveal_strlit("你帮我");
    let all = language::local_request_prefixes();
    let l = text::ascii_lowered(s);
    assert forall|i: int| 0 <= i < all.len() implies language::after_request(
        s,
        (#[trigger] all[i])@,
    ) is None by {
        let word = all[i]@;
        lemma_leads(l, word);
        if leads(l, word) {
            let x = l.take(word.len() as int);
            assert(x[0] == l[0]);
            assert(word.len() > 1 ==> x[1] == l[1]);
            if word.len() >= 2 && i < 10 {
                assert(l.take(2)[0] == l[0] && l.take(2)[1] == l[1]);
                assert(l.take(1)[0] == l[0]);
                assert(l.take(2) =~= word.take(2));
                assert(l.take(1) =~= word.take(1));
                assert("麻煩"@ =~= seq!['麻', '煩']);
                assert("麻烦"@ =~= seq!['麻', '烦']);
                assert("可以"@ =~= seq!['可', '以']);
            }
            assert(l.take(1) =~= seq![l[0]]);
            assert("請"@ =~= seq!['請']);
            assert("请"@ =~= seq!['请']);
            assert("你"@ =~= seq!['你']);
            if i < 4 || 6 <= i < 10 {
                assert(word.take(2) =~= "麻煩"@ || word.take(2) =~= "麻烦"@ || word.take(2) =~= "可以"@);
            }
            assert(false);
        }
    }
    lemma_no_request(s, all);
}

/// The words that may stand before the name of a target, with punctuation and white space around
/// them, and nothing else.
pub proof fn lemma_addresses(
    word: Seq<char>,
    a: Seq<char>,
    u: Seq<char>,
    v: Seq<char>,
    b: Seq<char>,
)
    requires
        all_in(a, CharClass::CommandSeparator),
        all_in(b, CharClass::CommandSeparator),
        all_in(u, CharClass::White),
        all_in(v, CharClass::White),
        firm(word, CharClass::White),
        firm(word, CharClass::CommandSeparator),
    ensures
        language::prefix_allowed(a + u + word + v + b) <==> word == "請"@ || word == "请"@ || word
            == "叫"@ || word == "讓"@ || word == "让"@ || word == "麻煩"@ || word == "麻烦"@ || word
            == "幫我叫"@ || word == "帮我叫"@ || word == "幫我請"@ || word == "帮我请"@ || word == "請幫我叫"@
            || word == "请帮我叫"@ || word == "可以請"@ || word == "可以请"@ || word == "你幫我叫"@ || word
            == "你帮我叫"@ || word == "please"@ || word == "ask"@ || word == "tell"@ || word
            == "please ask"@ || word == "please tell"@ || word == "have"@ || word == "get"@,
        language::prefix_allowed(a + b),
{
    let s = a + u + word + v + b;
    let inner = u + word + v;
    assert(s =~= a + inner + b);
    if u.len() > 0 {
        assert(inner[0] == u[0]);
        assert(CharClass::White.has(u[0]));
    } else {
        assert(inner[0] == word[0]);
    }
    if v.len() > 0 {
        assert(inner[inner.len() - 1] == v[v.len() - 1]);
        assert(CharClass::White.has(v[v.len() - 1]));
    } else {
        assert(inner[inner.len() - 1] == word[word.len() - 1]);
    }
    characters::lemma_trimming_bares(a, inner, b, CharClass::CommandSeparator);
    characters::lemma_trimming_bares(u, word, v, CharClass::White);
    assert(language::address(s) == word);
    let all = language::command_prefixes();
    assert(all[0] == "請" && all[1] == "请" && all[2] == "叫" && all[3] == "讓" && all[4] == "让"
        && all[5] == "麻煩" && all[6] == "麻烦" && all[7] == "幫我叫" && all[8] == "帮我叫" && all[9]
        == "幫我請" && all[10] == "帮我请" && all[11] == "請幫我叫" && all[12] == "请帮我叫" && all[13]
        == "可以請" && all[14] == "可以请" && all[15] == "你幫我叫" && all[16] == "你帮我叫" && all[17]
        == "please" && all[18] == "ask" && all[19] == "tell" && all[20] == "please ask" && all[21]
        == "please tell" && all[22] == "have" && all[23] == "get");
    assert forall|i: int| 0 <= i < all.len() implies language::is_just(word, (#[trigger] all[i])@)
        == (word == all[i]@) by {
        let w = all[i]@;
        characters::lemma_finding(word, w, 0);
        if language::is_just(word, w) {
            let head = word.take(word.len() - w.len());
            if head.len() > 0 {
                assert(head[0] == word[0]);
                assert(text::is_white(head[0]));
            }
            assert(word.skip(0) =~= word);
        }
        if word == w {
            assert(word.skip(0) =~= word);
            assert(word.take(0).len() == 0);
        }
    }
    characters::lemma_trimming_splits(a + b, CharClass::CommandSeparator);
    lemma_all_trimmed(a + b, a, b);
}

proof fn lemma_all_trimmed(s: Seq<char>, a: Seq<char>, b: Seq<char>)
    requires
        s == a + b,
        all_in(a, CharClass::CommandSeparator),
        all_in(b, CharClass::CommandSeparator),
    ensures
        language::address(s).len() == 0,
{
    assert forall|i: int| 0 <= i < s.len() implies CharClass::CommandSeparator.has(
        #[trigger] s[i],
    ) by {
        if i < a.len() {
            assert(s[i] == a[i]);
        } else {
            assert(s[i] == b[i - a.len()]);
        }
    }
    let t = text::trimmed(s, CharClass::CommandSeparator);
    let (p, q) = characters::lemma_trimming_splits(s, CharClass::CommandSeparator);
    if t.len() > 0 {
        assert(s[p.len() as int] == t[0]);
    }
    let (x, y) = characters::lemma_trimming_splits(t, CharClass::White);
}

} // verus!
