//! Spoken commands: what an answer means, and what becomes of the work that waits for it.

use vstd::prelude::*;
use vstd::string::*;
use crate::discord_voice_intent::language;
use crate::discord_voice_intent::language::ConfirmationModel;
use crate::laws::characters;
use crate::laws::characters::{all_in, any_case_of, firm};
use crate::text;
use crate::text::CharClass;

verus! {

proof fn lemma_joined_all_in(a: Seq<char>, b: Seq<char>, class: CharClass)
    requires
        all_in(a, class),
        all_in(b, class),
    ensures
        all_in(a + b, class),
{
    assert forall|i: int| 0 <= i < (a + b).len() implies class.has(#[trigger] (a + b)[i]) by {
        if i < a.len() {
            assert((a + b)[i] == a[i]);
        } else {
            assert((a + b)[i] == b[i - a.len()]);
        }
    }
}

/// The bare answer that a message holds: what is left without white space, then without
/// punctuation, then without white space.
proof fn lemma_bare_answer(
    x: Seq<char>,
    a: Seq<char>,
    u: Seq<char>,
    w: Seq<char>,
    v: Seq<char>,
    b: Seq<char>,
    y: Seq<char>,
)
    requires
        all_in(x, CharClass::White),
        all_in(u, CharClass::White),
        all_in(v, CharClass::White),
        all_in(y, CharClass::White),
        all_in(a, CharClass::ConfirmationPunctuation),
        all_in(b, CharClass::ConfirmationPunctuation),
        firm(w, CharClass::White),
        firm(w, CharClass::ConfirmationPunctuation),
    ensures
        text::trimmed_white(
            text::trimmed(
                text::trimmed_white(x + a + u + w + v + b + y),
                CharClass::ConfirmationPunctuation,
            ),
        ) == w,
{
    let content = x + a + u + w + v + b + y;
    let none = Seq::<char>::empty();
    let (before, lead, gap) = if a.len() > 0 {
        (x, a, u)
    } else {
        (x + u, none, none)
    };
    let (behind, tail, gap_behind) = if b.len() > 0 {
        (y, b, v)
    } else {
        (v + y, none, none)
    };
    lemma_joined_all_in(x, u, CharClass::White);
    lemma_joined_all_in(v, y, CharClass::White);
    let inner = gap + w + gap_behind;
    let middle = lead + inner + tail;
    assert(content =~= before + middle + behind);
    if a.len() > 0 {
        assert(middle[0] == a[0]);
        assert(CharClass::ConfirmationPunctuation.has(a[0]));
    } else {
        assert(middle[0] == w[0]);
    }
    if b.len() > 0 {
        assert(middle[middle.len() - 1] == b[b.len() - 1]);
        assert(CharClass::ConfirmationPunctuation.has(b[b.len() - 1]));
    } else {
        assert(middle[middle.len() - 1] == w[w.len() - 1]);
    }
    characters::lemma_trimming_bares(before, middle, behind, CharClass::White);
    if gap.len() > 0 {
        assert(inner[0] == u[0]);
        assert(CharClass::White.has(u[0]));
    } else {
        assert(inner[0] == w[0]);
    }
    if gap_behind.len() > 0 {
        assert(inner[inner.len() - 1] == v[v.len() - 1]);
        assert(CharClass::White.has(v[v.len() - 1]));
    } else {
        assert(inner[inner.len() - 1] == w[w.len() - 1]);
    }
    characters::lemma_trimming_bares(lead, inner, tail, CharClass::ConfirmationPunctuation);
    characters::lemma_trimming_bares(gap, w, gap_behind, CharClass::White);
}

/// A text in any case of a word starts and ends as firmly as the word.
proof fn lemma_any_case_is_firm(s: Seq<char>, word: Seq<char>)
    requires
        any_case_of(s, word),
        firm(word, CharClass::White),
        firm(word, CharClass::ConfirmationPunctuation),
        firm(word, CharClass::CorrectionGap),
    ensures
        firm(s, CharClass::White),
        firm(s, CharClass::ConfirmationPunctuation),
        firm(s, CharClass::CorrectionGap),
{
    let n = s.len() - 1;
    assert(s[0] == s[0] && s[n] == s[n]);
}

proof fn lemma_answers_are_firm()
    ensures
        forall|i: int|
            0 <= i < language::affirmatives().len() ==> lower_and_firm(
                (#[trigger] language::affirmatives()[i])@,
            ),
        forall|i: int|
            0 <= i < language::negatives().len() ==> lower_and_firm(
                (#[trigger] language::negatives()[i])@,
            ),
        forall|i: int|
            0 <= i < language::correction_prefixes().len() ==> lower_and_firm(
                (#[trigger] language::correction_prefixes()[i])@,
            ),
{
    reveal_strlit("對");
    reveal_strlit("对");
    reveal_strlit("是");
    reveal_strlit("是的");
    reveal_strlit("好");
    reveal_strlit("好的");
    reveal_strlit("沒錯");
    reveal_strlit("没错");
    reveal_strlit("yes");
    reveal_strlit("y");
    reveal_strlit("correct");
    reveal_strlit("confirm");
    reveal_strlit("不是");
    reveal_strlit("不對");
    reveal_strlit("不对");
    reveal_strlit("不要");
    reveal_strlit("取消");
    reveal_strlit("no");
    reveal_strlit("nope");
    reveal_strlit("cancel");
    reveal_strlit("更正");
    reveal_strlit("修正");
    reveal_strlit("改成");
    reveal_strlit("其實");
    reveal_strlit("其实");
    reveal_strlit("correction");
    reveal_strlit("actually");
}

/// Whether a word has no capital letter, and starts and ends with neither white space nor
/// punctuation.
pub open spec fn lower_and_firm(word: Seq<char>) -> bool {
    &&& forall|i: int| 0 <= i < word.len() ==> !(65 <= #[trigger] word[i] as int <= 90)
    &&& firm(word, CharClass::White)
    &&& firm(word, CharClass::ConfirmationPunctuation)
    &&& firm(word, CharClass::CorrectionGap)
}

/// Yes means yes and no means no: a message that is one of these words, in any case, with white
/// space and punctuation around it, confirms or cancels.
pub proof fn lemma_answers_mean_what_they_say(
    word: Seq<char>,
    x: Seq<char>,
    a: Seq<char>,
    u: Seq<char>,
    w: Seq<char>,
    v: Seq<char>,
    b: Seq<char>,
    y: Seq<char>,
)
    requires
        all_in(x, CharClass::White),
        all_in(u, CharClass::White),
        all_in(v, CharClass::White),
        all_in(y, CharClass::White),
        all_in(a, CharClass::ConfirmationPunctuation),
        all_in(b, CharClass::ConfirmationPunctuation),
        any_case_of(w, word),
    ensures
        word == "yes"@ || word == "y"@ || word == "correct"@ || word == "confirm"@ || word == "對"@
            || word == "对"@ || word == "是"@ || word == "是的"@ || word == "好"@ || word == "好的"@
            || word == "沒錯"@ || word == "没错"@ ==> language::confirmation_of(
            x + a + u + w + v + b + y,
        ) is Affirmative,
        word == "no"@ || word == "nope"@ || word == "cancel"@ || word == "取消"@ || word == "不要"@
            || word == "不是"@ || word == "不對"@ || word == "不对"@ ==> language::confirmation_of(
            x + a + u + w + v + b + y,
        ) is Negative,
{
    lemma_answers_are_firm();
    let yes = language::affirmatives();
    let no = language::negatives();
    assert(yes[8] == "yes" && yes[9] == "y" && yes[10] == "correct" && yes[11] == "confirm"
        && yes[0] == "對" && yes[1] == "对" && yes[2] == "是" && yes[3] == "是的" && yes[4] == "好"
        && yes[5] == "好的" && yes[6] == "沒錯" && yes[7] == "没错");
    assert(no[0] == "不是" && no[1] == "不對" && no[2] == "不对" && no[3] == "不要" && no[4] == "取消"
        && no[5] == "no" && no[6] == "nope" && no[7] == "cancel");
    lemma_no_word_is_both();
    if text::one_of(word, yes) || text::one_of(word, no) {
        assert(lower_and_firm(word));
        lemma_any_case_is_firm(w, word);
        lemma_bare_answer(x, a, u, w, v, b, y);
        characters::lemma_lower_case(w, word);
    }
}

proof fn lemma_no_word_is_both()
    ensures
        forall|i: int, j: int|
            0 <= i < language::affirmatives().len() && 0 <= j < language::negatives().len()
                ==> (#[trigger] language::affirmatives()[i])@ != (
            #[trigger] language::negatives()[j])@,
{
    reveal_strlit("對");
    reveal_strlit("对");
    reveal_strlit("是");
    reveal_strlit("是的");
    reveal_strlit("好");
    reveal_strlit("好的");
    reveal_strlit("沒錯");
    reveal_strlit("没错");
    reveal_strlit("yes");
    reveal_strlit("y");
    reveal_strlit("correct");
    reveal_strlit("confirm");
    reveal_strlit("不是");
    reveal_strlit("不對");
    reveal_strlit("不对");
    reveal_strlit("不要");
    reveal_strlit("取消");
    reveal_strlit("no");
    reveal_strlit("nope");
    reveal_strlit("cancel");
    assert forall|i: int, j: int|
        0 <= i < language::affirmatives().len() && 0 <= j < language::negatives().len() implies (
    #[trigger] language::affirmatives()[i])@ != (#[trigger] language::negatives()[j])@ by {
        let a = language::affirmatives()[i]@;
        let b = language::negatives()[j]@;
        assert(a.len() != b.len() || a[0] != b[0]);
    }
}

/// Nothing else is a yes or a no: a message that confirms or cancels is one of these words, in
/// some case, with white space and punctuation around it.
pub proof fn lemma_only_answers_are_answers(content: Seq<char>) -> (r: (
    Seq<char>,
    Seq<char>,
    Seq<char>,
    Seq<char>,
    Seq<char>,
    Seq<char>,
    Seq<char>,
))
    ensures
        content == r.0 + r.1 + r.2 + r.3 + r.4 + r.5 + r.6,
        all_in(r.0, CharClass::White),
        all_in(r.1, CharClass::ConfirmationPunctuation),
        all_in(r.2, CharClass::White),
        all_in(r.4, CharClass::White),
        all_in(r.5, CharClass::ConfirmationPunctuation),
        all_in(r.6, CharClass::White),
        language::confirmation_of(content) is Affirmative ==> any_case_of(r.3, "yes"@)
            || any_case_of(r.3, "y"@) || any_case_of(r.3, "correct"@) || any_case_of(
            r.3,
            "confirm"@,
        ) || any_case_of(r.3, "對"@) || any_case_of(r.3, "对"@) || any_case_of(r.3, "是"@)
            || any_case_of(r.3, "是的"@) || any_case_of(r.3, "好"@) || any_case_of(r.3, "好的"@)
            || any_case_of(r.3, "沒錯"@) || any_case_of(r.3, "没错"@),
        language::confirmation_of(content) is Negative ==> any_case_of(r.3, "no"@) || any_case_of(
            r.3,
            "nope"@,
        ) || any_case_of(r.3, "cancel"@) || any_case_of(r.3, "取消"@) || any_case_of(r.3, "不要"@)
            || any_case_of(r.3, "不是"@) || any_case_of(r.3, "不對"@) || any_case_of(r.3, "不对"@),
{
    lemma_answers_are_firm();
    let (x, y) = characters::lemma_trimming_splits(content, CharClass::White);
    let outer = text::trimmed_white(content);
    let (a, b) = characters::lemma_trimming_splits(outer, CharClass::ConfirmationPunctuation);
    let middle = text::trimmed(outer, CharClass::ConfirmationPunctuation);
    let (u, v) = characters::lemma_trimming_splits(middle, CharClass::White);
    let w = text::trimmed_white(middle);
    assert(content =~= x + a + u + w + v + b + y);
    let yes = language::affirmatives();
    let no = language::negatives();
    if language::confirmation_of(content) is Affirmative {
        let i = choose|i: int|
            0 <= i < yes.len() && text::ascii_lowered(w) == (#[trigger] yes[i])@;
        assert(lower_and_firm(yes[i]@));
        characters::lemma_lower_case(w, yes[i]@);
    }
    if language::confirmation_of(content) is Negative {
        let i = choose|i: int| 0 <= i < no.len() && text::ascii_lowered(w) == (#[trigger] no[i])@;
        assert(lower_and_firm(no[i]@));
        characters::lemma_lower_case(w, no[i]@);
    }
    (x, a, u, w, v, b, y)
}

/// A correction says what follows the word that opens it and the gap behind that word, white space
/// at its end excepted. A message that confirms or cancels is none.
pub proof fn lemma_corrections_say_what_follows(
    word: Seq<char>,
    x: Seq<char>,
    w: Seq<char>,
    gap: Seq<char>,
    core: Seq<char>,
    y: Seq<char>,
)
    requires
        word == "更正"@ || word == "修正"@ || word == "改成"@ || word == "其實"@ || word == "其实"@ || word
            == "不是"@ || word == "correction"@ || word == "actually"@,
        all_in(x, CharClass::White),
        all_in(y, CharClass::White),
        any_case_of(w, word),
        gap.len() > 0,
        all_in(gap, CharClass::CorrectionGap),
        core.len() > 0,
        !CharClass::CorrectionGap.has(core[0]),
        !CharClass::White.has(core[core.len() - 1]),
        !(language::confirmation_of(x + w + gap + core + y) is Affirmative),
        !(language::confirmation_of(x + w + gap + core + y) is Negative),
    ensures
        language::confirmation_of(x + w + gap + core + y) == ConfirmationModel::Correction(core),
{
    lemma_answers_are_firm();
    let words = language::correction_prefixes();
    assert(words[0] == "更正" && words[1] == "修正" && words[2] == "改成" && words[3] == "其實"
        && words[4] == "其实" && words[5] == "不是" && words[6] == "correction" && words[7]
        == "actually");
    assert(lower_and_firm(word));
    lemma_any_case_is_firm(w, word);
    let content = x + w + gap + core + y;
    let trimmed = w + gap + core;
    assert(content =~= x + trimmed + y);
    assert(trimmed[0] == w[0] && trimmed[trimmed.len() - 1] == core[core.len() - 1]);
    characters::lemma_trimming_bares(x, trimmed, y, CharClass::White);
    characters::lemma_lower_case(w, word);
    characters::lemma_lower_case(trimmed, word);
    let lowered = text::ascii_lowered(trimmed);
    assert(lowered.subrange(0, word.len() as int) =~= text::ascii_lowered(w));
    let rest = gap + core;
    assert(trimmed.skip(word.len() as int) =~= rest);
    assert(rest[0] == gap[0]);
    lemma_gap_then_core(gap, core);
    assert(language::correction_after(trimmed, word) == Some(core));
    assert forall|i: int| 0 <= i < words.len() && (#[trigger] words[i])@ != word implies
        language::correction_after(trimmed, words[i]@) is None by {
        lemma_no_correction_word_starts_another(words[i]@, word, lowered);
    }
    lemma_found_correction(trimmed, words, word, core);
}

proof fn lemma_gap_then_core(gap: Seq<char>, core: Seq<char>)
    requires
        all_in(gap, CharClass::CorrectionGap),
        core.len() > 0,
        !CharClass::CorrectionGap.has(core[0]),
        !CharClass::White.has(core[core.len() - 1]),
    ensures
        text::trimmed_white(text::trimmed_start(gap + core, CharClass::CorrectionGap)) == core,
    decreases gap.len(),
{
    if gap.len() == 0 {
        assert(gap + core =~= core);
        assert(text::trimmed_start(core, CharClass::CorrectionGap) == core);
        let none = Seq::<char>::empty();
        assert(none + core + none =~= core);
        characters::lemma_trimming_bares(none, core, none, CharClass::White);
    } else {
        assert((gap + core)[0] == gap[0]);
        assert((gap + core).skip(1) =~= gap.skip(1) + core);
        assert forall|i: int| 0 <= i < gap.skip(1).len() implies CharClass::CorrectionGap.has(
            #[trigger] gap.skip(1)[i],
        ) by {
            assert(gap.skip(1)[i] == gap[i + 1]);
        }
        lemma_gap_then_core(gap.skip(1), core);
    }
}

proof fn lemma_found_correction(
    trimmed: Seq<char>,
    words: Seq<&str>,
    word: Seq<char>,
    core: Seq<char>,
)
    requires
        text::one_of(word, words),
        language::correction_after(trimmed, word) == Some(core),
        forall|i: int|
            0 <= i < words.len() && (#[trigger] words[i])@ != word ==> language::correction_after(
                trimmed,
                words[i]@,
            ) is None,
    ensures
        language::first_correction(trimmed, words) == Some(core),
    decreases words.len(),
{
    let k = choose|k: int| 0 <= k < words.len() && word == (#[trigger] words[k])@;
    if words[0]@ != word {
        let rest = words.skip(1);
        assert(rest[k - 1] == words[k]);
        assert forall|i: int| 0 <= i < rest.len() && (#[trigger] rest[i])@ != word implies
            language::correction_after(trimmed, rest[i]@) is None by {
            assert(rest[i] == words[i + 1]);
        }
        lemma_found_correction(trimmed, rest, word, core);
    }
}

proof fn lemma_no_correction_word_starts_another(
    one: Seq<char>,
    other: Seq<char>,
    s: Seq<char>,
)
    requires
        text::one_of(one, language::correction_prefixes()),
        text::one_of(other, language::correction_prefixes()),
        one != other,
        text::begins_with(s, other),
    ensures
        !text::begins_with(s, one),
{
    reveal_strlit("更正");
    reveal_strlit("修正");
    reveal_strlit("改成");
    reveal_strlit("其實");
    reveal_strlit("其实");
    reveal_strlit("不是");
    reveal_strlit("correction");
    reveal_strlit("actually");
    if text::begins_with(s, one) {
        let a = s.subrange(0, one.len() as int);
        let b = s.subrange(0, other.len() as int);
        assert(a[0] == s[0] && b[0] == s[0]);
        assert(a[1] == s[1] && b[1] == s[1]);
        assert(one[0] == other[0] && one[1] == other[1]);
    }
}

/// Whether a text opens with a word, in any case, and a character that may follow the word.
pub open spec fn opens_with(t: Seq<char>, word: Seq<char>) -> bool {
    &&& word.len() < t.len()
    &&& any_case_of(t.take(word.len() as int), word)
    &&& CharClass::CorrectionGap.has(t[word.len() as int])
}

proof fn lemma_opening(t: Seq<char>, word: Seq<char>)
    requires
        forall|i: int| 0 <= i < word.len() ==> !(65 <= #[trigger] word[i] as int <= 90),
    ensures
        language::correction_after(t, word) is Some <==> opens_with(t, word),
{
    let n = word.len() as int;
    let l = text::ascii_lowered(t);
    characters::lemma_lower_case(t, word);
    characters::lemma_finding(l, word, 0);
    if n <= t.len() {
        let head = t.take(n);
        characters::lemma_lower_case(head, word);
        assert(text::ascii_lowered(head) =~= l.take(n));
        if n < t.len() {
            assert(t.skip(n)[0] == t[n]);
        }
    }
}

proof fn lemma_first_opening(t: Seq<char>, words: Seq<&str>)
    ensures
        language::first_correction(t, words) is Some <==> exists|i: int|
            0 <= i < words.len() && language::correction_after(
                t,
                (#[trigger] words[i])@,
            ) is Some,
    decreases words.len(),
{
    if words.len() > 0 {
        let rest = words.skip(1);
        lemma_first_opening(t, rest);
        if language::correction_after(t, words[0]@) is None {
            if exists|i: int|
                0 <= i < words.len() && language::correction_after(
                    t,
                    (#[trigger] words[i])@,
                ) is Some {
                let i = choose|i: int|
                    0 <= i < words.len() && language::correction_after(
                        t,
                        (#[trigger] words[i])@,
                    ) is Some;
                assert(rest[i - 1] == words[i]);
            }
            if exists|i: int|
                0 <= i < rest.len() && language::correction_after(
                    t,
                    (#[trigger] rest[i])@,
                ) is Some {
                let i = choose|i: int|
                    0 <= i < rest.len() && language::correction_after(
                        t,
                        (#[trigger] rest[i])@,
                    ) is Some;
                assert(words[i + 1] == rest[i]);
            }
        }
    }
}

/// A text that is no answer is a correction exactly when it opens with one of these words, in any
/// case, and white space or a separator behind it. Everything else has nothing to do with it.
pub proof fn lemma_only_corrections_are_corrections(content: Seq<char>)
    ensures
        ({
            let t = text::trimmed_white(content);
            let meaning = language::confirmation_of(content);
            let opened = opens_with(t, "更正"@) || opens_with(t, "修正"@) || opens_with(t, "改成"@)
                || opens_with(t, "其實"@) || opens_with(t, "其实"@) || opens_with(t, "不是"@)
                || opens_with(t, "correction"@) || opens_with(t, "actually"@);
            &&& meaning is Correction ==> opened
            &&& opened ==> meaning is Correction || meaning is Affirmative || meaning is Negative
            &&& meaning is Unrelated ==> !opened
        }),
{
    let t = text::trimmed_white(content);
    let words = language::correction_prefixes();
    reveal_strlit("更正");
    reveal_strlit("修正");
    reveal_strlit("改成");
    reveal_strlit("其實");
    reveal_strlit("其实");
    reveal_strlit("不是");
    reveal_strlit("correction");
    reveal_strlit("actually");
    lemma_opening(t, "更正"@);
    lemma_opening(t, "修正"@);
    lemma_opening(t, "改成"@);
    lemma_opening(t, "其實"@);
    lemma_opening(t, "其实"@);
    lemma_opening(t, "不是"@);
    lemma_opening(t, "correction"@);
    lemma_opening(t, "actually"@);
    lemma_first_opening(t, words);
    assert(words.len() == 8);
    assert(words[0]@ == "更正"@);
    assert(words[1]@ == "修正"@);
    assert(words[2]@ == "改成"@);
    assert(words[3]@ == "其實"@);
    assert(words[4]@ == "其实"@);
    assert(words[5]@ == "不是"@);
    assert(words[6]@ == "correction"@);
    assert(words[7]@ == "actually"@);
    if language::first_correction(t, words) is Some {
        let i = choose|i: int|
            0 <= i < words.len() && language::correction_after(t, (#[trigger] words[i])@) is Some;
        assert(i == 0 || i == 1 || i == 2 || i == 3 || i == 4 || i == 5 || i == 6 || i == 7);
    }
}

} // verus!
