//! What an operator says and types: confirmations, corrections, named targets and tasks.
//!
//! Commands come as finalized speech transcripts in Chinese or English. Texts are sequences of
//! characters throughout, and positions are character positions.

use vstd::prelude::*;
use vstd::slice::slice_subrange;
use vstd::string::*;
use crate::text;
use crate::text::CharClass;

verus! {

/// What a text message means to an intent that waits for confirmation.
#[derive(Debug, Clone, PartialEq, Eq)]
pub enum Confirmation {
    Affirmative,
    Negative,
    /// A correction, with what it says.
    Correction(String),
    Unrelated,
}

/// A confirmation as a mathematical value.
#[verifier::ext_equal]
pub enum ConfirmationModel {
    Affirmative,
    Negative,
    Correction(Seq<char>),
    Unrelated,
}

impl View for Confirmation {
    type V = ConfirmationModel;

    open spec fn view(&self) -> ConfirmationModel {
        match self {
            Confirmation::Affirmative => ConfirmationModel::Affirmative,
            Confirmation::Negative => ConfirmationModel::Negative,
            Confirmation::Correction(s) => ConfirmationModel::Correction(s@),
            Confirmation::Unrelated => ConfirmationModel::Unrelated,
        }
    }
}

/// The answers that confirm.
pub open spec fn affirmatives() -> Seq<&'static str> {
    seq!["對", "对", "是", "是的", "好", "好的", "沒錯", "没错", "yes", "y", "correct", "confirm"]
}

/// The answers that cancel.
pub open spec fn negatives() -> Seq<&'static str> {
    seq!["不是", "不對", "不对", "不要", "取消", "no", "nope", "cancel"]
}

/// The words that open a correction.
pub open spec fn correction_prefixes() -> Seq<&'static str> {
    seq!["更正", "修正", "改成", "其實", "其实", "不是", "correction", "actually"]
}

/// What follows the word that opens a correction: something must, and it must start with white
/// space or a separator.
pub open spec fn correction_after(trimmed: Seq<char>, prefix: Seq<char>) -> Option<Seq<char>> {
    let rest = trimmed.skip(prefix.len() as int);
    if text::begins_with(text::ascii_lowered(trimmed), prefix) && rest.len() > 0
        && CharClass::CorrectionGap.has(rest[0]) {
        Some(text::trimmed_white(text::trimmed_start(rest, CharClass::CorrectionGap)))
    } else {
        None
    }
}

/// The correction that the first fitting word opens.
pub open spec fn first_correction(trimmed: Seq<char>, prefixes: Seq<&str>) -> Option<Seq<char>>
    decreases prefixes.len(),
{
    if prefixes.len() == 0 {
        None
    } else {
        match correction_after(trimmed, prefixes[0]@) {
            Some(correction) => Some(correction),
            None => first_correction(trimmed, prefixes.skip(1)),
        }
    }
}

/// What a text message means. Confirmations and cancellations are exact words; punctuation
/// around them and the case of ASCII letters make no difference.
pub open spec fn confirmation_of(content: Seq<char>) -> ConfirmationModel {
    let trimmed = text::trimmed_white(content);
    let exact = text::ascii_lowered(
        text::trimmed_white(text::trimmed(trimmed, CharClass::ConfirmationPunctuation)),
    );
    if text::one_of(exact, affirmatives()) {
        ConfirmationModel::Affirmative
    } else if text::one_of(exact, negatives()) {
        ConfirmationModel::Negative
    } else {
        match first_correction(trimmed, correction_prefixes()) {
            Some(correction) => ConfirmationModel::Correction(correction),
            None => ConfirmationModel::Unrelated,
        }
    }
}

/// What follows the word that opens a correction.
fn strip_correction_prefix(trimmed: &[char], prefix: &str) -> (r: Option<String>)
    ensures
        match r {
            Some(s) => correction_after(trimmed@, prefix@) == Some(s@),
            None => correction_after(trimmed@, prefix@) is None,
        },
{
    let lowered = text::to_ascii_lowercase(trimmed);
    let prefix = text::to_chars(prefix);
    if !text::starts_with(lowered.as_slice(), prefix.as_slice()) {
        return None;
    }
    let rest = slice_subrange(trimmed, prefix.len(), trimmed.len());
    assert(rest@ =~= trimmed@.skip(prefix@.len() as int));
    if rest.len() == 0 || !CharClass::CorrectionGap.test(rest[0]) {
        return None;
    }
    Some(text::from_chars(text::trim_white(text::trim_start(rest, CharClass::CorrectionGap))))
}

/// Decides what a text message means to an intent that waits for confirmation.
pub fn classify_confirmation(content: &str) -> (r: Confirmation)
    ensures
        r@ == confirmation_of(content@),
{
    let chars = text::to_chars(content);
    let trimmed = text::trim_white(chars.as_slice());
    let exact = text::to_ascii_lowercase(
        text::trim_white(text::trim(trimmed, CharClass::ConfirmationPunctuation)),
    );
    let affirmative = [
        "對",
        "对",
        "是",
        "是的",
        "好",
        "好的",
        "沒錯",
        "没错",
        "yes",
        "y",
        "correct",
        "confirm",
    ];
    assert(affirmative@ =~= affirmatives());
    if text::is_one_of(exact.as_slice(), affirmative.as_slice()) {
        return Confirmation::Affirmative;
    }
    let negative = ["不是", "不對", "不对", "不要", "取消", "no", "nope", "cancel"];
    assert(negative@ =~= negatives());
    if text::is_one_of(exact.as_slice(), negative.as_slice()) {
        return Confirmation::Negative;
    }
    let prefixes = ["更正", "修正", "改成", "其實", "其实", "不是", "correction", "actually"];
    let ghost all = prefixes@;
    assert(all =~= correction_prefixes());
    let mut i: usize = 0;
    assert(all.skip(0) =~= all);
    while i < prefixes.len()
        invariant
            i <= prefixes@.len(),
            all == prefixes@,
            first_correction(trimmed@, all) == first_correction(trimmed@, all.skip(i as int)),
            confirmation_of(content@) == match first_correction(trimmed@, all) {
                Some(correction) => ConfirmationModel::Correction(correction),
                None => ConfirmationModel::Unrelated,
            },
        decreases prefixes@.len() - i,
    {
        assert(all.skip(i as int)[0] == all[i as int]);
        assert(all.skip(i as int).skip(1) =~= all.skip(i + 1));
        match strip_correction_prefix(trimmed, prefixes[i]) {
            Some(correction) => return Confirmation::Correction(correction),
            None => {},
        }
        i = i + 1;
    }
    Confirmation::Unrelated
}

/// A text without command separators and white space around it.
pub open spec fn bare(s: Seq<char>) -> Seq<char> {
    text::trimmed_white(text::trimmed(s, CharClass::CommandGap))
}

/// Drops command separators and white space around a text.
pub fn trim_bare(s: &[char]) -> (r: &[char])
    ensures
        r@ == bare(s@),
{
    text::trim_white(text::trim(s, CharClass::CommandGap))
}

pub open spec fn all_letters(s: Seq<char>) -> bool {
    forall|i: int| 0 <= i < s.len() ==> text::is_ascii_letter(#[trigger] s[i])
}

pub open spec fn all_letters_or_white(s: Seq<char>) -> bool {
    forall|i: int|
        0 <= i < s.len() ==> text::is_ascii_letter(#[trigger] s[i]) || text::is_white(s[i])
}

pub open spec fn all_word_chars(s: Seq<char>) -> bool {
    forall|i: int| 0 <= i < s.len() ==> text::is_word_char(#[trigger] s[i])
}

fn is_all_letters(s: &[char]) -> (r: bool)
    ensures
        r == all_letters(s@),
{
    let mut i: usize = 0;
    while i < s.len()
        invariant
            i <= s@.len(),
            forall|j: int| 0 <= j < i ==> text::is_ascii_letter(#[trigger] s@[j]),
        decreases s@.len() - i,
    {
        if !text::is_ascii_alphabetic(s[i]) {
            assert(!text::is_ascii_letter(s@[i as int]));
            return false;
        }
        i = i + 1;
    }
    true
}

fn is_all_letters_or_white(s: &[char]) -> (r: bool)
    ensures
        r == all_letters_or_white(s@),
{
    let mut i: usize = 0;
    while i < s.len()
        invariant
            i <= s@.len(),
            forall|j: int|
                0 <= j < i ==> text::is_ascii_letter(#[trigger] s@[j]) || text::is_white(s@[j]),
        decreases s@.len() - i,
    {
        if !text::is_ascii_alphabetic(s[i]) && !text::is_whitespace(s[i]) {
            assert(!text::is_ascii_letter(s@[i as int]));
            return false;
        }
        i = i + 1;
    }
    true
}

pub fn is_all_word_chars(s: &[char]) -> (r: bool)
    ensures
        r == all_word_chars(s@),
{
    let mut i: usize = 0;
    while i < s.len()
        invariant
            i <= s@.len(),
            forall|j: int| 0 <= j < i ==> text::is_word_char(#[trigger] s@[j]),
        decreases s@.len() - i,
    {
        if !text::is_ascii_word(s[i]) {
            assert(!text::is_word_char(s@[i as int]));
            return false;
        }
        i = i + 1;
    }
    true
}

/// The words before a task that are not part of it.
pub open spec fn leading_fillers() -> Seq<&'static str> {
    seq!["請幫我", "请帮我", "幫我", "帮我", "請", "请", "去", "to", "please"]
}

/// Chinese fillers that any task may follow directly.
pub open spec fn is_loose_filler(prefix: Seq<char>) -> bool {
    prefix == "幫我"@ || prefix == "帮我"@ || prefix == "請幫我"@ || prefix == "请帮我"@
}

/// What follows a filler, where the text starts with it as a word of its own.
pub open spec fn after_filler(task: Seq<char>, prefix: Seq<char>) -> Option<Seq<char>> {
    let rest = task.skip(prefix.len() as int);
    if !text::begins_with(text::ascii_lowered(task), prefix) {
        None
    } else if rest.len() == 0 {
        Some(rest)
    } else if all_letters(prefix) {
        if text::is_word_char(rest[0]) {
            None
        } else {
            Some(rest)
        }
    } else if is_loose_filler(prefix) || CharClass::CommandGap.has(rest[0])
        || text::is_ascii_letter(rest[0]) || text::is_digit(rest[0]) {
        Some(rest)
    } else {
        None
    }
}

/// What follows the first filler that fits.
pub open spec fn after_first_filler(task: Seq<char>, fillers: Seq<&str>) -> Option<Seq<char>>
    decreases fillers.len(),
{
    if fillers.len() == 0 {
        None
    } else {
        match after_filler(task, fillers[0]@) {
            Some(rest) => Some(rest),
            None => after_first_filler(task, fillers.skip(1)),
        }
    }
}

/// Fillers are not empty.
proof fn lemma_fillers_nonempty()
    ensures
        forall|i: int| 0 <= i < leading_fillers().len() ==> (#[trigger] leading_fillers()[i])@.len()
            > 0,
{
    reveal_strlit("請幫我");
    reveal_strlit("请帮我");
    reveal_strlit("幫我");
    reveal_strlit("帮我");
    reveal_strlit("請");
    reveal_strlit("请");
    reveal_strlit("去");
    reveal_strlit("to");
    reveal_strlit("please");
}

/// What follows a filler is shorter.
proof fn lemma_after_first_filler_shorter(task: Seq<char>, fillers: Seq<&str>)
    requires
        forall|i: int| 0 <= i < fillers.len() ==> (#[trigger] fillers[i])@.len() > 0,
    ensures
        after_first_filler(task, fillers) matches Some(rest) ==> rest.len() < task.len(),
    decreases fillers.len(),
{
    if fillers.len() > 0 {
        assert(fillers[0]@.len() > 0);
        lemma_after_first_filler_shorter(task, fillers.skip(1));
    }
}

/// Trimming never makes a text longer.
pub proof fn lemma_trimmed_shorter(s: Seq<char>, class: CharClass)
    ensures
        text::trimmed_start(s, class).len() <= s.len(),
        text::trimmed_end(s, class).len() <= s.len(),
        text::trimmed(s, class).len() <= s.len(),
    decreases s.len(),
{
    lemma_trimmed_start_shorter(s, class);
    lemma_trimmed_end_shorter(s, class);
    lemma_trimmed_end_shorter(text::trimmed_start(s, class), class);
}

proof fn lemma_trimmed_start_shorter(s: Seq<char>, class: CharClass)
    ensures
        text::trimmed_start(s, class).len() <= s.len(),
    decreases s.len(),
{
    if s.len() > 0 && class.has(s[0]) {
        lemma_trimmed_start_shorter(s.skip(1), class);
    }
}

proof fn lemma_trimmed_end_shorter(s: Seq<char>, class: CharClass)
    ensures
        text::trimmed_end(s, class).len() <= s.len(),
    decreases s.len(),
{
    if s.len() > 0 && class.has(s.last()) {
        lemma_trimmed_end_shorter(s.drop_last(), class);
    }
}

proof fn lemma_bare_shorter(s: Seq<char>)
    ensures
        bare(s).len() <= s.len(),
{
    lemma_trimmed_shorter(s, CharClass::CommandGap);
    lemma_trimmed_shorter(text::trimmed(s, CharClass::CommandGap), CharClass::White);
}

proof fn lemma_filler_step_shorter(task: Seq<char>)
    ensures
        after_first_filler(task, leading_fillers()) matches Some(rest) ==> bare(rest).len()
            < task.len(),
{
    lemma_fillers_nonempty();
    lemma_after_first_filler_shorter(task, leading_fillers());
    match after_first_filler(task, leading_fillers()) {
        Some(rest) => {
            lemma_bare_shorter(rest);
        },
        None => {},
    }
}

/// A task without the fillers before it.
pub open spec fn without_fillers(task: Seq<char>) -> Seq<char>
    decreases task.len(),
    via without_fillers_terminates
{
    match after_first_filler(task, leading_fillers()) {
        Some(rest) => without_fillers(bare(rest)),
        None => task,
    }
}

#[via_fn]
proof fn without_fillers_terminates(task: Seq<char>) {
    lemma_filler_step_shorter(task);
}

/// The task that a text comes to, if anything is left of it.
pub open spec fn task_of(s: Seq<char>) -> Option<Seq<char>> {
    let task = without_fillers(bare(s));
    if task.len() == 0 {
        None
    } else {
        Some(task)
    }
}

/// What follows a filler, where the text starts with it as a word of its own.
pub fn strip_task_connector<'a>(task: &'a [char], prefix: &str) -> (r: Option<&'a [char]>)
    ensures
        match r {
            Some(rest) => after_filler(task@, prefix@) == Some(rest@),
            None => after_filler(task@, prefix@) is None,
        },
{
    let lowered = text::to_ascii_lowercase(task);
    let letters = text::to_chars(prefix);
    if !text::starts_with(lowered.as_slice(), letters.as_slice()) {
        return None;
    }
    let rest = slice_subrange(task, letters.len(), task.len());
    assert(rest@ =~= task@.skip(prefix@.len() as int));
    if rest.len() == 0 {
        return Some(rest);
    }
    let next = rest[0];
    if is_all_letters(letters.as_slice()) {
        return if text::is_ascii_word(next) {
            None
        } else {
            Some(rest)
        };
    }
    let loose = text::str_eq(prefix, "幫我") || text::str_eq(prefix, "帮我") || text::str_eq(
        prefix,
        "請幫我",
    ) || text::str_eq(prefix, "请帮我");
    if loose || CharClass::CommandGap.test(next) || text::is_ascii_alphabetic(next)
        || text::is_ascii_digit(next) {
        Some(rest)
    } else {
        None
    }
}

/// What follows the first filler that fits.
fn strip_first_filler(task: &[char]) -> (r: Option<&[char]>)
    ensures
        match r {
            Some(rest) => after_first_filler(task@, leading_fillers()) == Some(rest@),
            None => after_first_filler(task@, leading_fillers()) is None,
        },
{
    let fillers = ["請幫我", "请帮我", "幫我", "帮我", "請", "请", "去", "to", "please"];
    let ghost all = fillers@;
    assert(all =~= leading_fillers());
    let mut i: usize = 0;
    assert(all.skip(0) =~= all);
    while i < fillers.len()
        invariant
            i <= fillers@.len(),
            all == fillers@,
            all == leading_fillers(),
            after_first_filler(task@, all) == after_first_filler(task@, all.skip(i as int)),
        decreases fillers@.len() - i,
    {
        assert(all.skip(i as int)[0] == all[i as int]);
        assert(all.skip(i as int).skip(1) =~= all.skip(i + 1));
        match strip_task_connector(task, fillers[i]) {
            Some(rest) => return Some(rest),
            None => {},
        }
        i = i + 1;
    }
    None
}

/// The task that a text comes to, if anything is left of it.
pub fn clean_task(s: &[char]) -> (r: Option<&[char]>)
    ensures
        match r {
            Some(task) => task_of(s@) == Some(task@),
            None => task_of(s@) is None,
        },
{
    let mut task = trim_bare(s);
    loop
        invariant
            without_fillers(bare(s@)) == without_fillers(task@),
        ensures
            without_fillers(bare(s@)) == task@,
        decreases task@.len(),
    {
        proof {
            lemma_filler_step_shorter(task@);
        }
        match strip_first_filler(task) {
            Some(rest) => {
                task = trim_bare(rest);
            },
            None => {
                break;
            },
        }
    }
    if task.len() == 0 {
        None
    } else {
        Some(task)
    }
}

/// The words that start a task for the voice agent itself.
pub open spec fn local_actions() -> Seq<&'static str> {
    seq![
        "檢查",
        "检查",
        "執行",
        "执行",
        "修復",
        "修复",
        "整理",
        "總結",
        "总结",
        "調查",
        "调查",
        "查看",
        "review",
        "check",
        "inspect",
        "run",
        "fix",
        "summarize",
        "analyse",
        "analyze",
    ]
}

/// Whether a text starts with the given action. An English action has to be a word of its own.
pub open spec fn starts_with_action(s: Seq<char>, action: Seq<char>) -> bool {
    text::begins_with(s, action) && (!all_letters(action) || s.len() == action.len()
        || !text::is_word_char(s[action.len() as int]))
}

/// A command in lower case, without the word for "first" before it.
pub open spec fn action_command(s: Seq<char>) -> Seq<char> {
    let lowered = text::ascii_lowered(s);
    if lowered.len() > 0 && lowered[0] == '先' {
        text::trimmed_start(lowered.skip(1), CharClass::White)
    } else {
        lowered
    }
}

/// Whether a text starts with an action, possibly after the word for "first".
pub open spec fn is_local_action(s: Seq<char>) -> bool {
    exists|i: int|
        0 <= i < local_actions().len() && starts_with_action(
            action_command(s),
            (#[trigger] local_actions()[i])@,
        )
}

/// Whether a text starts with an action for the voice agent itself.
pub fn starts_with_local_action(s: &[char]) -> (r: bool)
    ensures
        r == is_local_action(s@),
{
    let lowered = text::to_ascii_lowercase(s);
    let all = lowered.as_slice();
    let command = if all.len() > 0 && all[0] == '先' {
        let rest = slice_subrange(all, 1, all.len());
        assert(rest@ =~= all@.skip(1));
        text::trim_start(rest, CharClass::White)
    } else {
        all
    };
    let actions = [
        "檢查",
        "检查",
        "執行",
        "执行",
        "修復",
        "修复",
        "整理",
        "總結",
        "总结",
        "調查",
        "调查",
        "查看",
        "review",
        "check",
        "inspect",
        "run",
        "fix",
        "summarize",
        "analyse",
        "analyze",
    ];
    assert(actions@ =~= local_actions());
    let mut i: usize = 0;
    while i < actions.len()
        invariant
            i <= actions@.len(),
            actions@ == local_actions(),
            command@ == action_command(s@),
            forall|j: int|
                0 <= j < i ==> !starts_with_action(command@, (#[trigger] local_actions()[j])@),
        decreases actions@.len() - i,
    {
        let action = text::to_chars(actions[i]);
        if text::starts_with(command, action.as_slice()) && (!is_all_letters(action.as_slice())
            || command.len() == action.len() || !text::is_ascii_word(command[action.len()])) {
            assert(starts_with_action(command@, local_actions()[i as int]@));
            return true;
        }
        i = i + 1;
    }
    false
}

/// The words with which an operator asks the voice agent itself for something.
pub open spec fn local_request_prefixes() -> Seq<&'static str> {
    seq![
        "麻煩你幫我",
        "麻烦你帮我",
        "可以請你幫我",
        "可以请你帮我",
        "請你幫我",
        "请你帮我",
        "麻煩幫我",
        "麻烦帮我",
        "可以幫我",
        "可以帮我",
        "請幫我",
        "请帮我",
        "你幫我",
        "你帮我",
        "幫我",
        "帮我",
        "could you",
        "can you",
        "please",
        "請",
        "请",
    ]
}

/// What follows such words. A bare "please" in Chinese has to be followed by an action, and
/// English words have to stand on their own.
pub open spec fn after_request(s: Seq<char>, prefix: Seq<char>) -> Option<Seq<char>> {
    let rest = s.skip(prefix.len() as int);
    if !text::begins_with(text::ascii_lowered(s), prefix) {
        None
    } else if (prefix == "請"@ || prefix == "请"@) && !is_local_action(
        text::trimmed_white(text::trimmed_start(rest, CharClass::CommandGap)),
    ) {
        None
    } else if all_letters_or_white(prefix) && rest.len() > 0 && text::is_word_char(rest[0]) {
        None
    } else {
        Some(rest)
    }
}

/// What follows the first words that fit.
pub open spec fn after_first_request(s: Seq<char>, prefixes: Seq<&str>) -> Option<Seq<char>>
    decreases prefixes.len(),
{
    if prefixes.len() == 0 {
        None
    } else {
        match after_request(s, prefixes[0]@) {
            Some(rest) => Some(rest),
            None => after_first_request(s, prefixes.skip(1)),
        }
    }
}

/// What follows the words with which an operator asks the voice agent itself for something.
pub open spec fn local_request(s: Seq<char>) -> Option<Seq<char>> {
    after_first_request(s, local_request_prefixes())
}

/// The task that a text asks the voice agent itself for.
pub open spec fn local_task(s: Seq<char>) -> Option<Seq<char>> {
    match local_request(bare(s)) {
        Some(rest) => task_of(rest),
        None => if is_local_action(bare(s)) {
            task_of(bare(s))
        } else {
            None
        },
    }
}

fn strip_request<'a>(s: &'a [char], prefix: &str) -> (r: Option<&'a [char]>)
    ensures
        match r {
            Some(rest) => after_request(s@, prefix@) == Some(rest@),
            None => after_request(s@, prefix@) is None,
        },
{
    let lowered = text::to_ascii_lowercase(s);
    let letters = text::to_chars(prefix);
    if !text::starts_with(lowered.as_slice(), letters.as_slice()) {
        return None;
    }
    let rest = slice_subrange(s, letters.len(), s.len());
    assert(rest@ =~= s@.skip(prefix@.len() as int));
    if (text::str_eq(prefix, "請") || text::str_eq(prefix, "请")) && !starts_with_local_action(
        text::trim_white(text::trim_start(rest, CharClass::CommandGap)),
    ) {
        return None;
    }
    if is_all_letters_or_white(letters.as_slice()) && rest.len() > 0 && text::is_ascii_word(
        rest[0],
    ) {
        return None;
    }
    Some(rest)
}

/// What follows the words with which an operator asks the voice agent itself for something.
pub fn strip_local_request_prefix(s: &[char]) -> (r: Option<&[char]>)
    ensures
        match r {
            Some(rest) => local_request(s@) == Some(rest@),
            None => local_request(s@) is None,
        },
{
    let prefixes = [
        "麻煩你幫我",
        "麻烦你帮我",
        "可以請你幫我",
        "可以请你帮我",
        "請你幫我",
        "请你帮我",
        "麻煩幫我",
        "麻烦帮我",
        "可以幫我",
        "可以帮我",
        "請幫我",
        "请帮我",
        "你幫我",
        "你帮我",
        "幫我",
        "帮我",
        "could you",
        "can you",
        "please",
        "請",
        "请",
    ];
    let ghost all = prefixes@;
    assert(all =~= local_request_prefixes());
    let mut i: usize = 0;
    assert(all.skip(0) =~= all);
    while i < prefixes.len()
        invariant
            i <= prefixes@.len(),
            all == prefixes@,
            all == local_request_prefixes(),
            after_first_request(s@, all) == after_first_request(s@, all.skip(i as int)),
        decreases prefixes@.len() - i,
    {
        assert(all.skip(i as int)[0] == all[i as int]);
        assert(all.skip(i as int).skip(1) =~= all.skip(i + 1));
        match strip_request(s, prefixes[i]) {
            Some(rest) => return Some(rest),
            None => {},
        }
        i = i + 1;
    }
    None
}

/// The task that a text asks the voice agent itself for.
pub fn resolve_local_task(s: &[char]) -> (r: Option<String>)
    ensures
        match r {
            Some(task) => local_task(s@) == Some(task@),
            None => local_task(s@) is None,
        },
{
    let trimmed = trim_bare(s);
    let task = match strip_local_request_prefix(trimmed) {
        Some(rest) => clean_task(rest),
        None => if starts_with_local_action(trimmed) {
            clean_task(trimmed)
        } else {
            None
        },
    };
    match task {
        Some(task) => Some(text::from_chars(task)),
        None => None,
    }
}

/// Whether a text explicitly asks the voice agent itself.
pub fn has_explicit_local_prefix(s: &[char]) -> (r: bool)
    ensures
        r == (local_request(bare(s@)) is Some),
{
    strip_local_request_prefix(trim_bare(s)).is_some()
}

/// The words that may stand before the name of a target.
pub open spec fn command_prefixes() -> Seq<&'static str> {
    seq![
        "請",
        "请",
        "叫",
        "讓",
        "让",
        "麻煩",
        "麻烦",
        "幫我叫",
        "帮我叫",
        "幫我請",
        "帮我请",
        "請幫我叫",
        "请帮我叫",
        "可以請",
        "可以请",
        "你幫我叫",
        "你帮我叫",
        "please",
        "ask",
        "tell",
        "please ask",
        "please tell",
        "have",
        "get",
    ]
}

/// Whether a text is the given words, with nothing but white space before them.
pub open spec fn is_just(s: Seq<char>, words: Seq<char>) -> bool {
    text::finishes_with(s, words) && text::blank(s.take(s.len() - words.len()))
}

/// The words before the name of a target.
pub open spec fn address(prefix: Seq<char>) -> Seq<char> {
    text::trimmed_white(text::trimmed(prefix, CharClass::CommandSeparator))
}

/// Whether a command to a target may start with the given text: with nothing, or with words that
/// address somebody.
pub open spec fn prefix_allowed(prefix: Seq<char>) -> bool {
    address(prefix).len() == 0 || exists|i: int|
        0 <= i < command_prefixes().len() && is_just(
            address(prefix),
            (#[trigger] command_prefixes()[i])@,
        )
}

/// Whether a command to a target may start with the given text.
pub fn command_prefix_allowed(prefix: &[char]) -> (r: bool)
    ensures
        r == prefix_allowed(prefix@),
{
    let words = text::trim_white(text::trim(prefix, CharClass::CommandSeparator));
    if words.len() == 0 {
        return true;
    }
    let prefixes = [
        "請",
        "请",
        "叫",
        "讓",
        "让",
        "麻煩",
        "麻烦",
        "幫我叫",
        "帮我叫",
        "幫我請",
        "帮我请",
        "請幫我叫",
        "请帮我叫",
        "可以請",
        "可以请",
        "你幫我叫",
        "你帮我叫",
        "please",
        "ask",
        "tell",
        "please ask",
        "please tell",
        "have",
        "get",
    ];
    assert(prefixes@ =~= command_prefixes());
    let mut i: usize = 0;
    while i < prefixes.len()
        invariant
            i <= prefixes@.len(),
            prefixes@ == command_prefixes(),
            words@ == address(prefix@),
            forall|j: int| 0 <= j < i ==> !is_just(words@, (#[trigger] command_prefixes()[j])@),
        decreases prefixes@.len() - i,
    {
        let candidate = text::to_chars(prefixes[i]);
        if text::ends_with_str(words, prefixes[i]) {
            let head = text::from_chars(slice_subrange(words, 0, words.len() - candidate.len()));
            assert(head@ =~= words@.take(words@.len() - candidate@.len()));
            if text::is_blank(head.as_str()) {
                assert(is_just(words@, command_prefixes()[i as int]@));
                return true;
            }
        }
        i = i + 1;
    }
    false
}

} // verus!
