//! Answers: directives and mentions in what an agent writes, and how an answer is delivered.

use vstd::prelude::*;
use vstd::string::*;
use crate::acp_turn;
use crate::acp_turn::TurnCompletion;
use crate::acp_turn_driver::delivery;
use crate::acp_turn_driver::delivery::{CommandModel, DeliveryModel};
use crate::acp_turn_driver::directives;
use crate::acp_turn_driver::mentions;
use crate::acp_turn_driver::turn::FinishedTurn;
use crate::laws::characters;
use crate::laws::characters::firm;
use crate::text;
use crate::text::CharClass;

verus! {

/// Whether a text holds no such character.
pub open spec fn free_of(s: Seq<char>, c: char) -> bool {
    forall|i: int| 0 <= i < s.len() ==> #[trigger] s[i] != c
}

/// A character is found at its first place.
pub proof fn lemma_first_place(s: Seq<char>, c: char, at: int)
    requires
        0 <= at <= s.len(),
        at < s.len() ==> s[at] == c,
        forall|i: int| 0 <= i < at ==> #[trigger] s[i] != c,
    ensures
        directives::position_of(s, c) == at,
    decreases s.len(),
{
    if at > 0 {
        assert(s[0] != c);
        let rest = s.skip(1);
        assert forall|i: int| 0 <= i < at - 1 implies #[trigger] rest[i] != c by {
            assert(rest[i] == s[i + 1]);
        }
        lemma_first_place(rest, c, at - 1);
    }
}

/// A text splits at its first line feed.
proof fn lemma_first_line(line: Seq<char>, rest: Seq<char>)
    requires
        free_of(line, '\n'),
    ensures
        directives::first_line(line + "\n"@ + rest) == line,
        directives::after_first_line(line + "\n"@ + rest) == rest,
        directives::first_line(line) == line,
        directives::after_first_line(line) == Seq::<char>::empty(),
{
    reveal_strlit("\n");
    let all = line + "\n"@ + rest;
    assert forall|i: int| 0 <= i < line.len() implies #[trigger] all[i] != '\n' by {
        assert(all[i] == line[i]);
    }
    assert(all[line.len() as int] == '\n');
    lemma_first_place(all, '\n', line.len() as int);
    lemma_first_place(line, '\n', line.len() as int);
    assert(all.take(line.len() as int) =~= line);
    assert(all.skip((line.len() + 1) as int) =~= rest);
    assert(line.take(line.len() as int) =~= line);
}

/// A message id has up to 64 characters: ASCII letters, digits, full stops, dashes and underscores.
pub proof fn lemma_message_ids(s: Seq<char>)
    ensures
        directives::is_message_id(s) <==> 1 <= s.len() <= 64 && forall|i: int|
            0 <= i < s.len() ==> {
                let n = (#[trigger] s[i]) as int;
                48 <= n <= 57 || 65 <= n <= 90 || 97 <= n <= 122 || n == 45 || n == 46 || n == 95
            },
{
    if directives::is_message_id(s) {
        assert forall|i: int| 0 <= i < s.len() implies {
            let n = (#[trigger] s[i]) as int;
            48 <= n <= 57 || 65 <= n <= 90 || 97 <= n <= 122 || n == 45 || n == 46 || n == 95
        } by {
            assert(directives::is_id_char(s[i]));
        }
    }
}

proof fn lemma_directive(key: Seq<char>, value: Seq<char>, remainder: Seq<char>)
    requires
        free_of(key, ':'),
        free_of(key, ']'),
        free_of(value, ']'),
        remainder.len() > 0 ==> firm(remainder, CharClass::White),
    ensures
        directives::directive_of("[["@ + key + ":"@ + value + "]]"@ + remainder) == Some(
            directives::DirectiveModel {
                key: text::trimmed_white(key),
                value: text::trimmed_white(value),
                remainder,
            },
        ),
{
    reveal_strlit("[[");
    reveal_strlit("]]");
    reveal_strlit(":");
    let line = "[["@ + key + ":"@ + value + "]]"@ + remainder;
    let none = Seq::<char>::empty();
    assert(line[0] == '[');
    if remainder.len() > 0 {
        assert(line[line.len() - 1] == remainder[remainder.len() - 1]);
    } else {
        assert(line[line.len() - 1] == ']');
    }
    assert(none + line + none =~= line);
    characters::lemma_trimming_bares(none, line, none, CharClass::White);
    assert(line.subrange(0, 2) =~= "[["@);
    let opened = line.skip(2);
    let inner = key + ":"@ + value;
    let n = inner.len() as int;
    assert(opened =~= inner + "]]"@ + remainder);
    assert(opened.subrange(n, n + 2) =~= "]]"@);
    characters::lemma_finding(opened, "]]"@, 0);
    let found = text::occurrence_from(opened, "]]"@, 0);
    assert(text::occurs_at(opened, "]]"@, n));
    let close = found->0;
    assert(close <= n);
    if close < n {
        assert(opened.subrange(close, close + 2)[0] == ']');
        assert(opened[close] == inner[close]);
        if close < key.len() {
            assert(inner[close] == key[close]);
        } else if close > key.len() {
            assert(inner[close] == value[close - key.len() - 1]);
        }
        assert(false);
    }
    assert(opened.take(n) =~= inner);
    assert forall|i: int| 0 <= i < key.len() implies #[trigger] inner[i] != ':' by {
        assert(inner[i] == key[i]);
    }
    assert(inner[key.len() as int] == ':');
    lemma_first_place(inner, ':', key.len() as int);
    assert(inner.take(key.len() as int) =~= key);
    assert(inner.skip((key.len() + 1) as int) =~= value);
    assert(opened.skip(n + 2) =~= remainder);
    if remainder.len() > 0 {
        assert(none + remainder + none =~= remainder);
        characters::lemma_trimming_bares(none, remainder, none, CharClass::White);
    } else {
        assert(remainder =~= none);
        assert(text::trimmed_white(none) == none);
    }
}

/// Directives at the start of an answer are taken away, line by line. `reply_to` names the message
/// to reply to, where it can be one; other keys are dropped. What follows a directive on its line
/// belongs to the answer and ends the directives.
pub proof fn lemma_directives_are_taken_away(
    key: Seq<char>,
    value: Seq<char>,
    remainder: Seq<char>,
    rest: Seq<char>,
    reply: Option<Seq<char>>,
)
    requires
        free_of(key, ':'),
        free_of(key, ']'),
        free_of(value, ']'),
        free_of(key, '\n'),
        free_of(value, '\n'),
        free_of(remainder, '\n'),
        remainder.len() > 0 ==> firm(remainder, CharClass::White),
    ensures
        ({
            let line = "[["@ + key + ":"@ + value + "]]"@ + remainder;
            let to = text::trimmed_white(value);
            let now = if text::trimmed_white(key) == "reply_to"@ && directives::is_message_id(to) {
                Some(to)
            } else {
                reply
            };
            &&& remainder.len() == 0 ==> directives::parsed_output(line + "\n"@ + rest, reply)
                == directives::parsed_output(rest, now)
            &&& remainder.len() == 0 ==> directives::parsed_output(line, reply) == (
                now,
                Seq::<char>::empty(),
            )
            &&& remainder.len() > 0 && rest.len() > 0 ==> directives::parsed_output(
                line + "\n"@ + rest,
                reply,
            ) == (now, remainder + "\n"@ + rest)
            &&& remainder.len() > 0 ==> directives::parsed_output(line, reply) == (now, remainder)
        }),
{
    reveal_strlit("[[");
    reveal_strlit("]]");
    reveal_strlit(":");
    let line = "[["@ + key + ":"@ + value + "]]"@ + remainder;
    lemma_directive(key, value, remainder);
    assert forall|i: int| 0 <= i < line.len() implies #[trigger] line[i] != '\n' by {
        let k = key.len() as int;
        let v = value.len() as int;
        if i < 2 {
        } else if i < 2 + k {
            assert(line[i] == key[i - 2]);
        } else if i == 2 + k {
        } else if i < 3 + k + v {
            assert(line[i] == value[i - 3 - k]);
        } else if i < 5 + k + v {
        } else {
            assert(line[i] == remainder[i - 5 - k - v]);
        }
    }
    lemma_first_line(line, rest);
    let empty = Seq::<char>::empty();
    assert(directives::parsed_output(
        empty,
        directives::reply_after(directives::directive_of(line)->0, reply),
    ).1 == empty);
}

/// An answer whose first line does not start with two brackets is left as it is.
pub proof fn lemma_plain_answers_are_left_alone(content: Seq<char>, reply: Option<Seq<char>>)
    requires
        ({
            let first = text::trimmed_white(directives::first_line(content));
            first.len() < 2 || first[0] != '[' || first[1] != '['
        }),
    ensures
        directives::parsed_output(content, reply) == (reply, content),
{
    reveal_strlit("[[");
    let first = text::trimmed_white(directives::first_line(content));
    if text::begins_with(first, "[["@) {
        assert(first.subrange(0, 2)[0] == first[0] && first.subrange(0, 2)[1] == first[1]);
    }
}

/// Cutting a text behind the bytes of its beginning leaves its end.
pub proof fn lemma_cut_behind(before: Seq<char>, after: Seq<char>)
    ensures
        directives::from_offset(
            before + after,
            vstd::utf8::encode_utf8(before).len() as int,
        ) == after,
{
    directives::lemma_selects_what_followed(before, after);
}

/// The notice of a new session is put back where only the answer behind the calls is delivered.
pub proof fn lemma_notice_is_put_back(
    reset: bool,
    keep_full: bool,
    answer_start: int,
    body: Seq<char>,
)
    ensures
        reset && !keep_full && answer_start > 0 ==> directives::finalized(
            reset,
            keep_full,
            answer_start,
            body,
        ) == "⚠️ _Session expired, starting fresh..._\n\n"@ + body,
        !reset || keep_full || answer_start <= 0 ==> directives::finalized(
            reset,
            keep_full,
            answer_start,
            body,
        ) == body,
{
}

/// Mentions are recognised: an opening bracket, an at sign, possibly a mark, digits and a closing
/// bracket. A mark for members makes no difference, one for roles does.
pub proof fn lemma_mentions_are_recognised(
    before: Seq<char>,
    mark: Seq<char>,
    digits: Seq<char>,
    after: Seq<char>,
)
    requires
        mark.len() == 0 || mark == seq!['!'] || mark == seq!['&'],
        digits.len() > 0,
        forall|i: int| 0 <= i < digits.len() ==> 48 <= (#[trigger] digits[i]) as int <= 57,
    ensures
        ({
            let s = before + seq!['<', '@'] + mark + digits + seq!['>'] + after;
            let k = before.len() as int;
            &&& mentions::is_mention_at(s, k)
            &&& mark == seq!['&'] ==> mentions::mention_at(s, k) == seq!['<', '@', '&'] + digits
                + seq!['>']
            &&& mark != seq!['&'] ==> mentions::mention_at(s, k) == seq!['<', '@'] + digits + seq![
                '>',
            ]
            &&& mentions::mentions_somebody(s)
        }),
{
    reveal_strlit("<@");
    reveal_strlit("<@&");
    reveal_strlit(">");
    let s = before + seq!['<', '@'] + mark + digits + seq!['>'] + after;
    let k = before.len() as int;
    let start = k + 2 + mark.len();
    assert(s[k] == '<' && s[k + 1] == '@');
    if mark.len() > 0 {
        assert(s[k + 2] == mark[0]);
    } else {
        assert(s[k + 2] == digits[0]);
    }
    assert(mentions::digits_start(s, k) == start);
    let rest = s.skip(start);
    assert(rest =~= digits + seq!['>'] + after);
    assert forall|i: int| 0 <= i < digits.len() implies #[trigger] rest[i] != '>' by {
        assert(rest[i] == digits[i]);
    }
    assert(rest[digits.len() as int] == '>');
    lemma_first_place(rest, '>', digits.len() as int);
    assert(s[start] == digits[0]);
    let end = start + digits.len();
    assert(mentions::mention_end(s, k) == end);
    let found = s.subrange(start, end);
    assert(found =~= digits);
    assert forall|i: int| 0 <= i < found.len() implies text::is_digit(#[trigger] found[i]) by {
        assert(found[i] == digits[i]);
    }
    assert("<@&"@ =~= seq!['<', '@', '&']);
    assert("<@"@ =~= seq!['<', '@']);
    assert(">"@ =~= seq!['>']);
    assert(mentions::is_mention_at(s, k));
    if s[k + 2] == '&' {
        assert(mark =~= seq!['&']);
    } else {
        assert(mark != seq!['&']) by {
            assert(mark.len() > 0 ==> s[k + 2] == mark[0]);
        }
    }
}

/// Nothing else is a mention.
pub proof fn lemma_only_mentions_are_mentions(s: Seq<char>, k: int) -> (r: (Seq<char>, Seq<char>))
    requires
        mentions::is_mention_at(s, k),
    ensures
        r.0.len() == 0 || r.0 == seq!['!'] || r.0 == seq!['&'],
        r.1.len() > 0,
        forall|i: int| 0 <= i < r.1.len() ==> 48 <= (#[trigger] r.1[i]) as int <= 57,
        0 <= k,
        k + 3 + r.0.len() + r.1.len() <= s.len(),
        s.subrange(k, k + 3 + r.0.len() + r.1.len()) == seq!['<', '@'] + r.0 + r.1 + seq!['>'],
{
    let start = mentions::digits_start(s, k);
    let end = mentions::mention_end(s, k);
    let mark = s.subrange(k + 2, start);
    let digits = s.subrange(start, end);
    let rest = s.skip(start);
    directives::lemma_position_of(rest, '>');
    lemma_position_holds(rest, '>');
    assert(s[end] == '>');
    assert(text::is_digit(s[start]));
    assert(start < end);
    if start == k + 3 {
        assert(mark =~= seq![s[k + 2]]);
    }
    assert(s.subrange(k, end + 1) =~= seq!['<', '@'] + mark + digits + seq!['>']);
    assert forall|i: int| 0 <= i < digits.len() implies 48 <= (#[trigger] digits[i]) as int
        <= 57 by {
        assert(text::is_digit(digits[i]));
    }
    (mark, digits)
}

proof fn lemma_position_holds(s: Seq<char>, c: char)
    ensures
        directives::position_of(s, c) < s.len() ==> s[directives::position_of(s, c)] == c,
    decreases s.len(),
{
    if s.len() > 0 && s[0] != c {
        lemma_position_holds(s.skip(1), c);
        directives::lemma_position_of(s.skip(1), c);
    }
}

/// Mentions in lines of code notify nobody: a line that starts with three backticks opens or closes
/// a block of code and mentions nobody, nor does a line inside one. Outside, every mention counts.
pub proof fn lemma_code_mentions_nobody(lines: Seq<Seq<char>>, line: Seq<char>)
    ensures
        mentions::scan(Seq::empty()) == (false, Seq::<Seq<char>>::empty()),
        ({
            let fence = line.len() >= 3 && line[0] == '`' && line[1] == '`' && line[2] == '`';
            let (inside, found) = mentions::scan(lines);
            let after = mentions::scan(lines.push(line));
            &&& fence ==> after == (!inside, found)
            &&& !fence && inside ==> after == (inside, found)
            &&& !fence && !inside ==> !after.0 && forall|m: Seq<char>| #[trigger]
                after.1.contains(m) <==> found.contains(m) || exists|k: int|
                    mentions::is_mention_at(line, k) && #[trigger] mentions::mention_at(line, k)
                        == m
        }),
{
    reveal_strlit("```");
    assert(lines.push(line).drop_last() =~= lines);
    assert("```"@ =~= seq!['`', '`', '`']);
    if line.len() >= 3 {
        let head = line.subrange(0, 3);
        assert(head[0] == line[0] && head[1] == line[1] && head[2] == line[2]);
        if line[0] == '`' && line[1] == '`' && line[2] == '`' {
            assert(head =~= "```"@);
        }
    }
    let found = mentions::scan(lines).1;
    assert forall|m: Seq<char>| #[trigger]
        mentions::line_mentions(line, line.len() as int, found).contains(m) <==> found.contains(m)
            || exists|k: int|
            mentions::is_mention_at(line, k) && #[trigger] mentions::mention_at(line, k) == m by {
        lemma_line_mentions(line, line.len() as int, found, m);
        if exists|k: int|
            mentions::is_mention_at(line, k) && #[trigger] mentions::mention_at(line, k) == m {
            let k = choose|k: int|
                mentions::is_mention_at(line, k) && #[trigger] mentions::mention_at(line, k) == m;
            assert(0 <= k < line.len());
        }
    }
}

proof fn lemma_line_mentions(line: Seq<char>, n: int, found: Seq<Seq<char>>, m: Seq<char>)
    ensures
        mentions::line_mentions(line, n, found).contains(m) <==> found.contains(m) || exists|k: int|
            0 <= k < n && mentions::is_mention_at(line, k) && #[trigger] mentions::mention_at(
                line,
                k,
            ) == m,
    decreases n,
{
    if n > 0 {
        lemma_line_mentions(line, n - 1, found, m);
        let before = mentions::line_mentions(line, n - 1, found);
        let last = mentions::mention_at(line, n - 1);
        if mentions::is_mention_at(line, n - 1) && !before.contains(last) {
            let after = before.push(last);
            if before.contains(m) {
                let i = choose|i: int| 0 <= i < before.len() && before[i] == m;
                assert(after[i] == m);
            }
            if m == last {
                assert(after[before.len() as int] == m);
            }
            if after.contains(m) && m != last {
                let i = choose|i: int| 0 <= i < after.len() && after[i] == m;
                assert(before[i] == m);
            }
        }
    }
}

/// Each mention is found once.
pub proof fn lemma_mentions_are_found_once(lines: Seq<Seq<char>>)
    ensures
        forall|i: int, j: int|
            0 <= i < j < mentions::scan(lines).1.len() ==> #[trigger] mentions::scan(lines).1[i]
                != #[trigger] mentions::scan(lines).1[j],
    decreases lines.len(),
{
    if lines.len() > 0 {
        lemma_mentions_are_found_once(lines.drop_last());
        let found = mentions::scan(lines.drop_last()).1;
        lemma_once(lines.last(), lines.last().len() as int, found);
    }
}

proof fn lemma_once(line: Seq<char>, n: int, found: Seq<Seq<char>>)
    requires
        forall|i: int, j: int|
            0 <= i < j < found.len() ==> #[trigger] found[i] != #[trigger] found[j],
    ensures
        forall|i: int, j: int|
            0 <= i < j < mentions::line_mentions(line, n, found).len()
                ==> #[trigger] mentions::line_mentions(line, n, found)[i]
                != #[trigger] mentions::line_mentions(line, n, found)[j],
    decreases n,
{
    if n > 0 {
        lemma_once(line, n - 1, found);
        let before = mentions::line_mentions(line, n - 1, found);
        let last = mentions::mention_at(line, n - 1);
        if mentions::is_mention_at(line, n - 1) && !before.contains(last) {
            let after = before.push(last);
            assert forall|i: int, j: int| 0 <= i < j < after.len() implies #[trigger] after[i]
                != #[trigger] after[j] by {
                assert(after[i] == before[i]);
                if j < before.len() {
                    assert(after[j] == before[j]);
                } else {
                    assert(before.contains(before[i]));
                }
            }
        }
    }
}

/// A part of a message repeats the mentions that it lacks on a line of its own, where that fits;
/// it is left as it is where it lacks none, or where the line does not fit.
pub proof fn lemma_parts_repeat_what_they_lack(
    chunk: Seq<char>,
    lacking: Seq<char>,
    held: Seq<Seq<char>>,
    limit: int,
)
    requires
        forall|i: int| 0 <= i < held.len() ==> text::holds_text(chunk, #[trigger] held[i]),
        !text::holds_text(chunk, lacking),
    ensures
        mentions::with_mentions(chunk, held, limit) == chunk,
        chunk.len() + 1 + lacking.len() <= limit ==> mentions::with_mentions(
            chunk,
            held.push(lacking),
            limit,
        ) == chunk + "\n"@ + lacking,
        chunk.len() + 1 + lacking.len() > limit ==> mentions::with_mentions(
            chunk,
            held.push(lacking),
            limit,
        ) == chunk,
{
    reveal_strlit("\n");
    lemma_nothing_lacks(chunk, held);
    let all = held.push(lacking);
    assert(all.drop_last() =~= held);
    assert(mentions::missing(all, chunk) =~= seq![lacking]);
    assert(text::joined(seq![lacking], " "@) == lacking);
    assert(chunk + ("\n"@ + lacking) =~= chunk + "\n"@ + lacking);
}

proof fn lemma_nothing_lacks(chunk: Seq<char>, held: Seq<Seq<char>>)
    requires
        forall|i: int| 0 <= i < held.len() ==> text::holds_text(chunk, #[trigger] held[i]),
    ensures
        mentions::missing(held, chunk) == Seq::<Seq<char>>::empty(),
    decreases held.len(),
{
    if held.len() > 0 {
        let front = held.drop_last();
        assert forall|i: int| 0 <= i < front.len() implies text::holds_text(
            chunk,
            #[trigger] front[i],
        ) by {
            assert(front[i] == held[i]);
        }
        assert(text::holds_text(chunk, held[held.len() - 1]));
        lemma_nothing_lacks(chunk, front);
    }
}

/// Mentions are repeated on Discord only, where a message has more than one part. Room is kept for
/// them there: a line feed, the mentions, and a space between each two.
pub proof fn lemma_room_for_mentions(
    content: Seq<char>,
    platform: Seq<char>,
    chunks: Seq<Seq<char>>,
    limit: int,
    found: Seq<Seq<char>>,
    one: Seq<char>,
)
    ensures
        delivery::repeats_mentions(platform) <==> platform == "discord"@,
        platform != "discord"@ ==> delivery::room(content, platform, limit) == limit
            && delivery::final_chunks(content, platform, chunks, limit) == chunks,
        chunks.len() <= 1 ==> delivery::final_chunks(content, platform, chunks, limit) == chunks,
        platform == "discord"@ && mentions::footer_len(mentions::mentions_of(content)) <= limit
            ==> delivery::room(content, platform, limit) + mentions::footer_len(
            mentions::mentions_of(content),
        ) == limit,
        platform == "discord"@ && mentions::footer_len(mentions::mentions_of(content)) > limit
            ==> delivery::room(content, platform, limit) == 0,
        mentions::footer_len(Seq::empty()) == 0,
        mentions::footer_len(found.push(one)) == mentions::footer_len(found) + 1
            + vstd::utf8::encode_utf8(one).len(),
        platform == "discord"@ && chunks.len() > 1 && mentions::mentions_of(content).len() > 0
            ==> delivery::final_chunks(content, platform, chunks, limit).len() == chunks.len()
            && forall|i: int|
            0 <= i < chunks.len() ==> #[trigger] delivery::final_chunks(
                content,
                platform,
                chunks,
                limit,
            )[i] == mentions::with_mentions(chunks[i], mentions::mentions_of(content), limit),
{
    assert(found.push(one).drop_last() =~= found);
    assert(mentions::mention_bytes(Seq::empty()) == 0);
    if found.len() == 0 {
        assert(found =~= Seq::empty());
    }
}

/// Who answers with a reply or a mention sends new messages; who has a message to edit edits it;
/// everybody else sends. The first part goes that way, and all others follow as messages.
pub proof fn lemma_first_part_leads(
    placeholder: Option<Seq<char>>,
    reply_to: Option<Seq<char>>,
    notifies: bool,
    chunks: Seq<Seq<char>>,
)
    ensures
        ({
            let plan = delivery::message_commands(placeholder, reply_to, notifies, chunks);
            &&& plan.len() == chunks.len()
            &&& forall|i: int|
                1 <= i < chunks.len() ==> #[trigger] plan[i] == CommandModel::Send(chunks[i], false)
            &&& chunks.len() > 0 && reply_to is Some ==> plan[0] == CommandModel::Reply(
                chunks[0],
                reply_to->0,
                placeholder is Some,
            )
            &&& chunks.len() > 0 && reply_to is None && placeholder is None ==> plan[0]
                == CommandModel::Send(chunks[0], false)
            &&& chunks.len() > 0 && reply_to is None && placeholder is Some && notifies ==> plan[0]
                == CommandModel::Send(chunks[0], true)
            &&& chunks.len() > 0 && reply_to is None && placeholder is Some && !notifies
                && placeholder->0 == "draft"@ ==> plan[0] == CommandModel::Send(chunks[0], false)
            &&& chunks.len() > 0 && reply_to is None && placeholder is Some && !notifies
                && placeholder->0 != "draft"@ ==> plan[0] == CommandModel::Edit(chunks[0])
        }),
{
}

/// A native stream gets what is left to write, and is finished with the first part; the others
/// follow as messages. Without an open stream all parts are messages.
pub proof fn lemma_streams_are_finished(
    turn: FinishedTurn,
    content: Seq<char>,
    chunks: Seq<Seq<char>>,
    platform: Seq<char>,
)
    ensures
        ({
            let plan = delivery::planned(turn, content, chunks, platform);
            let left = turn.native_pending@;
            let n = if left.len() > 0 {
                1int
            } else {
                0int
            };
            &&& turn.native && turn.stream_open ==> {
                &&& left.len() > 0 ==> plan[0] == CommandModel::Append(left)
                &&& chunks.len() == 0 ==> plan.len() == n + 1 && plan[n] == CommandModel::Finish(
                    content,
                )
                &&& chunks.len() > 0 ==> plan.len() == n + chunks.len() && plan[n]
                    == CommandModel::Finish(chunks[0])
                &&& forall|i: int|
                    1 <= i < chunks.len() ==> #[trigger] plan[n + i] == CommandModel::Send(
                        chunks[i],
                        false,
                    )
            }
            &&& turn.native && !turn.stream_open ==> plan.len() == chunks.len() && forall|i: int|
                0 <= i < chunks.len() ==> #[trigger] plan[i] == CommandModel::Send(chunks[i], false)
            &&& !turn.native ==> plan == delivery::message_commands(
                text::opt_text(turn.placeholder),
                text::opt_text(turn.reply_to),
                platform == "discord"@ && exists|k: int| mentions::is_mention_at(content, k),
                chunks,
            )
        }),
{
}

/// A delivery goes on to its next command. What was shown makes it delivered and what was not makes
/// it failed; a message that took the place of another has that one deleted, and an edit that did
/// not work is made up for by a new message.
pub proof fn lemma_deliveries_go_on(before: DeliveryModel, ok: bool)
    requires
        before.commands.len() > 0,
    ensures
        ({
            let after = before.reported(ok);
            let rest = before.commands.skip(1);
            let replaces = match before.commands[0] {
                CommandModel::Send(_, replaces) => replaces,
                CommandModel::Reply(_, _, replaces) => replaces,
                _ => false,
            };
            let shows = before.commands[0] is Finish || before.commands[0] is Send
                || before.commands[0] is Reply;
            &&& shows ==> after.delivered == (before.delivered || ok) && after.failed == (
            before.failed || !ok)
            &&& before.commands[0] is Append ==> after.delivered == before.delivered
                && after.failed == (before.failed || !ok)
            &&& before.commands[0] is Delete ==> after.delivered == before.delivered && after.failed
                == before.failed
            &&& before.commands[0] is Edit ==> after.delivered == (before.delivered || ok)
                && after.failed == before.failed
            &&& before.commands[0] is Edit && !ok ==> after.commands == seq![
                CommandModel::Delete,
                CommandModel::Send(before.commands[0]->Edit_0, false),
            ] + rest
            &&& !(before.commands[0] is Edit && !ok) && !(replaces && ok) ==> after.commands == rest
            &&& replaces && ok ==> after.commands == rest.push(CommandModel::Delete)
        }),
{
}

/// Speech is what was delivered of work that succeeded, and never blank.
pub proof fn lemma_only_delivered_success_is_spoken(done: TurnCompletion)
    ensures
        done.speech() is Some <==> done.execution is Succeeded && done.delivery is Delivered
            && done.output is Some && !text::blank(done.output->0.speech_text@),
        done.speech() is Some ==> done.speech()->0 == done.output->0.speech_text@,
        done.brief() is Some <==> done.execution is Succeeded && done.delivery is Delivered
            && done.output is Some && done.output->0.voice_brief is Some && !text::blank(
            done.output->0.voice_brief->0@,
        ),
        done.brief() is Some ==> done.brief()->0 == done.output->0.voice_brief->0@,
        acp_turn::speakable(Seq::empty()) is None,
{
}

proof fn lemma_offsets_are_boundaries(s: Seq<char>, offset: int)
    requires
        directives::chars_before(s, offset) is Some,
    ensures
        ({
            let n = directives::chars_before(s, offset)->0;
            0 <= n <= s.len() && vstd::utf8::encode_utf8(s.take(n)).len() == offset
        }),
    decreases s.len(),
{
    let n = directives::chars_before(s, offset)->0;
    if offset == 0 {
        assert(s.take(0) =~= Seq::empty());
    } else {
        let rest = s.skip(1);
        lemma_offsets_are_boundaries(rest, offset - directives::width(s[0]));
        assert(s.take(n).drop_first() =~= rest.take(n - 1));
        assert(s.take(n)[0] == s[0]);
    }
}

/// Where no character starts at the answer's first byte, all of the text is delivered.
pub proof fn lemma_cuts_are_between_characters(full: &str, start: usize, r: &str)
    requires
        call_ensures(directives::select_delivery_text, (full, start, false), r),
        forall|n: int|
            0 <= n <= full@.len() ==> vstd::utf8::encode_utf8(#[trigger] full@.take(n)).len()
                != start,
    ensures
        r@ == full@,
{
    if directives::chars_before(full@, start as int) is Some {
        lemma_offsets_are_boundaries(full@, start as int);
    }
}

} // verus!
