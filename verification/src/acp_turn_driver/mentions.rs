//! Mentions in Discord messages. A message that is split repeats its mentions in every part, so
//! that everybody mentioned is notified wherever they look.

use vstd::prelude::*;
use vstd::slice::slice_subrange;
use vstd::string::*;
use crate::acp_turn_driver::directives;
use crate::text;

verus! {

/// Where the digits of a mention that starts at `k` would start.
pub open spec fn digits_start(s: Seq<char>, k: int) -> int {
    if s[k + 2] == '!' || s[k + 2] == '&' {
        k + 3
    } else {
        k + 2
    }
}

/// Where the mention that starts at `k` would end.
pub open spec fn mention_end(s: Seq<char>, k: int) -> int {
    let start = digits_start(s, k);
    start + directives::position_of(s.skip(start), '>')
}

/// Whether a mention of a user or a role starts at `k`: `<@`, possibly `!` or `&`, digits, `>`.
pub open spec fn is_mention_at(s: Seq<char>, k: int) -> bool {
    &&& 0 <= k
    &&& k + 2 < s.len()
    &&& s[k] == '<'
    &&& s[k + 1] == '@'
    &&& digits_start(s, k) < s.len()
    &&& text::is_digit(s[digits_start(s, k)])
    &&& mention_end(s, k) < s.len()
    &&& text::all_digits(s.subrange(digits_start(s, k), mention_end(s, k)))
}

/// The mention that starts at `k`, in the form that names a user one way only.
pub open spec fn mention_at(s: Seq<char>, k: int) -> Seq<char> {
    let digits = s.subrange(digits_start(s, k), mention_end(s, k));
    if s[k + 2] == '&' {
        "<@&"@ + digits + ">"@
    } else {
        "<@"@ + digits + ">"@
    }
}

/// Finds the end of the mention that starts at `k`.
fn find_mention(s: &[char], k: usize) -> (r: Option<(usize, usize)>)
    requires
        k < s@.len(),
    ensures
        match r {
            Some((start, end)) => is_mention_at(s@, k as int) && start == digits_start(
                s@,
                k as int,
            ) && end == mention_end(s@, k as int) && start <= end < s@.len(),
            None => !is_mention_at(s@, k as int),
        },
{
    if s.len() < 3 || k >= s.len() - 2 {
        return None;
    }
    if s[k] != '<' || s[k + 1] != '@' {
        return None;
    }
    let start = if s[k + 2] == '!' || s[k + 2] == '&' {
        k + 3
    } else {
        k + 2
    };
    if start >= s.len() || !text::is_ascii_digit(s[start]) {
        return None;
    }
    let rest = slice_subrange(s, start, s.len());
    assert(rest@ =~= s@.skip(start as int));
    let length = directives::find_char(rest, '>');
    if length >= rest.len() {
        return None;
    }
    let mut i: usize = 0;
    while i < length
        invariant
            i <= length < rest@.len(),
            rest@ == s@.skip(start as int),
            start == digits_start(s@, k as int),
            length == directives::position_of(rest@, '>'),
            start + length < s@.len(),
            forall|j: int| 0 <= j < i ==> text::is_digit(#[trigger] rest@[j]),
        decreases length - i,
    {
        if !text::is_ascii_digit(rest[i]) {
            proof {
                let digits = s@.subrange(start as int, start + length);
                assert(digits[i as int] == rest@[i as int]);
                assert(!text::is_digit(digits[i as int]));
            }
            return None;
        }
        i = i + 1;
    }
    proof {
        let digits = s@.subrange(start as int, start + length);
        assert forall|j: int| 0 <= j < digits.len() implies text::is_digit(#[trigger] digits[j]) by {
            assert(digits[j] == rest@[j]);
        }
    }
    Some((start, start + length))
}

/// Whether a text mentions anybody.
pub open spec fn mentions_somebody(s: Seq<char>) -> bool {
    exists|k: int| is_mention_at(s, k)
}

/// Whether a message mentions a bot, a user or a role.
pub fn contains_bot_mention(content: &str) -> (r: bool)
    ensures
        r == mentions_somebody(content@),
{
    let chars = text::to_chars(content);
    let mut k: usize = 0;
    while k < chars.len()
        invariant
            k <= chars@.len(),
            chars@ == content@,
            forall|j: int| 0 <= j < k ==> !is_mention_at(content@, j),
        decreases chars@.len() - k,
    {
        if find_mention(chars.as_slice(), k).is_some() {
            return true;
        }
        k = k + 1;
    }
    false
}

/// Mentions with one more, unless it is there already.
pub open spec fn with_mention(mentions: Seq<Seq<char>>, mention: Seq<char>) -> Seq<Seq<char>> {
    if mentions.contains(mention) {
        mentions
    } else {
        mentions.push(mention)
    }
}

/// The mentions that start at the first `n` characters of a line, after those found before.
pub open spec fn line_mentions(line: Seq<char>, n: int, found: Seq<Seq<char>>) -> Seq<Seq<char>>
    decreases n,
{
    if n <= 0 {
        found
    } else {
        let before = line_mentions(line, n - 1, found);
        if is_mention_at(line, n - 1) {
            with_mention(before, mention_at(line, n - 1))
        } else {
            before
        }
    }
}

/// Whether a line after the given lines stands in a code fence, and the mentions in those lines.
/// Mentions in a code fence do not notify anybody.
pub open spec fn scan(lines: Seq<Seq<char>>) -> (bool, Seq<Seq<char>>)
    decreases lines.len(),
{
    if lines.len() == 0 {
        (false, Seq::empty())
    } else {
        let (fenced, found) = scan(lines.drop_last());
        let line = lines.last();
        if text::begins_with(line, "```"@) {
            (!fenced, found)
        } else if fenced {
            (fenced, found)
        } else {
            (fenced, line_mentions(line, line.len() as int, found))
        }
    }
}

/// The mentions of a message, each once, in the order in which they first occur.
pub open spec fn mentions_of(content: Seq<char>) -> Seq<Seq<char>> {
    scan(text::pieces(content, '\n')).1
}

fn has_string(list: &Vec<String>, s: &str) -> (r: bool)
    ensures
        r == text::strings(list@).contains(s@),
{
    let ghost all = text::strings(list@);
    let mut i: usize = 0;
    while i < list.len()
        invariant
            i <= list@.len(),
            all == text::strings(list@),
            forall|j: int| 0 <= j < i ==> all[j] != s@,
        decreases list@.len() - i,
    {
        if text::str_eq(list[i].as_str(), s) {
            assert(all[i as int] == s@);
            return true;
        }
        i = i + 1;
    }
    false
}

/// Adds the mentions of a line.
fn add_line_mentions(line: &[char], found: &mut Vec<String>)
    ensures
        text::strings(final(found)@) == line_mentions(
            line@,
            line@.len() as int,
            text::strings(old(found)@),
        ),
{
    let ghost start = text::strings(found@);
    let mut k: usize = 0;
    while k < line.len()
        invariant
            k <= line@.len(),
            text::strings(found@) == line_mentions(line@, k as int, start),
        decreases line@.len() - k,
    {
        if let Some((digits_from, end)) = find_mention(line, k) {
            let mut mention = if line[k + 2] == '&' {
                String::from_str("<@&")
            } else {
                String::from_str("<@")
            };
            text::push_chars(&mut mention, slice_subrange(line, digits_from, end));
            mention.append(">");
            assert(mention@ == mention_at(line@, k as int));
            if !has_string(found, mention.as_str()) {
                let ghost before = found@;
                found.push(mention);
                assert(text::strings(found@) =~= text::strings(before).push(mention@));
            }
        }
        k = k + 1;
    }
}

/// Finds the mentions of a message.
pub fn extract_mentions(content: &str) -> (r: Vec<String>)
    ensures
        text::strings(r@) == mentions_of(content@),
{
    let chars = text::to_chars(content);
    let lines = text::split(chars.as_slice(), '\n');
    let ghost all = text::texts(lines@);
    let mut found: Vec<String> = Vec::new();
    let mut fenced = false;
    let mut i: usize = 0;
    assert(all.take(0) =~= Seq::empty());
    assert(text::strings(found@) =~= Seq::empty());
    while i < lines.len()
        invariant
            i <= lines@.len(),
            all == text::texts(lines@),
            (fenced, text::strings(found@)) == scan(all.take(i as int)),
        decreases lines@.len() - i,
    {
        assert(all.take(i + 1).drop_last() =~= all.take(i as int));
        assert(all.take(i + 1).last() == lines@[i as int]@);
        let line = lines[i].as_slice();
        if text::starts_with_str(line, "```") {
            fenced = !fenced;
        } else if !fenced {
            add_line_mentions(line, &mut found);
        }
        i = i + 1;
    }
    assert(all.take(all.len() as int) =~= all);
    found
}

/// The bytes that mentions take together.
pub open spec fn mention_bytes(mentions: Seq<Seq<char>>) -> int
    decreases mentions.len(),
{
    if mentions.len() == 0 {
        0
    } else {
        mention_bytes(mentions.drop_last()) + directives::byte_len(mentions.last())
    }
}

/// The bytes that a line with all mentions takes: a line feed, the mentions, spaces between them.
pub open spec fn footer_len(mentions: Seq<Seq<char>>) -> int {
    if mentions.len() == 0 {
        0
    } else {
        1 + mention_bytes(mentions) + (mentions.len() - 1)
    }
}

pub proof fn lemma_mention_bytes_prefix(mentions: Seq<Seq<char>>, i: int)
    requires
        0 <= i <= mentions.len(),
    ensures
        0 <= mention_bytes(mentions.take(i)) <= mention_bytes(mentions),
    decreases mentions.len(),
{
    if i < mentions.len() {
        lemma_mention_bytes_prefix(mentions.drop_last(), i);
        assert(mentions.drop_last().take(i) =~= mentions.take(i));
    } else if i > 0 {
        lemma_mention_bytes_prefix(mentions.drop_last(), i - 1);
        assert(mentions.take(i) =~= mentions);
        assert(mentions.drop_last().take(i - 1) =~= mentions.drop_last());
    }
}

/// How many bytes to leave free for a line with all mentions, as far as there are that many.
pub fn mention_footer_len(mentions: &Vec<String>) -> (r: usize)
    ensures
        r == if footer_len(text::strings(mentions@)) <= usize::MAX {
            footer_len(text::strings(mentions@))
        } else {
            usize::MAX as int
        },
{
    if mentions.len() == 0 {
        return 0;
    }
    let ghost all = text::strings(mentions@);
    let mut total: usize = mentions.len();
    let mut i: usize = 0;
    assert(all.take(0) =~= Seq::empty());
    while i < mentions.len()
        invariant
            i <= mentions@.len(),
            all == text::strings(mentions@),
            all.len() > 0,
            total == all.len() + mention_bytes(all.take(i as int)),
            total <= usize::MAX,
        decreases mentions@.len() - i,
    {
        assert(all.take(i + 1).drop_last() =~= all.take(i as int));
        assert(all.take(i + 1).last() == mentions@[i as int]@);
        let length = mentions[i].as_str().as_bytes().len();
        if length > usize::MAX - total {
            proof {
                lemma_mention_bytes_prefix(all, i + 1);
            }
            return usize::MAX;
        }
        total = total + length;
        i = i + 1;
    }
    assert(all.take(all.len() as int) =~= all);
    total
}

/// The mentions that a part of a message does not hold.
pub open spec fn missing(mentions: Seq<Seq<char>>, chunk: Seq<char>) -> Seq<Seq<char>>
    decreases mentions.len(),
{
    if mentions.len() == 0 {
        Seq::empty()
    } else if text::holds_text(chunk, mentions.last()) {
        missing(mentions.drop_last(), chunk)
    } else {
        missing(mentions.drop_last(), chunk).push(mentions.last())
    }
}

/// A part of a message with a line that repeats the mentions it does not hold, where that line
/// fits.
pub open spec fn with_mentions(chunk: Seq<char>, mentions: Seq<Seq<char>>, limit: int) -> Seq<char> {
    let lacking = missing(mentions, chunk);
    let footer = "\n"@ + text::joined(lacking, " "@);
    if lacking.len() == 0 || chunk.len() + footer.len() > limit {
        chunk
    } else {
        chunk + footer
    }
}

/// The parts of a message, each with all mentions. A message of one part is left as it is.
pub open spec fn propagated(chunks: Seq<Seq<char>>, mentions: Seq<Seq<char>>, limit: int) -> Seq<
    Seq<char>,
> {
    if mentions.len() == 0 || chunks.len() <= 1 {
        chunks
    } else {
        chunks.map_values(|c: Seq<char>| with_mentions(c, mentions, limit))
    }
}

fn find_missing(mentions: &Vec<String>, chunk: &[char]) -> (r: Vec<String>)
    ensures
        text::strings(r@) == missing(text::strings(mentions@), chunk@),
{
    let ghost all = text::strings(mentions@);
    let mut lacking: Vec<String> = Vec::new();
    let mut i: usize = 0;
    assert(all.take(0) =~= Seq::empty());
    assert(text::strings(lacking@) =~= Seq::empty());
    while i < mentions.len()
        invariant
            i <= mentions@.len(),
            all == text::strings(mentions@),
            text::strings(lacking@) == missing(all.take(i as int), chunk@),
        decreases mentions@.len() - i,
    {
        assert(all.take(i + 1).drop_last() =~= all.take(i as int));
        assert(all.take(i + 1).last() == mentions@[i as int]@);
        let mention = text::to_chars(mentions[i].as_str());
        if !text::contains_text(chunk, mention.as_slice()) {
            let ghost before = lacking@;
            lacking.push(mentions[i].clone());
            assert(text::strings(lacking@) =~= text::strings(before).push(mention@));
        }
        i = i + 1;
    }
    assert(all.take(all.len() as int) =~= all);
    lacking
}

fn add_mentions(chunk: String, mentions: &Vec<String>, limit: usize) -> (r: String)
    ensures
        r@ == with_mentions(chunk@, text::strings(mentions@), limit as int),
{
    let chars = text::to_chars(chunk.as_str());
    let lacking = find_missing(mentions, chars.as_slice());
    if lacking.len() == 0 {
        return chunk;
    }
    let footer = String::from_str("\n").concat(text::join(lacking.as_slice(), " ").as_str());
    let length = footer.as_str().unicode_len();
    if length > limit || chars.len() > limit - length {
        chunk
    } else {
        chunk.concat(footer.as_str())
    }
}

/// Repeats the mentions of a message in each of its parts.
pub fn propagate_mentions_to_chunks(
    chunks: Vec<String>,
    mentions: &Vec<String>,
    limit: usize,
) -> (r: Vec<String>)
    ensures
        text::strings(r@) == propagated(
            text::strings(chunks@),
            text::strings(mentions@),
            limit as int,
        ),
{
    if mentions.len() == 0 || chunks.len() <= 1 {
        return chunks;
    }
    let mut out: Vec<String> = Vec::new();
    let mut i: usize = 0;
    while i < chunks.len()
        invariant
            i <= chunks@.len(),
            out@.len() == i,
            forall|j: int|
                0 <= j < i ==> (#[trigger] out@[j])@ == with_mentions(
                    chunks@[j]@,
                    text::strings(mentions@),
                    limit as int,
                ),
        decreases chunks@.len() - i,
    {
        out.push(add_mentions(chunks[i].clone(), mentions, limit));
        i = i + 1;
    }
    assert(text::strings(out@) =~= propagated(
        text::strings(chunks@),
        text::strings(mentions@),
        limit as int,
    ));
    out
}

/// Mentions that lack take no more room than all mentions.
proof fn lemma_missing_is_smaller(mentions: Seq<Seq<char>>, chunk: Seq<char>)
    ensures
        missing(mentions, chunk).len() <= mentions.len(),
        0 <= mention_bytes(missing(mentions, chunk)) <= mention_bytes(mentions),
    decreases mentions.len(),
{
    if mentions.len() > 0 {
        lemma_missing_is_smaller(mentions.drop_last(), chunk);
        let before = missing(mentions.drop_last(), chunk);
        assert(before.push(mentions.last()).drop_last() =~= before);
    }
}

/// Joined mentions take as many characters as the mentions and the spaces between them.
proof fn lemma_joined_fits(mentions: Seq<Seq<char>>)
    requires
        mentions.len() > 0,
    ensures
        text::joined(mentions, " "@).len() <= mention_bytes(mentions) + mentions.len() - 1,
    decreases mentions.len(),
{
    directives::lemma_byte_len_bounds(mentions.last());
    reveal_strlit(" ");
    if mentions.len() == 1 {
        assert(mentions.drop_last() =~= Seq::empty());
        assert(mention_bytes(mentions.drop_last()) == 0);
    } else {
        lemma_joined_fits(mentions.drop_last());
    }
}

/// Each of joined texts stands somewhere in the result.
proof fn lemma_joined_holds(parts: Seq<Seq<char>>, sep: Seq<char>, i: int)
    requires
        0 <= i < parts.len(),
    ensures
        text::holds_text(text::joined(parts, sep), parts[i]),
    decreases parts.len(),
{
    let all = text::joined(parts, sep);
    if parts.len() == 1 {
        assert(all.subrange(0, 0int + parts[0].len()) =~= parts[0]);
        assert(text::occurs_at(all, parts[0], 0));
    } else if i == parts.len() - 1 {
        let k = all.len() - parts[i].len();
        assert(all.subrange(k, k + parts[i].len()) =~= parts[i]);
        assert(text::occurs_at(all, parts[i], k));
    } else {
        let front = text::joined(parts.drop_last(), sep);
        lemma_joined_holds(parts.drop_last(), sep, i);
        let k = choose|k: int| text::occurs_at(front, parts[i], k);
        assert(all.subrange(k, k + parts[i].len()) =~= front.subrange(k, k + parts[i].len()));
        assert(text::occurs_at(all, parts[i], k));
    }
}

/// A mention that a part does not hold is among those that it lacks.
proof fn lemma_missing_is_complete(mentions: Seq<Seq<char>>, chunk: Seq<char>, i: int)
    requires
        0 <= i < mentions.len(),
        !text::holds_text(chunk, mentions[i]),
    ensures
        missing(mentions, chunk).contains(mentions[i]),
    decreases mentions.len(),
{
    let before = missing(mentions.drop_last(), chunk);
    if i == mentions.len() - 1 {
        assert(before.push(mentions.last()).last() == mentions[i]);
    } else {
        lemma_missing_is_complete(mentions.drop_last(), chunk, i);
        let k = choose|k: int| 0 <= k < before.len() && before[k] == mentions[i];
        assert(before.push(mentions.last())[k] == mentions[i]);
    }
}

/// Where a message is split into parts that leave room for all its mentions, every part holds
/// every mention, starts with the text it was split into, and stays within the limit.
pub proof fn lemma_every_part_mentions_everybody(
    chunk: Seq<char>,
    mentions: Seq<Seq<char>>,
    limit: int,
    i: int,
)
    requires
        chunk.len() + footer_len(mentions) <= limit,
        0 <= i < mentions.len(),
    ensures
        text::holds_text(with_mentions(chunk, mentions, limit), mentions[i]),
        text::begins_with(with_mentions(chunk, mentions, limit), chunk),
        with_mentions(chunk, mentions, limit).len() <= limit,
{
    let lacking = missing(mentions, chunk);
    let list = text::joined(lacking, " "@);
    let result = with_mentions(chunk, mentions, limit);
    reveal_strlit("\n");
    lemma_missing_is_smaller(mentions, chunk);
    if lacking.len() > 0 {
        lemma_joined_fits(lacking);
        assert(result == chunk + ("\n"@ + list));
    }
    assert(result.subrange(0, chunk.len() as int) =~= chunk);
    if text::holds_text(chunk, mentions[i]) {
        let k = choose|k: int| text::occurs_at(chunk, mentions[i], k);
        assert(result.subrange(k, k + mentions[i].len()) =~= chunk.subrange(
            k,
            k + mentions[i].len(),
        ));
        assert(text::occurs_at(result, mentions[i], k));
    } else {
        lemma_missing_is_complete(mentions, chunk, i);
        let j = choose|j: int| 0 <= j < lacking.len() && lacking[j] == mentions[i];
        lemma_joined_holds(lacking, " "@, j);
        let k = choose|k: int| text::occurs_at(list, mentions[i], k);
        let at = chunk.len() + 1 + k;
        assert(result.subrange(at, at + mentions[i].len()) =~= list.subrange(
            k,
            k + mentions[i].len(),
        ));
        assert(text::occurs_at(result, mentions[i], at));
    }
}

} // verus!
