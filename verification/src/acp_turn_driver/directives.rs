//! The directive header of agent output, and which part of the output is delivered.

use vstd::prelude::*;
use vstd::slice::slice_subrange;
use vstd::string::*;
use crate::text;

verus! {

/// What a turn starts with when its session had to be started anew.
pub const SESSION_RESET_NOTICE: &'static str = "⚠️ _Session expired, starting fresh..._\n\n";

/// Directives parsed from the leading header of agent output.
#[derive(Debug, Clone, PartialEq, Eq)]
pub struct OutputDirectives {
    /// Platform message id that the finalized answer should reply to.
    pub reply_to: Option<String>,
}

/// Whether `c` may stand in a message id.
pub open spec fn is_id_char(c: char) -> bool {
    text::is_ascii_letter(c) || text::is_digit(c) || c == '.' || c == '-' || c == '_'
}

/// Whether a text can be a message id.
pub open spec fn is_message_id(s: Seq<char>) -> bool {
    0 < s.len() <= 64 && forall|i: int| 0 <= i < s.len() ==> is_id_char(#[trigger] s[i])
}

/// Where the first `c` stands, or the end of the text.
pub open spec fn position_of(s: Seq<char>, c: char) -> int
    decreases s.len(),
{
    if s.len() == 0 || s[0] == c {
        0
    } else {
        1 + position_of(s.skip(1), c)
    }
}

pub proof fn lemma_position_of(s: Seq<char>, c: char)
    ensures
        0 <= position_of(s, c) <= s.len(),
    decreases s.len(),
{
    if s.len() > 0 && s[0] != c {
        lemma_position_of(s.skip(1), c);
    }
}

/// The first line of a text, without its line feed.
pub open spec fn first_line(s: Seq<char>) -> Seq<char> {
    s.take(position_of(s, '\n'))
}

/// What follows the first line of a text.
pub open spec fn after_first_line(s: Seq<char>) -> Seq<char> {
    let end = position_of(s, '\n');
    if end < s.len() {
        s.skip(end + 1)
    } else {
        Seq::empty()
    }
}

/// A directive: its key, its value and what follows it on its line.
#[verifier::ext_equal]
pub struct DirectiveModel {
    pub key: Seq<char>,
    pub value: Seq<char>,
    pub remainder: Seq<char>,
}

/// The directive `[[key:value]]` that a line starts with.
pub open spec fn directive_of(line: Seq<char>) -> Option<DirectiveModel> {
    let trimmed = text::trimmed_white(line);
    if !text::begins_with(trimmed, "[["@) {
        None
    } else {
        let opened = trimmed.skip(2);
        match text::occurrence_from(opened, "]]"@, 0) {
            None => None,
            Some(close) => {
                let inner = opened.take(close);
                let colon = position_of(inner, ':');
                if colon >= inner.len() {
                    None
                } else {
                    Some(
                        DirectiveModel {
                            key: text::trimmed_white(inner.take(colon)),
                            value: text::trimmed_white(inner.skip(colon + 1)),
                            remainder: text::trimmed_white(opened.skip(close + 2)),
                        },
                    )
                }
            },
        }
    }
}

/// The message to reply to, after a directive.
pub open spec fn reply_after(directive: DirectiveModel, reply: Option<Seq<char>>) -> Option<
    Seq<char>,
> {
    if directive.key == "reply_to"@ && is_message_id(directive.value) {
        Some(directive.value)
    } else {
        reply
    }
}

/// The message to reply to and the body of agent output. Directives stand on consecutive lines
/// at its start. What follows a directive on its own line belongs to the body and ends the
/// header. Directives with an unknown key are dropped like any other.
pub open spec fn parsed_output(content: Seq<char>, reply: Option<Seq<char>>) -> (
    Option<Seq<char>>,
    Seq<char>,
)
    decreases content.len(),
    via parsed_output_terminates
{
    if content.len() == 0 {
        (reply, content)
    } else {
        match directive_of(first_line(content)) {
            None => (reply, content),
            Some(directive) => {
                let rest = after_first_line(content);
                let now = reply_after(directive, reply);
                if directive.remainder.len() == 0 {
                    parsed_output(rest, now)
                } else if rest.len() == 0 {
                    (now, directive.remainder)
                } else {
                    (now, directive.remainder + "\n"@ + rest)
                }
            },
        }
    }
}

#[via_fn]
proof fn parsed_output_terminates(content: Seq<char>, reply: Option<Seq<char>>) {
    lemma_position_of(content, '\n');
}

/// Finds the first `c`, or the end of the text.
pub fn find_char(s: &[char], c: char) -> (r: usize)
    ensures
        r == position_of(s@, c),
        r <= s@.len(),
        r < s@.len() ==> s@[r as int] == c,
{
    let mut i: usize = 0;
    assert(s@.skip(0) =~= s@);
    while i < s.len() && s[i] != c
        invariant
            i <= s@.len(),
            position_of(s@, c) == i + position_of(s@.skip(i as int), c),
        decreases s@.len() - i,
    {
        assert(s@.skip(i as int).skip(1) =~= s@.skip(i + 1));
        i = i + 1;
    }
    i
}

/// Whether a text can be a message id.
fn is_reply_target(s: &[char]) -> (r: bool)
    ensures
        r == is_message_id(s@),
{
    if s.len() == 0 || s.len() > 64 {
        return false;
    }
    let mut i: usize = 0;
    while i < s.len()
        invariant
            i <= s@.len(),
            forall|j: int| 0 <= j < i ==> is_id_char(#[trigger] s@[j]),
        decreases s@.len() - i,
    {
        let c = s[i];
        if !(text::is_ascii_alphabetic(c) || text::is_ascii_digit(c) || c == '.' || c == '-' || c
            == '_') {
            assert(!is_id_char(s@[i as int]));
            return false;
        }
        i = i + 1;
    }
    true
}

/// A directive as it stands in its line.
struct Directive<'a> {
    key: &'a [char],
    value: &'a [char],
    remainder: &'a [char],
}

impl<'a> Directive<'a> {
    spec fn model(&self) -> DirectiveModel {
        DirectiveModel { key: self.key@, value: self.value@, remainder: self.remainder@ }
    }
}

/// Reads the directive that a line starts with.
fn parse_directive(line: &[char]) -> (r: Option<Directive<'_>>)
    ensures
        match r {
            Some(d) => directive_of(line@) == Some(d.model()),
            None => directive_of(line@) is None,
        },
{
    let trimmed = text::trim_white(line);
    if !text::starts_with_str(trimmed, "[[") {
        return None;
    }
    proof {
        reveal_strlit("[[");
        reveal_strlit("]]");
    }
    let opened = slice_subrange(trimmed, 2, trimmed.len());
    assert(opened@ =~= trimmed@.skip(2));
    let closing = text::to_chars("]]");
    let close = match text::find_from(opened, closing.as_slice(), 0) {
        Some(close) => close,
        None => return None,
    };
    let inner = slice_subrange(opened, 0, close);
    assert(inner@ =~= opened@.take(close as int));
    let colon = find_char(inner, ':');
    if colon >= inner.len() {
        return None;
    }
    let key = slice_subrange(inner, 0, colon);
    assert(key@ =~= inner@.take(colon as int));
    let value = slice_subrange(inner, colon + 1, inner.len());
    assert(value@ =~= inner@.skip(colon + 1));
    let remainder = slice_subrange(opened, close + 2, opened.len());
    assert(remainder@ =~= opened@.skip(close + 2));
    Some(
        Directive {
            key: text::trim_white(key),
            value: text::trim_white(value),
            remainder: text::trim_white(remainder),
        },
    )
}

/// Parses consecutive `[[key:value]]` directives at the start of output. The returned body has
/// the directive header removed. Unknown directives are ignored.
pub fn parse_output_directives(content: &str) -> (r: (OutputDirectives, String))
    ensures
        (text::opt_text(r.0.reply_to), r.1@) == parsed_output(content@, None),
{
    let all = text::to_chars(content);
    let mut rest: &[char] = all.as_slice();
    let mut reply: Option<String> = None;
    loop
        invariant
            parsed_output(content@, None) == parsed_output(rest@, text::opt_text(reply)),
        ensures
            parsed_output(content@, None) == (text::opt_text(reply), rest@),
        decreases rest@.len(),
    {
        if rest.len() == 0 {
            break;
        }
        let end = find_char(rest, '\n');
        let line = slice_subrange(rest, 0, end);
        assert(line@ =~= first_line(rest@));
        let directive = match parse_directive(line) {
            Some(directive) => directive,
            None => {
                break;
            },
        };
        let after = if end < rest.len() {
            slice_subrange(rest, end + 1, rest.len())
        } else {
            slice_subrange(rest, rest.len(), rest.len())
        };
        assert(after@ =~= after_first_line(rest@));
        let ghost before = text::opt_text(reply);
        if text::same_str(directive.key, "reply_to") && is_reply_target(directive.value) {
            reply = Some(text::from_chars(directive.value));
        }
        assert(text::opt_text(reply) == reply_after(directive.model(), before));
        if directive.remainder.len() > 0 {
            let mut body = text::from_chars(directive.remainder);
            if after.len() > 0 {
                body.append("\n");
                text::push_chars(&mut body, after);
            }
            return (OutputDirectives { reply_to: reply }, body);
        }
        rest = after;
    }
    (OutputDirectives { reply_to: reply }, text::from_chars(rest))
}

/// The number of bytes that a character takes in UTF-8.
pub open spec fn width(c: char) -> int {
    vstd::utf8::encode_scalar(c as u32).len() as int
}

/// The number of bytes that a text takes in UTF-8.
pub open spec fn byte_len(s: Seq<char>) -> int {
    vstd::utf8::encode_utf8(s).len() as int
}

/// How many characters take the first `offset` bytes of a text, if those are whole characters.
pub open spec fn chars_before(s: Seq<char>, offset: int) -> Option<int>
    decreases s.len(),
{
    if offset == 0 {
        Some(0)
    } else if s.len() == 0 || offset < width(s[0]) {
        None
    } else {
        match chars_before(s.skip(1), offset - width(s[0])) {
            Some(n) => Some(n + 1),
            None => None,
        }
    }
}

/// The text from byte `offset` on, or the whole text where no character starts there.
pub open spec fn from_offset(s: Seq<char>, offset: int) -> Seq<char> {
    match chars_before(s, offset) {
        Some(n) => s.skip(n),
        None => s,
    }
}

proof fn lemma_width(c: char)
    ensures
        width(c) == if (c as u32) < 0x80 {
            1int
        } else if (c as u32) < 0x800 {
            2
        } else if (c as u32) < 0x10000 {
            3
        } else {
            4
        },
{
}

fn char_width(c: char) -> (r: usize)
    ensures
        r == width(c),
{
    proof {
        lemma_width(c);
    }
    let n = c as u32;
    if n < 0x80 {
        1
    } else if n < 0x800 {
        2
    } else if n < 0x10000 {
        3
    } else {
        4
    }
}

proof fn lemma_chars_before_range(s: Seq<char>, offset: int)
    ensures
        chars_before(s, offset) matches Some(n) ==> 0 <= n <= s.len(),
    decreases s.len(),
{
    if offset != 0 && s.len() > 0 {
        lemma_chars_before_range(s.skip(1), offset - width(s[0]));
    }
}

/// How many characters take the first `offset` bytes of a text.
fn count_chars_before(s: &[char], offset: usize) -> (r: Option<usize>)
    ensures
        match r {
            Some(n) => chars_before(s@, offset as int) == Some(n as int) && n <= s@.len(),
            None => chars_before(s@, offset as int) is None,
        },
{
    let mut left = offset;
    let mut i: usize = 0;
    assert(s@.skip(0) =~= s@);
    while left > 0
        invariant
            i <= s@.len(),
            match chars_before(s@.skip(i as int), left as int) {
                Some(n) => chars_before(s@, offset as int) == Some(n + i),
                None => chars_before(s@, offset as int) is None,
            },
        decreases s@.len() - i,
    {
        if i >= s.len() {
            return None;
        }
        assert(s@.skip(i as int)[0] == s@[i as int]);
        assert(s@.skip(i as int).skip(1) =~= s@.skip(i + 1));
        let w = char_width(s[i]);
        if left < w {
            return None;
        }
        left = left - w;
        i = i + 1;
    }
    Some(i)
}

/// Selects the whole streamed buffer, or only the block from byte `answer_start` on, which is
/// what the agent wrote after its last tool call. An offset that does not fit the buffer selects
/// all of it.
pub fn select_delivery_text(full: &str, answer_start: usize, keep_full: bool) -> (r: &str)
    ensures
        r@ == if keep_full {
            full@
        } else {
            from_offset(full@, answer_start as int)
        },
{
    if keep_full {
        return full;
    }
    let chars = text::to_chars(full);
    match count_chars_before(chars.as_slice(), answer_start) {
        Some(n) => {
            let tail = full.substring_char(n, chars.len());
            assert(tail@ =~= full@.skip(n as int));
            tail
        },
        None => full,
    }
}

/// The message to reply to and the body that is delivered. Directives are looked for at the
/// start of the whole output; a body that starts later has none to remove.
pub open spec fn delivery_of(full: Seq<char>, answer_start: int, keep_full: bool) -> (
    Option<Seq<char>>,
    Seq<char>,
) {
    let delivered = if keep_full {
        full
    } else {
        from_offset(full, answer_start)
    };
    (
        parsed_output(full, None).0,
        if answer_start == 0 || keep_full {
            parsed_output(delivered, None).1
        } else {
            delivered
        },
    )
}

/// Resolves leading output directives and the exact body to deliver.
pub fn split_delivery(full: &str, answer_start: usize, keep_full: bool) -> (r: (
    OutputDirectives,
    String,
))
    ensures
        (text::opt_text(r.0.reply_to), r.1@) == delivery_of(full@, answer_start as int, keep_full),
{
    let (directives, _) = parse_output_directives(full);
    let delivered = select_delivery_text(full, answer_start, keep_full);
    let body = if answer_start == 0 || keep_full {
        parse_output_directives(delivered).1
    } else {
        delivered.to_owned()
    };
    (directives, body)
}

/// The body with the notice of a session that was started anew, which trimming removed.
pub open spec fn finalized(reset: bool, keep_full: bool, answer_start: int, body: Seq<char>) -> Seq<
    char,
> {
    if reset && !keep_full && answer_start > 0 {
        SESSION_RESET_NOTICE@ + body
    } else {
        body
    }
}

/// Puts the notice of a session that was started anew back in front of a trimmed body.
pub fn finalize_body(reset: bool, keep_full_text: bool, answer_start: usize, body: String) -> (r:
    String)
    ensures
        r@ == finalized(reset, keep_full_text, answer_start as int, body@),
{
    if reset && !keep_full_text && answer_start > 0 {
        String::from_str(SESSION_RESET_NOTICE).concat(body.as_str())
    } else {
        body
    }
}

proof fn lemma_byte_len_front(s: Seq<char>)
    requires
        s.len() > 0,
    ensures
        byte_len(s) == width(s[0]) + byte_len(s.skip(1)),
{
    assert(s.skip(1) =~= s.drop_first());
}

/// What was written after a point is selected by the number of bytes written before it.
pub proof fn lemma_selects_what_followed(before: Seq<char>, after: Seq<char>)
    ensures
        from_offset(before + after, byte_len(before)) == after,
    decreases before.len(),
{
    let full = before + after;
    lemma_counts_what_preceded(before, after);
    assert(full.skip(before.len() as int) =~= after);
}

proof fn lemma_counts_what_preceded(before: Seq<char>, after: Seq<char>)
    ensures
        chars_before(before + after, byte_len(before)) == Some(before.len() as int),
    decreases before.len(),
{
    let full = before + after;
    if before.len() > 0 {
        lemma_byte_len_front(before);
        lemma_width(before[0]);
        lemma_counts_what_preceded(before.skip(1), after);
        assert(full.skip(1) =~= before.skip(1) + after);
    }
}

/// Output without a directive header is its own body and names no message to reply to.
pub proof fn lemma_plain_output_is_its_body(content: Seq<char>)
    requires
        content.len() == 0 || directive_of(first_line(content)) is None,
    ensures
        parsed_output(content, None) == (None::<Seq<char>>, content),
{
}

/// A text takes at least one byte for each character.
pub proof fn lemma_byte_len_bounds(s: Seq<char>)
    ensures
        byte_len(s) >= s.len(),
    decreases s.len(),
{
    if s.len() > 0 {
        lemma_byte_len_front(s);
        lemma_width(s[0]);
        lemma_byte_len_bounds(s.skip(1));
    }
}

} // verus!
