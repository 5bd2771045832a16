//! What callers get of texts, bytes and JSON values.

use vstd::prelude::*;
use vstd::string::*;
use crate::bytes;
use crate::discord_voice_intent::language;
use crate::discord_voice_intent::messages;
use crate::discord_voice_intent::targets;
use crate::json::{Json, JsonModel};
use crate::laws::broker;
use crate::laws::characters;
use crate::laws::sounds::{long_at, short_at};
use crate::text;
use crate::text::CharClass;

verus! {

/// White space, separators, letters and digits are told by their code points.
pub proof fn lemma_characters_are_classified(
    c: char,
    white: bool,
    separator: bool,
    correction: bool,
    letter: bool,
    digit: bool,
    word: bool,
)
    requires
        call_ensures(text::is_whitespace, (c,), white),
        call_ensures(text::is_command_separator, (c,), separator),
        call_ensures(text::is_correction_separator, (c,), correction),
        call_ensures(text::is_ascii_alphabetic, (c,), letter),
        call_ensures(text::is_ascii_digit, (c,), digit),
        call_ensures(text::is_ascii_word, (c,), word),
    ensures
        ({
            let n = c as int;
            &&& white <==> 9 <= n <= 13 || n == 32 || n == 133 || n == 160 || n == 5760 || 8192
                <= n <= 8202 || n == 8232 || n == 8233 || n == 8239 || n == 8287 || n == 12288
            &&& separator <==> n == 33 || 44 <= n <= 46 || n == 58 || n == 59 || n == 62 || n == 63
                || n == 0x3001 || n == 0x3002 || n == 0xff01 || n == 0xff0c || n == 0xff1a || n
                == 0xff1b || n == 0xff1f
            &&& correction <==> n == 44 || n == 45 || n == 58 || n == 59 || n == 0xff0c || n
                == 0xff1a || n == 0xff1b
            &&& letter <==> 65 <= n <= 90 || 97 <= n <= 122
            &&& digit <==> 48 <= n <= 57
            &&& word <==> letter || digit || n == 95
        }),
{
    characters::lemma_white_space(c);
    characters::lemma_command_gap(c);
}

/// Texts are the same when their characters are.
pub proof fn lemma_texts_are_compared(
    a: &[char],
    b: &[char],
    s: &str,
    same: bool,
    equal: bool,
    t: &str,
    both: bool,
)
    requires
        call_ensures(text::same, (a, b), same),
        call_ensures(text::same_str, (a, s), equal),
        call_ensures(text::str_eq, (s, t), both),
    ensures
        same <==> a@ == b@,
        equal <==> a@ == s@,
        both <==> s@ == t@,
{
}

/// A text stands at a place of another when its characters do.
pub proof fn lemma_places_are_found(
    s: &[char],
    p: &[char],
    i: usize,
    at: bool,
    starts: bool,
    found: Option<usize>,
    holds: bool,
)
    requires
        call_ensures(text::stands_at, (s, p, i), at),
        call_ensures(text::starts_with, (s, p), starts),
        call_ensures(text::find_from, (s, p, i), found),
        call_ensures(text::contains_text, (s, p), holds),
    ensures
        at <==> i + p@.len() <= s@.len() && forall|j: int|
            0 <= j < p@.len() ==> s@[i + j] == #[trigger] p@[j],
        starts <==> p@.len() <= s@.len() && s@.take(p@.len() as int) == p@,
        found is Some ==> found->0 >= i && text::occurs_at(s@, p@, found->0 as int) && holds,
        found is Some ==> forall|j: int|
            i <= j < found->0 ==> !#[trigger] text::occurs_at(s@, p@, j),
        found is None ==> forall|j: int| i <= j ==> !#[trigger] text::occurs_at(s@, p@, j),
{
    characters::lemma_finding(s@, p@, i as int);
}

/// Letters are put in lower case where they are ASCII, and nothing else changes.
pub proof fn lemma_letters_are_lowered(s: &[char], r: Vec<char>, i: int)
    requires
        call_ensures(text::to_ascii_lowercase, (s,), r),
        0 <= i < s@.len(),
    ensures
        r@.len() == s@.len(),
        65 <= s@[i] as int <= 90 ==> r@[i] as int == s@[i] as int + 32,
        !(65 <= s@[i] as int <= 90) ==> r@[i] == s@[i],
{
    characters::lemma_lower_case(s@, Seq::empty());
}

/// What is split at a character and joined by it again is what it was, and no piece holds the
/// character.
pub proof fn lemma_pieces_are_joined(
    s: &[char],
    c: char,
    r: Vec<Vec<char>>,
    i: int,
    j: int,
)
    requires
        call_ensures(text::split, (s, c), r),
        0 <= i < r@.len(),
        0 <= j < r@[i]@.len(),
    ensures
        r@[i]@[j] != c,
        text::joined(text::texts(r@), seq![c]) == s@,
{
    characters::lemma_splitting(s@, c);
    assert(text::texts(r@)[i] == r@[i]@);
}

/// Texts are joined in their order, with the separator between each two.
pub proof fn lemma_texts_are_joined(
    a: String,
    b: String,
    parts: &[String],
    one: &[String],
    sep: &str,
    r: String,
    s: String,
)
    requires
        call_ensures(text::join, (parts, sep), r),
        call_ensures(text::join, (one, sep), s),
        parts@ == seq![a, b],
        one@ == seq![a],
    ensures
        r@ == a@ + sep@ + b@,
        s@ == a@,
{
    let all = text::strings(parts@);
    let first = text::strings(one@);
    assert(first =~= seq![a@]);
    assert(all =~= seq![a@] + seq![b@]);
    characters::lemma_joining(seq![a@], seq![b@], sep@);
    assert(text::joined(seq![a@], sep@) == a@);
    assert(text::joined(seq![b@], sep@) == b@) by {
        characters::lemma_joining(seq![b@], seq![b@], sep@);
        assert(seq![seq![b@][0]] =~= seq![b@]);
    }
    assert(seq![seq![a@][0]] =~= seq![a@]);
}

/// Numbers are written behind what is there, and characters as they are.
pub proof fn lemma_texts_grow(
    a: &mut String,
    n: u64,
    b: &mut String,
    s: &[char],
    plain: String,
    back: String,
    chars: &[char],
)
    requires
        call_ensures(text::push_decimal, (a, n), ()),
        call_ensures(text::push_chars, (b, s), ()),
        call_ensures(text::decimal_string, (n,), plain),
        call_ensures(text::from_chars, (chars,), back),
    ensures
        final(a)@ == old(a)@ + plain@,
        final(b)@ == old(b)@ + s@,
        back@ == chars@,
{
}

/// Trimming takes the characters of a class away at one end or at both.
pub proof fn lemma_ends_are_trimmed(
    s: &[char],
    class: CharClass,
    start: &[char],
    end: &[char],
    both: &[char],
    p: Seq<char>,
    core: Seq<char>,
    q: Seq<char>,
)
    requires
        s@ == p + core + q,
        characters::all_in(p, class),
        characters::all_in(q, class),
        characters::firm(core, class),
        call_ensures(text::trim_start, (s, class), start),
        call_ensures(text::trim_end, (s, class), end),
        call_ensures(text::trim, (s, class), both),
    ensures
        both@ == core,
        start@ == core + q,
        end@ == p + core,
{
    characters::lemma_trimming_bares(p, core, q, class);
    let left = characters::lemma_start_splits(s@, class);
    let right = characters::lemma_end_splits(s@, class);
    let rest = text::trimmed_start(s@, class);
    assert(s@ == left + rest);
    assert(s@[p.len() as int] == core[0]);
    if left.len() > p.len() {
        assert(left[p.len() as int] == core[0]);
    }
    let n = left.len() as int;
    assert(rest =~= s@.skip(n));
    if n < p.len() {
        assert(s@[n] == p[n]);
        assert(rest[0] == s@[n]);
        assert(class.has(p[n]));
    }
    assert(n == p.len());
    assert(s@.skip(n) =~= core + q);
    let front = text::trimmed_end(s@, class);
    let last = p.len() + core.len() - 1;
    assert(s@[last] == core[core.len() - 1]);
    assert(s@ == front + right);
    if right.len() > q.len() {
        assert(right[last - front.len()] == core[core.len() - 1]);
    }
    let m = front.len() as int;
    assert(front =~= s@.take(m));
    if right.len() < q.len() {
        assert(s@[m - 1] == q[m - 1 - last - 1]);
        assert(front[m - 1] == s@[m - 1]);
        assert(class.has(q[m - 1 - last - 1]));
    }
    assert(m == last + 1);
    assert(s@.take(m) =~= p + core);
}

/// Numbers are appended with their least significant byte first, and tags letter by letter.
pub proof fn lemma_bytes_are_appended(
    a: &mut Vec<u8>,
    b: &mut Vec<u8>,
    c: &mut Vec<u8>,
    n: u16,
    m: u32,
    w: char,
    x: char,
    y: char,
    z: char,
)
    requires
        call_ensures(bytes::push_le16, (a, n), ()),
        call_ensures(bytes::push_le32, (b, m), ()),
        call_ensures(bytes::push_tag, (c, w, x, y, z), ()),
    ensures
        final(a)@.len() == old(a)@.len() + 2,
        final(b)@.len() == old(b)@.len() + 4,
        final(c)@.len() == old(c)@.len() + 4,
        final(a)@.take(old(a)@.len() as int) == old(a)@,
        final(b)@.take(old(b)@.len() as int) == old(b)@,
        short_at(final(a)@, old(a)@.len() as int) == n,
        long_at(final(b)@, old(b)@.len() as int) == m,
        final(c)@[old(c)@.len() as int] == w as u8,
        final(c)@[old(c)@.len() as int + 1] == x as u8,
        final(c)@[old(c)@.len() as int + 2] == y as u8,
        final(c)@[old(c)@.len() as int + 3] == z as u8,
{
    crate::laws::sounds::lemma_numbers_are_little_endian(n as int);
    crate::laws::sounds::lemma_numbers_are_little_endian(m as int);
    let i = old(a)@.len() as int;
    let j = old(b)@.len() as int;
    assert(final(a)@[i] == bytes::le16(n as int)[0]);
    assert(final(a)@[i + 1] == bytes::le16(n as int)[1]);
    assert(final(b)@[j] == bytes::le32(m as int)[0]);
    assert(final(b)@[j + 1] == bytes::le32(m as int)[1]);
    assert(final(b)@[j + 2] == bytes::le32(m as int)[2]);
    assert(final(b)@[j + 3] == bytes::le32(m as int)[3]);
    assert(final(a)@.take(i) =~= old(a)@);
    assert(final(b)@.take(j) =~= old(b)@);
}

/// A JSON value is read as what it is: the member of an object by its name, a text as a text, a
/// truth value as one and a list by its items.
pub proof fn lemma_values_are_read(
    value: &Json,
    name: &str,
    member: Option<&Json>,
    string: Option<&str>,
    truth: Option<bool>,
    list: Option<&Vec<Json>>,
    field: Option<&str>,
)
    requires
        call_ensures(Json::get, (value, name), member),
        call_ensures(Json::as_str, (value,), string),
        call_ensures(Json::as_bool, (value,), truth),
        call_ensures(Json::as_array, (value,), list),
        call_ensures(Json::get_str, (value, name), field),
    ensures
        member is Some <==> value@.field(name@) is Some,
        member is Some ==> value@.field(name@) == Some(member->0@),
        string is Some <==> value@ is Text,
        string is Some ==> value@ == JsonModel::Text(string->0@),
        truth is Some <==> value@ is Bool,
        truth is Some ==> value@ == JsonModel::Bool(truth->0),
        list is Some <==> value@ is List,
        list is Some ==> value@->List_0.len() == list->0@.len(),
        field is Some <==> member is Some && member->0@ is Text,
        field is Some ==> member->0@ == JsonModel::Text(field->0@),
{
}

/// Words are split at white space, and none is empty.
pub proof fn lemma_words_are_listed(s: &str, r: Vec<String>, i: int, j: int)
    requires
        call_ensures(messages::split_words, (s,), r),
        0 <= i < r@.len(),
        0 <= j < r@[i]@.len(),
    ensures
        !CharClass::White.has(r@[i]@[j]),
        r@[i]@.len() > 0,
{
    broker::lemma_words(s@);
    assert(text::strings(r@)[i] == r@[i]@);
    assert(messages::words(s@)[i][j] == r@[i]@[j]);
}

/// A text is made of word characters when every one of its characters is a letter, a digit or the
/// underscore.
pub proof fn lemma_word_texts(s: &[char], r: bool)
    requires
        call_ensures(language::is_all_word_chars, (s,), r),
    ensures
        r ==> forall|i: int|
            0 <= i < s@.len() ==> {
                let n = (#[trigger] s@[i]) as int;
                48 <= n <= 57 || 65 <= n <= 90 || 97 <= n <= 122 || n == 95
            },
        !r ==> exists|i: int|
            0 <= i < s@.len() && !({
                let n = (#[trigger] s@[i]) as int;
                48 <= n <= 57 || 65 <= n <= 90 || 97 <= n <= 122 || n == 95
            }),
{
}

/// Names are compared without the white space around them and in lower case.
pub proof fn lemma_names_are_normalised(s: &str, r: String)
    requires
        call_ensures(targets::normalize_for_matching, (s,), r),
    ensures
        r@ == targets::str_lowercase(text::trimmed_white(s@)),
{
}

} // verus!
