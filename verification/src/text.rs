//! Text as sequences of characters: classification, trimming, searching and number
//! formatting.

use vstd::prelude::*;
use vstd::slice::slice_subrange;
use vstd::string::*;

verus! {

/// Appends one character to the end of a string.
///
/// This is `String::push` of the standard library, whose documentation promises exactly
/// that.
pub assume_specification[ String::push ](s: &mut String, c: char)
    ensures
        final(s)@ == old(s)@.push(c),
;

/// The characters of a string, in order.
pub fn to_chars(s: &str) -> (v: Vec<char>)
    ensures
        v@ == s@,
{
    let mut v: Vec<char> = Vec::new();
    for c in it: s.chars()
        invariant
            v@ == it.seq().take(it.index()),
            it.seq() == s@,
    {
        v.push(c);
    }
    v
}

/// The string made of the given characters.
pub fn from_chars(v: &[char]) -> (s: String)
    ensures
        s@ == v@,
{
    let mut s = String::new();
    let mut i: usize = 0;
    while i < v.len()
        invariant
            i <= v@.len(),
            s@ == v@.take(i as int),
        decreases v@.len() - i,
    {
        s.push(v[i]);
        i = i + 1;
    }
    s
}

/// Whether `c` has the Unicode property `White_Space`.
pub open spec fn is_white(c: char) -> bool {
    ||| '\u{9}' <= c <= '\u{d}'
    ||| c == ' '
    ||| c == '\u{85}'
    ||| c == '\u{a0}'
    ||| c == '\u{1680}'
    ||| '\u{2000}' <= c <= '\u{200a}'
    ||| c == '\u{2028}'
    ||| c == '\u{2029}'
    ||| c == '\u{202f}'
    ||| c == '\u{205f}'
    ||| c == '\u{3000}'
}

/// Whether `c` is white space, as `char::is_whitespace` has it.
pub fn is_whitespace(c: char) -> (b: bool)
    ensures
        b == is_white(c),
{
    ('\u{9}' <= c && c <= '\u{d}') || c == ' ' || c == '\u{85}' || c == '\u{a0}' || c == '\u{1680}'
        || ('\u{2000}' <= c && c <= '\u{200a}') || c == '\u{2028}' || c == '\u{2029}' || c
        == '\u{202f}' || c == '\u{205f}' || c == '\u{3000}'
}

pub open spec fn is_digit(c: char) -> bool {
    '0' <= c <= '9'
}

pub open spec fn is_ascii_letter(c: char) -> bool {
    'a' <= c <= 'z' || 'A' <= c <= 'Z'
}

/// Punctuation that separates the parts of a command.
pub open spec fn is_command_sep(c: char) -> bool {
    ||| c == ',' || c == ':' || c == ';' || c == '-' || c == '>' || c == '.' || c == '!' || c == '?'
    ||| c == '，' || c == '：' || c == '；' || c == '。' || c == '！' || c == '？' || c == '、'
}

/// Punctuation that may follow the word that opens a correction.
pub open spec fn is_correction_sep(c: char) -> bool {
    c == ':' || c == ',' || c == ';' || c == '-' || c == '：' || c == '，' || c == '；'
}

/// The classes of characters that texts are trimmed by.
#[derive(Clone, Copy, PartialEq, Eq, Structural, Debug)]
pub enum CharClass {
    /// Unicode white space.
    White,
    /// Command separators.
    CommandSeparator,
    /// Command separators and white space.
    CommandGap,
    /// Command separators and quotation marks, which may surround a confirmation.
    ConfirmationPunctuation,
    /// Correction separators and white space.
    CorrectionGap,
    /// The forward slash.
    Slash,
}

impl CharClass {
    /// Whether `c` belongs to the class.
    pub open spec fn has(self, c: char) -> bool {
        match self {
            CharClass::White => is_white(c),
            CharClass::CommandSeparator => is_command_sep(c),
            CharClass::CommandGap => is_white(c) || is_command_sep(c),
            CharClass::ConfirmationPunctuation => {
                is_command_sep(c) || c == '"' || c == '\'' || c == '「' || c == '」'
            },
            CharClass::CorrectionGap => is_white(c) || is_correction_sep(c),
            CharClass::Slash => c == '/',
        }
    }

    /// Whether `c` belongs to the class.
    pub fn test(self, c: char) -> (b: bool)
        ensures
            b == self.has(c),
    {
        match self {
            CharClass::White => is_whitespace(c),
            CharClass::CommandSeparator => is_command_separator(c),
            CharClass::CommandGap => is_whitespace(c) || is_command_separator(c),
            CharClass::ConfirmationPunctuation => {
                is_command_separator(c) || c == '"' || c == '\'' || c == '「' || c == '」'
            },
            CharClass::CorrectionGap => is_whitespace(c) || is_correction_separator(c),
            CharClass::Slash => c == '/',
        }
    }
}

/// Whether `c` separates the parts of a command.
pub fn is_command_separator(c: char) -> (b: bool)
    ensures
        b == is_command_sep(c),
{
    c == ',' || c == ':' || c == ';' || c == '-' || c == '>' || c == '.' || c == '!' || c == '?' || c
        == '，' || c == '：' || c == '；' || c == '。' || c == '！' || c == '？' || c == '、'
}

/// Whether `c` may follow the word that opens a correction.
pub fn is_correction_separator(c: char) -> (b: bool)
    ensures
        b == is_correction_sep(c),
{
    c == ':' || c == ',' || c == ';' || c == '-' || c == '：' || c == '，' || c == '；'
}

/// `s` without the characters of the class at its start.
pub open spec fn trimmed_start(s: Seq<char>, class: CharClass) -> Seq<char>
    decreases s.len(),
{
    if s.len() > 0 && class.has(s[0]) {
        trimmed_start(s.skip(1), class)
    } else {
        s
    }
}

/// `s` without the characters of the class at its end.
pub open spec fn trimmed_end(s: Seq<char>, class: CharClass) -> Seq<char>
    decreases s.len(),
{
    if s.len() > 0 && class.has(s.last()) {
        trimmed_end(s.drop_last(), class)
    } else {
        s
    }
}

/// `s` without the characters of the class at both ends.
pub open spec fn trimmed(s: Seq<char>, class: CharClass) -> Seq<char> {
    trimmed_end(trimmed_start(s, class), class)
}

/// `s` without white space at both ends.
pub open spec fn trimmed_white(s: Seq<char>) -> Seq<char> {
    trimmed(s, CharClass::White)
}

/// Drops the characters of the class at the start.
pub fn trim_start(s: &[char], class: CharClass) -> (r: &[char])
    ensures
        r@ == trimmed_start(s@, class),
{
    let mut i: usize = 0;
    assert(s@.skip(0) =~= s@);
    while i < s.len() && class.test(s[i])
        invariant
            i <= s@.len(),
            trimmed_start(s@, class) == trimmed_start(s@.skip(i as int), class),
        decreases s@.len() - i,
    {
        assert(s@.skip(i as int).skip(1) =~= s@.skip(i + 1));
        i = i + 1;
    }
    let r = slice_subrange(s, i, s.len());
    assert(r@ =~= s@.skip(i as int));
    r
}

/// Drops the characters of the class at the end.
pub fn trim_end(s: &[char], class: CharClass) -> (r: &[char])
    ensures
        r@ == trimmed_end(s@, class),
{
    let mut i: usize = s.len();
    assert(s@.take(i as int) =~= s@);
    while i > 0 && class.test(s[i - 1])
        invariant
            i <= s@.len(),
            trimmed_end(s@, class) == trimmed_end(s@.take(i as int), class),
        decreases i,
    {
        assert(s@.take(i as int).drop_last() =~= s@.take(i - 1));
        i = i - 1;
    }
    let r = slice_subrange(s, 0, i);
    assert(r@ =~= s@.take(i as int));
    r
}

/// Drops the characters of the class at both ends.
pub fn trim(s: &[char], class: CharClass) -> (r: &[char])
    ensures
        r@ == trimmed(s@, class),
{
    trim_end(trim_start(s, class), class)
}

/// Drops white space at both ends.
pub fn trim_white(s: &[char]) -> (r: &[char])
    ensures
        r@ == trimmed_white(s@),
{
    trim(s, CharClass::White)
}

/// Whether a text is nothing but white space.
pub open spec fn blank(s: Seq<char>) -> bool {
    forall|i: int| 0 <= i < s.len() ==> is_white(#[trigger] s[i])
}

/// Exactly a text of nothing but white space is trimmed to nothing.
pub proof fn lemma_blank_trims_to_nothing(s: Seq<char>)
    ensures
        blank(s) == (trimmed_white(s).len() == 0),
    decreases s.len(),
{
    if s.len() > 0 && is_white(s[0]) {
        lemma_blank_trims_to_nothing(s.skip(1));
        if blank(s.skip(1)) {
            assert forall|i: int| 0 <= i < s.len() implies is_white(#[trigger] s[i]) by {
                if i > 0 {
                    assert(is_white(s.skip(1)[i - 1]));
                }
            }
        }
    } else if s.len() > 0 {
        lemma_trim_end_keeps_first(s, CharClass::White);
    }
}

proof fn lemma_trim_end_keeps_first(s: Seq<char>, class: CharClass)
    requires
        s.len() > 0,
        !class.has(s[0]),
    ensures
        trimmed_end(s, class).len() > 0,
    decreases s.len(),
{
    if class.has(s.last()) {
        lemma_trim_end_keeps_first(s.drop_last(), class);
    }
}

/// Whether a string is nothing but white space.
pub fn is_blank(s: &str) -> (r: bool)
    ensures
        r == blank(s@),
{
    let chars = to_chars(s);
    let mut i: usize = 0;
    while i < chars.len()
        invariant
            i <= chars@.len(),
            chars@ == s@,
            forall|j: int| 0 <= j < i ==> is_white(#[trigger] chars@[j]),
        decreases chars@.len() - i,
    {
        if !is_whitespace(chars[i]) {
            assert(!is_white(chars@[i as int]));
            return false;
        }
        i = i + 1;
    }
    true
}

/// Whether two texts are equal.
pub fn same(a: &[char], b: &[char]) -> (r: bool)
    ensures
        r == (a@ == b@),
{
    if a.len() != b.len() {
        return false;
    }
    let mut i: usize = 0;
    while i < a.len()
        invariant
            a@.len() == b@.len(),
            i <= a@.len(),
            forall|j: int| 0 <= j < i ==> a@[j] == b@[j],
        decreases a@.len() - i,
    {
        if a[i] != b[i] {
            return false;
        }
        i = i + 1;
    }
    assert(a@ =~= b@);
    true
}

/// Whether a text equals a string.
pub fn same_str(a: &[char], b: &str) -> (r: bool)
    ensures
        r == (a@ == b@),
{
    let b = to_chars(b);
    same(a, b.as_slice())
}

/// Whether two strings are equal.
pub fn str_eq(a: &str, b: &str) -> (r: bool)
    ensures
        r == (a@ == b@),
{
    let a = to_chars(a);
    same_str(a.as_slice(), b)
}

/// Whether a text is one of the given strings.
pub open spec fn one_of(s: Seq<char>, options: Seq<&str>) -> bool {
    exists|i: int| 0 <= i < options.len() && s == (#[trigger] options[i])@
}

/// Whether a text is one of the given strings.
pub fn is_one_of(s: &[char], options: &[&str]) -> (r: bool)
    ensures
        r == one_of(s@, options@),
{
    let mut i: usize = 0;
    while i < options.len()
        invariant
            i <= options@.len(),
            forall|j: int| 0 <= j < i ==> s@ != (#[trigger] options@[j])@,
        decreases options@.len() - i,
    {
        if same_str(s, options[i]) {
            assert(s@ == options@[i as int]@);
            return true;
        }
        i = i + 1;
    }
    false
}

/// Whether `p` stands in `s` at position `i`.
pub open spec fn occurs_at(s: Seq<char>, p: Seq<char>, i: int) -> bool {
    0 <= i && i + p.len() <= s.len() && s.subrange(i, i + p.len()) == p
}

/// Whether `s` begins with `p`.
pub open spec fn begins_with(s: Seq<char>, p: Seq<char>) -> bool {
    occurs_at(s, p, 0)
}

/// Whether `s` ends with `p`.
pub open spec fn finishes_with(s: Seq<char>, p: Seq<char>) -> bool {
    occurs_at(s, p, s.len() - p.len())
}

/// Whether `p` stands in `s` at position `i`.
pub fn stands_at(s: &[char], p: &[char], i: usize) -> (r: bool)
    ensures
        r == occurs_at(s@, p@, i as int),
{
    if i > s.len() || p.len() > s.len() - i {
        return false;
    }
    same(slice_subrange(s, i, i + p.len()), p)
}

/// Whether `s` begins with `p`.
pub fn starts_with(s: &[char], p: &[char]) -> (r: bool)
    ensures
        r == begins_with(s@, p@),
{
    stands_at(s, p, 0)
}

/// Whether `s` begins with the string `p`.
pub fn starts_with_str(s: &[char], p: &str) -> (r: bool)
    ensures
        r == begins_with(s@, p@),
{
    let p = to_chars(p);
    starts_with(s, p.as_slice())
}

/// Whether `s` ends with the string `p`.
pub fn ends_with_str(s: &[char], p: &str) -> (r: bool)
    ensures
        r == finishes_with(s@, p@),
{
    let p = to_chars(p);
    if p.len() > s.len() {
        return false;
    }
    stands_at(s, p.as_slice(), s.len() - p.len())
}

/// The first position from `i` on at which `p` stands in `s`.
pub open spec fn occurrence_from(s: Seq<char>, p: Seq<char>, i: int) -> Option<int>
    decreases s.len() + 1 - i,
{
    if i + p.len() > s.len() {
        None
    } else if occurs_at(s, p, i) {
        Some(i)
    } else {
        occurrence_from(s, p, i + 1)
    }
}

/// The first position at or after `from` at which `p` stands in `s`.
pub fn find_from(s: &[char], p: &[char], from: usize) -> (r: Option<usize>)
    ensures
        match r {
            Some(k) => occurrence_from(s@, p@, from as int) == Some(k as int) && from <= k && k
                + p@.len() <= s@.len(),
            None => occurrence_from(s@, p@, from as int) is None,
        },
{
    let mut i: usize = from;
    while i <= s.len() && p.len() <= s.len() - i
        invariant
            from <= i,
            occurrence_from(s@, p@, from as int) == occurrence_from(s@, p@, i as int),
            i <= s@.len() || i == from,
        decreases s@.len() - i,
    {
        if stands_at(s, p, i) {
            return Some(i);
        }
        assert(i < s@.len()) by {
            if i == s@.len() {
                assert(s@.subrange(i as int, i as int) =~= p@);
            }
        }
        i = i + 1;
    }
    None
}

/// Whether `p` stands anywhere in `s`.
pub open spec fn holds_text(s: Seq<char>, p: Seq<char>) -> bool {
    exists|i: int| occurs_at(s, p, i)
}

/// An occurrence from `i` on exists exactly where the search finds one.
pub proof fn lemma_occurrence_from(s: Seq<char>, p: Seq<char>, i: int)
    requires
        0 <= i,
    ensures
        occurrence_from(s, p, i) matches Some(k) ==> i <= k && occurs_at(s, p, k) && (forall|j: int|
            i <= j < k ==> !occurs_at(s, p, j)),
        occurrence_from(s, p, i) is None ==> forall|j: int| i <= j ==> !occurs_at(s, p, j),
    decreases s.len() + 1 - i,
{
    if i + p.len() > s.len() {
    } else if occurs_at(s, p, i) {
    } else {
        lemma_occurrence_from(s, p, i + 1);
    }
}

/// Whether `p` stands anywhere in `s`.
pub fn contains_text(s: &[char], p: &[char]) -> (r: bool)
    ensures
        r == holds_text(s@, p@),
{
    proof {
        lemma_occurrence_from(s@, p@, 0);
    }
    find_from(s, p, 0).is_some()
}

/// The lower-case form of an ASCII letter; any other character is its own.
pub open spec fn ascii_lower(c: char) -> char {
    if 'A' <= c <= 'Z' {
        (c as int + 32) as char
    } else {
        c
    }
}

/// `s` with its ASCII letters in lower case.
pub open spec fn ascii_lowered(s: Seq<char>) -> Seq<char> {
    s.map_values(|c: char| ascii_lower(c))
}

/// Turns the ASCII letters of a text into lower case.
pub fn to_ascii_lowercase(s: &[char]) -> (r: Vec<char>)
    ensures
        r@ == ascii_lowered(s@),
{
    let mut r: Vec<char> = Vec::new();
    let mut i: usize = 0;
    while i < s.len()
        invariant
            i <= s@.len(),
            r@ == ascii_lowered(s@.take(i as int)),
        decreases s@.len() - i,
    {
        let c = s[i];
        let lowered = if 'A' <= c && c <= 'Z' {
            (c as u8 + 32) as char
        } else {
            c
        };
        r.push(lowered);
        assert(ascii_lowered(s@.take(i + 1)) =~= ascii_lowered(s@.take(i as int)).push(
            ascii_lower(c),
        ));
        i = i + 1;
    }
    assert(s@.take(s@.len() as int) =~= s@);
    r
}

/// Whether `c` is an ASCII letter, an ASCII digit or the underscore.
pub open spec fn is_word_char(c: char) -> bool {
    is_ascii_letter(c) || is_digit(c) || c == '_'
}

/// Whether `c` is an ASCII letter.
pub fn is_ascii_alphabetic(c: char) -> (b: bool)
    ensures
        b == is_ascii_letter(c),
{
    ('a' <= c && c <= 'z') || ('A' <= c && c <= 'Z')
}

/// Whether `c` is an ASCII digit.
pub fn is_ascii_digit(c: char) -> (b: bool)
    ensures
        b == is_digit(c),
{
    '0' <= c && c <= '9'
}

/// Whether `c` is an ASCII letter, an ASCII digit or the underscore.
pub fn is_ascii_word(c: char) -> (b: bool)
    ensures
        b == is_word_char(c),
{
    is_ascii_alphabetic(c) || is_ascii_digit(c) || c == '_'
}

/// The texts that a sequence of character vectors holds.
pub open spec fn texts(v: Seq<Vec<char>>) -> Seq<Seq<char>> {
    v.map_values(|t: Vec<char>| t@)
}

/// What an optional string holds.
pub open spec fn opt_text(s: Option<String>) -> Option<Seq<char>> {
    match s {
        Some(s) => Some(s@),
        None => None,
    }
}

/// What an optional borrowed string holds.
pub open spec fn opt_str(s: Option<&str>) -> Option<Seq<char>> {
    match s {
        Some(s) => Some(s@),
        None => None,
    }
}

/// The texts that a sequence of strings holds.
pub open spec fn strings(v: Seq<String>) -> Seq<Seq<char>> {
    v.map_values(|t: String| t@)
}

/// The pieces of `s` between the occurrences of `c`: each `c` opens a new piece, and every
/// other character belongs to the piece that is open.
pub open spec fn pieces(s: Seq<char>, c: char) -> Seq<Seq<char>>
    decreases s.len(),
{
    if s.len() == 0 {
        seq![Seq::empty()]
    } else {
        let before = pieces(s.drop_last(), c);
        if s.last() == c {
            before.push(Seq::empty())
        } else {
            before.drop_last().push(before.last().push(s.last()))
        }
    }
}

/// A text has at least one piece.
pub proof fn lemma_pieces_nonempty(s: Seq<char>, c: char)
    ensures
        pieces(s, c).len() > 0,
    decreases s.len(),
{
    if s.len() > 0 {
        lemma_pieces_nonempty(s.drop_last(), c);
    }
}

/// A text without `c` is one piece.
pub proof fn lemma_one_piece(s: Seq<char>, c: char)
    requires
        !s.contains(c),
    ensures
        pieces(s, c) == seq![s],
    decreases s.len(),
{
    if s.len() > 0 {
        assert(s.last() != c) by {
            assert(s.contains(s.last()));
        }
        assert forall|x: char| s.drop_last().contains(x) implies s.contains(x) by {
            let i = choose|i: int| 0 <= i < s.len() - 1 && s.drop_last()[i] == x;
            assert(s[i] == x);
        }
        lemma_one_piece(s.drop_last(), c);
        assert(s.drop_last().push(s.last()) =~= s);
        assert(pieces(s, c) =~= seq![s]);
    } else {
        assert(s =~= Seq::empty());
    }
}

/// What follows a `c` is split on its own.
pub proof fn lemma_pieces_concat(a: Seq<char>, b: Seq<char>, c: char)
    requires
        !b.contains(c),
    ensures
        pieces(a + seq![c] + b, c) == pieces(a, c).push(b),
    decreases b.len(),
{
    let s = a + seq![c] + b;
    if b.len() == 0 {
        assert(s.drop_last() =~= a);
        assert(b =~= Seq::empty());
    } else {
        let prefix = b.drop_last();
        assert(b.last() != c) by {
            assert(b.contains(b.last()));
        }
        assert forall|x: char| prefix.contains(x) implies b.contains(x) by {
            let i = choose|i: int| 0 <= i < prefix.len() && prefix[i] == x;
            assert(b[i] == x);
        }
        lemma_pieces_concat(a, prefix, c);
        assert(s.drop_last() =~= a + seq![c] + prefix);
        assert(pieces(a, c).push(prefix).drop_last() =~= pieces(a, c));
        assert(prefix.push(b.last()) =~= b);
    }
}

/// Splits a text at each `c`.
pub fn split(s: &[char], c: char) -> (r: Vec<Vec<char>>)
    ensures
        texts(r@) == pieces(s@, c),
        r@.len() > 0,
{
    let mut done: Vec<Vec<char>> = Vec::new();
    let mut open: Vec<char> = Vec::new();
    let mut i: usize = 0;
    assert(texts(done@).push(open@) =~= seq![Seq::empty()]);
    assert(s@.take(0) =~= Seq::empty());
    while i < s.len()
        invariant
            i <= s@.len(),
            texts(done@).push(open@) == pieces(s@.take(i as int), c),
        decreases s@.len() - i,
    {
        let ghost before = texts(done@).push(open@);
        assert(s@.take(i + 1).drop_last() =~= s@.take(i as int));
        assert(before.drop_last() =~= texts(done@));
        if s[i] == c {
            let ghost done0 = done@;
            let mut piece: Vec<char> = Vec::new();
            std::mem::swap(&mut piece, &mut open);
            done.push(piece);
            assert(texts(done@) =~= texts(done0).push(piece@));
        } else {
            open.push(s[i]);
        }
        i = i + 1;
    }
    assert(s@.take(s@.len() as int) =~= s@);
    let ghost done0 = done@;
    done.push(open);
    assert(texts(done@) =~= texts(done0).push(open@));
    done
}

/// The texts one after the other, with `sep` between them.
pub open spec fn joined(parts: Seq<Seq<char>>, sep: Seq<char>) -> Seq<char>
    decreases parts.len(),
{
    if parts.len() == 0 {
        Seq::empty()
    } else if parts.len() == 1 {
        parts[0]
    } else {
        joined(parts.drop_last(), sep) + sep + parts.last()
    }
}

/// Joining the pieces of a text with the character it was split at gives the text back.
pub proof fn lemma_join_pieces(s: Seq<char>, c: char)
    ensures
        joined(pieces(s, c), seq![c]) == s,
    decreases s.len(),
{
    lemma_pieces_nonempty(s, c);
    if s.len() > 0 {
        let before = pieces(s.drop_last(), c);
        lemma_join_pieces(s.drop_last(), c);
        lemma_pieces_nonempty(s.drop_last(), c);
        assert(s =~= s.drop_last().push(s.last()));
        if s.last() == c {
            assert(pieces(s, c).drop_last() =~= before);
        } else {
            assert(pieces(s, c).drop_last() =~= before.drop_last());
        }
        assert(joined(pieces(s, c), seq![c]) =~= s);
    }
}

/// Appends a text to a string.
pub fn push_chars(out: &mut String, s: &[char])
    ensures
        final(out)@ == old(out)@ + s@,
{
    let mut i: usize = 0;
    let ghost start = out@;
    assert(s@.take(0) =~= Seq::empty());
    assert(start + s@.take(0) =~= start);
    while i < s.len()
        invariant
            i <= s@.len(),
            out@ == start + s@.take(i as int),
        decreases s@.len() - i,
    {
        out.push(s[i]);
        assert(s@.take(i + 1) =~= s@.take(i as int).push(s@[i as int]));
        assert(start + s@.take(i + 1) =~= (start + s@.take(i as int)).push(s@[i as int]));
        i = i + 1;
    }
    assert(s@.take(s@.len() as int) =~= s@);
}

/// Joins strings with a separator.
pub fn join(parts: &[String], sep: &str) -> (r: String)
    ensures
        r@ == joined(strings(parts@), sep@),
{
    let mut out = String::new();
    let mut i: usize = 0;
    assert(strings(parts@.take(0)) =~= Seq::empty());
    while i < parts.len()
        invariant
            i <= parts@.len(),
            out@ == joined(strings(parts@.take(i as int)), sep@),
        decreases parts@.len() - i,
    {
        if i > 0 {
            out.append(sep);
        }
        out.append(parts[i].as_str());
        let ghost next = strings(parts@.take(i + 1));
        assert(next.drop_last() =~= strings(parts@.take(i as int)));
        assert(next.last() == parts@[i as int]@);
        i = i + 1;
    }
    assert(parts@.take(parts@.len() as int) =~= parts@);
    out
}

/// The decimal digit of value `d`.
pub open spec fn digit(d: nat) -> char {
    (48 + d) as char
}

/// The decimal form of `n`, without leading zeros.
pub open spec fn decimal(n: nat) -> Seq<char>
    decreases n,
{
    if n < 10 {
        seq![digit(n)]
    } else {
        decimal(n / 10).push(digit(n % 10))
    }
}

/// Appends the decimal form of `n`.
pub fn push_decimal(out: &mut String, n: u64)
    ensures
        final(out)@ == old(out)@ + decimal(n as nat),
    decreases n,
{
    let ghost start = out@;
    if n < 10 {
        out.push((48 + n as u8) as char);
        assert(out@ =~= start + decimal(n as nat));
    } else {
        push_decimal(out, n / 10);
        out.push((48 + (n % 10) as u8) as char);
        assert(out@ =~= start + decimal(n as nat));
    }
}

/// The decimal form of `n`.
pub fn decimal_string(n: u64) -> (s: String)
    ensures
        s@ == decimal(n as nat),
{
    let mut s = String::new();
    push_decimal(&mut s, n);
    assert(Seq::<char>::empty() + decimal(n as nat) =~= decimal(n as nat));
    s
}

/// The number that decimal digits stand for.
pub open spec fn decimal_value(s: Seq<char>) -> nat
    decreases s.len(),
{
    if s.len() == 0 {
        0
    } else {
        decimal_value(s.drop_last()) * 10 + (s.last() as nat - 48) as nat
    }
}

pub open spec fn all_digits(s: Seq<char>) -> bool {
    forall|i: int| 0 <= i < s.len() ==> is_digit(#[trigger] s[i])
}

/// The number that `s` writes: decimal digits, at least one, after an optional plus sign.
pub open spec fn parsed_number(s: Seq<char>) -> Option<nat> {
    let digits = if s.len() > 0 && s[0] == '+' {
        s.skip(1)
    } else {
        s
    };
    if digits.len() > 0 && all_digits(digits) {
        Some(decimal_value(digits))
    } else {
        None
    }
}

/// Dropping digits at the end never makes the number larger.
pub proof fn lemma_decimal_value_take(s: Seq<char>, i: int)
    requires
        0 <= i <= s.len(),
        all_digits(s),
    ensures
        decimal_value(s.take(i)) <= decimal_value(s),
    decreases s.len(),
{
    if i < s.len() {
        assert(s.drop_last().take(i) =~= s.take(i));
        lemma_decimal_value_take(s.drop_last(), i);
    } else {
        assert(s.take(i) =~= s);
    }
}

/// Reads a decimal number of at most 64 bits.
pub fn parse_u64(s: &[char]) -> (r: Option<u64>)
    ensures
        match r {
            Some(n) => parsed_number(s@) == Some(n as nat),
            None => parsed_number(s@) is None || parsed_number(s@)->0 > u64::MAX,
        },
{
    let digits = if s.len() > 0 && s[0] == '+' {
        slice_subrange(s, 1, s.len())
    } else {
        s
    };
    assert(s@.len() > 0 ==> s@.skip(1) =~= s@.subrange(1, s@.len() as int));
    if digits.len() == 0 {
        return None;
    }
    let mut i: usize = 0;
    while i < digits.len()
        invariant
            i <= digits@.len(),
            forall|j: int| 0 <= j < i ==> is_digit(#[trigger] digits@[j]),
            all_digits(digits@) || parsed_number(s@) is None,
        decreases digits@.len() - i,
    {
        if !is_ascii_digit(digits[i]) {
            assert(!is_digit(digits@[i as int]));
            return None;
        }
        i = i + 1;
    }
    let mut n: u64 = 0;
    let mut k: usize = 0;
    while k < digits.len()
        invariant
            k <= digits@.len(),
            all_digits(digits@),
            n == decimal_value(digits@.take(k as int)),
            parsed_number(s@) == Some(decimal_value(digits@)),
        decreases digits@.len() - k,
    {
        let d = (digits[k] as u32 - 48) as u64;
        proof {
            assert(digits@.take(k + 1).drop_last() =~= digits@.take(k as int));
            assert(digits@.take(k + 1).last() == digits@[k as int]);
            lemma_decimal_value_take(digits@, k + 1);
        }
        if n > u64::MAX / 10 || d > u64::MAX - n * 10 {
            return None;
        }
        n = n * 10 + d;
        k = k + 1;
    }
    assert(digits@.take(digits@.len() as int) =~= digits@);
    Some(n)
}

/// The hexadecimal digit of value `d`, in lower case.
pub open spec fn hex_digit(d: int) -> char {
    if d < 10 {
        (48 + d) as char
    } else {
        (87 + d) as char
    }
}

/// The two hexadecimal digits of each byte, in order.
pub open spec fn hex(bytes: Seq<u8>) -> Seq<char>
    decreases bytes.len(),
{
    if bytes.len() == 0 {
        Seq::empty()
    } else {
        hex(bytes.drop_last()).push(hex_digit(bytes.last() as int / 16)).push(
            hex_digit(bytes.last() as int % 16),
        )
    }
}

/// Appends the hexadecimal digit of value `d`.
fn push_hex_digit(out: &mut String, d: u8)
    requires
        d < 16,
    ensures
        final(out)@ == old(out)@.push(hex_digit(d as int)),
{
    if d < 10 {
        out.push((48 + d) as char);
    } else {
        out.push((87 + d) as char);
    }
}

/// Appends the hexadecimal form of the bytes.
pub fn push_hex(out: &mut String, bytes: &[u8])
    ensures
        final(out)@ == old(out)@ + hex(bytes@),
{
    let ghost start = out@;
    let mut i: usize = 0;
    assert(start + hex(bytes@.take(0)) =~= start);
    while i < bytes.len()
        invariant
            i <= bytes@.len(),
            out@ == start + hex(bytes@.take(i as int)),
        decreases bytes@.len() - i,
    {
        push_hex_digit(out, bytes[i] / 16);
        push_hex_digit(out, bytes[i] % 16);
        proof {
            let next = bytes@.take(i + 1);
            assert(next.drop_last() =~= bytes@.take(i as int));
            assert(next.last() == bytes@[i as int]);
            assert(out@ =~= start + hex(next));
        }
        i = i + 1;
    }
    assert(bytes@.take(bytes@.len() as int) =~= bytes@);
}

/// The bytes of a text are written with two digits each.
pub proof fn lemma_hex_len(bytes: Seq<u8>)
    ensures
        hex(bytes).len() == 2 * bytes.len(),
    decreases bytes.len(),
{
    if bytes.len() > 0 {
        lemma_hex_len(bytes.drop_last());
    }
}

} // verus!
