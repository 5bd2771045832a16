//! Characters and texts: classes, trimming, lower case, numbers, splitting and joining.

use vstd::prelude::*;
use vstd::string::*;
use crate::text;
use crate::text::CharClass;

verus! {

/// Whether `s` is `word`, but for the case of ASCII letters. The word is in lower case.
pub open spec fn any_case_of(s: Seq<char>, word: Seq<char>) -> bool {
    &&& s.len() == word.len()
    &&& forall|i: int|
        0 <= i < s.len() ==> (#[trigger] s[i] == word[i] && !(65 <= s[i] as int <= 90)) || (65
            <= s[i] as int <= 90 && s[i] as int + 32 == word[i] as int)
}

/// Whether every character of a text belongs to a class.
pub open spec fn all_in(s: Seq<char>, class: CharClass) -> bool {
    forall|i: int| 0 <= i < s.len() ==> class.has(#[trigger] s[i])
}

/// Whether a text is not empty and neither starts nor ends with a character of a class.
pub open spec fn firm(s: Seq<char>, class: CharClass) -> bool {
    s.len() > 0 && !class.has(s[0]) && !class.has(s[s.len() - 1])
}

/// White space is what Unicode calls so.
pub proof fn lemma_white_space(c: char)
    ensures
        CharClass::White.has(c) <==> {
            let n = c as int;
            9 <= n <= 13 || n == 32 || n == 133 || n == 160 || n == 5760 || 8192 <= n <= 8202 || n
                == 8232 || n == 8233 || n == 8239 || n == 8287 || n == 12288
        },
        text::blank(seq![c]) <==> CharClass::White.has(c),
{
    let one = seq![c];
    assert(one[0] == c);
    if CharClass::White.has(c) {
        assert forall|i: int| 0 <= i < one.len() implies text::is_white(#[trigger] one[i]) by {
            assert(i == 0);
        }
    }
}

/// The punctuation around a confirmation: commas, colons, semicolons, dashes, arrows, full stops,
/// exclamation and question marks in both widths, and quotation marks. White space is none of it,
/// nor is a letter, a digit or an ideograph.
pub proof fn lemma_confirmation_punctuation(c: char)
    ensures
        CharClass::ConfirmationPunctuation.has(c) <==> {
            let n = c as int;
            n == 33 || n == 34 || n == 39 || 44 <= n <= 46 || n == 58 || n == 59 || n == 62 || n
                == 63 || n == 0x3001 || n == 0x3002 || n == 0x300c || n == 0x300d || n == 0xff01
                || n == 0xff0c || n == 0xff1a || n == 0xff1b || n == 0xff1f
        },
{
}

/// What may follow the word that opens a correction: white space, and commas, colons, semicolons
/// and dashes.
pub proof fn lemma_correction_gap(c: char)
    ensures
        CharClass::CorrectionGap.has(c) <==> {
            let n = c as int;
            CharClass::White.has(c) || n == 44 || n == 45 || n == 58 || n == 59 || n == 0xff0c || n
                == 0xff1a || n == 0xff1b
        },
{
}

/// What may stand between the parts of a command: white space, or what may stand around a
/// confirmation but for quotation marks.
pub proof fn lemma_command_gap(c: char)
    ensures
        CharClass::CommandSeparator.has(c) <==> {
            let n = c as int;
            n == 33 || 44 <= n <= 46 || n == 58 || n == 59 || n == 62 || n == 63 || n == 0x3001
                || n == 0x3002 || n == 0xff01 || n == 0xff0c || n == 0xff1a || n == 0xff1b || n
                == 0xff1f
        },
        CharClass::CommandGap.has(c) <==> CharClass::White.has(c)
            || CharClass::CommandSeparator.has(c),
        CharClass::Slash.has(c) <==> c as int == 47,
{
}

/// Letters, digits and the characters of words.
pub proof fn lemma_word_characters(c: char)
    ensures
        text::is_digit(c) <==> 48 <= c as int <= 57,
        text::is_ascii_letter(c) <==> 65 <= c as int <= 90 || 97 <= c as int <= 122,
        text::is_word_char(c) <==> 48 <= c as int <= 57 || 65 <= c as int <= 90 || 97 <= c as int
            <= 122 || c as int == 95,
{
}

proof fn lemma_trim_start_core(p: Seq<char>, rest: Seq<char>, class: CharClass)
    requires
        all_in(p, class),
        rest.len() > 0 ==> !class.has(rest[0]),
    ensures
        text::trimmed_start(p + rest, class) == rest,
    decreases p.len(),
{
    if p.len() == 0 {
        assert(p + rest =~= rest);
    } else {
        assert((p + rest)[0] == p[0]);
        assert((p + rest).skip(1) =~= p.skip(1) + rest);
        assert forall|i: int| 0 <= i < p.skip(1).len() implies class.has(#[trigger] p.skip(1)[i]) by {
            assert(p.skip(1)[i] == p[i + 1]);
        }
        lemma_trim_start_core(p.skip(1), rest, class);
    }
}

proof fn lemma_trim_end_core(rest: Seq<char>, q: Seq<char>, class: CharClass)
    requires
        all_in(q, class),
        rest.len() > 0 ==> !class.has(rest[rest.len() - 1]),
    ensures
        text::trimmed_end(rest + q, class) == rest,
    decreases q.len(),
{
    if q.len() == 0 {
        assert(rest + q =~= rest);
    } else {
        assert((rest + q).last() == q[q.len() - 1]);
        assert((rest + q).drop_last() =~= rest + q.drop_last());
        assert forall|i: int| 0 <= i < q.drop_last().len() implies class.has(
            #[trigger] q.drop_last()[i],
        ) by {
            assert(q.drop_last()[i] == q[i]);
        }
        lemma_trim_end_core(rest, q.drop_last(), class);
    }
}

/// Trimming takes away what stands around a text, and nothing of it.
pub proof fn lemma_trimming_bares(p: Seq<char>, core: Seq<char>, q: Seq<char>, class: CharClass)
    requires
        all_in(p, class),
        all_in(q, class),
        firm(core, class),
    ensures
        text::trimmed_start(p + core, class) == core,
        text::trimmed_end(core + q, class) == core,
        text::trimmed(p + core + q, class) == core,
        class is White ==> text::trimmed_white(p + core + q) == core,
{
    lemma_trim_start_core(p, core, class);
    lemma_trim_end_core(core, q, class);
    assert((core + q)[0] == core[0]);
    lemma_trim_start_core(p, core + q, class);
    assert(p + core + q =~= p + (core + q));
}

/// A text is what trimming leaves of it, with nothing but characters of the class before and
/// behind. What is left is empty, or starts and ends with other characters.
pub proof fn lemma_trimming_splits(s: Seq<char>, class: CharClass) -> (r: (Seq<char>, Seq<char>))
    ensures
        s == r.0 + text::trimmed(s, class) + r.1,
        all_in(r.0, class),
        all_in(r.1, class),
        text::trimmed(s, class).len() > 0 ==> firm(text::trimmed(s, class), class),
        text::trimmed(s, class).len() == 0 ==> all_in(s, class),
{
    let p = lemma_start_splits(s, class);
    let rest = text::trimmed_start(s, class);
    let q = lemma_end_splits(rest, class);
    let core = text::trimmed_end(rest, class);
    assert(s =~= p + core + q);
    if core.len() > 0 {
        assert(rest[0] == core[0]);
    } else {
        assert forall|i: int| 0 <= i < s.len() implies class.has(#[trigger] s[i]) by {
            if i < p.len() {
                assert(s[i] == p[i]);
            } else {
                assert(s[i] == q[i - p.len()]);
            }
        }
    }
    (p, q)
}

/// What trimming takes away at the start.
pub proof fn lemma_start_splits(s: Seq<char>, class: CharClass) -> (p: Seq<char>)
    ensures
        s == p + text::trimmed_start(s, class),
        all_in(p, class),
        text::trimmed_start(s, class).len() > 0 ==> !class.has(text::trimmed_start(s, class)[0]),
    decreases s.len(),
{
    if s.len() > 0 && class.has(s[0]) {
        let p = lemma_start_splits(s.skip(1), class);
        let all = seq![s[0]] + p;
        assert(s =~= seq![s[0]] + s.skip(1));
        assert(s =~= all + text::trimmed_start(s, class));
        assert forall|i: int| 0 <= i < all.len() implies class.has(#[trigger] all[i]) by {
            if i > 0 {
                assert(all[i] == p[i - 1]);
            }
        }
        all
    } else {
        assert(s =~= Seq::<char>::empty() + text::trimmed_start(s, class));
        Seq::empty()
    }
}

/// What trimming takes away at the end.
pub proof fn lemma_end_splits(s: Seq<char>, class: CharClass) -> (q: Seq<char>)
    ensures
        s == text::trimmed_end(s, class) + q,
        all_in(q, class),
        text::trimmed_end(s, class).len() > 0 ==> !class.has(
            text::trimmed_end(s, class)[text::trimmed_end(s, class).len() - 1],
        ),
    decreases s.len(),
{
    if s.len() > 0 && class.has(s.last()) {
        let q = lemma_end_splits(s.drop_last(), class);
        let all = q.push(s.last());
        assert(s =~= s.drop_last().push(s.last()));
        assert(s =~= text::trimmed_end(s, class) + all);
        assert forall|i: int| 0 <= i < all.len() implies class.has(#[trigger] all[i]) by {
            if i < q.len() {
                assert(all[i] == q[i]);
            }
        }
        all
    } else {
        assert(s =~= text::trimmed_end(s, class) + Seq::<char>::empty());
        Seq::empty()
    }
}

/// Lower case moves the 26 capital letters, and nothing else. A text in any case of a word comes
/// to the word, and no other text does.
pub proof fn lemma_lower_case(s: Seq<char>, word: Seq<char>)
    requires
        forall|i: int| 0 <= i < word.len() ==> !(65 <= #[trigger] word[i] as int <= 90),
    ensures
        text::ascii_lowered(s).len() == s.len(),
        forall|i: int|
            0 <= i < s.len() ==> (#[trigger] text::ascii_lowered(s)[i]) as int == if 65
                <= s[i] as int <= 90 {
                s[i] as int + 32
            } else {
                s[i] as int
            },
        text::ascii_lowered(s) == word <==> any_case_of(s, word),
{
    let lowered = text::ascii_lowered(s);
    assert forall|i: int| 0 <= i < s.len() implies (#[trigger] lowered[i]) as int == if 65
        <= s[i] as int <= 90 {
        s[i] as int + 32
    } else {
        s[i] as int
    } by {
        let c = s[i];
        if 'A' <= c <= 'Z' {
            assert((c as int + 32) as char as int == c as int + 32);
        }
    }
    if any_case_of(s, word) {
        assert forall|i: int| 0 <= i < s.len() implies lowered[i] == word[i] by {
            assert(s[i] == s[i]);
            assert(lowered[i] as int == word[i] as int);
        }
        assert(lowered =~= word);
    }
    if lowered == word {
        assert forall|i: int| 0 <= i < s.len() implies (#[trigger] s[i] == word[i] && !(65
            <= s[i] as int <= 90)) || (65 <= s[i] as int <= 90 && s[i] as int + 32
            == word[i] as int) by {
            assert(lowered[i] == word[i]);
        }
    }
}

/// A decimal number is written digit by digit: another digit behind a number makes ten times the
/// number, and the digit more. Nothing starts with a zero but zero.
pub proof fn lemma_decimals(n: nat, d: nat)
    requires
        d < 10,
    ensures
        text::decimal(d) == seq![(48 + d) as char],
        n > 0 ==> text::decimal(10 * n + d) == text::decimal(n).push((48 + d) as char),
        text::decimal(n).len() > 0,
        n > 0 ==> text::decimal(n)[0] as int != 48,
    decreases n,
{
    if n > 0 {
        assert((10 * n + d) / 10 == n);
        assert((10 * n + d) % 10 == d);
    }
    if n >= 10 {
        lemma_decimals(n / 10, n % 10);
    }
}

/// A number is read as it is written, with a plus sign before it or without, and another digit
/// counts as it does when it is written. Whatever holds a character that is no digit is no number.
pub proof fn lemma_numbers_are_read(n: nat, s: Seq<char>, d: nat)
    requires
        d < 10,
    ensures
        text::parsed_number(text::decimal(n)) == Some(n),
        text::parsed_number(seq!['+'] + text::decimal(n)) == Some(n),
        text::parsed_number(s) matches Some(m) ==> text::parsed_number(s.push((48 + d) as char))
            == Some(10 * m + d),
        text::parsed_number(Seq::empty()) is None,
        text::parsed_number(seq!['+']) is None,
        forall|i: int|
            0 <= i < s.len() && !(48 <= #[trigger] s[i] as int <= 57) && !(i == 0 && s[i] as int
                == 43) ==> text::parsed_number(s) is None,
{
    lemma_decimal_digits(n);
    lemma_decimals(n, 0);
    let written = text::decimal(n);
    let signed = seq!['+'] + written;
    assert(text::is_digit(written[0]));
    assert(signed.skip(1) =~= written);
    assert(Seq::<char>::empty().len() == 0);
    assert(seq!['+'].skip(1) =~= Seq::<char>::empty());
    let c = (48 + d) as char;
    if text::parsed_number(s) is Some {
        let more = s.push(c);
        let digits = if s.len() > 0 && s[0] == '+' {
            s.skip(1)
        } else {
            s
        };
        assert(more[0] == s[0]);
        if s[0] == '+' {
            assert(more.skip(1) =~= digits.push(c));
        } else {
            assert(more =~= digits.push(c));
        }
        assert(digits.push(c).drop_last() =~= digits);
        assert forall|i: int| 0 <= i < digits.push(c).len() implies text::is_digit(
            #[trigger] digits.push(c)[i],
        ) by {
            if i < digits.len() {
                assert(digits.push(c)[i] == digits[i]);
            }
        }
        assert(text::decimal_value(digits.push(c)) == text::decimal_value(digits) * 10 + d);
    }
    assert forall|i: int|
        0 <= i < s.len() && !(48 <= #[trigger] s[i] as int <= 57) && !(i == 0 && s[i] as int
            == 43) implies text::parsed_number(s) is None by {
        let digits = if s.len() > 0 && s[0] == '+' {
            s.skip(1)
        } else {
            s
        };
        if s[0] == '+' {
            assert(digits[i - 1] == s[i]);
        }
    }
}

proof fn lemma_decimal_digits(n: nat)
    ensures
        text::all_digits(text::decimal(n)),
        text::decimal_value(text::decimal(n)) == n,
    decreases n,
{
    let s = text::decimal(n);
    if n >= 10 {
        lemma_decimal_digits(n / 10);
        assert(s.drop_last() =~= text::decimal(n / 10));
        assert forall|i: int| 0 <= i < s.len() implies text::is_digit(#[trigger] s[i]) by {
            if i < s.len() - 1 {
                assert(s[i] == text::decimal(n / 10)[i]);
            }
        }
    } else {
        assert(s.drop_last() =~= Seq::empty());
        assert(text::decimal_value(s.drop_last()) == 0);
    }
}

/// Joined texts stand one after the other with the separator between each two, and nowhere else.
pub proof fn lemma_joining(one: Seq<Seq<char>>, other: Seq<Seq<char>>, sep: Seq<char>)
    requires
        one.len() > 0,
        other.len() > 0,
    ensures
        text::joined(Seq::empty(), sep) == Seq::<char>::empty(),
        text::joined(seq![one[0]], sep) == one[0],
        text::joined(one + other, sep) == text::joined(one, sep) + sep + text::joined(other, sep),
    decreases other.len(),
{
    let all = one + other;
    assert(all.drop_last() =~= one + other.drop_last());
    assert(all.last() == other.last());
    if other.len() > 1 {
        lemma_joining(one, other.drop_last(), sep);
        assert(text::joined(all, sep) =~= text::joined(one, sep) + sep + text::joined(other, sep));
    } else {
        assert(one + other.drop_last() =~= one);
    }
}

/// The pieces of a text hold no separator, and come to the text when they are joined by it.
pub proof fn lemma_splitting(s: Seq<char>, c: char)
    ensures
        text::joined(text::pieces(s, c), seq![c]) == s,
        forall|i: int, j: int|
            0 <= i < text::pieces(s, c).len() && 0 <= j < text::pieces(s, c)[i].len()
                ==> #[trigger] text::pieces(s, c)[i][j] != c,
{
    text::lemma_join_pieces(s, c);
    lemma_pieces_are_free(s, c);
}

proof fn lemma_pieces_are_free(s: Seq<char>, c: char)
    ensures
        text::pieces(s, c).len() > 0,
        forall|i: int, j: int|
            0 <= i < text::pieces(s, c).len() && 0 <= j < text::pieces(s, c)[i].len()
                ==> #[trigger] text::pieces(s, c)[i][j] != c,
    decreases s.len(),
{
    if s.len() > 0 {
        lemma_pieces_are_free(s.drop_last(), c);
        let before = text::pieces(s.drop_last(), c);
        let now = text::pieces(s, c);
        assert forall|i: int, j: int|
            0 <= i < now.len() && 0 <= j < now[i].len() implies #[trigger] now[i][j] != c by {
            if s.last() == c {
                if i < before.len() {
                    assert(now[i] == before[i]);
                    assert(before[i][j] != c);
                }
            } else if i < before.len() - 1 {
                assert(now[i] == before[i]);
                assert(before[i][j] != c);
            } else if j < before.last().len() {
                assert(before[i][j] != c);
            }
        }
    }
}

/// A text stands in another where their characters agree. It is found at the first such place.
pub proof fn lemma_finding(s: Seq<char>, p: Seq<char>, i: int)
    requires
        0 <= i,
    ensures
        text::occurs_at(s, p, i) <==> i + p.len() <= s.len() && forall|j: int|
            0 <= j < p.len() ==> s[i + j] == #[trigger] p[j],
        text::begins_with(s, p) <==> p.len() <= s.len() && s.take(p.len() as int) == p,
        text::finishes_with(s, p) <==> p.len() <= s.len() && s.skip(s.len() - p.len()) == p,
        match text::occurrence_from(s, p, i) {
            Some(k) => i <= k && text::occurs_at(s, p, k) && forall|j: int|
                i <= j < k ==> !#[trigger] text::occurs_at(s, p, j),
            None => forall|j: int| i <= j ==> !#[trigger] text::occurs_at(s, p, j),
        },
    decreases s.len() + 1 - i,
{
    if i + p.len() <= s.len() {
        let part = s.subrange(i, i + p.len());
        if forall|j: int| 0 <= j < p.len() ==> s[i + j] == #[trigger] p[j] {
            assert(part =~= p);
        }
        if part == p {
            assert forall|j: int| 0 <= j < p.len() implies s[i + j] == #[trigger] p[j] by {
                assert(part[j] == s[i + j]);
            }
        }
        if !text::occurs_at(s, p, i) {
            lemma_finding(s, p, i + 1);
        }
    }
    if p.len() <= s.len() {
        assert(s.subrange(0, p.len() as int) =~= s.take(p.len() as int));
        assert(s.subrange(s.len() - p.len(), s.len() as int) =~= s.skip(s.len() - p.len()));
    }
}

/// Bytes are written as two digits each, of which the first counts sixteen times.
pub proof fn lemma_hexadecimal(bytes: Seq<u8>, byte: u8)
    ensures
        text::hex(Seq::empty()) == Seq::<char>::empty(),
        text::hex(bytes.push(byte)).len() == text::hex(bytes).len() + 2,
        text::hex(bytes.push(byte)).take(text::hex(bytes).len() as int) == text::hex(bytes),
        ({
            let high = text::hex(bytes.push(byte))[text::hex(bytes).len() as int] as int;
            let low = text::hex(bytes.push(byte))[(text::hex(bytes).len() + 1) as int] as int;
            &&& 48 <= high <= 57 || 97 <= high <= 102
            &&& 48 <= low <= 57 || 97 <= low <= 102
            &&& byte == 16 * hex_value(high) + hex_value(low)
        }),
{
    assert(bytes.push(byte).drop_last() =~= bytes);
    let written = text::hex(bytes.push(byte));
    assert(written.take(text::hex(bytes).len() as int) =~= text::hex(bytes));
    let h = byte as int / 16;
    let l = byte as int % 16;
    assert(0 <= h < 16 && 0 <= l < 16);
    assert(written[text::hex(bytes).len() as int] == text::hex_digit(h));
    assert(written[(text::hex(bytes).len() + 1) as int] == text::hex_digit(l));
    assert(text::hex_digit(h) as int == if h < 10 {
        48 + h
    } else {
        87 + h
    });
    assert(text::hex_digit(l) as int == if l < 10 {
        48 + l
    } else {
        87 + l
    });
}

/// What a hexadecimal digit counts.
pub open spec fn hex_value(code: int) -> int {
    if code <= 57 {
        code - 48
    } else {
        code - 87
    }
}

} // verus!
