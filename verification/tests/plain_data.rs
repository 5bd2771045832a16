use openab_core::bytes::{has_tag, push_le16, push_le32, push_tag, read_le16, read_le32};
use openab_core::json::{copy, Json, Member};
use openab_core::text::{
    contains_text, decimal_string, find_from, from_chars, is_ascii_alphabetic, is_ascii_digit,
    is_ascii_word, is_blank, is_whitespace, join, parse_u64, push_hex, split, to_ascii_lowercase,
    to_chars, trim_white,
};

fn every_char() -> impl Iterator<Item = char> {
    (0..=0x10FFFF_u32).filter_map(char::from_u32)
}

#[test]
fn character_classes_agree_with_std() {
    for c in every_char() {
        assert_eq!(is_whitespace(c), c.is_whitespace(), "{:?}", c);
        assert_eq!(is_ascii_digit(c), c.is_ascii_digit(), "{:?}", c);
        assert_eq!(is_ascii_alphabetic(c), c.is_ascii_alphabetic(), "{:?}", c);
        assert_eq!(is_ascii_word(c), c.is_ascii_alphanumeric() || c == '_', "{:?}", c);
        assert_eq!(to_ascii_lowercase(&[c]), vec![c.to_ascii_lowercase()], "{:?}", c);
    }
}

#[test]
fn characters_and_strings_convert_both_ways() {
    for s in ["", "plain", "對嗎？", "a\u{1F600}b"] {
        let chars = to_chars(s);
        assert_eq!(chars, s.chars().collect::<Vec<char>>());
        assert_eq!(from_chars(&chars), s);
    }
}

#[test]
fn trimming_agrees_with_std() {
    for s in ["", " ", "\u{3000} a b\t\n", "a", "\u{85}x\u{2028}"] {
        assert_eq!(from_chars(trim_white(&to_chars(s))), s.trim());
        assert_eq!(is_blank(s), s.trim().is_empty());
    }
}

#[test]
fn numbers_are_read_as_std_reads_them() {
    for s in [
        "0",
        "+7",
        "+",
        "",
        "-1",
        "12a",
        "007",
        "18446744073709551615",
        "18446744073709551616",
        "99999999999999999999999",
        "+18446744073709551615",
        "++1",
        "１",
    ] {
        assert_eq!(parse_u64(&to_chars(s)), s.parse::<u64>().ok(), "{}", s);
    }
    for n in [0, 9, 10, 65_536, u64::MAX] {
        assert_eq!(decimal_string(n), n.to_string());
        assert_eq!(parse_u64(&to_chars(&decimal_string(n))), Some(n));
    }
}

#[test]
fn splitting_and_joining_undo_each_other() {
    for s in ["", "a", ":", "a:b", ":a::b:"] {
        let parts: Vec<String> = split(&to_chars(s), ':').iter().map(|p| from_chars(p)).collect();
        assert_eq!(parts, s.split(':').map(str::to_string).collect::<Vec<String>>());
        assert_eq!(join(&parts, ":"), s);
    }
}

#[test]
fn searching_finds_the_first_place() {
    let s = to_chars("abcabc");
    assert_eq!(find_from(&s, &to_chars("bc"), 0), Some(1));
    assert_eq!(find_from(&s, &to_chars("bc"), 2), Some(4));
    assert_eq!(find_from(&s, &to_chars("bc"), 5), None);
    assert!(contains_text(&s, &to_chars("cab")));
    assert!(contains_text(&s, &to_chars("")));
    assert!(!contains_text(&s, &to_chars("cb")));
}

#[test]
fn hexadecimal_has_two_digits_for_each_byte() {
    let mut out = String::from("sha:");
    push_hex(&mut out, &[0x00, 0x0f, 0xa5, 0xff]);
    assert_eq!(out, "sha:000fa5ff");
}

#[test]
fn little_endian_numbers_are_read_back() {
    let mut out = Vec::new();
    push_tag(&mut out, 'R', 'I', 'F', 'F');
    push_le16(&mut out, 0x0102);
    push_le32(&mut out, 0x0A0B_0C0D);
    assert_eq!(out, b"RIFF\x02\x01\x0D\x0C\x0B\x0A".to_vec());
    assert!(has_tag(&out, 0, 'R', 'I', 'F', 'F'));
    assert!(!has_tag(&out, 0, 'R', 'I', 'F', 'X'));
    assert_eq!(read_le16(&out, 4), 0x0102);
    assert_eq!(read_le32(&out, 6), 0x0A0B_0C0D);
}

#[test]
fn json_values_are_read_and_copied() {
    let value = Json::object2(
        "names",
        Json::string_list(&["a", "b"]),
        "flag",
        Json::Bool(true),
    );
    assert_eq!(value.get("flag").and_then(|v| v.as_bool()), Some(true));
    assert_eq!(value.get("names").and_then(|v| v.as_array()).map(|v| v.len()), Some(2));
    assert_eq!(value.get("absent"), None);
    assert_eq!(value.get_str("flag"), None);
    assert_eq!(Json::object1("k", Json::string("v")).get_str("k"), Some("v"));
    assert_eq!(Json::Null.get("k"), None);
    let nested = Json::list(vec![
        value,
        Json::Integer(-3),
        Json::Real("0.5".to_string()),
        Json::object(vec![Member::new("x", Json::Null)]),
    ]);
    assert_eq!(copy(&nested), nested);
}
