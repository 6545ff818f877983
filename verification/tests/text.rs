use file_commander::text::{
    chars_contain, chars_equal, chars_less, chars_of, decimal_chars, is_blank, replace,
    string_from_chars, to_ascii_lowercase, trimmed, white_space,
};

fn s(v: &[char]) -> String {
    v.iter().collect()
}

#[test]
fn trimming_and_blankness() {
    assert_eq!(s(&trimmed("  a b \t\n")), "a b");
    assert_eq!(s(&trimmed("\u{3000}x\u{a0}")), "x");
    assert_eq!(s(&trimmed("   ")), "");
    assert!(is_blank(" \r\n\t"));
    assert!(!is_blank(" . "));
}

#[test]
fn replacing_every_occurrence() {
    let text = chars_of("{n} of {n}");
    assert_eq!(s(&replace(&text, &chars_of("{n}"), &chars_of("3"))), "3 of 3");
    assert_eq!(s(&replace(&chars_of("aaa"), &chars_of("aa"), &chars_of("b"))), "ba");
    assert_eq!(s(&replace(&chars_of("a\\b\\c"), &chars_of("\\"), &chars_of("/"))), "a/b/c");
}

#[test]
fn numbers_in_decimal() {
    assert_eq!(s(&decimal_chars(0)), "0");
    assert_eq!(s(&decimal_chars(42)), "42");
    assert_eq!(s(&decimal_chars(u128::MAX)), u128::MAX.to_string());
}

#[test]
fn comparing_and_searching_text() {
    assert!(chars_less(&chars_of("abc"), &chars_of("abd")));
    assert!(chars_less(&chars_of("ab"), &chars_of("abc")));
    assert!(!chars_less(&chars_of("b"), &chars_of("abc")));
    assert!(chars_equal(&chars_of("x"), &chars_of("x")));
    assert!(chars_contain(&chars_of("hello"), &chars_of("ll")));
    assert!(chars_contain(&chars_of("hello"), &chars_of("")));
    assert!(!chars_contain(&chars_of("hello"), &chars_of("L")));
    assert_eq!(s(&to_ascii_lowercase("ReadMe.TXT")), "readme.txt");
    assert_eq!(string_from_chars(&chars_of("é!")), "é!");
}

#[test]
fn white_space_is_the_unicode_property() {
    for u in 0..=0x10FFFFu32 {
        if let Some(c) = char::from_u32(u) {
            assert_eq!(white_space(c), c.is_whitespace(), "U+{u:04X}");
        }
    }
}
