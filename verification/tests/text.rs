use sfmeta_reader::text::{
    clip, from_chars, is_true, parse_u32, push_decimal, same_text, tail_after, to_chars, trim,
};

#[test]
fn trim_removes_white_space_at_both_ends() {
    assert_eq!(trim("  a b  "), "a b");
    assert_eq!(trim("\t\r\nx\n"), "x");
    assert_eq!(trim("\u{a0}\u{2003}x y\u{3000}"), "x y");
    assert_eq!(trim("   "), "");
    assert_eq!(trim(""), "");
    assert_eq!(trim("x"), "x");
}

#[test]
fn clip_keeps_whole_characters_that_fit() {
    let v = to_chars("a\u{e9}\u{20ac}\u{1f600}z");
    assert_eq!(clip(&v, 0), "");
    assert_eq!(clip(&v, 1), "a");
    assert_eq!(clip(&v, 2), "a");
    assert_eq!(clip(&v, 3), "a\u{e9}");
    assert_eq!(clip(&v, 5), "a\u{e9}");
    assert_eq!(clip(&v, 6), "a\u{e9}\u{20ac}");
    assert_eq!(clip(&v, 9), "a\u{e9}\u{20ac}");
    assert_eq!(clip(&v, 10), "a\u{e9}\u{20ac}\u{1f600}");
    assert_eq!(clip(&v, 11), "a\u{e9}\u{20ac}\u{1f600}z");
    assert_eq!(clip(&v, 1000), "a\u{e9}\u{20ac}\u{1f600}z");
}

#[test]
fn decimal_is_written_without_leading_zeros() {
    let write = |n: usize| {
        let mut s = String::from("n=");
        push_decimal(&mut s, n);
        s
    };
    assert_eq!(write(0), "n=0");
    assert_eq!(write(7), "n=7");
    assert_eq!(write(10), "n=10");
    assert_eq!(write(1234567890), "n=1234567890");
    assert_eq!(write(usize::MAX), format!("n={}", usize::MAX));
}

#[test]
fn tail_after_takes_what_follows_the_last_separator() {
    assert_eq!(tail_after("ns:name", ':'), "name");
    assert_eq!(tail_after("a:b:c", ':'), "c");
    assert_eq!(tail_after("name", ':'), "name");
    assert_eq!(tail_after("name:", ':'), "");
    assert_eq!(tail_after("", ':'), "");
}

#[test]
fn chars_go_to_and_fro() {
    let v = to_chars("h\u{e9}llo");
    assert_eq!(v, vec!['h', '\u{e9}', 'l', 'l', 'o']);
    assert_eq!(from_chars(&v, 1, 4), "\u{e9}ll");
    assert_eq!(from_chars(&v, 2, 2), "");
    assert!(same_text("abc", "abc"));
    assert!(!same_text("abc", "abd"));
    assert!(!same_text("abc", "ab"));
    assert!(same_text("", ""));
}

#[test]
fn true_is_read_in_any_case() {
    assert!(is_true("true"));
    assert!(is_true("TRUE"));
    assert!(is_true("tRuE"));
    assert!(!is_true("false"));
    assert!(!is_true("true "));
    assert!(!is_true("tru"));
    assert!(!is_true("1"));
    assert!(!is_true("\u{164}rue"));
}

#[test]
fn numbers_are_read_as_u32() {
    assert_eq!(parse_u32("0"), Some(0));
    assert_eq!(parse_u32("+42"), Some(42));
    assert_eq!(parse_u32("4294967295"), Some(u32::MAX));
    assert_eq!(parse_u32("4294967296"), None);
    assert_eq!(parse_u32(""), None);
    assert_eq!(parse_u32("+"), None);
    assert_eq!(parse_u32("++1"), None);
    assert_eq!(parse_u32("-0"), None);
    assert_eq!(parse_u32(" 1"), None);
    assert_eq!(parse_u32("1_000"), None);
    for text in ["12", "+7", "00", "x", "99999999999", "٣"] {
        assert_eq!(parse_u32(text), text.parse::<u32>().ok());
    }
}
