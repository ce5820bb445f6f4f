use dirnav::text::{
    chain, chars_of, decimal_text, find_char, has_prefix, holds_text, join, same_text, single,
    text_of, with_char, without_last,
};

#[test]
fn chars_of_and_text_of_are_inverse() {
    let text = "a\u{e9}\u{1f600}z";
    let chars = chars_of(text);
    assert_eq!(chars, vec!['a', '\u{e9}', '\u{1f600}', 'z']);
    assert_eq!(text_of(&chars), text);
    assert!(chars_of("").is_empty());
    assert_eq!(text_of(&[]), "");
}

#[test]
fn single_and_with_char_append_characters() {
    assert_eq!(single('x'), "x");
    assert_eq!(single('\u{e9}'), "\u{e9}");
    assert_eq!(with_char("ab", 'c'), "abc");
    assert_eq!(with_char("", '\u{1f600}'), "\u{1f600}");
}

#[test]
fn without_last_drops_one_character() {
    assert_eq!(without_last("abc"), "ab");
    assert_eq!(without_last("a\u{e9}"), "a");
    assert_eq!(without_last("a"), "");
    assert_eq!(without_last(""), "");
}

#[test]
fn find_char_returns_the_first_index_in_characters() {
    assert_eq!(find_char("1234567890", '1'), Some(0));
    assert_eq!(find_char("1234567890", '0'), Some(9));
    assert_eq!(find_char("1234567890", 'a'), None);
    assert_eq!(find_char("abca", 'a'), Some(0));
    assert_eq!(find_char("\u{e9}\u{e9}x", 'x'), Some(2));
    assert_eq!(find_char("", 'x'), None);
}

#[test]
fn has_prefix_compares_characters() {
    assert!(has_prefix("alpha", &['a', 'l']));
    assert!(has_prefix("alpha", &[]));
    assert!(has_prefix("", &[]));
    assert!(!has_prefix("alpha", &['l']));
    assert!(!has_prefix("al", &['a', 'l', 'p']));
    assert!(has_prefix("al", &['a', 'l']));
    assert!(!has_prefix("", &['a']));
    assert!(!has_prefix("axb", &['a', 'y', 'b']));
}

#[test]
fn decimal_text_writes_numbers() {
    assert_eq!(decimal_text(0), "0");
    assert_eq!(decimal_text(7), "7");
    assert_eq!(decimal_text(10), "10");
    assert_eq!(decimal_text(1234567890), "1234567890");
    assert_eq!(decimal_text(u128::MAX), u128::MAX.to_string());
}

#[test]
fn join_puts_the_separator_between_parts() {
    let parts = |items: &[&str]| items.iter().map(|s| s.to_string()).collect::<Vec<String>>();
    assert_eq!(join(&parts(&[]), ", "), "");
    assert_eq!(join(&parts(&["a"]), ", "), "a");
    assert_eq!(join(&parts(&["a", "b", "c"]), ", "), "a, b, c");
    assert_eq!(join(&parts(&["", ""]), "-"), "-");
}

#[test]
fn same_text_and_chain() {
    assert!(same_text("abc", "abc"));
    assert!(same_text("", ""));
    assert!(!same_text("abc", "abd"));
    assert!(!same_text("abc", "ab"));
    assert_eq!(chain("ab", "cd"), "abcd");
    assert_eq!(chain("", ""), "");
}

#[test]
fn holds_text_finds_a_text_within_another() {
    assert!(holds_text("\u{1b}[32mfoo\u{1b}[m", "foo"));
    assert!(holds_text("foo", "foo"));
    assert!(holds_text("foo", ""));
    assert!(holds_text("", ""));
    assert!(holds_text("xxfoo", "foo"));
    assert!(holds_text("fofoo", "foo"));
    assert!(holds_text("a\u{e9}b", "\u{e9}"));
    assert!(!holds_text("", "foo"));
    assert!(!holds_text("fo", "foo"));
    assert!(!holds_text("fobo", "foo"));
    assert!(!holds_text("oof", "foo"));
}
