use vitex::text::{chars_of, contains, matches_at, replace, string_of, trim};

#[test]
fn chars_and_back_give_the_same_text() {
    let text = "Zoë’s thèse";
    assert_eq!(string_of(&chars_of(text)), text);
    assert_eq!(chars_of("añb"), vec!['a', 'ñ', 'b']);
}

#[test]
fn matches_at_compares_at_the_position() {
    let text = chars_of("hello world");
    assert!(matches_at(&text, &chars_of("world"), 6));
    assert!(!matches_at(&text, &chars_of("world"), 5));
    assert!(!matches_at(&text, &chars_of("world"), 7));
    assert!(!matches_at(&text, &chars_of("world"), 100));
    assert!(matches_at(&text, &chars_of(""), 11));
    assert!(!matches_at(&text, &chars_of(""), 12));
}

#[test]
fn contains_finds_a_word_anywhere() {
    assert!(contains("\\title{VITEX_TITLE_PLACEHOLDER}", "VITEX_TITLE_PLACEHOLDER"));
    assert!(contains("abc", "abc"));
    assert!(contains("abc", "c"));
    assert!(!contains("abc", "abcd"));
    assert!(!contains("abc", "ca"));
    assert!(!contains("", "a"));
}

#[test]
fn contains_finds_the_empty_word_everywhere() {
    assert!(contains("abc", ""));
    assert!(contains("", ""));
}

#[test]
fn replace_replaces_every_occurrence() {
    assert_eq!(replace("a-b-c", "-", "+"), "a+b+c");
    assert_eq!(replace("xKEYyKEY", "KEY", "v"), "xvyv");
    assert_eq!(replace("KEY", "KEY", ""), "");
    assert_eq!(replace("no match", "KEY", "v"), "no match");
    assert_eq!(replace("", "KEY", "v"), "");
}

#[test]
fn replace_reads_from_the_left_and_does_not_look_back() {
    assert_eq!(replace("aaa", "aa", "b"), "ba");
    assert_eq!(replace("aaaa", "aa", "a"), "aa");
    assert_eq!(replace("aab", "ab", "b"), "ab");
}

#[test]
fn replace_leaves_the_text_alone_for_an_empty_word() {
    assert_eq!(replace("abc", "", "x"), "abc");
}

#[test]
fn replace_works_on_characters_beyond_ascii() {
    assert_eq!(replace("höhö", "ö", "oe"), "hoehoe");
}

#[test]
fn trim_drops_white_space_at_both_ends() {
    assert_eq!(trim("  Already up to date.\n"), "Already up to date.");
    assert_eq!(trim("\t a b \r\n"), "a b");
    assert_eq!(trim("abc"), "abc");
    assert_eq!(trim(" \n "), "");
    assert_eq!(trim(""), "");
    assert_eq!(trim("\u{a0}x\u{3000}"), "x");
}
