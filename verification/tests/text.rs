use kasugai_box::text::{equal_text, is_blank, replace_text, split_whitespace, trimmed};

#[test]
fn trimming_and_blanks() {
    assert_eq!(trimmed("\u{3000} a b \t\n"), "a b");
    assert!(is_blank(" \u{a0}\r\n"));
    assert!(!is_blank(" x "));
    assert_eq!(trimmed(&trimmed("  y  ")), trimmed("  y  "));
}

#[test]
fn whitespace_words() {
    assert_eq!(split_whitespace("  a\tb\u{3000}c  "), vec!["a", "b", "c"]);
    assert!(split_whitespace("   ").is_empty());
}

#[test]
fn replacing() {
    assert_eq!(replace_text("aaaa", "aa", "b"), "bb");
    assert_eq!(replace_text("x{+asset_path}y{+asset_path}", "{+asset_path}", ""), "xy");
    assert_eq!(replace_text("it's", "'", "''"), "it''s");
    assert_eq!(replace_text("abc", "zz", "q"), "abc");
}

#[test]
fn text_equality() {
    assert!(equal_text("春", "春"));
    assert!(!equal_text("a", "ab"));
}
