use fae::strings::{replace_all, split_char, str_eq, to_lower, trim};

#[test]
fn replace_all_replaces_every_occurrence() {
    assert_eq!(replace_all("cosy.pkg and cosy.pkg", "cosy.pkg", "x"), "x and x");
    assert_eq!(replace_all("no placeholder", "cosy.pkg", "x"), "no placeholder");
    assert_eq!(replace_all("", "cosy.pkg", "x"), "");
}

#[test]
fn replace_all_is_left_to_right_and_non_overlapping() {
    assert_eq!(replace_all("aaa", "aa", "b"), "ba");
    assert_eq!(replace_all("abb", "ab", "a"), "ab");
}

#[test]
fn split_char_keeps_empty_segments() {
    let parts = split_char("pip install x", ' ');
    assert_eq!(parts, vec!["pip".to_string(), "install".to_string(), "x".to_string()]);
    let doubled = split_char("a  b", ' ');
    assert_eq!(doubled, vec!["a".to_string(), "".to_string(), "b".to_string()]);
    let empty = split_char("", ' ');
    assert_eq!(empty, vec!["".to_string()]);
}

#[test]
fn trim_strips_surrounding_whitespace_only() {
    assert_eq!(trim("  a b \t"), "a b");
    assert_eq!(trim("\n\t \r"), "");
    assert_eq!(trim("x"), "x");
}

#[test]
fn to_lower_folds_ascii_letters_only() {
    assert_eq!(to_lower("PyThOn3"), "python3");
    assert_eq!(to_lower("A-Z@["), "a-z@[");
}

#[test]
fn str_eq_compares_by_characters() {
    assert!(str_eq("abc", "abc"));
    assert!(!str_eq("abc", "abd"));
    assert!(!str_eq("abc", "ab"));
    assert!(str_eq("", ""));
}
