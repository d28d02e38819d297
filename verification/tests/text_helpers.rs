use wezterm_parallel::assoc::{find_key, get_value, set_value};
use wezterm_parallel::text::{
    contains_str, decimal_string, has_char, join_strings, parse_bool, parse_usize,
};

#[test]
fn parse_usize_agrees_with_std() {
    let inputs = [
        "0", "7", "+7", "42", "007", "", "+", "-1", " 1", "1 ", "1a", "18446744073709551615",
        "18446744073709551616", "99999999999999999999999", "++1", "１",
    ];
    for s in inputs {
        assert_eq!(parse_usize(s), s.parse::<usize>().ok(), "input {:?}", s);
    }
}

#[test]
fn parse_bool_agrees_with_std() {
    for s in ["true", "false", "True", "FALSE", "", "yes", "1", " true"] {
        assert_eq!(parse_bool(s), s.parse::<bool>().ok(), "input {:?}", s);
    }
}

#[test]
fn decimal_text_agrees_with_std() {
    for n in [0u64, 9, 10, 99, 100, 12345, u64::MAX] {
        assert_eq!(decimal_string(n), n.to_string());
    }
}

#[test]
fn searching_text() {
    assert!(contains_str("connection refused", "refused"));
    assert!(contains_str("abc", ""));
    assert!(!contains_str("abc", "abcd"));
    assert!(contains_str("ディレクトリがない", "ディレクトリ"));
    assert!(has_char("a=b", '='));
    assert!(!has_char("ab", '='));
}

#[test]
fn joining_text() {
    let parts = vec!["a".to_string(), "b".to_string(), "c".to_string()];
    assert_eq!(join_strings(&parts, ", "), "a, b, c");
    assert_eq!(join_strings(&Vec::new(), ", "), "");
    assert_eq!(join_strings(&vec!["x".to_string()], "-"), "x");
}

#[test]
fn name_keyed_pairs() {
    let mut pairs: Vec<(String, u32)> = Vec::new();
    set_value(&mut pairs, "a".to_string(), 1);
    set_value(&mut pairs, "b".to_string(), 2);
    set_value(&mut pairs, "a".to_string(), 3);
    assert_eq!(pairs.len(), 2);
    assert_eq!(get_value(&pairs, "a"), Some(3));
    assert_eq!(get_value(&pairs, "c"), None);
    assert_eq!(find_key(&pairs, "b"), Some(1));
}
