//! Texts, numbers, order and tables.

use kaonic::digits::{dec, hex, is_hex, parse_unsigned};
use kaonic::order::{comes_before, sort, sort_dedup};
use kaonic::table::Table;
use kaonic::text::{
    contains, dedup, join, lines, list_contains, split, split_before, starts_with, take_bytes, to_ascii_lower, trim,
    utf8_len,
};

#[test]
fn texts_are_trimmed_and_split() {
    assert_eq!(trim("\u{3000} a b \u{A0}\r\n"), "a b");
    assert_eq!(trim(" \t"), "");
    assert_eq!(to_ascii_lower("AÄz"), "aÄz");
    assert_eq!(split("a,,b", ','), vec!["a", "", "b"]);
    assert_eq!(lines("a\r\nb\n\nc\r"), "a\r\nb\n\nc\r".lines().map(String::from).collect::<Vec<_>>());
    assert_eq!(lines("a\n"), vec!["a"]);
    assert_eq!(lines(""), Vec::<String>::new());
    assert_eq!(lines(&join(&["x".to_string(), "y z".to_string()], "\n")), vec!["x", "y z"]);
    assert_eq!(split_before("key=value", "=").as_deref(), Some("key"));
    assert_eq!(split_before("key", "="), None);
    assert!(contains("abc", "bc") && !contains("abc", "cb") && contains("abc", ""));
    assert!(starts_with("abc", "ab") && !starts_with("a", "ab"));
}

#[test]
fn bytes_are_counted() {
    assert_eq!(utf8_len("aé€𝄞"), 10);
    assert_eq!(take_bytes("aé€𝄞", 3).as_deref(), Some("aé"));
    assert_eq!(take_bytes("aé€𝄞", 2), None);
    assert_eq!(take_bytes("aé€𝄞", 10).as_deref(), Some("aé€𝄞"));
    assert_eq!(take_bytes("a", 2), None);
    assert_eq!(take_bytes("", 0).as_deref(), Some(""));
}

#[test]
fn numbers_are_written_and_read() {
    assert_eq!(dec(0), "0");
    assert_eq!(dec(u64::MAX), u64::MAX.to_string());
    assert_eq!(parse_unsigned(&dec(u64::MAX), u64::MAX), Some(u64::MAX));
    assert_eq!(parse_unsigned("18446744073709551616", u64::MAX), None);
    assert_eq!(parse_unsigned("+007", 9), Some(7));
    assert_eq!(parse_unsigned("+", 9), None);
    assert_eq!(parse_unsigned("", 9), None);
    assert_eq!(parse_unsigned("1 ", 9), None);
    assert_eq!(hex(&[0, 0x1f, 0xff]), "001fff");
    assert!(is_hex("09afAF") && !is_hex("g"));
}

#[test]
fn lists_are_ordered() {
    let list = |words: &[&str]| -> Vec<String> { words.iter().map(|w| w.to_string()).collect() };
    assert_eq!(sort_dedup(&list(&["b", "a", "b", ""])), list(&["", "a", "b"]));
    assert_eq!(sort(list(&["b", "a", "b", "Z"])), list(&["Z", "a", "b", "b"]));
    assert_eq!(dedup(list(&["b", "a", "b"])), list(&["b", "a"]));
    assert!(comes_before("ab", "abc") && !comes_before("b", "abc") && !comes_before("a", "a"));
    assert!(list_contains(&list(&["x"]), "x") && !list_contains(&[], "x"));
}

#[test]
fn tables_keep_one_value_for_a_key() {
    let mut t: Table<u32> = Table::new();
    assert_eq!(t.insert("a".into(), 1), None);
    assert_eq!(t.insert("b".into(), 2), None);
    assert_eq!(t.insert("a".into(), 3), Some(1));
    assert_eq!((t.len(), t.get("a").copied(), t.contains_key("c")), (2, Some(3), false));
    let mut entries: Vec<(String, u32)> = (0..t.len()).map(|i| (t.key_at(i).to_string(), *t.value_at(i))).collect();
    entries.sort();
    assert_eq!(entries, vec![("a".to_string(), 3), ("b".to_string(), 2)]);
    assert_eq!(t.remove("a"), Some(3));
    assert_eq!(t.remove("a"), None);
    assert_eq!(t.len(), 1);
}
