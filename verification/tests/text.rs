use devserial::names::NameMap;
use devserial::text::{
    contains, flatten, join, push_dec, push_fixed, push_quotes_doubled, push_signed, remove_blanks, reversed,
    same_text, sanitize, starts_with, strip_prefix, strip_suffix, trim, without_last,
};

#[test]
fn numbers_in_decimal() {
    let mut s = String::new();
    push_dec(&mut s, 0);
    push_dec(&mut s, u64::MAX);
    s.push(' ');
    push_signed(&mut s, i64::MIN);
    push_signed(&mut s, 7);
    s.push(' ');
    push_fixed(&mut s, 42, 4);
    push_fixed(&mut s, 12345, 2);
    assert_eq!(s, format!("0{} {}7 004245", u64::MAX, i64::MIN));
}

#[test]
fn searching_text() {
    assert!(contains("hello", "ell") && contains("", "") && contains("a", ""));
    assert!(!contains("hello", "elo") && !contains("a", "ab"));
    assert!(starts_with("0x1", "0x") && !starts_with("0", "0x"));
    assert_eq!(strip_prefix("__data:ff", "__data:"), Some("ff".into()));
    assert_eq!(strip_prefix("x", "y"), None);
    assert_eq!(strip_suffix("p/status", "/status"), Some("p".into()));
    assert_eq!(strip_suffix("p", "/status"), None);
    assert!(same_text("é", "é") && !same_text("a", "b") && !same_text("a", "ab"));
}

#[test]
fn rewriting_text() {
    assert_eq!(sanitize("/dev/ttyUSB0"), "_dev_ttyUSB0");
    assert_eq!(flatten("/dev\\x_y%"), "_dev_x_y%");
    assert_eq!(sanitize("a/b_c\\d%"), "a_b%5Fc%5Cd%25");
    assert_eq!(remove_blanks(" a b\t"), "ab\t");
    let mut s = String::from("<");
    push_quotes_doubled(&mut s, "a\"\"");
    assert_eq!(s, "<a\"\"\"\"");
    assert_eq!(join(&vec!["a".into(), "b".into()], ", "), "a, b");
    assert_eq!(join(&Vec::new(), ", "), "");
    assert_eq!(reversed(vec!["a".into(), "b".into()]), vec!["b", "a"]);
    assert_eq!(without_last("aé"), "a");
    assert_eq!(without_last(""), "");
}

#[test]
fn white_space_is_trimmed_as_std_does() {
    for c in '\u{0}'..='\u{ffff}' {
        let s = format!("{c}x{c}");
        assert_eq!(trim(&s), s.trim());
    }
    assert_eq!(trim(" \t a b \n"), "a b");
    assert_eq!(trim("   "), "");
}

#[test]
fn names_and_values() {
    let mut m: NameMap<u32> = NameMap::new();
    assert!(m.is_empty());
    m.insert("a", 1);
    m.insert("b", 2);
    m.insert("a", 3);
    assert_eq!((m.len(), m.get("a"), m.get("b"), m.get("c")), (2, Some(&3), Some(&2), None));
    assert_eq!((m.name_at(0), m.name_at(1)), ("a", "b"));
    assert_eq!(m.remove("a"), Some(3));
    assert_eq!(m.remove("a"), None);
    assert!(!m.contains_key("a") && m.contains_key("b"));
    assert_eq!(m.name_at(0), "b");
}

#[test]
fn maps_are_copied() {
    let mut m: NameMap<Vec<u8>> = NameMap::default();
    assert!(m.is_empty());
    m.insert("b", vec![1]);
    m.insert("a", vec![2, 3]);
    let copy = m.clone();
    m.insert("b", Vec::new());
    assert_eq!((copy.len(), copy.name_at(0), copy.name_at(1)), (2, "b", "a"));
    assert_eq!((copy.get("b"), copy.get("a")), (Some(&vec![1]), Some(&vec![2, 3])));
    assert!(format!("{copy:?}").contains("\"a\""));
}
