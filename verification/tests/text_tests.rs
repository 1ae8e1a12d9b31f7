use sauron::text::{
    chars_of, contains_chars, decimal_text, parse_u32, same_text, split_chars, trim_text,
    utf8_len_at_least, byte_prefix_count, byte_suffix_count,
};
use sauron::paths::{expand_path_with, join_path};
use std::path::Path;

#[test]
fn trim_matches_std_trim() {
    for s in ["", "  ", "abc", "  abc  ", "\t\n abc \r\n", "\u{3000}x\u{2009}", "\u{85}a b\u{a0}", "a\u{200b}"] {
        assert_eq!(trim_text(s), s.trim(), "input {:?}", s);
    }
}

#[test]
fn parse_u32_matches_std_parse() {
    for s in ["0", "42", "+7", "+", "", "-1", "4294967295", "4294967296", " 1", "1a", "007", "99999999999"] {
        assert_eq!(parse_u32(s), s.parse::<u32>().ok(), "input {:?}", s);
    }
}

#[test]
fn split_matches_std_split() {
    for s in ["", ":", "a:b", "09:00", "a::b:", "no separator"] {
        let parts: Vec<String> = split_chars(&chars_of(s), ':')
            .into_iter()
            .map(|p| p.into_iter().collect())
            .collect();
        let expected: Vec<String> = s.split(':').map(|p| p.to_string()).collect();
        assert_eq!(parts, expected, "input {:?}", s);
    }
}

#[test]
fn decimal_text_matches_to_string() {
    for n in [0u64, 7, 10, 99, 100, 12345, u64::MAX] {
        assert_eq!(decimal_text(n), n.to_string());
    }
}

#[test]
fn contains_and_same_text() {
    let hay = chars_of("xxsauronyy");
    assert!(contains_chars(&hay, &chars_of("sauron")));
    assert!(!contains_chars(&hay, &chars_of("sauronz")));
    assert!(contains_chars(&hay, &chars_of("")));
    assert!(same_text("abc", "abc"));
    assert!(!same_text("abc", "abd"));
    assert!(!same_text("abc", "ab"));
}

#[test]
fn byte_positions_follow_utf8() {
    let v = chars_of("é1234");
    // 'é' takes two bytes: byte 1 falls inside it
    assert_eq!(byte_prefix_count(&v, 1), None);
    assert_eq!(byte_prefix_count(&v, 2), Some(1));
    assert_eq!(byte_prefix_count(&v, 6), Some(5));
    assert_eq!(byte_prefix_count(&v, 7), None);
    assert_eq!(byte_suffix_count(&v, 4), Some(4));
    assert_eq!(byte_suffix_count(&chars_of("aé"), 1), None);
    assert!(utf8_len_at_least(&v, 6));
    assert!(!utf8_len_at_least(&v, 7));
    assert!(utf8_len_at_least(&v, 0));
}

#[test]
fn join_path_matches_std_join() {
    for (a, b) in [("a", "b"), ("a/", "b"), ("", "b"), ("a", "/b"), ("/home/u", "x/y"), ("a", "")] {
        let expected = Path::new(a).join(b).to_string_lossy().into_owned();
        assert_eq!(join_path(a, b), expected, "inputs {:?} {:?}", a, b);
    }
}

#[test]
fn expand_path_with_home() {
    assert_eq!(expand_path_with("~/sauron/sauron.db", Some("/Users/al".to_string())), "/Users/al/sauron/sauron.db");
    assert_eq!(expand_path_with("~/x", None), "~/x");
    assert_eq!(expand_path_with("/abs/x", Some("/Users/al".to_string())), "/abs/x");
    assert_eq!(expand_path_with("~x", Some("/h".to_string())), "~x");
}
