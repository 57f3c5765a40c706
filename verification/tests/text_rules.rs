use stock_tracker::decimal::{decimal_string, push_decimal};
use stock_tracker::server::string_map::StringMap;
use stock_tracker::split::{split_lines, split_on};
use stock_tracker::text::{
    char_is_whitespace, chars_of, contains, count_leading_whitespace, count_leading_word,
    count_trailing_whitespace, ends_with, find, same_text, starts_with, string_of, trimmed,
};

fn chars(s: &str) -> Vec<char> {
    s.chars().collect()
}

fn text(s: &[char]) -> String {
    s.iter().collect()
}

const SAMPLES: [&str; 14] = [
    "",
    " ",
    "a",
    "  a  ",
    "\t\r\n a b \u{a0}\u{3000}",
    "\u{2003}x\u{2003}",
    "no-space",
    "line one\nline two\r\nline three",
    "ends with newline\n",
    "ends with crlf\r\n",
    "\n",
    "\r",
    "bare\rcarriage\r",
    "a\n\nb\r\n\r\nc\n\r\nd",
];

#[test]
fn whitespace_is_the_unicode_white_space_class() {
    for code in 0u32..=0x10ffff {
        if let Some(c) = char::from_u32(code) {
            assert_eq!(char_is_whitespace(c), c.is_whitespace(), "U+{:04X}", code);
        }
    }
}

#[test]
fn conversions_keep_the_characters() {
    for s in SAMPLES {
        assert_eq!(chars_of(s), chars(s));
        assert_eq!(string_of(&chars(s)), s);
    }
    assert_eq!(chars_of("\u{1f600}\u{e9}z"), vec!['\u{1f600}', '\u{e9}', 'z']);
    assert!(same_text("abc", "abc"));
    assert!(!same_text("abc", "abd"));
    assert!(!same_text("abc", "ab"));
    assert!(same_text("", ""));
}

#[test]
fn trimming_agrees_with_the_standard_library() {
    for s in SAMPLES {
        let c = chars(s);
        assert_eq!(text(trimmed(&c)), s.trim(), "{:?}", s);
        assert_eq!(count_leading_whitespace(&c), s.chars().count() - s.trim_start().chars().count());
        assert_eq!(count_trailing_whitespace(&c), s.chars().count() - s.trim_end().chars().count());
    }
    assert_eq!(count_leading_word(&chars("abc def")), 3);
    assert_eq!(count_leading_word(&chars(" abc")), 0);
    assert_eq!(count_leading_word(&chars("abc")), 3);
    assert_eq!(count_leading_word(&chars("")), 0);
    assert_eq!(count_trailing_whitespace(&chars("   ")), 3);
}

#[test]
fn lines_agree_with_the_standard_library() {
    for s in SAMPLES {
        let c = chars(s);
        let ours: Vec<String> = split_lines(&c).into_iter().map(text).collect();
        let theirs: Vec<String> = s.lines().map(|l| l.to_string()).collect();
        assert_eq!(ours, theirs, "{:?}", s);
    }
    let c = chars("a\r\n\r\nb");
    let ours: Vec<String> = split_lines(&c).into_iter().map(text).collect();
    assert_eq!(ours, vec!["a", "", "b"]);
}

#[test]
fn splitting_agrees_with_the_standard_library() {
    for s in ["", "a", "a&b", "&", "&&", "a&&b&", "&a", "x=1&y=2&z"] {
        let c = chars(s);
        let ours: Vec<String> = split_on(&c, '&').into_iter().map(text).collect();
        let theirs: Vec<String> = s.split('&').map(|p| p.to_string()).collect();
        assert_eq!(ours, theirs, "{:?}", s);
    }
}

#[test]
fn searching() {
    assert_eq!(find(&chars("a?b?c"), '?'), 1);
    assert_eq!(find(&chars("abc"), '?'), 3);
    assert_eq!(find(&chars(""), '?'), 0);
    assert_eq!(find(&chars("?"), '?'), 0);
    for (s, p) in [
        ("/css/a", "/css/"),
        ("/css", "/css/"),
        ("", ""),
        ("a", ""),
        ("", "a"),
        ("abcabc", "cab"),
        ("abcabc", "abc"),
        ("abcabc", "bca"),
        ("abcabc", "cba"),
        ("application/json", "application/json"),
        ("text/html, application/json", "application/json"),
    ] {
        let (sc, pc) = (chars(s), chars(p));
        assert_eq!(starts_with(&sc, &pc), s.starts_with(p), "{:?} {:?}", s, p);
        assert_eq!(ends_with(&sc, &pc), s.ends_with(p), "{:?} {:?}", s, p);
        assert_eq!(contains(&sc, &pc), s.contains(p), "{:?} {:?}", s, p);
    }
}

#[test]
fn decimal_text() {
    for n in [0usize, 1, 9, 10, 11, 99, 100, 101, 404, 4096, 65535, 1_000_000, usize::MAX] {
        assert_eq!(decimal_string(n), n.to_string());
    }
    let mut out = String::from("n=");
    push_decimal(&mut out, 1203);
    push_decimal(&mut out, 0);
    assert_eq!(out, "n=12030");
}

#[test]
fn string_map_keeps_one_value_per_key_in_first_insertion_order() {
    let mut map = StringMap::new();
    assert!(map.is_empty());
    assert_eq!(map.len(), 0);
    assert_eq!(map.get("a"), None);
    assert!(!map.contains_key("a"));
    map.insert("b".to_string(), "1".to_string());
    map.insert("a".to_string(), "2".to_string());
    map.insert("b".to_string(), "3".to_string());
    map.insert("".to_string(), "empty key".to_string());
    assert!(!map.is_empty());
    assert_eq!(map.len(), 3);
    assert_eq!(map.get("b").map(|v| v.as_str()), Some("3"));
    assert_eq!(map.get("a").map(|v| v.as_str()), Some("2"));
    assert_eq!(map.get("").map(|v| v.as_str()), Some("empty key"));
    assert_eq!(map.get("B"), None);
    assert!(map.contains_key("a"));
    assert!(!map.contains_key("c"));
    let listed: Vec<(String, String)> =
        (0..map.len()).map(|i| map.entry(i)).map(|(k, v)| (k.clone(), v.clone())).collect();
    assert_eq!(
        listed,
        vec![
            ("b".to_string(), "3".to_string()),
            ("a".to_string(), "2".to_string()),
            ("".to_string(), "empty key".to_string())
        ]
    );
    let copy = map.clone();
    assert_eq!(copy.len(), 3);
    assert_eq!(copy.entry(0).1, "3");
    assert_eq!(copy.get("a").map(|v| v.as_str()), Some("2"));
}
