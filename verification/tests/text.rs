use spyglass::text::{
    chars_of, concatenated, contains, decimal_string, lines, parse_u32, replace_all, split_first,
    trim, trim_end,
};

fn s(x: &str) -> String {
    x.to_string()
}

#[test]
fn contains_finds_runs() {
    assert!(contains("hello world", "o w"));
    assert!(contains("abc", ""));
    assert!(contains("", ""));
    assert!(!contains("", "a"));
    assert!(!contains("abc", "abcd"));
    assert!(!contains("abc", "ac"));
    assert!(contains("ééx", "éx"));
}

#[test]
fn decimal_numerals_read_back() {
    assert_eq!(decimal_string(0), "0");
    assert_eq!(decimal_string(1234), "1234");
    assert_eq!(decimal_string(u64::MAX), "18446744073709551615");
    for n in [0u32, 9, 10, 99, 100, 65535, u32::MAX] {
        assert_eq!(parse_u32(&decimal_string(n as u64)), Some(n));
        assert_eq!(parse_u32(&n.to_string()), n.to_string().parse::<u32>().ok());
    }
    for t in ["", "+", "-3", " 1", "1 ", "+0", "00", "4294967295", "4294967296", "99999999999", "١"] {
        assert_eq!(parse_u32(t), t.parse::<u32>().ok(), "{:?}", t);
    }
}

#[test]
fn trimming_removes_unicode_whitespace() {
    for t in ["", "  ", " a b ", "\t\nx\r\n", "\u{a0}y\u{2003}", "\u{3000}", "z\u{85}", "\u{200b}q"] {
        assert_eq!(trim(t), t.trim(), "{:?}", t);
        assert_eq!(trim_end(t), t.trim_end(), "{:?}", t);
    }
}

#[test]
fn replacing_matches_str_replace() {
    for (t, p, r) in [("a%sb%s", "%s", "X"), ("%%s", "%s", ""), ("aaa", "aa", "b"), ("", "x", "y"), ("xyz", "xyz", "")] {
        assert_eq!(replace_all(t, p, r), t.replace(p, r));
    }
}

#[test]
fn lines_match_str_lines() {
    for t in ["", "a", "a\n", "a\nb", "a\r\nb\r\n", "\n", "\n\n", "a\r", "a\rb\n", "x\r\r\n"] {
        let expected: Vec<String> = t.lines().map(|l| l.to_string()).collect();
        assert_eq!(lines(t), expected, "{:?}", t);
    }
}

#[test]
fn splitting_at_the_first_separator() {
    assert_eq!(split_first("a#b#c", '#'), (s("a"), Some(s("b#c"))));
    assert_eq!(split_first("abc", '#'), (s("abc"), None));
    assert_eq!(split_first("#", '#'), (s(""), Some(s(""))));
}

#[test]
fn building_strings() {
    assert_eq!(concatenated("ab", "cd"), "abcd");
    assert_eq!(chars_of("hé"), vec!['h', 'é']);
}
