use novelai::text::{
    chars_of, count_non_whitespace, decimal_string, is_whitespace, parse_unsigned_chars, replace_str,
    split_chars, str_equal, trim_chars, truncate_chars,
};

fn s(v: &[char]) -> String {
    v.iter().collect()
}

#[test]
fn whitespace_matches_std() {
    for c in ['a', ' ', '\t', '\n', '\u{3000}', '\u{a0}', '章', '\u{2028}', '\u{200b}'] {
        assert_eq!(is_whitespace(c), c.is_whitespace(), "{:?}", c);
    }
}

#[test]
fn trim_matches_std() {
    for t in ["  a b  ", "\u{3000}章节\n", "", "   ", "x"] {
        assert_eq!(s(&trim_chars(&chars_of(t))), t.trim());
    }
}

#[test]
fn split_keeps_empty_pieces() {
    let pieces = split_chars(&chars_of("a//b"), &['/']);
    let got: Vec<String> = pieces.iter().map(|p| s(p)).collect();
    assert_eq!(got, vec!["a", "", "b"]);
    assert_eq!(split_chars(&chars_of(""), &['/']).len(), 1);
}

#[test]
fn decimal_matches_to_string() {
    for n in [0usize, 7, 10, 99, 100, 12345, usize::MAX] {
        assert_eq!(decimal_string(n), n.to_string());
    }
}

#[test]
fn parse_matches_std() {
    for t in ["42", "+42", "", "+", "-1", "4 2", "007", "18446744073709551616", "abc", "１２"] {
        assert_eq!(parse_unsigned_chars(&chars_of(t), usize::MAX), t.parse::<usize>().ok(), "{:?}", t);
    }
    assert_eq!(parse_unsigned_chars(&chars_of("4294967296"), u32::MAX as usize), None);
    assert_eq!(parse_unsigned_chars(&chars_of("4294967295"), u32::MAX as usize), Some(4294967295));
}

#[test]
fn replace_matches_std() {
    let cases = [("aaa", "aa", "b"), ("{title}《{title}》", "{title}", "X"), ("none", "{x}", "y"), ("", "a", "b")];
    for (t, p, r) in cases {
        assert_eq!(replace_str(t, p, r), t.replace(p, r));
    }
}

#[test]
fn counts_non_whitespace() {
    assert_eq!(count_non_whitespace("第一章 开始\n了"), 6);
    assert_eq!(count_non_whitespace(" \t\n"), 0);
}

#[test]
fn truncate_marks_the_cut() {
    assert_eq!(truncate_chars("abcdef", 3), "abc…");
    assert_eq!(truncate_chars("abc", 3), "abc");
    assert_eq!(truncate_chars("abc", 0), "…");
    assert_eq!(truncate_chars("", 0), "");
}

#[test]
fn string_equality() {
    assert!(str_equal("修仙", "修仙"));
    assert!(!str_equal("修仙", "修"));
}
