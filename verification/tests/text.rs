use llm_chat::text::{
    char_is_space, contains_chars, count_words, decimal_chars, matches_at, push_chars,
    replace_chars, same_chars, slice_chars, text_eq, trim_bounds,
};

fn chars(s: &str) -> Vec<char> {
    s.chars().collect()
}

fn text(v: &[char]) -> String {
    v.iter().collect()
}

#[test]
fn white_space_is_unicode_white_space() {
    let mut code: u32 = 0;
    while code <= 0x10ffff {
        if let Some(c) = char::from_u32(code) {
            assert_eq!(char_is_space(c), c.is_whitespace(), "U+{:04X}", code);
        }
        code += 1;
    }
}

#[test]
fn trim_bounds_match_std_trim() {
    for s in ["", " ", "a", "  a b \t\n", "\u{a0}x\u{2003}", "\r\n", "no-space", " x", "x "] {
        let v = chars(s);
        let (start, end) = trim_bounds(&v);
        assert!(start <= end && end <= v.len());
        assert_eq!(text(&v[start..end]), s.trim(), "{:?}", s);
    }
}

#[test]
fn slices_and_comparisons() {
    let v = chars("hello");
    assert_eq!(text(&slice_chars(&v, 1, 4)), "ell");
    assert_eq!(text(&slice_chars(&v, 2, 2)), "");
    assert!(matches_at(&v, &chars("llo"), 2));
    assert!(!matches_at(&v, &chars("llo"), 3));
    assert!(matches_at(&v, &chars(""), 5));
    assert!(!matches_at(&v, &chars("hello!"), 0));
    assert!(same_chars(&v, &chars("hello")));
    assert!(!same_chars(&v, &chars("hellO")));
    assert!(!same_chars(&v, &chars("hell")));
    assert!(text_eq("", ""));
    assert!(text_eq("\u{e9}", "\u{e9}"));
    assert!(!text_eq("a", "b"));
}

#[test]
fn contains_matches_std() {
    let cases = [("", ""), ("abc", ""), ("", "a"), ("abc", "bc"), ("abc", "abcd"), ("aab", "ab"), ("abc", "ac")];
    for (s, p) in cases {
        assert_eq!(contains_chars(&chars(s), &chars(p)), s.contains(p), "{:?} {:?}", s, p);
    }
}

#[test]
fn replace_matches_std() {
    let cases = [
        ("", "a", "b"),
        ("aaa", "a", "bb"),
        ("aaa", "aa", "b"),
        ("abcabc", "bc", ""),
        ("hello @x and @xy", "@x", "[X]"),
        ("abc", "abcd", "z"),
        ("ababab", "aba", "X"),
        ("\u{e9}t\u{e9}", "\u{e9}", "e"),
    ];
    for (s, p, w) in cases {
        assert_eq!(
            text(&replace_chars(&chars(s), &chars(p), &chars(w))),
            s.replace(p, w),
            "{:?} {:?} {:?}",
            s,
            p,
            w
        );
    }
}

#[test]
fn push_chars_appends() {
    let mut v = chars("ab");
    push_chars(&mut v, &chars("cd"));
    push_chars(&mut v, &chars(""));
    assert_eq!(text(&v), "abcd");
}

#[test]
fn decimal_matches_std() {
    for n in [0usize, 1, 9, 10, 11, 99, 100, 101, 12345, 1000000, usize::MAX] {
        assert_eq!(text(&decimal_chars(n)), n.to_string());
    }
}

#[test]
fn words_match_std() {
    for s in ["", " ", "a", "a b", "  a  b  ", "one\ttwo\nthree", "x\u{a0}y", "\u{3000}z"] {
        assert_eq!(count_words(&chars(s)), s.split_whitespace().count(), "{:?}", s);
    }
}
