use proprompter::lines::{split_lines, trim_bounds, whitespace};
use proprompter::text::{
    append_chars, chars_of, contains_chars, contains_text, matches_at, replace_chars,
    replace_text, same_chars, same_text, string_of,
};
use proprompter::xml::markers::{extract_between_markers, marker_line};

#[test]
fn chars_and_strings_convert_both_ways() {
    let text = "héllo \u{1F600} wörld\n";
    let chars = chars_of(text);
    assert_eq!(chars, text.chars().collect::<Vec<char>>());
    assert_eq!(string_of(&chars), text);
    assert_eq!(chars_of(""), Vec::<char>::new());
    assert_eq!(string_of(&[]), "");
}

#[test]
fn same_text_compares_characters() {
    assert!(same_text("abc", "abc"));
    assert!(same_text("", ""));
    assert!(!same_text("abc", "abd"));
    assert!(!same_text("abc", "ab"));
    assert!(same_chars(&['a'], &['a']));
    assert!(!same_chars(&['a'], &['b']));
}

#[test]
fn characters_are_appended() {
    let s = chars_of("abcdef");
    let mut out = chars_of("xy");
    append_chars(&mut out, &s[..2]);
    assert_eq!(out, chars_of("xyab"));
    append_chars(&mut out, &[]);
    assert_eq!(out, chars_of("xyab"));
}

#[test]
fn matches_at_looks_at_one_place() {
    let s = chars_of("abcabc");
    let p = chars_of("bc");
    assert!(!matches_at(&s, &p, 0));
    assert!(matches_at(&s, &p, 1));
    assert!(matches_at(&s, &p, 4));
    assert!(!matches_at(&s, &p, 5));
    assert!(!matches_at(&s, &p, 6));
    assert!(matches_at(&s, &[], 6));
    assert!(!matches_at(&s, &[], 7));
    assert!(!matches_at(&s, &p, 100));
}

fn cases() -> Vec<(&'static str, &'static str, &'static str)> {
    vec![
        ("foo baz", "foo", "bar"),
        ("aaaa", "aa", "b"),
        ("aaa", "aa", "b"),
        ("abc", "", "-"),
        ("", "", "-"),
        ("", "a", "b"),
        ("abc", "abcd", "x"),
        ("abcabc", "abc", ""),
        ("a.b.c", ".", ".."),
        ("héllo wörld", "ö", "oe"),
        ("ab", "b", "bb"),
        ("xyz", "q", "r"),
        ("one\ntwo\n", "\n", "\r\n"),
        ("aXbXc", "X", "X"),
        ("\u{1F600}\u{1F600}", "", "|"),
    ]
}

#[test]
fn replace_agrees_with_the_standard_library() {
    for (text, pattern, with) in cases() {
        assert_eq!(replace_text(text, pattern, with), text.replace(pattern, with));
        assert_eq!(
            replace_chars(&chars_of(text), &chars_of(pattern), &chars_of(with)),
            chars_of(&text.replace(pattern, with))
        );
    }
}

#[test]
fn replace_gives_exact_texts() {
    assert_eq!(replace_text("foo baz foo", "foo", "bar"), "bar baz bar");
    assert_eq!(replace_text("aaa", "aa", "b"), "ba");
    assert_eq!(replace_text("abc", "", "-"), "-a-b-c-");
    assert_eq!(replace_text("", "", "-"), "-");
}

#[test]
fn contains_agrees_with_the_standard_library() {
    for (text, pattern, _) in cases() {
        assert_eq!(contains_text(text, pattern), text.contains(pattern));
        assert_eq!(contains_chars(&chars_of(text), &chars_of(pattern)), text.contains(pattern));
    }
    assert!(contains_text("abc", "c"));
    assert!(contains_text("abc", ""));
    assert!(!contains_text("abc", "ca"));
}

#[test]
fn whitespace_agrees_with_the_standard_library() {
    let mut code: u32 = 0;
    while code <= 0x10FFFF {
        if let Some(c) = char::from_u32(code) {
            assert_eq!(whitespace(c), c.is_whitespace(), "U+{:04X}", code);
        }
        code += 1;
    }
}

fn texts() -> Vec<&'static str> {
    vec![
        "",
        "a",
        "\n",
        "a\n",
        "a\nb",
        "a\r\nb\r\n",
        "a\rb",
        "a\r",
        "\r\n",
        "\n\n",
        "a\n\nb",
        "  x  \n\t===\t\n",
        "===\nfoo\n===",
        "line\r\r\nnext",
        "\u{2003}wide\u{3000}",
    ]
}

#[test]
fn lines_agree_with_the_standard_library() {
    for text in texts() {
        let ours: Vec<String> =
            split_lines(&chars_of(text)).iter().map(|l| string_of(l)).collect();
        let theirs: Vec<String> = text.lines().map(|l| l.to_string()).collect();
        assert_eq!(ours, theirs, "{:?}", text);
    }
}

#[test]
fn lines_are_split_at_line_feeds() {
    let ours = split_lines(&chars_of("a\r\nb\n\nc"));
    assert_eq!(ours, vec![chars_of("a"), chars_of("b"), chars_of(""), chars_of("c")]);
}

#[test]
fn trim_agrees_with_the_standard_library() {
    for text in texts() {
        let chars = chars_of(text);
        let (a, b) = trim_bounds(&chars);
        assert!(a <= b && b <= chars.len());
        assert_eq!(string_of(&chars[a..b]), text.trim(), "{:?}", text);
    }
    let chars = chars_of("  ab c \n");
    assert_eq!(trim_bounds(&chars), (2, 6));
    assert_eq!(trim_bounds(&chars_of("   ")), (3, 3));
}

#[test]
fn marker_lines_hold_three_equals_signs() {
    assert!(marker_line(&chars_of("===")));
    assert!(marker_line(&chars_of("  ===\t")));
    assert!(marker_line(&chars_of("\u{3000}===\r")));
    assert!(!marker_line(&chars_of("====")));
    assert!(!marker_line(&chars_of("==")));
    assert!(!marker_line(&chars_of("= ==")));
    assert!(!marker_line(&chars_of("")));
    assert!(!marker_line(&chars_of("a===")));
}

#[test]
fn two_markers_fence_the_payload() {
    assert_eq!(extract_between_markers("===\nfoo\n==="), Some("foo".to_string()));
    assert_eq!(
        extract_between_markers("intro\n ===  \nline one\n\nline three\n===\noutro"),
        Some("line one\n\nline three".to_string())
    );
    assert_eq!(extract_between_markers("===\r\na\r\nb\r\n===\r\n"), Some("a\nb".to_string()));
    assert_eq!(extract_between_markers("===\n\n==="), Some(String::new()));
}

#[test]
fn fewer_than_two_markers_leave_the_text() {
    assert_eq!(extract_between_markers(""), Some(String::new()));
    assert_eq!(extract_between_markers("plain"), Some("plain".to_string()));
    assert_eq!(extract_between_markers("===\nopen"), Some("===\nopen".to_string()));
    assert_eq!(extract_between_markers("a\r\n===\r\n"), Some("a\r\n===\r\n".to_string()));
}

#[test]
fn adjacent_markers_leave_the_text() {
    assert_eq!(extract_between_markers("===\n==="), Some("===\n===".to_string()));
    assert_eq!(extract_between_markers("a\n===\n===\nb"), Some("a\n===\n===\nb".to_string()));
}

#[test]
fn the_first_two_markers_count() {
    assert_eq!(extract_between_markers("===\na\n===\nb\n==="), Some("a".to_string()));
    assert_eq!(extract_between_markers("===\n===\nb\n==="), Some("===\n===\nb\n===".to_string()));
}
