use promptpunch::text::char_is_whitespace;
use promptpunch::text::chars_contain;
use promptpunch::text::chars_eq_ignore_ascii_case;
use promptpunch::text::from_chars;
use promptpunch::text::replace_chars;
use promptpunch::text::to_chars;
use promptpunch::text::trim_chars;

fn replace(text: &str, from: &str, to: &str) -> String {
    from_chars(&replace_chars(&to_chars(text), &to_chars(from), &to_chars(to)))
}

fn trim(text: &str) -> String {
    from_chars(&trim_chars(&to_chars(text)))
}

#[test]
fn chars_round_trip() {
    for text in ["", "abc", "héllo wörld", "日本語", "a\u{1F600}b"] {
        assert_eq!(from_chars(&to_chars(text)), text);
        assert_eq!(to_chars(text), text.chars().collect::<Vec<char>>());
    }
}

#[test]
fn replace_agrees_with_std() {
    let cases = [
        ("hello world", "o", "0"),
        ("aaaa", "aa", "b"),
        ("aaa", "aa", "b"),
        ("abc", "", "-"),
        ("", "", "-"),
        ("", "x", "y"),
        ("abcabc", "abc", ""),
        ("abab", "ab", "abab"),
        ("x{name}y{name}", "{name}", "Bob"),
        ("short", "much longer pattern", "z"),
        ("ünï", "ï", "i"),
    ];
    for (text, from, to) in cases {
        assert_eq!(replace(text, from, to), text.replace(from, to), "{text:?} {from:?} {to:?}");
    }
}

#[test]
fn replace_exact_values() {
    assert_eq!(replace("aaa", "aa", "b"), "ba");
    assert_eq!(replace("abc", "", "-"), "-a-b-c-");
    assert_eq!(replace("", "", "-"), "-");
}

#[test]
fn trim_agrees_with_std() {
    for text in ["", "  ", " a b ", "\t\nx\r\n", "\u{a0}x\u{3000}", "x", "\u{200b}x", "\u{85}y\u{2028}\u{2029}"] {
        assert_eq!(trim(text), text.trim(), "{text:?}");
    }
}

#[test]
fn whitespace_agrees_with_std() {
    let mut code: u32 = 0;
    while code <= 0x10ffff {
        if let Some(c) = char::from_u32(code) {
            assert_eq!(char_is_whitespace(c), c.is_whitespace(), "U+{code:04X}");
        }
        code += 1;
    }
}

#[test]
fn ascii_case_is_ignored() {
    assert!(chars_eq_ignore_ascii_case(&to_chars("SyStEm"), &to_chars("system")));
    assert!(!chars_eq_ignore_ascii_case(&to_chars("systen"), &to_chars("system")));
    assert!(!chars_eq_ignore_ascii_case(&to_chars("system "), &to_chars("system")));
    assert!(!chars_eq_ignore_ascii_case(&to_chars("[ser"), &to_chars("{ser")));
    assert!(!chars_eq_ignore_ascii_case(&to_chars("\u{212a}"), &to_chars("k")));
}

#[test]
fn contains_agrees_with_std() {
    for (text, pattern) in [("abc", "bc"), ("abc", ""), ("", ""), ("", "a"), ("abc", "abcd"), ("aab", "ab"), ("abc", "ac")] {
        assert_eq!(chars_contain(&to_chars(text), &to_chars(pattern)), text.contains(pattern));
    }
}
