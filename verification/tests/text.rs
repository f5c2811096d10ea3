use jtool::text::{
    chars_of, appended, decimal_of, is_whitespace, replace, same_text, split, starts_with, string_of,
    strip_prefix, trim_end,
};

#[test]
fn chars_and_string_are_inverse() {
    let text = "héllo wörld »";
    let chars = chars_of(text);
    assert_eq!(chars.len(), 13);
    assert_eq!(chars[1], 'é');
    assert_eq!(string_of(&chars), text);
    assert_eq!(string_of(&chars_of("")), "");
}

#[test]
fn whitespace_is_the_unicode_property() {
    let mut code: u32 = 0;
    while code <= 0x10ffff {
        if let Some(c) = char::from_u32(code) {
            assert_eq!(is_whitespace(c), c.is_whitespace(), "code point {:x}", code);
        }
        code += 1;
    }
}

#[test]
fn replace_replaces_every_occurrence() {
    assert_eq!(replace("a-b-c", "-", "_"), "a_b_c");
    assert_eq!(replace("--name=x--name=y", "--name=", ""), "xy");
    assert_eq!(replace("aaa", "aa", "b"), "ba");
    assert_eq!(replace("abc", "abcd", "x"), "abc");
    assert_eq!(replace("abc", "c", "xyz"), "abxyz");
    assert_eq!(replace("", "a", "b"), "");
    assert_eq!(replace("%0% and %0%", "%0%", "demo"), "demo and demo");
}

#[test]
fn replace_of_the_empty_pattern() {
    assert_eq!(replace("ab", "", "x"), "xaxbx");
    assert_eq!(replace("", "", "x"), "x");
    assert_eq!(replace("ab", "", ""), "ab");
}

#[test]
fn replace_agrees_with_std() {
    let texts = ["", "a", "aa", "aaa", "abab", "a-b", "--x=--x=1", "ééé", "ab/rustyasync/cd"];
    let patterns = ["", "a", "aa", "ab", "-", "--x=", "é", "/rustyasync", "zz"];
    let replacements = ["", "_", "ab", "a"];
    for text in texts {
        for pattern in patterns {
            for replacement in replacements {
                assert_eq!(
                    replace(text, pattern, replacement),
                    text.replace(pattern, replacement),
                    "{:?} {:?} {:?}",
                    text,
                    pattern,
                    replacement
                );
            }
        }
    }
}

#[test]
fn trim_end_drops_trailing_white_space_only() {
    assert_eq!(trim_end("quit\n"), "quit");
    assert_eq!(trim_end("  a b \t\r\n"), "  a b");
    assert_eq!(trim_end("   "), "");
    assert_eq!(trim_end(""), "");
    assert_eq!(trim_end("x\u{3000}\u{a0}"), "x");
    assert_eq!(trim_end("x\u{200b}"), "x\u{200b}");
}

#[test]
fn split_keeps_empty_pieces() {
    assert_eq!(split("add boost", ' '), vec!["add".to_string(), "boost".to_string()]);
    assert_eq!(split("", ' '), vec!["".to_string()]);
    assert_eq!(split("a  b", ' '), vec!["a".to_string(), "".to_string(), "b".to_string()]);
    assert_eq!(split(" a ", ' '), vec!["".to_string(), "a".to_string(), "".to_string()]);
    assert_eq!(split("one", '\n'), vec!["one".to_string()]);
}

#[test]
fn split_agrees_with_std() {
    let texts = ["", " ", "a", "a b c", "  lead", "trail  ", "x\ny\n\nz", "é é"];
    for text in texts {
        for sep in [' ', '\n', 'a'] {
            let expected: Vec<String> = text.split(sep).map(|piece| piece.to_string()).collect();
            assert_eq!(split(text, sep), expected, "{:?} {:?}", text, sep);
        }
    }
}

#[test]
fn split_then_join_gives_the_text_back() {
    let text = "add boost  --version=1.83.0 ";
    assert_eq!(split(text, ' ').join(" "), text);
    assert!(split(text, ' ').iter().all(|piece| !piece.contains(' ')));
}

#[test]
fn prefixes() {
    assert!(starts_with("--name=x", "--name="));
    assert!(starts_with("abc", ""));
    assert!(starts_with("abc", "abc"));
    assert!(!starts_with("ab", "abc"));
    assert!(!starts_with("x--name=", "--name="));
    assert_eq!(strip_prefix("boost/1.83.0", "boost/"), Some("1.83.0".to_string()));
    assert_eq!(strip_prefix("boost/", "boost/"), Some("".to_string()));
    assert_eq!(strip_prefix("zlib/1.3", "boost/"), None);
    assert_eq!(strip_prefix("é/ü", "é/"), Some("ü".to_string()));
}

#[test]
fn same_text_compares_characters() {
    assert!(same_text("quit", "quit"));
    assert!(same_text("", ""));
    assert!(!same_text("quit", "Quit"));
    assert!(!same_text("quit", "quit "));
    assert!(!same_text("abc", "abd"));
}

#[test]
fn appended_texts() {
    assert_eq!(appended("/tmp/p", "/project.json"), "/tmp/p/project.json");
    assert_eq!(appended("", ""), "");
}

#[test]
fn decimal_of_every_byte() {
    assert_eq!(decimal_of(0), "0");
    assert_eq!(decimal_of(9), "9");
    assert_eq!(decimal_of(10), "10");
    assert_eq!(decimal_of(20), "20");
    assert_eq!(decimal_of(107), "107");
    assert_eq!(decimal_of(255), "255");
    let mut n: u8 = 0;
    loop {
        assert_eq!(decimal_of(n), n.to_string());
        if n == 255 {
            break;
        }
        n += 1;
    }
}
