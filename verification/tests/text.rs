use code_ai_assistant::text::{
    chars_of, clone_text, contains_chars, decimal_string, first_line_end, is_whitespace,
    matches_at, normalized, rfind, same_text, signed_decimal_string, string_of, strip_end_in,
    strip_start_in, substring, to_ascii_lower, trimmed, window_eq_ignore_ascii_case, CharClass,
};

fn cs(s: &str) -> Vec<char> {
    s.chars().collect()
}

#[test]
fn characters_and_strings_convert_both_ways() {
    assert_eq!(chars_of("aé日"), vec!['a', 'é', '日']);
    assert_eq!(chars_of(""), Vec::<char>::new());
    assert_eq!(string_of(&cs("aé日")), "aé日");
    assert_eq!(substring(&cs("hello"), 1, 4), "ell");
    assert_eq!(substring(&cs("hello"), 2, 2), "");
    assert_eq!(substring(&cs("hello"), 0, 5), "hello");
}

#[test]
fn white_space_is_what_the_standard_library_says() {
    let mut count = 0;
    for n in 0..=0x10FFFFu32 {
        if let Some(c) = char::from_u32(n) {
            assert_eq!(is_whitespace(c), c.is_whitespace(), "U+{n:04X}");
            if is_whitespace(c) {
                count += 1;
            }
        }
    }
    assert_eq!(count, 25);
}

#[test]
fn ascii_lower_case_is_what_the_standard_library_says() {
    for n in 0..=0x10FFFFu32 {
        if let Some(c) = char::from_u32(n) {
            assert_eq!(to_ascii_lower(c), c.to_ascii_lowercase(), "U+{n:04X}");
        }
    }
}

#[test]
fn trimming_is_what_the_standard_library_does() {
    for s in ["", " ", "a", "  a b  ", "\t\na\r\n", "\u{3000}x\u{a0}", "\u{200b}x", " \u{feff} "] {
        assert_eq!(trimmed(s), s.trim(), "input {s:?}");
    }
}

#[test]
fn stripping_narrows_a_window() {
    let v = cs("  --ab--  ");
    assert_eq!(strip_start_in(&v, 0, v.len(), CharClass::Whitespace), 2);
    assert_eq!(strip_end_in(&v, 0, v.len(), CharClass::Whitespace), 8);
    assert_eq!(strip_start_in(&v, 2, 8, CharClass::Just('-')), 4);
    assert_eq!(strip_end_in(&v, 2, 8, CharClass::Just('-')), 6);
    assert_eq!(strip_start_in(&v, 4, 6, CharClass::Just('-')), 4);
    let blank = cs("   ");
    assert_eq!(strip_start_in(&blank, 0, 3, CharClass::Whitespace), 3);
    assert_eq!(strip_end_in(&blank, 0, 3, CharClass::Whitespace), 0);
    assert_eq!(strip_end_in(&blank, 1, 3, CharClass::Whitespace), 1);
}

#[test]
fn search_finds_the_last_occurrence() {
    let text = cs("abcabcab");
    assert_eq!(rfind(&text, &cs("abc")), Some(3));
    assert_eq!(rfind(&text, &cs("ab")), Some(6));
    assert_eq!(rfind(&text, &cs("abcabcab")), Some(0));
    assert_eq!(rfind(&text, &cs("abcabcabc")), None);
    assert_eq!(rfind(&text, &cs("x")), None);
    assert_eq!(rfind(&text, &cs("")), Some(8));
    assert_eq!(rfind(&cs(""), &cs("")), Some(0));
    assert_eq!(rfind(&cs(""), &cs("a")), None);
    assert!(contains_chars(&text, &cs("ca")));
    assert!(!contains_chars(&text, &cs("cc")));
    assert!(matches_at(&text, &cs("bca"), 1));
    assert!(!matches_at(&text, &cs("bca"), 2));
    assert!(!matches_at(&text, &cs("ab"), 7));
    assert!(!matches_at(&text, &cs("ab"), 100));
}

#[test]
fn search_agrees_with_the_standard_library() {
    let texts = ["", "a", "aa", "aaa", "abab", "日本日本語", "xSESSION_ID:SESSION_ID:"];
    let pats = ["", "a", "aa", "ab", "b", "日本", "SESSION_ID:"];
    for t in texts {
        for p in pats {
            let expected = t.rfind(p).map(|byte| t[..byte].chars().count());
            assert_eq!(rfind(&cs(t), &cs(p)), expected, "{t:?} {p:?}");
            assert_eq!(contains_chars(&cs(t), &cs(p)), t.contains(p));
        }
    }
}

#[test]
fn line_endings_are_normalised_like_a_replace() {
    for s in ["", "a", "\r", "\n", "\r\n", "a\r\nb", "\r\r\n", "\r\n\r\n", "a\rb\n", "\n\r", "\r\r\r\n\n"] {
        assert_eq!(string_of(&normalized(&cs(s))), s.replace("\r\n", "\n"), "input {s:?}");
    }
}

#[test]
fn first_line_ends_at_the_first_line_feed() {
    let v = cs("ab\ncd\n");
    assert_eq!(first_line_end(&v, 0, v.len()), 2);
    assert_eq!(first_line_end(&v, 2, v.len()), 2);
    assert_eq!(first_line_end(&v, 3, v.len()), 5);
    assert_eq!(first_line_end(&v, 3, 4), 4);
    assert_eq!(first_line_end(&cs("abc"), 0, 3), 3);
    assert_eq!(first_line_end(&cs(""), 0, 0), 0);
}

#[test]
fn numerals_are_decimal() {
    for n in [0u64, 1, 9, 10, 11, 99, 100, 12345, 4_294_967_295, u64::MAX] {
        assert_eq!(decimal_string(n), n.to_string());
    }
    for i in [0i32, 1, -1, 9, -9, 10, -10, 127, -128, i32::MAX, i32::MIN] {
        assert_eq!(signed_decimal_string(i), i.to_string());
    }
}

#[test]
fn texts_compare_by_content() {
    assert!(same_text("", ""));
    assert!(same_text("abc", "abc"));
    assert!(!same_text("abc", "abd"));
    assert!(!same_text("abc", "ab"));
    assert!(!same_text("", "a"));
    assert!(same_text("日本", "日本"));
    assert_eq!(clone_text(&Some("x".to_string())), Some("x".to_string()));
    assert_eq!(clone_text(&None), None);
}

#[test]
fn ascii_case_is_ignored_where_asked() {
    let v = cs("xxExExx");
    assert!(window_eq_ignore_ascii_case(&v, 2, 5, &cs("exe")));
    assert!(window_eq_ignore_ascii_case(&v, 2, 5, &cs("EXE")));
    assert!(!window_eq_ignore_ascii_case(&v, 2, 5, &cs("ex")));
    assert!(!window_eq_ignore_ascii_case(&v, 1, 4, &cs("exe")));
    assert!(window_eq_ignore_ascii_case(&v, 3, 3, &cs("")));
    assert!(!window_eq_ignore_ascii_case(&cs("É"), 0, 1, &cs("é")));
    for (a, b) in [("exe", "EXE"), ("Exe", "eXE"), ("a1_", "A1_"), ("k", "\u{212a}")] {
        let x = cs(a);
        assert_eq!(
            window_eq_ignore_ascii_case(&x, 0, x.len(), &cs(b)),
            a.eq_ignore_ascii_case(b)
        );
    }
}
