use mcp_client::text::{
    byte_len, distinct_texts, find, from_chars, has_bytes, index_at_offset, is_text_le,
    is_whitespace, join, matches_at, replace, same_chars, same_text, to_chars, trim,
};

fn chars(s: &str) -> Vec<char> {
    s.chars().collect()
}

fn text(c: &[char]) -> String {
    c.iter().collect()
}

#[test]
fn chars_and_strings_convert_both_ways() {
    assert_eq!(to_chars("héllo"), chars("héllo"));
    assert_eq!(from_chars(&chars("héllo")), "héllo");
    assert_eq!(to_chars(""), Vec::<char>::new());
    assert_eq!(from_chars(&[]), "");
}

#[test]
fn same_text_compares_characters() {
    assert!(same_text("abc", "abc"));
    assert!(!same_text("abc", "abd"));
    assert!(!same_text("abc", "ab"));
    assert!(same_text("", ""));
    assert!(same_chars(&chars("é"), &chars("é")));
    assert!(!same_chars(&chars("a"), &chars("")));
}

#[test]
fn find_gives_the_first_place() {
    let hay = chars("abcabc");
    assert_eq!(find(&hay, &chars("bc"), 0), Some(1));
    assert_eq!(find(&hay, &chars("bc"), 2), Some(4));
    assert_eq!(find(&hay, &chars("bc"), 5), None);
    assert_eq!(find(&hay, &chars("x"), 0), None);
    assert_eq!(find(&hay, &chars(""), 0), Some(0));
    assert_eq!(find(&hay, &chars(""), 6), Some(6));
    assert_eq!(find(&hay, &chars(""), 7), None);
    assert_eq!(find(&chars(""), &chars("a"), 0), None);
    assert_eq!(find(&hay, &chars("abcabcd"), 0), None);
}

#[test]
fn matches_at_checks_one_place() {
    let hay = chars("abcabc");
    assert!(matches_at(&hay, &chars("abc"), 3));
    assert!(!matches_at(&hay, &chars("abc"), 4));
    assert!(!matches_at(&hay, &chars("abc"), 1));
    assert!(matches_at(&hay, &chars(""), 6));
    assert!(!matches_at(&hay, &chars(""), 7));
}

#[test]
fn trim_takes_white_space_off_both_ends() {
    assert_eq!(text(trim(&chars("  a b \t\n"))), "a b");
    assert_eq!(text(trim(&chars("   "))), "");
    assert_eq!(text(trim(&chars(""))), "");
    assert_eq!(text(trim(&chars("x"))), "x");
    assert_eq!(text(trim(&chars("\u{a0}\u{2003}x\u{3000}\u{85}"))), "x");
    assert_eq!(text(trim(&chars("\u{200b}x"))), "\u{200b}x");
}

#[test]
fn white_space_is_what_the_standard_library_says() {
    for n in 0u32..0x3100 {
        if let Some(c) = char::from_u32(n) {
            assert_eq!(is_whitespace(c), c.is_whitespace());
        }
    }
}

#[test]
fn replace_goes_left_to_right() {
    assert_eq!(text(&replace(&chars("a</s>b</s>"), &chars("</s>"), &chars(""))), "ab");
    assert_eq!(text(&replace(&chars("aaa"), &chars("aa"), &chars("b"))), "ba");
    assert_eq!(text(&replace(&chars("abc"), &chars("x"), &chars("y"))), "abc");
    assert_eq!(text(&replace(&chars("abc"), &chars(""), &chars("y"))), "yaybycy");
    assert_eq!(text(&replace(&chars(""), &chars(""), &chars("y"))), "y");
    for (hay, needle, with) in [
        ("abcabc", "bc", "X"),
        ("aaaa", "aa", "a"),
        ("abc", "", "-"),
        ("", "", ""),
        ("héllo wörld", "ö", "oe"),
        ("abc", "abc", ""),
        ("abc", "abcd", "x"),
        ("a-b-c", "-", ""),
    ] {
        assert_eq!(
            text(&replace(&chars(hay), &chars(needle), &chars(with))),
            hay.replace(needle, with),
            "{:?} {:?} {:?}",
            hay,
            needle,
            with
        );
    }
    assert_eq!(text(&replace(&chars(""), &chars("a"), &chars("y"))), "");
    assert_eq!(text(&replace(&chars("/r/x /r/y"), &chars("/r"), &chars("/codebase"))), "/codebase/x /codebase/y");
}

#[test]
fn offsets_map_to_character_indices() {
    let t = chars("aé€😀z");
    assert_eq!(index_at_offset(&t, 0), Some(0));
    assert_eq!(index_at_offset(&t, 1), Some(1));
    assert_eq!(index_at_offset(&t, 2), None);
    assert_eq!(index_at_offset(&t, 3), Some(2));
    assert_eq!(index_at_offset(&t, 6), Some(3));
    assert_eq!(index_at_offset(&t, 10), Some(4));
    assert_eq!(index_at_offset(&t, 11), Some(5));
    assert_eq!(index_at_offset(&t, 12), None);
    assert_eq!(byte_len(&t), Some(11));
    assert!(has_bytes(&t, 11));
    assert!(!has_bytes(&t, 12));
}

#[test]
fn join_puts_the_separator_between() {
    assert_eq!(text(&join(&vec![chars("a"), chars("b"), chars("")], &chars(", "))), "a, b, ");
    assert_eq!(text(&join(&vec![chars("a")], &chars(", "))), "a");
    assert_eq!(text(&join(&vec![], &chars(", "))), "");
}

#[test]
fn distinct_keeps_first_occurrences() {
    let list = vec!["b".to_string(), "a".to_string(), "b".to_string(), "c".to_string(), "a".to_string()];
    assert_eq!(distinct_texts(&list), vec![chars("b"), chars("a"), chars("c")]);
    assert!(distinct_texts(&[]).is_empty());
}

#[test]
fn texts_are_ordered_like_strings() {
    let samples = ["", "a", "ab", "b", "command1", "command10", "command2", "é", "z", "😀", "aé"];
    for a in samples {
        for b in samples {
            assert_eq!(is_text_le(&chars(a), &chars(b)), a <= b, "{:?} {:?}", a, b);
        }
    }
}
