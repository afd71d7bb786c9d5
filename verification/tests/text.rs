use ai_router::text::{
    char_is_whitespace, chars_of, join, matches_at, remove_all, str_eq, text_added,
    to_decimal, trim, trim_start,
};

#[test]
fn strings_compare_by_content() {
    assert!(str_eq("", ""));
    assert!(str_eq("text_output", "text_output"));
    assert!(str_eq("é", "é"));
    assert!(!str_eq("text_output", "text_outpuT"));
    assert!(!str_eq("a", "ab"));
    assert!(!str_eq("ab", "a"));
}

#[test]
fn chars_are_listed_in_order() {
    assert_eq!(chars_of("héé!"), vec!['h', 'é', 'é', '!']);
    assert_eq!(chars_of(""), Vec::<char>::new());
}

#[test]
fn pattern_matching_at_a_position() {
    let text = chars_of("abcabc");
    let pat = chars_of("bc");
    assert!(matches_at(&text, &pat, 1));
    assert!(matches_at(&text, &pat, 4));
    assert!(!matches_at(&text, &pat, 0));
    assert!(!matches_at(&text, &pat, 5));
    assert!(!matches_at(&text, &pat, 6));
    assert!(!matches_at(&text, &pat, usize::MAX));
    assert!(matches_at(&text, &[], 6));
    assert!(!matches_at(&text, &[], 7));
}

#[test]
fn remove_all_takes_out_every_occurrence() {
    assert_eq!(remove_all("a</s>b</s>", "</s>"), "ab");
    assert_eq!(remove_all("</s></s>", "</s>"), "");
    assert_eq!(remove_all("</s>", "</s>"), "");
    assert_eq!(remove_all("no marker", "</s>"), "no marker");
    assert_eq!(remove_all("", "</s>"), "");
    assert_eq!(remove_all("</s", "</s>"), "</s");
    assert_eq!(remove_all("é</s>ü", "</s>"), "éü");
    assert_eq!(remove_all("abc", ""), "abc");
}

#[test]
fn remove_all_scans_once_from_the_left() {
    assert_eq!(remove_all("<</s>/s>", "</s>"), "</s>");
    assert_eq!(remove_all("aaa", "aa"), "a");
    assert_eq!(remove_all("aaaa", "aa"), "");
    assert_eq!(remove_all("<</s>/s>", "</s>"), "<</s>/s>".replace("</s>", ""));
    assert_eq!(remove_all("abababa", "aba"), "abababa".replace("aba", ""));
}

#[test]
fn added_text_is_the_rest_after_the_previous_text() {
    assert_eq!(text_added("Hello world", "Hello"), " world");
    assert_eq!(text_added("Hello", ""), "Hello");
    assert_eq!(text_added("Hello", "Hello"), "");
    assert_eq!(text_added("", ""), "");
}

#[test]
fn added_text_is_the_whole_text_where_it_does_not_extend_the_previous() {
    assert_eq!(text_added("Goodbye", "Hello"), "Goodbye");
    assert_eq!(text_added("Hell", "Hello"), "Hell");
    assert_eq!(text_added("say Hello", "Hello"), "say Hello");
    assert_eq!(text_added("", "Hello"), "");
}

#[test]
fn join_concatenates_in_order() {
    assert_eq!(join(&vec![String::from("a"), String::new(), String::from("bc")]), "abc");
    assert_eq!(join(&Vec::new()), "");
}

#[test]
fn whitespace_is_what_std_calls_whitespace() {
    for code in 0u32..=0x3100 {
        if let Some(c) = char::from_u32(code) {
            assert_eq!(char_is_whitespace(c), c.is_whitespace(), "U+{code:04X}");
        }
    }
    assert!(!char_is_whitespace('\u{FEFF}'));
    assert!(!char_is_whitespace('\u{10FFFF}'));
}

#[test]
fn trimming() {
    assert_eq!(trim("  a b \n"), "a b");
    assert_eq!(trim("\u{3000}x\u{a0}"), "x");
    assert_eq!(trim("   "), "");
    assert_eq!(trim(""), "");
    assert_eq!(trim("x"), "x");
    assert_eq!(trim_start("  a b \n"), "a b \n");
    assert_eq!(trim_start("\t\r\n"), "");
    assert_eq!(trim_start("a "), "a ");
    for s in [" \u{2003}mixed\u{2028} ", "none", " \t one side"] {
        assert_eq!(trim(s), s.trim());
        assert_eq!(trim_start(s), s.trim_start());
    }
}

#[test]
fn decimal_digits() {
    assert_eq!(to_decimal(0), "0");
    assert_eq!(to_decimal(7), "7");
    assert_eq!(to_decimal(10), "10");
    assert_eq!(to_decimal(11), "11");
    assert_eq!(to_decimal(131_072), "131072");
    assert_eq!(to_decimal(1_234_567_890), "1234567890");
    assert_eq!(to_decimal(usize::MAX), usize::MAX.to_string());
}
