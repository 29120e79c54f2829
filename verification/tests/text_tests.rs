use prompt_session::text::{
    chars_of, contains, eq_ignore_ascii_case, is_white_space, join, same_text, strip_leading,
    trim, unmarked_bounds,
};

#[test]
fn chars_of_keeps_every_character_in_order() {
    assert_eq!(chars_of("a±c"), vec!['a', '±', 'c']);
    assert_eq!(chars_of(""), Vec::<char>::new());
}

#[test]
fn same_text_compares_character_for_character() {
    assert!(same_text("TRAIN", "TRAIN"));
    assert!(!same_text("TRAIN", "train"));
    assert!(!same_text("TRAIN", "TRAINS"));
    assert!(same_text("", ""));
}

#[test]
fn eq_ignore_ascii_case_ignores_only_the_case_of_ascii_letters() {
    assert!(eq_ignore_ascii_case("Yes", "yes"));
    assert!(eq_ignore_ascii_case("nA", "NA"));
    assert!(!eq_ignore_ascii_case("NAx", "NA"));
    assert!(!eq_ignore_ascii_case("N", "NA"));
    // '[' follows 'Z' and '{' follows 'z': they are not letters of two cases.
    assert!(!eq_ignore_ascii_case("[", "{"));
    assert!(!eq_ignore_ascii_case("@", "`"));
    // A capital outside ASCII is not folded.
    assert!(!eq_ignore_ascii_case("É", "é"));
}

#[test]
fn trim_removes_white_space_at_both_ends_only() {
    assert_eq!(trim("  hello world \n"), "hello world");
    assert_eq!(trim("\t\r\n"), "");
    assert_eq!(trim(""), "");
    assert_eq!(trim("x"), "x");
    assert_eq!(trim(" a b "), "a b");
}

#[test]
fn trim_knows_white_space_beyond_ascii() {
    // U+00A0 and U+3000 are white space, U+200B is not.
    assert_eq!(trim("\u{a0}caf\u{e9}\u{3000}"), "caf\u{e9}");
    assert_eq!(trim("\u{200b}x"), "\u{200b}x");
}

#[test]
fn strip_leading_removes_the_whole_run_in_front() {
    assert_eq!(strip_leading("-- What?", '-'), " What?");
    assert_eq!(strip_leading("What - now?", '-'), "What - now?");
    assert_eq!(strip_leading("---", '-'), "");
    assert_eq!(strip_leading(" - x", '-'), " - x");
}

#[test]
fn contains_finds_a_pattern_anywhere() {
    assert!(contains("abcabd", "abd"));
    assert!(contains("abc", "abc"));
    assert!(contains("abc", ""));
    assert!(contains("", ""));
    assert!(!contains("abc", "abcd"));
    assert!(!contains("ababab", "abb"));
    assert!(contains("xaab", "ab"));
}

#[test]
fn join_puts_the_separator_between_parts_only() {
    let parts = vec!["a".to_string(), "b".to_string(), "c".to_string()];
    assert_eq!(join(&parts, ", "), "a, b, c");
    assert_eq!(join(&vec!["only".to_string()], "\n"), "only");
    assert_eq!(join(&Vec::new(), "\n"), "");
    assert_eq!(join(&vec!["".to_string(), "".to_string()], "-"), "-");
}

#[test]
fn unmarked_bounds_cut_off_the_marked_ends() {
    assert_eq!(unmarked_bounds(&vec![true, false, true, false, true, true]), (1, 4));
    assert_eq!(unmarked_bounds(&vec![false, true, false]), (0, 3));
    assert_eq!(unmarked_bounds(&vec![false]), (0, 1));
    assert_eq!(unmarked_bounds(&vec![true, true]), (2, 2));
    assert_eq!(unmarked_bounds(&Vec::new()), (0, 0));
}

#[test]
fn white_space_is_what_the_standard_library_takes_for_it() {
    for code in 0..=0x10ffffu32 {
        if let Some(c) = char::from_u32(code) {
            assert_eq!(is_white_space(c), c.is_whitespace(), "U+{:04X}", code);
        }
    }
}

#[test]
fn trim_agrees_with_the_standard_library() {
    for text in ["  Acme \n", "\u{2003}a\u{85}b\u{1680}", "\u{feff}x", "\u{180e}y\u{200b}", ""] {
        assert_eq!(trim(text), text.trim(), "{:?}", text);
    }
}
