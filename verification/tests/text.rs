use asimov_module_cli::manifest::is_valid_module_name;
use asimov_module_cli::normalization::scheme_of;
use asimov_module_cli::text::{
    chars_of, contains, ends_with, extend, find_first_of, find_last, first_token_of,
    is_one_of, is_space_char, lowered, matches_at, same_chars, same_text, slice_of, starts_with,
    string_of, to_lower_char, trimmed,
};

fn c(text: &str) -> Vec<char> {
    text.chars().collect()
}

#[test]
fn chars_and_strings_convert_both_ways() {
    assert_eq!(chars_of("añ→z"), vec!['a', 'ñ', '→', 'z']);
    assert_eq!(chars_of(""), Vec::<char>::new());
    assert_eq!(string_of(&vec!['a', 'ñ', '→', 'z']), "añ→z");
    assert_eq!(string_of(&Vec::new()), "");
    assert_eq!(string_of(&chars_of("round trip")), "round trip");
}

#[test]
fn equal_texts() {
    assert!(same_text("abc", "abc"));
    assert!(same_text("", ""));
    assert!(!same_text("abc", "abd"));
    assert!(!same_text("abc", "ab"));
    assert!(!same_text("abc", "ABC"));
    assert!(same_chars(&c("xyz"), &c("xyz")));
    assert!(!same_chars(&c("xyz"), &c("xy")));
}

#[test]
fn parts_of_texts() {
    let hay = c("hello world");
    assert!(matches_at(&hay, &c("world"), 6));
    assert!(!matches_at(&hay, &c("world"), 5));
    assert!(!matches_at(&hay, &c("world"), 7));
    assert!(!matches_at(&hay, &c("world"), 100));
    assert!(matches_at(&hay, &c(""), 11));
    assert!(!matches_at(&hay, &c(""), 12));
    assert!(starts_with(&hay, &c("hello")));
    assert!(starts_with(&hay, &c("")));
    assert!(!starts_with(&hay, &c("world")));
    assert!(!starts_with(&c("he"), &c("hello")));
    assert!(ends_with(&hay, &c("world")));
    assert!(ends_with(&hay, &c("")));
    assert!(!ends_with(&hay, &c("hello")));
    assert!(!ends_with(&c("ld"), &c("world")));
    assert!(contains(&hay, &c("lo wo")));
    assert!(contains(&hay, &c("hello world")));
    assert!(contains(&hay, &c("d")));
    assert!(contains(&hay, &c("")));
    assert!(contains(&c(""), &c("")));
    assert!(!contains(&hay, &c("worlds")));
    assert!(!contains(&hay, &c("hello world!")));
    assert_eq!(slice_of(&hay, 6, 11), c("world"));
    assert_eq!(slice_of(&hay, 3, 3), c(""));
}

#[test]
fn searching_for_characters() {
    let text = c("a/b?c#d/e");
    assert_eq!(find_first_of(&text, &c("?#")), 3);
    assert_eq!(find_first_of(&text, &c("/")), 1);
    assert_eq!(find_first_of(&text, &c("xyz")), 9);
    assert_eq!(find_first_of(&text, &c("")), 9);
    assert_eq!(find_first_of(&c(""), &c("/")), 0);
    assert_eq!(find_last(&text, '/'), Some(7));
    assert_eq!(find_last(&text, 'a'), Some(0));
    assert_eq!(find_last(&text, 'x'), None);
    assert_eq!(find_last(&c(""), 'x'), None);
    assert!(is_one_of('?', &c("/?#")));
    assert!(!is_one_of('a', &c("/?#")));
    assert!(!is_one_of('a', &c("")));
}

#[test]
fn lower_case_is_for_ascii_letters() {
    assert_eq!(to_lower_char('A'), 'a');
    assert_eq!(to_lower_char('Z'), 'z');
    assert_eq!(to_lower_char('a'), 'a');
    assert_eq!(to_lower_char('@'), '@');
    assert_eq!(to_lower_char('['), '[');
    assert_eq!(to_lower_char('É'), 'É');
    assert_eq!(lowered(&c("HeLLo-ÉX_1")), c("hello-Éx_1"));
    for code in 0u32..0x250 {
        if let Some(ch) = char::from_u32(code) {
            assert_eq!(to_lower_char(ch), ch.to_ascii_lowercase());
        }
    }
}

#[test]
fn white_space_is_what_std_says() {
    for code in 0u32..0x3100 {
        if let Some(ch) = char::from_u32(code) {
            assert_eq!(is_space_char(ch), ch.is_whitespace(), "U+{code:04X}");
        }
    }
    assert!(!is_space_char('\u{feff}'));
    assert!(!is_space_char('\u{200b}'));
}

#[test]
fn trimming() {
    assert_eq!(trimmed(&c("  a b \t\n")), c("a b"));
    assert_eq!(trimmed(&c("a")), c("a"));
    assert_eq!(trimmed(&c(" \u{a0}\u{2003} ")), c(""));
    assert_eq!(trimmed(&c("")), c(""));
    for text in ["", " ", " x", "x ", " x y ", "\u{3000}x\u{85}", "\n\n", "x\u{200b} "] {
        assert_eq!(string_of(&trimmed(&c(text))), text.trim());
    }
}

#[test]
fn first_tokens() {
    assert_eq!(first_token_of(&c("  abc  def ")), c("abc"));
    assert_eq!(first_token_of(&c("abc")), c("abc"));
    assert_eq!(first_token_of(&c("abc\tdef")), c("abc"));
    assert_eq!(first_token_of(&c("   ")), c(""));
    assert_eq!(first_token_of(&c("")), c(""));
    for text in ["", " ", "a b", "  a  b", "\ta\n", "a"] {
        assert_eq!(
            string_of(&first_token_of(&c(text))),
            text.split_whitespace().next().unwrap_or("")
        );
    }
}

#[test]
fn extending() {
    let mut text = c("ab");
    extend(&mut text, &c("cd"));
    extend(&mut text, &c(""));
    assert_eq!(text, c("abcd"));
}

#[test]
fn schemes() {
    assert_eq!(scheme_of(&c("https://example.org")), Some(c("https")));
    assert_eq!(scheme_of(&c("HTTPS://example.org")), Some(c("HTTPS")));
    assert_eq!(scheme_of(&c("mailto:a@b")), Some(c("mailto")));
    assert_eq!(scheme_of(&c("a+b-c.d1:x")), Some(c("a+b-c.d1")));
    assert_eq!(scheme_of(&c("x:")), Some(c("x")));
    assert_eq!(scheme_of(&c(":x")), None);
    assert_eq!(scheme_of(&c("1a:x")), None);
    assert_eq!(scheme_of(&c("+a:x")), None);
    assert_eq!(scheme_of(&c("a b:x")), None);
    assert_eq!(scheme_of(&c("a/b:x")), None);
    assert_eq!(scheme_of(&c("no colon")), None);
    assert_eq!(scheme_of(&c("")), None);
    assert_eq!(scheme_of(&c("a:b:c")), Some(c("a")));
}

#[test]
fn module_names_are_lower_case_slugs() {
    assert!(is_valid_module_name("apify"));
    assert!(is_valid_module_name("rdf-2"));
    assert!(is_valid_module_name("0"));
    assert!(is_valid_module_name("-"));
    assert!(!is_valid_module_name(""));
    assert!(!is_valid_module_name("Apify"));
    assert!(!is_valid_module_name("near.ai"));
    assert!(!is_valid_module_name("a_b"));
    assert!(!is_valid_module_name("a b"));
    assert!(!is_valid_module_name("é"));
}
