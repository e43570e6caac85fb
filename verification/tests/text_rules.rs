use updater::text::{
    ascii_case_folded, char_is_whitespace, chars_of, eq_ignore_ascii_case, normalize_separators,
    parse_list, same_text, starts_with,
};

fn strings(items: &[&str]) -> Vec<String> {
    items.iter().map(|s| s.to_string()).collect()
}

#[test]
fn whitespace_is_the_unicode_set() {
    for c in [' ', '\t', '\n', '\r', '\u{0B}', '\u{0C}', '\u{85}', '\u{A0}', '\u{1680}', '\u{2000}',
        '\u{200A}', '\u{2028}', '\u{2029}', '\u{202F}', '\u{205F}', '\u{3000}']
    {
        assert!(char_is_whitespace(c));
        assert!(c.is_whitespace());
    }
    for c in ['a', '0', ',', '\u{200B}', '\u{08}', '\u{0E}', '\u{1F}', '\u{FEFF}'] {
        assert!(!char_is_whitespace(c));
        assert!(!c.is_whitespace());
    }
}

#[test]
fn whitespace_agrees_with_std_on_every_char() {
    let mut code: u32 = 0;
    while code <= 0x10FFFF {
        if let Some(c) = char::from_u32(code) {
            assert_eq!(char_is_whitespace(c), c.is_whitespace());
        }
        code += 1;
    }
}

#[test]
fn case_folding_touches_ascii_letters_only() {
    assert_eq!(ascii_case_folded('A'), 'a' as u32);
    assert_eq!(ascii_case_folded('Z'), 'z' as u32);
    assert_eq!(ascii_case_folded('a'), 'a' as u32);
    assert_eq!(ascii_case_folded('@'), '@' as u32);
    assert_eq!(ascii_case_folded('['), '[' as u32);
    assert_eq!(ascii_case_folded('É'), 'É' as u32);
}

#[test]
fn chars_are_collected_in_order() {
    assert_eq!(chars_of("añb"), vec!['a', 'ñ', 'b']);
    assert_eq!(chars_of(""), Vec::<char>::new());
}

#[test]
fn names_compare_without_ascii_case() {
    assert!(eq_ignore_ascii_case("MyApp.EXE", "myapp.exe"));
    assert!(eq_ignore_ascii_case("", ""));
    assert!(!eq_ignore_ascii_case("myapp", "myapp.exe"));
    assert!(!eq_ignore_ascii_case("myapp.exe", "myapp"));
    assert!(!eq_ignore_ascii_case("myapp", "myapq"));
    assert!(!eq_ignore_ascii_case("É", "é"));
    assert!(!eq_ignore_ascii_case("@", "`"));
}

#[test]
fn case_insensitive_equality_agrees_with_std() {
    let samples = ["", "a", "A", "ab", "AB", "aB", "abc", "É", "é", "a b", "A B", "[", "{"];
    for a in samples {
        for b in samples {
            assert_eq!(eq_ignore_ascii_case(a, b), a.eq_ignore_ascii_case(b));
            assert_eq!(same_text(a, b), a == b);
        }
    }
}

#[test]
fn prefix_test_is_on_characters() {
    assert!(starts_with("cache/x.tmp", "cache"));
    assert!(starts_with("cachefile", "cache"));
    assert!(starts_with("cache", "cache"));
    assert!(starts_with("cache", ""));
    assert!(!starts_with("cach", "cache"));
    assert!(!starts_with("logs/info.log", "logs/debug"));
    assert!(!starts_with("Cache", "cache"));
}

#[test]
fn list_items_are_trimmed_and_non_empty() {
    assert_eq!(parse_list("a.exe,b.exe"), strings(&["a.exe", "b.exe"]));
    assert_eq!(parse_list("  a.exe , b.exe  "), strings(&["a.exe", "b.exe"]));
    assert_eq!(parse_list("a.exe,, ,b.exe,"), strings(&["a.exe", "b.exe"]));
    assert_eq!(parse_list(",a"), strings(&["a"]));
    assert_eq!(parse_list("my app.exe"), strings(&["my app.exe"]));
    assert_eq!(parse_list("\u{3000}x\u{A0}"), strings(&["x"]));
    assert_eq!(parse_list(""), Vec::<String>::new());
    assert_eq!(parse_list(" , ,"), Vec::<String>::new());
}

#[test]
fn list_parsing_agrees_with_split_trim_filter() {
    let samples = ["", ",", "a", "a,b", " a , b ", ",,a,,", "a b,c\td", "\n x \n,\r y", "é, ü ,"];
    for s in samples {
        let expected: Vec<String> = s
            .split(',')
            .map(|p| p.trim().to_string())
            .filter(|p| !p.is_empty())
            .collect();
        assert_eq!(parse_list(s), expected);
    }
}

#[test]
fn separators_are_unified() {
    assert_eq!(normalize_separators("logs\\debug\\a.log"), "logs/debug/a.log");
    assert_eq!(normalize_separators("logs/debug"), "logs/debug");
    assert_eq!(normalize_separators("\\"), "/");
    assert_eq!(normalize_separators("a\\\\b"), "a//b");
    assert_eq!(normalize_separators(""), "");
    assert_eq!(normalize_separators("dé\\f"), "dé/f");
}
