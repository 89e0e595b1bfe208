use page_server::text::{
    chars_of, decimal_string, has_prefix, join_with, same_text, split_whitespace, whitespace,
};

fn strings(items: &[&str]) -> Vec<String> {
    items.iter().map(|item| item.to_string()).collect()
}

#[test]
fn chars_of_keeps_every_character() {
    assert_eq!(chars_of("a/ü€"), vec!['a', '/', 'ü', '€']);
    assert_eq!(chars_of(""), Vec::<char>::new());
}

#[test]
fn same_text_compares_characters() {
    assert!(same_text("GET", "GET"));
    assert!(same_text("", ""));
    assert!(!same_text("GET", "get"));
    assert!(!same_text("GET", "GE"));
    assert!(!same_text("GE", "GET"));
    assert!(!same_text("GET", "GEX"));
}

#[test]
fn has_prefix_matches_std() {
    let cases = [
        ("/home/x", "/home"),
        ("/home/x", "/home/x"),
        ("/home/x", "/home/x/"),
        ("/home/x", ""),
        ("", ""),
        ("", "/"),
        ("/homer", "/home"),
        ("/hom", "/home"),
        ("/etc", "/home"),
        ("ünïcode", "ün"),
    ];
    for (text, prefix) in cases {
        assert_eq!(has_prefix(text, prefix), text.starts_with(prefix), "{text:?} {prefix:?}");
    }
}

#[test]
fn join_with_places_the_separator_between_pieces() {
    assert_eq!(join_with(&strings(&[]), ", "), "");
    assert_eq!(join_with(&strings(&["a"]), ", "), "a");
    assert_eq!(join_with(&strings(&["a", "b", "c"]), ", "), "a, b, c");
    assert_eq!(join_with(&strings(&["", "", ""]), "-"), "--");
    assert_eq!(join_with(&strings(&["x", "y"]), ""), "xy");
}

#[test]
fn decimal_string_writes_exact_numerals() {
    assert_eq!(decimal_string(0), "0");
    assert_eq!(decimal_string(7), "7");
    assert_eq!(decimal_string(9), "9");
    assert_eq!(decimal_string(10), "10");
    assert_eq!(decimal_string(99), "99");
    assert_eq!(decimal_string(100), "100");
    assert_eq!(decimal_string(1234567890), "1234567890");
    assert_eq!(decimal_string(usize::MAX), format!("{}", usize::MAX));
}

#[test]
fn decimal_string_matches_formatting_on_a_range() {
    for n in 0..5000usize {
        assert_eq!(decimal_string(n), format!("{n}"));
    }
}

#[test]
fn whitespace_is_the_unicode_property() {
    let mut code: u32 = 0;
    while code <= 0x10FFFF {
        if let Some(c) = char::from_u32(code) {
            assert_eq!(whitespace(c), c.is_whitespace(), "U+{code:04X}");
        }
        code += 1;
    }
}

#[test]
fn split_whitespace_gives_the_tokens_of_a_request_line() {
    assert_eq!(split_whitespace("GET / HTTP/1.1"), strings(&["GET", "/", "HTTP/1.1"]));
    assert_eq!(split_whitespace("GET"), strings(&["GET"]));
    assert_eq!(split_whitespace(""), strings(&[]));
    assert_eq!(split_whitespace("   \t "), strings(&[]));
}

#[test]
fn split_whitespace_skips_runs_of_whitespace() {
    assert_eq!(split_whitespace("  GET \t /fs/home  \r"), strings(&["GET", "/fs/home"]));
    assert_eq!(split_whitespace("a\u{3000}b\u{00A0}c"), strings(&["a", "b", "c"]));
    assert_eq!(split_whitespace("x"), strings(&["x"]));
    assert_eq!(split_whitespace(" x"), strings(&["x"]));
    assert_eq!(split_whitespace("x "), strings(&["x"]));
}

#[test]
fn split_whitespace_matches_std() {
    let lines = [
        "GET /fs/home/x HTTP/1.1",
        "POST / HTTP/1.1",
        "\tGET\t/\t",
        "one",
        "ünï cödé  ☃",
        " \u{2028}a\u{2029} b\u{205F}c ",
        "a\u{200B}b c",
    ];
    for line in lines {
        let expected: Vec<String> = line.split_whitespace().map(|word| word.to_string()).collect();
        assert_eq!(split_whitespace(line), expected, "{line:?}");
    }
}
