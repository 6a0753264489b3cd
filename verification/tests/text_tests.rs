use vgrep::paths::{is_absolute, join_path, name_extension, path_extension};
use vgrep::text::{
    decimal_string, eq_ignore_ascii_case, parse_unsigned, trim, trim_start_matches,
};

#[test]
fn decimal_numbers() {
    assert_eq!(decimal_string(0), "0");
    assert_eq!(decimal_string(7777), "7777");
    assert_eq!(decimal_string(u64::MAX), "18446744073709551615");
    for n in [0u64, 9, 10, 65535, 123456789] {
        assert_eq!(parse_unsigned(&decimal_string(n), u64::MAX), Some(n));
    }
    assert_eq!(parse_unsigned("+42", 100), Some(42));
    assert_eq!(parse_unsigned("101", 100), None);
    assert_eq!(parse_unsigned("-1", 100), None);
    assert_eq!(parse_unsigned("", 100), None);
}

#[test]
fn text_helpers() {
    assert_eq!(trim("  a b \n"), "a b");
    assert_eq!(trim("\u{3000}x\u{a0}"), "x");
    assert_eq!(trim_start_matches("http://http://x", "http://"), "x");
    assert_eq!(trim_start_matches("abc", ""), "abc");
    assert!(eq_ignore_ascii_case("ToMl", "toml"));
    assert!(!eq_ignore_ascii_case("tom", "toml"));
    assert!(!eq_ignore_ascii_case("É", "é"));
}

#[test]
fn path_helpers() {
    assert!(is_absolute("/a"));
    assert!(!is_absolute("a/b"));
    assert_eq!(join_path("/home", "x"), "/home/x");
    assert_eq!(join_path("/home/", "x"), "/home/x");
    assert_eq!(join_path("", "x"), "x");
    assert_eq!(join_path("/home", "/etc"), "/etc");
    assert_eq!(path_extension("src/main.rs"), Some("rs".to_string()));
    assert_eq!(path_extension("src/main"), None);
    assert_eq!(path_extension(".bashrc"), None);
    assert_eq!(path_extension("a/b.tar.gz"), Some("gz".to_string()));
    assert_eq!(path_extension("a/b."), Some("".to_string()));
    assert_eq!(path_extension("a/.."), None);
    assert_eq!(path_extension("dir/x.txt/"), Some("txt".to_string()));
    assert_eq!(name_extension(".."), None);
}
