use git_utils::decimal::{parse_u32, to_decimal};
use git_utils::paths::{join_path, path_below};
use git_utils::text::{
    concat2, concat3, contains, contains_name, first_word_of, is_space, join_ended, last_piece,
    last_word_of, lines_of, same_text, to_chars, trim,
};

fn names(list: &[&str]) -> Vec<String> {
    list.iter().map(|s| s.to_string()).collect()
}

#[test]
fn characters_come_in_order() {
    assert_eq!(to_chars("aé😀"), vec!['a', 'é', '😀']);
    assert_eq!(to_chars(""), Vec::<char>::new());
}

#[test]
fn texts_are_compared_and_joined() {
    assert!(same_text("abc", "abc"));
    assert!(!same_text("abc", "abd"));
    assert!(!same_text("abc", "ab"));
    assert!(same_text("", ""));
    assert!(contains_name(&names(&["a", "b"]), "b"));
    assert!(!contains_name(&names(&["a", "b"]), "c"));
    assert!(!contains_name(&names(&[]), ""));
    assert_eq!(concat2("ab", "cd"), "abcd");
    assert_eq!(concat3("a", "", "c"), "ac");
    assert_eq!(join_ended(&names(&["a", "", "b"]), "\n"), "a\n\nb\n");
    assert_eq!(join_ended(&names(&[]), "\n"), "");
}

#[test]
fn white_space_is_the_unicode_property() {
    for c in [' ', '\t', '\n', '\r', '\u{b}', '\u{c}', '\u{85}', '\u{a0}', '\u{1680}', '\u{2000}', '\u{200a}', '\u{2028}', '\u{2029}', '\u{202f}', '\u{205f}', '\u{3000}'] {
        assert!(is_space(c), "{:?}", c);
    }
    for c in ['a', '\u{8}', '\u{e}', '\u{200b}', '\u{180e}', '\u{feff}', '_'] {
        assert!(!is_space(c), "{:?}", c);
    }
    for n in 0..0x11000u32 {
        if let Some(c) = char::from_u32(n) {
            assert_eq!(is_space(c), c.is_whitespace());
        }
    }
}

#[test]
fn words_are_runs_without_white_space() {
    assert_eq!(first_word_of("  one two  "), Some("one".to_string()));
    assert_eq!(last_word_of("  one two  "), Some("two".to_string()));
    assert_eq!(first_word_of("single"), Some("single".to_string()));
    assert_eq!(last_word_of("single"), Some("single".to_string()));
    assert_eq!(first_word_of(" \n"), None);
    assert_eq!(last_word_of(""), None);
    assert_eq!(trim("  a b \n"), "a b");
    assert_eq!(trim("ab"), "ab");
    assert_eq!(trim(" \t"), "");
    assert_eq!(trim("\u{3000}a\u{a0}b\u{2028}"), "a\u{a0}b");
    assert_eq!(first_word_of("a\u{2003}b"), Some("a".to_string()));
    assert_eq!(last_word_of("a\u{2003}b"), Some("b".to_string()));
}

#[test]
fn lines_end_at_line_feeds() {
    assert_eq!(lines_of("a\nb\r\nc"), names(&["a", "b", "c"]));
    assert_eq!(lines_of("a\n\nb\n"), names(&["a", "", "b"]));
    assert_eq!(lines_of(""), names(&[]));
    assert_eq!(lines_of("\n"), names(&[""]));
    assert_eq!(lines_of("a\r"), names(&["a\r"]));
    assert_eq!(lines_of("a\r\r\n"), names(&["a\r"]));
    for text in ["x\r\ny\n\nz", "\r\n\r\n", "one", "a\rb\n"] {
        let expected: Vec<String> = text.lines().map(|l| l.to_string()).collect();
        assert_eq!(lines_of(text), expected);
    }
}

#[test]
fn search_and_last_piece() {
    assert!(contains("hello world", "o w"));
    assert!(contains("hello", ""));
    assert!(contains("", ""));
    assert!(!contains("hello", "hellos"));
    assert!(!contains("", "a"));
    assert_eq!(last_piece("/bin/bash", '/'), "bash");
    assert_eq!(last_piece("bash", '/'), "bash");
    assert_eq!(last_piece("a/", '/'), "");
    assert_eq!(last_piece("", '/'), "");
}

#[test]
fn numbers_are_written_and_read_in_decimal() {
    assert_eq!(to_decimal(0), "0");
    assert_eq!(to_decimal(7), "7");
    assert_eq!(to_decimal(10), "10");
    assert_eq!(to_decimal(u64::MAX), "18446744073709551615");
    assert_eq!(parse_u32("0"), Some(0));
    assert_eq!(parse_u32("0042"), Some(42));
    assert_eq!(parse_u32("4294967295"), Some(u32::MAX));
    assert_eq!(parse_u32("4294967296"), None);
    assert_eq!(parse_u32("99999999999999999999999"), None);
    assert_eq!(parse_u32(""), None);
    assert_eq!(parse_u32("12a"), None);
    assert_eq!(parse_u32("-1"), None);
    assert_eq!(parse_u32("+1"), None);
    assert_eq!(parse_u32("١٢"), None);
    for n in [0u32, 9, 10, 99, 100, 12345, u32::MAX] {
        assert_eq!(parse_u32(&to_decimal(n as u64)), Some(n));
    }
}

#[test]
fn paths_are_joined_with_one_slash() {
    assert_eq!(join_path("a", "b"), "a/b");
    assert_eq!(join_path("a/", "b"), "a/b");
    assert_eq!(join_path("", "b"), "b");
    assert_eq!(join_path("a", ""), "a/");
    assert_eq!(join_path("a", "/b"), "/b");
    assert_eq!(join_path("/", "b"), "/b");
    for (base, child) in [("a", "b"), ("a/", "b"), ("", "b"), ("a", ""), ("a", "/b"), ("/x/y", "z/w")] {
        let expected = std::path::Path::new(base).join(child);
        assert_eq!(join_path(base, child), expected.to_str().unwrap());
    }
}

#[test]
fn path_below_a_root() {
    assert_eq!(path_below("/root", "/root/d/u/r"), Some("d/u/r".to_string()));
    assert_eq!(path_below("/root/", "/root/d"), Some("d".to_string()));
    assert_eq!(path_below("/root", "/root"), Some("".to_string()));
    assert_eq!(path_below("/root", "/root//d"), Some("d".to_string()));
    assert_eq!(path_below("", "d/u"), Some("d/u".to_string()));
    assert_eq!(path_below("/root", "/rootless/d"), None);
    assert_eq!(path_below("/root", "/other/d"), None);
    assert_eq!(path_below("/root/long", "/root"), None);
    for child in ["d/u/r", "", "x"] {
        assert_eq!(path_below("/r", &join_path("/r", child)), Some(child.to_string()));
    }
}
