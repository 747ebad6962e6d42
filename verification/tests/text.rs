use doorman::text::{
    chars_of, find_first, find_last, format_integer, has_prefix, join_path, join_text, lines,
    parse_i8, same_text, split, split_once, text_before, trim_text,
};

fn strings(items: &[&str]) -> Vec<String> {
    items.iter().map(|s| s.to_string()).collect()
}

#[test]
fn formats_integers_in_decimal() {
    assert_eq!(format_integer(0), "0");
    assert_eq!(format_integer(7), "7");
    assert_eq!(format_integer(10), "10");
    assert_eq!(format_integer(-128), "-128");
    assert_eq!(format_integer(4294967295), "4294967295");
    assert_eq!(format_integer(i64::MAX), "9223372036854775807");
    assert_eq!(format_integer(i64::MIN), "-9223372036854775808");
}

#[test]
fn parses_small_numbers() {
    assert_eq!(parse_i8("2"), Some(2));
    assert_eq!(parse_i8("+127"), Some(127));
    assert_eq!(parse_i8("-128"), Some(-128));
    assert_eq!(parse_i8("-0"), Some(0));
    assert_eq!(parse_i8("0007"), Some(7));
    assert_eq!(parse_i8("128"), None);
    assert_eq!(parse_i8("-129"), None);
    assert_eq!(parse_i8("99999999999999999999"), None);
    assert_eq!(parse_i8(""), None);
    assert_eq!(parse_i8("-"), None);
    assert_eq!(parse_i8("+"), None);
    assert_eq!(parse_i8("1a"), None);
    assert_eq!(parse_i8(" 1"), None);
    assert_eq!(parse_i8("--1"), None);
}

#[test]
fn parsing_agrees_with_the_standard_library() {
    for text in ["0", "5", "-5", "+5", "127", "128", "-128", "-129", "", "x", "1 ", "١"] {
        assert_eq!(parse_i8(text), text.parse::<i8>().ok(), "{:?}", text);
    }
}

#[test]
fn every_node_number_reads_back() {
    for node in i8::MIN..=i8::MAX {
        assert_eq!(parse_i8(&format_integer(node as i64)), Some(node));
    }
}

#[test]
fn characters_and_text_convert_both_ways() {
    assert_eq!(chars_of("héllo"), vec!['h', 'é', 'l', 'l', 'o']);
    assert_eq!(chars_of(""), Vec::<char>::new());
    assert_eq!(join_text("door", ".lock"), "door.lock");
    assert!(same_text("a", "a"));
    assert!(!same_text("a", "A"));
}

#[test]
fn splits_once_at_the_first_separator() {
    assert_eq!(split_once("key=value", '='), ("key".to_string(), "value".to_string()));
    assert_eq!(split_once("key=a=b", '='), ("key".to_string(), "a=b".to_string()));
    assert_eq!(split_once("key", '='), ("key".to_string(), "".to_string()));
    assert_eq!(split_once("key=", '='), ("key".to_string(), "".to_string()));
    assert_eq!(split_once("=value", '='), ("".to_string(), "value".to_string()));
    assert_eq!(split_once("", '='), ("".to_string(), "".to_string()));
}

#[test]
fn splits_at_every_separator() {
    assert_eq!(split("a,b,c", ','), strings(&["a", "b", "c"]));
    assert_eq!(split("a", ','), strings(&["a"]));
    assert_eq!(split("", ','), strings(&[""]));
    assert_eq!(split("a,", ','), strings(&["a", ""]));
    assert_eq!(split(",a", ','), strings(&["", "a"]));
    assert_eq!(split(",,", ','), strings(&["", "", ""]));
}

#[test]
fn splitting_agrees_with_the_standard_library() {
    for text in ["", "a", "a,b", ",", "a,,b", "a=b,c=d,"] {
        let expected: Vec<String> = text.split(',').map(|s| s.to_string()).collect();
        assert_eq!(split(text, ','), expected, "{:?}", text);
    }
}

#[test]
fn lines_end_at_line_feeds() {
    assert_eq!(lines("a\nb\n"), strings(&["a", "b"]));
    assert_eq!(lines("a\nb"), strings(&["a", "b"]));
    assert_eq!(lines("a\r\nb\r\n"), strings(&["a", "b"]));
    assert_eq!(lines(""), Vec::<String>::new());
    assert_eq!(lines("\n"), strings(&[""]));
    assert_eq!(lines("\n\n"), strings(&["", ""]));
    assert_eq!(lines("a\r"), strings(&["a\r"]));
    assert_eq!(lines("a\rb\n"), strings(&["a\rb"]));
    assert_eq!(lines("\r\n"), strings(&[""]));
}

#[test]
fn lines_agree_with_the_standard_library() {
    for text in ["", "a", "a\n", "a\r\n", "a\r", "\n", "\r\n\r\n", "a\n\nb", "a\r\r\nb\r"] {
        let expected: Vec<String> = text.lines().map(|s| s.to_string()).collect();
        assert_eq!(lines(text), expected, "{:?}", text);
    }
}

#[test]
fn finds_prefixes() {
    assert!(has_prefix("PODMAN VERSION 4", "PODMAN "));
    assert!(!has_prefix("PODMAN", "PODMAN "));
    assert!(!has_prefix("XPODMAN ", "PODMAN "));
    assert!(has_prefix("anything", ""));
    assert!(has_prefix("", ""));
    assert!(!has_prefix("", "a"));
}

#[test]
fn joins_paths_as_the_standard_library_does() {
    assert_eq!(join_path("/run/doorman", "lord.lock"), "/run/doorman/lord.lock");
    assert_eq!(join_path("/run/doorman/", "lord.lock"), "/run/doorman/lord.lock");
    assert_eq!(join_path("", "lord.lock"), "lord.lock");
    assert_eq!(join_path("/run", "/etc/passwd"), "/etc/passwd");
    assert_eq!(join_path("/run", ""), "/run/");
    assert_eq!(join_path("/", "x"), "/x");
    for (base, name) in [("/a", "b"), ("/a/", "b"), ("", "b"), ("/a", "/b"), ("/a", ""), ("a", "b/c")] {
        let expected = std::path::Path::new(base).join(name);
        assert_eq!(join_path(base, name), expected.to_str().unwrap(), "{:?} {:?}", base, name);
    }
}

#[test]
fn orders_text_as_rust_orders_strings() {
    let samples = ["", "A", "B", "a", "ab", "abc", "b", "é", "z", "lord", "lord2", "LORD", "\u{10000}", "\u{ffff}"];
    for a in samples {
        for b in samples {
            assert_eq!(text_before(a, b), a <= b, "{:?} {:?}", a, b);
        }
    }
}

#[test]
fn looks_up_first_and_last_values() {
    let entries = vec![
        ("a".to_string(), "1".to_string()),
        ("b".to_string(), "2".to_string()),
        ("a".to_string(), "3".to_string()),
    ];
    assert_eq!(find_first(&entries, "a"), Some(&"1".to_string()));
    assert_eq!(find_last(&entries, "a"), Some(&"3".to_string()));
    assert_eq!(find_first(&entries, "b"), Some(&"2".to_string()));
    assert_eq!(find_last(&entries, "b"), Some(&"2".to_string()));
    assert_eq!(find_first(&entries, "c"), None);
    assert_eq!(find_last(&entries, "c"), None);
}

#[test]
fn trims_white_space_at_both_ends() {
    assert_eq!(trim_text("  0123abc\n"), "0123abc");
    assert_eq!(trim_text("a b"), "a b");
    assert_eq!(trim_text(""), "");
    assert_eq!(trim_text(" \t\r\n"), "");
    assert_eq!(trim_text("\u{a0}x\u{2003}"), "x");
    assert_eq!(trim_text("x"), "x");
}

#[test]
fn trimming_agrees_with_the_standard_library() {
    for text in ["", " ", "a", " a", "a ", " a b ", "\n\ta\r\n", "\u{3000}a\u{85}", "\u{200b}a", "_ _"] {
        assert_eq!(trim_text(text), text.trim(), "{:?}", text);
    }
}
