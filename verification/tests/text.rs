use driver::order;
use driver::paths;
use driver::text;

#[test]
fn white_space_is_what_unicode_says() {
    for n in 0..=0x10FFFFu32 {
        if let Some(c) = char::from_u32(n) {
            assert_eq!(text::is_white_space(c), c.is_whitespace(), "{:x}", n);
        }
    }
}

#[test]
fn trimming_agrees_with_std() {
    for s in ["", "  ", " a b ", "\u{3000}x\u{2003}\n", "\u{200b}y\u{200b}", "\tz"] {
        assert_eq!(text::trim(s), s.trim());
    }
}

#[test]
fn lines_agree_with_std() {
    for s in ["", "\n", "a", "a\n", "a\nb", "a\r\nb\r\n", "a\r", "a\r\r\nb", "\n\nx\n\n", "é\nü"] {
        let expected: Vec<String> = s.lines().map(String::from).collect();
        assert_eq!(text::lines(s), expected, "{:?}", s);
    }
}

#[test]
fn replacing_agrees_with_std() {
    for (s, find, rep) in [
        ("", "a", "b"),
        ("aaaa", "aa", "a"),
        ("aaa", "aa", "b"),
        ("xyx", "x", ""),
        ("grün", "ü", "ue"),
        ("abc", "abcd", "z"),
    ] {
        assert_eq!(text::replace(s, find, rep), s.replace(find, rep));
    }
}

#[test]
fn finding_agrees_with_std() {
    for (s, p) in [("hello", "ell"), ("hello", ""), ("hello", "hello!"), ("äöü", "öü"), ("", "x")] {
        assert_eq!(text::contains(s, p), s.contains(p));
        assert_eq!(text::starts_with(s, p), s.starts_with(p));
        assert_eq!(text::strip_prefix(s, p), s.strip_prefix(p).map(String::from));
    }
}

#[test]
fn numbers_are_written_in_decimal() {
    assert_eq!(text::number(0), "0");
    assert_eq!(text::number(10), "10");
    assert_eq!(text::number(u64::MAX), "18446744073709551615");
    assert_eq!(text::signed_number(-1), "-1");
    assert_eq!(text::signed_number(i64::MIN), "-9223372036854775808");
    assert_eq!(text::signed_number(i64::MAX), "9223372036854775807");
    assert_eq!(text::aligned_number(7, 5), "    7");
    assert_eq!(text::aligned_number(123456, 5), "123456");
}

#[test]
fn numbers_are_read_as_std_reads_them() {
    for s in [
        "",
        "+",
        "-1",
        "0",
        "007",
        "+12",
        "++1",
        "1 ",
        "18446744073709551615",
        "18446744073709551616",
        "99999999999999999999999999",
        "１",
    ] {
        assert_eq!(text::parse_usize(s), s.parse::<usize>().ok(), "{:?}", s);
    }
}

#[test]
fn decimal_is_read_back() {
    for n in [0u64, 9, 10, 99, 4096, 18446744073709551615] {
        assert_eq!(text::parse_usize(&text::number(n)), Some(n as usize));
    }
}

#[test]
fn texts_are_joined() {
    let none: Vec<String> = Vec::new();
    assert_eq!(text::join(&none, ", "), "");
    assert_eq!(text::join(&vec!["a".to_string()], ", "), "a");
    assert_eq!(text::join(&vec!["a".to_string(), "".to_string(), "c".to_string()], ", "), "a, , c");
}

#[test]
fn texts_are_cut_at_bytes() {
    assert_eq!(text::clip("abcdef", 3, "..."), "abc...");
    assert_eq!(text::clip("abc", 3, "..."), "abc");
    assert_eq!(text::clip("aé", 3, "..."), "aé");
    assert_eq!(text::clip("éa", 2, "!"), "é!");
    assert!(!text::is_cuttable("aéb", 2));
    assert!(text::is_cuttable("aéb", 3));
    assert!(text::is_cuttable("é", 5));
    assert_eq!(text::bytes("é€"), 5);
}

#[test]
fn paths_are_joined() {
    for (a, b) in [("/opt/state", "runs"), ("/opt/state/", "runs"), ("", "runs"), ("a", "/b"), ("a", "")] {
        assert_eq!(paths::join(a, b), std::path::Path::new(a).join(b).to_str().unwrap());
    }
    assert_eq!(paths::json_path("/x", "id"), "/x/id.json");
}

#[test]
fn sorting_agrees_with_std() {
    let names: Vec<String> = ["b", "a", "", "ab", "B", "ä", "a", "\u{10000}", "\u{ffff}", "zz"]
        .iter()
        .map(|s| s.to_string())
        .collect();
    let mut expected = names.clone();
    expected.sort();
    assert_eq!(order::sort(names), expected);
    assert!(order::comes_first("a", "a"));
    assert!(order::comes_first("a", "ab"));
    assert!(!order::comes_first("b", "ab"));
}

#[test]
fn texts_are_cut_at_characters() {
    assert_eq!(text::cut_to("aéb", 2, "!"), "a!");
    assert_eq!(text::cut_to("aéb", 3, "!"), "aé!");
    assert_eq!(text::cut_to("aéb", 4, "!"), "aéb");
    assert_eq!(text::cut_to("é", 1, "!"), "!");
    assert_eq!(text::cut_to("", 0, "!"), "");
}
