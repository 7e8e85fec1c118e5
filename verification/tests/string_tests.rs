use dlogcover::string_utils::{
    contains_substring, ends_with, is_empty, join, repeat, replace, replace_all, split,
    starts_with, to_lower, to_upper, trim, trim_left, trim_right, try_parse_int,
};

#[test]
fn split_drops_empty_pieces() {
    assert_eq!(split("a,b,,c", ","), vec!["a", "b", "c"]);
    assert_eq!(split(",,", ","), Vec::<String>::new());
    assert_eq!(split("abc", ","), vec!["abc"]);
    assert_eq!(split("", ","), Vec::<String>::new());
    assert_eq!(split("x::y::z", "::"), vec!["x", "y", "z"]);
}

#[test]
fn split_with_empty_delimiter_yields_characters() {
    assert_eq!(split("abc", ""), vec!["a", "b", "c"]);
    assert_eq!(split("", ""), Vec::<String>::new());
}

#[test]
fn join_interleaves_delimiter() {
    assert_eq!(join(&vec!["a".to_string(), "b".to_string(), "c".to_string()], ", "), "a, b, c");
    assert_eq!(join(&vec!["solo".to_string()], ","), "solo");
    assert_eq!(join(&vec![], ","), "");
}

#[test]
fn replace_scans_left_to_right() {
    assert_eq!(replace("aaa", "aa", "b"), "ba");
    assert_eq!(replace("hello world", "o", "0"), "hell0 w0rld");
    assert_eq!(replace("none here", "xyz", "q"), "none here");
    // An empty pattern leaves the string unchanged.
    assert_eq!(replace("abc", "", "q"), "abc");
}

#[test]
fn replace_all_applies_pairs_in_order() {
    let pairs = vec![
        ("a".to_string(), "b".to_string()),
        ("bb".to_string(), "c".to_string()),
        ("".to_string(), "ignored".to_string()),
    ];
    // "ab" -> (a->b) "bb" -> (bb->c) "c"; the empty pattern is skipped.
    assert_eq!(replace_all("ab", &pairs), "c");
}

#[test]
fn prefix_suffix_and_containment() {
    assert!(starts_with("qDebugLog", "qDebug"));
    assert!(!starts_with("qDebug", "qDebugLog"));
    assert!(starts_with("anything", ""));
    assert!(ends_with("file.cpp", ".cpp"));
    assert!(!ends_with("cpp", "file.cpp"));
    assert!(contains_substring("hello world", "lo wo"));
    assert!(!contains_substring("hello", "world"));
    assert!(contains_substring("abc", ""));
    assert!(is_empty(""));
    assert!(!is_empty(" "));
}

#[test]
fn case_conversion_changes_case() {
    // Would fail if the conversion handed its argument back unchanged.
    assert_eq!(to_lower("MiXeD123"), "mixed123");
    assert_eq!(to_upper("MiXeD123"), "MIXED123");
    assert_eq!(to_lower(""), "");
    assert_eq!(to_upper(""), "");
}

#[test]
fn trimming_removes_whitespace() {
    // Would fail if the whitespace test answered a constant.
    assert_eq!(trim("  \t x y \n "), "x y");
    assert_eq!(trim_left("  abc "), "abc ");
    assert_eq!(trim_right("  abc "), "  abc");
    assert_eq!(trim("no_ws"), "no_ws");
    assert_eq!(trim(" \t\n"), "");
}

#[test]
fn repeat_concatenates_copies() {
    assert_eq!(repeat("ab", 3), "ababab");
    assert_eq!(repeat("x", 0), "");
    assert_eq!(repeat("", 5), "");
}

#[test]
fn parse_int_accepts_trimmed_signed_decimals() {
    assert_eq!(try_parse_int("42"), Some(42));
    assert_eq!(try_parse_int("  -17 "), Some(-17));
    assert_eq!(try_parse_int("+7"), Some(7));
    assert_eq!(try_parse_int("2147483647"), Some(i32::MAX));
    assert_eq!(try_parse_int("-2147483648"), Some(i32::MIN));
    assert_eq!(try_parse_int("0"), Some(0));
}

#[test]
fn parse_int_rejects_malformed_and_overflowing_input() {
    assert_eq!(try_parse_int(""), None);
    assert_eq!(try_parse_int("  "), None);
    assert_eq!(try_parse_int("abc"), None);
    assert_eq!(try_parse_int("12x"), None);
    assert_eq!(try_parse_int("-"), None);
    assert_eq!(try_parse_int("+"), None);
    assert_eq!(try_parse_int("2147483648"), None);
    assert_eq!(try_parse_int("-2147483649"), None);
    assert_eq!(try_parse_int("99999999999999999999999"), None);
    assert_eq!(try_parse_int("1 2"), None);
}
