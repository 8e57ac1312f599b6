use agent_core::json::Json;
use agent_core::order::sort;
use agent_core::paths::{extension, file_name, join_path, parent_dir};
use agent_core::text::{
    clip, decimal_of, decimal_padded, ends_with, hex_of, less, lines, lower, parse_u32,
    replace_all, split_on, split_once, strip_prefix, trimmed, trimmed_set,
};
use agent_core::time::{civil_from_days, rfc3339_from_unix, second_of, write_date};

#[test]
fn texts_are_split_like_std_does() {
    for text in ["", "a", "a\nb", "a\r\nb\r\n", "\n\n", "a\rb\n", "x\n"] {
        let expected: Vec<String> = text.lines().map(|s| s.to_string()).collect();
        assert_eq!(lines(text), expected, "{text:?}");
    }
    for text in ["", ",", "a,b", ",a,", "abc"] {
        let expected: Vec<String> = text.split(',').map(|s| s.to_string()).collect();
        assert_eq!(split_on(text, ','), expected, "{text:?}");
    }
    assert_eq!(split_once("a::b::c", "::"), Some(("a".into(), "b::c".into())));
    assert_eq!(split_once("abc", "::"), None);
}

#[test]
fn texts_are_trimmed_and_replaced_like_std_does() {
    for text in ["", " \t", "\u{a0}a\u{3000}", "a b", " é "] {
        assert_eq!(trimmed(text), text.trim(), "{text:?}");
    }
    assert_eq!(trimmed_set("[[a]]'", "[]'"), "a");
    for (text, pat, by) in [("aaa", "aa", "b"), ("abab", "ab", ""), ("xyz", "q", "r")] {
        assert_eq!(replace_all(text, pat, by), text.replace(pat, by));
    }
    assert_eq!(lower("ÄBC"), "Äbc");
    assert_eq!(strip_prefix("tags: x", "tags:").as_deref(), Some(" x"));
    assert!(ends_with("a.json", ".json"));
    assert_eq!(clip("abcdef", 3), "abc…");
}

#[test]
fn texts_are_ordered_like_std_does() {
    let texts = ["", "a", "ab", "b", "é", "z", "\u{10000}", "\u{ffff}"];
    for a in texts {
        for b in texts {
            assert_eq!(less(a, b), a < b, "{a:?} {b:?}");
        }
    }
}

#[test]
fn numbers_are_written_and_read() {
    assert_eq!(decimal_of(0), "0");
    assert_eq!(decimal_of(u64::MAX), "18446744073709551615");
    assert_eq!(decimal_padded(7, 3), "007");
    assert_eq!(decimal_padded(1234, 3), "1234");
    assert_eq!(hex_of(0), "0");
    assert_eq!(hex_of(u128::MAX), "f".repeat(32));
    for text in ["", "0", "+7", "-0", "4294967295", "4294967296", "007", "1a", " 1"] {
        assert_eq!(parse_u32(text), text.parse::<u32>().ok(), "{text:?}");
    }
}

#[test]
fn sorting_is_stable_and_complete() {
    let texts: Vec<String> = ["b", "a", "c", "a"].iter().map(|s| s.to_string()).collect();
    assert_eq!(sort(texts), vec!["a", "a", "b", "c"]);
}

#[test]
fn paths_are_taken_apart_like_std_does() {
    for path in [
        "", "/", ".", "..", "a", "a/", "/a", "a/b", "a//b", "a/./b", "a/b/.", "./a", "/usr/bin/python3",
        "a.txt", ".hidden", "a.tar.gz", "dir.d/file", "x.", "a/..", "//a", "/.", "./", "a/b.c/",
    ] {
        let std_path = std::path::Path::new(path);
        let text = |p: &std::path::Path| p.to_string_lossy().into_owned();
        assert_eq!(parent_dir(path), std_path.parent().map(text), "parent of {path:?}");
        assert_eq!(
            file_name(path),
            std_path.file_name().map(|n| n.to_string_lossy().into_owned()),
            "name of {path:?}"
        );
        assert_eq!(
            extension(path),
            std_path.extension().map(|n| n.to_string_lossy().into_owned()),
            "extension of {path:?}"
        );
    }
    assert_eq!(join_path("a", "b"), "a/b");
    assert_eq!(join_path("a/", "b"), "a/b");
    assert_eq!(join_path("", "b"), "b");
}

#[test]
fn dates_follow_the_calendar() {
    assert_eq!(write_date(civil_from_days(0)), "1970-01-01");
    assert_eq!(write_date(civil_from_days(59)), "1970-03-01");
    assert_eq!(write_date(civil_from_days(11_016)), "2000-02-29");
    assert_eq!(write_date(civil_from_days(47_541)), "2100-03-01");
    let mut last = rfc3339_from_unix(0);
    for day in 1..800u64 {
        let next = rfc3339_from_unix(day * 86_400 * 31 + day);
        assert!(last < next, "{last} {next}");
        last = next;
    }
}

#[test]
fn json_values_are_read_and_written() {
    let text = r#"{"b":[1,-2,0.5,true,null],"a":"é\n"}"#;
    let value = Json::parse(text).unwrap();
    assert_eq!(value.to_text(), text);
    assert_eq!(value, Json::parse(r#"{"a":"é\n","b":[1,-2,0.5,true,null]}"#).unwrap());
    assert_ne!(value, Json::parse(r#"{"a":"é\n","b":[1,-2,0.5,true]}"#).unwrap());
    assert_ne!(value, Json::parse(r#"{"a":"é\n","c":[1,-2,0.5,true,null]}"#).unwrap());
    assert_eq!(value.get("a"), Some(&Json::of_str("é\n")));
    assert_eq!(value.get("c"), None);
    assert_eq!(Json::parse(&value.to_pretty_text()).unwrap(), value);
    assert!(Json::parse("{").is_err());
    let deep = format!("{}{}", "[".repeat(127), "]".repeat(127));
    assert!(Json::parse(&deep).is_ok());
    let deeper = format!("{}{}", "[".repeat(128), "]".repeat(128));
    assert!(Json::parse(&deeper).is_err());
    let toml = Json::parse_toml("x = 1\n[t]\ny = \"z\"\n").unwrap();
    assert_eq!(toml.to_text(), r#"{"t":{"y":"z"},"x":1}"#);
    assert!(Json::parse_toml("x =").is_err());
}

#[test]
fn values_that_read_back_are_told_apart() {
    let readable = |text: &str| Json::parse(text).unwrap().is_readable();
    assert!(readable(r#"{"a": [1, -2, 18446744073709551615, "x", null]}"#));
    assert!(!readable(r#"{"a": [1, 0.5]}"#));
    assert!(!readable("1e3"));
    assert!(Json::parse("[[1]]").unwrap().is_nested_within(2));
    assert!(!Json::parse("[[1]]").unwrap().is_nested_within(1));
    assert!(Json::parse("1").unwrap().is_nested_within(0));
    let deep = (0..128).fold(Json::Null, |inner, _| Json::Array(vec![inner]));
    assert!(!deep.is_readable());
}

#[test]
fn a_clock_before_the_epoch_counts_as_at_it() {
    assert_eq!(second_of(Some(7)), 7);
    assert_eq!(second_of(None), 0);
}
