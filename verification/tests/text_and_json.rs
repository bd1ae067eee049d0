use osskins::json::{Json, JsonNumber};
use osskins::sorting::{lex_le_exec, sort_strings, sort_strings_views, sort_u32, sorted_distinct, sorted_distinct_u32};
use osskins::text::{i64_to_string, join, parse_u32, str_eq, u64_to_string};

fn obj(members: Vec<(&str, Json)>) -> Json {
    Json::Object(members.into_iter().map(|(k, v)| (k.to_string(), v)).collect())
}

#[test]
fn decimal_notation() {
    assert_eq!(u64_to_string(0), "0");
    assert_eq!(u64_to_string(1234567890), "1234567890");
    assert_eq!(u64_to_string(u64::MAX), "18446744073709551615");
    assert_eq!(i64_to_string(-42), "-42");
    assert_eq!(i64_to_string(i64::MIN), "-9223372036854775808");
}

#[test]
fn joining_and_comparing() {
    assert_eq!(join(&vec!["a".to_string(), "b".to_string(), "c".to_string()], ", "), "a, b, c");
    assert_eq!(join(&vec![], "|"), "");
    assert!(str_eq("abc", "abc"));
    assert!(!str_eq("abc", "abd"));
}

#[test]
fn parsing_u32_like_str_parse() {
    assert_eq!(parse_u32("103"), Some(103));
    assert_eq!(parse_u32("+7"), Some(7));
    assert_eq!(parse_u32("4294967295"), Some(u32::MAX));
    assert_eq!(parse_u32("4294967296"), None);
    assert_eq!(parse_u32(""), None);
    assert_eq!(parse_u32("+"), None);
    assert_eq!(parse_u32("-1"), None);
    assert_eq!(parse_u32("1a"), None);
}

#[test]
fn json_member_lookup_takes_first() {
    let j = obj(vec![
        ("a", Json::Number(JsonNumber::PosInt(1))),
        ("a", Json::Number(JsonNumber::PosInt(2))),
        ("b", Json::Str("x".to_string())),
        ("n", Json::Number(JsonNumber::NegInt(-5))),
        ("big", Json::Number(JsonNumber::PosInt(u64::MAX))),
        ("flag", Json::Bool(true)),
    ]);
    assert_eq!(j.get_i64("a"), Some(1));
    assert_eq!(j.get_str("b"), Some("x"));
    assert_eq!(j.get_i64("n"), Some(-5));
    assert_eq!(j.get_u64("n"), None);
    assert_eq!(j.get_i64("big"), None);
    assert_eq!(j.get_u64("big"), Some(u64::MAX));
    assert_eq!(j.get_bool("flag"), Some(true));
    assert_eq!(j.get_i64_or_zero("missing"), 0);
    assert!(!j.get_bool_or_false("b"));
    assert!(j.str_member_is("b", "x"));
    assert!(!j.str_member_is("a", "1"));
    assert_eq!(Json::Null.get("a"), None);
    assert_eq!(Json::Number(JsonNumber::Float).as_i64(), None);
}

#[test]
fn lexicographic_order_and_sorting() {
    assert!(lex_le_exec("abc", "abd"));
    assert!(lex_le_exec("ab", "abc"));
    assert!(!lex_le_exec("b", "abc"));
    assert!(lex_le_exec("", ""));
    let v = vec!["pear".to_string(), "apple".to_string(), "fig".to_string(), "apple".to_string()];
    assert_eq!(sort_strings(v.clone()), vec!["apple", "apple", "fig", "pear"]);
    assert_eq!(sort_strings_views(v), vec!["apple", "apple", "fig", "pear"]);
}

#[test]
fn sorting_numbers() {
    assert_eq!(sort_u32(&vec![3, 1, 2, 1]), vec![1, 1, 2, 3]);
    assert_eq!(sorted_distinct(&vec![3, 1, 2, 1, 3]), vec![1, 2, 3]);
    assert_eq!(sorted_distinct_u32(&vec![9, 9, 4]), vec![4, 9]);
    assert_eq!(sorted_distinct(&vec![]), Vec::<u32>::new());
}
