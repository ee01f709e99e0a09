use http_cli::handlers::{normalize_json, pretty_sorted};
use http_cli::json::{
    bytes_not_greater, key_not_greater, sort_members, sorted_object, JsonMember,
};
use serde_json::Value;

fn member(key: &str, value: i64) -> JsonMember {
    JsonMember { key: key.to_string(), value: Value::from(value) }
}

fn keys(members: &[JsonMember]) -> Vec<&str> {
    members.iter().map(|m| m.key.as_str()).collect()
}

#[test]
fn object_is_printed_with_sorted_keys() {
    assert_eq!(
        pretty_sorted("{\"b\":1,\"a\":2}"),
        Some("{\n  \"a\": 2,\n  \"b\": 1\n}".to_string())
    );
}

#[test]
fn array_and_scalars_are_not_objects() {
    assert_eq!(pretty_sorted("[3,1,2]"), None);
    assert_eq!(pretty_sorted("\"text\""), None);
    assert_eq!(pretty_sorted("42"), None);
    assert_eq!(pretty_sorted("true"), None);
    assert_eq!(pretty_sorted("null"), None);
}

#[test]
fn text_that_is_no_json_has_no_pretty_form() {
    assert_eq!(pretty_sorted("hello"), None);
    assert_eq!(pretty_sorted(""), None);
    assert_eq!(pretty_sorted("{\"a\":1"), None);
    assert_eq!(pretty_sorted("{\"a\":1} trailing"), None);
}

#[test]
fn empty_object() {
    assert_eq!(pretty_sorted("{}"), Some("{}".to_string()));
}

#[test]
fn nested_keys_keep_their_order() {
    assert_eq!(
        pretty_sorted("{\"b\":{\"z\":1,\"a\":2},\"a\":[{\"y\":0,\"x\":0}]}"),
        Some(
            "{\n  \"a\": [\n    {\n      \"y\": 0,\n      \"x\": 0\n    }\n  ],\n  \"b\": {\n    \"z\": 1,\n    \"a\": 2\n  }\n}"
                .to_string()
        )
    );
}

#[test]
fn keys_are_ordered_by_bytes() {
    assert_eq!(
        pretty_sorted("{\"b\":0,\"B\":0,\"a\":0,\"10\":0,\"9\":0,\"\":0,\"ab\":0,\"\u{e9}\":0}"),
        Some(
            "{\n  \"\": 0,\n  \"10\": 0,\n  \"9\": 0,\n  \"B\": 0,\n  \"a\": 0,\n  \"ab\": 0,\n  \"b\": 0,\n  \"\u{e9}\": 0\n}"
                .to_string()
        )
    );
}

#[test]
fn sort_members_orders_and_keeps_every_member() {
    let sorted = sort_members(vec![member("z", 1), member("a", 2), member("m", 3), member("b", 4)]);
    assert_eq!(keys(&sorted), vec!["a", "b", "m", "z"]);
    let values: Vec<i64> = sorted.iter().map(|m| m.value.as_i64().unwrap()).collect();
    assert_eq!(values, vec![2, 4, 3, 1]);
}

#[test]
fn sort_members_keeps_the_order_of_equal_keys() {
    let sorted = sort_members(vec![member("k", 1), member("a", 2), member("k", 3), member("k", 4)]);
    assert_eq!(keys(&sorted), vec!["a", "k", "k", "k"]);
    let values: Vec<i64> = sorted.iter().map(|m| m.value.as_i64().unwrap()).collect();
    assert_eq!(values, vec![2, 1, 3, 4]);
}

#[test]
fn sort_members_on_nothing_and_on_sorted_input() {
    assert!(sort_members(Vec::new()).is_empty());
    let sorted = sort_members(vec![member("a", 1), member("b", 2)]);
    assert_eq!(keys(&sorted), vec!["a", "b"]);
}

#[test]
fn byte_order() {
    assert!(bytes_not_greater(b"", b""));
    assert!(bytes_not_greater(b"", b"a"));
    assert!(!bytes_not_greater(b"a", b""));
    assert!(bytes_not_greater(b"a", b"a"));
    assert!(bytes_not_greater(b"a", b"ab"));
    assert!(!bytes_not_greater(b"ab", b"a"));
    assert!(bytes_not_greater(b"ab", b"b"));
    assert!(!bytes_not_greater(b"b", b"ab"));
    assert!(bytes_not_greater(&[0x7f], &[0x80]));
    assert!(!bytes_not_greater(&[0xff], &[0x00, 0x01]));
}

#[test]
fn key_order_is_that_of_strings() {
    let samples = ["", "a", "A", "ab", "b", "10", "9", "\u{e9}", "z", "\u{1f600}", "~"];
    for x in samples {
        for y in samples {
            assert_eq!(key_not_greater(x, y), x <= y, "{:?} {:?}", x, y);
        }
    }
}

#[test]
fn normalize_json_writes_compact_text() {
    assert_eq!(normalize_json("{ \"a\" : 1 ,\n \"b\" : [ 1, 2 ] }"), Some("{\"a\":1,\"b\":[1,2]}".to_string()));
    assert_eq!(normalize_json(" \"x\" "), Some("\"x\"".to_string()));
    assert_eq!(normalize_json("{\"b\":1,\"a\":2}"), Some("{\"b\":1,\"a\":2}".to_string()));
}

#[test]
fn normalize_json_refuses_what_is_no_json() {
    assert_eq!(normalize_json("{invalid"), None);
    assert_eq!(normalize_json(""), None);
    assert_eq!(normalize_json("{'a':1}"), None);
}

#[test]
fn sorted_object_gives_each_key_once_in_ascending_order() {
    let members = sorted_object("{\"m\":1,\"b\":2,\"z\":3,\"a\":4,\"b\":5}").unwrap();
    assert_eq!(keys(&members), vec!["a", "b", "m", "z"]);
    let values: Vec<i64> = members.iter().map(|m| m.value.as_i64().unwrap()).collect();
    assert_eq!(values, vec![4, 5, 1, 3]);
    for pair in members.windows(2) {
        assert!(pair[0].key < pair[1].key);
    }
}

#[test]
fn sorted_object_of_what_is_no_object() {
    assert!(sorted_object("[1,2]").is_none());
    assert!(sorted_object("7").is_none());
    assert!(sorted_object("{").is_none());
    assert!(sorted_object("{}").unwrap().is_empty());
}

#[test]
fn repeated_key_is_printed_once_with_its_last_value() {
    assert_eq!(
        pretty_sorted("{\"b\":1,\"a\":1,\"b\":2}"),
        Some("{\n  \"a\": 1,\n  \"b\": 2\n}".to_string())
    );
}
