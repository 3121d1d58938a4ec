use veryhttp::body::{build_body, encode_body, encode_json_object};
use veryhttp::kv::KeyValuePair;

fn pair(k: &str, v: &str) -> KeyValuePair {
    KeyValuePair {
        k: k.to_string(),
        v: v.to_string(),
    }
}

#[test]
fn folding_keeps_last_value_and_first_place() {
    let pairs = vec![pair("a", "1"), pair("b", "2"), pair("a", "3")];
    let folded = build_body(&pairs);
    assert_eq!(folded.len(), 2);
    assert_eq!(folded[0].k, "a");
    assert_eq!(folded[0].v, "3");
    assert_eq!(folded[1].k, "b");
    assert_eq!(folded[1].v, "2");
}

#[test]
fn folding_without_duplicates_keeps_order() {
    let pairs = vec![pair("name", "ada"), pair("lang", "rust")];
    let folded = build_body(&pairs);
    assert_eq!(folded.len(), 2);
    assert_eq!(folded[0].k, "name");
    assert_eq!(folded[1].k, "lang");
}

#[test]
fn encode_body_builds_the_post_json() {
    let pairs = vec![pair("name", "ada"), pair("lang", "rust")];
    assert_eq!(encode_body(&pairs), "{\"name\":\"ada\",\"lang\":\"rust\"}");
}

#[test]
fn encode_body_folds_duplicates_first() {
    let pairs = vec![pair("a", "1"), pair("b", "2"), pair("a", "3")];
    assert_eq!(encode_body(&pairs), "{\"a\":\"3\",\"b\":\"2\"}");
}

#[test]
fn empty_body_encodes_as_empty_object() {
    let pairs: Vec<KeyValuePair> = vec![];
    assert_eq!(encode_body(&pairs), "{}");
}

#[test]
fn json_encoding_escapes_specials() {
    let pairs = vec![pair("qu\"ote", "back\\slash"), pair("nl", "a\nb")];
    assert_eq!(
        encode_json_object(&pairs),
        "{\"qu\\\"ote\":\"back\\\\slash\",\"nl\":\"a\\nb\"}"
    );
}

#[test]
fn json_encoding_escapes_control_characters() {
    let pairs = vec![pair("k", "a\u{1}b")];
    assert_eq!(encode_json_object(&pairs), "{\"k\":\"a\\u0001b\"}");
}
