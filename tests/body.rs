use httpie_lite::{encode_body, parse_kv_pair, KvPair, RequestDescriptor};
use std::collections::HashMap;

fn pairs(tokens: &[&str]) -> Vec<KvPair> {
    tokens.iter().map(|t| parse_kv_pair(t).unwrap()).collect()
}

fn as_json(pairs: &[KvPair]) -> serde_json::Value {
    let body = encode_body(&pairs.to_vec());
    let map: HashMap<&String, &String> = body.entries().iter().map(|(k, v)| (k, v)).collect();
    serde_json::to_value(&map).unwrap()
}

#[test]
fn later_duplicate_key_wins() {
    let body = encode_body(&pairs(&["a=1", "b=2", "a=3"]));
    assert_eq!(body.len(), 2);
    assert_eq!(
        body.entries(),
        &vec![("a".to_string(), "3".to_string()), ("b".to_string(), "2".to_string())]
    );
}

#[test]
fn distinct_keys_kept_in_order() {
    let body = encode_body(&pairs(&["x=1", "y=2", "z=3"]));
    assert_eq!(body.len(), 3);
    let keys: Vec<&str> = body.entries().iter().map(|(k, _)| k.as_str()).collect();
    assert_eq!(keys, vec!["x", "y", "z"]);
}

#[test]
fn empty_body_encodes_to_empty_object() {
    let body = encode_body(&vec![]);
    assert_eq!(body.len(), 0);
    assert!(body.entries().is_empty());
    let map: HashMap<&String, &String> = body.entries().iter().map(|(k, v)| (k, v)).collect();
    assert_eq!(serde_json::to_string(&map).unwrap(), "{}");
}

#[test]
fn post_payload_values_stay_strings() {
    let tokens = vec!["name=joe".to_string(), "age=5".to_string()];
    let d = RequestDescriptor::post_request("https://example.com/", &tokens).unwrap();
    let expected: serde_json::Value = serde_json::from_str(r#"{"name":"joe","age":"5"}"#).unwrap();
    assert_eq!(as_json(&d.body), expected);
}

#[test]
fn duplicate_key_payload() {
    let expected: serde_json::Value = serde_json::from_str(r#"{"k":"second"}"#).unwrap();
    assert_eq!(as_json(&pairs(&["k=first", "k=second"])), expected);
}
