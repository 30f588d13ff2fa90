use unidpp_kit::json::{json_array, json_object, to_pretty_text, to_text, Json, JsonMap};
use unidpp_kit::text::{decimal_string, take_chars, trim};

fn pairs(items: Vec<(&str, Json)>) -> Json {
    json_object(items.into_iter().map(|(k, v)| (k.to_string(), v)).collect())
}

fn sample() -> Json {
    pairs(vec![
        ("zeta", Json::Int(-3)),
        ("alpha", Json::Str("a \"quoted\" ü".to_string())),
        (
            "list",
            json_array(vec![Json::Bool(true), Json::Null, Json::UInt(18446744073709551615)]),
        ),
        ("empty", pairs(vec![])),
        ("none", json_array(vec![])),
        ("nested", pairs(vec![("b", Json::Int(2)), ("a", Json::Float("1.5".to_string()))])),
    ])
}

fn serde_sample() -> serde_json::Value {
    serde_json::from_str(
        r#"{"zeta": -3, "alpha": "a \"quoted\" ü",
            "list": [true, null, 18446744073709551615],
            "empty": {}, "none": [], "nested": {"b": 2, "a": 1.5}}"#,
    )
    .unwrap()
}

#[test]
fn compact_text_matches_serde_json() {
    assert_eq!(to_text(&sample()), serde_json::to_string(&serde_sample()).unwrap());
}

#[test]
fn pretty_text_matches_serde_json() {
    assert_eq!(
        to_pretty_text(&sample()),
        serde_json::to_string_pretty(&serde_sample()).unwrap()
    );
}

#[test]
fn object_keys_come_out_sorted_whatever_the_insertion_order() {
    let a = pairs(vec![("b", Json::Int(1)), ("a", Json::Int(2)), ("c", Json::Int(3))]);
    let b = pairs(vec![("c", Json::Int(3)), ("b", Json::Int(1)), ("a", Json::Int(2))]);
    assert_eq!(to_text(&a), "{\"a\":2,\"b\":1,\"c\":3}");
    assert_eq!(to_text(&a), to_text(&b));
}

#[test]
fn a_later_pair_replaces_an_earlier_one() {
    let a = pairs(vec![("k", Json::Int(1)), ("k", Json::Int(2))]);
    assert_eq!(to_text(&a), "{\"k\":2}");
}

#[test]
fn map_insert_then_get_reads_the_value_back() {
    let mut m = JsonMap::new();
    m.insert("x".to_string(), Json::Int(1));
    m.insert("y".to_string(), Json::Int(2));
    m.insert("x".to_string(), Json::Int(3));
    assert_eq!(m.len(), 2);
    assert_eq!(m.get("x").and_then(|v| v.as_i64()), Some(3));
    assert_eq!(m.get("y").and_then(|v| v.as_i64()), Some(2));
    assert!(m.get("z").is_none());
}

#[test]
fn accessors_read_the_variants() {
    let doc = sample();
    assert_eq!(doc.get("zeta").and_then(|v| v.as_i64()), Some(-3));
    assert_eq!(doc.get("zeta").and_then(|v| v.as_u64()), None);
    assert_eq!(doc.get("alpha").and_then(|v| v.as_str()), Some("a \"quoted\" ü"));
    assert_eq!(doc.get("list").and_then(|v| v.as_array()).map(|a| a.len()), Some(3));
    assert!(Json::Int(1).get("x").is_none());
}

#[test]
fn decimal_and_text_helpers() {
    assert_eq!(decimal_string(0), "0");
    assert_eq!(decimal_string(18446744073709551615), "18446744073709551615");
    assert_eq!(trim("  \t padded \u{3000}\n"), "padded");
    assert_eq!(trim(" \n "), "");
    assert_eq!(take_chars("ünïcode", 3), "ünï");
    assert_eq!(take_chars("ab", 5), "ab");
}

#[test]
fn string_literals_escape_like_serde_json() {
    let text = "q\"b\\s/\u{8}\t\n\u{c}\r\u{1}\u{1f}\u{7f}é";
    assert_eq!(
        to_text(&Json::Str(text.to_string())),
        serde_json::to_string(text).unwrap()
    );
    assert_eq!(
        to_text(&Json::Str(text.to_string())),
        "\"q\\\"b\\\\s/\\b\\t\\n\\f\\r\\u0001\\u001f\u{7f}é\""
    );
}
