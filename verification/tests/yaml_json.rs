use unidpp_kit::json::to_text;
use unidpp_kit::yaml::{yaml_to_json, Yaml, YamlKey};

fn key(s: &str) -> YamlKey {
    YamlKey::Str(s.to_string())
}

#[test]
fn mappings_become_objects_and_tags_are_looked_through() {
    let doc = Yaml::Mapping(vec![
        (key("b"), Yaml::Tagged(Box::new(Yaml::Int(2)))),
        (key("a"), Yaml::List(vec![Yaml::Str("x".to_string()), Yaml::Null])),
        (YamlKey::Other("1\n".to_string()), Yaml::Bool(true)),
        (key("f"), Yaml::Float("0.5".to_string())),
        (key("u"), Yaml::UInt(18446744073709551615)),
    ]);
    assert_eq!(
        to_text(&yaml_to_json(&doc)),
        "{\"1\":true,\"a\":[\"x\",null],\"b\":2,\"f\":0.5,\"u\":18446744073709551615}"
    );
}

#[test]
fn get_and_as_str_look_through_tags() {
    let doc = Yaml::Tagged(Box::new(Yaml::Mapping(vec![(
        key("category"),
        Yaml::Tagged(Box::new(Yaml::Str(" Trade ".to_string()))),
    )])));
    assert_eq!(doc.get("category").and_then(|c| c.as_str()), Some(" Trade "));
    assert!(doc.get("missing").is_none());
    assert!(Yaml::Str("x".to_string()).get("category").is_none());
}

#[test]
fn a_non_string_key_never_matches_a_field_lookup() {
    let doc = Yaml::Mapping(vec![(YamlKey::Other("category".to_string()), Yaml::Int(1))]);
    assert!(doc.get("category").is_none());
}
