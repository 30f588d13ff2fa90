use unidpp_kit::demo::{
    applies_count_view, applies_view, body_preview, chain_view, demo_token, lifecycle_keys,
    new_version_body, obj, routes, rule, service_view, services_query, supersession_keys,
    supersession_outcome, version_view, J,
};
use unidpp_kit::json::{json_object, to_text, Json};

fn o(items: Vec<(&str, Json)>) -> Json {
    json_object(items.into_iter().map(|(k, v)| (k.to_string(), v)).collect())
}

fn s(t: &str) -> Json {
    Json::Str(t.to_string())
}

#[test]
fn views_render_like_jq() {
    let view = obj(vec![
        ("b".to_string(), J::V(Json::Int(1))),
        ("a".to_string(), J::V(o(vec![("x", Json::Array(vec![Json::Int(1), Json::Int(2)]))]))),
        ("e".to_string(), J::Arr(vec![])),
    ]);
    assert_eq!(
        view.show(),
        "{\n  \"b\": 1,\n  \"a\": {\n    \"x\": [\n      1,\n      2\n    ]\n  },\n  \"e\": []\n}"
    );
    assert_eq!(obj(vec![]).show(), "{}");
}

#[test]
fn the_discovery_view() {
    let doc = o(vec![(
        "services",
        Json::Array(vec![o(vec![
            ("identifier", s("registry-de-v1")),
            (
                "version",
                o(vec![
                    ("body", o(vec![("class", s("registry")), ("jurisdiction", s("DE")), ("operator", o(vec![("id", s("op-1"))]))])),
                    ("signature", o(vec![("algorithm", s("ed25519")), ("key_id", s("k-1"))])),
                ]),
            ),
        ])]),
    )]);
    assert_eq!(
        service_view(&doc).show(),
        "{\n  \"identifier\": \"registry-de-v1\",\n  \"class\": \"registry\",\n  \"jurisdiction\": \"DE\",\n  \"endpoints\": null,\n  \"operator\": \"op-1\",\n  \"signed\": \"ed25519/k-1\"\n}"
    );
    assert_eq!(
        service_view(&o(vec![])).show(),
        "{\n  \"identifier\": null,\n  \"class\": null,\n  \"jurisdiction\": null,\n  \"endpoints\": null,\n  \"operator\": null,\n  \"signed\": \"/\"\n}"
    );
}

#[test]
fn the_applicability_views() {
    let doc = o(vec![
        ("as_of", s("2027-06-01T00:00:00Z")),
        (
            "applicability",
            Json::Array(vec![o(vec![(
                "binding",
                o(vec![("profile_item", s("p")), ("effective_from", s("2027-02-18T00:00:00Z")), ("retroactive", Json::Bool(false))]),
            )])]),
        ),
    ]);
    assert_eq!(
        applies_count_view(&doc).show(),
        "{\n  \"at\": \"2027-06-01T00:00:00Z\",\n  \"applies\": 1\n}"
    );
    assert_eq!(
        applies_view(&doc).show(),
        "{\n  \"at\": \"2027-06-01T00:00:00Z\",\n  \"applies\": [\n    {\n      \"profile\": \"p\",\n      \"from\": \"2027-02-18T00:00:00Z\",\n      \"retroactive\": false\n    }\n  ]\n}"
    );
    assert_eq!(
        applies_view(&o(vec![])).show(),
        "{\n  \"at\": null,\n  \"applies\": []\n}"
    );
}

#[test]
fn the_version_and_chain_views() {
    let doc = o(vec![("version", o(vec![("version", s("1.0.0")), ("status", s("valid"))]))]);
    assert_eq!(
        version_view(&doc, &lifecycle_keys()).show(),
        "{\n  \"version\": \"1.0.0\",\n  \"status\": \"valid\",\n  \"effective_from\": null\n}"
    );
    assert_eq!(
        version_view(&doc, &supersession_keys()).show(),
        "{\n  \"version\": \"1.0.0\",\n  \"status\": \"valid\",\n  \"superseded_by_version\": null,\n  \"window_end\": null\n}"
    );
    let chain = o(vec![("chain", Json::Array(vec![o(vec![("version", s("2.0.0"))])]))]);
    assert_eq!(
        chain_view(&chain).show(),
        "{\n  \"chain\": [\n    {\n      \"version\": \"2.0.0\",\n      \"status\": null,\n      \"superseded_by_version\": null,\n      \"window_end\": null\n    }\n  ]\n}"
    );
}

#[test]
fn between_the_steps() {
    assert_eq!(demo_token(Some(" file-token\n"), Some("env")), "file-token");
    assert_eq!(demo_token(Some("  "), Some("env")), "env");
    assert_eq!(demo_token(None, Some("")), "");
    assert_eq!(
        to_text(&new_version_body()),
        "{\"effective_from\":\"2028-01-01T00:00:00Z\",\"reason\":\"align representation with ESDC data-space conventions; pin unit identity\",\"version\":\"2.0.0\"}"
    );
    assert_eq!(supersession_outcome(201).unwrap(), "   201 Created — old version superseded");
    assert_eq!(
        supersession_outcome(409).unwrap(),
        "   409 — v2.0.0 already registered (idempotent re-run)"
    );
    assert_eq!(supersession_outcome(0).unwrap_err(), "   unexpected HTTP 0");
    let root = o(vec![("endpoints", o(vec![("b", s("/b")), ("a", s("/a")), ("n", Json::Int(1))]))]);
    assert_eq!(routes(&root), vec!["   /a".to_string(), "   /b".to_string()]);
    assert_eq!(body_preview(&"x".repeat(300)).len(), 200);
    assert_eq!(services_query("DE"), "/services?jurisdiction=DE&class=registry");
    assert_eq!(rule(), "=".repeat(70));
}
