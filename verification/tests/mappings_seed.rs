use unidpp_kit::json::{json_object, to_text, Json};
use unidpp_kit::seeding::mappings::{
    body_item_id, check_line, check_lookup, endpoints, item_outcome, lookup_path, lookup_status,
    manifest_attested, mapping_registration, pad, register_option, run, MappingsRun, MAPPING_ID,
    USAGE,
};
use unidpp_kit::seeding::SeedAction;

fn o(items: Vec<(&str, Json)>) -> Json {
    json_object(items.into_iter().map(|(k, v)| (k.to_string(), v)).collect())
}

fn s(t: &str) -> Json {
    Json::Str(t.to_string())
}

fn strings(items: &[&str]) -> Vec<String> {
    items.iter().map(|x| x.to_string()).collect()
}

#[test]
fn both_endpoints_come_first() {
    let eps = endpoints();
    assert_eq!(eps.len(), 2);
    assert_eq!(body_item_id(&eps[0]), "gb-4943-1");
    assert_eq!(body_item_id(&eps[1]), "iec-62368-1");
    assert_eq!(body_item_id(&o(vec![])), "");
    assert_eq!(
        eps[1].get("manifest").and_then(|m| m.get("designation")).and_then(|v| v.as_str()),
        Some("IEC 62368-1:2018")
    );
}

#[test]
fn the_mapping_names_both_sides_and_the_attester() {
    let m = mapping_registration("unidpp");
    let expected: serde_json::Value = serde_json::from_str(r#"{
        "register_id": "unidpp",
        "item_id": "urn:unidpp:map:gb4943-iec62368",
        "definition": "GB 4943.1-2022 corresponds to IEC 62368-1 for the purposes of charger conformity evidence",
        "version": "1.0.0",
        "effective_from": "2026-09-01T00:00:00Z",
        "submitting_organization": "unidpp-registry-kit — GB↔IEC equivalence seed (cross-register-mapping class)",
        "manifest": {
            "version": "1.0.0",
            "source": {"register": "gb-std", "item": "gb-4943-1", "version": "2022"},
            "target": {"register": "iec", "item": "iec-62368-1"},
            "mapping_type": "equivalent",
            "attester": "CQC-pattern notified body"
        }}"#).unwrap();
    assert_eq!(to_text(&m), serde_json::to_string(&expected).unwrap());
    assert_eq!(MAPPING_ID, "urn:unidpp:map:gb4943-iec62368");
}

#[test]
fn lookups_are_checked() {
    assert_eq!(lookup_path("item=gb-4943-1"), "/cross-register-mappings?item=gb-4943-1");
    assert!(lookup_status("q", 200).is_ok());
    assert_eq!(
        lookup_status("q", 500).unwrap_err(),
        "lookup failed: /cross-register-mappings?q -> HTTP 500"
    );
    let one = o(vec![("mappings", Json::Array(vec![o(vec![("identifier", s(MAPPING_ID))])]))]);
    assert_eq!(check_lookup(&one, 1), (1, true));
    assert_eq!(check_lookup(&one, 0), (1, false));
    assert_eq!(check_lookup(&o(vec![]), 0), (0, true));
    let other = o(vec![("mappings", Json::Array(vec![o(vec![("identifier", s("x"))])]))]);
    assert_eq!(check_lookup(&other, 1), (1, false));
    assert_eq!(
        check_line("item=gb-4943-1", 1, true),
        format!("  {:<42} count=1 OK", "item=gb-4943-1")
    );
    assert_eq!(pad("ab", 4), "ab  ");
    assert_eq!(pad("abcdef", 4), "abcdef");
}

#[test]
fn the_mapping_item_must_be_attested() {
    let good = o(vec![(
        "manifest",
        o(vec![("mapping_type", s("equivalent")), ("attester", s("CQC-pattern notified body"))]),
    )]);
    assert!(manifest_attested(200, &good));
    assert!(!manifest_attested(404, &good));
    assert!(!manifest_attested(200, &o(vec![("manifest", o(vec![("mapping_type", s("equivalent"))]))])));
}

#[test]
fn item_answers_and_the_register_option() {
    let resp = o(vec![("audit_seq", Json::Int(1))]);
    assert_eq!(item_outcome("gb-4943-1", 201, &resp).unwrap(), "registered gb-4943-1 (audit_seq 1)");
    assert_eq!(item_outcome("gb-4943-1", 409, &resp).unwrap(), "already registered gb-4943-1");
    assert_eq!(
        item_outcome("gb-4943-1", 422, &resp).unwrap_err(),
        "item `gb-4943-1` failed (HTTP 422): {\"audit_seq\":1}"
    );
    let (reg, shared) = register_option(&strings(&["--port", "1", "--register", "x"]), "unidpp", "u").unwrap();
    assert_eq!(reg, "x");
    assert_eq!(shared, strings(&["--port", "1"]));
    assert_eq!(register_option(&strings(&["--register"]), "unidpp", "u").err().unwrap(), "u");
}

#[test]
fn the_mappings_command_line() {
    let kit = unidpp_kit::Kit::from_settings("/k".to_string(), None, None, None, None).unwrap();
    let (register, parsed) = run(&kit, &strings(&["--bind", "10.0.0.1"])).unwrap();
    assert_eq!(register, "unidpp");
    assert_eq!(parsed.bind, "10.0.0.1");
    assert_eq!(run(&kit, &strings(&["--register"])).err().unwrap(), USAGE);
    assert_eq!(
        run(&kit, &strings(&["--x"])).err().unwrap(),
        format!("unknown option: --x\n{USAGE}")
    );
}

fn expect_post(action: SeedAction, want_path: &str) -> Json {
    match action {
        SeedAction::Post { path, body } => {
            assert_eq!(path, want_path);
            body
        }
        _ => panic!("expected a POST to {want_path}"),
    }
}

fn expect_get(action: SeedAction, want_path: &str) {
    match action {
        SeedAction::Get { path } => assert_eq!(path, want_path),
        _ => panic!("expected a GET of {want_path}"),
    }
}

fn listing(ids: &[&str]) -> Json {
    let items = ids.iter().map(|i| o(vec![("identifier", s(i))])).collect();
    o(vec![("mappings", Json::Array(items))])
}

#[test]
fn a_mappings_run_posts_the_endpoints_then_the_mapping_then_verifies() {
    let mut r = MappingsRun::new("unidpp");
    let gb = expect_post(r.action(), "/data-elements");
    assert_eq!(body_item_id(&gb), "gb-4943-1");
    assert_eq!(
        r.step(201, &o(vec![("audit_seq", Json::UInt(7))])),
        vec!["  endpoint gb-4943-1: registered gb-4943-1 (audit_seq 7)".to_string()]
    );
    let iec = expect_post(r.action(), "/data-elements");
    assert_eq!(body_item_id(&iec), "iec-62368-1");
    assert_eq!(
        r.step(409, &o(vec![])),
        vec!["  endpoint iec-62368-1: already registered iec-62368-1".to_string()]
    );
    let mapping = expect_post(r.action(), "/cross-register-mappings");
    assert_eq!(to_text(&mapping), to_text(&mapping_registration("unidpp")));
    assert_eq!(
        r.step(409, &o(vec![])),
        vec![
            format!("  mapping   {MAPPING_ID}: already registered {MAPPING_ID}"),
            String::new(),
            format!("verify: directional lookups of {MAPPING_ID}"),
        ]
    );
    for (query, answer) in [
        ("item=gb-4943-1", listing(&[MAPPING_ID])),
        ("item=iec-62368-1", listing(&[MAPPING_ID])),
        ("source=gb-4943-1&target=iec-62368-1", listing(&[MAPPING_ID])),
        ("target=gb-4943-1", listing(&[])),
    ] {
        expect_get(r.action(), &format!("/cross-register-mappings?{query}"));
        let lines = r.step(200, &answer);
        assert_eq!(lines.len(), 1);
        assert!(lines[0].ends_with(" OK"));
    }
    expect_get(r.action(), &format!("/cross-register-mappings/{MAPPING_ID}"));
    let item = o(vec![(
        "manifest",
        o(vec![
            ("mapping_type", s("equivalent")),
            ("attester", s("CQC-pattern notified body")),
        ]),
    )]);
    let lines = r.step(200, &item);
    assert_eq!(lines, vec![format!("  {} OK", pad("item manifest (equivalent, attested)", 42))]);
    match r.action() {
        SeedAction::Finish { ok, message } => {
            assert!(ok);
            assert!(message.is_none());
        }
        _ => panic!("the run should be over"),
    }
}

#[test]
fn a_refused_registration_ends_a_mappings_run() {
    let mut r = MappingsRun::new("unidpp");
    let lines = r.step(500, &o(vec![("error", s("boom"))]));
    assert!(lines.is_empty());
    match r.action() {
        SeedAction::Finish { ok, message } => {
            assert!(!ok);
            assert_eq!(
                message.unwrap(),
                "item `gb-4943-1` failed (HTTP 500): {\"error\":\"boom\"}"
            );
        }
        _ => panic!("the run should be over"),
    }
}

#[test]
fn an_unexpected_lookup_fails_the_mappings_run() {
    let mut r = MappingsRun::new("unidpp");
    r.step(201, &o(vec![]));
    r.step(201, &o(vec![]));
    r.step(201, &o(vec![]));
    let lines = r.step(200, &listing(&[]));
    assert!(lines[0].ends_with(" count=0 FAILED"));
    for _ in 0..3 {
        r.step(200, &listing(&[]));
    }
    let lines = r.step(404, &o(vec![]));
    assert_eq!(lines, vec!["  GET item -> HTTP 404 FAILED".to_string()]);
    match r.action() {
        SeedAction::Finish { ok, message } => {
            assert!(!ok);
            assert!(message.is_none());
        }
        _ => panic!("the run should be over"),
    }
}
