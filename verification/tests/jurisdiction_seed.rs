use unidpp_kit::json::{json_object, to_text, Json};
use unidpp_kit::seeding::jurisdiction::{
    applicability_query, binding_in_force, binding_outcome, binding_present_line,
    binding_registration, element_outcome, element_registration, normalize_jurisdiction,
    profile_outcome, profile_registration, residency_for, run, sample_elements, seed_plan,
    service_outcome, service_registration, JurisdictionRun, USAGE,
};
use unidpp_kit::seeding::{canonical, Operator, SeedAction};
use unidpp_kit::Kit;

fn o(items: Vec<(&str, Json)>) -> Json {
    json_object(items.into_iter().map(|(k, v)| (k.to_string(), v)).collect())
}

fn s(t: &str) -> Json {
    Json::Str(t.to_string())
}

fn strings(items: &[&str]) -> Vec<String> {
    items.iter().map(|x| x.to_string()).collect()
}

#[test]
fn residency_follows_the_illustrative_table() {
    assert_eq!(residency_for("DE"), "eu");
    assert_eq!(residency_for("JP"), "apac");
    assert_eq!(residency_for("CN"), "cn");
    assert_eq!(residency_for("US"), "na");
    assert_eq!(residency_for("BR"), "anywhere");
}

#[test]
fn jurisdictions_are_two_ascii_letters() {
    assert_eq!(normalize_jurisdiction("de").unwrap(), "DE");
    assert_eq!(
        normalize_jurisdiction("DEU").unwrap_err(),
        "jurisdiction must be an ISO 3166-1 alpha-2 code (e.g. DE)"
    );
    assert!(normalize_jurisdiction("d1").is_err());
    assert!(normalize_jurisdiction("").is_err());
}

#[test]
fn the_seed_plan_derives_register_and_endpoint() {
    let p = seed_plan("http://127.0.0.1:8391", "fr", None, None).unwrap();
    assert_eq!(p.jurisdiction, "FR");
    assert_eq!(p.register, "jurisdiction-fr");
    assert_eq!(p.residency, "eu");
    assert_eq!(p.endpoint_uri, "http://127.0.0.1:8391/");
    let p = seed_plan("b", "US", Some("national"), Some("https://reg.example/")).unwrap();
    assert_eq!(p.register, "national");
    assert_eq!(p.endpoint_uri, "https://reg.example/");
}

#[test]
fn the_service_registration_is_signed() {
    let op = Operator::new("unidpp-registry");
    let reg = service_registration(&op, "DE", "http://x/", "eu");
    assert_eq!(reg.get("identifier").and_then(|v| v.as_str()), Some("registry-de-v1"));
    let unicode = service_registration(&op, "ÉS", "http://x/", "eu");
    assert_eq!(unicode.get("identifier").and_then(|v| v.as_str()), Some("registry-és-v1"));
    assert_eq!(reg.get("version").and_then(|v| v.as_str()), Some("1.0.0"));
    let body = reg.get("body").unwrap();
    assert_eq!(body.get("residency_class").and_then(|v| v.as_str()), Some("eu"));
    assert_eq!(
        to_text(reg.get("signature").unwrap()),
        to_text(body.get("signature").unwrap())
    );
    let unsigned = o(vec![
        ("identifier", s("registry-de-v1")),
        ("operator", op.record()),
        ("class", s("registry")),
        ("endpoints", Json::Array(vec![o(vec![("uri", s("http://x/")), ("protocol_binding_ref", s("pb-en18222-rest"))])])),
        ("protocol_binding_ref", s("pb-en18222-rest")),
        ("jurisdiction", s("DE")),
        ("residency_class", s("eu")),
        ("status", s("active")),
        ("service_kind", s("jurisdictional-registry")),
        ("succession_pointer", Json::Null),
    ]);
    assert_eq!(to_text(body), to_text(&op.sign(&unsigned)));
    assert!(!canonical(&unsigned).is_empty());
}

#[test]
fn registration_answers() {
    let resp = o(vec![("audit_seq", Json::Int(4))]);
    assert_eq!(
        service_outcome("registry-de-v1", 201, &resp).unwrap(),
        "registered C3 self-descriptor `registry-de-v1` (audit_seq 4)"
    );
    assert_eq!(
        service_outcome("registry-de-v1", 409, &resp).unwrap(),
        "C3 self-descriptor `registry-de-v1` already registered"
    );
    assert_eq!(
        service_outcome("registry-de-v1", 403, &resp).unwrap_err(),
        "service registration failed (HTTP 403): {\"audit_seq\":4}"
    );
    assert_eq!(
        element_outcome("urn:x", 409, &resp).unwrap(),
        "- data element `urn:x` already registered"
    );
    let (id, line) = profile_outcome("DE", 201, &resp).unwrap();
    assert_eq!(id, "urn:unidpp:profile:de-battery-passport");
    assert_eq!(line, "registered profile `urn:unidpp:profile:de-battery-passport` (audit_seq 4)");
}

#[test]
fn the_sample_elements_and_their_registration() {
    let els = sample_elements();
    assert_eq!(els.len(), 3);
    assert_eq!(els[0].item_id, "urn:unidpp:de:battery-carbon-footprint");
    let body = element_registration("DE", "jurisdiction-de", &els[0]);
    let expected: serde_json::Value = serde_json::from_str(r#"{
        "register_id": "jurisdiction-de",
        "item_id": "urn:unidpp:de:battery-carbon-footprint",
        "definition": "Carbon footprint of the battery, declared per the applicable delegated regulation (kg CO2e per battery, life-cycle)",
        "version": "1.0.0",
        "effective_from": "2026-10-01T00:00:00Z",
        "submitting_organization": "DE national registry authority (kit sample)",
        "manifest": {"version": "1.0.0", "unit_ref": "unit-kg", "datatype": "decimal(9,3)",
                     "representation": "ISO 80000-1 quantity value",
                     "source_register": "sample national RA entry"}}"#).unwrap();
    assert_eq!(to_text(&body), serde_json::to_string(&expected).unwrap());
    let op = Operator::new("unidpp-registry");
    let profile = profile_registration(&op, "DE", "jurisdiction-de", &els);
    assert_eq!(
        profile.get("item_id").and_then(|v| v.as_str()),
        Some("urn:unidpp:profile:de-battery-passport")
    );
    let manifest = profile.get("manifest").unwrap();
    assert_eq!(manifest.get("issuer_class").and_then(|v| v.as_str()), Some("law"));
    assert_eq!(
        manifest.get("data_points").and_then(|v| v.as_array()).map(|a| a.len()),
        Some(3)
    );
}

#[test]
fn the_binding_is_created_only_when_not_in_force() {
    assert_eq!(
        applicability_query("gtin:4260123400019"),
        "/applicability?product_type=gtin%3A4260123400019&at=2027-02-18T00%3A00%3A00Z"
    );
    let resp = o(vec![(
        "applicability",
        Json::Array(vec![o(vec![("binding", o(vec![("profile_item", s("p1"))]))])]),
    )]);
    assert!(binding_in_force(200, &resp, "p1"));
    assert!(!binding_in_force(200, &resp, "p2"));
    assert!(!binding_in_force(404, &resp, "p1"));
    assert_eq!(
        to_text(&binding_registration("p1", "gtin:1")),
        "{\"effective_from\":\"2027-02-18T00:00:00Z\",\"product_type\":\"gtin:1\",\"profile_id\":\"p1\",\"retroactive\":false}"
    );
    assert_eq!(
        binding_present_line("gtin:1"),
        "applicability binding already in force for `gtin:1`"
    );
    assert_eq!(
        binding_outcome("gtin:1", 201, &o(vec![("audit_seq", Json::Int(9))])).unwrap(),
        "bound profile to `gtin:1` from 2027-02-18T00:00:00Z (audit_seq 9, non-retroactive)"
    );
    assert!(binding_outcome("gtin:1", 409, &o(vec![])).is_err());
}

#[test]
fn the_jurisdiction_command_line() {
    let kit = Kit::from_settings("/k".to_string(), None, None, None, None).unwrap();
    let a = run(&kit, &strings(&["--jurisdiction", "de", "--register", "r", "--port", "9"])).unwrap();
    assert_eq!(a.jurisdiction, "de");
    assert_eq!(a.register.as_deref(), Some("r"));
    assert_eq!(a.operator_label, "unidpp-registry");
    assert_eq!(a.product_type, "gtin:4260123400019");
    assert_eq!(a.shared.port, 9);
    assert_eq!(run(&kit, &strings(&[])).err().unwrap(), USAGE);
    assert_eq!(run(&kit, &strings(&["--jurisdiction"])).err().unwrap(), USAGE);
}

fn path_of(action: SeedAction) -> (String, Option<Json>) {
    match action {
        SeedAction::Post { path, body } => (path, Some(body)),
        SeedAction::Get { path } => (path, None),
        SeedAction::Finish { .. } => panic!("the run ended early"),
    }
}

fn finished(action: SeedAction) -> (bool, Option<String>) {
    match action {
        SeedAction::Finish { ok, message } => (ok, message),
        _ => panic!("the run should be over"),
    }
}

#[test]
fn a_jurisdiction_run_registers_in_order_then_binds() {
    let op = Operator::new("unidpp-registry");
    let mut r = JurisdictionRun::new(&op, "DE", "jurisdiction-de", "http://x/", "eu", "gtin:1");
    let (path, body) = path_of(r.action());
    assert_eq!(path, "/services");
    assert_eq!(
        to_text(&body.unwrap()),
        to_text(&service_registration(&op, "DE", "http://x/", "eu"))
    );
    let audit = o(vec![("audit_seq", Json::UInt(4))]);
    assert_eq!(
        r.step(201, &audit),
        strings(&["- registered C3 self-descriptor `registry-de-v1` (audit_seq 4)"])
    );
    for el in sample_elements() {
        let (path, body) = path_of(r.action());
        assert_eq!(path, "/data-elements");
        assert_eq!(
            to_text(&body.unwrap()),
            to_text(&element_registration("DE", "jurisdiction-de", &el))
        );
        assert_eq!(
            r.step(409, &o(vec![])),
            vec![format!("- data element `{}` already registered", el.item_id)]
        );
    }
    let (path, _) = path_of(r.action());
    assert_eq!(path, "/profiles");
    assert_eq!(
        r.step(409, &o(vec![])),
        strings(&["- profile `urn:unidpp:profile:de-battery-passport` already registered"])
    );
    let (path, body) = path_of(r.action());
    assert_eq!(path, applicability_query("gtin:1"));
    assert!(body.is_none());
    assert!(r.step(200, &o(vec![("applicability", Json::Array(vec![]))])).is_empty());
    let (path, body) = path_of(r.action());
    assert_eq!(path, "/applicability");
    assert_eq!(
        to_text(&body.unwrap()),
        to_text(&binding_registration("urn:unidpp:profile:de-battery-passport", "gtin:1"))
    );
    assert_eq!(
        r.step(201, &audit),
        strings(&["- bound profile to `gtin:1` from 2027-02-18T00:00:00Z (audit_seq 4, non-retroactive)"])
    );
    assert_eq!(finished(r.action()), (true, None));
}

#[test]
fn a_jurisdiction_run_stops_at_a_binding_in_force_or_a_failure() {
    let op = Operator::new("unidpp-registry");
    let mut r = JurisdictionRun::new(&op, "DE", "jurisdiction-de", "http://x/", "eu", "gtin:1");
    for _ in 0..5 {
        r.step(201, &o(vec![]));
    }
    let in_force = o(vec![(
        "applicability",
        Json::Array(vec![o(vec![(
            "binding",
            o(vec![("profile_item", s("urn:unidpp:profile:de-battery-passport"))]),
        )])]),
    )]);
    assert_eq!(
        r.step(200, &in_force),
        strings(&["- applicability binding already in force for `gtin:1`"])
    );
    assert_eq!(finished(r.action()), (true, None));

    let mut r = JurisdictionRun::new(&op, "DE", "jurisdiction-de", "http://x/", "eu", "gtin:1");
    r.step(201, &o(vec![]));
    assert!(r.step(500, &o(vec![])).is_empty());
    let (ok, message) = finished(r.action());
    assert!(!ok);
    assert_eq!(
        message.unwrap(),
        "data element `urn:unidpp:de:battery-carbon-footprint` failed (HTTP 500): {}"
    );
}
