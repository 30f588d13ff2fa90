use unidpp_kit::json::{json_object, to_text, Json, JsonMap};
use unidpp_kit::seeding::untded::{
    build_item, count_linked, count_status, duplicate_tags, edifact_index, edifact_line,
    edifact_links_path, elements_root, expected_ids, lifecycle_line, missing_lines, run,
    select_elements, sort_by_tag, untded_dir, yaml_file_names, Loaded, Progress, UntdedRun, USAGE,
};
use unidpp_kit::seeding::SeedAction;
use unidpp_kit::yaml::{Yaml, YamlKey};
use unidpp_kit::Kit;

fn obj(items: Vec<(&str, Json)>) -> Json {
    json_object(items.into_iter().map(|(k, v)| (k.to_string(), v)).collect())
}

fn s(t: &str) -> Json {
    Json::Str(t.to_string())
}

fn strings(items: &[&str]) -> Vec<String> {
    items.iter().map(|x| x.to_string()).collect()
}

fn ykey(k: &str) -> YamlKey {
    YamlKey::Str(k.to_string())
}

fn element(tag: i64, status: &str) -> (i64, Json) {
    (tag, obj(vec![("tag", Json::Int(tag)), ("status", s(status))]))
}

#[test]
fn the_checkout_defaults_to_the_home_source_tree() {
    assert_eq!(untded_dir("/home/u", ""), "/home/u/src/untded/untded-2005");
    assert_eq!(untded_dir("/home/u", "/srv/untded"), "/srv/untded");
    assert_eq!(elements_root("/srv/untded"), "/srv/untded/data/elements");
    assert_eq!(elements_root("/srv/untded/"), "/srv/untded/data/elements");
    assert_eq!(edifact_links_path("/srv"), "/srv/derived/edifact-links.json");
}

#[test]
fn element_files_are_the_yaml_files_in_name_order() {
    let names = strings(&["b.yaml", "README.md", "a.yaml", "c.yml", "A.yaml"]);
    assert_eq!(yaml_file_names(&names), strings(&["A.yaml", "a.yaml", "b.yaml"]));
}

#[test]
fn loading_tags_each_element_with_its_category() {
    let doc = Yaml::Mapping(vec![
        (ykey("category"), Yaml::Str("  Parties  ".to_string())),
        (
            ykey("elements"),
            Yaml::List(vec![
                Yaml::Mapping(vec![(ykey("tag"), Yaml::Int(3035)), (ykey("name"), Yaml::Str("Party".to_string()))]),
                Yaml::Mapping(vec![(ykey("tag"), Yaml::Int(1000))]),
            ]),
        ),
    ]);
    let mut loaded = Loaded::new();
    loaded.add_file("parties.yaml", &doc).unwrap();
    assert_eq!(loaded.categories, strings(&["Parties", "Parties"]));
    assert_eq!(loaded.elements[0].0, 3035);
    assert_eq!(
        to_text(&loaded.elements[0].1),
        "{\"_category\":\"Parties\",\"name\":\"Party\",\"tag\":3035}"
    );
    let (sorted, categories) = loaded.finish();
    assert_eq!(sorted[0].0, 1000);
    assert_eq!(sorted[1].0, 3035);
    assert_eq!(categories, vec![("Parties".to_string(), 2)]);
}

#[test]
fn an_element_without_an_integer_tag_stops_the_loading() {
    let doc = Yaml::Mapping(vec![(
        ykey("elements"),
        Yaml::List(vec![Yaml::Mapping(vec![(ykey("tag"), Yaml::Str("x".to_string()))])]),
    )]);
    let mut loaded = Loaded::new();
    assert_eq!(
        loaded.add_file("bad.yaml", &doc).unwrap_err(),
        "element without an integer tag in bad.yaml"
    );
}

#[test]
fn sorting_by_tag_is_stable() {
    let els = vec![
        (2, s("first two")),
        (1, s("one")),
        (2, s("second two")),
        (0, s("zero")),
    ];
    let sorted = sort_by_tag(&els);
    let texts: Vec<String> = sorted.iter().map(|(_, j)| to_text(j)).collect();
    assert_eq!(texts, strings(&["\"zero\"", "\"one\"", "\"first two\"", "\"second two\""]));
}

#[test]
fn choosing_by_status_and_limit() {
    let els = vec![element(1000, "active"), element(1001, "retired"), element(1002, "active")];
    let active = select_elements(&els, "active", None);
    assert_eq!(active.iter().map(|e| e.0).collect::<Vec<_>>(), vec![1000, 1002]);
    let first = select_elements(&els, "all", Some(2));
    assert_eq!(first.iter().map(|e| e.0).collect::<Vec<_>>(), vec![1000, 1001]);
    assert_eq!(select_elements(&els, "retired", Some(0)).len(), 0);
    assert_eq!(count_status(&els, "active"), 2);
    assert!(!duplicate_tags(&els));
    assert!(duplicate_tags(&vec![element(5, "active"), element(6, "active"), element(5, "retired")]));
}

fn links() -> JsonMap {
    let doc = obj(vec![(
        "links",
        Json::Array(vec![
            obj(vec![("tag", s("1000")), ("edifact", obj(vec![("name", s("DOCUMENT NAME"))])), ("aligned", Json::Bool(true))]),
            obj(vec![("tag", Json::Int(3035)), ("edifact", obj(vec![("name", s("PARTY"))]))]),
            obj(vec![("tag", s("1001")), ("edifact", obj(vec![("name", s("X"))])), ("aligned", Json::Bool(false))]),
        ]),
    )]);
    edifact_index(&doc)
}

#[test]
fn the_edifact_join_is_keyed_by_tag_text() {
    let index = links();
    assert_eq!(index.len(), 3);
    assert!(index.get("3035").is_some());
    let els = vec![element(1000, "active"), element(9999, "active"), element(3035, "retired")];
    assert_eq!(count_linked(&els, &index), 2);
    assert_eq!(
        edifact_line(2, 3),
        "  un_edifact_ref: 2 of 3 (D05B join: UN/EDIFACT D.05B segments mirror — untded-2005 derived/edifact-links.json)"
    );
    assert_eq!(
        lifecycle_line(2, 3),
        "  lifecycle: 2 active / 1 retired (source states; every item registers 19135-status valid)"
    );
}

#[test]
fn an_active_element_becomes_a_registry_item() {
    let el = obj(vec![
        ("tag", Json::Int(1000)),
        ("name", s("Document name")),
        ("description", s("Name of a document.")),
        ("status", s("active")),
        ("representation", obj(vec![("raw", s("an..35")), ("charset", s("an")), ("max_length", Json::Int(35)), ("min_length", Json::Null)])),
        ("provenance", obj(vec![("page", Json::Int(12))])),
        ("notes", Json::Null),
        ("bridges", Json::Array(vec![s("EDIFACT 1000")])),
        ("_category", s("Documents")),
    ]);
    let item = build_item(&el, "untded", &links());
    let expected: serde_json::Value = serde_json::from_str(r#"{
        "register_id": "untded",
        "item_id": "urn:untded:de:1000",
        "class": "data-element",
        "title": "Document name",
        "definition": "Name of a document.",
        "version": "1.0.0",
        "effective_from": "2005-01-01T00:00:00Z",
        "submitting_organization": "UNTDED 2005 (ECE/TRADE/362 = ISO 7372:2005) — untded-2005 SSOT import",
        "manifest": {
            "version": "1.0.0",
            "tag": 1000,
            "name": "Document name",
            "representation": "an..35",
            "charset": "an",
            "max_length": 35,
            "un_edifact_ref": "DOCUMENT NAME",
            "aligned_with_edifact": true,
            "untded_ref": "UNTDED 2005, ECE/TRADE/362 (ISO 7372:2005), §4.2 Trade Data Elements Directory, element 1000 (p. 12); https://www.untded.org/elements/1000",
            "untded_status": "active",
            "bridges": ["EDIFACT 1000"],
            "category": "Documents",
            "source_page": 12
        }}"#).unwrap();
    assert_eq!(to_text(&item), serde_json::to_string(&expected).unwrap());
}

#[test]
fn a_retired_element_keeps_its_replacement_note() {
    let el = obj(vec![
        ("tag", Json::Int(1001)),
        ("old_name", s("Old name")),
        ("status", s("retired")),
        ("notes", s("Use 1000.")),
    ]);
    let item = build_item(&el, "untded", &links());
    assert_eq!(
        item.get("definition").and_then(|d| d.as_str()),
        Some("Old name — retired in UNTDED 2005. Use 1000.")
    );
    assert_eq!(item.get("title").and_then(|d| d.as_str()), Some("Old name"));
    let manifest = item.get("manifest").unwrap();
    assert_eq!(manifest.get("aligned_with_edifact").map(to_text), Some("false".to_string()));
    assert_eq!(
        manifest.get("untded_ref").and_then(|d| d.as_str()),
        Some("UNTDED 2005, ECE/TRADE/362 (ISO 7372:2005), §4.2 Trade Data Elements Directory, element 1001 (p. \"?\"); https://www.untded.org/elements/1001")
    );
    assert!(manifest.get("source_page").is_none());
    let bare = build_item(&obj(vec![("tag", Json::Int(7)), ("status", s("retired"))]), "r", &JsonMap::new());
    assert_eq!(bare.get("title").and_then(|d| d.as_str()), Some("UNTDED data element 7"));
    assert_eq!(
        bare.get("definition").and_then(|d| d.as_str()),
        Some(" — retired in UNTDED 2005. No replacement stated in the directory.")
    );
}

#[test]
fn progress_is_counted_and_reported() {
    let mut p = Progress::new();
    assert!(p.record("urn:untded:de:1", 201, &obj(vec![])).is_none());
    assert!(p.record("urn:untded:de:2", 409, &obj(vec![])).is_none());
    assert_eq!(
        p.record("urn:untded:de:3", 400, &obj(vec![("error", s("no"))])).unwrap(),
        "  FAILED: urn:untded:de:3 failed (HTTP 400): {\"error\":\"no\"}"
    );
    assert_eq!((p.registered, p.skipped, p.failed), (1, 1, 1));
    assert!(p.line(3, 1504).is_none());
    assert_eq!(
        p.line(250, 1504).unwrap(),
        "  250/1504 — 1 registered, 1 already present, 1 failed"
    );
    assert!(p.line(1504, 1504).is_some());
}

#[test]
fn expected_ids_are_distinct_and_in_text_order() {
    let els = vec![element(999, "active"), element(1000, "active"), element(999, "retired")];
    assert_eq!(
        expected_ids(&els),
        strings(&["urn:untded:de:1000", "urn:untded:de:999"])
    );
    let missing = strings(&["a", "b", "c"]);
    assert_eq!(missing_lines(&missing, 2), strings(&["  missing: a", "  missing: b"]));
}

#[test]
fn the_untded_command_line() {
    let kit = Kit::from_settings("/k".to_string(), None, None, None, None).unwrap();
    let a = run(&kit, &strings(&["--status", "active", "--limit", "5", "--untded-dir", "/d"])).unwrap();
    assert_eq!(a.register, "untded");
    assert_eq!(a.status, "active");
    assert_eq!(a.limit, Some(5));
    assert_eq!(a.dir.as_deref(), Some("/d"));
    assert_eq!(
        run(&kit, &strings(&["--status", "gone"])).err().unwrap(),
        "--status is one of: active, retired, all"
    );
    assert_eq!(
        run(&kit, &strings(&["--limit", "many"])).err().unwrap(),
        "--limit must be a number (got many)"
    );
    assert_eq!(run(&kit, &strings(&["--limit"])).err().unwrap(), USAGE);
}

fn listed(ids: &[&str]) -> Json {
    let items: Vec<Json> = ids.iter().map(|i| obj(vec![("identifier", s(i))])).collect();
    obj(vec![("count", Json::UInt(items.len() as u64)), ("items", Json::Array(items))])
}

fn post_of(action: SeedAction) -> Json {
    match action {
        SeedAction::Post { path, body } => {
            assert_eq!(path, "/data-elements");
            body
        }
        _ => panic!("expected a registration"),
    }
}

#[test]
fn an_untded_run_refuses_duplicate_tags() {
    let els = vec![element(1000, "active"), element(1000, "retired")];
    assert_eq!(
        UntdedRun::start(&els, "untded", &JsonMap::new()).err().unwrap(),
        "duplicate tags in the UNTDED dataset"
    );
}

#[test]
fn an_untded_run_registers_each_element_then_checks_the_listing() {
    let els = vec![element(1000, "active"), element(1001, "retired")];
    let mut r = UntdedRun::start(&els, "untded", &JsonMap::new()).unwrap();
    let first = post_of(r.action());
    assert_eq!(to_text(&first), to_text(&build_item(&els[0].1, "untded", &JsonMap::new())));
    assert!(r.step(201, &obj(vec![])).is_empty());
    let second = post_of(r.action());
    assert_eq!(
        second.get("item_id").and_then(|v| v.as_str()),
        Some("urn:untded:de:1001")
    );
    assert_eq!(
        r.step(409, &obj(vec![])),
        strings(&["  2/2 — 1 registered, 1 already present, 0 failed"])
    );
    match r.action() {
        SeedAction::Get { path } => assert_eq!(path, "/data-elements?register=untded"),
        _ => panic!("expected the listing"),
    }
    assert_eq!(
        r.step(200, &listed(&["urn:untded:de:1000", "urn:untded:de:1001"])),
        strings(&[
            "",
            "verify: GET /data-elements?register=untded -> count=2 (expected 2) — OK",
        ])
    );
    match r.action() {
        SeedAction::Finish { ok, message } => {
            assert!(ok);
            assert!(message.is_none());
        }
        _ => panic!("the run should be over"),
    }
}

#[test]
fn an_untded_run_fails_on_missing_items_or_failed_registrations() {
    let els = vec![element(1000, "active")];
    let mut r = UntdedRun::start(&els, "untded", &JsonMap::new()).unwrap();
    r.step(201, &obj(vec![]));
    assert_eq!(
        r.step(200, &listed(&[])),
        strings(&[
            "",
            "verify: GET /data-elements?register=untded -> count=0 (expected 1) — FAILED",
            "  missing: urn:untded:de:1000",
        ])
    );
    match r.action() {
        SeedAction::Finish { ok, message } => {
            assert!(!ok);
            assert!(message.is_none());
        }
        _ => panic!("the run should be over"),
    }

    let mut r = UntdedRun::start(&els, "untded", &JsonMap::new()).unwrap();
    let lines = r.step(500, &obj(vec![]));
    assert_eq!(lines[0], "  FAILED: urn:untded:de:1000 failed (HTTP 500): {}");
    r.step(200, &listed(&["urn:untded:de:1000"]));
    match r.action() {
        SeedAction::Finish { ok, message } => {
            assert!(!ok);
            assert_eq!(message.unwrap(), "1 elements failed to register");
        }
        _ => panic!("the run should be over"),
    }

    let mut r = UntdedRun::start(&els, "untded", &JsonMap::new()).unwrap();
    r.step(201, &obj(vec![]));
    assert!(r.step(503, &obj(vec![])).is_empty());
    match r.action() {
        SeedAction::Finish { ok, message } => {
            assert!(!ok);
            assert_eq!(
                message.unwrap(),
                "verification failed: GET /data-elements -> HTTP 503"
            );
        }
        _ => panic!("the run should be over"),
    }
}
