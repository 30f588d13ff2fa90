use unidpp_kit::json::{to_text, Json};
use unidpp_kit::seeding::units::{
    category_report, check_table, dimension_well_formed, expected_item_ids, item_id, listing_path,
    run, unit_outcome, unit_registration, units, UnitRow, USAGE,
};
use unidpp_kit::Kit;

fn args(items: &[&str]) -> Vec<String> {
    items.iter().map(|s| s.to_string()).collect()
}

fn row(id: &'static str, dimension: &'static str) -> UnitRow {
    UnitRow {
        id,
        name: "n",
        symbol: "s",
        quantity: "q",
        dimension,
        citation: "c",
        expression: "e",
        source: "src".to_string(),
        category: "cat",
    }
}

#[test]
fn the_inventory_holds_the_advertised_forty_eight_units() {
    let table = units();
    assert_eq!(table.len(), 48);
    assert_eq!(
        category_report(&table),
        "  categories: dpp-context 6, non-si-accepted 6, si-base 7, si-derived-compound 3, si-derived-special 22, si-prefixed 4"
    );
    assert_eq!(table[0].id, "u:m");
    assert_eq!(table[47].id, "u:kilogram_CO2e");
}

#[test]
fn the_inventory_passes_its_own_consistency_check() {
    assert!(check_table(&units()).is_ok());
}

#[test]
fn the_consistency_check_reports_duplicates_first_then_the_first_bad_vector() {
    let dup = vec![row("u:a", "L1M0T0E0H0A0I0D0"), row("u:a", "bad")];
    assert_eq!(check_table(&dup).unwrap_err(), "unit table has duplicate ids");
    let bad = vec![row("u:a", "L1M0T0E0H0A0I0D0"), row("u:b", "L1M0"), row("u:c", "x")];
    assert_eq!(
        check_table(&bad).unwrap_err(),
        "malformed dimension vector for u:b: L1M0"
    );
}

#[test]
fn dimension_vectors_have_eight_signed_components_in_order() {
    assert!(dimension_well_formed("L1M0T0E0H0A0I0D0"));
    assert!(dimension_well_formed("L-2M-1T+4E2H0A0I0D0"));
    assert!(dimension_well_formed("L12M0T0E0H0A0I0D10"));
    assert!(!dimension_well_formed("M0L1T0E0H0A0I0D0"));
    assert!(!dimension_well_formed("L1M0T0E0H0A0I0D"));
    assert!(!dimension_well_formed("L1M0T0E0H0A0I0D0 "));
    assert!(!dimension_well_formed("L-M0T0E0H0A0I0D0"));
    assert!(!dimension_well_formed(""));
}

#[test]
fn a_unit_registration_carries_its_manifest_and_source() {
    let table = units();
    let kwh = table.iter().find(|u| u.id == "u:kilowatt_hour").unwrap();
    let body = unit_registration("unitsml", kwh);
    let expected: serde_json::Value = serde_json::from_str(
        r#"{
        "register_id": "unitsml",
        "item_id": "unitsml:u:kilowatt_hour",
        "definition": "kilowatt hour (kW·h) — energy (active energy); 1 kW·h = 3.6 MJ exactly",
        "version": "1.0.0",
        "effective_from": "2026-01-01T00:00:00Z",
        "submitting_organization": "UnitsML / UnitsDB (NIST) — unidpp-registry-kit import",
        "manifest": {
            "version": "1.0.0",
            "name": "kilowatt hour",
            "symbol": "kW·h",
            "unitsml_id": "u:kilowatt_hour",
            "category": "dpp-context",
            "quantity_kind": "energy (active energy)",
            "dimension_vector": "L2M1T-2E0H0A0I0D0",
            "definition_expr": "1 kW·h = 3.6 MJ exactly",
            "iso_80000_citation": "IEC 80000-6:2022, item 6-62 (active energy)",
            "source": "UnitsDB (unitsml/unitsdb): ids, names, symbols, quantity kinds, dimension powers; ISO/IEC 80000 unified dataset (metanorma/iso-iec-80000, sources/dataset/quantities.yaml): part, edition, item"
        }}"#,
    )
    .unwrap();
    assert_eq!(to_text(&body), serde_json::to_string(&expected).unwrap());
    assert_eq!(item_id(kwh), "unitsml:u:kilowatt_hour");
}

#[test]
fn unit_answers_are_reported_or_stop_the_run() {
    let resp = unidpp_kit::json::json_object(vec![("audit_seq".to_string(), Json::Int(7))]);
    assert_eq!(
        unit_outcome("unitsml:u:m", "metre", 201, &resp).unwrap(),
        "registered unitsml:u:m — metre (audit_seq 7)"
    );
    assert_eq!(
        unit_outcome("unitsml:u:m", "metre", 409, &resp).unwrap(),
        "already registered unitsml:u:m"
    );
    assert_eq!(
        unit_outcome("unitsml:u:m", "metre", 500, &resp).unwrap_err(),
        "unit `unitsml:u:m` failed (HTTP 500): {\"audit_seq\":7}"
    );
}

#[test]
fn expected_ids_and_listing() {
    let ids = expected_item_ids(&units());
    assert_eq!(ids.len(), 48);
    assert_eq!(ids[0], "unitsml:u:m");
    assert_eq!(listing_path("unitsml"), "/units?register=unitsml");
}

#[test]
fn the_command_line_takes_a_register_and_the_shared_options() {
    let kit = Kit::from_settings("/k".to_string(), None, None, None, None).unwrap();
    let (register, parsed) = run(&kit, &args(&["--port", "9001"])).unwrap();
    assert_eq!(register, "unitsml");
    assert_eq!(parsed.port, 9001);
    let (register, _) = run(&kit, &args(&["--register", "mine"])).unwrap();
    assert_eq!(register, "mine");
    assert_eq!(run(&kit, &args(&["--register"])).err().unwrap(), USAGE);
}
