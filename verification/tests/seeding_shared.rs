use ed25519_dalek::{Signer, SigningKey, Verifier};
use sha2::{Digest, Sha256};
use unidpp_kit::http::HttpText;
use unidpp_kit::json::{json_object, to_text, Json};
use unidpp_kit::seeding::{
    canonical, failure_message, hex, listed_identifiers, listing_count_text, listing_status,
    parse_seed_args, quote, verify_line, Operator, Registry, DEFAULT_OPERATOR_LABEL,
};
use unidpp_kit::Kit;

fn obj(items: Vec<(&str, Json)>) -> Json {
    json_object(items.into_iter().map(|(k, v)| (k.to_string(), v)).collect())
}

fn kit() -> Kit {
    Kit::from_settings("/opt/kit".to_string(), None, None, None, None).unwrap()
}

fn args(items: &[&str]) -> Vec<String> {
    items.iter().map(|s| s.to_string()).collect()
}

#[test]
fn hex_is_lowercase_two_digits_per_byte() {
    assert_eq!(hex(&[0x00, 0x0f, 0xa5, 0xff]), "000fa5ff");
    assert_eq!(hex(&[]), "");
    let bytes = [0x00u8, 0x7f, 0x80, 0xc3, 0xff];
    let text = hex(&bytes);
    assert_eq!(text.len(), 2 * bytes.len());
    assert!(text.bytes().all(|c| matches!(c, b'0'..=b'9' | b'a'..=b'f')));
    for (i, b) in bytes.iter().enumerate() {
        assert_eq!(u8::from_str_radix(&text[2 * i..2 * i + 2], 16), Ok(*b));
    }
    assert_ne!(hex(&[0x01, 0x23]), hex(&[0x12, 0x03]));
}

#[test]
fn quote_escapes_everything_outside_the_unreserved_set() {
    assert_eq!(quote("gtin:4260123400019"), "gtin%3A4260123400019");
    assert_eq!(quote("2027-02-18T00:00:00Z"), "2027-02-18T00%3A00%3A00Z");
    assert_eq!(quote("a b/ü~_.-"), "a%20b%2F%C3%BC~_.-");
}

#[test]
fn canonical_bytes_are_serde_jsons_compact_sorted_form() {
    let v = obj(vec![("b", Json::Int(1)), ("a", Json::Str("é".to_string()))]);
    let value: serde_json::Value = serde_json::from_str(r#"{"b": 1, "a": "é"}"#).unwrap();
    let expected = serde_json::to_string(&value).unwrap();
    assert_eq!(canonical(&v), expected.into_bytes());
}

#[test]
fn registry_requests_carry_the_token_and_the_body() {
    let api = Registry { bind: "127.0.0.1".to_string(), port: 8391, token: "tok".to_string() };
    assert_eq!(api.base_url(), "http://127.0.0.1:8391");
    let body = obj(vec![("x", Json::Int(1))]);
    let req = api.post("/units", &body);
    assert_eq!(req.method, "POST");
    assert_eq!(req.path, "/units");
    assert_eq!(req.body.as_deref(), Some("{\"x\":1}"));
    assert_eq!(req.bearer.as_deref(), Some("tok"));
    assert_eq!(req.timeout, std::time::Duration::from_secs(15));
    let open = Registry { bind: "h".to_string(), port: 1, token: String::new() };
    assert!(open.get("/healthz").bearer.is_none());
    assert!(open.get("/healthz").body.is_none());
}

#[test]
fn registry_replies_and_health() {
    let api = Registry { bind: "127.0.0.1".to_string(), port: 8391, token: String::new() };
    assert_eq!(
        api.reply(None, None).err().unwrap(),
        "cannot reach the registry at http://127.0.0.1:8391"
    );
    let (status, doc) = api
        .reply(Some(HttpText { status: 502, body: "bad gateway".to_string() }), None)
        .unwrap();
    assert_eq!(status, 502);
    assert_eq!(to_text(&doc), "{\"body\":\"bad gateway\"}");
    assert!(api.require_health(200).is_ok());
    assert_eq!(
        api.require_health(503).unwrap_err(),
        "no healthy registry at http://127.0.0.1:8391 — run unidpp-kit start --daemon first"
    );
}

#[test]
fn seed_args_fall_back_to_the_kit() {
    let k = kit();
    let parsed = parse_seed_args(&k, &args(&[]), "usage").unwrap();
    assert_eq!(parsed.bind, "127.0.0.1");
    assert_eq!(parsed.port, 8391);
    assert_eq!(parsed.base(), "http://127.0.0.1:8391");
    assert_eq!(parsed.token_path(&k), "/opt/kit/data/admin-token");
    let parsed = parse_seed_args(
        &k,
        &args(&["--port", "9000", "--bind", "0.0.0.0", "--base-url", "https://r.example", "--admin-token", "T", "--token-file", "/tmp/t"]),
        "usage",
    )
    .unwrap();
    assert_eq!(parsed.port, 9000);
    assert_eq!(parsed.base(), "https://r.example");
    assert_eq!(parsed.token_path(&k), "/tmp/t");
    assert_eq!(parsed.registry(Some("env".to_string()), Some("file".to_string())).token, "T");
}

#[test]
fn seed_args_refuse_bad_input() {
    let k = kit();
    assert_eq!(
        parse_seed_args(&k, &args(&["--port", "x"]), "usage").err().unwrap(),
        "--port must be a number (got x)"
    );
    assert_eq!(parse_seed_args(&k, &args(&["--bind"]), "usage").err().unwrap(), "usage");
    assert_eq!(
        parse_seed_args(&k, &args(&["--verbose"]), "usage").err().unwrap(),
        "unknown option: --verbose\nusage"
    );
    let parsed = parse_seed_args(&k, &args(&[]), "usage").unwrap();
    assert_eq!(parsed.registry(None, Some("from-file".to_string())).token, "from-file");
    assert_eq!(parsed.registry(Some(String::new()), None).token, "");
}

#[test]
fn seed_token_prefers_environment_to_file() {
    let k = kit();
    let parsed = parse_seed_args(&k, &args(&[]), "usage").unwrap();
    assert_eq!(
        parsed.registry(Some("from-env".to_string()), Some("from-file".to_string())).token,
        "from-env"
    );
    assert_eq!(
        parsed.registry(Some(String::new()), Some("from-file".to_string())).token,
        "from-file"
    );
}

fn expected_secret(label: &str) -> [u8; 32] {
    let mut h = Sha256::new();
    h.update(b"UNIDPP-DISCOVERY/OPERATOR-SEED");
    h.update(label.as_bytes());
    h.finalize().into()
}

fn derived(prefix: &str, tag: &[u8], pk: &[u8]) -> String {
    let mut h = Sha256::new();
    h.update(tag);
    h.update(pk);
    let digest: [u8; 32] = h.finalize().into();
    format!("{prefix}{}", &hex(&digest)[..16])
}

#[test]
fn the_dev_operator_is_derived_from_its_label() {
    let op = Operator::new(DEFAULT_OPERATOR_LABEL);
    let key = SigningKey::from_bytes(&expected_secret(DEFAULT_OPERATOR_LABEL));
    let pk = key.verifying_key().to_bytes();
    assert_eq!(op.id(), derived("op-", b"op", &pk));
    assert_eq!(op.key_id(), derived("k-", b"key", &pk));
    let mut record = serde_json::Map::new();
    record.insert("id".to_string(), serde_json::Value::String(derived("op-", b"op", &pk)));
    record.insert("key_id".to_string(), serde_json::Value::String(derived("k-", b"key", &pk)));
    record.insert("public_key".to_string(), serde_json::Value::String(hex(&pk)));
    record.insert("algorithm".to_string(), serde_json::Value::String("ed25519".to_string()));
    let record = serde_json::Value::Object(record);
    assert_eq!(to_text(&op.record()), serde_json::to_string(&record).unwrap());
    assert_ne!(Operator::new("other").id(), op.id());
}

#[test]
fn a_signed_descriptor_carries_a_verifying_signature_over_its_canonical_bytes() {
    let op = Operator::new("unidpp-registry");
    let key = SigningKey::from_bytes(&expected_secret("unidpp-registry"));
    let body = obj(vec![("identifier", Json::Str("registry-de-v1".to_string())), ("class", Json::Str("registry".to_string()))]);
    let signed = op.sign(&body);
    let sig = signed.get("signature").unwrap();
    assert_eq!(sig.get("algorithm").and_then(|v| v.as_str()), Some("ed25519"));
    assert_eq!(sig.get("key_id").and_then(|v| v.as_str()).map(str::to_string), Some(op.key_id()));
    let bytes = canonical(&body);
    let expected = hex(&key.sign(&bytes).to_bytes());
    assert_eq!(sig.get("value").and_then(|v| v.as_str()), Some(expected.as_str()));
    let raw: Vec<u8> = (0..64)
        .map(|i| u8::from_str_radix(&expected[2 * i..2 * i + 2], 16).unwrap())
        .collect();
    let signature = ed25519_dalek::Signature::from_slice(&raw).unwrap();
    assert!(key.verifying_key().verify(&bytes, &signature).is_ok());
    assert_eq!(signed.get("class").and_then(|v| v.as_str()), Some("registry"));
}

#[test]
fn a_signed_manifest_names_its_issuer_and_signs_the_completed_manifest() {
    let op = Operator::new("unidpp-registry");
    let key = SigningKey::from_bytes(&expected_secret("unidpp-registry"));
    let manifest = obj(vec![("version", Json::Str("1.0.0".to_string()))]);
    let signed = op.sign_manifest(&manifest);
    let completed = obj(vec![
        ("version", Json::Str("1.0.0".to_string())),
        ("issuer_class", Json::Str("law".to_string())),
        ("issuer", Json::Str(op.key_id())),
    ]);
    let expected = hex(&key.sign(&canonical(&completed)).to_bytes());
    let sig = signed.get("signature").unwrap();
    assert_eq!(sig.get("suite").and_then(|v| v.as_str()), Some("ed25519"));
    assert_eq!(sig.get("signature").and_then(|v| v.as_str()), Some(expected.as_str()));
    assert_eq!(signed.get("issuer_class").and_then(|v| v.as_str()), Some("law"));
}

#[test]
fn a_resigned_manifest_excludes_its_old_signature_slot() {
    let op = Operator::new("unidpp-registry");
    let key = SigningKey::from_bytes(&expected_secret("unidpp-registry"));
    let manifest = obj(vec![
        ("version", Json::Str("1.0.0".to_string())),
        ("signature", Json::Str("stale".to_string())),
    ]);
    let signed = op.sign_manifest(&manifest);
    let completed = obj(vec![
        ("version", Json::Str("1.0.0".to_string())),
        ("issuer_class", Json::Str("law".to_string())),
        ("issuer", Json::Str(op.key_id())),
    ]);
    let expected = hex(&key.sign(&canonical(&completed)).to_bytes());
    assert_eq!(expected.len(), 128);
    let sig = signed.get("signature").unwrap();
    assert_eq!(sig.get("signature").and_then(|v| v.as_str()), Some(expected.as_str()));
    assert_eq!(op.id().len(), 19);
    assert_eq!(op.key_id().len(), 18);
}

#[test]
fn failure_reports_show_the_status_and_a_preview() {
    let resp = obj(vec![("error", Json::Str("x".repeat(500)))]);
    let msg = failure_message("unit `u` failed", 422, &resp);
    let text = to_text(&resp);
    assert_eq!(
        msg,
        format!("unit `u` failed (HTTP 422): {}", &text[..400])
    );
}

#[test]
fn listings_are_read_for_identifiers_and_count() {
    let resp = obj(vec![
        ("count", Json::Int(2)),
        (
            "items",
            Json::Array(vec![
                obj(vec![("identifier", Json::Str("a".to_string()))]),
                obj(vec![("other", Json::Null)]),
                obj(vec![("identifier", Json::Str("b".to_string()))]),
            ]),
        ),
    ]);
    assert_eq!(listed_identifiers(&resp), vec!["a".to_string(), "b".to_string()]);
    assert_eq!(listing_count_text(&resp), "2");
    assert_eq!(listing_count_text(&obj(vec![])), "null");
    assert!(listing_status("/units", 200).is_ok());
    assert_eq!(
        listing_status("/units", 404).unwrap_err(),
        "verification failed: GET /units -> HTTP 404"
    );
    assert_eq!(
        verify_line("/units?register=unitsml", "48", 48, true),
        "verify: GET /units?register=unitsml -> count=48 (expected 48) — OK"
    );
    assert_eq!(
        verify_line("/units?register=unitsml", "null", 48, false),
        "verify: GET /units?register=unitsml -> count=null (expected 48) — FAILED"
    );
}
