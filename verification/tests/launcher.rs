use unidpp_kit::http::{get, get_auth, parse_response, post_auth, HttpText};
use unidpp_kit::json::{json_object, Json};
use unidpp_kit::kit::{
    admin_token_plan, base_dataset_note, healthz, is_executable, journal_records, last_lines, lines,
    listed_unit_count, listen_address, needs_build, new_token_text, parse_command, poll_step,
    quick_tunnel_url, services_count, stored_token, tunnel_probe, usage, Command, PollStep,
    TokenPlan, HEALTH_PROBES, PROBE_PAUSE_MS, TUNNEL_PROBES,
};
use unidpp_kit::Kit;
use std::time::Duration;

fn strings(items: &[&str]) -> Vec<String> {
    items.iter().map(|x| x.to_string()).collect()
}

#[test]
fn the_kit_defaults_and_paths() {
    let kit = Kit::from_settings("/opt/kit".to_string(), None, Some(String::new()), None, None).unwrap();
    assert_eq!(kit.home, "/opt/kit/data");
    assert_eq!(kit.registry_dir, "/opt/kit/../unidpp-registry");
    assert_eq!(kit.port, 8391);
    assert_eq!(kit.bind, "127.0.0.1");
    assert_eq!(kit.bin(), "/opt/kit/../unidpp-registry/target/release/unidpp-registry");
    assert_eq!(kit.journal(), "/opt/kit/data/jurisdiction-journal.jsonl");
    assert_eq!(kit.log(), "/opt/kit/data/registry.log");
    assert_eq!(kit.pid_file(), "/opt/kit/data/registry.pid");
    assert_eq!(kit.token_file(), "/opt/kit/data/admin-token");
    assert_eq!(kit.url(), "http://127.0.0.1:8391");
    assert_eq!(listen_address(&kit), "127.0.0.1:8391");
}

#[test]
fn the_kit_port_must_be_a_port_number() {
    let err = Kit::from_settings("/k".to_string(), None, None, Some("99999".to_string()), None)
        .err()
        .unwrap();
    assert_eq!(err, "KIT_PORT must be a port number (got `99999`)");
    let kit = Kit::from_settings("/k".to_string(), Some("/h".to_string()), None, Some("+8000".to_string()), Some("0.0.0.0".to_string())).unwrap();
    assert_eq!(kit.port, 8000);
    assert_eq!(kit.home, "/h");
    assert_eq!(kit.url(), "http://0.0.0.0:8000");
}

#[test]
fn health_is_a_status_below_four_hundred() {
    assert!(healthz(&Some(HttpText { status: 204, body: String::new() })));
    assert!(healthz(&Some(HttpText { status: 302, body: String::new() })));
    assert!(!healthz(&Some(HttpText { status: 404, body: String::new() })));
    assert!(!healthz(&None));
    assert!(healthz(&Some(HttpText { status: 101, body: String::new() })));
    assert!(!healthz(&Some(HttpText { status: 400, body: String::new() })));
}

#[test]
fn journal_records_are_its_lines() {
    assert_eq!(journal_records(b"{}\n{}\n"), 2);
    assert_eq!(journal_records(b"{}"), 0);
    assert!(is_executable(true, 0o755));
    assert!(!is_executable(true, 0o644));
    assert!(!is_executable(false, 0o777));
}

#[test]
fn admin_tokens_and_builds() {
    assert_eq!(new_token_text(&[0xab, 0x01]), "ab01\n");
    assert_eq!(stored_token("  abc\n", "/t").unwrap(), "abc");
    assert_eq!(stored_token(" \n", "/t").unwrap_err(), "cannot create admin token at /t");
    assert!(!needs_build(true, None));
    assert!(needs_build(true, Some("1")));
    assert!(!needs_build(true, Some("0")));
    assert!(needs_build(false, None));
}

#[test]
fn answers_are_counted() {
    let units = json_object(vec![("items".to_string(), Json::Array(vec![Json::Null, Json::Null]))]);
    assert_eq!(listed_unit_count(&Some(units)), 2);
    assert_eq!(listed_unit_count(&None), 0);
    let services = json_object(vec![("count".to_string(), Json::Int(3))]);
    assert_eq!(services_count(&services), Some(3));
    assert_eq!(services_count(&Json::Null), None);
}

#[test]
fn log_lines_and_their_tail() {
    assert_eq!(lines("a\r\nb\n\nc"), strings(&["a", "b", "", "c"]));
    assert_eq!(lines("a\n"), strings(&["a"]));
    assert_eq!(lines(""), Vec::<String>::new());
    let text: String = (1..=12).map(|i| format!("line {i}\n")).collect();
    let tail = last_lines(&text, 10);
    assert_eq!(tail.len(), 10);
    assert_eq!(tail[0], "line 3");
    assert_eq!(tail[9], "line 12");
    assert_eq!(last_lines("x\ny", 10), strings(&["x", "y"]));
}

#[test]
fn the_quick_tunnel_url_is_found_in_the_log() {
    let log = "INF Requesting new quick Tunnel on https://api.trycloudflare.com...\n\
               INF |  https://shy-cat-42.trycloudflare.com  |\n";
    assert_eq!(
        quick_tunnel_url(log).as_deref(),
        Some("https://shy-cat-42.trycloudflare.com")
    );
    assert_eq!(quick_tunnel_url("https://api.trycloudflare.com"), None);
    assert_eq!(quick_tunnel_url("https://-bad.trycloudflare.com"), None);
    assert_eq!(quick_tunnel_url("nothing here"), None);
}

#[test]
fn the_command_line() {
    assert!(matches!(parse_command(&strings(&[])), Ok(Command::Start { daemon: false, tunnel: false })));
    assert!(matches!(parse_command(&strings(&["start", "--tunnel"])), Ok(Command::Start { daemon: false, tunnel: true })));
    assert!(matches!(parse_command(&strings(&["stop"])), Ok(Command::Stop)));
    assert!(matches!(parse_command(&strings(&["status"])), Ok(Command::Status)));
    assert!(matches!(parse_command(&strings(&["seed"])), Ok(Command::Seed)));
    match parse_command(&strings(&["demo"])) {
        Ok(Command::Demo { jurisdiction }) => assert_eq!(jurisdiction, "DE"),
        _ => panic!("expected the demonstration"),
    }
    match parse_command(&strings(&["demo-jurisdiction", "--jurisdiction", "FR"])) {
        Ok(Command::Demo { jurisdiction }) => assert_eq!(jurisdiction, "FR"),
        _ => panic!("expected the demonstration"),
    }
    assert_eq!(
        parse_command(&strings(&["start", "--fast"])).err().unwrap(),
        "unknown option: --fast (expected --daemon, --tunnel)"
    );
    assert_eq!(parse_command(&strings(&["demo", "--jurisdiction"])).err().unwrap(), usage());
    assert_eq!(parse_command(&strings(&["fly"])).err().unwrap(), usage());
}

#[test]
fn request_heads_and_response_reading() {
    let r = get("127.0.0.1", 8391, "/healthz", Duration::from_secs(2));
    assert_eq!(
        r.head(),
        "GET /healthz HTTP/1.1\r\nHost: 127.0.0.1:8391\r\nConnection: close\r\ncontent-length: 0\r\n\r\n"
    );
    let r = get_auth("h", 1, "/services", "tok", Duration::from_secs(5));
    assert_eq!(
        r.head(),
        "GET /services HTTP/1.1\r\nHost: h:1\r\nConnection: close\r\nauthorization: Bearer tok\r\ncontent-length: 0\r\n\r\n"
    );
    let r = post_auth("h", 1, "/admin/seed", "{\"ü\":1}", "t", Duration::from_secs(15));
    assert_eq!(
        r.head(),
        "POST /admin/seed HTTP/1.1\r\nHost: h:1\r\nConnection: close\r\nauthorization: Bearer t\r\ncontent-type: application/json\r\ncontent-length: 8\r\n\r\n"
    );
    let h = parse_response("HTTP/1.1 201 Created\r\ncontent-type: x\r\n\r\n{\"a\":1}").unwrap();
    assert_eq!(h.status, 201);
    assert_eq!(h.body, "{\"a\":1}");
    let h = parse_response("HTTP/1.1 204 No Content\r\n").unwrap();
    assert_eq!(h.body, "");
    assert!(parse_response("garbage").is_none());
    assert!(parse_response("HTTP/1.1 abc").is_none());
}

#[test]
fn the_base_dataset_is_seeded_only_into_a_registry_without_units() {
    assert!(base_dataset_note(0).is_none());
    assert_eq!(
        base_dataset_note(48).unwrap(),
        "==> base discovery dataset already present (journal replay; 48 units)"
    );
}

#[test]
fn the_admin_token_comes_from_the_environment_or_the_file() {
    assert!(matches!(
        admin_token_plan(Some("t0k".to_string()), false),
        TokenPlan::Environment(t) if t == "t0k"
    ));
    assert!(matches!(admin_token_plan(Some(String::new()), true), TokenPlan::Stored));
    assert!(matches!(admin_token_plan(None, true), TokenPlan::Stored));
    assert!(matches!(admin_token_plan(None, false), TokenPlan::Generate));
}

#[test]
fn polls_stop_when_ready_and_give_up_after_their_budget() {
    assert_eq!((HEALTH_PROBES, TUNNEL_PROBES, PROBE_PAUSE_MS), (120, 40, 500));
    assert!(matches!(poll_step(1, HEALTH_PROBES, true), PollStep::Done));
    assert!(matches!(poll_step(119, HEALTH_PROBES, false), PollStep::PauseAndProbe));
    assert!(matches!(poll_step(120, HEALTH_PROBES, false), PollStep::PauseAndGiveUp));
    let log = "INF |  https://quiet-river-42.trycloudflare.com  |";
    assert_eq!(
        tunnel_probe(Some(log), true).unwrap(),
        "https://quiet-river-42.trycloudflare.com"
    );
    assert!(tunnel_probe(Some(log), false).is_none());
    assert!(tunnel_probe(None, true).is_none());
    assert!(tunnel_probe(Some("starting"), true).is_none());
}
