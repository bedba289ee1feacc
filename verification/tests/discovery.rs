use tt_toplike::backend::discovery::{
    discover_boxes, looks_like_host_port, parse_discovered_boxes, run_tt_discover,
    resolve_remote_spec, resolve_remote_target, tt_bin, DiscoverRun,
};

// A realistic two-box `tt --json discover` payload.
const DISCOVER_JSON: &str = r#"[
    {"name":"qb2-lab","host":"192.168.1.42","ctrl_port":8899,"chips":"4xBH","status":"idle","apiver":1},
    {"name":"qb-serving","host":"10.0.0.7","ctrl_port":8765,"chips":"8xWH","status":"serving:llama3","apiver":1}
]"#;

// ── looks_like_host_port ────────────────────────────────────────────────

#[test]
fn host_port_detection() {
    assert!(looks_like_host_port("192.168.1.42:8765"));
    assert!(looks_like_host_port("myhost:8000"));
    assert!(looks_like_host_port("[::1]:8765"));
    // Bare tokens (names / bare hosts / bare IPs) are NOT host:port.
    assert!(!looks_like_host_port("qb2-lab"));
    assert!(!looks_like_host_port("myhost"));
    assert!(!looks_like_host_port("192.168.1.5"));
    assert!(!looks_like_host_port("[::1]"));
    // Non-numeric trailing component is not a port.
    assert!(!looks_like_host_port("host:notaport"));
}

// ── resolve_remote_target: match ────────────────────────────────────────

#[test]
fn resolves_name_to_host_port() {
    assert_eq!(
        resolve_remote_target(DISCOVER_JSON, "qb2-lab").unwrap(),
        "192.168.1.42:8899"
    );
    assert_eq!(
        resolve_remote_target(DISCOVER_JSON, "qb-serving").unwrap(),
        "10.0.0.7:8765"
    );
}

// ── resolve_remote_target: host:port passthrough (no discovery) ──────────

#[test]
fn host_port_passes_through_even_with_empty_json() {
    // An explicit address is returned verbatim; JSON is never consulted, so
    // even an empty/garbage payload is fine on the passthrough path.
    assert_eq!(
        resolve_remote_target("", "192.168.1.42:8765").unwrap(),
        "192.168.1.42:8765"
    );
    assert_eq!(
        resolve_remote_target("not json", "[::1]:9000").unwrap(),
        "[::1]:9000"
    );
}

// ── resolve_remote_target: no match ─────────────────────────────────────

#[test]
fn no_match_returns_clear_error_listing_names() {
    let err = resolve_remote_target(DISCOVER_JSON, "nope").unwrap_err();
    assert!(err.contains("nope"), "error should name the request: {err}");
    assert!(
        err.contains("qb2-lab"),
        "error should list discovered: {err}"
    );
    assert!(
        err.contains("qb-serving"),
        "error should list discovered: {err}"
    );
}

#[test]
fn no_boxes_returns_clear_error() {
    let err = resolve_remote_target("[]", "qb2-lab").unwrap_err();
    assert!(err.contains("qb2-lab"));
    assert!(err.contains("none discovered"), "got: {err}");
}

// ── resolve_remote_target: malformed JSON ───────────────────────────────

#[test]
fn malformed_json_for_a_name_is_an_error() {
    // A name (not host:port) forces a parse; malformed JSON must error.
    let err = resolve_remote_target("{ this is not valid", "qb2-lab").unwrap_err();
    assert!(err.contains("parse"), "got: {err}");
}

#[test]
fn empty_request_is_an_error() {
    assert!(resolve_remote_target(DISCOVER_JSON, "   ").is_err());
}

// ── parsing + display helpers ───────────────────────────────────────────

#[test]
fn parses_boxes_and_formats_summary() {
    let boxes = parse_discovered_boxes(DISCOVER_JSON).unwrap();
    assert_eq!(boxes.len(), 2);
    assert_eq!(boxes[0].name, "qb2-lab");
    assert_eq!(boxes[0].host_port(), "192.168.1.42:8899");
    let line = boxes[1].summary_line();
    assert!(line.contains("qb-serving"));
    assert!(line.contains("10.0.0.7:8765"));
    assert!(line.contains("8xWH"));
    assert!(line.contains("serving:llama3"));
}

#[test]
fn lenient_parse_tolerates_missing_optional_fields() {
    // Only the required fields present; chips/status/apiver default.
    let json = r#"[{"name":"minimal","host":"h","ctrl_port":1234}]"#;
    let boxes = parse_discovered_boxes(json).unwrap();
    assert_eq!(boxes[0].host_port(), "h:1234");
    assert_eq!(boxes[0].chips, "");
    // summary_line renders placeholders rather than blanks.
    assert!(boxes[0].summary_line().contains("?"));
}

#[test]
fn tt_bin_defaults_and_env_override() {
    assert_eq!(tt_bin(None), "tt");
    assert_eq!(tt_bin(Some("/opt/tt/bin/tt".to_string())), "/opt/tt/bin/tt");
    // Blank is ignored: the default.
    assert_eq!(tt_bin(Some("   ".to_string())), "tt");
}

#[test]
fn summary_lines_are_exact() {
    let boxes = parse_discovered_boxes(DISCOVER_JSON).unwrap();
    assert_eq!(
        boxes[1].summary_line(),
        "qb-serving · 10.0.0.7:8765 · 8xWH · serving:llama3"
    );
    let minimal =
        parse_discovered_boxes(r#"[{"name":"minimal","host":"h","ctrl_port":1234}]"#).unwrap();
    assert_eq!(minimal[0].summary_line(), "minimal · h:1234 · ? · ?");
    assert_eq!(minimal[0].apiver, 0);
}

#[test]
fn a_list_with_an_entry_that_is_no_box_is_an_error() {
    for bad in [
        r#"[{"name":"a","host":"h"}]"#,
        r#"[{"name":"a","host":"h","ctrl_port":70000}]"#,
        r#"[{"name":"a","host":"h","ctrl_port":1,"apiver":300}]"#,
        r#"[{"name":"a","host":"h","ctrl_port":1,"chips":null}]"#,
        r#"[1]"#,
        r#"{"name":"a"}"#,
    ] {
        let e = parse_discovered_boxes(bad).unwrap_err();
        assert!(e.starts_with("could not parse `tt --json discover` output: "), "{e}");
    }
    assert!(parse_discovered_boxes("  []\n").unwrap().is_empty());
}

#[test]
fn error_messages_are_exact() {
    assert_eq!(
        resolve_remote_target(DISCOVER_JSON, "nope").unwrap_err(),
        "no box named 'nope' (discovered: qb2-lab, qb-serving)"
    );
    assert_eq!(
        resolve_remote_target("[]", "x").unwrap_err(),
        "no box named 'x' (none discovered)"
    );
    assert_eq!(resolve_remote_target("[]", " ").unwrap_err(), "no remote box requested");
}

#[test]
fn ports_are_checked_for_their_range() {
    assert!(looks_like_host_port("h:65535"));
    assert!(!looks_like_host_port("h:65536"));
    assert!(looks_like_host_port("h: 80 "));
    assert!(!looks_like_host_port(":80"));
    assert!(!looks_like_host_port("[::1]:x"));
    assert!(!looks_like_host_port(""));
}

#[test]
fn a_spec_falls_back_to_a_host() {
    let found = Ok(DISCOVER_JSON.to_string());
    assert_eq!(resolve_remote_spec("qb2-lab", &found).unwrap(), "192.168.1.42:8899");
    assert_eq!(resolve_remote_spec("elsewhere", &found).unwrap(), "elsewhere");
    assert_eq!(
        resolve_remote_spec("elsewhere", &Err("no tool".to_string())).unwrap(),
        "elsewhere"
    );
    assert_eq!(
        resolve_remote_spec("h:1", &Err("no tool".to_string())).unwrap(),
        "h:1"
    );
}

#[test]
fn runs_of_the_tool_are_told_apart() {
    assert_eq!(
        run_tt_discover("tt", DiscoverRun::Missing).unwrap_err(),
        "`tt` not found on PATH — install tt-station's `tt` CLI or set TT_BIN"
    );
    assert_eq!(
        run_tt_discover("tt", DiscoverRun::Failed("denied".to_string())).unwrap_err(),
        "failed to run `tt --json discover`: denied"
    );
    assert_eq!(
        run_tt_discover("tt", DiscoverRun::Error(" boom\n".to_string())).unwrap_err(),
        "`tt --json discover` failed: boom"
    );
    let boxes =
        discover_boxes("tt", DiscoverRun::Output(DISCOVER_JSON.to_string())).unwrap();
    assert_eq!(boxes.len(), 2);
    assert!(discover_boxes("tt", DiscoverRun::Missing).is_err());
}
