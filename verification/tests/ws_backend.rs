use tt_toplike::backend::remote_ext::{
    inject_extension, RemoteInference, RemoteProc, TtToplikeExt, TT_TOPLIKE_SCHEMA,
};
use tt_toplike::backend::ws::{
    split_host_port, staleness_word, WsAction, WsBackend, WsEvent, MAX_REMOTE_DEVICES,
};
use tt_toplike::backend::{BackendConfig, TelemetryBackend};
use tt_toplike::models::Architecture;

// A realistic tt-smi -s frame (single Blackhole device) — the exact JSON a
// tt-station-agentd publisher would push verbatim.
const FRAME: &str = r#"{
    "device_info": [{
        "board_info": { "board_type": "p150a", "bus_id": "0000:01:00.0", "coords": "(0,0)" },
        "telemetry": {
            "voltage": "0.85", "current": "30.0", "power": "145.0",
            "aiclk": "800", "asic_temperature": "52.0", "heartbeat": "1234"
        },
        "smbus_telem": {
            "DDR_STATUS": "0x55555555", "DDR_SPEED": "0x3e80",
            "TIMER_HEARTBEAT": "0x10e7a", "AICLK": "0x320",
            "ENABLED_TENSIX_COL": "0x3FFF", "ETH_LIVE_STATUS": "0x00000000000000FF"
        }
    }]
}"#;

#[test]
fn test_staleness_word() {
    // With a tiny (or zero) interval, the 5s floor governs.
    assert_eq!(staleness_word(0, 0), "connected");
    assert_eq!(staleness_word(5, 0), "connected"); // exactly at floor, not past it
    assert_eq!(staleness_word(6, 0), "stale"); // past the 5s floor

    // With a larger interval, threshold is 3× interval (10s → 30s).
    assert_eq!(staleness_word(29, 10), "connected");
    assert_eq!(staleness_word(30, 10), "connected"); // exactly 3× is not yet stale
    assert_eq!(staleness_word(31, 10), "stale");

    // Saturating multiply: an absurd interval must not overflow/panic.
    assert_eq!(staleness_word(u64::MAX, u64::MAX), "connected");
}

#[test]
fn test_host_port_parsing() {
    let cfg = BackendConfig::default();
    let b = WsBackend::from_host_port("192.168.1.42:8765", cfg).unwrap();
    assert_eq!(b.host, "192.168.1.42");
    assert_eq!(b.port, 8765);
    assert_eq!(b.url, "ws://192.168.1.42:8765/telemetry");

    // Bare host defaults to the agentd control port.
    let b = WsBackend::from_host_port("qb2-lab", cfg).unwrap();
    assert_eq!(b.host, "qb2-lab");
    assert_eq!(b.port, 8000);

    // Bracketed IPv6.
    let b = WsBackend::from_host_port("[::1]:9743", cfg).unwrap();
    assert_eq!(b.host, "::1");
    assert_eq!(b.port, 9743);

    assert!(WsBackend::from_host_port("host:notaport", cfg).is_err());
    assert!(WsBackend::from_host_port("", cfg).is_err());
}

#[test]
fn test_frame_applied_on_update() {
    let mut b = WsBackend::new("test", 0);

    // Not-yet-received state: no data, no panic.
    assert!(b.update().is_ok());
    assert_eq!(b.devices().len(), 0);
    assert!(b.telemetry(0).is_none());

    // A frame arrives from the (simulated) reader task.
    b.shared.set_frame(FRAME.to_string(), 0);
    assert!(b.update().is_ok());

    assert_eq!(b.devices().len(), 1);
    assert_eq!(b.devices()[0].board_type, "p150a");
    assert_eq!(
        b.devices()[0].architecture,
        Architecture::Blackhole
    );

    let telem = b.telemetry(0).expect("telemetry missing after frame");
    assert_eq!(telem.power.as_deref(), Some("145.0"));
    assert_eq!(telem.asic_temperature.as_deref(), Some("52.0"));
    assert_eq!(telem.aiclk, Some(800));

    let smbus = b.smbus_telemetry(0).expect("smbus missing after frame");
    assert_eq!(smbus.enabled_tensix_col, Some(0x3FFF));
}

#[test]
fn test_update_no_new_frame_is_noop() {
    let mut b = WsBackend::new("test", 0);
    b.shared.set_frame(FRAME.to_string(), 0);
    assert!(b.update().is_ok());
    let gen_after_first = b.last_gen;
    // No new frame injected.
    assert!(b.update().is_ok());
    assert_eq!(b.last_gen, gen_after_first, "generation must not advance");
    assert_eq!(b.devices().len(), 1);
}

#[test]
fn test_snapshot_json_relays_last_frame() {
    let mut b = WsBackend::new("test", 0);
    assert_eq!(
        b.snapshot_json(),
        None,
        "no frame received yet — snapshot_json must be None"
    );

    b.shared.set_frame(FRAME.to_string(), 0);
    assert_eq!(
        b.snapshot_json(),
        Some(FRAME.to_string()),
        "snapshot_json must relay the exact injected frame"
    );
}

#[test]
fn test_bad_frame_surfaces_error() {
    let mut b = WsBackend::new("test", 0);
    b.shared.set_frame("this is not json".to_string(), 0);
    let res = b.update();
    assert!(res.is_err(), "bad frame should surface an error");
    // State stays empty; subsequent updates don't loop on the same bad frame.
    assert_eq!(b.devices().len(), 0);
    assert!(b.update().is_ok());
}

#[test]
fn test_remote_extension_decoded_from_frame() {

    let ext = TtToplikeExt {
        schema: TT_TOPLIKE_SCHEMA,
        processes: Some(vec![RemoteProc {
            pid: 4242,
            name: "tt-inference-server".to_string(),
            cmd: "/usr/bin/tt-inference-server --port 8080".to_string(),
            uses_tt: true,
            cpu_pct: "87.5".to_string(),
            mem_bytes: 12_884_901_888,
        }]),
        inference: Some(vec![RemoteInference {
            key: "vllm-llama3-70b".to_string(),
            label: "Llama-3 70B (vLLM)".to_string(),
            phase: "ready".to_string(),
            progress: None,
            serving: None,
        }]),
    };
    let frame_with_ext = inject_extension(FRAME, &ext);

    let mut b = WsBackend::new("test", 0);

    // No frame applied yet: both accessors are None.
    assert_eq!(b.remote_processes(), None);
    assert_eq!(b.remote_inference(), None);

    // (a) A frame WITH the extension decodes into both accessors.
    b.shared.set_frame(frame_with_ext.to_string(), 0);
    assert!(b.update().is_ok());

    let processes = b.remote_processes().expect("processes should decode");
    assert_eq!(processes.len(), 1);
    assert_eq!(processes[0].name, "tt-inference-server");

    let inference = b.remote_inference().expect("inference should decode");
    assert_eq!(inference.len(), 1);
    assert_eq!(inference[0].label, "Llama-3 70B (vLLM)");

    // (b) A subsequent plain tt-smi frame (no extension) clears both back
    // to None — the accessors reflect the *latest* applied frame only.
    b.shared.set_frame(FRAME.to_string(), 0);
    assert!(b.update().is_ok());
    assert_eq!(b.remote_processes(), None);
    assert_eq!(b.remote_inference(), None);
}

#[test]
fn target_errors_are_exact() {
    for (spec, message) in [
        ("  ", "Initialization failed: --remote requires a HOST:PORT (or HOST)"),
        ("[::1", "Initialization failed: malformed IPv6 remote address: [::1"),
        ("[::1]x", "Initialization failed: malformed remote address: [::1]x"),
        ("[::1]:99999", "Initialization failed: invalid remote port: 99999"),
        ("host:notaport", "Initialization failed: invalid remote port: notaport"),
        ("host:", "Initialization failed: invalid remote port: "),
    ] {
        assert_eq!(split_host_port(spec).unwrap_err().message(), message);
    }
    assert_eq!(split_host_port("[::1]").unwrap(), ("::1".to_string(), 8000));
    assert_eq!(split_host_port(" a:b:9 ").unwrap(), ("a:b".to_string(), 9));
    assert_eq!(split_host_port(":9").unwrap(), (":9".to_string(), 8000));
    assert_eq!(split_host_port("h: 9 ").unwrap(), ("h".to_string(), 9));
}

#[test]
fn no_more_devices_are_kept_than_the_limit() {
    let entry = r#"{"board_info":{"board_type":"p150a"},"telemetry":{"power":"1"},"smbus_telem":{}}"#;
    let frame = format!("{{\"device_info\":[{}]}}", vec![entry; 300].join(","));
    let mut b = WsBackend::new("test", 0);
    b.shared.set_frame(frame.clone(), 0);
    assert!(b.update().is_ok());
    assert_eq!(b.devices().len(), MAX_REMOTE_DEVICES);
    assert_eq!(b.telemetry.len(), MAX_REMOTE_DEVICES);
    assert_eq!(b.smbus.len(), MAX_REMOTE_DEVICES);
    b.shared.set_frame(frame, 0);
    assert!(b.update().is_ok());
    assert_eq!(b.telemetry.len(), MAX_REMOTE_DEVICES);
}

#[test]
fn the_state_of_the_stream_is_shown() {
    let mut b = WsBackend::from_host_port("box:8765", BackendConfig::default()).unwrap();
    assert_eq!(
        b.backend_info(),
        "remote QuietBox @ box:8765 (disconnected, 0 device(s))"
    );
    assert_eq!(b.shared.on_event(WsEvent::Connected, 0), WsAction::Read);
    assert_eq!(
        b.backend_info(),
        "remote QuietBox @ box:8765 (connected, awaiting first frame, 0 device(s))"
    );
    assert_eq!(
        b.shared.on_event(WsEvent::Frame(FRAME.to_string()), 1_000),
        WsAction::Read
    );
    assert!(b.init_step());
    let shared = b.shared.dup();
    b.observe(shared, 6_500);
    assert_eq!(
        b.backend_info(),
        "remote QuietBox @ box:8765 (connected, last frame 5s ago, 1 device(s))"
    );
    let shared = b.shared.dup();
    b.observe(shared, 7_000);
    assert_eq!(
        b.backend_info(),
        "remote QuietBox @ box:8765 (stale, last frame 6s ago, 1 device(s))"
    );
    assert_eq!(b.shared.on_event(WsEvent::Closed, 0), WsAction::Reconnect);
    assert!(!b.shared.connected);
}

#[test]
fn events_note_their_errors() {
    let mut b = WsBackend::new("h", 1);
    assert_eq!(
        b.shared.on_event(WsEvent::ConnectFailed("refused".to_string()), 0),
        WsAction::Reconnect
    );
    assert_eq!(b.shared.last_error.as_deref(), Some("connect error: refused"));
    assert_eq!(
        b.init_timed_out().message(),
        "Initialization failed: WsBackend: timed out connecting to ws://h:1/telemetry (connect error: refused)"
    );
    b.shared.on_event(WsEvent::StreamError("reset".to_string()), 0);
    assert_eq!(b.shared.last_error.as_deref(), Some("stream error: reset"));
    assert_eq!(b.shared.on_event(WsEvent::Other, 0), WsAction::Read);
    assert_eq!(b.shared.on_event(WsEvent::Ended, 0), WsAction::Reconnect);
    assert_eq!(
        WsBackend::new("h", 1).init_timed_out().message(),
        "Initialization failed: WsBackend: timed out connecting to ws://h:1/telemetry (no telemetry frame received)"
    );
    assert!(!b.init_step());
    b.shared.set_frame("junk".to_string(), 0);
    assert!(!b.init_step());
    assert!(b.shared.last_error.as_ref().unwrap().starts_with("frame parse error: Parse error: "));
}

#[test]
fn waits_are_bounded() {
    let with = |ms| WsBackend::with_config("h", 1, BackendConfig::new().with_read_timeout_ms(ms));
    assert_eq!(with(10).init_wait_ms(), 1000);
    assert_eq!(with(4000).init_wait_ms(), 4000);
    assert_eq!(with(10).reconnect_ms(), 500);
    assert_eq!(with(4000).reconnect_ms(), 4000);
    assert_eq!(with(60_000).reconnect_ms(), 5000);
}
