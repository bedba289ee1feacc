use tt_toplike::backend::mock::MockBackend;
use tt_toplike::backend::remote_ext::{
    inject_extension, RemoteInference, RemoteProc, TtToplikeExt, TT_TOPLIKE_SCHEMA,
};
use tt_toplike::backend::ws::WsBackend;
use tt_toplike::backend::{BackendConfig, TelemetryBackend};
use tt_toplike::error::{BackendError, TTTopError};
use tt_toplike::{version_banner, NAME, VERSION};

#[test]
fn test_version_info() {
    assert!(!VERSION.is_empty());
    assert!(!NAME.is_empty());
    let banner = version_banner();
    assert!(banner.contains(NAME));
    assert!(banner.contains(VERSION));
}

#[test]
fn the_banner_is_exact() {
    assert_eq!(version_banner(), format!("🦀 {} v{}", NAME, VERSION));
}

#[test]
fn test_backend_config_default() {
    let config = BackendConfig::default();
    assert_eq!(config.update_interval_ms, 100);
    assert_eq!(config.max_consecutive_errors, 10);
    assert_eq!(config.read_timeout_ms, 5000);
    assert!(!config.verbose);
}

#[test]
fn test_backend_config_builder() {
    let config = BackendConfig::new()
        .with_interval(50)
        .with_max_errors(20)
        .verbose();

    assert_eq!(config.update_interval_ms, 50);
    assert_eq!(config.max_consecutive_errors, 20);
    assert!(config.verbose);
    assert_eq!(config.with_read_timeout_ms(7).read_timeout_ms, 7);
}

#[test]
fn test_remote_accessors_default_to_none() {
    let mock = MockBackend::new(1);
    assert_eq!(mock.remote_processes(), None);
    assert_eq!(mock.remote_inference(), None);
}

#[test]
fn test_boxed_backend_forwards_remote_accessors() {
    const MINIMAL_FRAME: &str = r#"{
        "device_info": [{
            "board_info": { "board_type": "p150a", "bus_id": "0000:01:00.0", "coords": "(0,0)" },
            "telemetry": { "voltage": "0.85", "current": "30.0", "power": "145.0",
                "aiclk": "800", "asic_temperature": "52.0", "heartbeat": "1234" },
            "smbus_telem": { "DDR_STATUS": "0x55555555" }
        }]
    }"#;
    let ext = TtToplikeExt {
        schema: TT_TOPLIKE_SCHEMA,
        processes: Some(vec![RemoteProc {
            pid: 1,
            name: "p".into(),
            cmd: "p".into(),
            uses_tt: true,
            cpu_pct: "1.0".into(),
            mem_bytes: 1,
        }]),
        inference: Some(vec![RemoteInference {
            key: "k".into(),
            label: "L".into(),
            phase: "ready".into(),
            progress: None,
            serving: None,
        }]),
    };
    let frame = inject_extension(MINIMAL_FRAME, &ext);

    let mut ws = WsBackend::new("test", 0);
    ws.shared.set_frame(frame, 0);
    assert!(ws.update().is_ok());
    assert!(ws.remote_processes().is_some());

    let boxed: Box<dyn TelemetryBackend> = Box::new(ws);
    assert_eq!(boxed.remote_processes().expect("processes").len(), 1);
    assert_eq!(boxed.remote_inference().expect("inference").len(), 1);
}

#[test]
fn error_texts_are_exact() {
    let d = || "x".to_string();
    for (e, m) in [
        (BackendError::Initialization(d()), "Initialization failed: x"),
        (BackendError::SubprocessFailed(d()), "Subprocess error: x"),
        (BackendError::DeviceNotFound(d()), "Device not found: x"),
        (BackendError::TelemetryFailed(d()), "Telemetry read failed: x"),
        (BackendError::DriverError(d()), "Driver error: x"),
        (BackendError::Timeout(1500), "Timeout waiting for telemetry (waited 1500ms)"),
        (BackendError::InvalidData(d()), "Invalid telemetry data: x"),
        (BackendError::ParseError(d()), "Parse error: x"),
        (BackendError::Update(d()), "Update failed: x"),
    ] {
        assert_eq!(e.message(), m);
    }
    assert_eq!(TTTopError::Io(d()).message(), "IO error: x");
    assert_eq!(TTTopError::Json(d()).message(), "JSON error: x");
    assert_eq!(
        TTTopError::Backend(BackendError::Update(d())).message(),
        "Backend error: Update failed: x"
    );
    assert_eq!(TTTopError::Terminal(d()).message(), "Terminal error: x");
    assert_eq!(TTTopError::Config(d()).message(), "Configuration error: x");
    assert_eq!(TTTopError::Other(d()).message(), "x");
}
