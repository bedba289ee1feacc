use tt_toplike::backend::remote_ext::{parse_extension, TtToplikeExt, TT_TOPLIKE_SCHEMA};
use tt_toplike::backend::serve::{
    build_frame, check_snapshot, check_telemetry_path, Publication,
};

#[test]
fn only_telemetry_is_served() {
    assert!(check_telemetry_path("/telemetry").is_ok());
    assert_eq!(
        check_telemetry_path("/other").unwrap_err(),
        "tt-toplike telemetry publisher only serves /telemetry (got /other)"
    );
    assert!(check_telemetry_path("/telemetry/").is_err());
}

#[test]
fn a_backend_without_a_snapshot_cannot_be_published() {
    assert!(check_snapshot(&Some("{}".to_string())).is_ok());
    assert!(check_snapshot(&None)
        .unwrap_err()
        .starts_with("--serve needs the json or hybrid backend"));
}

#[test]
fn frames_carry_the_extension() {
    let ext = TtToplikeExt {
        schema: TT_TOPLIKE_SCHEMA,
        processes: Some(Vec::new()),
        inference: Some(Vec::new()),
    };
    let frame = build_frame(Some("{\"device_info\":[]}".to_string()), &ext);
    assert_eq!(parse_extension(&frame), Some(ext));
    let ext = TtToplikeExt { schema: TT_TOPLIKE_SCHEMA, processes: None, inference: None };
    assert_eq!(build_frame(None, &ext), "");
    assert_eq!(build_frame(Some("junk".to_string()), &ext), "junk");
}

#[test]
fn late_clients_get_the_newest_frame() {
    let mut p = Publication::new();
    assert_eq!(p.connect(), None);
    assert_eq!(p.client_count(), 1);
    p.broadcast("one".to_string());
    p.broadcast("two".to_string());
    assert_eq!(p.current().as_deref(), Some("two"));
    assert_eq!(p.connect().as_deref(), Some("two"));
    assert_eq!(p.client_count(), 2);
    p.disconnect();
    p.disconnect();
    p.disconnect();
    assert_eq!(p.client_count(), 0);
    p.broadcast(String::new());
    assert_eq!(p.current(), None);
}
