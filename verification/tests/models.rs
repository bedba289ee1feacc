use tt_toplike::models::{
    fw_bundle_version_string, parse_hex_or_dec, parse_hex_or_dec_64, real_fan_rpm, reading_text,
    thm_limit_shutdown_c, unpack_gddr_temps, Architecture, Device, GddrTempPair, SmbusTelemetry,
};

#[test]
fn board_types_name_architectures() {
    assert_eq!(Architecture::from_board_type("e150"), Architecture::Grayskull);
    assert_eq!(Architecture::from_board_type("n300"), Architecture::Wormhole);
    assert_eq!(Architecture::from_board_type("P150a"), Architecture::Blackhole);
    assert_eq!(Architecture::from_board_type("cpu-0"), Architecture::Unknown);
    assert_eq!(Architecture::from_board_type(""), Architecture::Unknown);
}

#[test]
fn architectures_have_their_grids_and_channels() {
    let device = |board: &str| {
        Device::new(0, board.to_string(), "0000:01:00.0".to_string(), "(0,0)".to_string())
    };
    assert_eq!(device("e150").tensix_grid(), (10, 12));
    assert_eq!(device("n150").tensix_grid(), (8, 10));
    assert_eq!(device("p150").tensix_grid(), (14, 16));
    assert_eq!(device("e150").memory_channels(), 4);
    assert_eq!(device("n150").memory_channels(), 8);
    assert_eq!(device("p150").memory_channels(), 12);
    let mut other = device("cpu-0");
    assert_eq!((other.tensix_grid(), other.memory_channels()), ((0, 0), 0));
    other.grid_override = Some((2, 3));
    other.channels_override = Some(4);
    assert_eq!((other.tensix_grid(), other.memory_channels()), ((2, 3), 4));
}

#[test]
fn registers_are_read_in_both_bases() {
    assert_eq!(parse_hex_or_dec(" 0x1F \n"), Some(31));
    assert_eq!(parse_hex_or_dec("0XfF"), Some(255));
    assert_eq!(parse_hex_or_dec("255"), Some(255));
    assert_eq!(parse_hex_or_dec("+7"), Some(7));
    assert_eq!(parse_hex_or_dec("4294967295"), Some(u32::MAX));
    assert_eq!(parse_hex_or_dec("4294967296"), None);
    assert_eq!(parse_hex_or_dec("0x"), None);
    assert_eq!(parse_hex_or_dec(""), None);
    assert_eq!(parse_hex_or_dec("-1"), None);
    assert_eq!(parse_hex_or_dec_64("0xFFFFFFFFFFFFFFFF"), Some(u64::MAX));
    assert_eq!(parse_hex_or_dec_64("0x10000000000000000"), None);
}

#[test]
fn fan_sentinels_are_no_speeds() {
    assert_eq!(real_fan_rpm("0x75A"), Some(1882));
    assert_eq!(real_fan_rpm("0"), None);
    assert_eq!(real_fan_rpm("65535"), None);
    assert_eq!(real_fan_rpm("0xFFFFFFFF"), None);
    assert_eq!(real_fan_rpm("fast"), None);
}

#[test]
fn packed_registers_are_unpacked() {
    assert_eq!(
        unpack_gddr_temps("0x2A292827"),
        Some(GddrTempPair([39_000, 40_000, 41_000, 42_000]))
    );
    assert_eq!(unpack_gddr_temps("hot"), None);
    assert_eq!(fw_bundle_version_string(0x130b_0002), "19.11.0.2");
    assert_eq!(thm_limit_shutdown_c(0x0053_005a, Architecture::Wormhole), 90);
    assert_eq!(thm_limit_shutdown_c(90, Architecture::Blackhole), 90);
}

#[test]
fn readings_keep_their_digits() {
    assert_eq!(reading_text(" 0x10 ").as_deref(), Some("16"));
    assert_eq!(reading_text(" 16.50").as_deref(), Some("16.50"));
    assert_eq!(reading_text("1e3").as_deref(), Some("1e3"));
    assert_eq!(reading_text("0x1g"), None);
    assert_eq!(reading_text("n/a"), None);
}

#[test]
fn a_heart_that_beats_is_healthy() {
    let with = |h: Option<&str>| SmbusTelemetry {
        arc0_health: h.map(str::to_string),
        ..SmbusTelemetry::default()
    };
    assert!(with(Some("0x10e7a")).is_arc0_healthy());
    assert!(!with(Some("0")).is_arc0_healthy());
    assert!(!with(Some("beat")).is_arc0_healthy());
    assert!(!with(None).is_arc0_healthy());
}
