use tt_toplike::backend::json::{parse_json_devices, parse_tt_smi_snapshot, JSONBackend};
use tt_toplike::backend::parts::{parse_smbus_from_json, parse_snapshot};
use tt_toplike::backend::TelemetryBackend;
use tt_toplike::error::BackendError;
use tt_toplike::models::Architecture;

/// The number that a reading denotes.
fn num(s: &Option<String>) -> Option<f32> {
    s.as_ref().map(|t| t.parse().unwrap())
}

// Compact real-world tt-smi snapshot (single device, all key types represented).
const REAL_TTSMI_JSON: &str = r#"{
    "device_info": [{
        "board_info": {
            "board_type": "p300c",
            "bus_id": "0000:04:00.0",
            "coords": "N/A"
        },
        "telemetry": {
            "voltage": "0.72",
            "current": " 23.0",
            "power": " 16.0",
            "aiclk": " 800",
            "asic_temperature": "34.8",
            "fan_speed": " 38",
            "heartbeat": "11540"
        },
        "smbus_telem": {
            "BOARD_ID_HIGH": "0x461",
            "BOARD_ID_LOW": "0x31924062",
            "DDR_STATUS": "0x55555555",
            "DDR_SPEED": "0x3e80",
            "TIMER_HEARTBEAT": "0x10e7a",
            "AICLK": "0x320",
            "AXICLK": "0x3c0",
            "ARCCLK": "0x320",
            "VCORE": "0x2cf",
            "TDP": "0x10",
            "TDC": "0x17",
            "ASIC_TEMPERATURE": "0x22d522",
            "VREG_TEMPERATURE": "0x0",
            "BOARD_TEMPERATURE": "0x0",
            "ETH_FW_VERSION": "0x10900",
            "DM_APP_FW_VERSION": "0x176300",
            "DM_BL_FW_VERSION": "0x0",
            "FLASH_BUNDLE_VERSION": "0x13076300",
            "CM_FW_VERSION": "0x1d6300",
            "FAN_SPEED": "0x0",
            "FAN_RPM": "0x75a",
            "PCIE_USAGE": "0x4",
            "BOARD_POWER_LIMIT": "0x226",
            "THERM_TRIP_COUNT": "0x0",
            "VDD_LIMITS": "0x38402bc",
            "THM_LIMIT_SHUTDOWN": "0x6e",
            "TT_FLASH_VERSION": null
        }
    }]
}"#;

#[test]
fn test_json_backend_creation() {
    let backend = JSONBackend::new("tt-smi");
    assert_eq!(backend.tt_smi_path, "tt-smi");
    assert_eq!(backend.devices.len(), 0);
}

#[test]
fn test_telemetry_string_values_parsed() {
    let backend = JSONBackend::new("");
    let devices = backend.parse_json(REAL_TTSMI_JSON).expect("parse failed");
    assert_eq!(devices.len(), 1);

    let telem = devices[0].telemetry.as_ref().expect("telemetry missing");
    assert_eq!(num(&telem.power), Some(16.0), "power string not parsed");
    assert_eq!(num(&telem.voltage), Some(0.72), "voltage string not parsed");
    assert_eq!(num(&telem.current), Some(23.0), "current string not parsed");
    assert_eq!(num(&telem.asic_temperature),
        Some(34.8),
        "temperature string not parsed"
    );
    assert_eq!(telem.aiclk, Some(800), "aiclk string not parsed");
    assert_eq!(telem.heartbeat, Some(11540), "heartbeat string not parsed");
}

#[test]
fn test_smbus_screaming_snake_case_mapped() {
    let backend = JSONBackend::new("");
    let devices = backend.parse_json(REAL_TTSMI_JSON).expect("parse failed");

    let smbus = devices[0].smbus.as_ref().expect("smbus_telem missing");

    assert_eq!(
        smbus.ddr_status,
        Some("0x55555555".to_string()),
        "DDR_STATUS not mapped"
    );
    assert_eq!(
        smbus.ddr_speed,
        Some("0x3e80".to_string()),
        "DDR_SPEED not mapped"
    );
    assert_eq!(
        smbus.timer_heartbeat,
        Some("0x10e7a".to_string()),
        "TIMER_HEARTBEAT not mapped"
    );
    assert_eq!(smbus.aiclk, Some("0x320".to_string()), "AICLK not mapped");
    assert_eq!(smbus.vcore, Some("0x2cf".to_string()), "VCORE not mapped");
    assert_eq!(
        smbus.board_id_high,
        Some("0x461".to_string()),
        "BOARD_ID_HIGH not mapped"
    );
    assert_eq!(
        smbus.board_id_low,
        Some("0x31924062".to_string()),
        "BOARD_ID_LOW not mapped"
    );
}

#[test]
fn test_parse_smbus_from_json_real_format() {
    let result = parse_smbus_from_json(REAL_TTSMI_JSON);
    assert!(!result.is_empty(), "no SMBUS data extracted");

    let smbus = result.get(&0).expect("device 0 missing");
    assert!(smbus.ddr_status.is_some(), "ddr_status empty after parse");
    assert!(
        smbus.arc0_health.is_some(),
        "arc0_health (TIMER_HEARTBEAT) empty after parse"
    );
    assert!(smbus.aiclk.is_some(), "aiclk empty after parse");
    // board_id must combine HIGH and LOW
    assert!(smbus.board_id.is_some(), "board_id not combined");
    assert!(
        smbus.board_id.as_deref().unwrap().contains('-'),
        "board_id missing separator"
    );
}

#[test]
fn test_ddr_status_hex_bitmask() {
    let result = parse_smbus_from_json(REAL_TTSMI_JSON);
    let smbus = result.get(&0).expect("device 0 missing");
    // 0x55555555 = 8 channels each in state 0x5 (trained) when read as 4-bit groups
    // The raw string is preserved.
    let raw = smbus.ddr_status.as_deref().expect("ddr_status missing");
    assert!(
        raw.starts_with("0x"),
        "ddr_status should be hex string: {}",
        raw
    );
}

// The older formats.
#[test]
fn test_json_parsing_array() {
    let backend = JSONBackend::new("tt-smi");
    let json = r#"[{"index": 0, "board_type": "n150", "telemetry": {"power": 50.0}}]"#;
    let devices = backend.parse_json(json).expect("parse failed");
    assert_eq!(devices.len(), 1);
    assert_eq!(devices[0].board_type, Some("n150".to_string()));
}

#[test]
fn test_json_parsing_wrapper() {
    let backend = JSONBackend::new("tt-smi");
    let json = r#"{"devices": [{"index": 0}, {"index": 1}]}"#;
    let devices = backend.parse_json(json).expect("parse failed");
    assert_eq!(devices.len(), 2);
}

// ── tt-smi 5.2.0 snapshot with firmwares, limits, and new SMBUS fields ────

const TTSMI_52_JSON: &str = r#"{
    "device_info": [{
        "board_info": {
            "board_type": "p150a",
            "bus_id": "0000:01:00.0",
            "coords": "(0,0)"
        },
        "telemetry": {
            "voltage": "0.85",
            "current": "30.0",
            "power": "145.0",
            "aiclk": "800",
            "asic_temperature": "52.0",
            "heartbeat": "1234"
        },
        "smbus_telem": {
            "BOARD_ID_HIGH": "0x461",
            "BOARD_ID_LOW": "0x31924062",
            "DDR_STATUS": "0x55555555",
            "DDR_SPEED": "0x3e80",
            "TIMER_HEARTBEAT": "0x10e7a",
            "AICLK": "0x320",
            "AXICLK": "0x3c0",
            "ARCCLK": "0x320",
            "VCORE": "0x2cf",
            "TDP": "0x10",
            "TDC": "0x17",
            "ASIC_TEMPERATURE": "0x22",
            "VREG_TEMPERATURE": "0x1e",
            "BOARD_TEMPERATURE": "0x1a",
            "ETH_FW_VERSION": "0x10900",
            "DM_APP_FW_VERSION": "0x176300",
            "DM_BL_FW_VERSION": "0x0",
            "FLASH_BUNDLE_VERSION": "0x13076300",
            "CM_FW_VERSION": "0x1d6300",
            "FAN_SPEED": "0x0",
            "FAN_RPM": "0x75a",
            "PCIE_USAGE": "0x4",
            "BOARD_POWER_LIMIT": "0x226",
            "THERM_TRIP_COUNT": "0x0",
            "VDD_LIMITS": "0x38402bc",
            "THM_LIMIT_SHUTDOWN": "0x6e",
            "TT_FLASH_VERSION": null,
            "GDDR_0_1_TEMP": "0x262a2c2c",
            "GDDR_2_3_TEMP": "0x28282a2a",
            "GDDR_4_5_TEMP": "0x24262828",
            "GDDR_6_7_TEMP": "0x22242626",
            "MAX_GDDR_TEMP": "0x2c",
            "HARVESTING_STATE": "0x0",
            "ETH_LIVE_STATUS": "0x00000000000000FF",
            "ENABLED_ETH": "0xFF",
            "ENABLED_GDDR": "0xFF",
            "ENABLED_L2CPU": "0x0",
            "ENABLED_TENSIX_COL": "0x3FFF"
        },
        "firmwares": {
            "fw_bundle_version": "fw_pack-19.9.0",
            "eth_fw": "6.16.0.0",
            "cm_fw": "v80.15.0.0",
            "gddr_fw": "1.37"
        },
        "limits": {
            "tdp_limit": 300.0,
            "tdc_limit": 40.0,
            "asic_fmax": 800,
            "thm_limit": 105.0
        }
    }]
}"#;

#[test]
fn test_52_gddr_temps_parsed() {
    let result = parse_smbus_from_json(TTSMI_52_JSON);
    let smbus = result.get(&0).expect("device 0 missing");
    // GDDR_0_1_TEMP "0x262a2c2c" → bytes LE: 0x2c, 0x2c, 0x2a, 0x26 → [44, 44, 42, 38]
    let pair = smbus.gddr_temps[0].expect("gddr_temps[0] missing");
    assert_eq!(pair.0.map(|t| t as f32 / 1000.0), [44.0_f32, 44.0, 42.0, 38.0]);
    assert!(smbus.max_gddr_temp.is_some());
}

#[test]
fn test_52_eth_live_status_parsed() {
    let result = parse_smbus_from_json(TTSMI_52_JSON);
    let smbus = result.get(&0).expect("device 0 missing");
    assert_eq!(smbus.eth_live_status, Some(0xFF_u64));
}

#[test]
fn test_52_harvesting_state_parsed() {
    let result = parse_smbus_from_json(TTSMI_52_JSON);
    let smbus = result.get(&0).expect("device 0 missing");
    assert_eq!(smbus.harvesting_state, Some(0_u32));
    assert_eq!(smbus.enabled_tensix_col, Some(0x3FFF_u32));
}

#[test]
fn test_52_firmwares_block_parsed() {
    let mut b = JSONBackend::new("");
    let json_devs = b.parse_json(TTSMI_52_JSON).unwrap();
    b.update_from_json(json_devs, 0);
    let dev = &b.devices()[0];
    let fw = dev.firmwares.as_ref().expect("firmwares missing");
    assert_eq!(fw.fw_bundle_version.as_deref(), Some("fw_pack-19.9.0"));
    assert_eq!(fw.eth_fw.as_deref(), Some("6.16.0.0"));
}

#[test]
fn test_52_limits_block_parsed() {
    let mut b = JSONBackend::new("");
    let json_devs = b.parse_json(TTSMI_52_JSON).unwrap();
    b.update_from_json(json_devs, 0);
    let dev = &b.devices()[0];
    let lim = dev.limits.as_ref().expect("limits missing");
    assert_eq!(num(&lim.tdp_limit), Some(300.0_f32));
    assert_eq!(lim.asic_fmax, Some(800_u32));
}

#[test]
fn test_parse_snapshot_meta() {
    // Verify the HybridBackend code path: parse_snapshot() must extract
    // both SMBUS telemetry and firmware/limits metadata in one pass.
    let snap = parse_snapshot(TTSMI_52_JSON);
    // The SMBUS side.
    let smbus = snap.smbus.get(&0).expect("SMBUS for device 0 missing");
    assert!(
        smbus.eth_live_status.is_some(),
        "eth_live_status should be populated"
    );
    // The metadata side.
    let meta = snap.meta.get(&0).expect("meta for device 0 missing");
    let fw = meta.firmwares.as_ref().expect("firmwares should be Some");
    assert_eq!(
        fw.fw_bundle_version.as_deref(),
        Some("fw_pack-19.9.0"),
        "parse_snapshot fw_bundle_version mismatch"
    );
    let lim = meta.limits.as_ref().expect("limits should be Some");
    assert_eq!(num(&lim.tdp_limit),
        Some(300.0_f32),
        "parse_snapshot tdp_limit mismatch"
    );
}

#[test]
fn parse_snapshot_meta_carries_pcie_link_and_board_power() {
    let json = r#"{
        "device_info": [{
            "board_info": {
                "bus_id": "0000:01:00.0", "board_type": "p300c",
                "pcie_speed": 4, "pcie_width": "4"
            },
            "telemetry": {"power": " 16.0", "board_power": " 42.0"}
        }]
    }"#;
    let snap = parse_snapshot(json);
    let meta = snap.meta.get(&0).expect("meta for device 0 missing");
    assert_eq!(
        meta.pcie_speed.as_deref(),
        Some("Gen4"),
        "pcie_speed must be pre-formatted as tt-smi's own \"GenN\" display"
    );
    assert_eq!(meta.pcie_width, Some(4));
    assert_eq!(num(&meta.board_power), Some(42.0));
}

const TTSMI_53_STRING_LIMITS_JSON: &str = r#"{
    "device_info": [{
        "board_info": {
            "board_type": "p300c",
            "bus_id": "0000:01:00.0",
            "coords": "(0,0)"
        },
        "telemetry": {"power": " 16.0", "asic_temperature": "38.4"},
        "firmwares": {
            "fw_bundle_version": "19.11.0.0",
            "tt_flash_version": "N/A",
            "cm_fw": "0.33.0.0",
            "cm_fw_date": "2020-00-33",
            "eth_fw": "1.11.0",
            "dm_bl_fw": "0.0.0.0",
            "dm_app_fw": "0.27.0.0",
            "gddr_fw": "2.16"
        },
        "limits": {
            "vdd_min": "0.70",
            "vdd_max": "0.90",
            "tdp_limit": "125",
            "tdc_limit": "500",
            "asic_fmax": "1350",
            "therm_trip_l1_limit": "90",
            "thm_limit": "110",
            "bus_peak_limit": 0,
            "fan_rpm_limit": 0
        }
    }]
}"#;

#[test]
fn json_path_parses_tt_smi_53_string_limits() {
    let parsed =
        parse_tt_smi_snapshot(TTSMI_53_STRING_LIMITS_JSON).expect("live snapshot must parse");
    let dev = &parsed.devices[0];
    let lim = dev
        .limits
        .as_ref()
        .expect("string-valued limits block must reach Device::limits");
    assert_eq!(num(&lim.tdp_limit), Some(125.0));
    assert_eq!(num(&lim.tdc_limit), Some(500.0));
    assert_eq!(lim.asic_fmax, Some(1350));
    assert_eq!(num(&lim.thm_limit), Some(90.0));
    // The firmwares block (all-string on real hardware) must survive too.
    assert_eq!(
        dev.firmwares
            .as_ref()
            .and_then(|f| f.fw_bundle_version.as_deref()),
        Some("19.11.0.0")
    );
}

#[test]
fn parse_snapshot_meta_parses_tt_smi_53_string_limits() {
    let snap = parse_snapshot(TTSMI_53_STRING_LIMITS_JSON);
    let meta = snap.meta.get(&0).expect("meta for device 0 missing");
    let lim = meta
        .limits
        .as_ref()
        .expect("string-valued limits block must reach DeviceMeta::limits");
    assert_eq!(num(&lim.tdp_limit), Some(125.0));
    assert_eq!(num(&lim.tdc_limit), Some(500.0));
    assert_eq!(lim.asic_fmax, Some(1350));
    assert_eq!(num(&lim.thm_limit), Some(90.0));
}

#[test]
fn test_parse_tt_smi_snapshot_full_triad() {
    let parsed = parse_tt_smi_snapshot(TTSMI_52_JSON).expect("parse failed");

    // One device, with architecture derived from board_type.
    assert_eq!(parsed.devices.len(), 1);
    let dev = &parsed.devices[0];
    assert_eq!(dev.index, 0);
    assert_eq!(dev.board_type, "p150a");
    assert_eq!(dev.architecture, Architecture::Blackhole);
    // Firmwares/limits decoded onto the device.
    assert_eq!(
        dev.firmwares.as_ref().and_then(|f| f.eth_fw.as_deref()),
        Some("6.16.0.0")
    );
    assert_eq!(dev.limits.as_ref().and_then(|l| l.asic_fmax), Some(800));

    // Core telemetry populated (values arrive as quoted strings in tt-smi).
    let telem = parsed.telemetry.get(&0).expect("telemetry missing");
    assert_eq!(num(&telem.power), Some(145.0));
    assert_eq!(num(&telem.asic_temperature), Some(52.0));
    assert_eq!(telem.aiclk, Some(800));

    // SMBUS telemetry populated.
    let smbus = parsed.smbus.get(&0).expect("smbus missing");
    assert_eq!(smbus.eth_live_status, Some(0xFF_u64));
    assert_eq!(smbus.enabled_tensix_col, Some(0x3FFF_u32));
}

#[test]
fn test_parse_tt_smi_snapshot_bad_json_errors() {
    assert!(parse_tt_smi_snapshot("not json at all").is_err());
}

#[test]
fn test_snapshot_json_returns_last_raw_after_update() {
    let mut backend = JSONBackend::new("tt-smi");
    assert_eq!(
        backend.snapshot_json(),
        None,
        "snapshot_json should be None before any successful update"
    );

    backend
        .apply_raw_snapshot(REAL_TTSMI_JSON.to_string())
        .expect("apply_raw_snapshot should succeed on well-formed JSON");

    assert_eq!(
        backend.snapshot_json(),
        Some(REAL_TTSMI_JSON.to_string()),
        "snapshot_json must return the exact raw tt-smi JSON byte-identical"
    );
}

#[test]
fn test_snapshot_json_unchanged_on_parse_error() {
    let mut backend = JSONBackend::new("tt-smi");

    backend
        .apply_raw_snapshot(REAL_TTSMI_JSON.to_string())
        .expect("first apply should succeed");
    assert_eq!(backend.snapshot_json(), Some(REAL_TTSMI_JSON.to_string()));

    // A bad frame errors and must not overwrite the last good snapshot.
    assert!(backend.apply_raw_snapshot("not json at all".to_string()).is_err());
    assert_eq!(
        backend.snapshot_json(),
        Some(REAL_TTSMI_JSON.to_string()),
        "a failed parse must not clobber the last known-good snapshot"
    );
}

#[test]
fn board_info_pcie_and_dram_fields_parse() {
    // pcie_speed is a bare NUMBER and pcie_width a STRING in real
    // tt-smi 5.3.0 output — both shapes must parse.
    let json = r#"{
        "device_info": [{
            "board_info": {
                "bus_id": "0000:01:00.0", "board_type": "p300c", "coords": "N/A",
                "dram_status": true, "dram_speed": "16G",
                "pcie_speed": 4, "pcie_width": "4"
            },
            "telemetry": {"power": " 16.0"}
        }]
    }"#;
    let parsed = parse_tt_smi_snapshot(json).unwrap();
    let dev = &parsed.devices[0];
    assert_eq!(dev.pcie_speed.as_deref(), Some("Gen4"));
    assert_eq!(dev.pcie_width, Some(4));
}

#[test]
fn fan_rpm_used_when_fan_speed_absent() {
    // tt-smi 5.3.0 changed fan semantics to RPM; a source that only
    // populates FAN_RPM must still drive the fan row.
    let json = r#"{
        "device_info": [{
            "board_info": {"bus_id": "0000:01:00.0", "board_type": "p150a"},
            "smbus_telem": {"FAN_RPM": "0xbb8"}
        }]
    }"#;
    let parsed = parse_tt_smi_snapshot(json).unwrap();
    let smbus = parsed.smbus.get(&0).unwrap();
    assert_eq!(smbus.fan_rpm(), Some(3000)); // 0xbb8
}

#[test]
fn fan_rpm_wins_when_fan_speed_is_sentinel_zero() {
    let result = parse_smbus_from_json(REAL_TTSMI_JSON);
    let smbus = result.get(&0).expect("device 0 missing");
    assert_eq!(
        smbus.fan_rpm(),
        Some(1882),
        "FAN_RPM=0x75a must win over the FAN_SPEED=0x0 sentinel"
    );
}

#[test]
fn fan_speed_wins_when_real_and_fan_rpm_absent() {
    let json = r#"{
        "device_info": [{
            "board_info": {"bus_id": "0000:01:00.0", "board_type": "n300"},
            "smbus_telem": {"FAN_SPEED": "0x9c4"}
        }]
    }"#;
    let parsed = parse_tt_smi_snapshot(json).unwrap();
    let smbus = parsed.smbus.get(&0).unwrap();
    assert_eq!(smbus.fan_rpm(), Some(2500)); // 0x9c4
}

#[test]
fn both_fan_fields_sentinel_yields_none() {
    let json = r#"{
        "device_info": [{
            "board_info": {"bus_id": "0000:01:00.0", "board_type": "p150a"},
            "smbus_telem": {"FAN_SPEED": "0x0", "FAN_RPM": "0xffffffff"}
        }]
    }"#;
    let parsed = parse_tt_smi_snapshot(json).unwrap();
    let smbus = parsed.smbus.get(&0).unwrap();
    assert_eq!(smbus.fan_speed, None, "sentinels must not be stored");
    assert_eq!(smbus.fan_rpm(), None);
}

#[test]
fn test_old_format_still_parses_ok() {
    // A pre-5.2 snapshot (no GDDR fields) must still parse without error.
    let result = parse_smbus_from_json(REAL_TTSMI_JSON);
    let smbus = result.get(&0).expect("device 0 missing");
    assert!(
        smbus.gddr_temps.iter().all(|t| t.is_none()),
        "old format should leave gddr_temps as None"
    );
}

#[test]
fn test_parse_error_truncation_is_char_boundary_safe() {
    // 99 ASCII bytes, then a 4-byte emoji straddling byte offset 100.
    let mut junk = "x".repeat(99);
    junk.push('🚀'); // bytes 99..103; a fixed byte-slice at 100 splits it
    junk.push_str(" not json");

    let err = parse_json_devices(&junk).map(|_| ()).expect_err("garbage must fail to parse");
    // Message is produced without panicking and carries the char-truncated tail.
    assert!(matches!(err, BackendError::ParseError(_)));
}

#[test]
fn tt_smi_6_processes_and_board_power_parse() {
    let json = r#"{
        "time": "2026-08-10T15:00:00",
        "processes": [
            {"pid": 4242, "user": "ttuser", "device": 0, "cmdline": "python -m vllm serve"},
            {"pid": 4243, "device": 1}
        ],
        "device_info": [{
            "board_info": {"bus_id": "0000:01:00.0", "board_type": "p300c"},
            "telemetry": {"power": " 16.0", "board_power": " 42.0"}
        }]
    }"#;
    let parsed = parse_tt_smi_snapshot(json).unwrap();
    assert_eq!(parsed.processes.len(), 2);
    assert_eq!(parsed.processes[0].pid, Some(4242));
    assert_eq!(
        parsed.processes[0].cmdline.as_deref(),
        Some("python -m vllm serve")
    );
    assert_eq!(parsed.processes[1].user, None); // exclude_none omits fields
    let t = parsed.telemetry.get(&0).unwrap();
    assert_eq!(num(&t.power), Some(16.0));
    assert_eq!(num(&t.board_power), Some(42.0));
}

#[test]
fn snapshots_without_processes_parse_as_empty() {
    let json = r#"{"device_info": [{"board_info": {"bus_id": "x", "board_type": "p150a"}}]}"#;
    let parsed = parse_tt_smi_snapshot(json).unwrap();
    assert!(parsed.processes.is_empty());
}

#[test]
fn string_typed_pid_in_processes_does_not_collapse_device_list() {
    let json = r#"{
        "device_info": [
            {
                "board_info": {"bus_id": "0000:01:00.0", "board_type": "p150a"},
                "telemetry": {"power": " 16.0", "asic_temperature": " 41.5"}
            },
            {
                "board_info": {"bus_id": "0000:02:00.0", "board_type": "p150a"},
                "telemetry": {"power": " 22.0", "asic_temperature": " 44.0"}
            }
        ],
        "processes": [
            {"pid": "4242", "user": "ttuser", "device": "1", "cmdline": "python -m vllm serve"}
        ]
    }"#;
    let parsed = parse_tt_smi_snapshot(json).expect("snapshot must parse");

    assert_eq!(parsed.devices.len(), 2, "both devices must survive");
    assert_eq!(parsed.devices[0].bus_id, "0000:01:00.0");
    assert_eq!(parsed.devices[1].bus_id, "0000:02:00.0");
    assert_eq!(parsed.telemetry.get(&0).and_then(|t| num(&t.power)), Some(16.0));
    assert_eq!(parsed.telemetry.get(&1).and_then(|t| num(&t.power)), Some(22.0));

    // The tolerant DeviceProcess deserializers also let the row itself
    // through, so nothing is lost — but even an empty list would be fine
    // here; what matters is that the devices are intact.
    assert_eq!(parsed.processes.len(), 1);
    assert_eq!(parsed.processes[0].pid, Some(4242));
    assert_eq!(parsed.processes[0].device, Some(1));
}

#[test]
fn object_shaped_processes_block_does_not_harm_devices() {
    let json = r#"{
        "device_info": [
            {"board_info": {"bus_id": "0000:01:00.0"}, "telemetry": {"power": " 16.0"}},
            {"board_info": {"bus_id": "0000:02:00.0"}, "telemetry": {"power": " 22.0"}}
        ],
        "processes": {"4242": {"device": 0}}
    }"#;
    let parsed = parse_tt_smi_snapshot(json).expect("snapshot must parse");
    assert_eq!(parsed.devices.len(), 2);
    assert_eq!(parsed.telemetry.get(&1).and_then(|t| num(&t.power)), Some(22.0));
    assert!(
        parsed.processes.is_empty(),
        "a non-array processes block yields no rows"
    );
}

#[test]
fn malformed_device_entry_is_skipped_not_collapsed() {
    let json = r#"{
        "device_info": [
            {"board_info": {"bus_id": "0000:01:00.0"}, "telemetry": true},
            {"board_info": {"bus_id": "0000:02:00.0"}, "telemetry": {"power": " 22.0"}}
        ]
    }"#;
    let parsed = parse_tt_smi_snapshot(json).expect("snapshot must salvage");
    assert_eq!(parsed.devices.len(), 1, "only the bad entry is dropped");
    assert_eq!(parsed.devices[0].index, 1, "array position is preserved");
    assert_eq!(parsed.devices[0].bus_id, "0000:02:00.0");
    assert_eq!(parsed.telemetry.get(&1).and_then(|t| num(&t.power)), Some(22.0));
    assert!(
        parsed.telemetry.get(&0).is_none(),
        "no telemetry may be attributed to the dropped card's index"
    );
}

#[test]
fn waits_double_after_repeated_failures() {
    let mut backend = JSONBackend::new("tt-smi");
    let waits: Vec<u64> = (0..8).map(|_| backend.note_failure()).collect();
    assert_eq!(waits, vec![0, 200, 400, 800, 1600, 3200, 3200, 3200]);
    assert_eq!(backend.error_count, 8);
    assert!(backend.apply_raw_snapshot(r#"{"device_info":[{}]}"#.to_string()).is_ok());
    assert_eq!(backend.error_count, 0);
}

#[test]
fn a_start_without_devices_is_an_error() {
    let mut backend = JSONBackend::new("tt-smi");
    assert_eq!(
        backend.init_from(r#"{"device_info":[]}"#).unwrap_err().message(),
        "Device not found: No devices found from tt-smi output"
    );
    assert_eq!(
        backend.init_from("junk").unwrap_err().message(),
        "Parse error: Failed to parse JSON output: junk"
    );
    assert!(backend.init_from(r#"{"device_info":[{}]}"#).is_ok());
    assert_eq!(backend.device_count(), 1);
    assert!(backend.snapshot_json().is_none());
    assert_eq!(backend.backend_info(), "JSON (1 via tt-smi)");
}

#[test]
fn devices_stay_and_readings_are_replaced() {
    let mut backend = JSONBackend::new("tt-smi");
    let frame = |power: &str| {
        format!(
            r#"{{"device_info":[{{"telemetry":{{"power":"{}"}},"smbus_telem":{{}}}}],"processes":[{{"pid":7}}]}}"#,
            power
        )
    };
    backend.apply_raw_snapshot(frame("1.5")).unwrap();
    assert!(backend.has_telemetry(0) && backend.has_smbus_telemetry(0));
    assert!(!backend.has_smbus_telemetry(1));
    assert_eq!(backend.device_processes()[0].pid, Some(7));
    backend.apply_raw_snapshot(r#"{"device_info":[]}"#.to_string()).unwrap();
    assert_eq!(backend.device_count(), 1);
    assert!(backend.device_processes().is_empty());
    backend.apply_raw_snapshot(frame("2.5")).unwrap();
    assert_eq!(backend.device_count(), 1);
    assert_eq!(backend.telemetry(0).unwrap().power.as_deref(), Some("2.5"));
}

#[test]
fn entries_without_an_address_get_one_by_position() {
    let parsed = parse_tt_smi_snapshot(
        r#"{"device_info":[{},{"board_info":{"board_type":"n150"}},{},{},{}]}"#,
    )
    .unwrap();
    assert_eq!(parsed.devices[1].bus_id, "0000:02:00.0");
    assert_eq!(parsed.devices[1].architecture, Architecture::Wormhole);
    assert_eq!(parsed.devices[0].coords, "(0,0)");
    assert_eq!(parsed.devices[4].coords, "(1,0)");
    assert_eq!(parsed.devices[4].index, 4);
}
