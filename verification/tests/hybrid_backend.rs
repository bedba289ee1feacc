use std::collections::HashMap;

use tt_toplike::backend::hybrid::{
    poll_step, publish_snapshot, rekey_snapshot_by_bus_id, sysfs_init_failed, HybridBackend,
    Published, SmiRun, BOARD_POWER_MAX_AGE_NS,
};
use tt_toplike::backend::parts::{normalize_bus_id, parse_snapshot};
use tt_toplike::backend::pcie_counters::PcieBandwidth;
use tt_toplike::backend::smbus_smooth::Smoothed;
use tt_toplike::backend::{BackendConfig, TelemetryBackend};
use tt_toplike::error::BackendError;
use tt_toplike::maps::TextMap;
use tt_toplike::models::{Device, SmbusTelemetry, Telemetry};

const SECOND: u64 = 1_000_000_000;

/// The number that a reading denotes.
fn num(s: &Option<String>) -> Option<f32> {
    s.as_ref().map(|t| t.parse().unwrap())
}

/// A tick without files to read: the averages, then the update.
fn tick(backend: &mut HybridBackend, now_ns: u64) {
    let mut results: HashMap<usize, Vec<Option<Smoothed>>> = HashMap::new();
    for (idx, inputs) in backend.smoothing_work() {
        let smoothed = inputs
            .iter()
            .map(|input| {
                input.as_ref().map(|i| {
                    let t = i.reading.trim();
                    let v = match t.strip_prefix("0x") {
                        Some(hex) => u64::from_str_radix(hex, 16).unwrap() as f64,
                        None => t.parse().unwrap(),
                    };
                    let avg = match i.previous {
                        Some(bits) => 0.25 * v + 0.75 * f64::from_bits(bits),
                        None => v,
                    };
                    Smoothed {
                        accumulator: avg.to_bits(),
                        whole: avg.round() as i64,
                        hundredths: format!("{:.2}", avg),
                    }
                })
            })
            .collect();
        results.insert(idx, smoothed);
    }
    backend.update(&results, now_ns);
}

#[test]
fn test_hybrid_backend_creation() {
    let backend = HybridBackend::new("tt-smi");
    assert_eq!(backend.tt_smi_path, "tt-smi");
    assert!(backend.smbus_blended.is_empty());
    assert!(backend.smbus_ema.is_empty());
}

#[test]
fn test_hybrid_backend_with_config() {
    let config = BackendConfig::default().with_interval(50);
    let backend = HybridBackend::with_config("tt-smi", config);
    assert_eq!(backend.tt_smi_path, "tt-smi");
    assert_eq!(backend.sysfs.config.update_interval_ms, 100);
}

#[test]
fn test_ema_applied_on_new_generation() {
    let mut backend = HybridBackend::new("tt-smi");

    let mut fresh: HashMap<usize, SmbusTelemetry> = HashMap::new();
    for i in 0..2 {
        fresh.insert(
            i,
            SmbusTelemetry {
                arc0_health: Some("100".to_owned()),
                board_id: Some(format!("board-{}", i)),
                ..SmbusTelemetry::default()
            },
        );
    }
    backend.adopt(Published { smbus: Some(fresh), meta: None }, 0);
    tick(&mut backend, 0);

    // Both devices should appear in blended.
    assert_eq!(backend.smbus_blended.len(), 2);
    // board_id is discrete: copied verbatim.
    assert_eq!(backend.smbus_blended[&0].board_id.as_deref(), Some("board-0"));
    // arc0_health is numeric: the first reading has no average before it.
    assert_eq!(backend.smbus_blended[&0].arc0_health.as_deref(), Some("100"));
}

#[test]
fn test_snapshot_json_relays_reader_thread_deposit() {
    let mut backend = HybridBackend::new("tt-smi");
    assert_eq!(
        backend.snapshot_json(),
        None,
        "no background poll has completed yet"
    );

    let raw = r#"{"device_info": [{"board_info": {"board_type": "p150a"}}]}"#;
    backend.last_raw = Some(raw.to_string());

    assert_eq!(
        backend.snapshot_json(),
        Some(raw.to_string()),
        "snapshot_json must relay the exact raw tt-smi output"
    );
}

#[test]
fn test_smbus_falls_back_to_sysfs_without_tt_smi() {
    let mut backend = HybridBackend::new("tt-smi");

    backend.sysfs.smbus_cache.insert(
        0,
        SmbusTelemetry {
            aiclk: Some("800".to_string()),
            fan_speed: Some("2100".to_string()),
            arc0_health: Some("43874".to_string()), // tt_heartbeat
            ..SmbusTelemetry::default()
        },
    );

    // No tt-smi record ever arrived, so the blend is empty.
    assert!(backend.smbus_blended.is_empty());

    let smbus = backend
        .smbus_telemetry(0)
        .expect("sysfs-synthesized SMBUS must be visible through Hybrid");
    assert_eq!(smbus.aiclk.as_deref(), Some("800"));
    assert_eq!(smbus.fan_rpm(), Some(2100));
    assert_eq!(smbus.arc0_health.as_deref(), Some("43874"));

    // Unknown device index is still None on both paths.
    assert!(backend.smbus_telemetry(9).is_none());
}

#[test]
fn test_json_blend_wins_over_sysfs_smbus() {
    let mut backend = HybridBackend::new("tt-smi");
    backend.sysfs.smbus_cache.insert(
        0,
        SmbusTelemetry {
            aiclk: Some("111".to_string()),
            ..SmbusTelemetry::default()
        },
    );
    backend.smbus_blended.insert(
        0,
        SmbusTelemetry {
            aiclk: Some("800".to_string()),
            ddr_status: Some("0x55555555".to_string()),
            ..SmbusTelemetry::default()
        },
    );
    let smbus = backend.smbus_telemetry(0).unwrap();
    assert_eq!(smbus.aiclk.as_deref(), Some("800"));
    assert_eq!(smbus.ddr_status.as_deref(), Some("0x55555555"));
}

#[test]
fn tt_smi_records_join_sysfs_devices_by_bus_id_not_position() {

    let mut backend = HybridBackend::new("tt-smi");

    // Four cards visible via sysfs, indices assigned in bus-id order.
    for (idx, bus) in [
        "0000:01:00.0",
        "0000:02:00.0",
        "0000:03:00.0",
        "0000:04:00.0",
    ]
    .iter()
    .enumerate()
    {
        backend.sysfs.devices.push(Device::new(
            idx,
            "p150a".to_string(),
            bus.to_string(),
            String::new(),
        ));
        backend.sysfs.telemetry_cache.insert(
            idx,
            Telemetry {
                power: Some(format!("{:.1}", 20.0 + idx as f32)),
                current: None,
                voltage: Some("0.72".to_string()),
                asic_temperature: Some("40.0".to_string()),
                aiclk: None,
                heartbeat: None,
                timestamp_ms: 0,
                board_power: None,
            },
        );
    }
    backend.join_devices();
    assert_eq!(backend.bus_to_index.len(), 4);

    // tt-smi reports only the 2nd and 4th card — note the *uppercase* hex in
    // one bus id, which the normalized join key handles.
    let json = r#"{
        "device_info": [
            {
                "board_info": {"bus_id": "0000:02:00.0", "board_type": "p150a",
                               "pcie_speed": 4, "pcie_width": "16"},
                "telemetry": {"power": " 21.0", "board_power": " 55.0"},
                "smbus_telem": {"BOARD_ID_LOW": "0xCARD02", "AICLK": "800"}
            },
            {
                "board_info": {"bus_id": "0000:04:00.0", "board_type": "p150a",
                               "pcie_speed": 5, "pcie_width": "8"},
                "telemetry": {"power": " 23.0", "board_power": " 77.0"},
                "smbus_telem": {"BOARD_ID_LOW": "0xCARD04", "AICLK": "1000"}
            }
        ]
    }"#;
    let published = publish_snapshot(json, &backend.bus_to_index);
    backend.adopt(published, SECOND);
    tick(&mut backend, SECOND);

    // ── SMBUS lands on the right cards ────────────────────────────────────
    assert_eq!(
        backend
            .smbus_telemetry(1)
            .and_then(|s| s.board_id.as_deref()),
        Some("0xCARD02"),
        "the 0000:02:00.0 record must land on sysfs device 1"
    );
    assert_eq!(
        backend
            .smbus_telemetry(3)
            .and_then(|s| s.board_id.as_deref()),
        Some("0xCARD04"),
        "the 0000:04:00.0 record must land on sysfs device 3"
    );
    assert!(
        backend.smbus_telemetry(0).is_none(),
        "device 0 was absent from the snapshot — it must have no SMBUS, \
         not device 1's"
    );
    assert!(backend.smbus_telemetry(2).is_none(), "same for device 2");

    // ── PCIe link geometry follows the same join ──────────────────────────
    let devices = backend.devices();
    assert_eq!(devices[1].pcie_speed.as_deref(), Some("Gen4"));
    assert_eq!(devices[1].pcie_width, Some(16));
    assert_eq!(devices[3].pcie_speed.as_deref(), Some("Gen5"));
    assert_eq!(devices[3].pcie_width, Some(8));
    assert!(devices[0].pcie_speed.is_none() && devices[2].pcie_speed.is_none());

    // ── board_power overlay (applied every tick) follows it too ───────────
    assert_eq!(backend.telemetry(1).and_then(|t| num(&t.board_power)), Some(55.0));
    assert_eq!(backend.telemetry(3).and_then(|t| num(&t.board_power)), Some(77.0));
    assert!(
        backend.telemetry(0).and_then(|t| num(&t.board_power)).is_none(),
        "board power must not shift onto a card tt-smi never reported"
    );
    assert!(backend.telemetry(2).and_then(|t| num(&t.board_power)).is_none());
}

#[test]
fn snapshot_entries_without_bus_id_fall_back_to_positional_join() {
    let mut bus_to_index: TextMap<usize> = TextMap::new();
    bus_to_index.insert("0000:01:00.0".to_string(), 0);
    bus_to_index.insert("0000:02:00.0".to_string(), 1);

    let json = r#"{
        "device_info": [
            {"smbus_telem": {"BOARD_ID_LOW": "0xNOBUS"}},
            {"board_info": {"bus_id": "0000:02:00.0"},
             "smbus_telem": {"BOARD_ID_LOW": "0xCARD02"}}
        ]
    }"#;
    let parts = rekey_snapshot_by_bus_id(parse_snapshot(json), &bus_to_index);
    assert_eq!(
        parts.smbus.get(&0).and_then(|s| s.board_id.as_deref()),
        Some("0xNOBUS"),
        "no bus id → keep the array position"
    );
    assert_eq!(
        parts.smbus.get(&1).and_then(|s| s.board_id.as_deref()),
        Some("0xCARD02")
    );
}

#[test]
fn empty_bus_index_degrades_to_positional_join() {
    let json = r#"{
        "device_info": [
            {"board_info": {"bus_id": "0000:01:00.0"},
             "smbus_telem": {"BOARD_ID_LOW": "0xA"}},
            {"board_info": {"bus_id": "0000:02:00.0"},
             "smbus_telem": {"BOARD_ID_LOW": "0xB"}}
        ]
    }"#;
    let parts = rekey_snapshot_by_bus_id(parse_snapshot(json), &TextMap::new());
    assert_eq!(
        parts.smbus.get(&0).and_then(|s| s.board_id.as_deref()),
        Some("0xA")
    );
    assert_eq!(
        parts.smbus.get(&1).and_then(|s| s.board_id.as_deref()),
        Some("0xB")
    );
}

#[test]
fn unmatched_bus_id_is_dropped_not_reassigned() {
    let mut bus_to_index: TextMap<usize> = TextMap::new();
    bus_to_index.insert("0000:01:00.0".to_string(), 0);

    let json = r#"{
        "device_info": [
            {"board_info": {"bus_id": "0000:09:00.0"},
             "smbus_telem": {"BOARD_ID_LOW": "0xGHOST"}}
        ]
    }"#;
    let parts = rekey_snapshot_by_bus_id(parse_snapshot(json), &bus_to_index);
    assert!(
        parts.smbus.is_empty(),
        "an unmatched card must not be attributed to device 0"
    );
}

#[test]
fn meta_is_published_even_when_the_snapshot_has_no_smbus_block() {

    let mut backend = HybridBackend::new("tt-smi");
    backend.sysfs.devices.push(Device::new(
        0,
        "p300c".to_string(),
        "0000:01:00.0".to_string(),
        String::new(),
    ));
    backend.sysfs.telemetry_cache.insert(
        0,
        Telemetry {
            power: Some("17.0".to_string()),
            current: None,
            voltage: Some("0.72".to_string()),
            asic_temperature: Some("39.0".to_string()),
            aiclk: None,
            heartbeat: None,
            timestamp_ms: 0,
            board_power: None,
        },
    );
    backend.join_devices();

    let json = r#"{
        "device_info": [
            {
                "board_info": {"bus_id": "0000:01:00.0", "board_type": "p300c",
                               "pcie_speed": 4, "pcie_width": "4"},
                "telemetry": {"power": " 17.0", "board_power": " 42.0"}
            }
        ]
    }"#;
    let published = publish_snapshot(json, &backend.bus_to_index);
    backend.adopt(published, SECOND);
    tick(&mut backend, SECOND);

    assert_eq!(
        backend.telemetry(0).and_then(|t| num(&t.board_power)),
        Some(42.0),
        "board power is parsed from `telemetry`, not SMBUS — it must survive"
    );
    let dev = &backend.devices()[0];
    assert_eq!(dev.pcie_speed.as_deref(), Some("Gen4"));
    assert_eq!(dev.pcie_width, Some(4));
}

#[test]
fn board_power_expires_when_the_meta_payload_goes_stale() {

    let mut backend = HybridBackend::new("tt-smi");
    backend.sysfs.devices.push(Device::new(
        0,
        "p300c".to_string(),
        "0000:01:00.0".to_string(),
        String::new(),
    ));
    let seed_telemetry = |b: &mut HybridBackend| {
        b.sysfs.telemetry_cache.insert(
            0,
            Telemetry {
                power: Some("17.0".to_string()),
                current: None,
                voltage: Some("0.72".to_string()),
                asic_temperature: Some("39.0".to_string()),
                aiclk: None,
                heartbeat: None,
                timestamp_ms: 0,
                // sysfs rebuilds this as None every tick; only the overlay
                // ever sets it.
                board_power: None,
            },
        );
    };
    seed_telemetry(&mut backend);
    backend.join_devices();

    let json = r#"{
        "device_info": [
            {
                "board_info": {"bus_id": "0000:01:00.0", "board_type": "p300c"},
                "telemetry": {"power": " 17.0", "board_power": " 42.0"}
            }
        ]
    }"#;
    let published = publish_snapshot(json, &backend.bus_to_index);
    backend.adopt(published, SECOND);
    tick(&mut backend, SECOND);
    assert_eq!(
        backend.telemetry(0).and_then(|t| num(&t.board_power)),
        Some(42.0),
        "a fresh payload must be applied"
    );

    // The next tick comes after the freshness window.
    seed_telemetry(&mut backend); // next sysfs tick: board_power back to None
    tick(&mut backend, SECOND + BOARD_POWER_MAX_AGE_NS + SECOND);
    assert_eq!(
        backend.telemetry(0).and_then(|t| num(&t.board_power)),
        None,
        "a stale payload must drop the Board row, not keep stamping it"
    );
    assert_eq!(
        backend.telemetry(0).and_then(|t| num(&t.power)),
        Some(17.0),
        "the live sysfs Power reading is unaffected"
    );
}

#[test]
fn positional_fallback_never_overwrites_a_bus_id_match() {
    let mut bus_to_index: TextMap<usize> = TextMap::new();
    bus_to_index.insert("0000:01:00.0".to_string(), 0);
    bus_to_index.insert("0000:02:00.0".to_string(), 1);

    // Entry 0 carries no bus id (→ position 0 by fallback); entry 1 resolves
    // by bus id to device 0 as well.
    let json = r#"{
        "device_info": [
            {"board_info": {"board_type": "p300c"},
             "smbus_telem": {"BOARD_ID_LOW": "0xNOBUS"}},
            {"board_info": {"bus_id": "0000:01:00.0"},
             "smbus_telem": {"BOARD_ID_LOW": "0xREAL"}}
        ]
    }"#;

    // Run it repeatedly: a collision would be decided by the order in which
    // the map is walked, so a single pass could pass by luck.
    for _ in 0..32 {
        let parts = rekey_snapshot_by_bus_id(parse_snapshot(json), &bus_to_index);
        assert_eq!(
            parts.smbus.len(),
            1,
            "the bus-id-less entry must be dropped, not collide onto index 0"
        );
        assert_eq!(
            parts.smbus.get(&0).and_then(|s| s.board_id.as_deref()),
            Some("0xREAL"),
            "the bus-id match owns index 0"
        );
    }
}

#[test]
fn test_smbus_tdp_tdc_overlay() {

    let mut backend = HybridBackend::new("tt-smi");

    // Seed sysfs cache with vcore-only readings (mimics hwmon power1_input).
    backend.sysfs.telemetry_cache.insert(
        0,
        Telemetry {
            power: Some("19.0".to_string()),   // hwmon vcore-only — will be overwritten
            current: Some("26.0".to_string()), // hwmon vcore current — will be overwritten
            voltage: Some("0.72".to_string()),
            asic_temperature: Some("42.0".to_string()),
            aiclk: None,
            heartbeat: None,
            timestamp_ms: 0,
            board_power: None,
        },
    );

    // Simulate SMBUS blended data reporting firmware total-board power.
    backend.smbus_blended.insert(
        0,
        SmbusTelemetry {
            tdp: Some("40".to_string()), // firmware total-board power (Tensix + GDDR)
            tdc: Some("55".to_string()), // firmware total current
            ..SmbusTelemetry::default()
        },
    );

    tick(&mut backend, SECOND);

    let telem = backend.sysfs.telemetry(0).unwrap();
    assert_eq!(
        num(&telem.power),
        Some(40.0),
        "power must be SMBUS TDP, not hwmon vcore"
    );
    assert_eq!(
        num(&telem.current),
        Some(55.0),
        "current must be SMBUS TDC, not hwmon vcore current"
    );
    assert_eq!(
        num(&telem.voltage),
        Some(0.72),
        "voltage must be preserved from sysfs"
    );
}

#[test]
fn bus_ids_are_normalized() {
    assert_eq!(normalize_bus_id(" 0000:0A:00.0\n"), "0000:0a:00.0");
    assert_eq!(normalize_bus_id("HWMON2"), "hwmon2");
}

#[test]
fn traffic_comes_from_the_counters() {
    let mut backend = HybridBackend::new("tt-smi");
    assert!(backend.pcie_bandwidth(0).is_none());
    let bw = PcieBandwidth { rx_bytes: 4, tx_bytes: 8, window_ns: 1 };
    backend.sysfs.pcie_bandwidth.insert(0, bw);
    let seen = backend.pcie_bandwidth(0).unwrap();
    assert_eq!((seen.rx_bytes, seen.tx_bytes, seen.window_ns), (4, 8, 1));
    assert!(backend.pcie_bandwidth(1).is_none());
}

#[test]
fn the_reader_waits_longer_for_a_tool_that_does_not_start() {
    let bus_to_index = TextMap::new();
    let printed = r#"{"device_info":[{"smbus_telem":{"AICLK":"0x320"}}]}"#;
    let step = poll_step(SmiRun::Printed(printed.to_string()), &bus_to_index);
    assert_eq!(step.raw.as_deref(), Some(printed));
    assert!(step.published.unwrap().smbus.unwrap().contains_key(&0));
    assert_eq!(step.wait_ms, 1500);
    let step = poll_step(SmiRun::Failed, &bus_to_index);
    assert!(step.raw.is_none() && step.published.is_none());
    assert_eq!(step.wait_ms, 1500);
    let step = poll_step(SmiRun::NotStarted, &bus_to_index);
    assert!(step.raw.is_none() && step.published.is_none());
    assert_eq!(step.wait_ms, 5000);
}

#[test]
fn a_failed_start_names_its_cause() {
    let cause = BackendError::Initialization("No Tenstorrent devices found in hwmon".to_string());
    assert_eq!(
        sysfs_init_failed(&cause).message(),
        "Initialization failed: HybridBackend: sysfs init failed: Initialization failed: No Tenstorrent devices found in hwmon"
    );
}

#[test]
fn a_payload_right_behind_another_is_applied_too() {
    let mut backend = HybridBackend::new("tt-smi");
    backend.sysfs.devices.push(Device::new(
        0,
        "blackhole".to_string(),
        "0000:01:00.0".to_string(),
        String::new(),
    ));
    backend.join_devices();
    let meta = |speed: u32| {
        format!(
            r#"{{"device_info": [{{"board_info": {{"bus_id": "0000:01:00.0",
                "board_type": "p300c", "pcie_speed": {}, "pcie_width": "4"}}}}]}}"#,
            speed
        )
    };
    let published = publish_snapshot(&meta(4), &backend.bus_to_index);
    backend.adopt(published, SECOND);
    tick(&mut backend, SECOND);
    assert_eq!(backend.devices()[0].pcie_speed.as_deref(), Some("Gen4"));
    let published = publish_snapshot(&meta(5), &backend.bus_to_index);
    backend.adopt(published, SECOND + 1);
    tick(&mut backend, SECOND + 1);
    assert_eq!(backend.devices()[0].pcie_speed.as_deref(), Some("Gen5"));
}
