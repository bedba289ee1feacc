use std::collections::HashMap;

use tt_toplike::backend::hwmon::{
    collect_hwmon_candidates, extract_pci_address, limit_path_for, pick_sensor,
    read_hwmon_limits, HwmonCandidate, HwmonEntry, HwmonScan, SensorClass, SensorFile,
};
use tt_toplike::backend::pcie_counters::PcieCounterSnapshot;
use tt_toplike::backend::sysfs::{
    current_to_derive, parse_sku_map, read_string_attr, slow_lane_due, smi_version_allowed,
    synthesize_smbus, synthesized_smbus_has_data, CardAttrs, ClassAttrs, HwmonFiles, SlowFiles,
    SysfsBackend,
};
use tt_toplike::backend::{BackendConfig, TelemetryBackend};
use tt_toplike::error::BackendResult;
use tt_toplike::models::{Architecture, DeviceLimits};

/// Nanoseconds in a millisecond.
const MS: u64 = 1_000_000;

/// The files of a directory: their names and what they hold.
struct Dir(HashMap<String, String>);

impl Dir {
    fn of(files: &[(&str, &str)]) -> Dir {
        Dir(files.iter().map(|(n, v)| (n.to_string(), v.to_string())).collect())
    }

    fn write(&mut self, name: &str, value: &str) {
        self.0.insert(name.to_string(), value.to_string());
    }

    fn read(&self, name: &str) -> Option<String> {
        self.0.get(name).cloned()
    }

    /// The `_input` file of the sensor to read.
    fn discover(&self, class: SensorClass) -> Option<String> {
        let (first, last) = class.numbers();
        let sensors: Vec<SensorFile> = (first..=last)
            .filter(|&n| self.0.contains_key(&class.file_name(n, "_input")))
            .map(|n| SensorFile { number: n, label: self.read(&class.file_name(n, "_label")) })
            .collect();
        pick_sensor(&sensors, class).map(|n| class.file_name(n, "_input"))
    }

    fn limits(&self) -> Option<DeviceLimits> {
        let max = |class| {
            self.discover(class).and_then(|p| limit_path_for(&p)).and_then(|p| self.read(&p))
        };
        let power = max(SensorClass::Power);
        let current = max(SensorClass::Current);
        let temperature = max(SensorClass::Temperature);
        read_hwmon_limits(power.as_deref(), current.as_deref(), temperature.as_deref())
    }

    fn sensor(&self, class: SensorClass) -> Option<String> {
        self.discover(class).and_then(|p| self.read(&p))
    }

    fn readings(&self) -> HwmonFiles {
        HwmonFiles {
            temperature: self.sensor(SensorClass::Temperature),
            voltage: self.sensor(SensorClass::Voltage),
            power: self.sensor(SensorClass::Power),
            current: self.sensor(SensorClass::Current),
        }
    }

    fn attrs(&self) -> ClassAttrs {
        ClassAttrs {
            aiclk: self.read("tt_aiclk"),
            axiclk: self.read("tt_axiclk"),
            arcclk: self.read("tt_arcclk"),
            heartbeat: self.read("tt_heartbeat"),
            therm_trip_count: self.read("tt_therm_trip_count"),
            serial: self.read("tt_serial"),
            m3app_fw_ver: self.read("tt_m3app_fw_ver"),
        }
    }
}

/// One tick over the files of a single device.
fn tick(
    backend: &mut SysfsBackend,
    hwmon: &Dir,
    class: Option<&Dir>,
    counters: Option<u64>,
    now_ms: u64,
) {
    let slow_lane = backend.begin_tick(now_ms * MS);
    let slow = SlowFiles {
        attrs: class.map(|c| c.attrs()),
        fan: hwmon.sensor(SensorClass::Fan),
        counters: counters.map(|w| PcieCounterSnapshot { words_in: w, words_out: w }),
    };
    backend.apply_readings(
        0,
        &hwmon.readings(),
        &None,
        if slow_lane { Some(&slow) } else { None },
        now_ms * MS,
        now_ms as i64,
    );
}

fn detected(hwmon: &Dir) -> SysfsBackend {
    let mut backend = SysfsBackend::new();
    let name = hwmon.read("name").unwrap();
    let found = collect_hwmon_candidates(HwmonScan::Entries(vec![HwmonEntry {
        path: "/h/hwmon2".to_string(),
        dir_name: "hwmon2".to_string(),
        name: Some(name),
        link: None,
    }]));
    backend.detect_devices_in(found, vec![hwmon.limits()]).unwrap();
    backend
}

#[test]
fn test_sysfs_backend_creation() {
    let backend = SysfsBackend::new();
    assert_eq!(backend.backend_info(), "Sysfs (hwmon sensors)");
    assert_eq!(backend.device_count(), 0);
}

#[test]
fn test_sysfs_backend_with_config() {
    let config = BackendConfig::default().with_interval(50);
    let backend = SysfsBackend::with_config(config);
    assert_eq!(backend.config.update_interval_ms, 50);
}

#[test]
fn pcie_bandwidth_none_without_counter_dir() {
    let backend = SysfsBackend::new();
    assert!(backend.pcie_bandwidth(0).is_none());
}

#[test]
fn pcie_bandwidth_is_cleared_when_the_counter_dir_disappears() {
    let hwmon = fake_hwmon();
    let class = fake_tt_class();
    let mut backend = detected(&hwmon);

    // Two slow-lane passes over a moving counter set give a real rate.
    tick(&mut backend, &hwmon, Some(&class), Some(3_000), 10_000);
    tick(&mut backend, &hwmon, Some(&class), Some(6_000), 12_000);
    let bw = backend
        .pcie_bandwidth(0)
        .expect("two samples of a readable counter set must yield a rate");
    assert_eq!((bw.rx_bytes, bw.tx_bytes, bw.window_ns), (12_000, 12_000, 2_000_000_000));

    // The attribute group goes away (driver reload / device reset).
    tick(&mut backend, &hwmon, Some(&class), None, 14_000);
    assert!(
        backend.pcie_bandwidth(0).is_none(),
        "an unreadable counter set must clear the cached rate, not preserve it"
    );

    // It comes back: the first sample is a baseline again.
    tick(&mut backend, &hwmon, Some(&class), Some(9_000), 16_000);
    assert!(backend.pcie_bandwidth(0).is_none());
}

#[test]
fn parse_sku_map_extracts_board_types_by_bus() {
    let json = r#"{
        "device_info": [
            {"board_info": {"bus_id": "0000:07:00.0", "board_type": "p300c"}},
            {"board_info": {"bus_id": "0000:0A:00.0", "board_type": "p150a"}},
            {"board_info": {"bus_id": "  ", "board_type": "ignored-empty-bus"}},
            {"board_info": {"bus_id": "0000:0B:00.0", "board_type": ""}},
            {"board_info": null}
        ]
    }"#;
    let m = parse_sku_map(json);
    // bus_id is normalized (trimmed + lowercased) so uppercase hex matches.
    assert_eq!(m.get("0000:07:00.0").map(String::as_str), Some("p300c"));
    assert_eq!(m.get("0000:0a:00.0").map(String::as_str), Some("p150a"));
    // Empty bus_id or board_type entries are skipped; null board_info too.
    assert_eq!(m.len(), 2);
}

#[test]
fn parse_sku_map_tolerates_garbage_and_empty() {
    assert!(parse_sku_map("not json").is_empty());
    assert!(parse_sku_map("{}").is_empty());
    assert!(parse_sku_map(r#"{"device_info": []}"#).is_empty());
}

/// The attribute set that the driver exposes on Blackhole.
fn fake_hwmon() -> Dir {
    Dir::of(&[
        ("name", "blackhole"),
        ("temp1_input", "38036"),
        ("temp1_label", "asic_temp"),
        ("temp1_max", "90000"),
        ("in0_input", "718"),
        ("in0_label", "vcore"),
        ("in0_max", "900"),
        ("power1_input", "16000000"),
        ("power1_label", "power"),
        ("power1_max", "125000000"),
        ("curr1_input", "23000"),
        ("curr1_label", "current"),
        ("curr1_max", "500000"),
        ("fan1_input", "4294967295"),
        ("fan1_label", "fan_rpm"),
    ])
}

#[test]
fn discover_sensor_paths_finds_fan() {
    let dir = fake_hwmon();
    assert!(dir.discover(SensorClass::Fan).is_some(), "fan1_input should be discovered");
    assert!(dir.discover(SensorClass::Temperature).is_some());
}

#[test]
fn discover_sensor_paths_prefers_asic_temp_label() {
    let mut dir = fake_hwmon();
    // Add a decoy lower-numbered sensor with a non-ASIC label. Label-aware
    // discovery must skip it in favor of the one labelled asic_temp.
    dir.write("temp1_label", "vreg_temp");
    dir.write("temp2_input", "40000");
    dir.write("temp2_label", "asic_temp");
    assert_eq!(dir.discover(SensorClass::Temperature).as_deref(), Some("temp2_input"));
}

#[test]
fn read_hwmon_limits_converts_units() {
    let lim = fake_hwmon().limits().unwrap();
    assert_eq!(lim.tdp_limit.as_deref(), Some("125.000000")); // 125000000 µW
    assert_eq!(lim.tdc_limit.as_deref(), Some("500.000")); // 500000 mA
    assert_eq!(lim.thm_limit.as_deref(), Some("90.000")); // 90000 m°C
    assert_eq!(lim.asic_fmax, None); // not exposed by hwmon
}

#[test]
fn read_hwmon_limits_absent_files_yield_none() {
    let dir = Dir::of(&[("name", "blackhole")]);
    assert!(dir.limits().is_none());
}

#[test]
fn read_hwmon_limits_follows_the_selected_sensor_not_index_1() {
    let mut dir = fake_hwmon();
    // temp1 is the VReg decoy with a much higher ceiling; temp2 is the ASIC.
    dir.write("temp1_label", "vreg_temp");
    dir.write("temp1_max", "125000");
    dir.write("temp2_input", "40000");
    dir.write("temp2_label", "asic_temp");
    dir.write("temp2_max", "90000");
    assert_eq!(
        dir.limits().unwrap().thm_limit.as_deref(),
        Some("90.000"),
        "the ASIC sensor's own ceiling must win over the VReg sensor's"
    );
}

#[test]
fn read_hwmon_limits_missing_max_for_selected_sensor_is_none() {
    let mut dir = fake_hwmon();
    // Same decoy layout, but the ASIC sensor has no ceiling of its own.
    dir.write("temp1_label", "vreg_temp");
    dir.write("temp1_max", "125000");
    dir.write("temp2_input", "40000");
    dir.write("temp2_label", "asic_temp");
    let lim = dir.limits().unwrap();
    assert_eq!(lim.thm_limit, None, "must not fall back to temp1_max");
    // The other classes still report (single unambiguous sensor each).
    assert_eq!(lim.tdp_limit.as_deref(), Some("125.000000"));
}

/// The class attributes of the driver.
fn fake_tt_class() -> Dir {
    Dir::of(&[
        ("tt_card_type", "p300c\n"),
        ("tt_serial", "0000046131924062\n"),
        ("tt_fw_bundle_ver", "19.11.0.0\n"),
        ("tt_aiclk", "800\n"),
        ("tt_axiclk", "960\n"),
        ("tt_arcclk", "800\n"),
        ("tt_heartbeat", "43874\n"),
        ("tt_therm_trip_count", "0\n"),
    ])
}

#[test]
fn read_string_attr_trims() {
    let dir = Dir::of(&[("tt_card_type", "p300c\n")]);
    assert_eq!(read_string_attr(&dir.read("tt_card_type")), Some("p300c".to_string()));
    assert_eq!(read_string_attr(&dir.read("tt_missing")), None);
    assert_eq!(read_string_attr(&Some(" \n".to_string())), None);
}

#[test]
fn synthesize_smbus_from_tt_attrs() {
    let attrs = fake_tt_class().attrs();
    let fan = fake_hwmon().sensor(SensorClass::Fan);
    let smbus = synthesize_smbus(Some(&attrs), &fan);
    // Clocks come through as plain decimal strings.
    assert_eq!(smbus.aiclk.as_deref(), Some("800"));
    assert_eq!(smbus.axiclk.as_deref(), Some("960"));
    assert_eq!(smbus.arcclk.as_deref(), Some("800"));
    assert_eq!(smbus.therm_trip_count.as_deref(), Some("0"));
    assert_eq!(smbus.arc0_health.as_deref(), Some("43874")); // tt_heartbeat
    assert_eq!(smbus.board_id.as_deref(), Some("0000046131924062")); // tt_serial

    // The no-fan sentinel is stored verbatim; fan_rpm() maps it to None.
    assert_eq!(smbus.fan_speed.as_deref(), Some("4294967295"));
    assert_eq!(smbus.fan_rpm(), None);
}

#[test]
fn synthesize_smbus_no_sources_is_all_none() {
    let smbus = synthesize_smbus(None, &None);
    assert!(smbus.aiclk.is_none() && smbus.fan_speed.is_none());
    assert!(
        !synthesized_smbus_has_data(&smbus),
        "an all-None block must never be published as SMBUS data"
    );
}

#[test]
fn smbus_telemetry_is_none_without_class_dir_or_fan() {
    let hwmon = Dir::of(&[
        ("name", "blackhole"),
        ("temp1_input", "38036"),
        ("temp1_label", "asic_temp"),
        ("in0_input", "718"),
        ("power1_input", "16000000"),
        ("curr1_input", "23000"),
    ]);
    let mut backend = detected(&hwmon);
    tick(&mut backend, &hwmon, None, None, 0);

    assert!(backend.telemetry(0).is_some(), "core hwmon telemetry must still be served");
    assert_eq!(
        backend.telemetry(0).unwrap().asic_temperature.as_deref(),
        Some("38.036")
    );
    assert!(
        backend.smbus_telemetry(0).is_none(),
        "no class dir and no fan: no SMBUS block at all"
    );
}

#[test]
fn smbus_telemetry_is_none_when_only_fan_is_a_sentinel() {
    let hwmon = Dir::of(&[
        ("name", "blackhole"),
        ("temp1_input", "38036"),
        ("temp1_label", "asic_temp"),
        ("in0_input", "718"),
        ("power1_input", "16000000"),
        ("curr1_input", "23000"),
        ("fan1_input", "4294967295"),
    ]);
    let mut backend = detected(&hwmon);
    tick(&mut backend, &hwmon, None, None, 0);
    assert!(
        backend.smbus_telemetry(0).is_none(),
        "a sentinel fan reading is not data: the block must stay absent"
    );
}

#[test]
fn smbus_telemetry_is_some_for_a_real_fan_reading() {
    let hwmon = Dir::of(&[
        ("name", "blackhole"),
        ("temp1_input", "38036"),
        ("temp1_label", "asic_temp"),
        ("fan1_input", "1882"),
    ]);
    let mut backend = detected(&hwmon);
    tick(&mut backend, &hwmon, None, None, 0);
    let smbus = backend.smbus_telemetry(0).expect("a real fan RPM is real SMBUS data");
    assert_eq!(smbus.fan_rpm(), Some(1882));
}

#[test]
fn smbus_telemetry_is_some_with_class_dir() {
    let hwmon = fake_hwmon();
    let class = fake_tt_class();
    let mut backend = detected(&hwmon);
    tick(&mut backend, &hwmon, Some(&class), None, 0);

    let smbus = backend.smbus_telemetry(0).expect("class-dir attrs must be published");
    assert_eq!(smbus.aiclk.as_deref(), Some("800"));
    assert_eq!(smbus.arc0_health.as_deref(), Some("43874"));
    // And the core telemetry picked up the same attrs.
    assert_eq!(backend.telemetry(0).unwrap().aiclk, Some(800));
}

#[test]
fn slow_lane_due_respects_the_interval() {
    let t0 = 5_000 * MS;
    let interval = 1000 * MS;

    // First tick ever: always due, so one-shot callers (`--print`) get a
    // fully populated snapshot.
    assert!(slow_lane_due(None, t0, interval));
    // Inside the window: skipped (this is the ~10 Hz render path).
    assert!(!slow_lane_due(Some(t0), t0 + 100 * MS, interval));
    assert!(!slow_lane_due(Some(t0), t0 + 999 * MS, interval));
    assert!(!slow_lane_due(Some(t0), t0 + interval - 1, interval));
    // Exactly at, and past, the interval: due again.
    assert!(slow_lane_due(Some(t0), t0 + interval, interval));
    assert!(slow_lane_due(Some(t0), t0 + 2500 * MS, interval));
    // A `now` that predates `last` defers rather than panicking.
    assert!(!slow_lane_due(Some(t0 + 500 * MS), t0, interval));
}

#[test]
fn update_retains_slow_lane_values_between_refreshes() {
    let hwmon = fake_hwmon();
    let mut class = fake_tt_class();
    let mut backend = detected(&hwmon);

    tick(&mut backend, &hwmon, Some(&class), None, 0); // first tick: slow lane runs
    assert_eq!(backend.telemetry(0).unwrap().aiclk, Some(800));

    // Change the attr underneath us, then tick again immediately. The slow
    // lane is not due, so the previous values must be carried forward.
    class.write("tt_aiclk", "1350\n");
    tick(&mut backend, &hwmon, Some(&class), None, 100);
    assert_eq!(
        backend.telemetry(0).unwrap().aiclk,
        Some(800),
        "slow-lane values are retained between refreshes"
    );
    assert_eq!(
        backend.smbus_telemetry(0).unwrap().aiclk.as_deref(),
        Some("800"),
        "the synthesized SMBUS block is retained too"
    );

    // Once the interval has elapsed the new value comes through.
    tick(&mut backend, &hwmon, Some(&class), None, 5_100);
    assert_eq!(backend.telemetry(0).unwrap().aiclk, Some(1350));
}

/// A hwmon directory whose `device` link leads to `bus_id`.
fn fake_hwmon_with_bus(dir_name: &str, name: &str, bus_id: Option<&str>) -> HwmonEntry {
    HwmonEntry {
        path: format!("/sys/class/hwmon/{}", dir_name),
        dir_name: dir_name.to_string(),
        name: Some(name.to_string()),
        link: bus_id.map(|b| format!("../../../{}", b)),
    }
}

fn collect(entries: Vec<HwmonEntry>) -> BackendResult<Vec<HwmonCandidate>> {
    collect_hwmon_candidates(HwmonScan::Entries(entries))
}

#[test]
fn extract_pci_address_prefers_leaf_over_bridge() {
    assert_eq!(
        extract_pci_address("../../devices/pci0000:00/0000:00:01.5/0000:04:00.0/hwmon/hwmon6")
            .as_deref(),
        Some("0000:04:00.0")
    );
}

#[test]
fn detect_devices_sorted_by_bus_id_not_readdir_order() {
    let found = collect(vec![
        fake_hwmon_with_bus("hwmon5", "blackhole\n", Some("0000:04:00.0")),
        fake_hwmon_with_bus("hwmon2", "blackhole\n", Some("0000:03:00.0")),
        fake_hwmon_with_bus("hwmon7", "blackhole\n", Some("0000:01:00.0")),
        fake_hwmon_with_bus("hwmon3", "blackhole\n", Some("0000:02:00.0")),
        // A non-Tenstorrent hwmon node must be ignored entirely.
        fake_hwmon_with_bus("hwmon0", "coretemp\n", None),
    ]);
    let sorted: Vec<Option<String>> =
        found.iter().flatten().map(|c| c.bus_id.clone()).collect();

    let mut backend = SysfsBackend::new();
    backend.detect_devices_in(found, Vec::new()).unwrap();

    let buses: Vec<&str> = backend.devices.iter().map(|d| d.bus_id.as_str()).collect();
    assert_eq!(
        buses,
        vec!["0000:01:00.0", "0000:02:00.0", "0000:03:00.0", "0000:04:00.0"],
        "devices must be ordered ascending by PCI bus id"
    );
    // Indices must match position, and the candidates must agree with them.
    for (pos, device) in backend.devices.iter().enumerate() {
        assert_eq!(device.index, pos, "index must match ordering position");
        assert_eq!(device.architecture, Architecture::Blackhole);
        assert_eq!(sorted[pos].as_deref(), Some(device.bus_id.as_str()));
    }
}

#[test]
fn detect_devices_unresolved_bus_ids_sort_last_deterministically() {
    let found = collect(vec![
        fake_hwmon_with_bus("hwmon10", "blackhole\n", None),
        fake_hwmon_with_bus("hwmon4", "blackhole\n", Some("0000:05:00.0")),
        fake_hwmon_with_bus("hwmon2", "blackhole\n", None),
    ]);

    let mut backend = SysfsBackend::new();
    backend.detect_devices_in(found, Vec::new()).unwrap();

    let buses: Vec<&str> = backend.devices.iter().map(|d| d.bus_id.as_str()).collect();
    assert_eq!(
        buses,
        // Numeric (not lexicographic) hwmon ordering: hwmon2 before hwmon10.
        vec!["0000:05:00.0", "hwmon2", "hwmon10"],
    );
}

#[test]
fn detect_devices_errors_when_no_tt_hwmon_present() {
    let found = collect(vec![fake_hwmon_with_bus("hwmon0", "nvme\n", None)]);
    let mut backend = SysfsBackend::new();
    let refused = backend.detect_devices_in(found, Vec::new());
    assert_eq!(
        refused.unwrap_err().message(),
        "Initialization failed: No Tenstorrent devices found in hwmon"
    );
}

#[test]
fn a_scan_that_fails_leaves_no_device() {
    let mut backend = detected(&fake_hwmon());
    tick(&mut backend, &fake_hwmon(), None, Some(3_000), 0);
    assert_eq!(backend.device_count(), 1);
    let missing = collect_hwmon_candidates(HwmonScan::Missing);
    assert_eq!(
        backend.detect_devices_in(missing, Vec::new()).unwrap_err().message(),
        "Initialization failed: Hwmon sysfs not available (Linux-specific)"
    );
    assert_eq!(backend.device_count(), 0);
    assert!(backend.telemetry(0).is_none());
    assert!(backend.last_slow_refresh.is_none());

    let mut backend = detected(&fake_hwmon());
    let unreadable =
        collect_hwmon_candidates(HwmonScan::Unreadable("permission denied".to_string()));
    assert_eq!(
        backend.detect_devices_in(unreadable, Vec::new()).unwrap_err().message(),
        "Initialization failed: Failed to read hwmon dir: permission denied"
    );
    assert_eq!(backend.device_count(), 0);
}

#[test]
fn the_order_of_reading_does_not_matter() {
    let entries = |rev: bool| {
        let mut e = vec![
            fake_hwmon_with_bus("hwmon10", "blackhole\n", None),
            fake_hwmon_with_bus("hwmon1", "tt_wormhole\n", Some("0000:01:00.0")),
            fake_hwmon_with_bus("hwmon3", "grayskull\n", Some("0000:01:00.0")),
            fake_hwmon_with_bus("hwmon9", "blackhole\n", None),
            fake_hwmon_with_bus("hwmon0", "nvme\n", None),
        ];
        e[4].name = None;
        if rev {
            e.reverse();
        }
        e
    };
    let mut a = SysfsBackend::new();
    let mut b = detected(&fake_hwmon());
    a.detect_devices_in(collect(entries(false)), Vec::new()).unwrap();
    b.detect_devices_in(collect(entries(true)), Vec::new()).unwrap();
    let ids = |s: &SysfsBackend| -> Vec<(usize, String, String)> {
        s.devices
            .iter()
            .map(|d| (d.index, d.bus_id.clone(), d.board_type.clone()))
            .collect()
    };
    assert_eq!(ids(&a), ids(&b));
    let types: Vec<&str> = a.devices.iter().map(|d| d.board_type.as_str()).collect();
    assert_eq!(types, vec!["tt_wormhole", "grayskull", "blackhole", "blackhole"]);
    assert_eq!(a.devices[2].bus_id, "hwmon9");
}

#[test]
fn attributes_enrich_the_devices() {
    let class = fake_tt_class();
    let card = || {
        Some(CardAttrs {
            card_type: class.read("tt_card_type"),
            fw_bundle_ver: class.read("tt_fw_bundle_ver"),
        })
    };
    let found = collect(vec![
        fake_hwmon_with_bus("hwmon1", "blackhole\n", Some("0000:0a:00.0")),
        fake_hwmon_with_bus("hwmon2", "wormhole\n", Some("0000:0b:00.0")),
    ]);
    let mut backend = SysfsBackend::new();
    backend.detect_devices_in(found, Vec::new()).unwrap();
    assert!(!backend.enrich_devices(&vec![card(), None]));
    assert_eq!(backend.devices[0].board_type, "p300c");
    assert_eq!(backend.devices[1].board_type, "wormhole");
    let fw = backend.devices[0].firmwares.as_ref().unwrap();
    assert_eq!(fw.fw_bundle_version.as_deref(), Some("19.11.0.0"));
    let blank = Some(CardAttrs { card_type: Some("\n".to_string()), fw_bundle_ver: None });
    assert!(!backend.enrich_devices(&vec![card(), blank]));
    assert_eq!(backend.devices[1].board_type, "wormhole");
    assert!(backend.enrich_devices(&vec![card(), card()]));
    assert_eq!(backend.devices[1].board_type, "p300c");
    assert!(!backend.enrich_devices(&Vec::new()));
}

#[test]
fn board_types_are_matched_by_bus_id() {
    let found = collect(vec![
        fake_hwmon_with_bus("hwmon1", "blackhole\n", Some("0000:0a:00.0")),
        fake_hwmon_with_bus("hwmon2", "wormhole\n", Some("0000:0b:00.0")),
    ]);
    let mut backend = SysfsBackend::new();
    backend.detect_devices_in(found, Vec::new()).unwrap();
    let skus = parse_sku_map(
        r#"{"device_info":[{"board_info":{"bus_id":" 0000:0A:00.0 ","board_type":"p150b"}}]}"#,
    );
    backend.apply_sku_map(&skus);
    assert_eq!(backend.devices[0].board_type, "p150b");
    assert_eq!(backend.devices[1].board_type, "wormhole");
}

#[test]
fn a_current_is_derived_from_power_and_voltage() {
    let files = |current: Option<&str>, voltage: &str| HwmonFiles {
        temperature: None,
        voltage: Some(voltage.to_string()),
        power: Some("16000000\n".to_string()),
        current: current.map(str::to_string),
    };
    assert_eq!(current_to_derive(&files(None, "718")), Some((16_000_000, 718)));
    assert_eq!(current_to_derive(&files(Some("23000"), "718")), None);
    assert_eq!(current_to_derive(&files(None, "0")), None);
    let mut backend = detected(&fake_hwmon());
    backend.apply_readings(0, &files(None, "718"), &Some("22.28".to_string()), None, 0, 1);
    let t = backend.telemetry(0).unwrap();
    assert_eq!(t.current.as_deref(), Some("22.28"));
    assert_eq!(t.voltage.as_deref(), Some("0.718"));
    assert_eq!(t.power.as_deref(), Some("16.000000"));
    assert_eq!(t.asic_temperature, None);
}

#[test]
fn old_versions_are_not_asked() {
    assert!(smi_version_allowed("4.0.0\n"));
    assert!(smi_version_allowed("5"));
    assert!(!smi_version_allowed("3.9.1"));
    assert!(!smi_version_allowed("tt-smi 5.2.0"));
    assert!(!smi_version_allowed(""));
}
