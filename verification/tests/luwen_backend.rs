use luwen_def::Arch;
use tt_toplike::backend::luwen::{
    map_arch, map_firmwares, map_limits, map_smbus, map_telemetry, ChipReading, DetectedChip,
    LuwenBackend,
};
use tt_toplike::backend::{BackendConfig, TelemetryBackend};
use tt_toplike::models::Architecture;

/// The number that a reading denotes.
fn num(s: &Option<String>) -> Option<f32> {
    s.as_ref().map(|t| t.parse().unwrap())
}

#[test]
fn test_luwen_backend_creation() {
    let backend = LuwenBackend::new();
    assert_eq!(backend.backend_info(), "Luwen (Direct Hardware)");
    assert_eq!(backend.device_count(), 0);
}

#[test]
fn test_luwen_backend_with_config() {
    let config = BackendConfig::default().with_interval(50);
    let backend = LuwenBackend::with_config(config);
    assert_eq!(backend.config.update_interval_ms, 50);
}

fn bh_telemetry() -> ChipReading {
    ChipReading {
        arch: Architecture::Blackhole,
        // BH publishes its heartbeat as TimerHeartbeat; arc0..3_health
        // are never assigned by the tag table.
        timer_heartbeat: 43874,
        // EthLiveStatus lands in eth_status0 on BH.
        eth_status0: 0x0FFF,
        enabled_eth: 0x0FFF,
        // PcieUsage lands in enabled_pcie.
        enabled_pcie: 16,
        // ThmLimits on BH is already a plain °C shutdown limit.
        thm_limits: 110,
        // FanRpm carries the reading; FanSpeed stays at the 0 sentinel.
        fan_rpm: 1882,
        gddr_uncorr_errs: 7,
        max_gddr_temp: 71,
        tensix_enabled_col: 0x3FFF,
        // Limit tags + packed bundle version, as a live
        // p300c reports them.
        tdp_limit_max: 0x7d,            // 125 W
        tdc_limit_max: 0x1f4,           // 500 A
        aiclk_limit_max: 0x546,         // 1350 MHz
        thm_limit_throttle: 0x5a,       // 90 °C
        fw_bundle_version: 0x130b_0000, // "19.11.0.0"
        ..ChipReading::zeroed(Architecture::Blackhole)
    }
}

fn wh_telemetry() -> ChipReading {
    ChipReading {
        arch: Architecture::Wormhole,
        arc0_health: 1234,
        arc1_health: 5678,
        // WH's real ETH status registers.
        eth_status0: 0x1,
        eth_status1: 0x2,
        // WH packs throttle (high half) and shutdown (low half).
        thm_limits: (100u32 << 16) | 110,
        fan_speed: 2500,
        ..ChipReading::zeroed(Architecture::Wormhole)
    }
}

#[test]
fn bh_arc_health_uses_timer_heartbeat_and_omits_arc1_3() {
    let s = map_smbus(&bh_telemetry());
    assert_eq!(s.arc0_health.as_deref(), Some("43874"));
    assert!(s.is_arc0_healthy(), "must not read as a stalled ARC");
    assert_eq!(s.arc1_health, None);
    assert_eq!(s.arc2_health, None);
    assert_eq!(s.arc3_health, None);
    // Core Telemetry carries the same counter.
    assert_eq!(map_telemetry(&bh_telemetry(), 0).heartbeat, Some(43874));
}

#[test]
fn wh_arc_health_keeps_real_per_arc_registers() {
    let s = map_smbus(&wh_telemetry());
    assert_eq!(s.arc0_health.as_deref(), Some("1234"));
    assert_eq!(s.arc1_health.as_deref(), Some("5678"));
}

#[test]
fn thm_limits_is_decoded_to_celsius() {
    assert_eq!(
        map_smbus(&bh_telemetry()).thm_limits.as_deref(),
        Some("110")
    );
    assert_eq!(
        map_smbus(&wh_telemetry()).thm_limits.as_deref(),
        Some("110")
    );
}

#[test]
fn bh_eth_live_status_populated_with_enabled_eth() {
    let s = map_smbus(&bh_telemetry());
    assert_eq!(s.eth_live_status, Some(0x0FFF));
    assert_eq!(s.enabled_eth, Some(0x0FFF));
    assert_eq!(
        s.eth_live_status.unwrap().count_ones(),
        s.enabled_eth.unwrap().count_ones(),
        "healthy card must not render as 0/12 live"
    );
    // eth_status0 is the live mask on BH, not an error register — it must
    // not be republished under the WH name.
    assert_eq!(s.eth_status0, None);
}

#[test]
fn wh_eth_masks_stay_absent() {
    let s = map_smbus(&wh_telemetry());
    assert_eq!(s.eth_live_status, None);
    assert_eq!(s.enabled_eth, None);
    // The genuine WH status registers do come through.
    assert_eq!(s.eth_status0.as_deref(), Some("1"));
    assert_eq!(s.eth_status1.as_deref(), Some("2"));
}

#[test]
fn bh_pcie_status_comes_from_enabled_pcie() {
    assert_eq!(
        map_smbus(&bh_telemetry()).pcie_status.as_deref(),
        Some("16")
    );
    // WH's pcie_status register is a status word, not a lane count.
    assert_eq!(map_smbus(&wh_telemetry()).pcie_status, None);
}

#[test]
fn fan_picks_whichever_register_has_a_real_rpm() {
    assert_eq!(map_smbus(&bh_telemetry()).fan_rpm(), Some(1882));
    assert_eq!(map_smbus(&wh_telemetry()).fan_rpm(), Some(2500));
    // Fanless card: both registers sentinel → no reading.
    let fanless = ChipReading {
        arch: Architecture::Blackhole,
        fan_speed: 0,
        fan_rpm: 0xFFFF_FFFF,
        ..ChipReading::zeroed(Architecture::Blackhole)
    };
    assert_eq!(map_smbus(&fanless).fan_speed, None);
    assert_eq!(map_smbus(&fanless).fan_rpm(), None);
}

#[test]
fn bh_only_fields_are_absent_on_wormhole() {
    let bh = map_smbus(&bh_telemetry());
    assert_eq!(bh.gddr_uncorr_errs, Some(7));
    assert_eq!(bh.max_gddr_temp, Some(71_000));
    assert_eq!(bh.enabled_tensix_col, Some(0x3FFF));
    assert!(bh.gddr_temps.iter().all(|t| t.is_some()));

    let wh = map_smbus(&wh_telemetry());
    assert_eq!(wh.gddr_uncorr_errs, None);
    assert_eq!(wh.max_gddr_temp, None);
    assert_eq!(wh.enabled_tensix_col, None);
    assert_eq!(wh.harvesting_state, None);
    assert_eq!(wh.input_power, None);
    assert_eq!(wh.therm_trip_count, None);
    assert!(wh.gddr_temps.iter().all(|t| t.is_none()));
    assert!(wh.gddr_corr_errs.iter().all(|e| e.is_none()));
}

#[test]
fn bh_limits_come_from_the_limit_max_tags() {
    let lim = map_limits(&bh_telemetry()).expect("BH must report limits");
    assert_eq!(num(&lim.tdp_limit), Some(125.0));
    assert_eq!(num(&lim.tdc_limit), Some(500.0));
    assert_eq!(lim.asic_fmax, Some(1350));
    // The throttle trip point (90 °C), which is what hwmon reports as
    // temp1_max and what the safe backends display — NOT the 110 °C
    // shutdown trip in `thm_limits`.
    assert_eq!(num(&lim.thm_limit), Some(90.0));
}

#[test]
fn wh_limits_are_absent_rather_than_zero() {
    assert!(
        map_limits(&wh_telemetry()).is_none(),
        "WH must not publish fabricated zero limits"
    );
}

#[test]
fn fw_bundle_version_is_decoded_for_the_fw_row() {
    let fw = map_firmwares(&bh_telemetry()).expect("BH must report a bundle version");
    assert_eq!(fw.fw_bundle_version.as_deref(), Some("19.11.0.0"));
    // WH populates the same register (only for ARC fw >= 2.25.0.0), so
    // it is not arch-gated — a real reading comes through.
    let wh = map_firmwares(&ChipReading {
        fw_bundle_version: 0x130b_0000,
        ..wh_telemetry()
    })
    .expect("WH with a populated bundle register must report it");
    assert_eq!(wh.fw_bundle_version.as_deref(), Some("19.11.0.0"));
    // A zero register means "not reported" (WH below the ARC firmware
    // threshold, or a BH tag table that omitted it) — not "0.0.0.0".
    assert!(map_firmwares(&wh_telemetry()).is_none());
}

fn chip(alive: bool, reading: Option<(ChipReading, String)>) -> DetectedChip {
    DetectedChip {
        arc_alive: alive,
        arch: Architecture::Blackhole,
        arch_name: "Blackhole".to_string(),
        device_info: None,
        reading,
    }
}

#[test]
fn skipped_chips_leave_their_position() {
    let mut b = LuwenBackend::new();
    let chips = vec![
        chip(false, None),
        chip(true, Some((bh_telemetry(), "p150a".to_string()))),
        chip(false, None),
        chip(true, None),
    ];
    assert!(b.register(&chips).is_ok());
    let found: Vec<(usize, &str, &str)> = b
        .devices()
        .iter()
        .map(|d| (d.index, d.board_type.as_str(), d.bus_id.as_str()))
        .collect();
    assert_eq!(found, vec![(1, "p150a", "pci:1"), (3, "Blackhole", "pci:3")]);
    assert!(b.devices()[0].limits.is_some());
    assert_eq!(
        b.backend_info(),
        "Luwen (Direct Hardware, 2 unavailable — chip 0,2 ARC not responding)"
    );
}

#[test]
fn detection_fails_without_a_live_chip() {
    let mut b = LuwenBackend::new();
    assert_eq!(
        b.register(&Vec::new()).unwrap_err().message(),
        "Initialization failed: No devices found"
    );
    assert_eq!(
        b.register(&vec![chip(false, None)]).unwrap_err().message(),
        "Initialization failed: Devices found but none had a live ARC (no telemetry available)"
    );
}

#[test]
fn silent_rounds_are_counted_and_forgotten() {
    let mut b = LuwenBackend::with_config(BackendConfig::default().with_max_errors(2));
    let silent = vec![(0, None), (1, None)];
    assert!(b.apply_readings(&silent, 0).is_ok());
    assert_eq!(
        b.apply_readings(&silent, 0).unwrap_err().message(),
        "Update failed: no chip answered a telemetry read in 2 consecutive updates"
    );
    let answered = vec![(0, None), (1, Some(wh_telemetry()))];
    assert!(b.apply_readings(&answered, 5).is_ok());
    assert_eq!(b.consecutive_errors, 0);
    assert!(!b.has_telemetry(0));
    assert_eq!(b.telemetry(1).unwrap().timestamp_ms, 5);
    assert_eq!(
        b.smbus_telemetry(1).unwrap().arc1_health.as_deref(),
        Some("5678")
    );
}

#[test]
fn core_readings_are_decoded() {
    let bh = ChipReading {
        vcore: 718,
        tdp: 0x7d_0010,
        tdc: 0x1f4_0017,
        aiclk: 0x546_0320,
        asic_temperature: 0x0022_d522,
        ..ChipReading::zeroed(Architecture::Blackhole)
    };
    let t = map_telemetry(&bh, 0);
    assert_eq!(t.voltage.as_deref(), Some("0.718"));
    assert_eq!(t.power.as_deref(), Some("16"));
    assert_eq!(t.current.as_deref(), Some("23"));
    assert_eq!(t.aiclk, Some(800));
    let deg = num(&t.asic_temperature).unwrap();
    assert!((deg - (34.0 + 0xd522 as f32 / 65536.0)).abs() < 1e-4, "{deg}");
    // Half a degree below zero.
    let cold = ChipReading { asic_temperature: 0xffff_8000, ..bh };
    assert_eq!(
        map_telemetry(&cold, 0).asic_temperature.as_deref(),
        Some("-0.5000000000000000")
    );
    let wh = ChipReading {
        asic_temperature: 0x1234_0360,
        ..ChipReading::zeroed(Architecture::Wormhole)
    };
    assert_eq!(map_telemetry(&wh, 0).asic_temperature.as_deref(), Some("54"));
}

#[test]
fn arch_mapping_covers_all_luwen_variants() {
    assert_eq!(map_arch(Arch::Wormhole), Architecture::Wormhole);
    assert_eq!(map_arch(Arch::Blackhole), Architecture::Blackhole);
    #[allow(deprecated)]
    {
        assert_eq!(map_arch(Arch::Grayskull), Architecture::Grayskull);
    }
}
