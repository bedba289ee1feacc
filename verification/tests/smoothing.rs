use std::collections::HashMap;

use tt_toplike::backend::smbus_smooth::{
    apply_ema, is_numeric, shows_fraction, smoothing_inputs, SmbusEmaState, Smoothed,
};
use tt_toplike::models::{GddrChannel, GddrTelemetry, GddrTempPair, SmbusTelemetry};

/// The number that a register text denotes.
fn value(raw: &str) -> f64 {
    let t = raw.trim();
    match t.strip_prefix("0x").or_else(|| t.strip_prefix("0X")) {
        Some(hex) => u64::from_str_radix(hex, 16).unwrap() as f64,
        None => t.parse().unwrap(),
    }
}

/// One round of smoothing, with the averages that the application computes.
fn smooth(
    ema: &mut SmbusEmaState,
    idx: usize,
    incoming: &SmbusTelemetry,
    existing: &mut SmbusTelemetry,
) {
    let results: Vec<Option<Smoothed>> = smoothing_inputs(ema, idx, incoming)
        .iter()
        .map(|input| {
            input.as_ref().map(|i| {
                let v = value(&i.reading);
                let avg = match i.previous {
                    Some(bits) => 0.25 * v + 0.75 * f64::from_bits(bits),
                    None => v,
                };
                Smoothed {
                    accumulator: avg.to_bits(),
                    whole: avg.round() as i64,
                    hundredths: format!("{:.2}", avg),
                }
            })
        })
        .collect();
    apply_ema(ema, idx, incoming, existing, &results);
}

fn make_smbus(arc0: &str, board_id: &str) -> SmbusTelemetry {
    SmbusTelemetry {
        arc0_health: Some(arc0.to_owned()),
        board_id: Some(board_id.to_owned()),
        ..SmbusTelemetry::default()
    }
}

#[test]
fn test_ema_numeric_converges() {
    let mut ema: SmbusEmaState = HashMap::new();
    let incoming = make_smbus("100", "board-xyz");
    let mut existing = make_smbus("0", "board-xyz");

    // After several applications the smoothed value should approach 100
    for _ in 0..20 {
        smooth(&mut ema, 0, &incoming, &mut existing);
    }
    let v: f64 = existing.arc0_health.unwrap().parse().unwrap();
    assert!(v > 95.0, "EMA should converge toward 100, got {}", v);
}

#[test]
fn test_discrete_field_copied_verbatim() {
    let mut ema: SmbusEmaState = HashMap::new();
    let incoming = make_smbus("50", "new-board-id-abc");
    let mut existing = make_smbus("50", "old-board-id");

    smooth(&mut ema, 0, &incoming, &mut existing);
    // board_id must be replaced verbatim, not blended
    assert_eq!(existing.board_id.as_deref(), Some("new-board-id-abc"));
}

#[test]
fn test_absent_incoming_leaves_existing() {
    let mut ema: SmbusEmaState = HashMap::new();
    let incoming = SmbusTelemetry::default(); // all None
    let mut existing = make_smbus("77", "keep-me");

    smooth(&mut ema, 0, &incoming, &mut existing);
    // Both fields absent in incoming — existing must be preserved
    assert_eq!(existing.arc0_health.as_deref(), Some("77"));
    assert_eq!(existing.board_id.as_deref(), Some("keep-me"));
}

#[test]
fn test_ema_hex_string_converges() {
    let mut ema: SmbusEmaState = HashMap::new();
    // arc0_health arrives from tt-smi as a hex string like "0x10e7a" (= 68218)
    let incoming = SmbusTelemetry {
        arc0_health: Some("0x10e7a".to_owned()),
        ..SmbusTelemetry::default()
    };
    let mut existing = SmbusTelemetry {
        arc0_health: Some("0".to_owned()),
        ..SmbusTelemetry::default()
    };

    for _ in 0..20 {
        smooth(&mut ema, 0, &incoming, &mut existing);
    }

    // Output is decimal string after EMA; parse_hex_or_dec accepts decimal.
    let v: i64 = existing.arc0_health.as_deref().unwrap().parse().unwrap();
    assert!(v > 60000, "EMA should converge toward 68218, got {}", v);
    assert!(v > 0, "is_arc0_healthy equivalent check");
}

#[test]
fn test_ema_ddr_speed_hex_stable() {
    let mut ema: SmbusEmaState = HashMap::new();
    // DDR_SPEED arrives as "0x3e80" = 16000 MT/s; stable across snapshots
    let incoming = SmbusTelemetry {
        ddr_speed: Some("0x3e80".to_owned()),
        ..SmbusTelemetry::default()
    };
    let mut existing = SmbusTelemetry::default();

    for _ in 0..10 {
        smooth(&mut ema, 0, &incoming, &mut existing);
    }

    let v: i64 = existing.ddr_speed.as_deref().unwrap().parse().unwrap();
    assert_eq!(
        v, 16000,
        "stable DDR speed should converge to 16000, got {}",
        v
    );
}

#[test]
fn typed_fields_are_carried_through_the_blend() {

    let mut ema: SmbusEmaState = HashMap::new();
    let mut existing = SmbusTelemetry {
        max_gddr_temp: Some(48_000),
        gddr_corr_errs: [Some(0), Some(0), None, None],
        gddr_uncorr_errs: Some(0),
        gddr_temps: [
            Some(GddrTempPair([44_000, 45_000, 46_000, 47_000])),
            None,
            None,
            None,
        ],
        eth_live_status: Some(0xFF),
        enabled_eth: Some(0xFFF),
        enabled_tensix_col: Some(0x3FFF),
        harvesting_state: Some(0),
        enabled_gddr: Some(0xFF),
        enabled_l2cpu: Some(0xF),
        ..SmbusTelemetry::default()
    };
    let incoming = SmbusTelemetry {
        max_gddr_temp: Some(71_000),
        gddr_corr_errs: [Some(3), Some(4), None, None],
        gddr_uncorr_errs: Some(7),
        gddr_temps: [
            Some(GddrTempPair([70_000, 71_000, 69_000, 68_000])),
            None,
            None,
            None,
        ],
        eth_live_status: Some(0x0F), // half the links dropped
        enabled_eth: Some(0xFFF),
        enabled_tensix_col: Some(0x3FFE), // a column got harvested
        harvesting_state: Some(1),
        enabled_gddr: Some(0xFE),
        enabled_l2cpu: Some(0x7),
        ..SmbusTelemetry::default()
    };

    // Second apply — the case HybridBackend actually hits after the first
    // snapshot has already been cloned into `smbus_blended`.
    smooth(&mut ema, 0, &incoming, &mut existing);
    smooth(&mut ema, 0, &incoming, &mut existing);

    assert_eq!(existing.gddr_uncorr_errs, Some(7), "uncorr ECC must update");
    assert_eq!(existing.gddr_corr_errs[0], Some(3));
    assert_eq!(existing.gddr_corr_errs[1], Some(4));
    // Counters are copied straight through, never EMA-smoothed toward the
    // new value — a 7 must read as exactly 7, not 1.75 rounded.
    assert_eq!(existing.max_gddr_temp, Some(71_000), "max temp must not lag");
    assert_eq!(
        existing.gddr_temps[0],
        Some(GddrTempPair([70_000, 71_000, 69_000, 68_000]))
    );
    assert_eq!(existing.eth_live_status, Some(0x0F), "link drop must show");
    assert_eq!(existing.enabled_tensix_col, Some(0x3FFE));
    assert_eq!(existing.harvesting_state, Some(1));
    assert_eq!(existing.enabled_gddr, Some(0xFE));
    assert_eq!(existing.enabled_l2cpu, Some(0x7));
    assert_eq!(existing.enabled_eth, Some(0xFFF));
}

#[test]
fn typed_fields_absent_in_incoming_are_preserved() {
    let mut ema: SmbusEmaState = HashMap::new();
    let mut existing = SmbusTelemetry {
        gddr_uncorr_errs: Some(7),
        max_gddr_temp: Some(71_000),
        eth_live_status: Some(0xFF),
        gddr_corr_errs: [Some(3), None, None, None],
        ..SmbusTelemetry::default()
    };
    smooth(&mut ema, 0, &SmbusTelemetry::default(), &mut existing);
    assert_eq!(existing.gddr_uncorr_errs, Some(7));
    assert_eq!(existing.max_gddr_temp, Some(71_000));
    assert_eq!(existing.eth_live_status, Some(0xFF));
    assert_eq!(existing.gddr_corr_errs[0], Some(3));
}

#[test]
fn fan_sentinel_clears_a_stale_healthy_rpm() {
    let mut ema: SmbusEmaState = HashMap::new();
    let mut existing = SmbusTelemetry::default();

    // Several ticks of a real reading — enough for the EMA to settle on it.
    let healthy = SmbusTelemetry {
        fan_speed: Some("0x75a".to_owned()),
        ..SmbusTelemetry::default()
    };
    for _ in 0..10 {
        smooth(&mut ema, 0, &healthy, &mut existing);
    }
    assert_eq!(existing.fan_rpm(), Some(1882), "baseline: fan row renders");

    // The fan stops: the register now reads the no-reading sentinel.
    let stopped = SmbusTelemetry {
        fan_speed: Some("0xffffffff".to_owned()),
        ..SmbusTelemetry::default()
    };
    smooth(&mut ema, 0, &stopped, &mut existing);
    assert_eq!(
        existing.fan_rpm(),
        None,
        "a reported sentinel must clear the stale RPM, not preserve or decay it"
    );
    // …and stay cleared on subsequent ticks (no EMA tail dragging it back).
    for _ in 0..5 {
        smooth(&mut ema, 0, &stopped, &mut existing);
    }
    assert_eq!(existing.fan_rpm(), None);

    // A real reading afterwards lands immediately — the accumulator was reset,
    // so the recovering fan isn't dragged up from the stale 1882.
    smooth(&mut ema, 0, &healthy, &mut existing);
    assert_eq!(existing.fan_rpm(), Some(1882));
}

#[test]
fn fan_absent_in_incoming_preserves_existing() {
    let mut ema: SmbusEmaState = HashMap::new();
    let mut existing = SmbusTelemetry {
        fan_speed: Some("1882".to_owned()),
        ..SmbusTelemetry::default()
    };
    smooth(&mut ema, 0, &SmbusTelemetry::default(), &mut existing);
    assert_eq!(existing.fan_rpm(), Some(1882));
}

#[test]
fn fan_real_readings_still_smooth() {
    let mut ema: SmbusEmaState = HashMap::new();
    let mut existing = SmbusTelemetry {
        fan_speed: Some("1000".to_owned()),
        ..SmbusTelemetry::default()
    };
    // Seed the accumulator at 1000, then step to 2000.
    let seed = SmbusTelemetry {
        fan_speed: Some("1000".to_owned()),
        ..SmbusTelemetry::default()
    };
    smooth(&mut ema, 0, &seed, &mut existing);
    let step = SmbusTelemetry {
        fan_speed: Some("2000".to_owned()),
        ..SmbusTelemetry::default()
    };
    smooth(&mut ema, 0, &step, &mut existing);
    let v = existing.fan_rpm().unwrap();
    assert!(
        (1100..1500).contains(&v),
        "one EMA step should land ~25% of the way (got {v})"
    );
}

#[test]
fn test_non_numeric_string_passes_through() {
    let mut ema: SmbusEmaState = HashMap::new();
    let incoming = SmbusTelemetry {
        ddr_status: Some("0x55555555".to_owned()),
        ..SmbusTelemetry::default()
    };
    let mut existing = SmbusTelemetry::default();

    smooth(&mut ema, 0, &incoming, &mut existing);
    // Hex string — must be copied verbatim, not mangled
    assert_eq!(existing.ddr_status.as_deref(), Some("0x55555555"));
}

#[test]
fn blend_copies_gddr_telemetry_through_unsmoothed() {

    let ch_prev = GddrChannel {
        channel: 0,
        harvested: false,
        enabled: true,
        training_pass: true,
        bist_pass: true,
        temp_top: Some(40_000),
        temp_bottom: Some(42_000),
        corr_rd: Some(0),
        corr_wr: Some(0),
        uncorr_rd: Some(0),
        uncorr_wr: Some(0),
    };
    let mut existing = SmbusTelemetry {
        gddr_telemetry: Some(GddrTelemetry {
            speed: Some("16G".into()),
            max_temp: Some(42_000),
            enabled_mask: Some(0xff),
            channels: vec![ch_prev],
        }),
        ..SmbusTelemetry::default()
    };

    let ch_now = GddrChannel {
        temp_top: Some(60_000),
        temp_bottom: Some(62_000),
        corr_rd: Some(5),
        ..ch_prev
    };
    let incoming = SmbusTelemetry {
        gddr_telemetry: Some(GddrTelemetry {
            speed: Some("16G".into()),
            max_temp: Some(62_000),
            enabled_mask: Some(0xff),
            channels: vec![ch_now],
        }),
        ..SmbusTelemetry::default()
    };

    let mut ema: SmbusEmaState = HashMap::new();
    smooth(&mut ema, 0, &incoming, &mut existing);

    // The whole tick's incoming value wins verbatim — not an average with
    // `existing`'s prior 40/42 readings. Temps are point-in-time, ECC
    // counters are monotonic; neither is meaningful smoothed.
    assert_eq!(existing.gddr_telemetry, incoming.gddr_telemetry);
    assert_eq!(
        existing.gddr_telemetry.unwrap().channels[0].temp_top,
        Some(60_000),
        "must be this tick's reading, not an EMA toward the previous 40 degrees"
    );
}

#[test]
fn blend_touches_every_smbus_telemetry_field() {

    let incoming = SmbusTelemetry {
        board_id: Some("b".into()),
        enum_version: Some("1".into()),
        device_id: Some("d".into()),
        ddr_speed: Some("16G".into()),
        ddr_status: Some("0x2".into()),
        arc0_health: Some("healthy".into()),
        arc1_health: Some("healthy".into()),
        arc2_health: Some("healthy".into()),
        arc3_health: Some("healthy".into()),
        arc0_fw_version: Some("1.0".into()),
        arc1_fw_version: Some("1.0".into()),
        arc2_fw_version: Some("1.0".into()),
        arc3_fw_version: Some("1.0".into()),
        eth_fw_version: Some("1.0".into()),
        m3_bl_fw_version: Some("1.0".into()),
        m3_app_fw_version: Some("1.0".into()),
        spibootrom_fw_version: Some("1.0".into()),
        tt_flash_version: Some("1.0".into()),
        aiclk: Some("1000MHz".into()),
        axiclk: Some("1000MHz".into()),
        arcclk: Some("1000MHz".into()),
        asic_temperature: Some("50C".into()),
        vreg_temperature: Some("50C".into()),
        board_temperature: Some("40C".into()),
        vcore: Some("0.8V".into()),
        tdp: Some("100W".into()),
        tdc: Some("100A".into()),
        throttler: Some("0".into()),
        vdd_limits: Some("0.7-0.9".into()),
        thm_limits: Some("90".into()),
        fan_speed: Some("1000rpm".into()),
        faults: Some("0".into()),
        pcie_status: Some("Gen4 x16".into()),
        eth_status0: Some("0".into()),
        eth_status1: Some("0".into()),
        input_power: Some("100W".into()),
        board_power_limit: Some("300W".into()),
        therm_trip_count: Some("zero".into()),
        boot_date: Some("2026-01-01".into()),
        rt_seconds: Some("100s".into()),
        wh_fw_date: Some("2026-01-01".into()),
        asic_tmon0: Some("50".into()),
        asic_tmon1: Some("50".into()),
        mvddq_power: Some("5W".into()),
        gddr_train_temp0: Some("40".into()),
        gddr_train_temp1: Some("40".into()),
        aux_status: Some("0".into()),
        eth_debug_status0: Some("0".into()),
        eth_debug_status1: Some("0".into()),
        gddr_temps: [None, None, None, None],
        max_gddr_temp: Some(50_000),
        gddr_corr_errs: [None, None, None, None],
        gddr_uncorr_errs: Some(0),
        harvesting_state: Some(0),
        eth_live_status: Some(0),
        enabled_eth: Some(0),
        enabled_gddr: Some(0xff),
        enabled_l2cpu: Some(0),
        enabled_tensix_col: Some(0x3fff),
        gddr_telemetry: Some(GddrTelemetry {
            speed: None,
            max_temp: None,
            enabled_mask: None,
            channels: Vec::new(),
        }),
    };
    let mut existing = SmbusTelemetry::default();
    let mut ema: SmbusEmaState = HashMap::new();
    smooth(&mut ema, 0, &incoming, &mut existing);

    // Every field named above must have made it through apply_ema
    // unchanged (all values here are non-numeric strings or fresh
    // typed values, so no EMA-numeric reformatting applies). A whole-struct
    // comparison is what actually enforces this: it fails the moment
    // apply_ema() drops any field, named or not.
    assert_eq!(
        existing, incoming,
        "apply_ema() must copy or correctly merge every field — if this assertion fails after adding a new SmbusTelemetry field, apply_ema() is silently dropping it"
    );
}

#[test]
fn registers_are_told_from_words() {
    assert!(is_numeric("0x75a"));
    assert!(is_numeric(" 12.5 "));
    assert!(is_numeric("-3"));
    assert!(!is_numeric("16G"));
    assert!(!is_numeric("0xzz"));
    assert!(!is_numeric(""));
}

#[test]
fn devices_are_smoothed_apart() {
    let mut ema: SmbusEmaState = HashMap::new();
    let mut first = SmbusTelemetry::default();
    let mut second = SmbusTelemetry::default();
    let low = SmbusTelemetry { aiclk: Some("100".to_owned()), ..SmbusTelemetry::default() };
    let high = SmbusTelemetry { aiclk: Some("900".to_owned()), ..SmbusTelemetry::default() };
    smooth(&mut ema, 0, &low, &mut first);
    smooth(&mut ema, 1, &high, &mut second);
    assert_eq!(first.aiclk.as_deref(), Some("100"));
    assert_eq!(second.aiclk.as_deref(), Some("900"));
    smooth(&mut ema, 0, &high, &mut first);
    assert_eq!(first.aiclk.as_deref(), Some("300"));
}

#[test]
fn averages_keep_the_shape_of_their_readings() {
    assert!(shows_fraction(" 1.5\n"));
    assert!(!shows_fraction("0x3e80"));
    assert!(!shows_fraction(""));
    let average = || Smoothed { accumulator: 7, whole: -3, hundredths: "-3.25".to_string() };
    let mut shown = SmbusTelemetry::default();
    let mut ema = SmbusEmaState::new();
    let incoming = SmbusTelemetry {
        ddr_speed: Some("-3".to_string()),
        arc0_health: Some(" -3.25 ".to_string()),
        arc1_health: Some("3".to_string()),
        ..SmbusTelemetry::default()
    };
    let least = Smoothed { accumulator: 8, whole: i64::MIN, hundredths: String::new() };
    let results = vec![Some(average()), Some(average()), Some(least)];
    apply_ema(&mut ema, 0, &incoming, &mut shown, &results);
    assert_eq!(shown.ddr_speed.as_deref(), Some("-3"));
    assert_eq!(shown.arc0_health.as_deref(), Some("-3.25"));
    assert_eq!(shown.arc1_health.as_deref(), Some("-9223372036854775808"));
}
