use std::collections::hash_map::RandomState;
use std::hash::BuildHasher;

use tt_toplike::backend::mock::{
    generate_smbus_telemetry, generate_telemetry, MockBackend, MockScenario, Noise, Swing,
};
use tt_toplike::backend::TelemetryBackend;
use tt_toplike::error::BackendResult;
use tt_toplike::models::Architecture;

fn draw() -> u64 {
    RandomState::new().hash_one(0)
}

fn swing(count: usize) -> Swing {
    let t = count as f64 * 0.1;
    Swing {
        power_mw: (t.sin() * 8000.0) as i32,
        temp_millideg: (t.sin() * 5000.0) as i32,
        aiclk_mhz: (t.cos() * 100.0) as i32,
        gddr_millideg: (t.sin() * 4000.0).abs() as u32,
    }
}

fn noise(n: usize) -> Vec<Noise> {
    (0..n)
        .map(|_| Noise { power: draw(), temperature: draw(), voltage: draw() })
        .collect()
}

fn start(b: &mut MockBackend) -> BackendResult<()> {
    let draws = noise(b.device_count);
    b.init(&swing(b.update_count), &draws, 0)
}

fn again(b: &mut MockBackend) -> BackendResult<()> {
    let draws = noise(b.device_count);
    b.update(&swing(b.update_count + 1), &draws, 0)
}

fn watts(b: &MockBackend) -> f64 {
    b.telemetry(0).unwrap().power.as_ref().unwrap().parse().unwrap()
}

#[test]
fn test_mock_backend_creation() {
    let backend = MockBackend::new(3);
    assert_eq!(backend.device_count, 3);
    assert_eq!(backend.devices.len(), 0);
}

#[test]
fn test_mock_backend_init() {
    let mut backend = MockBackend::new(2);
    assert!(start(&mut backend).is_ok());
    assert_eq!(backend.devices().len(), 2);
    assert!(backend.has_telemetry(0));
    assert!(backend.has_telemetry(1));
    assert!(!backend.has_telemetry(2)); // Out of bounds
}

#[test]
fn test_mock_backend_architectures() {
    let mut backend = MockBackend::new(6);
    start(&mut backend).unwrap();

    // Should cycle through architectures: GS, WH, BH, GS, WH, BH
    assert_eq!(backend.devices()[0].architecture, Architecture::Grayskull);
    assert_eq!(backend.devices()[1].architecture, Architecture::Wormhole);
    assert_eq!(backend.devices()[2].architecture, Architecture::Blackhole);
    assert_eq!(backend.devices()[3].architecture, Architecture::Grayskull);
    assert_eq!(backend.devices()[4].architecture, Architecture::Wormhole);
    assert_eq!(backend.devices()[5].architecture, Architecture::Blackhole);
}

#[test]
fn test_mock_backend_telemetry_variation() {
    let mut backend = MockBackend::new(1);
    start(&mut backend).unwrap();

    let power1 = watts(&backend);

    again(&mut backend).unwrap();
    let power2 = watts(&backend);

    again(&mut backend).unwrap();
    let power3 = watts(&backend);

    // Power should vary between updates
    assert!(power1 != power2 || power2 != power3);
    assert!(power1 > 0.0 && power1 < 200.0);
}

#[test]
fn test_mock_backend_smbus() {
    let mut backend = MockBackend::new(1);
    start(&mut backend).unwrap();

    let smbus = backend.smbus_telemetry(0).unwrap();

    assert!(smbus.ddr_speed.is_some());
    assert!(smbus.ddr_status.is_some());
    assert!(smbus.arc0_health.is_some());
    assert!(smbus.is_arc0_healthy()); // Should be healthy in mock
}

#[test]
fn test_mock_backend_ddr_channels() {
    let mut backend = MockBackend::new(3);
    start(&mut backend).unwrap();

    // Device 0: Grayskull (4 channels)
    assert_eq!(backend.devices()[0].memory_channels(), 4);

    // Device 1: Wormhole (8 channels)
    assert_eq!(backend.devices()[1].memory_channels(), 8);

    // Device 2: Blackhole (12 channels)
    assert_eq!(backend.devices()[2].memory_channels(), 12);
}

#[test]
fn test_mock_backend_zero_devices() {
    let mut backend = MockBackend::new(0);
    assert!(start(&mut backend).is_err()); // Should fail
}

#[test]
fn test_galaxy_mock_has_32_devices() {
    let mut b = MockBackend::with_scenario(MockScenario::Galaxy);
    start(&mut b).unwrap();
    assert_eq!(b.devices().len(), 32);
    assert!(b
        .devices()
        .iter()
        .all(|d| d.architecture == Architecture::Blackhole));
}

#[test]
fn test_quad_galaxy_mock_has_128_devices() {
    let mut b = MockBackend::with_scenario(MockScenario::QuadGalaxy);
    start(&mut b).unwrap();
    assert_eq!(b.devices().len(), 128);
    assert!(b
        .devices()
        .iter()
        .all(|d| d.architecture == Architecture::Blackhole));
}

#[test]
fn test_wormhole_cluster_mock() {
    let mut b = MockBackend::with_scenario(MockScenario::WormholeCluster);
    start(&mut b).unwrap();
    assert_eq!(b.devices().len(), 32);
    assert!(b
        .devices()
        .iter()
        .all(|d| d.architecture == Architecture::Wormhole));
}

#[test]
fn test_mock_firmwares_populated() {
    let mut b = MockBackend::with_scenario(MockScenario::Galaxy);
    start(&mut b).unwrap();
    for d in b.devices() {
        assert!(
            d.firmwares.is_some(),
            "device {} missing firmwares",
            d.index
        );
        assert!(d.firmwares.as_ref().unwrap().fw_bundle_version.is_some());
    }
}

#[test]
fn test_mock_limits_populated() {
    let mut b = MockBackend::with_scenario(MockScenario::Galaxy);
    start(&mut b).unwrap();
    for d in b.devices() {
        assert!(d.limits.is_some(), "device {} missing limits", d.index);
        assert_eq!(d.limits.as_ref().unwrap().tdp_limit, Some("300.0".to_string()));
    }
}

#[test]
fn test_mock_gddr_temps_valid_range() {
    let mut b = MockBackend::with_scenario(MockScenario::Galaxy);
    start(&mut b).unwrap();
    for idx in 0..b.devices().len() {
        if let Some(smbus) = b.smbus_telemetry(idx) {
            for pair in smbus.gddr_temps.iter().flatten() {
                for &t in pair.0.iter() {
                    assert!(
                        t <= 100_000,
                        "GDDR temp {} out of range for dev {}",
                        t,
                        idx
                    );
                }
            }
        }
    }
}

#[test]
fn test_mock_quad_galaxy_some_harvesting() {
    let mut b = MockBackend::with_scenario(MockScenario::QuadGalaxy);
    start(&mut b).unwrap();
    // At least some devices should have non-full enabled_tensix_col (harvested cols)
    let any_harvested = b.devices().iter().any(|d| {
        b.smbus_telemetry(d.index)
            .and_then(|s| s.enabled_tensix_col)
            .map(|v| v != 0x3FFF)
            .unwrap_or(false)
    });
    assert!(
        any_harvested,
        "QuadGalaxy mock should have some harvested columns"
    );
}

#[test]
fn readings_are_exact_for_given_noise() {
    let still = Swing { power_mw: 0, temp_millideg: 0, aiclk_mhz: 0, gddr_millideg: 0 };
    let draws = Noise { power: 1500, temperature: 999, voltage: 0 };
    let t = generate_telemetry(8, Architecture::Wormhole, &still, &draws, 7);
    assert_eq!(t.power.as_deref(), Some("55.000"));
    assert_eq!(t.asic_temperature.as_deref(), Some("54.496"));
    assert_eq!(t.voltage.as_deref(), Some("0.830000"));
    assert_eq!(t.current.as_deref(), Some("66.265060"));
    assert_eq!(t.aiclk, Some(943));
    assert_eq!(t.heartbeat, Some(1));
    assert_eq!(t.timestamp_ms, 7);
}

#[test]
fn readings_stay_in_range_for_any_swing() {
    let wild = Swing {
        power_mw: i32::MAX,
        temp_millideg: i32::MIN,
        aiclk_mhz: i32::MAX,
        gddr_millideg: 0,
    };
    let draws = Noise { power: u64::MAX, temperature: 3, voltage: u64::MAX };
    let t = generate_telemetry(0, Architecture::Unknown, &wild, &draws, 0);
    assert_eq!(t.power.as_deref(), Some("60.000"));
    assert_eq!(t.asic_temperature.as_deref(), Some("25.000"));
    assert_eq!(t.aiclk, Some(1200));
}

#[test]
fn smbus_values_are_exact() {
    let still = Swing { power_mw: 0, temp_millideg: 0, aiclk_mhz: 0, gddr_millideg: 500 };
    let s = generate_smbus_telemetry(17, 8, MockScenario::QuadGalaxy, 300, &still);
    assert_eq!(s.board_id.as_deref(), Some("BOARD_0017"));
    assert_eq!(s.device_id.as_deref(), Some("DEV_17"));
    assert_eq!(s.ddr_status.as_deref(), Some("43690"));
    assert_eq!(s.arc0_health.as_deref(), Some("165"));
    assert_eq!(s.rt_seconds.as_deref(), Some("30000"));
    assert_eq!(s.enabled_tensix_col, Some(0x3FFE));
    assert_eq!(s.harvesting_state, Some(1));
    assert_eq!(s.gddr_temps[0].unwrap().0, [40_500, 42_500, 44_500, 46_500]);
    assert_eq!(s.max_gddr_temp, Some(46_500));
    let other = generate_smbus_telemetry(12_345, 4, MockScenario::Mixed, 0, &still);
    assert_eq!(other.board_id.as_deref(), Some("BOARD_12345"));
    assert_eq!(other.ddr_status.as_deref(), Some("170"));
    assert_eq!(other.enabled_tensix_col, Some(0x3FFF));
}

#[test]
fn devices_have_addresses_and_coordinates() {
    let mut b = MockBackend::with_scenario(MockScenario::QuadGalaxy);
    start(&mut b).unwrap();
    assert_eq!(b.devices()[0].bus_id, "0000:01:00.0");
    assert_eq!(b.devices()[14].bus_id, "0000:0f:00.0");
    assert_eq!(b.devices()[127].bus_id, "0000:80:00.0");
    assert_eq!(b.devices()[127].coords, "(15,7)");
    assert_eq!(b.backend_info(), "Mock (128 devices)");
    assert_eq!(b.snapshot_json(), None);
}

#[test]
fn no_devices_is_the_named_error() {
    let mut b = MockBackend::new(0);
    assert_eq!(
        start(&mut b).unwrap_err().message(),
        "Device not found: Cannot create mock backend with 0 devices"
    );
}

#[test]
fn power_stays_within_ten_watts_of_the_base() {
    let peak = Swing { power_mw: 8_000, temp_millideg: 0, aiclk_mhz: 0, gddr_millideg: 0 };
    let power = |noise: u64| {
        let draws = Noise { power: noise, temperature: 500, voltage: 500 };
        generate_telemetry(0, Architecture::Grayskull, &peak, &draws, 0).power.unwrap()
    };
    assert_eq!(power(500), "48.000");
    assert_eq!(power(800), "49.800");
    assert_eq!(power(999), "50.000");
}
