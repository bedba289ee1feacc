use tt_toplike::backend::host::{
    core_grid, cpu_package_temp_millideg, rapl_energy_uj, ChipSensor, HostBackend, HostReading, SensorChip,
};
use tt_toplike::backend::TelemetryBackend;
use tt_toplike::models::Architecture;

fn reading() -> HostReading {
    HostReading {
        current: "1.5".to_string(),
        power: "12.25".to_string(),
        temperature: Some("45.000".to_string()),
        max_freq_mhz: 3600,
        fill_pct: 42,
    }
}

#[test]
fn test_host_backend_init_and_update() {
    let mut backend = HostBackend::new();
    assert!(backend.register(16, Some("Test CPU".to_string())).is_ok());
    assert!(!backend.devices().is_empty(), "should discover at least one device");

    let dev = &backend.devices()[0];
    assert_eq!(dev.architecture, Architecture::Unknown);
    assert!(dev.bus_id.starts_with("socket:"));

    backend.sample_socket(0, reading(), 3);
    assert!(backend.telemetry(0).is_some());
    let t = backend.telemetry(0).unwrap();
    assert!(t.aiclk.unwrap_or(0) > 0, "CPU frequency should be non-zero");
    assert!(t.power.is_some());
    assert_eq!(t.voltage, None);
    assert_eq!(t.timestamp_ms, 3);
    let s = backend.smbus_telemetry(0).unwrap();
    assert_eq!(s.ddr_speed.as_deref(), Some("5600"));
    assert_eq!(s.ddr_status.as_deref(), Some("42%"));
    assert!(s.is_arc0_healthy());
}

#[test]
fn test_host_device_has_renderable_geometry() {
    let mut backend = HostBackend::new();
    backend.register(6, None).unwrap();
    let dev = &backend.devices()[0];
    let (rows, cols) = dev.tensix_grid();
    assert!(rows > 0 && cols > 0);
    assert!(dev.memory_channels() >= 1);
    assert_eq!((rows, cols), (2, 3));
    assert_eq!(dev.memory_channels(), 4);
}

#[test]
fn test_host_backend_info() {
    let mut backend = HostBackend::new();
    backend.register(8, Some("Test CPU".to_string())).unwrap();
    let info = backend.backend_info();
    assert!(info.starts_with("Host ("));
    assert_eq!(info, "Host (Test CPU — 8 cores, 1 sockets)");
}

#[test]
fn grids_are_near_squares() {
    for (n, grid) in [
        (1, (1, 1)),
        (2, (1, 2)),
        (3, (2, 2)),
        (5, (2, 3)),
        (9, (3, 3)),
        (10, (3, 4)),
        (64, (8, 8)),
        (96, (10, 10)),
    ] {
        assert_eq!(core_grid(n), grid, "{n}");
    }
}

#[test]
fn no_cores_is_an_error() {
    let mut backend = HostBackend::new();
    assert_eq!(
        backend.register(0, None).unwrap_err().message(),
        "Initialization failed: sysinfo: no CPU cores found"
    );
    assert!(backend.devices().is_empty());
}

#[test]
fn energy_is_measured_between_readings() {
    let mut b = HostBackend::new();
    assert_eq!(b.sample_energy(0, Some(500), 1_000), None);
    assert_eq!(b.sample_energy(0, Some(2_500), 3_000), Some((2_000, 2_000)));
    // The counter wrapped.
    assert_eq!(b.sample_energy(0, Some(10), 4_000), None);
    assert_eq!(b.sample_energy(0, Some(10), 4_000), None);
    assert_eq!(b.sample_energy(0, None, 5_000), None);
    b.seed_energy(1, Some(7));
    assert_eq!(b.sample_energy(1, Some(8), 6_000), Some((1, 1_000)));
}

#[test]
fn the_first_counter_that_holds_a_number_is_read() {
    assert_eq!(
        rapl_energy_uj(&vec![None, Some(" 12 \n".to_string()), Some("13".to_string())]),
        Some(12)
    );
    assert_eq!(rapl_energy_uj(&vec![Some("x".to_string()), Some("13".to_string())]), Some(13));
    assert_eq!(rapl_energy_uj(&vec![None]), None);
}

#[test]
fn the_temperature_of_the_socket_is_found() {
    let chip = |name: Option<&str>, sensors: &[(&str, Option<&str>)]| SensorChip {
        name: name.map(str::to_string),
        sensors: sensors
            .iter()
            .map(|(l, i)| ChipSensor { label: l.to_string(), input: i.map(str::to_string) })
            .collect(),
    };
    let chips = vec![
        chip(Some("nvme\n"), &[("Package id 0", Some("99000"))]),
        chip(
            Some("coretemp\n"),
            &[("Core 0", Some("41000")), ("Package id 1\n", Some("52500\n")), ("Package id 0", None)],
        ),
        chip(Some("k10temp"), &[("Tdie", Some("61250"))]),
    ];
    assert_eq!(cpu_package_temp_millideg(&chips, 1).as_deref(), Some("52500"));
    assert_eq!(cpu_package_temp_millideg(&chips, 0).as_deref(), Some("61250"));
    assert_eq!(cpu_package_temp_millideg(&chips, 2), None);
    let fraction = vec![chip(Some("k10temp"), &[("Tdie", Some("x")), ("Tccd1", Some("61250.5\n"))])];
    assert_eq!(cpu_package_temp_millideg(&fraction, 0).as_deref(), Some("61250.5"));
    let blocked = vec![chip(None, &[]), chip(Some("k10temp"), &[("Tdie", Some("61250"))])];
    assert_eq!(cpu_package_temp_millideg(&blocked, 0), None);
}
