use tt_toplike::cli::{backend_shows_only_tt, BackendType, Cli};
use tt_toplike::config::AnimationProfile;
use tt_toplike::logging::LevelFilter;

#[test]
fn test_default_cli() {
    // Simulate default args
    let cli = Cli {
        backend: BackendType::Auto,
        mock: None,
        json: false,
        host: false,
        remote: None,
        tt_smi_path: "tt-smi".to_string(),
        interval: 100,
        devices: None,
        verbose: false,
        quiet: false,
        mock_devices: 3,
        max_errors: 10,
        timeout: 5000,
        visualize: false,
        workload: false,
        print: false,
        mode: None,
        profile: AnimationProfile::Normal,
        bench: false,
        throttle: false,
        idle_on_blur: false,
    };

    assert_eq!(cli.effective_backend(), BackendType::Auto);
    assert_eq!(cli.interval, 100);
    assert!(cli.should_monitor_device(0));
    assert!(cli.should_monitor_device(999));
    // Default is quiet: Warn (only surfaces problems; -v raises to Debug).
    assert_eq!(cli.log_level(), LevelFilter::Warn);
}

#[test]
fn test_mock_shortcut() {
    let cli = Cli {
        backend: BackendType::Auto,
        mock: Some(0),
        json: false,
        host: false,
        remote: None,
        tt_smi_path: "tt-smi".to_string(),
        interval: 100,
        devices: None,
        verbose: false,
        quiet: false,
        mock_devices: 3,
        max_errors: 10,
        timeout: 5000,
        visualize: false,
        workload: false,
        print: false,
        mode: None,
        profile: AnimationProfile::Normal,
        bench: false,
        throttle: false,
        idle_on_blur: false,
    };

    assert_eq!(cli.effective_backend(), BackendType::Mock);
}

#[test]
fn test_json_shortcut() {
    let cli = Cli {
        backend: BackendType::Auto,
        mock: None,
        json: true,
        host: false,
        remote: None,
        tt_smi_path: "tt-smi".to_string(),
        interval: 100,
        devices: None,
        verbose: false,
        quiet: false,
        mock_devices: 3,
        max_errors: 10,
        timeout: 5000,
        visualize: false,
        workload: false,
        print: false,
        mode: None,
        profile: AnimationProfile::Normal,
        bench: false,
        throttle: false,
        idle_on_blur: false,
    };

    assert_eq!(cli.effective_backend(), BackendType::Json);
}

#[test]
fn test_device_filtering() {
    let cli = Cli {
        backend: BackendType::Auto,
        mock: None,
        json: false,
        host: false,
        remote: None,
        tt_smi_path: "tt-smi".to_string(),
        interval: 100,
        devices: Some(vec![0, 2, 4]),
        verbose: false,
        quiet: false,
        mock_devices: 3,
        max_errors: 10,
        timeout: 5000,
        visualize: false,
        workload: false,
        print: false,
        mode: None,
        profile: AnimationProfile::Normal,
        bench: false,
        throttle: false,
        idle_on_blur: false,
    };

    assert!(cli.should_monitor_device(0));
    assert!(!cli.should_monitor_device(1));
    assert!(cli.should_monitor_device(2));
    assert!(!cli.should_monitor_device(3));
    assert!(cli.should_monitor_device(4));
}

#[test]
fn test_verbose_quiet() {
    let verbose_cli = Cli {
        backend: BackendType::Auto,
        mock: None,
        json: false,
        host: false,
        remote: None,
        tt_smi_path: "tt-smi".to_string(),
        interval: 100,
        devices: None,
        verbose: true,
        quiet: false,
        mock_devices: 3,
        max_errors: 10,
        timeout: 5000,
        visualize: false,
        workload: false,
        print: false,
        mode: None,
        profile: AnimationProfile::Normal,
        bench: false,
        throttle: false,
        idle_on_blur: false,
    };

    assert_eq!(verbose_cli.log_level(), LevelFilter::Debug);

    let quiet_cli = Cli {
        backend: BackendType::Auto,
        mock: None,
        json: false,
        host: false,
        remote: None,
        tt_smi_path: "tt-smi".to_string(),
        interval: 100,
        devices: None,
        verbose: false,
        quiet: true,
        mock_devices: 3,
        max_errors: 10,
        timeout: 5000,
        visualize: false,
        workload: false,
        print: false,
        mode: None,
        profile: AnimationProfile::Normal,
        bench: false,
        throttle: false,
        idle_on_blur: false,
    };

    assert_eq!(quiet_cli.log_level(), LevelFilter::Off);
}

#[test]
fn test_luwen_validation() {
    let cli = Cli {
        backend: BackendType::Luwen,
        mock: None,
        json: false,
        host: false,
        remote: None,
        tt_smi_path: "tt-smi".to_string(),
        interval: 100,
        devices: None,
        verbose: false,
        quiet: false,
        mock_devices: 3,
        max_errors: 10,
        timeout: 5000,
        visualize: false,
        workload: false,
        print: false,
        mode: None,
        profile: AnimationProfile::Normal,
        bench: false,
        throttle: false,
        idle_on_blur: false,
    };

    assert!(cli.validate(false).is_err());
}

#[test]
fn test_backend_names() {
    let auto_cli = Cli {
        backend: BackendType::Auto,
        mock: None,
        json: false,
        host: false,
        remote: None,
        tt_smi_path: "tt-smi".to_string(),
        interval: 100,
        devices: None,
        verbose: false,
        quiet: false,
        mock_devices: 3,
        max_errors: 10,
        timeout: 5000,
        visualize: false,
        workload: false,
        print: false,
        mode: None,
        profile: AnimationProfile::Normal,
        bench: false,
        throttle: false,
        idle_on_blur: false,
    };

    assert_eq!(auto_cli.backend_name(), "Auto-detect");

    let mock_cli = Cli {
        backend: BackendType::Mock,
        mock: Some(0),
        json: false,
        host: false,
        remote: None,
        tt_smi_path: "tt-smi".to_string(),
        interval: 100,
        devices: None,
        verbose: false,
        quiet: false,
        mock_devices: 3,
        max_errors: 10,
        timeout: 5000,
        visualize: false,
        workload: false,
        print: false,
        mode: None,
        profile: AnimationProfile::Normal,
        bench: false,
        throttle: false,
        idle_on_blur: false,
    };

    assert_eq!(mock_cli.backend_name(), "Mock");
}

fn mock_cli_with(mock: Option<usize>, mock_devices: usize) -> Cli {
    Cli {
        backend: BackendType::Auto,
        mock,
        json: false,
        host: false,
        remote: None,
        tt_smi_path: "tt-smi".to_string(),
        interval: 100,
        devices: None,
        verbose: false,
        quiet: false,
        mock_devices,
        max_errors: 10,
        timeout: 5000,
        visualize: false,
        workload: false,
        print: false,
        mode: None,
        profile: AnimationProfile::Normal,
        bench: false,
        throttle: false,
        idle_on_blur: false,
    }
}

#[test]
fn tt_filter_applies_to_real_tt_backends_only() {
        assert!(!backend_shows_only_tt(BackendType::Host));
    assert!(!backend_shows_only_tt(BackendType::Mock));
    // Remote: process list is the LOCAL machine's, not the remote chips' —
    // show it unfiltered like Host/Mock.
    assert!(!backend_shows_only_tt(BackendType::Remote));
    assert!(backend_shows_only_tt(BackendType::Json));
    assert!(backend_shows_only_tt(BackendType::Luwen));
        assert!(backend_shows_only_tt(BackendType::Sysfs));
        assert!(backend_shows_only_tt(BackendType::Hybrid));
}

#[test]
fn test_effective_mock_devices() {
    // mock=None: falls back to mock_devices default
    assert_eq!(mock_cli_with(None, 3).effective_mock_devices(), 3);

    // mock=Some(0): sentinel for bare --mock, falls back to mock_devices
    assert_eq!(mock_cli_with(Some(0), 3).effective_mock_devices(), 3);

    // mock=Some(0) with custom mock_devices: still falls back to that value
    assert_eq!(mock_cli_with(Some(0), 8).effective_mock_devices(), 8);

    // mock=Some(N > 0): inline count takes precedence over mock_devices
    assert_eq!(mock_cli_with(Some(32), 3).effective_mock_devices(), 32);

    // mock=Some(1): edge — 1 > 0 so inline count wins
    assert_eq!(mock_cli_with(Some(1), 5).effective_mock_devices(), 1);
}

#[test]
fn shortcuts_go_before_the_backend_option() {
    let mut cli = mock_cli_with(None, 3);
    cli.backend = BackendType::Sysfs;
    assert_eq!(cli.effective_backend(), BackendType::Sysfs);
    cli.remote = Some("qb2-lab".to_string());
    assert_eq!(cli.effective_backend(), BackendType::Remote);
    cli.host = true;
    assert_eq!(cli.effective_backend(), BackendType::Host);
    cli.json = true;
    assert_eq!(cli.effective_backend(), BackendType::Json);
    cli.mock = Some(4);
    assert_eq!(cli.effective_backend(), BackendType::Mock);
    let resolved = Cli::parse_args(cli);
    assert_eq!(resolved.backend, BackendType::Mock);
    assert_eq!(resolved.effective_backend(), BackendType::Mock);
}

#[test]
fn every_backend_has_a_name() {
    for (bt, name) in [
        (BackendType::Auto, "Auto-detect"),
        (BackendType::Mock, "Mock"),
        (BackendType::Json, "JSON (tt-smi)"),
        (BackendType::Luwen, "Luwen (Direct HW)"),
        (BackendType::Sysfs, "Sysfs (hwmon sensors)"),
        (BackendType::Hybrid, "Hybrid (sysfs + tt-smi cache)"),
        (BackendType::Host, "Host (CPU/RAM via sysinfo)"),
        (BackendType::Remote, "Remote (WebSocket QuietBox)"),
    ] {
        let mut cli = mock_cli_with(None, 3);
        cli.backend = bt;
        assert_eq!(cli.backend_name(), name);
    }
}

#[test]
fn ignored_options_are_warned_of() {
    let mut cli = mock_cli_with(Some(0), 3);
    assert!(cli.warnings().is_empty());
    cli.tt_smi_path = "/opt/tt-smi".to_string();
    assert_eq!(
        cli.warnings(),
        vec!["Warning: --tt-smi-path ignored when using mock backend".to_string()]
    );
    let other = mock_cli_with(None, 8);
    assert_eq!(
        other.warnings(),
        vec!["Warning: --mock-devices ignored when not using mock backend".to_string()]
    );
}

#[test]
fn direct_access_is_valid_where_it_is_compiled_in() {
    let mut cli = mock_cli_with(None, 3);
    cli.backend = BackendType::Luwen;
    assert!(cli.validate(true).is_ok());
    assert_eq!(
        cli.validate(false).unwrap_err(),
        "Luwen backend not enabled. Rebuild with: cargo build --features luwen-backend"
    );
}

#[test]
fn benchmark_arguments_are_quiet_and_simulated() {
    let cli = Cli::bench_default();
    assert!(cli.bench && cli.quiet && !cli.verbose);
    assert_eq!(cli.effective_backend(), BackendType::Mock);
    assert_eq!(cli.effective_mock_devices(), 3);
    assert_eq!(cli.log_level(), LevelFilter::Off);
    assert_eq!(cli.interval, 100);
    assert_eq!(cli.timeout, 5000);
}
