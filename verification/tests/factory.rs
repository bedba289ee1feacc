use tt_toplike::backend::factory::{
    auto_order, create_backend, next_backend, next_backend_on, startup_order,
    switch_to_next_backend, BackendPlan, Platform,
};
use tt_toplike::cli::{BackendType, Cli};

#[test]
fn test_next_backend_cycle() {
    // The cycle of Linux: Hybrid, Sysfs, Json, Mock, Host, Hybrid.
    let b1 = next_backend(BackendType::Hybrid);
    assert!(matches!(b1, BackendType::Sysfs));

    let b2 = next_backend(b1);
    assert!(matches!(b2, BackendType::Json));

    let b3 = next_backend(b2);
    assert!(matches!(b3, BackendType::Mock));

    let b4 = next_backend(b3);
    assert!(matches!(b4, BackendType::Host));

    let b5 = next_backend(b4);
    assert!(matches!(b5, BackendType::Hybrid));
}

#[test]
fn test_luwen_is_launch_only() {
    assert!(matches!(next_backend(BackendType::Luwen), BackendType::Mock));
    let starts = [
        BackendType::Json,
        BackendType::Mock,
        BackendType::Host,
        BackendType::Auto,
    ];
    for s in starts {
        let mut cur = s;
        for _ in 0..16 {
            cur = next_backend(cur);
            assert!(
                !matches!(cur, BackendType::Luwen),
                "cycle from {s:?} must never enter Luwen"
            );
        }
    }
}

#[test]
fn test_next_backend_cycle_non_linux() {
    let next = |bt| next_backend_on(Platform::Other, bt);
    assert!(matches!(next(BackendType::Json), BackendType::Mock));
    assert!(matches!(next(BackendType::Luwen), BackendType::Mock));
    assert!(matches!(next(BackendType::Mock), BackendType::Host));
    assert!(matches!(next(BackendType::Host), BackendType::Json));
    assert!(matches!(next(BackendType::Auto), BackendType::Json));

    let mut seen = std::collections::HashSet::new();
    let mut cur = BackendType::Json;
    for _ in 0..16 {
        cur = next(cur);
        seen.insert(format!("{:?}", cur));
    }
    for expected in ["Json", "Mock", "Host"] {
        assert!(seen.contains(expected), "cycle should visit {expected}");
    }
}

#[test]
fn test_mock_backend_always_works() {
    let mut cli = Cli::bench_default();
    cli.bench = false;
    cli.quiet = false;
    let result = create_backend(BackendType::Mock, Platform::Linux, false, &cli);
    assert!(matches!(result, Ok(BackendPlan::Mock(3))));
}

#[test]
fn remote_is_left_but_never_entered() {
    assert_eq!(next_backend(BackendType::Remote), BackendType::Hybrid);
    assert_eq!(next_backend(BackendType::Auto), BackendType::Hybrid);
    assert_eq!(next_backend_on(Platform::Other, BackendType::Remote), BackendType::Json);
}

#[test]
fn switching_runs_through_the_cycle_and_gives_up() {
    let tried: Vec<BackendType> = (0..7)
        .map(|n| switch_to_next_backend(Platform::Linux, BackendType::Json, n).unwrap())
        .collect();
    assert_eq!(
        tried,
        vec![
            BackendType::Mock,
            BackendType::Host,
            BackendType::Hybrid,
            BackendType::Sysfs,
            BackendType::Json,
            BackendType::Mock,
            BackendType::Host,
        ]
    );
    let e = switch_to_next_backend(Platform::Linux, BackendType::Json, 7).unwrap_err();
    assert_eq!(
        e.message(),
        "Initialization failed: Failed to initialize any backend after trying all options"
    );
}

#[test]
fn detection_ends_with_simulated_devices() {
    assert_eq!(
        auto_order(Platform::Linux),
        vec![BackendType::Hybrid, BackendType::Json, BackendType::Mock]
    );
    assert_eq!(auto_order(Platform::Other), vec![BackendType::Json, BackendType::Mock]);
}

#[test]
fn plans_carry_what_the_arguments_give() {
    let mut cli = Cli::bench_default();
    cli.tt_smi_path = "/opt/tt-smi".to_string();
    let plan = |bt, luwen, cli: &Cli| create_backend(bt, Platform::Linux, luwen, cli);
    assert!(matches!(plan(BackendType::Json, false, &cli), Ok(BackendPlan::Json(p)) if p == "/opt/tt-smi"));
    assert!(matches!(plan(BackendType::Hybrid, false, &cli), Ok(BackendPlan::Hybrid(p)) if p == "/opt/tt-smi"));
    assert!(matches!(plan(BackendType::Sysfs, false, &cli), Ok(BackendPlan::Sysfs)));
    assert!(matches!(plan(BackendType::Host, false, &cli), Ok(BackendPlan::Host)));
    assert!(matches!(plan(BackendType::Luwen, true, &cli), Ok(BackendPlan::Luwen)));
    assert_eq!(
        plan(BackendType::Luwen, false, &cli).unwrap_err().message(),
        "Initialization failed: Luwen backend not compiled (requires --features luwen-backend)"
    );
    assert_eq!(
        plan(BackendType::Remote, false, &cli).unwrap_err().message(),
        "Initialization failed: Remote backend requires --remote <HOST:PORT>"
    );
    cli.remote = Some("qb2-lab".to_string());
    assert!(matches!(plan(BackendType::Remote, false, &cli), Ok(BackendPlan::Remote(t)) if t == "qb2-lab"));
    assert!(matches!(plan(BackendType::Auto, false, &cli), Ok(BackendPlan::FirstOf(o)) if o.len() == 3));
}

#[test]
fn startup_tries_the_safest_first() {
    assert_eq!(
        startup_order(Platform::Linux),
        vec![BackendType::Sysfs, BackendType::Json, BackendType::Mock]
    );
    assert_eq!(startup_order(Platform::Other), vec![BackendType::Json, BackendType::Mock]);
}
