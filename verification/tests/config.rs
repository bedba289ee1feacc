use tt_toplike::config::{AnimConfig, AnimConfigOverrides, AnimationProfile};

/// A factor in millionths as a fraction.
fn factor(millionths: i64) -> f32 {
    millionths as f32 / 1_000_000.0
}

/// The settings of a file.
fn read_overrides(text: &str) -> AnimConfigOverrides {
    let table: toml::Table = text.parse().unwrap();
    let read = |key: &str| {
        table
            .get(key)
            .and_then(|v| v.as_float())
            .map(|f| (f * 1_000_000.0).round() as i64)
    };
    AnimConfigOverrides {
        sensitivity: read("sensitivity"),
        max_particles_scale: read("max_particles_scale"),
    }
}

#[test]
fn test_normal_sensitivity() {
    let cfg = AnimConfig::from_profile(AnimationProfile::Normal);
    assert!((factor(cfg.sensitivity) - 1.0).abs() < f32::EPSILON);
}

#[test]
fn test_paranoid_sensitivity() {
    let cfg = AnimConfig::from_profile(AnimationProfile::Paranoid);
    assert!((factor(cfg.sensitivity) - 5.0).abs() < f32::EPSILON);
}

#[test]
fn test_anomalies_only_sensitivity() {
    let cfg = AnimConfig::from_profile(AnimationProfile::AnomaliesOnly);
    assert!((factor(cfg.sensitivity) - 0.2).abs() < f32::EPSILON);
}

#[test]
fn test_max_particles_normal() {
    let cfg = AnimConfig::from_profile(AnimationProfile::Normal);
    // Normal: 600 castle, 200 flow
    assert_eq!(cfg.castle_max_particles(), 600);
    assert_eq!(cfg.flow_max_particles(), 200);
}

#[test]
fn test_max_particles_paranoid() {
    let cfg = AnimConfig::from_profile(AnimationProfile::Paranoid);
    // 3× scale → 1800 castle, 600 flow
    assert_eq!(cfg.castle_max_particles(), 1800);
    assert_eq!(cfg.flow_max_particles(), 600);
}

#[test]
fn test_toml_override_sensitivity() {
    let toml = r#"sensitivity = 2.5"#;
    let overrides = read_overrides(toml);
    let base = AnimConfig::from_profile(AnimationProfile::Normal);
    let merged = base.merge(overrides);
    assert!((factor(merged.sensitivity) - 2.5).abs() < f32::EPSILON);
}

#[test]
fn test_portrait_max_particles_normal() {
    let cfg = AnimConfig::from_profile(AnimationProfile::Normal);
    // 32 * 1.0 = 32
    assert_eq!(cfg.portrait_max_particles(), 32);
}

#[test]
fn test_portrait_max_particles_paranoid() {
    let cfg = AnimConfig::from_profile(AnimationProfile::Paranoid);
    // 32 * 3.0 = 96
    assert_eq!(cfg.portrait_max_particles(), 96);
}

#[test]
fn test_toml_override_max_particles_scale() {
    let toml = r#"max_particles_scale = 1.5"#;
    let overrides = read_overrides(toml);
    let base = AnimConfig::from_profile(AnimationProfile::Normal);
    let merged = base.merge(overrides);
    // 600 * 1.5 = 900
    assert_eq!(merged.castle_max_particles(), 900);
    assert!((factor(merged.max_particles_scale) - 1.5).abs() < f32::EPSILON);
}

#[test]
fn test_anomalies_only_castle_particles() {
    let cfg = AnimConfig::from_profile(AnimationProfile::AnomaliesOnly);
    // 600 * 0.5 = 300
    assert_eq!(cfg.castle_max_particles(), 300);
}

#[test]
fn test_hyper_flow_particles() {
    let cfg = AnimConfig::from_profile(AnimationProfile::Hyper);
    // 200 * 2.0 = 400
    assert_eq!(cfg.flow_max_particles(), 400);
}

#[test]
fn test_relaxed_portrait_particles() {
    let cfg = AnimConfig::from_profile(AnimationProfile::Relaxed);
    // 32 * 0.75 = 24
    assert_eq!(cfg.portrait_max_particles(), 24);
}

#[test]
fn particles_never_fall_below_their_floor() {
    let none = AnimConfig { sensitivity: 1_000_000, max_particles_scale: 0 };
    assert_eq!(none.castle_max_particles(), 20);
    assert_eq!(none.flow_max_particles(), 10);
    assert_eq!(none.portrait_max_particles(), 4);
    let most = AnimConfig { sensitivity: 1_000_000, max_particles_scale: i64::MAX };
    assert!(most.castle_max_particles() > most.flow_max_particles());
}

#[test]
fn absent_settings_leave_the_profile() {
    let base = AnimConfig::from_profile(AnimationProfile::default());
    let merged =
        base.merge(AnimConfigOverrides { sensitivity: None, max_particles_scale: None });
    assert_eq!(merged, AnimConfig::from_profile(AnimationProfile::Normal));
}

#[test]
fn a_negative_factor_is_kept_and_leaves_the_floor() {
    let overrides = read_overrides("sensitivity = -2.5\nmax_particles_scale = -1.0");
    let merged = AnimConfig::from_profile(AnimationProfile::Normal).merge(overrides);
    assert_eq!((merged.sensitivity, merged.max_particles_scale), (-2_500_000, -1_000_000));
    assert_eq!(merged.castle_max_particles(), 20);
    assert_eq!(merged.flow_max_particles(), 10);
    assert_eq!(merged.portrait_max_particles(), 4);
}
