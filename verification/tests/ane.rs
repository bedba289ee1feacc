use tt_toplike::backend::ane::{energy_to_uj, sum_ane_energy_uj, EnergyChannel};

fn channel(name: Option<&str>, unit: Option<&str>, raw: i64) -> EnergyChannel {
    EnergyChannel { name: name.map(str::to_string), unit: unit.map(str::to_string), raw }
}

#[test]
fn units_become_microjoules() {
    assert_eq!(energy_to_uj(5_999, "nJ"), 5);
    assert_eq!(energy_to_uj(7, " uJ "), 7);
    assert_eq!(energy_to_uj(7, "µJ"), 7);
    assert_eq!(energy_to_uj(7, "mJ"), 7_000);
    assert_eq!(energy_to_uj(7, "other"), 7_000);
    assert_eq!(energy_to_uj(i64::MAX, "mJ"), i64::MAX);
    assert_eq!(energy_to_uj(-5_999, "nJ"), -5);
    assert_eq!(energy_to_uj(i64::MIN, "nJ"), i64::MIN / 1_000);
    assert_eq!(energy_to_uj(i64::MIN, "mJ"), i64::MIN);
}

#[test]
fn only_the_channels_of_the_engine_count() {
    let channels = vec![
        channel(Some("ANE"), Some("mJ"), 2),
        channel(Some("GPU"), Some("mJ"), 100),
        channel(Some("ANE"), Some("uJ"), 30),
        channel(Some("ANE"), Some("uJ"), -4),
        channel(Some("ANE"), None, 1),
        channel(None, Some("uJ"), 9),
    ];
    assert_eq!(sum_ane_energy_uj(&channels), 3_030);
    assert_eq!(sum_ane_energy_uj(&Vec::new()), 0);
    let huge = vec![
        channel(Some("ANE"), Some("uJ"), i64::MAX),
        channel(Some("ANE"), Some("uJ"), 1),
    ];
    assert_eq!(sum_ane_energy_uj(&huge), i64::MAX as u64);
}
