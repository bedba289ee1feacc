use tt_toplike::backend::pcie_counters::{
    format_bandwidth, in_counters, out_counters, read_counters, CounterFiles, PcieCounterSnapshot,
    PcieRateTracker,
};

const SECOND: u64 = 1_000_000_000;

/// The text of a rate, in bytes a second.
fn rate(bytes_per_sec: f64) -> String {
    format_bandwidth((bytes_per_sec * 1000.0).round() as u128, 1000 * SECOND)
}

#[test]
fn read_counters_sums_directions() {
    let base: u64 = 1000;
    let files = [
        ("mst_nonposted_wr_data_word_sent0", base + 100),
        ("mst_nonposted_wr_data_word_sent1", 0),
        ("mst_posted_wr_data_word_sent0", base + 200),
        ("mst_posted_wr_data_word_sent1", 0),
        ("mst_rd_data_word_received0", base + 300),
        ("mst_rd_data_word_received1", 0),
        ("slv_nonposted_wr_data_word_received0", base + 400),
        ("slv_nonposted_wr_data_word_received1", 7),
        ("slv_posted_wr_data_word_received0", base + 500),
        ("slv_posted_wr_data_word_received1", 0),
        ("slv_rd_data_word_sent0", base + 600),
        ("slv_rd_data_word_sent1", 3),
    ];
    let read = |names: Vec<&'static str>| -> Vec<Option<String>> {
        names
            .iter()
            .map(|n| files.iter().find(|(f, _)| f == n).map(|(_, v)| v.to_string()))
            .collect()
    };
    let dir = CounterFiles { in_files: read(in_counters()), out_files: read(out_counters()) };
    let snap = read_counters(&Some(dir)).expect("dir readable");
    // (1400+7) + 1500 + 1300
    assert_eq!(snap.words_in, 4207);
    // (1600+3) + 1200 + 1100
    assert_eq!(snap.words_out, 3903);
}

#[test]
fn read_counters_missing_dir_is_none() {
    assert!(read_counters(&None).is_none());
}

#[test]
fn a_directory_without_a_readable_file_gives_no_snapshot() {
    let unreadable = || -> Vec<Option<String>> { vec![None; 6] };
    let none = CounterFiles { in_files: unreadable(), out_files: unreadable() };
    assert!(read_counters(&Some(none)).is_none());
    let empty = CounterFiles { in_files: vec![], out_files: vec![] };
    assert!(read_counters(&Some(empty)).is_none());
    // One file that can be read is enough, and what holds no number counts as 0.
    let mut one = CounterFiles { in_files: unreadable(), out_files: unreadable() };
    one.out_files[3] = Some("12\n".to_string());
    let snap = read_counters(&Some(one)).unwrap();
    assert_eq!((snap.words_in, snap.words_out), (0, 12));
    let mut bad = CounterFiles { in_files: unreadable(), out_files: unreadable() };
    bad.in_files[0] = Some("words".to_string());
    let snap = read_counters(&Some(bad)).unwrap();
    assert_eq!((snap.words_in, snap.words_out), (0, 0));
}

#[test]
fn rate_tracker_computes_bytes_per_sec() {
    let mut tracker = PcieRateTracker::new();
    // The first sample only primes the tracker.
    assert!(tracker
        .sample(PcieCounterSnapshot { words_in: 1000, words_out: 500 }, 0)
        .is_none());
    // 2 s later: +2000 words in, +1000 words out, 4 bytes each.
    let bw = tracker
        .sample(PcieCounterSnapshot { words_in: 3000, words_out: 1500 }, 2 * SECOND)
        .unwrap();
    let secs = bw.window_ns as f64 / 1e9;
    assert!((bw.rx_bytes as f64 / secs - 4000.0).abs() < 1e-6);
    assert!((bw.tx_bytes as f64 / secs - 2000.0).abs() < 1e-6);
}

#[test]
fn rate_tracker_counter_reset_yields_zero_not_negative() {
    let mut tracker = PcieRateTracker::new();
    tracker.sample(PcieCounterSnapshot { words_in: 5000, words_out: 5000 }, 0);
    let bw = tracker
        .sample(PcieCounterSnapshot { words_in: 10, words_out: 10 }, SECOND)
        .unwrap();
    assert_eq!(bw.rx_bytes, 0);
    assert_eq!(bw.tx_bytes, 0);
}

#[test]
fn no_time_gives_no_rate() {
    let mut tracker = PcieRateTracker::new();
    let snap = PcieCounterSnapshot { words_in: 1, words_out: 1 };
    assert!(tracker.sample(snap, 5).is_none());
    assert!(tracker.sample(snap, 5).is_none());
    assert!(tracker.sample(snap, 4).is_none());
}

#[test]
fn rates_round_to_the_even_neighbour() {
    assert_eq!(format_bandwidth(1, 2 * SECOND), "0 B/s");
    assert_eq!(format_bandwidth(3, 2 * SECOND), "2 B/s");
    assert_eq!(format_bandwidth(1_125, SECOND), "1.12 kB/s");
    assert_eq!(format_bandwidth(1_375, SECOND), "1.38 kB/s");
}

#[test]
fn the_last_unit_is_cut_to_four_digits() {
    assert_eq!(format_bandwidth(2_000_000_000_000_000, SECOND), "2000 TB/s");
    assert_eq!(format_bandwidth(9_999_000_000_000_000, SECOND), "9999 TB/s");
    assert_eq!(format_bandwidth(9_999_500_000_000_000, SECOND), "9999 TB/s");
    assert_eq!(format_bandwidth(10_000_000_000_000_000, SECOND), "9999 TB/s");
    assert_eq!(format_bandwidth(0x4_0000_0000_0000_0000, 1), "9999 TB/s");
}

#[test]
fn format_bandwidth_picks_sane_units() {
    assert_eq!(rate(0.0), "0 B/s");
    assert_eq!(rate(950.0), "950 B/s");
    assert_eq!(rate(12_300.0), "12.3 kB/s");
    assert_eq!(rate(340_000_000.0), "340 MB/s");
    assert_eq!(rate(1_230_000_000.0), "1.23 GB/s");
}

#[test]
fn format_bandwidth_new_tier_boundary_pins() {
    assert_eq!(rate(31_500_000_000.0), "31.5 GB/s");
    assert_eq!(rate(999_990.0), "1000 kB/s");
}

#[test]
fn format_bandwidth_output_never_exceeds_9_chars() {
    for exp in 0..=11 {
        for &m in &[1.0, 9.94, 9.95, 99.94, 99.95, 999.94, 999.95, 999.99] {
            let value = m * 10f64.powi(exp);
            let s = rate(value);
            assert!(
                s.chars().count() <= 9,
                "rate({value}) = {s:?} is {} chars, over the 9-char budget",
                s.chars().count()
            );
            assert!(s.is_ascii(), "{s:?}");
        }
    }
}
