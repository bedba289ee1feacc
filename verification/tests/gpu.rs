use tt_toplike::backend::gpu::parse_ioreg;

// Captured from `ioreg -rc IOAccelerator` on an Apple M4 Pro (trimmed).
const FIXTURE: &str = r#"
  | |   "model" = "Apple M4 Pro"
  | |   "gpu-core-count" = 20
  | |   "PerformanceStatistics" = {"In use system memory (driver)"=0,"Alloc system memory"=5043453952,"Tiler Utilization %"=13,"Renderer Utilization %"=24,"Device Utilization %"=27,"In use system memory"=650788864}
"#;

#[test]
fn parses_gpu_sample_from_ioreg() {
    let s = parse_ioreg(FIXTURE).expect("should parse");
    assert_eq!(s.model, "Apple M4 Pro");
    assert_eq!(s.core_count, 20);
    assert_eq!(s.util_pct, 27);
    assert_eq!(s.mem_in_use_bytes, 650_788_864);
    assert_eq!(s.mem_alloc_bytes, 5_043_453_952);
}

#[test]
fn returns_none_on_garbage() {
    assert!(parse_ioreg("no gpu here").is_none());
}

// Two IOAccelerator nodes: a first one WITHOUT utilization (wrong GPU) and
// the real Apple GPU node with it. We must read every field from the node
// that reports utilization, never splice the first node's model in.
const MULTI_NODE: &str = r#"
  +-o IOAccelerator@0  <class IOAccelerator>
  | |   "model" = "Intel HD Graphics"
  | |   "gpu-core-count" = 8
  +-o IOAccelerator@1  <class IOAccelerator>
  | |   "model" = "Apple M4 Pro"
  | |   "gpu-core-count" = 20
  | |   "PerformanceStatistics" = {"Alloc system memory"=5043453952,"Device Utilization %"=27,"In use system memory"=650788864}
"#;

#[test]
fn multi_accelerator_reads_from_the_utilization_node() {
    let s = parse_ioreg(MULTI_NODE).expect("should parse the util-bearing node");
    assert_eq!(
        s.model, "Apple M4 Pro",
        "must not splice the other node's model"
    );
    assert_eq!(s.core_count, 20);
    assert_eq!(s.util_pct, 27);
    assert_eq!(s.mem_in_use_bytes, 650_788_864);
}

#[test]
fn missing_fields_have_defaults() {
    let s = parse_ioreg("{\"Device Utilization %\"=5}").unwrap();
    assert_eq!(s.model, "Apple GPU");
    assert_eq!((s.core_count, s.util_pct), (0, 5));
    assert_eq!((s.mem_in_use_bytes, s.mem_alloc_bytes), (0, 0));
    // A utilization without a number is none.
    assert!(parse_ioreg("{\"Device Utilization %\"=}").is_none());
    // A number that is too large is none either.
    assert!(parse_ioreg("{\"Device Utilization %\"=99999999999999999999}").is_none());
    assert!(parse_ioreg("").is_none());
}
