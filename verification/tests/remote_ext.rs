use tt_toplike::backend::json::parse_tt_smi_snapshot;
use tt_toplike::backend::remote_ext::{
    build_extension, inject_extension, parse_extension, Phase, ProcRow, RemoteInference,
    RemoteProc, RemoteServing, ServiceState, TtProcInfo, TtToplikeExt, TT_TOPLIKE_SCHEMA,
};

const MINIMAL_TTSMI_JSON: &str = r#"{
    "device_info": [{
        "board_info": {
            "board_type": "p300c",
            "bus_id": "0000:04:00.0",
            "coords": "N/A"
        },
        "telemetry": {
            "voltage": "0.72",
            "current": " 23.0",
            "power": " 16.0",
            "aiclk": " 800",
            "asic_temperature": "34.8",
            "fan_speed": " 38",
            "heartbeat": "11540"
        },
        "smbus_telem": {
            "BOARD_ID_HIGH": "0x461",
            "BOARD_ID_LOW": "0x31924062"
        }
    }]
}"#;

fn sample_ext() -> TtToplikeExt {
    TtToplikeExt {
        schema: TT_TOPLIKE_SCHEMA,
        processes: Some(vec![RemoteProc {
            pid: 4242,
            name: "tt-inference-server".to_string(),
            cmd: "/usr/bin/tt-inference-server --port 8080".to_string(),
            uses_tt: true,
            cpu_pct: "87.5".to_string(),
            mem_bytes: 12_884_901_888,
        }]),
        inference: Some(vec![RemoteInference {
            key: "vllm-llama3-70b".to_string(),
            label: "Llama-3 70B (vLLM)".to_string(),
            phase: "ready".to_string(),
            progress: None,
            serving: Some(RemoteServing {
                generation_tps: "512.3".to_string(),
                prompt_tps: "1024.7".to_string(),
                requests_running: 3,
                requests_waiting: 1,
                kv_cache_usage: "0.42".to_string(),
                ttft_avg_s: "0.35".to_string(),
                queue_avg_s: "0.02".to_string(),
                prefill_avg_s: "0.11".to_string(),
                decode_avg_s: "0.05".to_string(),
                tpot_avg_s: "0.03".to_string(),
                completed_delta: 27,
                errored_delta: 0,
                prefix_hit_rate: "0.61".to_string(),
                preemptions_delta: 2,
            }),
        }]),
    }
}

#[test]
fn inject_then_parse_round_trips() {
    let ext = sample_ext();
    let frame = inject_extension(MINIMAL_TTSMI_JSON, &ext);
    let parsed = parse_extension(&frame).expect("extension should parse back out");
    assert_eq!(parsed, ext);
}

#[test]
fn plain_frame_has_no_extension() {
    assert_eq!(parse_extension(MINIMAL_TTSMI_JSON), None);
}

#[test]
fn mismatched_schema_is_rejected() {
    let ext = sample_ext();
    let frame = inject_extension(MINIMAL_TTSMI_JSON, &ext);
    let mut value: serde_json::Value = serde_json::from_str(&frame).unwrap();
    value["tt_toplike"]["schema"] = serde_json::Value::from(999);
    let mutated = serde_json::to_string(&value).unwrap();
    assert_eq!(parse_extension(&mutated), None);
}

#[test]
fn injected_frame_still_parses_as_tt_smi() {
    let ext = sample_ext();
    let frame = inject_extension(MINIMAL_TTSMI_JSON, &ext);
    let parsed = parse_tt_smi_snapshot(&frame).expect("tt-smi parser must still succeed");
    assert_eq!(parsed.devices.len(), 1);
}

#[test]
fn inject_on_malformed_json_returns_unchanged() {
    let ext = sample_ext();
    let garbage = "not json at all";
    assert_eq!(inject_extension(garbage, &ext), garbage);
}

#[test]
fn inject_on_non_object_json_returns_unchanged() {
    let ext = sample_ext();
    let non_object = "[1, 2, 3]";
    assert_eq!(inject_extension(non_object, &ext), non_object);
}

#[test]
fn parse_on_malformed_json_returns_none() {
    assert_eq!(parse_extension("not json at all"), None);
}

#[test]
fn missing_inference_subkey_is_none_not_empty() {
    // A frame whose tt_toplike carries processes but no `inference` key.
    let frame = r#"{"time":"t","device_info":[],
        "tt_toplike":{"schema":1,"processes":[
          {"pid":7,"name":"python3","cmd":"vllm","uses_tt":true,"cpu_pct":9.0,"mem_bytes":100}
        ]}}"#;
    let ext =
        parse_extension(frame).expect("extension with only `processes` must still decode");
    assert!(ext.processes.is_some(), "streamed processes present");
    assert_eq!(ext.processes.as_ref().unwrap().len(), 1);
    assert_eq!(
        ext.inference, None,
        "a missing inference sub-key is `None` (not streamed → local fallback), not Some([])"
    );
}

#[test]
fn missing_processes_subkey_is_none() {
    let frame = r#"{"tt_toplike":{"schema":1,"inference":[
          {"key":"k","label":"M","phase":"ready","progress":null,"serving":null}
        ]}}"#;
    let ext = parse_extension(frame).expect("extension with only `inference` must decode");
    assert_eq!(ext.processes, None);
    assert!(ext.inference.is_some());
}

#[test]
fn build_extension_maps_proc_and_inference() {
    let procs = vec![ProcRow {
        pid: 4242,
        name: "tt-inference-server".to_string(),
        cpu_pct: "87.5".to_string(),
        mem_bytes: 12_884_901_888,
        tt: Some(TtProcInfo {
            device_indices: vec![0],
            hugepages_1g: 4,
            hugepages_2m: 0,
        }),
    }];

    let inference = vec![ServiceState {
        key: "vllm-llama3-70b".to_string(),
        label: "Llama-3 70B (vLLM)".to_string(),
        phase: Phase::Ready,
        progress: None,
        serving: Some(RemoteServing {
            generation_tps: "512.3".to_string(),
            prompt_tps: "1024.7".to_string(),
            completed_delta: 27,
            errored_delta: 0,
            requests_running: 3,
            requests_waiting: 1,
            kv_cache_usage: "0.42".to_string(),
            ttft_avg_s: "0.35".to_string(),
            queue_avg_s: "0.02".to_string(),
            prefill_avg_s: "0.11".to_string(),
            decode_avg_s: "0.05".to_string(),
            tpot_avg_s: "0.03".to_string(),
            prefix_hit_rate: "0.61".to_string(),
            preemptions_delta: 2,
        }),
    }];

    let ext = build_extension(&procs, &inference);

    let processes = ext.processes.expect("tt-toplike always streams processes");
    assert_eq!(processes.len(), 1);
    assert!(processes[0].uses_tt, "ProcRow.tt was Some(...)");

    let inference_out = ext.inference.expect("tt-toplike always streams inference");
    assert_eq!(inference_out.len(), 1);
    assert_eq!(inference_out[0].phase, "ready");
    assert!(inference_out[0].serving.is_some());
}

#[test]
fn the_other_members_stay() {
    let frame = inject_extension(MINIMAL_TTSMI_JSON, &sample_ext());
    let before: serde_json::Value = serde_json::from_str(MINIMAL_TTSMI_JSON).unwrap();
    let after: serde_json::Value = serde_json::from_str(&frame).unwrap();
    assert_eq!(before["device_info"], after["device_info"]);
    assert_eq!(after["tt_toplike"]["schema"], serde_json::Value::from(1));
    assert_eq!(
        after["tt_toplike"]["processes"][0]["cpu_pct"],
        serde_json::Value::from(87.5)
    );
}

#[test]
fn a_second_extension_takes_the_place_of_the_first() {
    let first = inject_extension("{}", &sample_ext());
    let empty = TtToplikeExt {
        schema: TT_TOPLIKE_SCHEMA,
        processes: Some(Vec::new()),
        inference: None,
    };
    let second = inject_extension(&first, &empty);
    assert_eq!(second, r#"{"tt_toplike":{"processes":[],"schema":1}}"#);
    let read = parse_extension(&second).unwrap();
    assert_eq!(read, empty);
}

#[test]
fn readings_that_are_no_numbers_are_written_as_null() {
    let mut ext = sample_ext();
    ext.processes.as_mut().unwrap()[0].cpu_pct = "NaN".to_string();
    let frame = inject_extension("{}", &ext);
    let value: serde_json::Value = serde_json::from_str(&frame).unwrap();
    assert!(value["tt_toplike"]["processes"][0]["cpu_pct"].is_null());
    assert_eq!(parse_extension(&frame), None);
}

#[test]
fn malformed_extensions_are_not_read() {
    for ext in [
        r#"{"schema":"1"}"#,
        r#"{"schema":-1}"#,
        r#"{"schema":1.0}"#,
        r#"{}"#,
        r#"{"schema":1,"processes":{}}"#,
        r#"{"schema":1,"processes":[{"pid":1}]}"#,
        r#"{"schema":1,"inference":[{"key":"k","label":"l","phase":"p","progress":"0.5"}]}"#,
        "7",
    ] {
        let frame = format!("{{\"tt_toplike\":{}}}", ext);
        assert_eq!(parse_extension(&frame), None, "{ext}");
    }
    let nulls = r#"{"tt_toplike":{"schema":1,"processes":null,"inference":null}}"#;
    let read = parse_extension(nulls).unwrap();
    assert_eq!(read.processes, None);
    assert_eq!(read.inference, None);
}

#[test]
fn every_phase_has_a_name_and_negative_processes_are_zero() {
    let state = |phase| ServiceState {
        key: "k".to_string(),
        label: "l".to_string(),
        phase,
        progress: Some("0.25".to_string()),
        serving: None,
    };
    let states = vec![
        state(Phase::Down),
        state(Phase::Compiling),
        state(Phase::Loading),
        state(Phase::Ready),
        state(Phase::Alarm),
    ];
    let procs = vec![ProcRow {
        pid: -5,
        name: "n".to_string(),
        cpu_pct: "1".to_string(),
        mem_bytes: 2,
        tt: None,
    }];
    let ext = build_extension(&procs, &states);
    let names: Vec<String> =
        ext.inference.as_ref().unwrap().iter().map(|i| i.phase.clone()).collect();
    assert_eq!(names, vec!["down", "compiling", "loading", "ready", "alarm"]);
    let p = &ext.processes.as_ref().unwrap()[0];
    assert_eq!((p.pid, p.cmd.as_str(), p.uses_tt), (0, "n", false));
    let back = parse_extension(&inject_extension("{}", &ext)).unwrap();
    assert_eq!(back, ext);
}

#[test]
fn readings_that_are_written_otherwise_keep_their_value() {
    let mut ext = sample_ext();
    let readings = [
        "0.000001",
        "-0.00000025",
        "1.50",
        "0.0000000000000000000001",
        "-0",
        "12345678901234.5",
        "0.00012",
    ];
    for r in readings {
        ext.processes.as_mut().unwrap()[0].cpu_pct = r.to_string();
        let back = parse_extension(&inject_extension(MINIMAL_TTSMI_JSON, &ext)).unwrap();
        let got = &back.processes.as_ref().unwrap()[0];
        assert_eq!(
            got.cpu_pct.parse::<f64>().unwrap(),
            r.parse::<f64>().unwrap(),
            "{} came back as {}",
            r,
            got.cpu_pct
        );
        // What stands beside it comes back as it was.
        assert_eq!(got.cmd, ext.processes.as_ref().unwrap()[0].cmd);
        assert_eq!(back.inference, ext.inference);
    }
    // A reading that is no number is written as null, which is no reading.
    ext.processes.as_mut().unwrap()[0].cpu_pct = "NaN".to_string();
    assert!(parse_extension(&inject_extension(MINIMAL_TTSMI_JSON, &ext)).is_none());
}

#[test]
fn single_precision_readings_survive() {
    let mut ext = sample_ext();
    let numbers = [
        f32::from_bits(1),
        f32::from_bits(0x007f_ffff),
        f32::MIN_POSITIVE,
        f32::MAX,
        f32::MIN,
        1.0e-20,
        -3.3e-38,
        1.9e19,
        0.1,
        1.0 / 3.0,
        f32::from_bits(0x3f80_0001),
        f32::from_bits(0x7f00_0001),
        0.0,
    ];
    for x in numbers {
        // Every digit of the number, and the fewest that denote it.
        for text in [format!("{:.149}", x), format!("{}", x)] {
            ext.processes.as_mut().unwrap()[0].cpu_pct = text.clone();
            let back = parse_extension(&inject_extension(MINIMAL_TTSMI_JSON, &ext)).unwrap();
            let got = &back.processes.as_ref().unwrap()[0].cpu_pct;
            assert_eq!(got.parse::<f32>().unwrap(), x, "{} came back as {}", text, got);
        }
    }
}
