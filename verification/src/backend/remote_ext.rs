//! The `tt_toplike` extension of a telemetry frame: processes and inference
//! workloads that ride along with what `tt-smi` reports.
//!
//! ```text
//! { ...tt-smi fields..., "tt_toplike": { "schema": 1, "processes": [...], "inference": [...] } }
//! ```
//!
//! Readings are held as the decimal texts of their numbers.

use vstd::prelude::*;

use crate::backend::{blocks, json};
use crate::document;
use crate::document::{
    insert_member, number_field, parse_json, parse_value, text_field, to_value, write_value, Json,
    JsonView, Member, MemberView,
};
use crate::text;
use crate::text::{chars_of, decimal_text};

verus! {

/// The version of the extension that this library reads and writes.
pub const TT_TOPLIKE_SCHEMA: u32 = 1;

/// What a telemetry frame carries beyond what `tt-smi` reports.
///
/// An absent list means that the sender does not stream it; an empty one, that
/// there is nothing to list.
#[derive(Debug, PartialEq)]
pub struct TtToplikeExt {
    /// The version of the extension.
    pub schema: u32,
    /// The processes on the sender.
    pub processes: Option<Vec<RemoteProc>>,
    /// The inference workloads on the sender.
    pub inference: Option<Vec<RemoteInference>>,
}

/// A process on the sender.
#[derive(Debug, PartialEq)]
pub struct RemoteProc {
    pub pid: u32,
    pub name: String,
    pub cmd: String,
    /// Whether it is believed to use Tenstorrent hardware.
    pub uses_tt: bool,
    /// The share of a core that it uses, in percent.
    pub cpu_pct: String,
    pub mem_bytes: u64,
}

/// An inference workload on the sender.
#[derive(Debug, PartialEq)]
pub struct RemoteInference {
    /// What identifies it.
    pub key: String,
    /// What it is shown as.
    pub label: String,
    /// `down`, `compiling`, `loading`, `ready` or `alarm`.
    pub phase: String,
    /// How far it has compiled or loaded, from 0 to 1.
    pub progress: Option<String>,
    /// What it serves, once it does.
    pub serving: Option<RemoteServing>,
}

/// What an inference workload serves.
#[derive(Debug, PartialEq)]
pub struct RemoteServing {
    pub generation_tps: String,
    pub prompt_tps: String,
    pub requests_running: u32,
    pub requests_waiting: u32,
    pub kv_cache_usage: String,
    pub ttft_avg_s: String,
    pub queue_avg_s: String,
    pub prefill_avg_s: String,
    pub decode_avg_s: String,
    pub tpot_avg_s: String,
    pub completed_delta: u32,
    pub errored_delta: u32,
    pub prefix_hit_rate: String,
    pub preemptions_delta: u32,
}

/// What a process holds.
pub struct ProcView {
    pub pid: nat,
    pub name: Seq<char>,
    pub cmd: Seq<char>,
    pub uses_tt: bool,
    pub cpu_pct: Seq<char>,
    pub mem_bytes: nat,
}

/// What an inference workload holds.
pub struct InferenceView {
    pub key: Seq<char>,
    pub label: Seq<char>,
    pub phase: Seq<char>,
    pub progress: Option<Seq<char>>,
    pub serving: Option<ServingView>,
}

/// What the serving figures hold.
pub struct ServingView {
    pub generation_tps: Seq<char>,
    pub prompt_tps: Seq<char>,
    pub requests_running: nat,
    pub requests_waiting: nat,
    pub kv_cache_usage: Seq<char>,
    pub ttft_avg_s: Seq<char>,
    pub queue_avg_s: Seq<char>,
    pub prefill_avg_s: Seq<char>,
    pub decode_avg_s: Seq<char>,
    pub tpot_avg_s: Seq<char>,
    pub completed_delta: nat,
    pub errored_delta: nat,
    pub prefix_hit_rate: Seq<char>,
    pub preemptions_delta: nat,
}

/// What an extension holds.
pub struct ExtView {
    pub schema: nat,
    pub processes: Option<Seq<ProcView>>,
    pub inference: Option<Seq<InferenceView>>,
}

impl View for RemoteProc {
    type V = ProcView;

    open spec fn view(&self) -> ProcView {
        ProcView {
            pid: self.pid as nat,
            name: self.name@,
            cmd: self.cmd@,
            uses_tt: self.uses_tt,
            cpu_pct: self.cpu_pct@,
            mem_bytes: self.mem_bytes as nat,
        }
    }
}

impl View for RemoteServing {
    type V = ServingView;

    open spec fn view(&self) -> ServingView {
        ServingView {
            generation_tps: self.generation_tps@,
            prompt_tps: self.prompt_tps@,
            requests_running: self.requests_running as nat,
            requests_waiting: self.requests_waiting as nat,
            kv_cache_usage: self.kv_cache_usage@,
            ttft_avg_s: self.ttft_avg_s@,
            queue_avg_s: self.queue_avg_s@,
            prefill_avg_s: self.prefill_avg_s@,
            decode_avg_s: self.decode_avg_s@,
            tpot_avg_s: self.tpot_avg_s@,
            completed_delta: self.completed_delta as nat,
            errored_delta: self.errored_delta as nat,
            prefix_hit_rate: self.prefix_hit_rate@,
            preemptions_delta: self.preemptions_delta as nat,
        }
    }
}

impl View for RemoteInference {
    type V = InferenceView;

    open spec fn view(&self) -> InferenceView {
        InferenceView {
            key: self.key@,
            label: self.label@,
            phase: self.phase@,
            progress: text::opt_text(self.progress),
            serving: match self.serving {
                Some(s) => Some(s@),
                None => None,
            },
        }
    }
}

/// What a list of processes holds.
pub open spec fn proc_views(v: Seq<RemoteProc>) -> Seq<ProcView> {
    v.map_values(|p: RemoteProc| p@)
}

/// What a list of inference workloads holds.
pub open spec fn inference_views(v: Seq<RemoteInference>) -> Seq<InferenceView> {
    v.map_values(|p: RemoteInference| p@)
}

/// What an optional list of processes holds.
pub open spec fn opt_procs(v: Option<Vec<RemoteProc>>) -> Option<Seq<ProcView>> {
    match v {
        Some(v) => Some(proc_views(v@)),
        None => None,
    }
}

/// What an optional list of inference workloads holds.
pub open spec fn opt_inference(v: Option<Vec<RemoteInference>>) -> Option<Seq<InferenceView>> {
    match v {
        Some(v) => Some(inference_views(v@)),
        None => None,
    }
}

impl View for TtToplikeExt {
    type V = ExtView;

    open spec fn view(&self) -> ExtView {
        ExtView {
            schema: self.schema as nat,
            processes: opt_procs(self.processes),
            inference: opt_inference(self.inference),
        }
    }
}

// Copies

impl RemoteProc {
    /// A copy.
    pub fn dup(&self) -> (r: Self)
        ensures
            r@ == self@,
    {
        RemoteProc {
            pid: self.pid,
            name: self.name.clone(),
            cmd: self.cmd.clone(),
            uses_tt: self.uses_tt,
            cpu_pct: self.cpu_pct.clone(),
            mem_bytes: self.mem_bytes,
        }
    }
}

impl RemoteServing {
    /// A copy.
    pub fn dup(&self) -> (r: Self)
        ensures
            r@ == self@,
    {
        RemoteServing {
            generation_tps: self.generation_tps.clone(),
            prompt_tps: self.prompt_tps.clone(),
            requests_running: self.requests_running,
            requests_waiting: self.requests_waiting,
            kv_cache_usage: self.kv_cache_usage.clone(),
            ttft_avg_s: self.ttft_avg_s.clone(),
            queue_avg_s: self.queue_avg_s.clone(),
            prefill_avg_s: self.prefill_avg_s.clone(),
            decode_avg_s: self.decode_avg_s.clone(),
            tpot_avg_s: self.tpot_avg_s.clone(),
            completed_delta: self.completed_delta,
            errored_delta: self.errored_delta,
            prefix_hit_rate: self.prefix_hit_rate.clone(),
            preemptions_delta: self.preemptions_delta,
        }
    }
}

impl RemoteInference {
    /// A copy.
    pub fn dup(&self) -> (r: Self)
        ensures
            r@ == self@,
    {
        RemoteInference {
            key: self.key.clone(),
            label: self.label.clone(),
            phase: self.phase.clone(),
            progress: match &self.progress {
                Some(s) => Some(s.clone()),
                None => None,
            },
            serving: match &self.serving {
                Some(s) => Some(s.dup()),
                None => None,
            },
        }
    }
}

// Reading

/// A truth value.
pub open spec fn flag_of(f: Option<JsonView>) -> Option<bool> {
    match f {
        Some(JsonView::Bool(b)) => Some(b),
        _ => None,
    }
}

/// The text of a number.
pub open spec fn number_reading(f: Option<JsonView>) -> Option<Seq<char>> {
    match f {
        Some(JsonView::Number(s)) => Some(s),
        _ => None,
    }
}

/// The text of a number that may be left out or null.
pub open spec fn optional_reading(f: Option<JsonView>) -> Option<Option<Seq<char>>> {
    match document::present(f) {
        None => Some(None),
        Some(JsonView::Number(s)) => Some(Some(s)),
        Some(_) => None,
    }
}

/// The process that a record describes.
pub open spec fn proc_of(j: JsonView) -> Option<ProcView> {
    let pid = document::number_of(document::field(j, 0, "pid"@), u32::MAX as nat);
    let name = document::text_of(document::field(j, 1, "name"@));
    let cmd = document::text_of(document::field(j, 2, "cmd"@));
    let uses_tt = flag_of(document::field(j, 3, "uses_tt"@));
    let cpu_pct = number_reading(document::field(j, 4, "cpu_pct"@));
    let mem_bytes = document::number_of(document::field(j, 5, "mem_bytes"@), u64::MAX as nat);
    if document::is_record(j, 6, 6) && pid is Some && name is Some && cmd is Some && uses_tt is Some && cpu_pct is Some && mem_bytes is Some {
        Some(
            ProcView {
                pid: pid->0,
                name: name->0,
                cmd: cmd->0,
                uses_tt: uses_tt->0,
                cpu_pct: cpu_pct->0,
                mem_bytes: mem_bytes->0,
            },
        )
    } else {
        None
    }
}

/// The serving figures that a record describes.
pub open spec fn serving_of(j: JsonView) -> Option<ServingView> {
    let generation_tps = number_reading(document::field(j, 0, "generation_tps"@));
    let prompt_tps = number_reading(document::field(j, 1, "prompt_tps"@));
    let requests_running = document::number_of(document::field(j, 2, "requests_running"@), u32::MAX as nat);
    let requests_waiting = document::number_of(document::field(j, 3, "requests_waiting"@), u32::MAX as nat);
    let kv_cache_usage = number_reading(document::field(j, 4, "kv_cache_usage"@));
    let ttft_avg_s = number_reading(document::field(j, 5, "ttft_avg_s"@));
    let queue_avg_s = number_reading(document::field(j, 6, "queue_avg_s"@));
    let prefill_avg_s = number_reading(document::field(j, 7, "prefill_avg_s"@));
    let decode_avg_s = number_reading(document::field(j, 8, "decode_avg_s"@));
    let tpot_avg_s = number_reading(document::field(j, 9, "tpot_avg_s"@));
    let completed_delta = document::number_of(document::field(j, 10, "completed_delta"@), u32::MAX as nat);
    let errored_delta = document::number_of(document::field(j, 11, "errored_delta"@), u32::MAX as nat);
    let prefix_hit_rate = number_reading(document::field(j, 12, "prefix_hit_rate"@));
    let preemptions_delta = document::number_of(document::field(j, 13, "preemptions_delta"@), u32::MAX as nat);
    if document::is_record(j, 14, 14) && generation_tps is Some && prompt_tps is Some && requests_running is Some && requests_waiting is Some && kv_cache_usage is Some && ttft_avg_s is Some && queue_avg_s is Some && prefill_avg_s is Some && decode_avg_s is Some && tpot_avg_s is Some && completed_delta is Some && errored_delta is Some && prefix_hit_rate is Some && preemptions_delta is Some {
        Some(
            ServingView {
                generation_tps: generation_tps->0,
                prompt_tps: prompt_tps->0,
                requests_running: requests_running->0,
                requests_waiting: requests_waiting->0,
                kv_cache_usage: kv_cache_usage->0,
                ttft_avg_s: ttft_avg_s->0,
                queue_avg_s: queue_avg_s->0,
                prefill_avg_s: prefill_avg_s->0,
                decode_avg_s: decode_avg_s->0,
                tpot_avg_s: tpot_avg_s->0,
                completed_delta: completed_delta->0,
                errored_delta: errored_delta->0,
                prefix_hit_rate: prefix_hit_rate->0,
                preemptions_delta: preemptions_delta->0,
            },
        )
    } else {
        None
    }
}

/// Serving figures that may be left out or null.
pub open spec fn optional_serving(f: Option<JsonView>) -> Option<Option<ServingView>> {
    match document::present(f) {
        None => Some(None),
        Some(j) => match serving_of(j) {
            Some(s) => Some(Some(s)),
            None => None,
        },
    }
}

/// The inference workload that a record describes.
pub open spec fn inference_of(j: JsonView) -> Option<InferenceView> {
    let key = document::text_of(document::field(j, 0, "key"@));
    let label = document::text_of(document::field(j, 1, "label"@));
    let phase = document::text_of(document::field(j, 2, "phase"@));
    let progress = optional_reading(document::field(j, 3, "progress"@));
    let serving = optional_serving(document::field(j, 4, "serving"@));
    if document::is_record(j, 5, 5) && key is Some && label is Some && phase is Some && progress is Some && serving is Some {
        Some(
            InferenceView {
                key: key->0,
                label: label->0,
                phase: phase->0,
                progress: progress->0,
                serving: serving->0,
            },
        )
    } else {
        None
    }
}

/// The processes of a list that may be left out or null. A list with an entry
/// that is no process is none.
pub open spec fn procs_of(f: Option<JsonView>) -> Option<Option<Seq<ProcView>>> {
    match document::present(f) {
        None => Some(None),
        Some(JsonView::Array(a)) => if forall|i: int|
            0 <= i < a.len() ==> proc_of(#[trigger] a[i]) is Some {
            Some(Some(Seq::new(a.len(), |i: int| proc_of(a[i])->0)))
        } else {
            None
        },
        Some(_) => None,
    }
}

/// The inference workloads of a list that may be left out or null. A list with
/// an entry that is no workload is none.
pub open spec fn workloads_of(f: Option<JsonView>) -> Option<Option<Seq<InferenceView>>> {
    match document::present(f) {
        None => Some(None),
        Some(JsonView::Array(a)) => if forall|i: int|
            0 <= i < a.len() ==> inference_of(#[trigger] a[i]) is Some {
            Some(Some(Seq::new(a.len(), |i: int| inference_of(a[i])->0)))
        } else {
            None
        },
        Some(_) => None,
    }
}

/// The extension that a record describes, of whatever version.
pub open spec fn ext_of(j: JsonView) -> Option<ExtView> {
    let schema = document::number_of(document::field(j, 0, "schema"@), u32::MAX as nat);
    let processes = procs_of(document::field(j, 1, "processes"@));
    let inference = workloads_of(document::field(j, 2, "inference"@));
    if document::is_record(j, 1, 3) && schema is Some && processes is Some && inference is Some {
        Some(ExtView { schema: schema->0, processes: processes->0, inference: inference->0 })
    } else {
        None
    }
}

/// The extension of a frame: the member `tt_toplike` of the object that it
/// denotes, where that describes an extension of the known version.
pub open spec fn frame_extension(frame: Seq<char>) -> Option<ExtView> {
    match document::json_document(frame) {
        Ok(doc) => match document::member(doc, "tt_toplike"@) {
            Some(j) => match ext_of(j) {
                Some(e) => if e.schema == TT_TOPLIKE_SCHEMA { Some(e) } else { None },
                None => None,
            },
            None => None,
        },
        Err(_) => None,
    }
}

fn flag_field(f: Option<&Json>) -> (r: Option<bool>)
    ensures
        r == flag_of(document::opt_json(f)),
{
    match f {
        Some(Json::Bool(b)) => Some(*b),
        _ => None,
    }
}

fn number_reading_field(f: Option<&Json>) -> (r: Option<String>)
    ensures
        text::opt_text(r) == number_reading(document::opt_json(f)),
{
    match f {
        Some(Json::Number(s)) => Some(s.clone()),
        _ => None,
    }
}

/// The view of an optional reading that may be malformed.
pub open spec fn opt_opt_text(r: Option<Option<String>>) -> Option<Option<Seq<char>>> {
    match r {
        Some(t) => Some(text::opt_text(t)),
        None => None,
    }
}

fn optional_reading_field(f: Option<&Json>) -> (r: Option<Option<String>>)
    ensures
        opt_opt_text(r) == optional_reading(document::opt_json(f)),
{
    match f {
        None => Some(None),
        Some(Json::Null) => Some(None),
        Some(Json::Number(s)) => Some(Some(s.clone())),
        Some(_) => None,
    }
}

fn decode_proc(j: &Json) -> (r: Option<RemoteProc>)
    ensures
        match r {
            Some(v) => proc_of(j@) == Some(v@),
            None => proc_of(j@) is None,
        },
{
    if !j.is_record(6, 6) {
        return None;
    }
    let pid: u64 = match number_field(j.field(0, "pid"), u32::MAX as u64) {
        Some(v) => v,
        None => return None,
    };
    let name = match text_field(j.field(1, "name")) {
        Some(v) => v,
        None => return None,
    };
    let cmd = match text_field(j.field(2, "cmd")) {
        Some(v) => v,
        None => return None,
    };
    let uses_tt = match flag_field(j.field(3, "uses_tt")) {
        Some(v) => v,
        None => return None,
    };
    let cpu_pct = match number_reading_field(j.field(4, "cpu_pct")) {
        Some(v) => v,
        None => return None,
    };
    let mem_bytes: u64 = match number_field(j.field(5, "mem_bytes"), u64::MAX) {
        Some(v) => v,
        None => return None,
    };
    Some(
        RemoteProc {
            pid: pid as u32,
            name,
            cmd,
            uses_tt,
            cpu_pct,
            mem_bytes,
        },
    )
}

fn decode_serving(j: &Json) -> (r: Option<RemoteServing>)
    ensures
        match r {
            Some(v) => serving_of(j@) == Some(v@),
            None => serving_of(j@) is None,
        },
{
    if !j.is_record(14, 14) {
        return None;
    }
    let generation_tps = match number_reading_field(j.field(0, "generation_tps")) {
        Some(v) => v,
        None => return None,
    };
    let prompt_tps = match number_reading_field(j.field(1, "prompt_tps")) {
        Some(v) => v,
        None => return None,
    };
    let requests_running: u64 = match number_field(j.field(2, "requests_running"), u32::MAX as u64) {
        Some(v) => v,
        None => return None,
    };
    let requests_waiting: u64 = match number_field(j.field(3, "requests_waiting"), u32::MAX as u64) {
        Some(v) => v,
        None => return None,
    };
    let kv_cache_usage = match number_reading_field(j.field(4, "kv_cache_usage")) {
        Some(v) => v,
        None => return None,
    };
    let ttft_avg_s = match number_reading_field(j.field(5, "ttft_avg_s")) {
        Some(v) => v,
        None => return None,
    };
    let queue_avg_s = match number_reading_field(j.field(6, "queue_avg_s")) {
        Some(v) => v,
        None => return None,
    };
    let prefill_avg_s = match number_reading_field(j.field(7, "prefill_avg_s")) {
        Some(v) => v,
        None => return None,
    };
    let decode_avg_s = match number_reading_field(j.field(8, "decode_avg_s")) {
        Some(v) => v,
        None => return None,
    };
    let tpot_avg_s = match number_reading_field(j.field(9, "tpot_avg_s")) {
        Some(v) => v,
        None => return None,
    };
    let completed_delta: u64 = match number_field(j.field(10, "completed_delta"), u32::MAX as u64) {
        Some(v) => v,
        None => return None,
    };
    let errored_delta: u64 = match number_field(j.field(11, "errored_delta"), u32::MAX as u64) {
        Some(v) => v,
        None => return None,
    };
    let prefix_hit_rate = match number_reading_field(j.field(12, "prefix_hit_rate")) {
        Some(v) => v,
        None => return None,
    };
    let preemptions_delta: u64 = match number_field(j.field(13, "preemptions_delta"), u32::MAX as u64) {
        Some(v) => v,
        None => return None,
    };
    Some(
        RemoteServing {
            generation_tps,
            prompt_tps,
            requests_running: requests_running as u32,
            requests_waiting: requests_waiting as u32,
            kv_cache_usage,
            ttft_avg_s,
            queue_avg_s,
            prefill_avg_s,
            decode_avg_s,
            tpot_avg_s,
            completed_delta: completed_delta as u32,
            errored_delta: errored_delta as u32,
            prefix_hit_rate,
            preemptions_delta: preemptions_delta as u32,
        },
    )
}

fn optional_serving_field(f: Option<&Json>) -> (r: Option<Option<RemoteServing>>)
    ensures
        match r {
            Some(Some(s)) => optional_serving(document::opt_json(f)) == Some(Some(s@)),
            Some(None) => optional_serving(document::opt_json(f)) == Some(None::<ServingView>),
            None => optional_serving(document::opt_json(f)) is None,
        },
{
    match f {
        None => Some(None),
        Some(Json::Null) => Some(None),
        Some(j) => match decode_serving(j) {
            Some(s) => Some(Some(s)),
            None => None,
        },
    }
}

fn decode_inference(j: &Json) -> (r: Option<RemoteInference>)
    ensures
        match r {
            Some(v) => inference_of(j@) == Some(v@),
            None => inference_of(j@) is None,
        },
{
    if !j.is_record(5, 5) {
        return None;
    }
    let key = match text_field(j.field(0, "key")) {
        Some(v) => v,
        None => return None,
    };
    let label = match text_field(j.field(1, "label")) {
        Some(v) => v,
        None => return None,
    };
    let phase = match text_field(j.field(2, "phase")) {
        Some(v) => v,
        None => return None,
    };
    let progress = match optional_reading_field(j.field(3, "progress")) {
        Some(v) => v,
        None => return None,
    };
    let serving = match optional_serving_field(j.field(4, "serving")) {
        Some(v) => v,
        None => return None,
    };
    Some(
        RemoteInference {
            key,
            label,
            phase,
            progress,
            serving,
        },
    )
}

fn decode_procs(f: Option<&Json>) -> (r: Option<Option<Vec<RemoteProc>>>)
    ensures
        match r {
            Some(v) => procs_of(document::opt_json(f)) == Some(opt_procs(v)),
            None => procs_of(document::opt_json(f)) is None,
        },
{
    match f {
        None => Some(None),
        Some(Json::Null) => Some(None),
        Some(Json::Array(a)) => {
            let ghost doc = Json::Array(*a)@;
            proof {
                document::lemma_array_view(*a);
            }
            let ghost views = doc->Array_0;
            assert(document::opt_json(f) == Some(JsonView::Array(views)));
            let mut out: Vec<RemoteProc> = Vec::new();
            for i in 0..a.len()
                invariant
                    document::opt_json(f) == Some(JsonView::Array(views)),
                    views.len() == a@.len(),
                    forall|k: int| 0 <= k < views.len() ==> #[trigger] views[k] == a@[k]@,
                    out@.len() == i,
                    forall|k: int| 0 <= k < i ==> proc_of(#[trigger] views[k]) == Some(out@[k]@),
            {
                match decode_proc(&a[i]) {
                    Some(v) => out.push(v),
                    None => {
                        assert(proc_of(views[i as int]) is None);
                        return None;
                    },
                }
            }
            assert(Seq::new(views.len(), |i: int| proc_of(views[i])->0) =~= proc_views(out@));
            Some(Some(out))
        },
        Some(_) => None,
    }
}

fn decode_workloads(f: Option<&Json>) -> (r: Option<Option<Vec<RemoteInference>>>)
    ensures
        match r {
            Some(v) => workloads_of(document::opt_json(f)) == Some(opt_inference(v)),
            None => workloads_of(document::opt_json(f)) is None,
        },
{
    match f {
        None => Some(None),
        Some(Json::Null) => Some(None),
        Some(Json::Array(a)) => {
            let ghost doc = Json::Array(*a)@;
            proof {
                document::lemma_array_view(*a);
            }
            let ghost views = doc->Array_0;
            assert(document::opt_json(f) == Some(JsonView::Array(views)));
            let mut out: Vec<RemoteInference> = Vec::new();
            for i in 0..a.len()
                invariant
                    document::opt_json(f) == Some(JsonView::Array(views)),
                    views.len() == a@.len(),
                    forall|k: int| 0 <= k < views.len() ==> #[trigger] views[k] == a@[k]@,
                    out@.len() == i,
                    forall|k: int| 0 <= k < i ==> inference_of(#[trigger] views[k]) == Some(out@[k]@),
            {
                match decode_inference(&a[i]) {
                    Some(v) => out.push(v),
                    None => {
                        assert(inference_of(views[i as int]) is None);
                        return None;
                    },
                }
            }
            assert(Seq::new(views.len(), |i: int| inference_of(views[i])->0) =~= inference_views(out@));
            Some(Some(out))
        },
        Some(_) => None,
    }
}

/// Reads an extension, of whatever version.
pub fn decode_extension(j: &Json) -> (r: Option<TtToplikeExt>)
    ensures
        match r {
            Some(e) => ext_of(j@) == Some(e@),
            None => ext_of(j@) is None,
        },
{
    if !j.is_record(1, 3) {
        return None;
    }
    let schema: u64 = match number_field(j.field(0, "schema"), u32::MAX as u64) {
        Some(n) => n,
        None => return None,
    };
    let processes = match decode_procs(j.field(1, "processes")) {
        Some(v) => v,
        None => return None,
    };
    let inference = match decode_workloads(j.field(2, "inference")) {
        Some(v) => v,
        None => return None,
    };
    Some(TtToplikeExt { schema: schema as u32, processes, inference })
}

/// The extension of a frame. A frame that is no JSON object or that carries no
/// extension has none, nor has one whose extension is malformed or of another
/// version.
pub fn parse_extension(frame: &str) -> (r: Option<TtToplikeExt>)
    ensures
        match r {
            Some(e) => frame_extension(frame@) == Some(e@),
            None => frame_extension(frame@) is None,
        },
{
    match parse_json(frame) {
        Ok(doc) => match doc.get("tt_toplike") {
            Some(j) => match decode_extension(j) {
                Some(e) => if e.schema == TT_TOPLIKE_SCHEMA {
                    Some(e)
                } else {
                    None
                },
                None => None,
            },
            None => None,
        },
        Err(_) => None,
    }
}

// Writing

/// A member.
pub open spec fn entry(key: Seq<char>, value: JsonView) -> MemberView {
    MemberView { key, value }
}

/// A reading as JSON: a number, or null where it is none, as for a reading that
/// is not finite.
pub open spec fn reading_tree(s: Seq<char>) -> JsonView {
    if document::is_number_text(s) { JsonView::Number(s) } else { JsonView::Null }
}

/// An optional reading as JSON.
pub open spec fn optional_reading_tree(s: Option<Seq<char>>) -> JsonView {
    match s {
        Some(t) => reading_tree(t),
        None => JsonView::Null,
    }
}

/// A process as JSON.
pub open spec fn proc_tree(v: ProcView) -> JsonView {
    JsonView::Object(
        seq![
            entry("cmd"@, JsonView::Text(v.cmd)),
            entry("cpu_pct"@, reading_tree(v.cpu_pct)),
            entry("mem_bytes"@, JsonView::Number(text::decimal(v.mem_bytes))),
            entry("name"@, JsonView::Text(v.name)),
            entry("pid"@, JsonView::Number(text::decimal(v.pid))),
            entry("uses_tt"@, JsonView::Bool(v.uses_tt)),
        ],
    )
}

/// Serving figures as JSON.
pub open spec fn serving_tree(v: ServingView) -> JsonView {
    JsonView::Object(
        seq![
            entry("completed_delta"@, JsonView::Number(text::decimal(v.completed_delta))),
            entry("decode_avg_s"@, reading_tree(v.decode_avg_s)),
            entry("errored_delta"@, JsonView::Number(text::decimal(v.errored_delta))),
            entry("generation_tps"@, reading_tree(v.generation_tps)),
            entry("kv_cache_usage"@, reading_tree(v.kv_cache_usage)),
            entry("preemptions_delta"@, JsonView::Number(text::decimal(v.preemptions_delta))),
            entry("prefill_avg_s"@, reading_tree(v.prefill_avg_s)),
            entry("prefix_hit_rate"@, reading_tree(v.prefix_hit_rate)),
            entry("prompt_tps"@, reading_tree(v.prompt_tps)),
            entry("queue_avg_s"@, reading_tree(v.queue_avg_s)),
            entry("requests_running"@, JsonView::Number(text::decimal(v.requests_running))),
            entry("requests_waiting"@, JsonView::Number(text::decimal(v.requests_waiting))),
            entry("tpot_avg_s"@, reading_tree(v.tpot_avg_s)),
            entry("ttft_avg_s"@, reading_tree(v.ttft_avg_s)),
        ],
    )
}

/// Optional serving figures as JSON.
pub open spec fn optional_serving_tree(s: Option<ServingView>) -> JsonView {
    match s {
        Some(t) => serving_tree(t),
        None => JsonView::Null,
    }
}

/// An inference workload as JSON.
pub open spec fn inference_tree(v: InferenceView) -> JsonView {
    JsonView::Object(
        seq![
            entry("key"@, JsonView::Text(v.key)),
            entry("label"@, JsonView::Text(v.label)),
            entry("phase"@, JsonView::Text(v.phase)),
            entry("progress"@, optional_reading_tree(v.progress)),
            entry("serving"@, optional_serving_tree(v.serving)),
        ],
    )
}

/// The members of an extension as JSON. A list that is absent is left out.
pub open spec fn ext_members(e: ExtView) -> Seq<MemberView> {
    (match e.inference {
        Some(v) => seq![
            entry("inference"@, JsonView::Array(v.map_values(|x: InferenceView| inference_tree(x)))),
        ],
        None => Seq::empty(),
    }) + (match e.processes {
        Some(v) => seq![
            entry("processes"@, JsonView::Array(v.map_values(|x: ProcView| proc_tree(x)))),
        ],
        None => Seq::empty(),
    }) + seq![entry("schema"@, JsonView::Number(text::decimal(e.schema)))]
}

/// An extension as JSON.
pub open spec fn ext_tree(e: ExtView) -> JsonView {
    JsonView::Object(ext_members(e))
}

fn scan_number(s: &str) -> (r: bool)
    ensures
        r == document::is_number_text(s@),
{
    let v = chars_of(s);
    document::is_number_chars(v.as_slice())
}

fn reading_json(s: &String) -> (j: Json)
    ensures
        j@ == reading_tree(s@),
{
    if scan_number(s.as_str()) {
        Json::Number(s.clone())
    } else {
        Json::Null
    }
}

fn optional_reading_json(s: &Option<String>) -> (j: Json)
    ensures
        j@ == optional_reading_tree(text::opt_text(*s)),
{
    match s {
        Some(t) => reading_json(t),
        None => Json::Null,
    }
}

fn put(m: &mut Vec<Member>, key: &str, value: Json)
    ensures
        final(m)@.len() == old(m)@.len() + 1,
        forall|i: int| 0 <= i < old(m)@.len() ==> #[trigger] final(m)@[i] == old(m)@[i],
        final(m)@.last().key@ == key@,
        final(m)@.last().value@ == value@,
{
    m.push(Member { key: key.to_owned(), value });
}

fn proc_json(v: &RemoteProc) -> (j: Json)
    ensures
        j@ == proc_tree(v@),
{
    let mut m: Vec<Member> = Vec::new();
    put(&mut m, "cmd", Json::Text(v.cmd.clone()));
    put(&mut m, "cpu_pct", reading_json(&v.cpu_pct));
    put(&mut m, "mem_bytes", Json::Number(decimal_text(v.mem_bytes)));
    put(&mut m, "name", Json::Text(v.name.clone()));
    put(&mut m, "pid", Json::Number(decimal_text(v.pid as u64)));
    put(&mut m, "uses_tt", Json::Bool(v.uses_tt));
    proof {
        document::lemma_object_view(m);
        assert(Json::Object(m)@->Object_0 =~= proc_tree(v@)->Object_0);
    }
    Json::Object(m)
}

fn serving_json(v: &RemoteServing) -> (j: Json)
    ensures
        j@ == serving_tree(v@),
{
    let mut m: Vec<Member> = Vec::new();
    put(&mut m, "completed_delta", Json::Number(decimal_text(v.completed_delta as u64)));
    put(&mut m, "decode_avg_s", reading_json(&v.decode_avg_s));
    put(&mut m, "errored_delta", Json::Number(decimal_text(v.errored_delta as u64)));
    put(&mut m, "generation_tps", reading_json(&v.generation_tps));
    put(&mut m, "kv_cache_usage", reading_json(&v.kv_cache_usage));
    put(&mut m, "preemptions_delta", Json::Number(decimal_text(v.preemptions_delta as u64)));
    put(&mut m, "prefill_avg_s", reading_json(&v.prefill_avg_s));
    put(&mut m, "prefix_hit_rate", reading_json(&v.prefix_hit_rate));
    put(&mut m, "prompt_tps", reading_json(&v.prompt_tps));
    put(&mut m, "queue_avg_s", reading_json(&v.queue_avg_s));
    put(&mut m, "requests_running", Json::Number(decimal_text(v.requests_running as u64)));
    put(&mut m, "requests_waiting", Json::Number(decimal_text(v.requests_waiting as u64)));
    put(&mut m, "tpot_avg_s", reading_json(&v.tpot_avg_s));
    put(&mut m, "ttft_avg_s", reading_json(&v.ttft_avg_s));
    proof {
        document::lemma_object_view(m);
        assert(Json::Object(m)@->Object_0 =~= serving_tree(v@)->Object_0);
    }
    Json::Object(m)
}

fn optional_serving_json(s: &Option<RemoteServing>) -> (j: Json)
    ensures
        j@ == optional_serving_tree(
            match *s {
                Some(t) => Some(t@),
                None => None,
            },
        ),
{
    match s {
        Some(t) => serving_json(t),
        None => Json::Null,
    }
}

fn inference_json(v: &RemoteInference) -> (j: Json)
    ensures
        j@ == inference_tree(v@),
{
    let mut m: Vec<Member> = Vec::new();
    put(&mut m, "key", Json::Text(v.key.clone()));
    put(&mut m, "label", Json::Text(v.label.clone()));
    put(&mut m, "phase", Json::Text(v.phase.clone()));
    put(&mut m, "progress", optional_reading_json(&v.progress));
    put(&mut m, "serving", optional_serving_json(&v.serving));
    proof {
        document::lemma_object_view(m);
        assert(Json::Object(m)@->Object_0 =~= inference_tree(v@)->Object_0);
    }
    Json::Object(m)
}

fn procs_json(v: &Vec<RemoteProc>) -> (j: Json)
    ensures
        j@ == JsonView::Array(proc_views(v@).map_values(|x: ProcView| proc_tree(x))),
{
    let mut a: Vec<Json> = Vec::new();
    for i in 0..v.len()
        invariant
            a@.len() == i,
            forall|k: int| 0 <= k < i ==> (#[trigger] a@[k])@ == proc_tree(v@[k]@),
    {
        a.push(proc_json(&v[i]));
    }
    proof {
        document::lemma_array_view(a);
        assert(Json::Array(a)@->Array_0 =~= proc_views(v@).map_values(|x: ProcView| proc_tree(x)));
    }
    Json::Array(a)
}

fn workloads_json(v: &Vec<RemoteInference>) -> (j: Json)
    ensures
        j@ == JsonView::Array(inference_views(v@).map_values(|x: InferenceView| inference_tree(x))),
{
    let mut a: Vec<Json> = Vec::new();
    for i in 0..v.len()
        invariant
            a@.len() == i,
            forall|k: int| 0 <= k < i ==> (#[trigger] a@[k])@ == inference_tree(v@[k]@),
    {
        a.push(inference_json(&v[i]));
    }
    proof {
        document::lemma_array_view(a);
        assert(Json::Array(a)@->Array_0 =~= inference_views(v@).map_values(|x: InferenceView| inference_tree(x)));
    }
    Json::Array(a)
}

/// An extension as a JSON tree.
pub fn extension_json(ext: &TtToplikeExt) -> (j: Json)
    ensures
        j@ == ext_tree(ext@),
{
    let mut m: Vec<Member> = Vec::new();
    if let Some(v) = &ext.inference {
        put(&mut m, "inference", workloads_json(v));
    }
    if let Some(v) = &ext.processes {
        put(&mut m, "processes", procs_json(v));
    }
    put(&mut m, "schema", Json::Number(decimal_text(ext.schema as u64)));
    proof {
        document::lemma_object_view(m);
        assert(Json::Object(m)@->Object_0 =~= ext_members(ext@));
    }
    Json::Object(m)
}

// Laws of writing and reading


/// Whether the numbers of a process fit their types.
pub open spec fn proc_fits(v: ProcView) -> bool {
    &&& v.pid <= u32::MAX
    &&& v.mem_bytes <= u64::MAX
}

/// Whether the counts of serving figures fit their types.
pub open spec fn serving_fits(v: ServingView) -> bool {
    &&& v.requests_running <= u32::MAX
    &&& v.requests_waiting <= u32::MAX
    &&& v.completed_delta <= u32::MAX
    &&& v.errored_delta <= u32::MAX
    &&& v.preemptions_delta <= u32::MAX
}

proof fn lemma_proc_writable(v: ProcView)
    requires
        v.pid <= u64::MAX,
        v.mem_bytes <= u64::MAX,
    ensures
        document::ascending(proc_tree(v)->Object_0),
        document::writable(proc_tree(v)),
        document::within(proc_tree(v), 1),
{
    reveal_strlit("cmd");
    reveal_strlit("cpu_pct");
    reveal_strlit("mem_bytes");
    reveal_strlit("name");
    reveal_strlit("pid");
    reveal_strlit("uses_tt");
    assert(document::before_at("cmd"@, "cpu_pct"@, 1));
    assert(document::before_at("cpu_pct"@, "mem_bytes"@, 0));
    assert(document::before_at("mem_bytes"@, "name"@, 0));
    assert(document::before_at("name"@, "pid"@, 0));
    assert(document::before_at("pid"@, "uses_tt"@, 0));
    document::lemma_decimal_is_number(v.pid);
    document::lemma_decimal_is_number(v.mem_bytes);
    let m = proc_tree(v)->Object_0;
    assert forall|i: int| 0 <= i < m.len() implies document::writable((#[trigger] m[i]).value) by {}
    assert forall|i: int| 0 <= i < m.len() implies document::within((#[trigger] m[i]).value, 0) by {}
}

proof fn lemma_serving_writable(v: ServingView)
    requires
        v.requests_running <= u64::MAX,
        v.requests_waiting <= u64::MAX,
        v.completed_delta <= u64::MAX,
        v.errored_delta <= u64::MAX,
        v.preemptions_delta <= u64::MAX,
    ensures
        document::ascending(serving_tree(v)->Object_0),
        document::writable(serving_tree(v)),
        document::within(serving_tree(v), 1),
{
    reveal_strlit("completed_delta");
    reveal_strlit("decode_avg_s");
    reveal_strlit("errored_delta");
    reveal_strlit("generation_tps");
    reveal_strlit("kv_cache_usage");
    reveal_strlit("preemptions_delta");
    reveal_strlit("prefill_avg_s");
    reveal_strlit("prefix_hit_rate");
    reveal_strlit("prompt_tps");
    reveal_strlit("queue_avg_s");
    reveal_strlit("requests_running");
    reveal_strlit("requests_waiting");
    reveal_strlit("tpot_avg_s");
    reveal_strlit("ttft_avg_s");
    assert(document::before_at("completed_delta"@, "decode_avg_s"@, 0));
    assert(document::before_at("decode_avg_s"@, "errored_delta"@, 0));
    assert(document::before_at("errored_delta"@, "generation_tps"@, 0));
    assert(document::before_at("generation_tps"@, "kv_cache_usage"@, 0));
    assert(document::before_at("kv_cache_usage"@, "preemptions_delta"@, 0));
    assert(document::before_at("preemptions_delta"@, "prefill_avg_s"@, 3));
    assert(document::before_at("prefill_avg_s"@, "prefix_hit_rate"@, 5));
    assert(document::before_at("prefix_hit_rate"@, "prompt_tps"@, 2));
    assert(document::before_at("prompt_tps"@, "queue_avg_s"@, 0));
    assert(document::before_at("queue_avg_s"@, "requests_running"@, 0));
    assert(document::before_at("requests_running"@, "requests_waiting"@, 9));
    assert(document::before_at("requests_waiting"@, "tpot_avg_s"@, 0));
    assert(document::before_at("tpot_avg_s"@, "ttft_avg_s"@, 1));
    document::lemma_decimal_is_number(v.requests_running);
    document::lemma_decimal_is_number(v.requests_waiting);
    document::lemma_decimal_is_number(v.completed_delta);
    document::lemma_decimal_is_number(v.errored_delta);
    document::lemma_decimal_is_number(v.preemptions_delta);
    let m = serving_tree(v)->Object_0;
    assert forall|i: int| 0 <= i < m.len() implies document::writable((#[trigger] m[i]).value) by {}
    assert forall|i: int| 0 <= i < m.len() implies document::within((#[trigger] m[i]).value, 0) by {}
}

proof fn lemma_inference_writable(v: InferenceView)
    requires
        v.serving matches Some(s) ==> serving_fits(s),
    ensures
        document::ascending(inference_tree(v)->Object_0),
        document::writable(inference_tree(v)),
        document::within(inference_tree(v), 3),
{
    reveal_strlit("key");
    reveal_strlit("label");
    reveal_strlit("phase");
    reveal_strlit("progress");
    reveal_strlit("serving");
    assert(document::before_at("key"@, "label"@, 0));
    assert(document::before_at("label"@, "phase"@, 0));
    assert(document::before_at("phase"@, "progress"@, 1));
    assert(document::before_at("progress"@, "serving"@, 0));
    if v.serving is Some {
        lemma_serving_writable(v.serving->0);
    }
    assert(document::within(optional_serving_tree(v.serving), 2)) by {
        if v.serving is Some {
            document::lemma_within_more(serving_tree(v.serving->0), 1, 2);
        }
    }
    let m = inference_tree(v)->Object_0;
    assert forall|i: int| 0 <= i < m.len() implies document::writable((#[trigger] m[i]).value) by {}
    assert forall|i: int| 0 <= i < m.len() implies document::within((#[trigger] m[i]).value, 2) by {}
}

/// Whether the readings of serving figures are numbers.
pub open spec fn serving_numbers(v: ServingView) -> bool {
    &&& document::is_number_text(v.generation_tps)
    &&& document::is_number_text(v.prompt_tps)
    &&& document::is_number_text(v.kv_cache_usage)
    &&& document::is_number_text(v.ttft_avg_s)
    &&& document::is_number_text(v.queue_avg_s)
    &&& document::is_number_text(v.prefill_avg_s)
    &&& document::is_number_text(v.decode_avg_s)
    &&& document::is_number_text(v.tpot_avg_s)
    &&& document::is_number_text(v.prefix_hit_rate)
}

/// Whether the readings of an inference workload are numbers.
pub open spec fn inference_numbers(v: InferenceView) -> bool {
    &&& v.progress matches Some(s) ==> document::is_number_text(s)
    &&& v.serving matches Some(s) ==> serving_numbers(s)
}

/// Whether every reading of an extension is a number, and so finite.
pub open spec fn ext_numbers(e: ExtView) -> bool {
    &&& e.processes matches Some(v) ==> forall|i: int|
        0 <= i < v.len() ==> document::is_number_text((#[trigger] v[i]).cpu_pct)
    &&& e.inference matches Some(v) ==> forall|i: int|
        0 <= i < v.len() ==> inference_numbers(#[trigger] v[i])
}

/// Whether every reading of serving figures is plain.
pub open spec fn serving_plain(v: ServingView) -> bool {
    &&& document::is_plain_number(v.generation_tps)
    &&& document::is_plain_number(v.prompt_tps)
    &&& document::is_plain_number(v.kv_cache_usage)
    &&& document::is_plain_number(v.ttft_avg_s)
    &&& document::is_plain_number(v.queue_avg_s)
    &&& document::is_plain_number(v.prefill_avg_s)
    &&& document::is_plain_number(v.decode_avg_s)
    &&& document::is_plain_number(v.tpot_avg_s)
    &&& document::is_plain_number(v.prefix_hit_rate)
}

/// Whether every reading of an inference workload is plain.
pub open spec fn inference_plain(v: InferenceView) -> bool {
    &&& v.progress matches Some(s) ==> document::is_plain_number(s)
    &&& v.serving matches Some(s) ==> serving_plain(s)
}

/// Whether every reading of an extension is plain.
pub open spec fn ext_plain(e: ExtView) -> bool {
    &&& e.processes matches Some(v) ==> forall|i: int|
        0 <= i < v.len() ==> document::is_plain_number((#[trigger] v[i]).cpu_pct)
    &&& e.inference matches Some(v) ==> forall|i: int|
        0 <= i < v.len() ==> inference_plain(#[trigger] v[i])
}

/// Whether a reading stands for another: it is that where that is plain, has its
/// value where that is exact, is near it in any case, and is read as the same
/// number in single precision.
pub open spec fn reading_kept(s: Seq<char>, t: Seq<char>) -> bool {
    document::number_kept(s, t, 3) && document::single_kept(s, t)
}

/// Whether a process is another, its reading kept.
pub open spec fn proc_kept(v: ProcView, w: ProcView) -> bool {
    &&& reading_kept(v.cpu_pct, w.cpu_pct)
    &&& w == (ProcView { cpu_pct: w.cpu_pct, ..v })
}

/// Whether serving figures are others, their readings kept.
pub open spec fn serving_kept(v: ServingView, w: ServingView) -> bool {
    &&& reading_kept(v.generation_tps, w.generation_tps)
    &&& reading_kept(v.prompt_tps, w.prompt_tps)
    &&& reading_kept(v.kv_cache_usage, w.kv_cache_usage)
    &&& reading_kept(v.ttft_avg_s, w.ttft_avg_s)
    &&& reading_kept(v.queue_avg_s, w.queue_avg_s)
    &&& reading_kept(v.prefill_avg_s, w.prefill_avg_s)
    &&& reading_kept(v.decode_avg_s, w.decode_avg_s)
    &&& reading_kept(v.tpot_avg_s, w.tpot_avg_s)
    &&& reading_kept(v.prefix_hit_rate, w.prefix_hit_rate)
    &&& w.requests_running == v.requests_running
    &&& w.requests_waiting == v.requests_waiting
    &&& w.completed_delta == v.completed_delta
    &&& w.errored_delta == v.errored_delta
    &&& w.preemptions_delta == v.preemptions_delta
}

/// Whether an inference workload is another, its readings kept.
pub open spec fn inference_kept(v: InferenceView, w: InferenceView) -> bool {
    &&& w.key == v.key
    &&& w.label == v.label
    &&& w.phase == v.phase
    &&& match (v.progress, w.progress) {
        (Some(s), Some(t)) => reading_kept(s, t),
        (None, None) => true,
        _ => false,
    }
    &&& match (v.serving, w.serving) {
        (Some(s), Some(t)) => serving_kept(s, t),
        (None, None) => true,
        _ => false,
    }
}

/// Whether an extension is another, entry by entry, its readings kept. A list
/// that is absent stays absent, and one that is empty stays empty.
pub open spec fn ext_kept(e: ExtView, f: ExtView) -> bool {
    &&& f.schema == e.schema
    &&& match (e.processes, f.processes) {
        (Some(v), Some(w)) => v.len() == w.len() && forall|i: int|
            0 <= i < v.len() ==> proc_kept(#[trigger] v[i], w[i]),
        (None, None) => true,
        _ => false,
    }
    &&& match (e.inference, f.inference) {
        (Some(v), Some(w)) => v.len() == w.len() && forall|i: int|
            0 <= i < v.len() ==> inference_kept(#[trigger] v[i], w[i]),
        (None, None) => true,
        _ => false,
    }
}

/// Whether the numbers of an extension fit their types.
pub open spec fn ext_fits(e: ExtView) -> bool {
    &&& e.schema <= u32::MAX
    &&& e.processes matches Some(v) ==> forall|i: int|
        0 <= i < v.len() ==> proc_fits(#[trigger] v[i])
    &&& e.inference matches Some(v) ==> forall|i: int|
        0 <= i < v.len() ==> ((#[trigger] v[i]).serving matches Some(s) ==> serving_fits(s))
}

proof fn lemma_reading_back(s: Seq<char>, y: JsonView)
    requires
        document::is_number_text(s),
        document::alike(reading_tree(s), y, 3),
    ensures
        y matches JsonView::Number(t) && reading_kept(s, t),
{
    document::law_single_precision_survives(s, y->Number_0);
}

proof fn lemma_proc_back(v: ProcView, y: JsonView)
    requires
        proc_fits(v),
        document::is_number_text(v.cpu_pct),
        document::alike(proc_tree(v), y, 3),
    ensures
        proc_of(y) matches Some(w) && proc_kept(v, w),
{
    lemma_proc_writable(v);
    let m = proc_tree(v)->Object_0;
    assert(m[0] == entry("cmd"@, JsonView::Text(v.cmd)));
    document::lemma_ascending_key(m, y, 0, 3);
    assert(m[1] == entry("cpu_pct"@, reading_tree(v.cpu_pct)));
    document::lemma_ascending_key(m, y, 1, 3);
    assert(m[2] == entry("mem_bytes"@, JsonView::Number(text::decimal(v.mem_bytes))));
    document::lemma_ascending_key(m, y, 2, 3);
    document::lemma_decimal_is_number(v.mem_bytes);
    assert(m[3] == entry("name"@, JsonView::Text(v.name)));
    document::lemma_ascending_key(m, y, 3, 3);
    assert(m[4] == entry("pid"@, JsonView::Number(text::decimal(v.pid))));
    document::lemma_ascending_key(m, y, 4, 3);
    document::lemma_decimal_is_number(v.pid);
    assert(m[5] == entry("uses_tt"@, JsonView::Bool(v.uses_tt)));
    document::lemma_ascending_key(m, y, 5, 3);
    lemma_reading_back(v.cpu_pct, y->Object_0[1].value);
}

proof fn lemma_serving_back(v: ServingView, y: JsonView)
    requires
        serving_fits(v),
        serving_numbers(v),
        document::alike(serving_tree(v), y, 3),
    ensures
        serving_of(y) matches Some(w) && serving_kept(v, w),
{
    lemma_serving_writable(v);
    let m = serving_tree(v)->Object_0;
    assert(m[0] == entry("completed_delta"@, JsonView::Number(text::decimal(v.completed_delta))));
    document::lemma_ascending_key(m, y, 0, 3);
    document::lemma_decimal_is_number(v.completed_delta);
    assert(m[1] == entry("decode_avg_s"@, reading_tree(v.decode_avg_s)));
    document::lemma_ascending_key(m, y, 1, 3);
    assert(m[2] == entry("errored_delta"@, JsonView::Number(text::decimal(v.errored_delta))));
    document::lemma_ascending_key(m, y, 2, 3);
    document::lemma_decimal_is_number(v.errored_delta);
    assert(m[3] == entry("generation_tps"@, reading_tree(v.generation_tps)));
    document::lemma_ascending_key(m, y, 3, 3);
    assert(m[4] == entry("kv_cache_usage"@, reading_tree(v.kv_cache_usage)));
    document::lemma_ascending_key(m, y, 4, 3);
    assert(m[5] == entry("preemptions_delta"@, JsonView::Number(text::decimal(v.preemptions_delta))));
    document::lemma_ascending_key(m, y, 5, 3);
    document::lemma_decimal_is_number(v.preemptions_delta);
    assert(m[6] == entry("prefill_avg_s"@, reading_tree(v.prefill_avg_s)));
    document::lemma_ascending_key(m, y, 6, 3);
    assert(m[7] == entry("prefix_hit_rate"@, reading_tree(v.prefix_hit_rate)));
    document::lemma_ascending_key(m, y, 7, 3);
    assert(m[8] == entry("prompt_tps"@, reading_tree(v.prompt_tps)));
    document::lemma_ascending_key(m, y, 8, 3);
    assert(m[9] == entry("queue_avg_s"@, reading_tree(v.queue_avg_s)));
    document::lemma_ascending_key(m, y, 9, 3);
    assert(m[10] == entry("requests_running"@, JsonView::Number(text::decimal(v.requests_running))));
    document::lemma_ascending_key(m, y, 10, 3);
    document::lemma_decimal_is_number(v.requests_running);
    assert(m[11] == entry("requests_waiting"@, JsonView::Number(text::decimal(v.requests_waiting))));
    document::lemma_ascending_key(m, y, 11, 3);
    document::lemma_decimal_is_number(v.requests_waiting);
    assert(m[12] == entry("tpot_avg_s"@, reading_tree(v.tpot_avg_s)));
    document::lemma_ascending_key(m, y, 12, 3);
    assert(m[13] == entry("ttft_avg_s"@, reading_tree(v.ttft_avg_s)));
    document::lemma_ascending_key(m, y, 13, 3);
    lemma_reading_back(v.decode_avg_s, y->Object_0[1].value);
    lemma_reading_back(v.generation_tps, y->Object_0[3].value);
    lemma_reading_back(v.kv_cache_usage, y->Object_0[4].value);
    lemma_reading_back(v.prefill_avg_s, y->Object_0[6].value);
    lemma_reading_back(v.prefix_hit_rate, y->Object_0[7].value);
    lemma_reading_back(v.prompt_tps, y->Object_0[8].value);
    lemma_reading_back(v.queue_avg_s, y->Object_0[9].value);
    lemma_reading_back(v.tpot_avg_s, y->Object_0[12].value);
    lemma_reading_back(v.ttft_avg_s, y->Object_0[13].value);
}

proof fn lemma_inference_back(v: InferenceView, y: JsonView)
    requires
        v.serving matches Some(s) ==> serving_fits(s),
        inference_numbers(v),
        document::alike(inference_tree(v), y, 3),
    ensures
        inference_of(y) matches Some(w) && inference_kept(v, w),
{
    lemma_inference_writable(v);
    let m = inference_tree(v)->Object_0;
    assert(m[0] == entry("key"@, JsonView::Text(v.key)));
    document::lemma_ascending_key(m, y, 0, 3);
    assert(m[1] == entry("label"@, JsonView::Text(v.label)));
    document::lemma_ascending_key(m, y, 1, 3);
    assert(m[2] == entry("phase"@, JsonView::Text(v.phase)));
    document::lemma_ascending_key(m, y, 2, 3);
    assert(m[3] == entry("progress"@, optional_reading_tree(v.progress)));
    document::lemma_ascending_key(m, y, 3, 3);
    assert(m[4] == entry("serving"@, optional_serving_tree(v.serving)));
    document::lemma_ascending_key(m, y, 4, 3);
    if v.progress is Some {
        lemma_reading_back(v.progress->0, y->Object_0[3].value);
    }
    if v.serving is Some {
        lemma_serving_back(v.serving->0, y->Object_0[4].value);
    }
}

proof fn lemma_ext_writable(e: ExtView)
    requires
        ext_fits(e),
    ensures
        document::ascending(ext_members(e)),
        document::writable(ext_tree(e)),
        document::within(ext_tree(e), 5),
{
    reveal_strlit("inference");
    reveal_strlit("processes");
    reveal_strlit("schema");
    assert(document::before_at("inference"@, "processes"@, 0));
    assert(document::before_at("processes"@, "schema"@, 0));
    assert(document::before_at("inference"@, "schema"@, 0));
    document::lemma_decimal_is_number(e.schema);
    if e.inference is Some {
        let a = (e.inference->0).map_values(|x: InferenceView| inference_tree(x));
        assert forall|i: int| 0 <= i < a.len() implies document::writable(#[trigger] a[i])
            && document::within(a[i], 3) by {
            lemma_inference_writable((e.inference->0)[i]);
        }
        assert(document::writable(JsonView::Array(a)));
        assert(document::within(JsonView::Array(a), 4));
    }
    if e.processes is Some {
        let a = (e.processes->0).map_values(|x: ProcView| proc_tree(x));
        assert forall|i: int| 0 <= i < a.len() implies document::writable(#[trigger] a[i])
            && document::within(a[i], 3) by {
            assert(proc_fits((e.processes->0)[i]));
            lemma_proc_writable((e.processes->0)[i]);
            document::lemma_within_more(a[i], 1, 3);
        }
        assert(document::writable(JsonView::Array(a)));
        assert(document::within(JsonView::Array(a), 4));
    }
    let m = ext_members(e);
    assert forall|i: int| 0 <= i < m.len() implies document::writable((#[trigger] m[i]).value)
        && document::within(m[i].value, 4) by {}
}

proof fn lemma_plain_is_same(e: ExtView, f: ExtView)
    requires
        ext_kept(e, f),
        ext_plain(e),
    ensures
        f == e,
{
    if e.processes is Some {
        let v = e.processes->0;
        let w = f.processes->0;
        assert forall|i: int| 0 <= i < v.len() implies v[i] == w[i] by {
            assert(proc_kept(v[i], w[i]));
        }
        assert(v =~= w);
    }
    if e.inference is Some {
        let v = e.inference->0;
        let w = f.inference->0;
        assert forall|i: int| 0 <= i < v.len() implies v[i] == w[i] by {
            assert(inference_kept(v[i], w[i]));
            assert(inference_plain(v[i]));
        }
        assert(v =~= w);
    }
}

/// An extension that was written reads back: every list, every entry and every
/// field as it was. A reading that is not plain may be written otherwise; it has
/// the same value where it is exact, and in single precision it is the same
/// number.
pub proof fn law_extension_reads_back(e: ExtView, written: JsonView)
    requires
        ext_fits(e),
        ext_numbers(e),
        document::alike(ext_tree(e), written, 3),
    ensures
        ext_of(written) matches Some(f) && ext_kept(e, f),
        ext_plain(e) ==> ext_of(written) == Some(e),
{
    lemma_ext_writable(e);
    let m = ext_members(e);
    reveal_strlit("inference");
    reveal_strlit("processes");
    reveal_strlit("schema");
    let last = m.len() - 1;
    assert(m[last] == entry("schema"@, JsonView::Number(text::decimal(e.schema))));
    document::lemma_ascending_key(m, written, last, 3);
    document::lemma_decimal_is_number(e.schema);
    if e.inference is Some {
        let v = e.inference->0;
        let a = v.map_values(|x: InferenceView| inference_tree(x));
        assert(m[0] == entry("inference"@, JsonView::Array(a)));
        document::lemma_ascending_key(m, written, 0, 3);
        let b = written->Object_0[0].value->Array_0;
        assert forall|i: int| 0 <= i < b.len() implies inference_of(#[trigger] b[i]) is Some
            && inference_kept(v[i], inference_of(b[i])->0) by {
            assert(document::alike(a[i], b[i], 3));
            assert(inference_numbers(v[i]));
            lemma_inference_back(v[i], b[i]);
        }
    } else {
        assert("inference"@[0] != "processes"@[0]);
        assert("inference"@[0] != "schema"@[0]);
        document::lemma_no_key(m, written, "inference"@, 3);
    }
    if e.processes is Some {
        let v = e.processes->0;
        let a = v.map_values(|x: ProcView| proc_tree(x));
        let at = if e.inference is Some { 1int } else { 0int };
        assert(m[at] == entry("processes"@, JsonView::Array(a)));
        document::lemma_ascending_key(m, written, at, 3);
        let b = written->Object_0[at].value->Array_0;
        assert forall|i: int| 0 <= i < b.len() implies proc_of(#[trigger] b[i]) is Some
            && proc_kept(v[i], proc_of(b[i])->0) by {
            assert(document::alike(a[i], b[i], 3));
            assert(proc_fits(v[i]));
            lemma_proc_back(v[i], b[i]);
        }
    } else {
        assert("inference"@[0] != "processes"@[0]);
        assert("processes"@[0] != "schema"@[0]);
        document::lemma_no_key(m, written, "processes"@, 3);
    }
    let f = ext_of(written)->0;
    assert(ext_of(written) is Some);
    assert(ext_kept(e, f)) by {
        if e.processes is Some {
            let v = e.processes->0;
            let at = if e.inference is Some { 1int } else { 0int };
            let b = written->Object_0[at].value->Array_0;
            assert forall|i: int| 0 <= i < v.len() implies proc_kept(
                #[trigger] v[i],
                (f.processes->0)[i],
            ) by {
                assert(proc_kept(v[i], proc_of(b[i])->0));
            }
        }
        if e.inference is Some {
            let v = e.inference->0;
            let b = written->Object_0[0].value->Array_0;
            assert forall|i: int| 0 <= i < v.len() implies inference_kept(
                #[trigger] v[i],
                (f.inference->0)[i],
            ) by {
                assert(inference_kept(v[i], inference_of(b[i])->0));
            }
        }
    }
    if ext_plain(e) {
        lemma_plain_is_same(e, f);
    }
}

// Frames

/// Whether a text denotes an object with members that are like the given ones
/// and the extension, and with no others.
pub open spec fn frame_extended(before: Seq<MemberView>, e: ExtView, text: Seq<char>) -> bool {
    match document::json_document(text) {
        Ok(JsonView::Object(after)) => {
            &&& document::find_key(after, "tt_toplike"@) matches Some(j) && document::alike(
                ext_tree(e),
                j,
                3,
            )
            &&& forall|key: Seq<char>|
                key != "tt_toplike"@ ==> document::alike_opt(
                    document::find_key(before, key),
                    #[trigger] document::find_key(after, key),
                    1,
                )
        },
        _ => false,
    }
}

/// Whether a text is what is written for the object with the given members and
/// the extension.
pub open spec fn frame_written(before: Seq<MemberView>, e: ExtView, text: Seq<char>) -> bool {
    exists|after: JsonView| #[trigger]
        document::member_set(before, "tt_toplike"@, document::json_value(ext_tree(e)), after)
            && text == document::json_text(after)
}

proof fn lemma_ext_fits(ext: TtToplikeExt)
    ensures
        ext_fits(ext@),
{
    if ext.processes is Some {
        let v = ext@.processes->0;
        assert forall|i: int| 0 <= i < v.len() implies proc_fits(#[trigger] v[i]) by {
            assert(v[i] == (ext.processes->0)@[i]@);
        }
    }
    if ext.inference is Some {
        let v = ext@.inference->0;
        assert forall|i: int| 0 <= i < v.len() implies ((#[trigger] v[i]).serving matches Some(s)
            ==> serving_fits(s)) by {
            assert(v[i] == (ext.inference->0)@[i]@);
        }
    }
}

/// Adds an extension to a frame, in place of one that is there. Every other
/// member stays. A frame that is no JSON object comes back as it is.
pub fn inject_extension(tt_smi_json: &str, ext: &TtToplikeExt) -> (s: String)
    ensures
        match document::json_document(tt_smi_json@) {
            Ok(JsonView::Object(m)) => frame_written(m, ext@, s@) && frame_extended(m, ext@, s@),
            _ => s@ == tt_smi_json@,
        },
{
    let mut value = match parse_value(tt_smi_json) {
        Ok(v) => v,
        Err(_) => return tt_smi_json.to_owned(),
    };
    let ghost before = document::value_tree(value);
    let tree = extension_json(ext);
    proof {
        lemma_ext_fits(*ext);
        lemma_ext_writable(ext@);
        document::lemma_within_more(tree@, 5, 127);
    }
    let item = to_value(&tree);
    let ghost inner = document::value_tree(item);
    if !insert_member(&mut value, "tt_toplike", item) {
        return tt_smi_json.to_owned();
    }
    let ghost after = document::value_tree(value);
    proof {
        document::lemma_alike_within(ext_tree(ext@), inner, 5, 1);
        document::lemma_within_more(inner, 5, 126);
        document::lemma_member_set_within(before->Object_0, "tt_toplike"@, inner, after, 127);
    }
    match write_value(&value) {
        Ok(s) => {
            proof {
                let m = before->Object_0;
                let back = document::json_document(s@)->Ok_0;
                assert(document::alike(after, back, 1));
                assert forall|key: Seq<char>|
                    document::alike_opt(
                        if key == "tt_toplike"@ {
                            Some(inner)
                        } else {
                            document::find_key(m, key)
                        },
                        #[trigger] document::find_key(back->Object_0, key),
                        1,
                    ) by {
                    document::lemma_member_set(m, "tt_toplike"@, inner, after, key);
                    document::lemma_alike_key(after->Object_0, back->Object_0, key, 1);
                }
                document::lemma_member_set(m, "tt_toplike"@, inner, after, "tt_toplike"@);
                let found = document::find_key(back->Object_0, "tt_toplike"@);
                assert(document::alike(inner, found->0, 1));
                document::lemma_alike_twice(ext_tree(ext@), inner, found->0);
            }
            s
        },
        Err(_) => tt_smi_json.to_owned(),
    }
}

/// A frame that an extension of this version was added to carries that
/// extension: every list, every entry and every field, its readings kept. One
/// of another version is not read.
pub proof fn law_added_extension_is_read(before: Seq<MemberView>, e: ExtView, text: Seq<char>)
    requires
        frame_extended(before, e, text),
        ext_fits(e),
        ext_numbers(e),
    ensures
        if e.schema == TT_TOPLIKE_SCHEMA {
            &&& frame_extension(text) matches Some(f) && ext_kept(e, f)
            &&& ext_plain(e) ==> frame_extension(text) == Some(e)
        } else {
            frame_extension(text) is None
        },
{
    let after = document::json_document(text)->Ok_0->Object_0;
    law_extension_reads_back(e, document::find_key(after, "tt_toplike"@)->0);
}

/// An extension of another version is never read.
pub proof fn law_other_versions_are_not_read(frame: Seq<char>, doc: JsonView, j: JsonView)
    requires
        document::json_document(frame) == Ok::<JsonView, Seq<char>>(doc),
        document::member(doc, "tt_toplike"@) == Some(j),
        ext_of(j) matches Some(e) && e.schema != TT_TOPLIKE_SCHEMA,
    ensures
        frame_extension(frame) is None,
{
}

/// A list that the sender leaves out is read as absent, never as empty.
pub proof fn law_missing_lists_are_absent(j: JsonView)
    requires
        ext_of(j) is Some,
    ensures
        document::field(j, 1, "processes"@) is None ==> ext_of(j)->0.processes is None,
        document::field(j, 2, "inference"@) is None ==> ext_of(j)->0.inference is None,
        document::field(j, 1, "processes"@) is Some && document::field(j, 1, "processes"@)->0
            is Array ==> ext_of(j)->0.processes is Some,
        document::field(j, 2, "inference"@) is Some && document::field(j, 2, "inference"@)->0
            is Array ==> ext_of(j)->0.inference is Some,
{
}

proof fn lemma_alike_present(a: Option<JsonView>, b: Option<JsonView>)
    requires
        document::alike_opt(a, b, 1),
    ensures
        document::alike_opt(document::present(a), document::present(b), 1),
        document::text_ok(a) == document::text_ok(b),
{
}

proof fn lemma_alike_texts(a: JsonView, b: JsonView)
    requires
        document::alike(a, b, 1),
    ensures
        forall|pos: nat, key: Seq<char>|
            document::text_ok(#[trigger] document::field(a, pos, key)) == document::text_ok(
                document::field(b, pos, key),
            ),
        forall|min: nat, max: nat| #[trigger]
            document::is_record(a, min, max) == document::is_record(b, min, max),
{
    document::lemma_alike_fields(a, b, 1);
    assert forall|pos: nat, key: Seq<char>|
        document::text_ok(#[trigger] document::field(a, pos, key)) == document::text_ok(
            document::field(b, pos, key),
        ) by {
        lemma_alike_present(document::field(a, pos, key), document::field(b, pos, key));
    }
}

proof fn lemma_alike_smbus(a: JsonView, b: JsonView)
    requires
        document::alike(a, b, 1),
    ensures
        blocks::smbus_ok(a) == blocks::smbus_ok(b),
{
    lemma_alike_texts(a, b);
}

proof fn lemma_alike_board(a: JsonView, b: JsonView)
    requires
        document::alike(a, b, 1),
    ensures
        json::board_ok(a) == json::board_ok(b),
        blocks::telemetry_ok(a) == blocks::telemetry_ok(b),
{
    lemma_alike_texts(a, b);
}

proof fn lemma_alike_entry(a: JsonView, b: JsonView)
    requires
        document::alike(a, b, 1),
    ensures
        json::modern_ok(a) == json::modern_ok(b),
{
    document::lemma_alike_fields(a, b, 1);
    let board = document::present(document::field(a, 0, "board_info"@));
    let board2 = document::present(document::field(b, 0, "board_info"@));
    lemma_alike_present(
        document::field(a, 0, "board_info"@),
        document::field(b, 0, "board_info"@),
    );
    if board is Some {
        lemma_alike_board(board->0, board2->0);
    }
    let t = document::present(document::field(a, 1, "telemetry"@));
    let t2 = document::present(document::field(b, 1, "telemetry"@));
    lemma_alike_present(document::field(a, 1, "telemetry"@), document::field(b, 1, "telemetry"@));
    if t is Some {
        lemma_alike_board(t->0, t2->0);
    }
    let s = document::present(document::field(a, 2, "smbus_telem"@));
    let s2 = document::present(document::field(b, 2, "smbus_telem"@));
    lemma_alike_present(
        document::field(a, 2, "smbus_telem"@),
        document::field(b, 2, "smbus_telem"@),
    );
    if s is Some {
        lemma_alike_smbus(s->0, s2->0);
    }
}

proof fn lemma_alike_sources(x: Seq<JsonView>, y: Seq<JsonView>, n: nat)
    requires
        x.len() == y.len(),
        n <= x.len(),
        forall|i: int| 0 <= i < x.len() ==> document::alike(#[trigger] x[i], y[i], 1),
    ensures
        json::modern_sources(x, n).len() == json::modern_sources(y, n).len(),
        forall|i: int|
            0 <= i < json::modern_sources(x, n).len() ==> source_alike(
                #[trigger] json::modern_sources(x, n)[i],
                json::modern_sources(y, n)[i],
            ),
    decreases n,
{
    if n > 0 {
        lemma_alike_sources(x, y, (n - 1) as nat);
        assert(document::alike(x[n - 1], y[n - 1], 1));
        lemma_alike_entry(x[n - 1], y[n - 1]);
    }
}

/// Whether two device entries stand at the same position and are alike.
pub open spec fn source_alike(a: json::Source, b: json::Source) -> bool {
    match (a, b) {
        (json::Source::Modern(i, x), json::Source::Modern(k, y)) => i == k && document::alike(x, y, 1),
        _ => false,
    }
}

/// A frame with an added extension is still a snapshot for every reader: the
/// same devices, at the same positions, with blocks that are like those before.
pub proof fn law_extended_frames_are_snapshots(
    before: Seq<MemberView>,
    e: ExtView,
    text: Seq<char>,
)
    requires
        frame_extended(before, e, text),
        document::find_key(before, "device_info"@) matches Some(j) && j is Array,
    ensures
        ({
            let a = json::device_sources(JsonView::Object(before));
            let b = json::text_sources(text);
            &&& a is Some
            &&& b is Some
            &&& a->0.len() == b->0.len()
            &&& forall|i: int| 0 <= i < a->0.len() ==> source_alike(#[trigger] a->0[i], b->0[i])
        }),
{
    reveal_strlit("device_info");
    reveal_strlit("tt_toplike");
    assert("device_info"@[0] != "tt_toplike"@[0]);
    let after = document::json_document(text)->Ok_0->Object_0;
    let x = document::find_key(before, "device_info"@)->0->Array_0;
    assert(document::alike_opt(
        document::find_key(before, "device_info"@),
        document::find_key(after, "device_info"@),
        1,
    ));
    let y = document::find_key(after, "device_info"@)->0->Array_0;
    lemma_alike_sources(x, y, x.len());
}

/// A copy of a list of processes.
pub fn copy_procs(v: &Vec<RemoteProc>) -> (r: Vec<RemoteProc>)
    ensures
        proc_views(r@) == proc_views(v@),
{
    let mut out: Vec<RemoteProc> = Vec::new();
    for i in 0..v.len()
        invariant
            out@.len() == i,
            forall|k: int| 0 <= k < i ==> (#[trigger] out@[k])@ == v@[k]@,
    {
        out.push(v[i].dup());
    }
    assert(proc_views(out@) =~= proc_views(v@));
    out
}

/// A copy of a list of inference workloads.
pub fn copy_workloads(v: &Vec<RemoteInference>) -> (r: Vec<RemoteInference>)
    ensures
        inference_views(r@) == inference_views(v@),
{
    let mut out: Vec<RemoteInference> = Vec::new();
    for i in 0..v.len()
        invariant
            out@.len() == i,
            forall|k: int| 0 <= k < i ==> (#[trigger] out@[k])@ == v@[k]@,
    {
        out.push(v[i].dup());
    }
    assert(inference_views(out@) =~= inference_views(v@));
    out
}

// Building

/// A process of this machine.
#[derive(Debug)]
pub struct ProcRow {
    pub pid: i32,
    pub name: String,
    /// The share of a core that it uses, in percent.
    pub cpu_pct: String,
    pub mem_bytes: u64,
    /// How it uses Tenstorrent hardware, if it does.
    pub tt: Option<TtProcInfo>,
}

/// How a process uses Tenstorrent hardware.
#[derive(Debug)]
pub struct TtProcInfo {
    pub device_indices: Vec<usize>,
    pub hugepages_1g: u64,
    pub hugepages_2m: u64,
}

/// How far an inference service has come.
#[derive(Clone, Copy, Debug, PartialEq, Eq, Structural)]
pub enum Phase {
    Down,
    Compiling,
    Loading,
    Ready,
    Alarm,
}

/// An inference service of this machine.
#[derive(Debug)]
pub struct ServiceState {
    pub key: String,
    pub label: String,
    pub phase: Phase,
    pub progress: Option<String>,
    pub serving: Option<RemoteServing>,
}

/// The name of a phase.
pub open spec fn phase_name(phase: Phase) -> Seq<char> {
    match phase {
        Phase::Down => "down"@,
        Phase::Compiling => "compiling"@,
        Phase::Loading => "loading"@,
        Phase::Ready => "ready"@,
        Phase::Alarm => "alarm"@,
    }
}

/// The process that a row is shown as. A row holds no command line, so that the
/// name stands for it; a negative number of a process counts as 0.
pub open spec fn row_view(row: ProcRow) -> ProcView {
    ProcView {
        pid: if row.pid < 0 { 0 } else { row.pid as nat },
        name: row.name@,
        cmd: row.name@,
        uses_tt: row.tt is Some,
        cpu_pct: row.cpu_pct@,
        mem_bytes: row.mem_bytes as nat,
    }
}

/// The workload that a service is shown as.
pub open spec fn state_view(state: ServiceState) -> InferenceView {
    InferenceView {
        key: state.key@,
        label: state.label@,
        phase: phase_name(state.phase),
        progress: text::opt_text(state.progress),
        serving: match state.serving {
            Some(s) => Some(s@),
            None => None,
        },
    }
}

fn phase_str(phase: Phase) -> (s: &'static str)
    ensures
        s@ == phase_name(phase),
{
    match phase {
        Phase::Down => "down",
        Phase::Compiling => "compiling",
        Phase::Loading => "loading",
        Phase::Ready => "ready",
        Phase::Alarm => "alarm",
    }
}

fn remote_proc_from_row(row: &ProcRow) -> (p: RemoteProc)
    ensures
        p@ == row_view(*row),
{
    RemoteProc {
        pid: if row.pid < 0 { 0 } else { row.pid as u32 },
        name: row.name.clone(),
        cmd: row.name.clone(),
        uses_tt: row.tt.is_some(),
        cpu_pct: row.cpu_pct.clone(),
        mem_bytes: row.mem_bytes,
    }
}

fn remote_inference_from_state(state: &ServiceState) -> (p: RemoteInference)
    ensures
        p@ == state_view(*state),
{
    RemoteInference {
        key: state.key.clone(),
        label: state.label.clone(),
        phase: phase_str(state.phase).to_owned(),
        progress: match &state.progress {
            Some(s) => Some(s.clone()),
            None => None,
        },
        serving: match &state.serving {
            Some(s) => Some(s.dup()),
            None => None,
        },
    }
}

/// The extension that tells of this machine. Both lists are there, though they
/// may be empty.
pub fn build_extension(procs: &Vec<ProcRow>, inference: &Vec<ServiceState>) -> (ext: TtToplikeExt)
    ensures
        ext@ == (ExtView {
            schema: TT_TOPLIKE_SCHEMA as nat,
            processes: Some(procs@.map_values(|r: ProcRow| row_view(r))),
            inference: Some(inference@.map_values(|s: ServiceState| state_view(s))),
        }),
{
    let mut rows: Vec<RemoteProc> = Vec::new();
    for i in 0..procs.len()
        invariant
            rows@.len() == i,
            forall|k: int| 0 <= k < i ==> (#[trigger] rows@[k])@ == row_view(procs@[k]),
    {
        rows.push(remote_proc_from_row(&procs[i]));
    }
    let mut states: Vec<RemoteInference> = Vec::new();
    for i in 0..inference.len()
        invariant
            states@.len() == i,
            forall|k: int| 0 <= k < i ==> (#[trigger] states@[k])@ == state_view(inference@[k]),
    {
        states.push(remote_inference_from_state(&inference[i]));
    }
    assert(proc_views(rows@) =~= procs@.map_values(|r: ProcRow| row_view(r)));
    assert(inference_views(states@) =~= inference@.map_values(|s: ServiceState| state_view(s)));
    TtToplikeExt { schema: TT_TOPLIKE_SCHEMA, processes: Some(rows), inference: Some(states) }
}

// What a record says, by the names of its members

/// A process is what the members of its record say, each under its own name; a
/// record that lacks one, or has one of another kind, is no process.
pub proof fn law_processes_are_read_by_name(j: JsonView)
    requires
        j is Object,
    ensures
        proc_of(j) is Some <==> document::number_of(document::member(j, "pid"@), u32::MAX as nat) is Some
            && (document::member(j, "name"@) matches Some(JsonView::Text(_))) && (document::member(j, "cmd"@) matches Some(JsonView::Text(_))) && (
        document::member(j, "uses_tt"@) matches Some(JsonView::Bool(_))) && (document::member(j, "cpu_pct"@) matches Some(JsonView::Number(_)))
            && document::number_of(document::member(j, "mem_bytes"@), u64::MAX as nat) is Some,
        proc_of(j) matches Some(p) ==> {
            &&& document::number_of(document::member(j, "pid"@), u32::MAX as nat) == Some(p.pid)
            &&& document::member(j, "name"@) == Some(JsonView::Text(p.name))
            &&& document::member(j, "cmd"@) == Some(JsonView::Text(p.cmd))
            &&& document::member(j, "uses_tt"@) == Some(JsonView::Bool(p.uses_tt))
            &&& document::member(j, "cpu_pct"@) == Some(JsonView::Number(p.cpu_pct))
            &&& document::number_of(document::member(j, "mem_bytes"@), u64::MAX as nat) == Some(p.mem_bytes)
        },
{
}

/// The serving figures are what the members of their record say, each under its
/// own name.
pub proof fn law_serving_is_read_by_name(j: JsonView)
    requires
        j is Object,
    ensures
        serving_of(j) matches Some(s) ==> {
            &&& document::member(j, "generation_tps"@) == Some(JsonView::Number(s.generation_tps))
            &&& document::member(j, "prompt_tps"@) == Some(JsonView::Number(s.prompt_tps))
            &&& document::number_of(document::member(j, "requests_running"@), u32::MAX as nat) == Some(
                s.requests_running,
            )
            &&& document::number_of(document::member(j, "requests_waiting"@), u32::MAX as nat) == Some(
                s.requests_waiting,
            )
            &&& document::member(j, "kv_cache_usage"@) == Some(JsonView::Number(s.kv_cache_usage))
            &&& document::member(j, "ttft_avg_s"@) == Some(JsonView::Number(s.ttft_avg_s))
            &&& document::member(j, "queue_avg_s"@) == Some(JsonView::Number(s.queue_avg_s))
            &&& document::member(j, "prefill_avg_s"@) == Some(JsonView::Number(s.prefill_avg_s))
            &&& document::member(j, "decode_avg_s"@) == Some(JsonView::Number(s.decode_avg_s))
            &&& document::member(j, "tpot_avg_s"@) == Some(JsonView::Number(s.tpot_avg_s))
            &&& document::number_of(document::member(j, "completed_delta"@), u32::MAX as nat) == Some(
                s.completed_delta,
            )
            &&& document::number_of(document::member(j, "errored_delta"@), u32::MAX as nat) == Some(
                s.errored_delta,
            )
            &&& document::member(j, "prefix_hit_rate"@) == Some(JsonView::Number(s.prefix_hit_rate))
            &&& document::number_of(document::member(j, "preemptions_delta"@), u32::MAX as nat) == Some(
                s.preemptions_delta,
            )
        },
        !(document::member(j, "generation_tps"@) matches Some(JsonView::Number(_))) ==> serving_of(j) is None,
        !(document::member(j, "prompt_tps"@) matches Some(JsonView::Number(_))) ==> serving_of(j) is None,
        document::number_of(document::member(j, "requests_running"@), u32::MAX as nat) is None ==> serving_of(
            j,
        ) is None,
        document::number_of(document::member(j, "requests_waiting"@), u32::MAX as nat) is None ==> serving_of(
            j,
        ) is None,
        !(document::member(j, "kv_cache_usage"@) matches Some(JsonView::Number(_))) ==> serving_of(j) is None,
        !(document::member(j, "ttft_avg_s"@) matches Some(JsonView::Number(_))) ==> serving_of(j) is None,
        !(document::member(j, "queue_avg_s"@) matches Some(JsonView::Number(_))) ==> serving_of(j) is None,
        !(document::member(j, "prefill_avg_s"@) matches Some(JsonView::Number(_))) ==> serving_of(j) is None,
        !(document::member(j, "decode_avg_s"@) matches Some(JsonView::Number(_))) ==> serving_of(j) is None,
        !(document::member(j, "tpot_avg_s"@) matches Some(JsonView::Number(_))) ==> serving_of(j) is None,
        document::number_of(document::member(j, "completed_delta"@), u32::MAX as nat) is None ==> serving_of(
            j,
        ) is None,
        document::number_of(document::member(j, "errored_delta"@), u32::MAX as nat) is None ==> serving_of(
            j,
        ) is None,
        !(document::member(j, "prefix_hit_rate"@) matches Some(JsonView::Number(_))) ==> serving_of(j) is None,
        document::number_of(document::member(j, "preemptions_delta"@), u32::MAX as nat) is None ==> serving_of(
            j,
        ) is None,
{
}

/// A workload is what the members of its record say, each under its own name; its
/// progress and its figures may be left out.
pub proof fn law_workloads_are_read_by_name(j: JsonView)
    requires
        j is Object,
        document::member(j, "key"@) matches Some(JsonView::Text(_)),
        document::member(j, "label"@) matches Some(JsonView::Text(_)),
        document::member(j, "phase"@) matches Some(JsonView::Text(_)),
        document::present(document::member(j, "progress"@)) is None || document::member(j, "progress"@)->0 is Number,
        document::present(document::member(j, "serving"@)) is None || serving_of(
            document::member(j, "serving"@)->0,
        ) is Some,
    ensures
        inference_of(j) matches Some(w) && {
            &&& document::member(j, "key"@) == Some(JsonView::Text(w.key))
            &&& document::member(j, "label"@) == Some(JsonView::Text(w.label))
            &&& document::member(j, "phase"@) == Some(JsonView::Text(w.phase))
            &&& document::present(document::member(j, "progress"@)) is None ==> w.progress is None
            &&& document::present(document::member(j, "progress"@)) is Some ==> w.progress is Some
                && document::member(j, "progress"@) == Some(JsonView::Number(w.progress->0))
            &&& document::present(document::member(j, "serving"@)) is None ==> w.serving is None
            &&& document::present(document::member(j, "serving"@)) is Some ==> w.serving is Some && serving_of(
                document::member(j, "serving"@)->0,
            ) == Some(w.serving->0)
        },
{
}

/// The extension of a frame is read out of its member `tt_toplike`: its lists in
/// their order, each entry by itself. It is read where its version is 1 and every
/// entry reads, and a list that is left out is no list.
pub proof fn law_extensions_are_read_by_name(
    frame: Seq<char>,
    doc: JsonView,
    j: JsonView,
    procs: Seq<JsonView>,
    works: Seq<JsonView>,
)
    requires
        document::json_document(frame) == Ok::<JsonView, Seq<char>>(doc),
        document::member(doc, "tt_toplike"@) == Some(j),
        j is Object,
        document::number_of(document::member(j, "schema"@), u32::MAX as nat) == Some(1nat),
        document::member(j, "processes"@) is None || document::member(j, "processes"@) == Some(
            JsonView::Array(procs),
        ),
        document::member(j, "inference"@) is None || document::member(j, "inference"@) == Some(
            JsonView::Array(works),
        ),
        forall|i: int| 0 <= i < procs.len() ==> proc_of(#[trigger] procs[i]) is Some,
        forall|i: int| 0 <= i < works.len() ==> inference_of(#[trigger] works[i]) is Some,
    ensures
        frame_extension(frame) matches Some(e) && {
            &&& e.schema == 1
            &&& e.processes is Some <==> document::member(j, "processes"@) is Some
            &&& e.processes is Some ==> e.processes->0.len() == procs.len() && forall|i: int|
                0 <= i < procs.len() ==> proc_of(procs[i]) == Some(#[trigger] e.processes->0[i])
            &&& e.inference is Some <==> document::member(j, "inference"@) is Some
            &&& e.inference is Some ==> e.inference->0.len() == works.len() && forall|i: int|
                0 <= i < works.len() ==> inference_of(works[i]) == Some(
                    #[trigger] e.inference->0[i],
                )
        },
{
}

/// Each phase goes by its own name.
pub proof fn law_phases_have_their_names(phase: Phase)
    ensures
        phase == Phase::Down ==> phase_name(phase) == "down"@,
        phase == Phase::Compiling ==> phase_name(phase) == "compiling"@,
        phase == Phase::Loading ==> phase_name(phase) == "loading"@,
        phase == Phase::Ready ==> phase_name(phase) == "ready"@,
        phase == Phase::Alarm ==> phase_name(phase) == "alarm"@,
{
}

} // verus!
