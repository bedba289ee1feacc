//! State of the backend that joins hwmon readings with `tt-smi` snapshots.
//!
//! A snapshot lists its devices in an order of its own, so what it says of
//! each is joined to the hwmon devices by PCI bus id.

use std::collections::{HashMap, HashSet};

use vstd::prelude::*;

use crate::backend::blocks;
use crate::backend::json;
use crate::backend::json::{Source, TTSMIDeviceJSON};
use crate::backend::parts;
use crate::backend::parts::{normalize_bus_id, parse_snapshot, DeviceMeta, SnapshotParts};
use crate::backend::pcie_counters::PcieBandwidth;
use crate::backend::smbus_smooth;
use crate::backend::smbus_smooth::{
    apply_ema, smoothing_inputs, DeviceEmaState, SmbusEmaState, SmoothInput, Smoothed,
};
use crate::backend::sysfs;
use crate::backend::sysfs::SysfsBackend;
use crate::backend::{BackendConfig, TelemetryBackend};
use crate::document;
use crate::document::JsonView;
use crate::error::BackendError;
use crate::maps;
use crate::maps::{key_list, TextMap};
use crate::models;
use crate::models::{copy_text, Device, SmbusTelemetry, Telemetry};
use crate::text;
use crate::text::{append_decimal, chars_of};

verus! {

broadcast use vstd::std_specs::hash::group_hash_axioms;

// The join

/// Whether the snapshot entry at some position claims a device by bus id.
pub open spec fn claimed_by_bus(
    bus_ids: Map<usize, String>,
    bus_to_index: Map<Seq<char>, usize>,
    device: usize,
) -> bool {
    exists|q: usize|
        bus_ids.contains_key(q) && bus_to_index.contains_key((#[trigger] bus_ids[q])@)
            && bus_to_index[bus_ids[q]@] == device
}

/// The device that the snapshot entry at a position belongs to: the one with
/// its bus id; for an entry without a bus id the one of its position, unless
/// another entry claims that one by bus id.
pub open spec fn joined(
    bus_ids: Map<usize, String>,
    bus_to_index: Map<Seq<char>, usize>,
    pos: usize,
) -> Option<usize> {
    if bus_ids.contains_key(pos) {
        if bus_to_index.contains_key(bus_ids[pos]@) {
            Some(bus_to_index[bus_ids[pos]@])
        } else {
            None
        }
    } else if claimed_by_bus(bus_ids, bus_to_index, pos) {
        None
    } else {
        Some(pos)
    }
}

/// Whether `after` holds what `before` holds, moved by `mapping`; what has no
/// place there is dropped, and of two with the same place one is kept.
pub open spec fn moved<V>(
    before: Map<usize, V>,
    after: Map<usize, V>,
    mapping: spec_fn(usize) -> Option<usize>,
) -> bool {
    forall|idx: usize|
        {
            &&& #[trigger] after.contains_key(idx) <==> exists|pos: usize| #[trigger]
                before.contains_key(pos) && mapping(pos) == Some(idx)
            &&& after.contains_key(idx) ==> exists|pos: usize| #[trigger]
                before.contains_key(pos) && mapping(pos) == Some(idx) && after[idx] == before[pos]
        }
}

/// Moves every entry of a map to the key that `mapping` gives for its own,
/// dropping those that it gives none for.
pub fn rekey_map<V>(map: HashMap<usize, V>, mapping: &HashMap<usize, usize>) -> (r: HashMap<
    usize,
    V,
>)
    ensures
        moved(
            map@,
            r@,
            |pos: usize| if mapping@.contains_key(pos) { Some(mapping@[pos]) } else { None },
        ),
{
    let ghost f = |pos: usize|
        if mapping@.contains_key(pos) { Some(mapping@[pos]) } else { None };
    let ghost all = map@;
    let mut map = map;
    let keys = key_list(&map);
    let mut out: HashMap<usize, V> = HashMap::new();
    for i in 0..keys.len()
        invariant
            f == (|pos: usize|
                if mapping@.contains_key(pos) { Some(mapping@[pos]) } else { None }),
            keys@.no_duplicates(),
            keys@.to_set() == all.dom(),
            forall|k: int| i <= k < keys@.len() ==> map@.contains_key(#[trigger] keys@[k])
                && map@[keys@[k]] == all[keys@[k]],
            forall|idx: usize|
                #[trigger] out@.contains_key(idx) ==> exists|k: int|
                    0 <= k < i && f(#[trigger] keys@[k]) == Some(idx) && out@[idx]
                        == all[keys@[k]],
            forall|k: int|
                0 <= k < i && f(#[trigger] keys@[k]) is Some ==> out@.contains_key(f(keys@[k])->0),
    {
        let pos: usize = keys[i];
        let ghost before = out@;
        let value = map.remove(&pos);
        match mapping.get(&pos) {
            Some(idx) => {
                let at: usize = *idx;
                if let Some(v) = value {
                    out.insert(at, v);
                }
                assert(f(pos) == Some(at));
                assert forall|idx: usize| #[trigger] out@.contains_key(idx) implies exists|k: int|
                    0 <= k < i + 1 && f(#[trigger] keys@[k]) == Some(idx) && out@[idx]
                        == all[keys@[k]] by {
                    if idx == at {
                        assert(f(keys@[i as int]) == Some(idx) && out@[idx] == all[keys@[i as int]]);
                    } else {
                        assert(before.contains_key(idx));
                        let k = choose|k: int|
                            0 <= k < i && f(#[trigger] keys@[k]) == Some(idx) && before[idx]
                                == all[keys@[k]];
                        assert(f(keys@[k]) == Some(idx) && out@[idx] == all[keys@[k]]);
                    }
                }
            },
            None => {
                assert(f(pos) is None);
                assert forall|idx: usize| #[trigger] out@.contains_key(idx) implies exists|k: int|
                    0 <= k < i + 1 && f(#[trigger] keys@[k]) == Some(idx) && out@[idx]
                        == all[keys@[k]] by {
                    assert(before.contains_key(idx));
                    let k = choose|k: int|
                        0 <= k < i && f(#[trigger] keys@[k]) == Some(idx) && before[idx]
                            == all[keys@[k]];
                    assert(f(keys@[k]) == Some(idx) && out@[idx] == all[keys@[k]]);
                }
            },
        }
    }
    assert forall|idx: usize|
        {
            &&& #[trigger] out@.contains_key(idx) <==> exists|pos: usize| #[trigger]
                all.contains_key(pos) && f(pos) == Some(idx)
            &&& out@.contains_key(idx) ==> exists|pos: usize| #[trigger]
                all.contains_key(pos) && f(pos) == Some(idx) && out@[idx] == all[pos]
        } by {
        if out@.contains_key(idx) {
            let k = choose|k: int|
                0 <= k < keys@.len() && f(#[trigger] keys@[k]) == Some(idx) && out@[idx]
                    == all[keys@[k]];
            assert(keys@.to_set().contains(keys@[k]));
            assert(all.contains_key(keys@[k]));
        }
        if exists|pos: usize| #[trigger] all.contains_key(pos) && f(pos) == Some(idx) {
            let pos = choose|pos: usize| #[trigger] all.contains_key(pos) && f(pos) == Some(idx);
            assert(keys@.to_set().contains(pos));
            let k = choose|k: int| 0 <= k < keys@.len() && keys@[k] == pos;
            assert(f(keys@[k]) is Some);
        }
    }
    out
}

/// The entries that are joined by their bus id.
fn bus_matches(
    bus_ids: &HashMap<usize, String>,
    bus_to_index: &TextMap<usize>,
) -> (r: (HashMap<usize, usize>, HashSet<usize>))
    ensures
        forall|pos: usize|
            #[trigger] r.0@.contains_key(pos) <==> bus_ids@.contains_key(pos)
                && bus_to_index@.contains_key(bus_ids@[pos]@),
        forall|pos: usize|
            #[trigger] r.0@.contains_key(pos) ==> r.0@[pos] == bus_to_index@[bus_ids@[pos]@],
        forall|idx: usize|
            #[trigger] r.1@.contains(idx) <==> claimed_by_bus(bus_ids@, bus_to_index@, idx),
{
    let mut mapping: HashMap<usize, usize> = HashMap::new();
    let mut claimed: HashSet<usize> = HashSet::new();
    let keys = key_list(bus_ids);
    for i in 0..keys.len()
        invariant
            keys@.to_set() == bus_ids@.dom(),
            forall|pos: usize|
                #[trigger] mapping@.contains_key(pos) ==> bus_ids@.contains_key(pos)
                    && bus_to_index@.contains_key(bus_ids@[pos]@) && mapping@[pos]
                    == bus_to_index@[bus_ids@[pos]@],
            forall|k: int|
                0 <= k < i && bus_to_index@.contains_key(bus_ids@[#[trigger] keys@[k]]@) ==> {
                    &&& mapping@.contains_key(keys@[k])
                    &&& claimed@.contains(bus_to_index@[bus_ids@[keys@[k]]@])
                },
            forall|idx: usize|
                #[trigger] claimed@.contains(idx) ==> claimed_by_bus(
                    bus_ids@,
                    bus_to_index@,
                    idx,
                ),
    {
        let pos: usize = keys[i];
        assert(keys@.to_set().contains(pos));
        assert(bus_ids@.contains_key(pos));
        if let Some(bus) = bus_ids.get(&pos) {
            if let Some(idx) = bus_to_index.get(bus.as_str()) {
                mapping.insert(pos, *idx);
                claimed.insert(*idx);
                assert(bus_to_index@[bus_ids@[pos]@] == *idx);
                assert(claimed_by_bus(bus_ids@, bus_to_index@, *idx));
            }
        }
    }
    assert forall|pos: usize|
        bus_ids@.contains_key(pos) && bus_to_index@.contains_key(
            bus_ids@[pos]@,
        ) implies mapping@.contains_key(pos) && claimed@.contains(
        bus_to_index@[bus_ids@[pos]@],
    ) by {
        assert(keys@.to_set().contains(pos));
        let k = choose|k: int| 0 <= k < keys@.len() && keys@[k] == pos;
        assert(keys@[k] == pos);
    }
    (mapping, claimed)
}

/// Adds to `mapping` those of `keys` without a bus id that no bus id claims.
fn add_positional(
    mapping: &mut HashMap<usize, usize>,
    keys: &Vec<usize>,
    bus_ids: &HashMap<usize, String>,
    claimed: &HashSet<usize>,
)
    ensures
        forall|pos: usize|
            #[trigger] final(mapping)@.contains_key(pos) <==> old(mapping)@.contains_key(pos) || (
            keys@.contains(pos) && !bus_ids@.contains_key(pos) && !claimed@.contains(pos)),
        forall|pos: usize|
            #[trigger] final(mapping)@.contains_key(pos) ==> final(mapping)@[pos] == if keys@.contains(
                pos,
            ) && !bus_ids@.contains_key(pos) && !claimed@.contains(pos) {
                pos
            } else {
                old(mapping)@[pos]
            },
{
    let ghost start = mapping@;
    for i in 0..keys.len()
        invariant
            forall|pos: usize|
                #[trigger] mapping@.contains_key(pos) <==> start.contains_key(pos) || (
                keys@.take(i as int).contains(pos) && !bus_ids@.contains_key(pos)
                    && !claimed@.contains(pos)),
            forall|pos: usize|
                #[trigger] mapping@.contains_key(pos) ==> mapping@[pos] == if keys@.take(
                    i as int,
                ).contains(pos) && !bus_ids@.contains_key(pos) && !claimed@.contains(pos) {
                    pos
                } else {
                    start[pos]
                },
    {
        let pos: usize = keys[i];
        let ghost a = keys@.take(i as int);
        let ghost b = keys@.take(i as int + 1);
        assert forall|x: usize| b.contains(x) <==> (x == pos || a.contains(x)) by {
            assert(b[i as int] == pos);
            if b.contains(x) && x != pos {
                let j = choose|j: int| 0 <= j < b.len() && b[j] == x;
                assert(a[j] == x);
            }
            if a.contains(x) {
                let j = choose|j: int| 0 <= j < a.len() && a[j] == x;
                assert(b[j] == x);
            }
        }
        if !bus_ids.contains_key(&pos) && !claimed.contains(&pos) {
            mapping.insert(pos, pos);
        }
    }
    assert(keys@.take(keys@.len() as int) =~= keys@);
}

/// Moves the parts of a snapshot from its positions to the devices that its
/// entries belong to. Where no device has a bus id, the positions stand.
pub fn rekey_snapshot_by_bus_id(
    parts: SnapshotParts,
    bus_to_index: &TextMap<usize>,
) -> (r: SnapshotParts)
    ensures
        bus_to_index@ == Map::<Seq<char>, usize>::empty() ==> r == parts,
        bus_to_index@ != Map::<Seq<char>, usize>::empty() ==> parts_moved(
            parts,
            r,
            bus_to_index@,
        ),
{
    if bus_to_index.is_empty() {
        return parts;
    }
    let ghost before = parts;
    let (mut mapping, claimed) = bus_matches(&parts.bus_ids, bus_to_index);
    let smbus_keys = key_list(&parts.smbus);
    let meta_keys = key_list(&parts.meta);
    let ghost by_bus = mapping@;
    add_positional(&mut mapping, &smbus_keys, &parts.bus_ids, &claimed);
    add_positional(&mut mapping, &meta_keys, &parts.bus_ids, &claimed);
    let ghost f = |pos: usize|
        if mapping@.contains_key(pos) { Some(mapping@[pos]) } else { None };
    assert forall|pos: usize|
        before.smbus@.contains_key(pos) || before.meta@.contains_key(pos)
            || before.bus_ids@.contains_key(pos) implies #[trigger] f(pos) == joined(
        before.bus_ids@,
        bus_to_index@,
        pos,
    ) by {
        assert(smbus_keys@.to_set().contains(pos) <==> before.smbus@.contains_key(pos));
        assert(meta_keys@.to_set().contains(pos) <==> before.meta@.contains_key(pos));
        assert(by_bus.contains_key(pos) ==> by_bus[pos] == bus_to_index@[before.bus_ids@[pos]@]);
        assert(claimed@.contains(pos) <==> claimed_by_bus(before.bus_ids@, bus_to_index@, pos));
    }
    let r = SnapshotParts {
        smbus: rekey_map(parts.smbus, &mapping),
        meta: rekey_map(parts.meta, &mapping),
        bus_ids: rekey_map(parts.bus_ids, &mapping),
    };
    proof {
        let g = |pos: usize| joined(before.bus_ids@, bus_to_index@, pos);
        lemma_moved_by(before.smbus@, r.smbus@, f, g);
        lemma_moved_by(before.meta@, r.meta@, f, g);
        lemma_moved_by(before.bus_ids@, r.bus_ids@, f, g);
    }
    r
}

proof fn lemma_moved_by<V>(
    before: Map<usize, V>,
    after: Map<usize, V>,
    f: spec_fn(usize) -> Option<usize>,
    g: spec_fn(usize) -> Option<usize>,
)
    requires
        moved(before, after, f),
        forall|pos: usize| before.contains_key(pos) ==> #[trigger] f(pos) == g(pos),
    ensures
        moved(before, after, g),
{
    assert forall|idx: usize|
        {
            &&& #[trigger] after.contains_key(idx) <==> exists|pos: usize| #[trigger]
                before.contains_key(pos) && g(pos) == Some(idx)
            &&& after.contains_key(idx) ==> exists|pos: usize| #[trigger]
                before.contains_key(pos) && g(pos) == Some(idx) && after[idx] == before[pos]
        } by {
        if after.contains_key(idx) {
            let pos = choose|pos: usize| #[trigger]
                before.contains_key(pos) && f(pos) == Some(idx) && after[idx] == before[pos];
            assert(f(pos) == g(pos));
        }
        if exists|pos: usize| #[trigger] before.contains_key(pos) && g(pos) == Some(idx) {
            let pos = choose|pos: usize| #[trigger]
                before.contains_key(pos) && g(pos) == Some(idx);
            assert(f(pos) == g(pos));
        }
    }
}

/// Whether the parts are moved to the devices that their entries belong to.
pub open spec fn parts_moved(
    before: SnapshotParts,
    after: SnapshotParts,
    bus_to_index: Map<Seq<char>, usize>,
) -> bool {
    let f = |pos: usize| joined(before.bus_ids@, bus_to_index, pos);
    &&& moved(before.smbus@, after.smbus@, f)
    &&& moved(before.meta@, after.meta@, f)
    &&& moved(before.bus_ids@, after.bus_ids@, f)
}

/// The join by position never steps on a join by bus id: two entries come
/// together only where both carry bus ids that lead to the same device.
pub proof fn law_fallback_never_collides(
    bus_ids: Map<usize, String>,
    bus_to_index: Map<Seq<char>, usize>,
    p: usize,
    q: usize,
)
    requires
        p != q,
        joined(bus_ids, bus_to_index, p) is Some,
        joined(bus_ids, bus_to_index, p) == joined(bus_ids, bus_to_index, q),
    ensures
        bus_ids.contains_key(p),
        bus_ids.contains_key(q),
        bus_to_index.contains_key(bus_ids[p]@),
        bus_to_index.contains_key(bus_ids[q]@),
{
    let idx = joined(bus_ids, bus_to_index, p)->0;
    if bus_ids.contains_key(p) {
        assert(claimed_by_bus(bus_ids, bus_to_index, idx)) by {
            assert(bus_to_index[bus_ids[p]@] == idx);
        }
    }
    if bus_ids.contains_key(q) {
        assert(claimed_by_bus(bus_ids, bus_to_index, idx)) by {
            assert(bus_to_index[bus_ids[q]@] == idx);
        }
    }
}

/// An entry whose bus id no device has is dropped, wherever it stands.
pub proof fn law_unmatched_entries_are_dropped(
    bus_ids: Map<usize, String>,
    bus_to_index: Map<Seq<char>, usize>,
    pos: usize,
)
    requires
        bus_ids.contains_key(pos),
        !bus_to_index.contains_key(bus_ids[pos]@),
    ensures
        joined(bus_ids, bus_to_index, pos) is None,
{
}

/// Where the bus ids of a snapshot differ from each other and those of the
/// devices lead to different devices, each entry that has a place arrives
/// there alone.
pub proof fn law_join_is_exact<V>(
    before: Map<usize, V>,
    after: Map<usize, V>,
    bus_ids: Map<usize, String>,
    bus_to_index: Map<Seq<char>, usize>,
    pos: usize,
)
    requires
        moved(before, after, |p: usize| joined(bus_ids, bus_to_index, p)),
        before.contains_key(pos),
        joined(bus_ids, bus_to_index, pos) is Some,
        forall|p: usize, q: usize|
            #![trigger bus_ids[p], bus_ids[q]]
            bus_ids.contains_key(p) && bus_ids.contains_key(q) && p != q ==> bus_ids[p]@
                != bus_ids[q]@,
        forall|a: Seq<char>, b: Seq<char>|
            #![trigger bus_to_index[a], bus_to_index[b]]
            bus_to_index.contains_key(a) && bus_to_index.contains_key(b) && a != b
                ==> bus_to_index[a] != bus_to_index[b],
    ensures
        after.contains_key(joined(bus_ids, bus_to_index, pos)->0),
        after[joined(bus_ids, bus_to_index, pos)->0] == before[pos],
{
    let f = |p: usize| joined(bus_ids, bus_to_index, p);
    let idx = joined(bus_ids, bus_to_index, pos)->0;
    assert(before.contains_key(pos) && f(pos) == Some(idx));
    assert(after.contains_key(idx));
    let q = choose|q: usize| #[trigger]
        before.contains_key(q) && f(q) == Some(idx) && after[idx] == before[q];
    if q != pos {
        law_fallback_never_collides(bus_ids, bus_to_index, pos, q);
        assert(bus_to_index[bus_ids[pos]@] == bus_to_index[bus_ids[q]@]);
    }
}

/// An entry goes to the device whose bus id it bears, wherever either stands in
/// its list. One that bears none goes to the device of its position, unless an
/// entry with that device's bus id is there.
pub proof fn law_entries_go_to_the_card_they_name(
    bus_ids: Map<usize, String>,
    bus_to_index: Map<Seq<char>, usize>,
    pos: usize,
)
    ensures
        bus_ids.contains_key(pos) && bus_to_index.contains_key(bus_ids[pos]@) ==> joined(
            bus_ids,
            bus_to_index,
            pos,
        ) == Some(bus_to_index[bus_ids[pos]@]),
        !bus_ids.contains_key(pos) ==> joined(bus_ids, bus_to_index, pos) == if exists|q: usize|
            bus_ids.contains_key(q) && bus_to_index.contains_key((#[trigger] bus_ids[q])@)
                && bus_to_index[bus_ids[q]@] == pos {
            None::<usize>
        } else {
            Some(pos)
        },
{
}

// Publishing

/// What a snapshot brings: only what is not empty is taken over.
#[derive(Debug)]
pub struct Published {
    pub smbus: Option<HashMap<usize, SmbusTelemetry>>,
    pub meta: Option<HashMap<usize, DeviceMeta>>,
}

/// Whether a payload is a map, or absent where the map is empty.
pub open spec fn unless_empty<V>(p: Option<HashMap<usize, V>>, m: Map<usize, V>) -> bool {
    match p {
        Some(h) => h@ == m && m != Map::<usize, V>::empty(),
        None => m == Map::<usize, V>::empty(),
    }
}

fn keep_unless_empty<V>(map: HashMap<usize, V>) -> (p: Option<HashMap<usize, V>>)
    ensures
        unless_empty(p, map@),
{
    let keys = key_list(&map);
    if keys.len() == 0 {
        assert(map@.dom() =~= Set::<usize>::empty()) by {
            assert(keys@.to_set() =~= Set::<usize>::empty());
        }
        assert(map@ =~= Map::<usize, V>::empty());
        None
    } else {
        assert(keys@.to_set().contains(keys@[0]));
        assert(map@.contains_key(keys@[0]));
        Some(map)
    }
}

/// Whether `p` is what a snapshot text brings to devices that are joined by
/// these bus ids.
pub open spec fn published_of(
    p: Published,
    json: Seq<char>,
    bus_to_index: Map<Seq<char>, usize>,
) -> bool {
    exists|parts: SnapshotParts, placed: SnapshotParts| #[trigger]
        parts::parts_of(parts, json) && #[trigger] parts_placed(parts, placed, bus_to_index)
            && unless_empty(p.smbus, placed.smbus@) && unless_empty(p.meta, placed.meta@)
}

/// Whether the parts of a snapshot are at the devices that they belong to.
pub open spec fn parts_placed(
    parts: SnapshotParts,
    placed: SnapshotParts,
    bus_to_index: Map<Seq<char>, usize>,
) -> bool {
    if bus_to_index == Map::<Seq<char>, usize>::empty() {
        placed == parts
    } else {
        parts_moved(parts, placed, bus_to_index)
    }
}

/// Parses what `tt-smi -s` printed and joins it to the devices. The SMBUS
/// telemetry and the metadata are each brought only where there is any, and
/// neither waits for the other.
pub fn publish_snapshot(json_str: &str, bus_to_index: &TextMap<usize>) -> (p: Published)
    ensures
        published_of(p, json_str@, bus_to_index@),
{
    let parts = parse_snapshot(json_str);
    let ghost before = parts;
    let placed = rekey_snapshot_by_bus_id(parts, bus_to_index);
    let ghost after = placed;
    assert(parts_placed(before, after, bus_to_index@));
    Published { smbus: keep_unless_empty(placed.smbus), meta: keep_unless_empty(placed.meta) }
}

// The reader

/// How long the reader waits between two runs of `tt-smi`, in milliseconds.
pub const POLL_INTERVAL_MS: u64 = 1500;

/// How long it waits where `tt-smi` could not be started.
pub const POLL_BACKOFF_MS: u64 = 5000;

/// How a run of `tt-smi` ended.
#[derive(Debug)]
pub enum SmiRun {
    /// It printed this.
    Printed(String),
    /// It ended with an error.
    Failed,
    /// It could not be started.
    NotStarted,
}

/// What the reader does after a run.
#[derive(Debug)]
pub struct PollStep {
    /// What was printed, to be relayed as it is.
    pub raw: Option<String>,
    /// What the print brings to the devices.
    pub published: Option<Published>,
    /// How long to wait before the next run, in milliseconds.
    pub wait_ms: u64,
}

/// Whether a step is the one after a run.
pub open spec fn step_after(
    step: PollStep,
    run: SmiRun,
    bus_to_index: Map<Seq<char>, usize>,
) -> bool {
    match run {
        SmiRun::Printed(s) => {
            &&& step.raw matches Some(raw) && raw@ == s@
            &&& step.published matches Some(p) && published_of(p, s@, bus_to_index)
            &&& step.wait_ms == POLL_INTERVAL_MS
        },
        SmiRun::Failed => {
            &&& step.raw is None
            &&& step.published is None
            &&& step.wait_ms == POLL_INTERVAL_MS
        },
        SmiRun::NotStarted => {
            &&& step.raw is None
            &&& step.published is None
            &&& step.wait_ms == POLL_BACKOFF_MS
        },
    }
}

/// What the reader does after a run: what was printed is kept as it is and
/// joined to the devices, and a tool that does not start is left alone for
/// longer.
pub fn poll_step(run: SmiRun, bus_to_index: &TextMap<usize>) -> (step: PollStep)
    ensures
        step_after(step, run, bus_to_index@),
{
    match run {
        SmiRun::Printed(s) => {
            let p = publish_snapshot(s.as_str(), bus_to_index);
            PollStep { raw: Some(s), published: Some(p), wait_ms: POLL_INTERVAL_MS }
        },
        SmiRun::Failed => PollStep { raw: None, published: None, wait_ms: POLL_INTERVAL_MS },
        SmiRun::NotStarted => PollStep { raw: None, published: None, wait_ms: POLL_BACKOFF_MS },
    }
}

/// The error of a backend whose hwmon side could not be started.
pub fn sysfs_init_failed(e: &BackendError) -> (r: BackendError)
    ensures
        r matches BackendError::Initialization(m) && m@ == "HybridBackend: sysfs init failed: "@
            + e.text(),
{
    let mut m = "HybridBackend: sysfs init failed: ".to_owned();
    m.append(e.message().as_str());
    BackendError::Initialization(m)
}

// The backend

/// How long a whole-board power reading stays fresh, in nanoseconds.
pub const BOARD_POWER_MAX_AGE_NS: u64 = 10_000_000_000;

/// Joins hwmon readings with `tt-smi` snapshots.
pub struct HybridBackend {
    /// The hwmon side.
    pub sysfs: SysfsBackend,
    /// Path to the `tt-smi` executable.
    pub tt_smi_path: String,
    /// The last metadata.
    pub meta: HashMap<usize, DeviceMeta>,
    /// When it came, in nanoseconds.
    pub meta_at: Option<u64>,
    /// When the metadata came that the devices show.
    pub meta_applied_at: Option<u64>,
    /// The last SMBUS telemetry.
    pub smbus_latest: HashMap<usize, SmbusTelemetry>,
    /// The SMBUS telemetry that is served: it follows the last.
    pub smbus_blended: HashMap<usize, SmbusTelemetry>,
    /// The averages of the served telemetry.
    pub smbus_ema: SmbusEmaState,
    /// What `tt-smi` last printed.
    pub last_raw: Option<String>,
    /// The hwmon devices by normalized bus id.
    pub bus_to_index: TextMap<usize>,
}

/// The devices of the list by normalized bus id, as far as that is one of a
/// PCI device.
pub open spec fn bus_index(devices: Seq<Device>, n: nat) -> Map<Seq<char>, usize>
    decreases n,
{
    if n == 0 {
        Map::empty()
    } else {
        let before = bus_index(devices, (n - 1) as nat);
        let bus = parts::normalized(devices[n - 1].bus_id@);
        if bus.contains(':') {
            before.insert(bus, devices[n - 1].index)
        } else {
            before
        }
    }
}

fn has_colon(s: &str) -> (r: bool)
    ensures
        r == s@.contains(':'),
{
    let chars = chars_of(s);
    for i in 0..chars.len()
        invariant
            chars@ == s@,
            forall|k: int| 0 <= k < i ==> #[trigger] s@[k] != ':',
    {
        if chars[i] == ':' {
            assert(s@[i as int] == ':');
            return true;
        }
    }
    false
}

/// Lists the devices by normalized bus id. One that has no PCI bus id takes no
/// part in the join.
pub fn sysfs_bus_index(devices: &Vec<Device>) -> (m: TextMap<usize>)
    ensures
        m@ == bus_index(devices@, devices@.len()),
{
    let mut m: TextMap<usize> = TextMap::new();
    for i in 0..devices.len()
        invariant
            m@ == bus_index(devices@, i as nat),
    {
        let bus = normalize_bus_id(devices[i].bus_id.as_str());
        if has_colon(bus.as_str()) {
            m.insert(bus, devices[i].index);
        }
    }
    m
}

proof fn lemma_bus_index(devices: Seq<Device>, n: nat, i: int)
    requires
        n <= devices.len(),
        0 <= i < n,
        parts::normalized(devices[i].bus_id@).contains(':'),
        forall|k: int|
            i < k < n ==> parts::normalized((#[trigger] devices[k]).bus_id@) != parts::normalized(
                devices[i].bus_id@,
            ),
    ensures
        bus_index(devices, n).contains_key(parts::normalized(devices[i].bus_id@)),
        bus_index(devices, n)[parts::normalized(devices[i].bus_id@)] == devices[i].index,
    decreases n,
{
    if i < n - 1 {
        lemma_bus_index(devices, (n - 1) as nat, i);
        assert(parts::normalized(devices[n - 1].bus_id@) != parts::normalized(devices[i].bus_id@));
    }
}

proof fn lemma_bus_index_from(devices: Seq<Device>, n: nat, bus: Seq<char>)
    requires
        n <= devices.len(),
        bus_index(devices, n).contains_key(bus),
    ensures
        exists|i: int|
            0 <= i < n && parts::normalized((#[trigger] devices[i]).bus_id@) == bus && bus.contains(
                ':',
            ) && bus_index(devices, n)[bus] == devices[i].index,
    decreases n,
{
    if n > 0 {
        let last = devices[n - 1];
        if !(parts::normalized(last.bus_id@) == bus && bus.contains(':')) {
            lemma_bus_index_from(devices, (n - 1) as nat, bus);
        }
    }
}

/// The devices are found by their own bus ids: of devices whose bus ids and
/// indices differ, each stands under its bus id with its index, and no other bus
/// id leads to a device.
pub proof fn law_cards_are_found_by_their_bus_id(devices: Seq<Device>)
    requires
        distinct_cards(devices),
    ensures
        forall|i: int|
            0 <= i < devices.len() && parts::normalized((#[trigger] devices[i]).bus_id@).contains(
                ':',
            ) ==> bus_index(devices, devices.len()).contains_key(
                parts::normalized(devices[i].bus_id@),
            ) && bus_index(devices, devices.len())[parts::normalized(devices[i].bus_id@)]
                == devices[i].index,
        forall|bus: Seq<char>| #[trigger]
            bus_index(devices, devices.len()).contains_key(bus) ==> exists|i: int|
                0 <= i < devices.len() && parts::normalized((#[trigger] devices[i]).bus_id@) == bus,
        forall|a: Seq<char>, b: Seq<char>|
            #![trigger bus_index(devices, devices.len())[a], bus_index(devices, devices.len())[b]]
            bus_index(devices, devices.len()).contains_key(a) && bus_index(
                devices,
                devices.len(),
            ).contains_key(b) && a != b ==> bus_index(devices, devices.len())[a] != bus_index(
                devices,
                devices.len(),
            )[b],
{
    let n = devices.len();
    assert forall|i: int|
        0 <= i < devices.len() && parts::normalized((#[trigger] devices[i]).bus_id@).contains(
            ':',
        ) implies bus_index(devices, n).contains_key(parts::normalized(devices[i].bus_id@))
        && bus_index(devices, n)[parts::normalized(devices[i].bus_id@)] == devices[i].index by {
        assert forall|k: int| i < k < n implies parts::normalized((#[trigger] devices[k]).bus_id@)
            != parts::normalized(devices[i].bus_id@) by {
            assert(devices[i].index != devices[k].index);
        }
        lemma_bus_index(devices, n, i);
    }
    assert forall|bus: Seq<char>| #[trigger]
        bus_index(devices, n).contains_key(bus) implies exists|i: int|
        0 <= i < devices.len() && parts::normalized((#[trigger] devices[i]).bus_id@) == bus by {
        lemma_bus_index_from(devices, n, bus);
    }
    assert forall|a: Seq<char>, b: Seq<char>|
        #![trigger bus_index(devices, n)[a], bus_index(devices, n)[b]]
        bus_index(devices, n).contains_key(a) && bus_index(devices, n).contains_key(b) && a
            != b implies bus_index(devices, n)[a] != bus_index(devices, n)[b] by {
        lemma_bus_index_from(devices, n, a);
        lemma_bus_index_from(devices, n, b);
        let i = choose|i: int|
            0 <= i < n && parts::normalized((#[trigger] devices[i]).bus_id@) == a && a.contains(':')
                && bus_index(devices, n)[a] == devices[i].index;
        let j = choose|j: int|
            0 <= j < n && parts::normalized((#[trigger] devices[j]).bus_id@) == b && b.contains(':')
                && bus_index(devices, n)[b] == devices[j].index;
        if i < j {
            assert(devices[i].index != devices[j].index);
        } else {
            assert(devices[j].index != devices[i].index);
        }
    }
}

/// Whether no two devices share an index or a bus id.
pub open spec fn distinct_cards(devices: Seq<Device>) -> bool {
    forall|i: int, j: int|
        #![trigger devices[i], devices[j]]
        0 <= i < j < devices.len() ==> devices[i].index != devices[j].index && parts::normalized(
            devices[i].bus_id@,
        ) != parts::normalized(devices[j].bus_id@)
}

/// The bus id that an element of `device_info` bears.
pub open spec fn listed_bus_id(j: JsonView) -> Option<Seq<char>> {
    match document::member(j, "board_info"@) {
        Some(b) => document::text_of(document::member(b, "bus_id"@)),
        None => None,
    }
}

/// Whether every element of `device_info` is an object whose board, where it has
/// one, is an object, and no two of them bear the same bus id.
pub open spec fn lists_cards(entries: Seq<JsonView>) -> bool {
    &&& forall|q: int|
        0 <= q < entries.len() ==> (#[trigger] entries[q]) is Object && (document::member(
            entries[q],
            "board_info"@,
        ) matches Some(b) ==> b is Object)
    &&& forall|q: int, r: int|
        #![trigger entries[q], entries[r]]
        0 <= q < r < entries.len() && listed_bus_id(entries[q]) is Some && listed_bus_id(
            entries[r],
        ) is Some ==> parts::normalized(listed_bus_id(entries[q])->0) != parts::normalized(
            listed_bus_id(entries[r])->0,
        )
}

proof fn lemma_listed_bus(e: TTSMIDeviceJSON, q: nat, j: JsonView)
    requires
        e.decodes(Source::Modern(q, j)),
        j is Object,
        document::member(j, "board_info"@) matches Some(b) ==> b is Object,
    ensures
        text::opt_text(e.bus_id) == listed_bus_id(j),
        e.header().index == Some(q),
{
    let h = Source::Modern(q, j).header();
    assert(e.header() == h);
    assert(e.header().bus_id == text::opt_text(e.bus_id));
}

/// What a snapshot says of a card arrives at that card. Where the element at a
/// position bears the bus id of a device, in whatever case, its SMBUS block is
/// what is brought for that device's index, and so are the firmware versions, the
/// limits, the link and the power of the board that it reports; neither its
/// position nor that of the device matters.
#[verifier::spinoff_prover]
#[verifier::rlimit(60)]
pub proof fn law_snapshots_reach_the_card_they_name(
    p: Published,
    json: Seq<char>,
    doc: JsonView,
    entries: Seq<JsonView>,
    q: usize,
    devices: Seq<Device>,
    i: int,
)
    requires
        published_of(p, json, bus_index(devices, devices.len())),
        document::json_document(json) == Ok::<JsonView, Seq<char>>(doc),
        doc is Object,
        document::member(doc, "device_info"@) == Some(JsonView::Array(entries)),
        entries.len() <= usize::MAX,
        lists_cards(entries),
        q < entries.len(),
        json::modern_ok(entries[q as int]),
        listed_bus_id(entries[q as int]) is Some,
        distinct_cards(devices),
        0 <= i < devices.len(),
        parts::normalized(devices[i].bus_id@) == parts::normalized(
            listed_bus_id(entries[q as int])->0,
        ),
        parts::normalized(devices[i].bus_id@).contains(':'),
    ensures
        document::present(document::member(entries[q as int], "smbus_telem"@)) is Some
            ==> p.smbus is Some && p.smbus->0@.contains_key(devices[i].index) && exists|
            b: blocks::SmbusTelemetryJSON,
        | #[trigger]
            blocks::smbus_matches(b, document::member(entries[q as int], "smbus_telem"@)->0)
                && blocks::smbus_built(p.smbus->0@[devices[i].index], b),
        document::present(document::member(entries[q as int], "firmwares"@)) matches Some(f)
            && blocks::firmwares_ok(f) ==> p.meta is Some && p.meta->0@.contains_key(
            devices[i].index,
        ) && {
            let got = p.meta->0@[devices[i].index].firmwares;
            let f = document::member(entries[q as int], "firmwares"@)->0;
            &&& got is Some
            &&& text::opt_text(got->0.fw_bundle_version) == document::text_of(
                document::member(f, "fw_bundle_version"@),
            )
            &&& text::opt_text(got->0.eth_fw) == document::text_of(
                document::member(f, "eth_fw"@),
            )
            &&& text::opt_text(got->0.cm_fw) == document::text_of(document::member(f, "cm_fw"@))
            &&& text::opt_text(got->0.gddr_fw) == document::text_of(
                document::member(f, "gddr_fw"@),
            )
        },
        document::member(entries[q as int], "limits"@) matches Some(l) && l is Object
            ==> p.meta is Some && p.meta->0@.contains_key(devices[i].index) && {
            let got = p.meta->0@[devices[i].index].limits;
            let l = document::member(entries[q as int], "limits"@)->0;
            &&& got is Some
            &&& text::opt_text(got->0.tdp_limit) == document::reading_of(
                document::member(l, "tdp_limit"@),
            )
            &&& text::opt_text(got->0.tdc_limit) == document::reading_of(
                document::member(l, "tdc_limit"@),
            )
            &&& models::opt_nat32(got->0.asic_fmax) == document::count_of(
                document::member(l, "asic_fmax"@),
                u32::MAX as nat,
            )
            &&& document::reading_of(document::member(l, "therm_trip_l1_limit"@)) is Some
                ==> text::opt_text(got->0.thm_limit) == document::reading_of(
                document::member(l, "therm_trip_l1_limit"@),
            )
        },
        document::member(entries[q as int], "telemetry"@) matches Some(t) && t is Object
            && document::reading_of(document::member(t, "board_power"@)) is Some ==> p.meta is Some
            && p.meta->0@.contains_key(devices[i].index) && text::opt_text(
            p.meta->0@[devices[i].index].board_power,
        ) == document::reading_of(
            document::member(
                document::member(entries[q as int], "telemetry"@)->0,
                "board_power"@,
            ),
        ),
        ({
            let b = document::member(entries[q as int], "board_info"@)->0;
            let speed = document::count_of(document::member(b, "pcie_speed"@), u32::MAX as nat);
            let width = document::count_of(document::member(b, "pcie_width"@), u32::MAX as nat);
            &&& speed is Some ==> p.meta is Some && p.meta->0@.contains_key(devices[i].index)
                && text::opt_text(p.meta->0@[devices[i].index].pcie_speed) == Some(
                "Gen"@ + text::decimal(speed->0),
            )
            &&& width is Some && width->0 <= 255 ==> p.meta is Some && p.meta->0@.contains_key(
                devices[i].index,
            ) && p.meta->0@[devices[i].index].pcie_width is Some
                && p.meta->0@[devices[i].index].pcie_width->0 == width->0
        }),
{
    let index = bus_index(devices, devices.len());
    let idx = devices[i].index;
    let bus = parts::normalized(devices[i].bus_id@);
    law_cards_are_found_by_their_bus_id(devices);
    assert(devices[i].index == idx);
    assert(index.contains_key(bus) && index[bus] == idx);
    let (parts, placed) = choose|parts: SnapshotParts, placed: SnapshotParts| #[trigger]
        parts::parts_of(parts, json) && #[trigger] parts_placed(parts, placed, index)
            && unless_empty(p.smbus, placed.smbus@) && unless_empty(p.meta, placed.meta@);
    let sources = json::modern_sources(entries, entries.len());
    assert(json::text_sources(json) == Some(sources));
    let es = choose|es: Seq<TTSMIDeviceJSON>|
        json::all_decode(es, sources) && #[trigger] parts::parts_built(parts, es);
    json::law_positions_are_kept(entries, entries.len());
    json::lemma_modern_indices(entries, entries.len());
    let src = Source::Modern(q as nat, entries[q as int]);
    assert(sources.contains(src));
    let k = choose|k: int| 0 <= k < sources.len() && sources[k] == src;
    assert(es[k].decodes(sources[k]));
    lemma_listed_bus(es[k], q as nat, entries[q as int]);
    assert(bus.len() > 0);
    // The bus ids of the parts are those of the elements.
    let bus_right = |k: int, b: String| parts::entry_bus_id(es[k]) == Some(b@);
    assert forall|r: usize| #[trigger] parts.bus_ids@.contains_key(r) implies r < entries.len()
        && listed_bus_id(entries[r as int]) is Some && parts.bus_ids@[r]@ == parts::normalized(
        listed_bus_id(entries[r as int])->0,
    ) by {
        let keys = parts::bus_keys(es);
        maps::lemma_last_at(keys, r as nat, es.len());
        let l = maps::last_at(keys, r as nat, es.len())->0;
        assert(maps::last_at(keys, r as nat, es.len()) is Some);
        assert(bus_right(l, parts.bus_ids@[r]));
        assert(keys[l] == Some(r as nat));
        assert(es[l].decodes(sources[l]));
        let s = sources[l];
        assert(s matches Source::Modern(x, j) && x < entries.len() && j == entries[x as int]);
        lemma_listed_bus(es[l], s->Modern_0, s->Modern_1);
        assert(s->Modern_0 == r);
    }
    assert forall|l: int| k < l < es.len() implies json::header_index(
        (#[trigger] es[l]).header(),
    ) != q by {
        assert(es[l].decodes(sources[l]));
        assert(json::header_index(sources[k].header()) < json::header_index(sources[l].header()));
    }
    maps::lemma_collected_at(parts.bus_ids@, parts::bus_keys(es), bus_right, k, q);
    assert(parts.bus_ids@.contains_key(q) && parts.bus_ids@[q]@ == bus);
    assert(joined(parts.bus_ids@, index, q) == Some(idx));
    assert forall|a: usize, b: usize|
        #![trigger parts.bus_ids@[a], parts.bus_ids@[b]]
        parts.bus_ids@.contains_key(a) && parts.bus_ids@.contains_key(b) && a
            != b implies parts.bus_ids@[a]@ != parts.bus_ids@[b]@ by {
        if a < b {
            assert(parts::normalized(listed_bus_id(entries[a as int])->0) != parts::normalized(
                listed_bus_id(entries[b as int])->0,
            ));
        } else {
            assert(parts::normalized(listed_bus_id(entries[b as int])->0) != parts::normalized(
                listed_bus_id(entries[a as int])->0,
            ));
        }
    }
    assert(index != Map::<Seq<char>, usize>::empty());
    if parts::has_meta(es[k]) {
        let meta_right = |k: int, m: DeviceMeta| parts::meta_built(m, es[k]);
        maps::lemma_collected_at(parts.meta@, parts::meta_keys(es), meta_right, k, q);
        assert(parts::meta_built(parts.meta@[q], es[k]));
        law_join_is_exact(parts.meta@, placed.meta@, parts.bus_ids@, index, q);
        assert(p.meta is Some);
    }
    if es[k].smbus is Some {
        let smbus_right = |k: int, s: SmbusTelemetry| blocks::smbus_built(s, es[k].smbus->0);
        maps::lemma_collected_at(parts.smbus@, json::smbus_keys(es), smbus_right, k, q);
        law_join_is_exact(parts.smbus@, placed.smbus@, parts.bus_ids@, index, q);
        assert(p.smbus is Some);
        assert(blocks::smbus_matches(
            es[k].smbus->0,
            document::member(entries[q as int], "smbus_telem"@)->0,
        ));
    }
    assert(es[k].header() == src.header());
}

/// A device with the metadata that is there taken over.
pub open spec fn enriched(before: Device, after: Device, meta: Map<usize, DeviceMeta>) -> bool {
    if meta.contains_key(before.index) {
        let m = meta[before.index];
        after == (Device {
            firmwares: smbus_smooth::latest(m.firmwares, before.firmwares),
            limits: smbus_smooth::latest(m.limits, before.limits),
            pcie_speed: smbus_smooth::latest(m.pcie_speed, before.pcie_speed),
            pcie_width: smbus_smooth::latest(m.pcie_width, before.pcie_width),
            ..before
        })
    } else {
        after == before
    }
}

/// Metadata arrives at the device of its index: what it holds replaces what the
/// device showed, what it does not hold leaves the device as it was, and it
/// touches nothing but firmware versions, limits and the link. A device without
/// metadata stays as it was.
pub proof fn law_metadata_arrives(before: Device, after: Device, meta: Map<usize, DeviceMeta>)
    requires
        enriched(before, after, meta),
    ensures
        meta.contains_key(before.index) ==> {
            let m = meta[before.index];
            &&& m.firmwares is Some ==> after.firmwares == m.firmwares
            &&& m.firmwares is None ==> after.firmwares == before.firmwares
            &&& m.limits is Some ==> after.limits == m.limits
            &&& m.limits is None ==> after.limits == before.limits
            &&& m.pcie_speed is Some ==> after.pcie_speed == m.pcie_speed
            &&& m.pcie_speed is None ==> after.pcie_speed == before.pcie_speed
            &&& m.pcie_width is Some ==> after.pcie_width == m.pcie_width
            &&& m.pcie_width is None ==> after.pcie_width == before.pcie_width
        },
        !meta.contains_key(before.index) ==> after == before,
        after.index == before.index,
        after.board_type == before.board_type,
        after.bus_id == before.bus_id,
        after.coords == before.coords,
        after.architecture == before.architecture,
        after.grid_override == before.grid_override,
        after.channels_override == before.channels_override,
{
}

fn enrich(device: &Device, meta: &HashMap<usize, DeviceMeta>) -> (r: Device)
    ensures
        enriched(*device, r, meta@),
{
    let mut r = device.dup();
    if let Some(m) = meta.get(&device.index) {
        if let Some(f) = &m.firmwares {
            r.firmwares = Some(f.dup());
        }
        if let Some(l) = &m.limits {
            r.limits = Some(l.dup());
        }
        if m.pcie_speed.is_some() {
            r.pcie_speed = copy_text(&m.pcie_speed);
        }
        if m.pcie_width.is_some() {
            r.pcie_width = m.pcie_width;
        }
    }
    r
}

/// A reading with the firmware's power and current, and the whole board's
/// power, in place of what hwmon knows.
pub open spec fn overlaid(
    before: Telemetry,
    after: Telemetry,
    idx: usize,
    blended: Map<usize, SmbusTelemetry>,
    meta: Map<usize, DeviceMeta>,
    fresh: bool,
) -> bool {
    let tdp = if blended.contains_key(idx) {
        models::opt_reading(text::opt_text(blended[idx].tdp))
    } else {
        None
    };
    let tdc = if blended.contains_key(idx) {
        models::opt_reading(text::opt_text(blended[idx].tdc))
    } else {
        None
    };
    let board = if fresh && meta.contains_key(idx) { meta[idx].board_power } else { None };
    &&& text::opt_text(after.power) == smbus_smooth::latest(tdp, text::opt_text(before.power))
    &&& text::opt_text(after.current) == smbus_smooth::latest(tdc, text::opt_text(before.current))
    &&& after.board_power == smbus_smooth::latest(board, before.board_power)
    &&& after == (Telemetry {
        power: after.power,
        current: after.current,
        board_power: after.board_power,
        ..before
    })
}

/// Whether metadata that came at a time is fresh enough for its measurement.
pub open spec fn is_fresh(at: Option<u64>, now_ns: u64) -> bool {
    at matches Some(t) && (if now_ns >= t { now_ns - t } else { 0 }) <= BOARD_POWER_MAX_AGE_NS
}

/// A reading shows the power and the current that the firmware reports, where it
/// reports numbers, and the power of the whole board while that is at most ten
/// seconds old; where there is none of these, what hwmon measured stands. Nothing
/// else of it changes.
pub proof fn law_firmware_readings_win(
    before: Telemetry,
    after: Telemetry,
    idx: usize,
    blended: Map<usize, SmbusTelemetry>,
    meta: Map<usize, DeviceMeta>,
    at: Option<u64>,
    now_ns: u64,
)
    requires
        overlaid(before, after, idx, blended, meta, is_fresh(at, now_ns)),
    ensures
        blended.contains_key(idx) && blended[idx].tdp is Some && models::number_text(
            blended[idx].tdp->0@,
        ) is Some ==> text::opt_text(after.power) == models::number_text(blended[idx].tdp->0@),
        !blended.contains_key(idx) || blended[idx].tdp is None || models::number_text(
            blended[idx].tdp->0@,
        ) is None ==> text::opt_text(after.power) == text::opt_text(before.power),
        blended.contains_key(idx) && blended[idx].tdc is Some && models::number_text(
            blended[idx].tdc->0@,
        ) is Some ==> text::opt_text(after.current) == models::number_text(blended[idx].tdc->0@),
        !blended.contains_key(idx) || blended[idx].tdc is None || models::number_text(
            blended[idx].tdc->0@,
        ) is None ==> text::opt_text(after.current) == text::opt_text(before.current),
        meta.contains_key(idx) && meta[idx].board_power is Some && at is Some && now_ns <= at->0
            + 10_000_000_000 ==> after.board_power == meta[idx].board_power,
        !meta.contains_key(idx) || meta[idx].board_power is None || at is None || now_ns > at->0
            + 10_000_000_000 ==> after.board_power == before.board_power,
        after.voltage == before.voltage,
        after.asic_temperature == before.asic_temperature,
        after.aiclk == before.aiclk,
        after.heartbeat == before.heartbeat,
        after.timestamp_ms == before.timestamp_ms,
{
}

/// The averages computed for a device.
pub open spec fn results_for(
    results: Map<usize, Vec<Option<Smoothed>>>,
    idx: usize,
) -> Seq<Option<Smoothed>> {
    if results.contains_key(idx) { results[idx]@ } else { Seq::empty() }
}

/// Whether the served telemetry of a device follows the last snapshot: it is
/// blended from what was served before, or, the first time, from the snapshot
/// itself.
pub open spec fn follows(
    before: HybridBackend,
    after: HybridBackend,
    idx: usize,
    results: Map<usize, Vec<Option<Smoothed>>>,
) -> bool {
    exists|start: SmbusTelemetry|
        {
            &&& if before.smbus_blended@.contains_key(idx) {
                start == before.smbus_blended@[idx]
            } else {
                models::same_smbus(start, before.smbus_latest@[idx])
            }
            &&& #[trigger] smbus_smooth::device_blended(
                before.smbus_ema@,
                after.smbus_ema@,
                idx,
                before.smbus_latest@[idx],
                start,
                after.smbus_blended@[idx],
                results_for(results, idx),
            )
        }
}

impl HybridBackend {
    /// A backend that has seen nothing.
    pub fn new(tt_smi_path: &str) -> (b: Self)
        ensures
            b.tt_smi_path@ == tt_smi_path@,
            sysfs::is_blank(b.sysfs),
            b.sysfs.config == (BackendConfig {
                update_interval_ms: 100,
                max_consecutive_errors: 10,
                read_timeout_ms: 5000,
                verbose: false,
            }),
            b.meta@ == Map::<usize, DeviceMeta>::empty(),
            b.meta_at is None,
            b.meta_applied_at is None,
            b.smbus_latest@ == Map::<usize, SmbusTelemetry>::empty(),
            b.smbus_blended@ == Map::<usize, SmbusTelemetry>::empty(),
            b.smbus_ema@ == Map::<usize, DeviceEmaState>::empty(),
            b.last_raw is None,
            b.bus_to_index@ == Map::<Seq<char>, usize>::empty(),
    {
        Self::with_config(tt_smi_path, BackendConfig::default())
    }

    /// A backend that has seen nothing. Whatever is given, its hwmon side has
    /// the default settings.
    pub fn with_config(tt_smi_path: &str, _config: BackendConfig) -> (b: Self)
        ensures
            b.tt_smi_path@ == tt_smi_path@,
            sysfs::is_blank(b.sysfs),
            b.sysfs.config == (BackendConfig {
                update_interval_ms: 100,
                max_consecutive_errors: 10,
                read_timeout_ms: 5000,
                verbose: false,
            }),
            b.meta@ == Map::<usize, DeviceMeta>::empty(),
            b.meta_at is None,
            b.meta_applied_at is None,
            b.smbus_latest@ == Map::<usize, SmbusTelemetry>::empty(),
            b.smbus_blended@ == Map::<usize, SmbusTelemetry>::empty(),
            b.smbus_ema@ == Map::<usize, DeviceEmaState>::empty(),
            b.last_raw is None,
            b.bus_to_index@ == Map::<Seq<char>, usize>::empty(),
    {
        HybridBackend {
            sysfs: SysfsBackend::new(),
            tt_smi_path: tt_smi_path.to_owned(),
            meta: HashMap::new(),
            meta_at: None,
            meta_applied_at: None,
            smbus_latest: HashMap::new(),
            smbus_blended: HashMap::new(),
            smbus_ema: HashMap::new(),
            last_raw: None,
            bus_to_index: TextMap::new(),
        }
    }

    /// Notes the bus ids of the devices that hwmon found, for the join.
    pub fn join_devices(&mut self)
        ensures
            final(self).bus_to_index@ == bus_index(
                old(self).sysfs.devices@,
                old(self).sysfs.devices@.len(),
            ),
            *final(self) == (HybridBackend {
                bus_to_index: final(self).bus_to_index,
                ..*old(self)
            }),
    {
        self.bus_to_index = sysfs_bus_index(&self.sysfs.devices);
    }

    /// Takes over what a snapshot brought at a time. Devices that are gone
    /// from the SMBUS telemetry are no longer served from it.
    pub fn adopt(&mut self, published: Published, now_ns: u64)
        ensures
            match published.smbus {
                Some(m) => {
                    &&& final(self).smbus_latest == m
                    &&& final(self).smbus_blended@ == old(self).smbus_blended@.restrict(m@.dom())
                    &&& final(self).smbus_ema@ == old(self).smbus_ema@.restrict(m@.dom())
                },
                None => {
                    &&& final(self).smbus_latest == old(self).smbus_latest
                    &&& final(self).smbus_blended == old(self).smbus_blended
                    &&& final(self).smbus_ema == old(self).smbus_ema
                },
            },
            match published.meta {
                Some(m) => final(self).meta == m && final(self).meta_at == Some(now_ns),
                None => final(self).meta == old(self).meta && final(self).meta_at
                    == old(self).meta_at,
            },
            final(self).meta_applied_at == old(self).meta_applied_at,
            final(self).sysfs == old(self).sysfs,
            final(self).tt_smi_path == old(self).tt_smi_path,
            final(self).last_raw == old(self).last_raw,
            final(self).bus_to_index == old(self).bus_to_index,
    {
        if let Some(m) = published.smbus {
            retain_keys(&mut self.smbus_blended, &m);
            retain_keys(&mut self.smbus_ema, &m);
            self.smbus_latest = m;
        }
        if let Some(m) = published.meta {
            self.meta = m;
            self.meta_at = Some(now_ns);
        }
    }

    /// The devices whose served telemetry follows the last snapshot, each
    /// with what its new averages are computed from.
    pub fn smoothing_work(&self) -> (work: Vec<(usize, Vec<Option<SmoothInput>>)>)
        ensures
            forall|i: int|
                0 <= i < work@.len() ==> self.smbus_latest@.contains_key(
                    (#[trigger] work@[i]).0,
                ) && smbus_smooth::inputs_listed(
                    work@[i].1@,
                    self.smbus_ema@,
                    work@[i].0,
                    self.smbus_latest@[work@[i].0],
                ),
            forall|idx: usize|
                self.smbus_latest@.contains_key(idx) ==> exists|i: int|
                    0 <= i < work@.len() && (#[trigger] work@[i]).0 == idx,
    {
        let keys = key_list(&self.smbus_latest);
        let mut work: Vec<(usize, Vec<Option<SmoothInput>>)> = Vec::new();
        for i in 0..keys.len()
            invariant
                keys@.to_set() == self.smbus_latest@.dom(),
                work@.len() == i,
                forall|k: int|
                    0 <= k < i ==> (#[trigger] work@[k]).0 == keys@[k]
                        && smbus_smooth::inputs_listed(
                        work@[k].1@,
                        self.smbus_ema@,
                        keys@[k],
                        self.smbus_latest@[keys@[k]],
                    ),
        {
            let idx: usize = keys[i];
            assert(keys@.to_set().contains(idx));
            assert(self.smbus_latest@.contains_key(idx));
            let inputs = match self.smbus_latest.get(&idx) {
                Some(target) => smoothing_inputs(&self.smbus_ema, idx, target),
                None => Vec::new(),
            };
            work.push((idx, inputs));
        }
        assert forall|i: int| 0 <= i < work@.len() implies self.smbus_latest@.contains_key(
            (#[trigger] work@[i]).0,
        ) by {
            assert(keys@.to_set().contains(keys@[i]));
        }
        assert forall|idx: usize| self.smbus_latest@.contains_key(idx) implies exists|i: int|
            0 <= i < work@.len() && (#[trigger] work@[i]).0 == idx by {
            assert(keys@.to_set().contains(idx));
            let i = choose|i: int| 0 <= i < keys@.len() && keys@[i] == idx;
            assert(work@[i].0 == idx);
        }
        work
    }

    fn apply_meta(&mut self)
        ensures
            final(self).meta_applied_at == if old(self).meta_at is Some {
                old(self).meta_at
            } else {
                old(self).meta_applied_at
            },
            final(self).sysfs.devices@.len() == old(self).sysfs.devices@.len(),
            if old(self).meta_at is Some && old(self).meta_at != old(self).meta_applied_at {
                forall|i: int|
                    0 <= i < old(self).sysfs.devices@.len() ==> enriched(
                        old(self).sysfs.devices@[i],
                        #[trigger] final(self).sysfs.devices@[i],
                        old(self).meta@,
                    )
            } else {
                final(self).sysfs.devices == old(self).sysfs.devices
            },
            old(self).meta_at is Some && old(self).meta_at != old(self).meta_applied_at ==> forall|i: int|
                0 <= i < old(self).sysfs.devices@.len() && old(self).meta@.contains_key(
                    (#[trigger] old(self).sysfs.devices@[i]).index,
                ) ==> {
                    let before = old(self).sysfs.devices@[i];
                    let after = final(self).sysfs.devices@[i];
                    let m = old(self).meta@[before.index];
                    &&& after.firmwares == if m.firmwares is Some {
                        m.firmwares
                    } else {
                        before.firmwares
                    }
                    &&& after.limits == if m.limits is Some { m.limits } else { before.limits }
                    &&& after.pcie_speed == if m.pcie_speed is Some {
                        m.pcie_speed
                    } else {
                        before.pcie_speed
                    }
                    &&& after.pcie_width == if m.pcie_width is Some {
                        m.pcie_width
                    } else {
                        before.pcie_width
                    }
                },
            forall|i: int|
                0 <= i < old(self).sysfs.devices@.len() ==> {
                    let before = #[trigger] old(self).sysfs.devices@[i];
                    let after = final(self).sysfs.devices@[i];
                    &&& after.index == before.index
                    &&& after.board_type == before.board_type
                    &&& after.bus_id == before.bus_id
                    &&& after.coords == before.coords
                    &&& after.architecture == before.architecture
                    &&& after.grid_override == before.grid_override
                    &&& after.channels_override == before.channels_override
                },
            *final(self) == (HybridBackend {
                sysfs: SysfsBackend {
                    devices: final(self).sysfs.devices,
                    ..old(self).sysfs
                },
                meta_applied_at: final(self).meta_applied_at,
                ..*old(self)
            }),
    {
        if self.meta_at.is_some() && self.meta_at != self.meta_applied_at {
            self.meta_applied_at = self.meta_at;
            let n: usize = self.sysfs.devices.len();
            for i in 0..n
                invariant
                    n == self.sysfs.devices@.len(),
                    n == old(self).sysfs.devices@.len(),
                    forall|k: int|
                        0 <= k < i ==> enriched(
                            old(self).sysfs.devices@[k],
                            #[trigger] self.sysfs.devices@[k],
                            old(self).meta@,
                        ),
                    forall|k: int|
                        i <= k < n ==> #[trigger] self.sysfs.devices@[k] == old(
                            self,
                        ).sysfs.devices@[k],
                    *self == (HybridBackend {
                        sysfs: SysfsBackend { devices: self.sysfs.devices, ..old(self).sysfs },
                        meta_applied_at: self.meta_applied_at,
                        ..*old(self)
                    }),
                    self.meta_applied_at == old(self).meta_at,
            {
                let device = enrich(&self.sysfs.devices[i], &self.meta);
                self.sysfs.devices.set(i, device);
            }
            proof {
                assert forall|i: int| 0 <= i < n implies enriched(
                    #[trigger] old(self).sysfs.devices@[i],
                    self.sysfs.devices@[i],
                    old(self).meta@,
                ) by {
                    let after = self.sysfs.devices@[i];
                    law_metadata_arrives(old(self).sysfs.devices@[i], after, old(self).meta@);
                }
            }
        }
    }
}

/// Drops the entries of a map whose keys another map does not have.
fn retain_keys<V, W>(map: &mut HashMap<usize, V>, by: &HashMap<usize, W>)
    ensures
        final(map)@ == old(map)@.restrict(by@.dom()),
{
    let keys = key_list(map);
    let ghost start = map@;
    for i in 0..keys.len()
        invariant
            keys@.to_set() == start.dom(),
            forall|k: usize| #[trigger]
                map@.contains_key(k) <==> start.contains_key(k) && !(keys@.take(
                    i as int,
                ).contains(k) && !by@.contains_key(k)),
            forall|k: usize| #[trigger] map@.contains_key(k) ==> map@[k] == start[k],
    {
        let k: usize = keys[i];
        let ghost a = keys@.take(i as int);
        let ghost b = keys@.take(i as int + 1);
        assert forall|x: usize| b.contains(x) <==> (x == k || a.contains(x)) by {
            assert(b[i as int] == k);
            if b.contains(x) && x != k {
                let j = choose|j: int| 0 <= j < b.len() && b[j] == x;
                assert(a[j] == x);
            }
            if a.contains(x) {
                let j = choose|j: int| 0 <= j < a.len() && a[j] == x;
                assert(b[j] == x);
            }
        }
        if !by.contains_key(&k) {
            map.remove(&k);
        }
    }
    assert(keys@.take(keys@.len() as int) =~= keys@);
    assert forall|k: usize| start.contains_key(k) implies keys@.contains(k) by {
        assert(keys@.to_set().contains(k));
    }
    assert(map@ =~= start.restrict(by@.dom()));
}

/// Whether the served telemetry of every device of the last snapshot follows
/// it, and nothing else changes.
pub open spec fn all_follow(
    before: HybridBackend,
    after: HybridBackend,
    results: Map<usize, Vec<Option<Smoothed>>>,
) -> bool {
    &&& forall|idx: usize| #[trigger]
        before.smbus_latest@.contains_key(idx) ==> after.smbus_blended@.contains_key(idx)
            && follows(before, after, idx, results)
    &&& forall|idx: usize|
        !before.smbus_latest@.contains_key(idx) ==> (#[trigger] after.smbus_blended@.contains_key(
            idx,
        ) <==> before.smbus_blended@.contains_key(idx))
    &&& forall|idx: usize|
        !before.smbus_latest@.contains_key(idx) && #[trigger] after.smbus_blended@.contains_key(
            idx,
        ) ==> after.smbus_blended@[idx] == before.smbus_blended@[idx]
    &&& forall|idx: usize|
        !before.smbus_latest@.contains_key(idx) ==> (#[trigger] after.smbus_ema@.contains_key(idx)
            <==> before.smbus_ema@.contains_key(idx))
    &&& forall|idx: usize|
        !before.smbus_latest@.contains_key(idx) && #[trigger] after.smbus_ema@.contains_key(idx)
            ==> after.smbus_ema@[idx] == before.smbus_ema@[idx]
}

fn no_results() -> (v: Vec<Option<Smoothed>>)
    ensures
        v@ == Seq::<Option<Smoothed>>::empty(),
{
    Vec::new()
}

impl HybridBackend {
    fn blend_all(&mut self, results: &HashMap<usize, Vec<Option<Smoothed>>>)
        ensures
            all_follow(*old(self), *final(self), results@),
            *final(self) == (HybridBackend {
                smbus_blended: final(self).smbus_blended,
                smbus_ema: final(self).smbus_ema,
                ..*old(self)
            }),
    {
        let ghost start = *self;
        let keys = key_list(&self.smbus_latest);
        let empty = no_results();
        for i in 0..keys.len()
            invariant
                empty@ == Seq::<Option<Smoothed>>::empty(),
                start == *old(self),
                keys@.no_duplicates(),
                keys@.to_set() == start.smbus_latest@.dom(),
                *self == (HybridBackend {
                    smbus_blended: self.smbus_blended,
                    smbus_ema: self.smbus_ema,
                    ..start
                }),
                forall|k: int|
                    0 <= k < i ==> self.smbus_blended@.contains_key(#[trigger] keys@[k])
                        && self.smbus_ema@.contains_key(keys@[k]) && follows(
                        start,
                        *self,
                        keys@[k],
                        results@,
                    ),
                forall|idx: usize|
                    !keys@.take(i as int).contains(idx) ==> (
                    #[trigger] self.smbus_blended@.contains_key(idx)
                        <==> start.smbus_blended@.contains_key(idx)) && (
                    self.smbus_blended@.contains_key(idx) ==> self.smbus_blended@[idx]
                        == start.smbus_blended@[idx]),
                forall|idx: usize|
                    !keys@.take(i as int).contains(idx) ==> (
                    #[trigger] self.smbus_ema@.contains_key(idx) <==> start.smbus_ema@.contains_key(
                        idx,
                    )) && (self.smbus_ema@.contains_key(idx) ==> self.smbus_ema@[idx]
                        == start.smbus_ema@[idx]),
        {
            let idx: usize = keys[i];
            let ghost mid = *self;
            assert(keys@.to_set().contains(idx));
            assert(start.smbus_latest@.contains_key(idx));
            let ghost a = keys@.take(i as int);
            let ghost b = keys@.take(i as int + 1);
            assert(!a.contains(idx));
            assert forall|x: usize| b.contains(x) <==> (x == idx || a.contains(x)) by {
                assert(b[i as int] == idx);
                if b.contains(x) && x != idx {
                    let j = choose|j: int| 0 <= j < b.len() && b[j] == x;
                    assert(a[j] == x);
                }
                if a.contains(x) {
                    let j = choose|j: int| 0 <= j < a.len() && a[j] == x;
                    assert(b[j] == x);
                }
            }
            if let Some(target) = self.smbus_latest.get(&idx) {
                let mut existing = match self.smbus_blended.remove(&idx) {
                    Some(e) => e,
                    None => target.dup(),
                };
                let ghost begun = existing;
                let res: &Vec<Option<Smoothed>> = match results.get(&idx) {
                    Some(r) => r,
                    None => &empty,
                };
                apply_ema(&mut self.smbus_ema, idx, target, &mut existing, res);
                self.smbus_blended.insert(idx, existing);
                proof {
                    smbus_smooth::lemma_blend_frame(
                        mid.smbus_ema@,
                        self.smbus_ema@,
                        start.smbus_ema@,
                        self.smbus_ema@,
                        idx,
                        start.smbus_latest@[idx],
                        begun,
                        self.smbus_blended@[idx],
                        results_for(results@, idx),
                    );
                    assert(follows(start, *self, idx, results@));
                    assert forall|k: int| 0 <= k < i implies follows(
                        start,
                        *self,
                        #[trigger] keys@[k],
                        results@,
                    ) by {
                        let key = keys@[k];
                        assert(follows(start, mid, key, results@));
                        assert(key != idx);
                        let s0 = choose|s0: SmbusTelemetry|
                            {
                                &&& if start.smbus_blended@.contains_key(key) {
                                    s0 == start.smbus_blended@[key]
                                } else {
                                    models::same_smbus(s0, start.smbus_latest@[key])
                                }
                                &&& #[trigger] smbus_smooth::device_blended(
                                    start.smbus_ema@,
                                    mid.smbus_ema@,
                                    key,
                                    start.smbus_latest@[key],
                                    s0,
                                    mid.smbus_blended@[key],
                                    results_for(results@, key),
                                )
                            };
                        smbus_smooth::lemma_blend_frame(
                            start.smbus_ema@,
                            mid.smbus_ema@,
                            start.smbus_ema@,
                            self.smbus_ema@,
                            key,
                            start.smbus_latest@[key],
                            s0,
                            self.smbus_blended@[key],
                            results_for(results@, key),
                        );
                    }
                }
            }
        }
        assert(keys@.take(keys@.len() as int) =~= keys@);
        assert forall|idx: usize| start.smbus_latest@.contains_key(idx) <==> keys@.contains(
            idx,
        ) by {
            assert(keys@.to_set().contains(idx) <==> start.smbus_latest@.dom().contains(idx));
        }
        assert forall|idx: usize| #[trigger]
            start.smbus_latest@.contains_key(idx) implies self.smbus_blended@.contains_key(idx)
            && follows(start, *self, idx, results@) by {
            let k = choose|k: int| 0 <= k < keys@.len() && keys@[k] == idx;
            assert(keys@[k] == idx);
        }
    }

    fn overlay(&mut self, now_ns: u64)
        ensures
            final(self).sysfs.telemetry_cache@.dom() == old(self).sysfs.telemetry_cache@.dom(),
            forall|idx: usize| #[trigger]
                old(self).sysfs.telemetry_cache@.contains_key(idx) ==> overlaid(
                    old(self).sysfs.telemetry_cache@[idx],
                    final(self).sysfs.telemetry_cache@[idx],
                    idx,
                    old(self).smbus_blended@,
                    old(self).meta@,
                    is_fresh(old(self).meta_at, now_ns),
                ),
            *final(self) == (HybridBackend {
                sysfs: SysfsBackend {
                    telemetry_cache: final(self).sysfs.telemetry_cache,
                    ..old(self).sysfs
                },
                ..*old(self)
            }),
    {
        let fresh = match self.meta_at {
            Some(t) => now_ns.saturating_sub(t) <= BOARD_POWER_MAX_AGE_NS,
            None => false,
        };
        let ghost start = self.sysfs.telemetry_cache@;
        let keys = key_list(&self.sysfs.telemetry_cache);
        for i in 0..keys.len()
            invariant
                fresh == is_fresh(old(self).meta_at, now_ns),
                start == old(self).sysfs.telemetry_cache@,
                keys@.no_duplicates(),
                keys@.to_set() == start.dom(),
                self.sysfs.telemetry_cache@.dom() == start.dom(),
                forall|k: int|
                    0 <= k < i ==> overlaid(
                        start[#[trigger] keys@[k]],
                        self.sysfs.telemetry_cache@[keys@[k]],
                        keys@[k],
                        old(self).smbus_blended@,
                        old(self).meta@,
                        fresh,
                    ),
                forall|k: int|
                    i <= k < keys@.len() ==> self.sysfs.telemetry_cache@[#[trigger] keys@[k]]
                        == start[keys@[k]],
                *self == (HybridBackend {
                    sysfs: SysfsBackend {
                        telemetry_cache: self.sysfs.telemetry_cache,
                        ..old(self).sysfs
                    },
                    ..*old(self)
                }),
        {
            let idx: usize = keys[i];
            assert(keys@.to_set().contains(idx));
            assert(start.contains_key(idx));
            if let Some(t) = self.sysfs.telemetry_cache.get(&idx) {
                let mut t = t.dup();
                if let Some(smbus) = self.smbus_blended.get(&idx) {
                    if let Some(w) = smbus.tdp_watts() {
                        t.power = Some(w);
                    }
                    if let Some(a) = smbus.tdc_amperes() {
                        t.current = Some(a);
                    }
                }
                if fresh {
                    if let Some(m) = self.meta.get(&idx) {
                        if m.board_power.is_some() {
                            t.board_power = copy_text(&m.board_power);
                        }
                    }
                }
                self.sysfs.telemetry_cache.insert(idx, t);
                assert(self.sysfs.telemetry_cache@.dom() =~= start.dom());
            }
        }
        assert forall|idx: usize| #[trigger] start.contains_key(idx) implies overlaid(
            start[idx],
            self.sysfs.telemetry_cache@[idx],
            idx,
            old(self).smbus_blended@,
            old(self).meta@,
            fresh,
        ) by {
            assert(keys@.to_set().contains(idx));
            let k = choose|k: int| 0 <= k < keys@.len() && keys@[k] == idx;
            assert(keys@[k] == idx);
        }
    }

    /// Finishes a tick after the hwmon side was read: new metadata is taken
    /// over by the devices, once for each time that it came; the served SMBUS
    /// telemetry follows the last snapshot by the averages computed for it;
    /// the readings show the firmware's power and current where they are
    /// known, and the whole board's power while it is fresh.
    pub fn update(&mut self, results: &HashMap<usize, Vec<Option<Smoothed>>>, now_ns: u64)
        ensures
            final(self).meta_applied_at == if old(self).meta_at is Some {
                old(self).meta_at
            } else {
                old(self).meta_applied_at
            },
            final(self).sysfs.devices@.len() == old(self).sysfs.devices@.len(),
            if old(self).meta_at is Some && old(self).meta_at != old(self).meta_applied_at {
                forall|i: int|
                    0 <= i < old(self).sysfs.devices@.len() ==> enriched(
                        old(self).sysfs.devices@[i],
                        #[trigger] final(self).sysfs.devices@[i],
                        old(self).meta@,
                    )
            } else {
                final(self).sysfs.devices == old(self).sysfs.devices
            },
            old(self).meta_at is Some && old(self).meta_at != old(self).meta_applied_at ==> forall|i: int|
                0 <= i < old(self).sysfs.devices@.len() && old(self).meta@.contains_key(
                    (#[trigger] old(self).sysfs.devices@[i]).index,
                ) ==> {
                    let before = old(self).sysfs.devices@[i];
                    let after = final(self).sysfs.devices@[i];
                    let m = old(self).meta@[before.index];
                    &&& after.firmwares == if m.firmwares is Some {
                        m.firmwares
                    } else {
                        before.firmwares
                    }
                    &&& after.limits == if m.limits is Some { m.limits } else { before.limits }
                    &&& after.pcie_speed == if m.pcie_speed is Some {
                        m.pcie_speed
                    } else {
                        before.pcie_speed
                    }
                    &&& after.pcie_width == if m.pcie_width is Some {
                        m.pcie_width
                    } else {
                        before.pcie_width
                    }
                },
            forall|i: int|
                0 <= i < old(self).sysfs.devices@.len() ==> {
                    let before = #[trigger] old(self).sysfs.devices@[i];
                    let after = final(self).sysfs.devices@[i];
                    &&& after.index == before.index
                    &&& after.board_type == before.board_type
                    &&& after.bus_id == before.bus_id
                    &&& after.coords == before.coords
                    &&& after.architecture == before.architecture
                    &&& after.grid_override == before.grid_override
                    &&& after.channels_override == before.channels_override
                },
            all_follow(*old(self), *final(self), results@),
            final(self).sysfs.telemetry_cache@.dom() == old(self).sysfs.telemetry_cache@.dom(),
            forall|idx: usize| #[trigger]
                old(self).sysfs.telemetry_cache@.contains_key(idx) ==> overlaid(
                    old(self).sysfs.telemetry_cache@[idx],
                    final(self).sysfs.telemetry_cache@[idx],
                    idx,
                    final(self).smbus_blended@,
                    old(self).meta@,
                    is_fresh(old(self).meta_at, now_ns),
                ),
            *final(self) == (HybridBackend {
                sysfs: SysfsBackend {
                    devices: final(self).sysfs.devices,
                    telemetry_cache: final(self).sysfs.telemetry_cache,
                    ..old(self).sysfs
                },
                meta_applied_at: final(self).meta_applied_at,
                smbus_blended: final(self).smbus_blended,
                smbus_ema: final(self).smbus_ema,
                ..*old(self)
            }),
    {
        let ghost s0 = *self;
        self.apply_meta();
        let ghost s1 = *self;
        self.blend_all(results);
        let ghost s2 = *self;
        self.overlay(now_ns);
        assert forall|idx: usize| #[trigger]
            s0.smbus_latest@.contains_key(idx) implies self.smbus_blended@.contains_key(idx)
            && follows(s0, *self, idx, results@) by {
            assert(s1.smbus_latest@.contains_key(idx));
            assert(follows(s1, s2, idx, results@));
        }
    }

    /// The last traffic of a device, which hwmon's side counts.
    pub fn pcie_bandwidth(&self, device_idx: usize) -> (r: Option<PcieBandwidth>)
        ensures
            r == if self.sysfs.pcie_bandwidth@.contains_key(device_idx) {
                Some(self.sysfs.pcie_bandwidth@[device_idx])
            } else {
                None
            },
    {
        self.sysfs.pcie_bandwidth(device_idx)
    }
}

impl TelemetryBackend for HybridBackend {
    open spec fn device_list(&self) -> Seq<Device> {
        self.sysfs.devices@
    }

    open spec fn telemetry_map(&self) -> Map<usize, Telemetry> {
        self.sysfs.telemetry_cache@
    }

    /// The telemetry that follows the snapshots, and for a device that it does
    /// not cover the one that hwmon gives.
    open spec fn smbus_map(&self) -> Map<usize, SmbusTelemetry> {
        self.sysfs.smbus_cache@.union_prefer_right(self.smbus_blended@)
    }

    open spec fn info_text(&self) -> Seq<char> {
        "Hybrid ("@ + text::decimal(self.sysfs.devices@.len())
            + if self.smbus_blended@ == Map::<usize, SmbusTelemetry>::empty() {
            " via sysfs, no tt-smi)"@
        } else {
            " via sysfs+json)"@
        }
    }

    open spec fn snapshot_text(&self) -> Option<Seq<char>> {
        text::opt_text(self.last_raw)
    }

    fn devices(&self) -> (devices: &Vec<Device>) {
        &self.sysfs.devices
    }

    fn telemetry(&self, device_idx: usize) -> (t: Option<&Telemetry>) {
        self.sysfs.telemetry_cache.get(&device_idx)
    }

    fn smbus_telemetry(&self, device_idx: usize) -> (s: Option<&SmbusTelemetry>) {
        match self.smbus_blended.get(&device_idx) {
            Some(s) => Some(s),
            None => self.sysfs.smbus_cache.get(&device_idx),
        }
    }

    fn backend_info(&self) -> (s: String) {
        let mut s = "Hybrid (".to_owned();
        append_decimal(&mut s, self.sysfs.devices.len() as u64);
        let keys = key_list(&self.smbus_blended);
        if keys.len() == 0 {
            assert(self.smbus_blended@ =~= Map::<usize, SmbusTelemetry>::empty()) by {
                assert(keys@.to_set() =~= Set::<usize>::empty());
            }
            s.append(" via sysfs, no tt-smi)");
        } else {
            assert(keys@.to_set().contains(keys@[0]));
            assert(self.smbus_blended@.contains_key(keys@[0]));
            s.append(" via sysfs+json)");
        }
        s
    }

    fn snapshot_json(&self) -> (s: Option<String>) {
        copy_text(&self.last_raw)
    }
}

/// What is printed is relayed as it is and brought to the devices; a run that failed
/// brings nothing. The next run is a second and a half away, and five seconds where
/// `tt-smi` could not be started.
pub proof fn law_runs_are_followed_up(
    step: PollStep,
    run: SmiRun,
    bus_to_index: Map<Seq<char>, usize>,
)
    requires
        step_after(step, run, bus_to_index),
    ensures
        step.raw is Some <==> run is Printed,
        step.published is Some <==> run is Printed,
        run matches SmiRun::Printed(s) ==> step.raw->0@ == s@ && published_of(
            step.published->0,
            s@,
            bus_to_index,
        ),
        step.wait_ms == if run is NotStarted { 5000 } else { 1500int },
{
}

/// What is served of a device is what the last snapshot says of it, and what it does
/// not say stays as it was served before; a device that the snapshot leaves out is left
/// as it was.
pub proof fn law_served_telemetry_follows_the_snapshot(
    before: HybridBackend,
    after: HybridBackend,
    results: Map<usize, Vec<Option<Smoothed>>>,
    idx: usize,
)
    requires
        all_follow(before, after, results),
    ensures
        before.smbus_latest@.contains_key(idx) ==> {
            let latest = before.smbus_latest@[idx];
            let served = after.smbus_blended@[idx];
            &&& after.smbus_blended@.contains_key(idx)
            &&& latest.board_id is Some ==> served.board_id == latest.board_id
            &&& latest.ddr_status is Some ==> served.ddr_status == latest.ddr_status
            &&& latest.faults is Some ==> served.faults == latest.faults
            &&& latest.throttler is Some ==> served.throttler == latest.throttler
            &&& latest.pcie_status is Some ==> served.pcie_status == latest.pcie_status
            &&& latest.harvesting_state is Some ==> served.harvesting_state
                == latest.harvesting_state
            &&& latest.max_gddr_temp is Some ==> served.max_gddr_temp == latest.max_gddr_temp
            &&& latest.eth_fw_version is Some ==> served.eth_fw_version == latest.eth_fw_version
            &&& before.smbus_blended@.contains_key(idx) ==> {
                let was = before.smbus_blended@[idx];
                &&& latest.board_id is None ==> served.board_id == was.board_id
                &&& latest.ddr_status is None ==> served.ddr_status == was.ddr_status
                &&& latest.faults is None ==> served.faults == was.faults
                &&& latest.throttler is None ==> served.throttler == was.throttler
                &&& latest.pcie_status is None ==> served.pcie_status == was.pcie_status
                &&& latest.harvesting_state is None ==> served.harvesting_state
                    == was.harvesting_state
            }
            &&& !before.smbus_blended@.contains_key(idx) ==> {
                &&& latest.board_id is None ==> served.board_id is None
                &&& latest.ddr_status is None ==> served.ddr_status is None
                &&& latest.faults is None ==> served.faults is None
            }
        },
        !before.smbus_latest@.contains_key(idx) ==> {
            &&& after.smbus_blended@.contains_key(idx) == before.smbus_blended@.contains_key(idx)
            &&& after.smbus_blended@.contains_key(idx) ==> after.smbus_blended@[idx]
                == before.smbus_blended@[idx]
        },
{
    if before.smbus_latest@.contains_key(idx) {
        assert(follows(before, after, idx, results));
        let start = choose|start: SmbusTelemetry|
            {
                &&& if before.smbus_blended@.contains_key(idx) {
                    start == before.smbus_blended@[idx]
                } else {
                    models::same_smbus(start, before.smbus_latest@[idx])
                }
                &&& #[trigger] smbus_smooth::device_blended(
                    before.smbus_ema@,
                    after.smbus_ema@,
                    idx,
                    before.smbus_latest@[idx],
                    start,
                    after.smbus_blended@[idx],
                    results_for(results, idx),
                )
            };
        smbus_smooth::law_other_fields_are_taken_over(
            before.smbus_latest@[idx],
            start,
            after.smbus_blended@[idx],
        );
    } else {
        assert(after.smbus_blended@.contains_key(idx) == before.smbus_blended@.contains_key(idx));
    }
}

} // verus!
