//! What the hybrid backend takes out of a snapshot: SMBUS telemetry, device
//! metadata, and the bus ids by which both are joined to other devices.

use std::collections::HashMap;

use vstd::prelude::*;

use crate::backend::blocks;
use crate::backend::blocks::{decode_firmwares, decode_limits, smbus_from_json_fields};
use crate::backend::json;
use crate::backend::json::{gen_name, lanes, parse_json_devices, tree_ref, TTSMIDeviceJSON};
use crate::maps;
use crate::models::{copy_text, DeviceLimits, FirmwaresInfo, SmbusTelemetry};
use crate::text;
use crate::text::trim;

verus! {

broadcast use vstd::std_specs::hash::group_hash_axioms;

/// Metadata of a device that rides along with its SMBUS telemetry.
#[derive(Debug)]
pub struct DeviceMeta {
    pub firmwares: Option<FirmwaresInfo>,
    pub limits: Option<DeviceLimits>,
    /// PCIe generation, such as `Gen4`.
    pub pcie_speed: Option<String>,
    /// PCIe lane width.
    pub pcie_width: Option<u8>,
    /// Watts that the whole board draws.
    pub board_power: Option<String>,
}

/// What a snapshot holds for devices that were found elsewhere, by position
/// in the snapshot.
#[derive(Debug)]
pub struct SnapshotParts {
    pub smbus: HashMap<usize, SmbusTelemetry>,
    pub meta: HashMap<usize, DeviceMeta>,
    /// Normalized bus ids.
    pub bus_ids: HashMap<usize, String>,
}

/// What `str::to_lowercase` makes of a text.
pub uninterp spec fn lowercase(s: Seq<char>) -> Seq<char>;

/// Whether every character is ASCII.
pub open spec fn all_ascii(s: Seq<char>) -> bool {
    forall|i: int| 0 <= i < s.len() ==> (#[trigger] s[i]) <= '\u{7f}'
}

/// Each character in lower case, where it is an ASCII letter.
pub open spec fn ascii_lowered(s: Seq<char>) -> Seq<char> {
    Seq::new(s.len(), |i: int| text::ascii_lower(s[i]))
}

/// `str::to_lowercase`. The result depends on the text alone; of an ASCII text
/// it is the text with its letters in lower case.
#[verifier::external_body]
fn to_lowercase(s: &str) -> (r: String)
    ensures
        r@ == lowercase(s@),
        all_ascii(s@) ==> r@ == ascii_lowered(s@),
{
    s.to_lowercase()
}

/// The form of a bus id in which it is compared: trimmed and in lower case.
pub open spec fn normalized(bus_id: Seq<char>) -> Seq<char> {
    let t = text::trimmed(bus_id);
    if all_ascii(t) { ascii_lowered(t) } else { lowercase(t) }
}

/// Brings a PCI bus id to the form in which it is compared.
pub fn normalize_bus_id(bus_id: &str) -> (r: String)
    ensures
        r@ == normalized(bus_id@),
{
    let t = trim(bus_id);
    to_lowercase(t.as_str())
}

/// The whole-board power that an entry reports.
pub open spec fn entry_board_power(e: TTSMIDeviceJSON) -> Option<String> {
    match e.telemetry {
        Some(t) => t.board_power,
        None => None,
    }
}

/// Whether an entry carries any metadata.
pub open spec fn has_meta(e: TTSMIDeviceJSON) -> bool {
    let h = e.header();
    ||| h.firmwares is Some && blocks::firmwares_ok(h.firmwares->0)
    ||| h.limits is Some && h.limits->0 is Object
    ||| h.pcie_speed is Some
    ||| json::lane_width(h.pcie_width) is Some
    ||| entry_board_power(e) is Some
}

/// Whether `m` is the metadata of an entry.
pub open spec fn meta_built(m: DeviceMeta, e: TTSMIDeviceJSON) -> bool {
    let h = e.header();
    &&& blocks::firmwares_match(m.firmwares, h.firmwares)
    &&& blocks::limits_match(m.limits, h.limits)
    &&& text::opt_text(m.pcie_speed) == json::gen_text(h.pcie_speed)
    &&& json::opt_byte(m.pcie_width) == json::lane_width(h.pcie_width)
    &&& m.board_power == entry_board_power(e)
}

/// The normalized bus id of an entry, unless it has none.
pub open spec fn entry_bus_id(e: TTSMIDeviceJSON) -> Option<Seq<char>> {
    match e.bus_id {
        Some(b) => if normalized(b@).len() == 0 { None } else { Some(normalized(b@)) },
        None => None,
    }
}

/// The positions of the entries with metadata.
pub open spec fn meta_keys(entries: Seq<TTSMIDeviceJSON>) -> Seq<Option<nat>> {
    Seq::new(
        entries.len(),
        |i: int|
            if has_meta(entries[i]) {
                Some(json::header_index(entries[i].header()))
            } else {
                None
            },
    )
}

/// The positions of the entries with a bus id.
pub open spec fn bus_keys(entries: Seq<TTSMIDeviceJSON>) -> Seq<Option<nat>> {
    Seq::new(
        entries.len(),
        |i: int|
            if entry_bus_id(entries[i]) is Some {
                Some(json::header_index(entries[i].header()))
            } else {
                None
            },
    )
}

/// Whether the metadata is that of the first `n` entries.
pub open spec fn meta_collected(
    map: Map<usize, DeviceMeta>,
    entries: Seq<TTSMIDeviceJSON>,
    n: nat,
) -> bool {
    maps::collected(
        map,
        meta_keys(entries),
        n,
        |k: int, m: DeviceMeta| meta_built(m, entries[k]),
    )
}

/// Whether the bus ids are those of the first `n` entries.
pub open spec fn buses_collected(
    map: Map<usize, String>,
    entries: Seq<TTSMIDeviceJSON>,
    n: nat,
) -> bool {
    maps::collected(
        map,
        bus_keys(entries),
        n,
        |k: int, b: String| entry_bus_id(entries[k]) == Some(b@),
    )
}

/// Whether the parts are those of the entries: for each position, what the
/// last entry with that position and such a part carries.
pub open spec fn parts_built(parts: SnapshotParts, entries: Seq<TTSMIDeviceJSON>) -> bool {
    &&& json::smbus_collected(parts.smbus@, entries, entries.len())
    &&& meta_collected(parts.meta@, entries, entries.len())
    &&& buses_collected(parts.bus_ids@, entries, entries.len())
}

/// Whether the parts are those of a text; a text that is no snapshot has none.
pub open spec fn parts_of(parts: SnapshotParts, json: Seq<char>) -> bool {
    match json::text_sources(json) {
        Some(sources) => exists|entries: Seq<TTSMIDeviceJSON>|
            json::all_decode(entries, sources) && #[trigger] parts_built(parts, entries),
        None => {
            &&& parts.smbus@ == Map::<usize, SmbusTelemetry>::empty()
            &&& parts.meta@ == Map::<usize, DeviceMeta>::empty()
            &&& parts.bus_ids@ == Map::<usize, String>::empty()
        },
    }
}

fn meta_of(e: &TTSMIDeviceJSON) -> (m: Option<DeviceMeta>)
    ensures
        m is Some <==> has_meta(*e),
        m matches Some(m) ==> meta_built(m, *e),
{
    let firmwares = decode_firmwares(tree_ref(&e.firmwares));
    let limits = decode_limits(tree_ref(&e.limits));
    let pcie_speed = gen_name(e.pcie_speed);
    let pcie_width = lanes(e.pcie_width);
    let board_power = match &e.telemetry {
        Some(t) => copy_text(&t.board_power),
        None => None,
    };
    if firmwares.is_some() || limits.is_some() || pcie_speed.is_some() || pcie_width.is_some()
        || board_power.is_some() {
        Some(DeviceMeta { firmwares, limits, pcie_speed, pcie_width, board_power })
    } else {
        None
    }
}

/// The parts of the entries of a snapshot.
pub fn parts_from_entries(entries: Vec<TTSMIDeviceJSON>) -> (parts: SnapshotParts)
    ensures
        parts_built(parts, entries@),
{
    let mut smbus: HashMap<usize, SmbusTelemetry> = HashMap::new();
    let mut meta: HashMap<usize, DeviceMeta> = HashMap::new();
    let mut bus_ids: HashMap<usize, String> = HashMap::new();
    let ghost all = entries@;
    for dev in it: entries
        invariant
            it.seq() == all,
            json::smbus_collected(smbus@, all, it.index() as nat),
            meta_collected(meta@, all, it.index() as nat),
            buses_collected(bus_ids@, all, it.index() as nat),
    {
        let ghost k = it.index() as int;
        let ghost before = (smbus@, meta@, bus_ids@);
        assert(all[k] == dev);
        let idx: usize = match dev.index {
            Some(i) => i,
            None => 0,
        };
        if let Some(bus) = &dev.bus_id {
            let norm = normalize_bus_id(bus.as_str());
            if !norm.as_str().is_empty() {
                bus_ids.insert(idx, norm);
            }
        }
        if let Some(m) = meta_of(&dev) {
            meta.insert(idx, m);
        }
        if let Some(s) = dev.smbus {
            smbus.insert(idx, smbus_from_json_fields(s));
        }
        proof {
            maps::lemma_collected_step(
                before.0,
                smbus@,
                json::smbus_keys(all),
                k,
                |k: int, s: SmbusTelemetry| blocks::smbus_built(s, all[k].smbus->0),
            );
            maps::lemma_collected_step(
                before.1,
                meta@,
                meta_keys(all),
                k,
                |k: int, m: DeviceMeta| meta_built(m, all[k]),
            );
            maps::lemma_collected_step(
                before.2,
                bus_ids@,
                bus_keys(all),
                k,
                |k: int, b: String| entry_bus_id(all[k]) == Some(b@),
            );
        }
    }
    SnapshotParts { smbus, meta, bus_ids }
}

/// Parses a snapshot text once and takes its parts out.
pub fn parse_snapshot(json_str: &str) -> (parts: SnapshotParts)
    ensures
        parts_of(parts, json_str@),
{
    match parse_json_devices(json_str) {
        Ok((entries, _processes)) => parts_from_entries(entries),
        Err(_) => SnapshotParts {
            smbus: HashMap::new(),
            meta: HashMap::new(),
            bus_ids: HashMap::new(),
        },
    }
}

/// The SMBUS telemetry of a snapshot text, by position.
pub fn parse_smbus_from_json(json_str: &str) -> (smbus: HashMap<usize, SmbusTelemetry>)
    ensures
        exists|parts: SnapshotParts| #[trigger] parts_of(parts, json_str@) && parts.smbus == smbus,
{
    let parts = parse_snapshot(json_str);
    parts.smbus
}

impl DeviceMeta {
    /// A copy.
    pub fn dup(&self) -> (r: Self)
        ensures
            r == *self,
    {
        DeviceMeta {
            firmwares: match &self.firmwares {
                Some(f) => Some(f.dup()),
                None => None,
            },
            limits: match &self.limits {
                Some(l) => Some(l.dup()),
                None => None,
            },
            pcie_speed: copy_text(&self.pcie_speed),
            pcie_width: self.pcie_width,
            board_power: copy_text(&self.board_power),
        }
    }
}

/// Bus ids are compared without regard to case and to blanks around them: two
/// that differ in nothing else are the same, and a bus id in lower case is as it
/// is.
pub proof fn law_bus_ids_compare_without_case(
    before: Seq<char>,
    a: Seq<char>,
    after: Seq<char>,
    b: Seq<char>,
)
    requires
        text::all_white(before),
        text::all_white(after),
        a.len() > 0,
        a.len() == b.len(),
        forall|i: int| 0 <= i < a.len() ==> '!' <= #[trigger] a[i] <= '~',
        forall|i: int|
            0 <= i < a.len() ==> #[trigger] b[i] == if 'A' <= a[i] <= 'Z' {
                (a[i] as int + 32) as char
            } else {
                a[i]
            },
    ensures
        normalized(before + a + after) == b,
        normalized(b) == b,
{
    let none = Seq::<char>::empty();
    text::law_trimming_leaves_the_text(before, a, after);
    text::law_trimming_leaves_the_text(none, b, none);
    assert(none + b + none =~= b);
    assert(ascii_lowered(a) =~= b);
    assert(ascii_lowered(b) =~= b);
}

/// The metadata of an entry is what the entry says: the generation and the width of its
/// link, and the power of the whole board out of its telemetry, not that of the chip.
pub proof fn law_metadata_is_what_the_entry_says(m: DeviceMeta, e: TTSMIDeviceJSON)
    requires
        meta_built(m, e),
    ensures
        e.telemetry is Some ==> m.board_power == e.telemetry->0.board_power,
        e.telemetry is None ==> m.board_power is None,
        e.pcie_speed is Some ==> m.pcie_speed is Some && m.pcie_speed->0@ == "Gen"@ + text::decimal(
            e.pcie_speed->0 as nat,
        ),
        e.pcie_speed is None ==> m.pcie_speed is None,
        e.pcie_width is Some && e.pcie_width->0 <= 255 ==> m.pcie_width is Some && m.pcie_width->0
            == e.pcie_width->0,
        e.pcie_width is None || e.pcie_width->0 > 255 ==> m.pcie_width is None,
        m.firmwares is Some ==> e.firmwares is Some,
        m.limits is Some ==> e.limits is Some,
{
}

} // verus!
