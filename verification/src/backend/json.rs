//! The snapshots that `tt-smi -s` prints, and the backend that serves them.

use std::collections::HashMap;

use vstd::prelude::*;

use crate::backend::blocks;
use crate::backend::blocks::{
    decode_firmwares, decode_limits, decode_processes, decode_smbus, decode_telemetry,
    smbus_from_json_fields, telemetry_from_json, SmbusTelemetryJSON, TelemetryJSON,
};
use crate::backend::{BackendConfig, TelemetryBackend};
use crate::document;
use crate::document::{
    count_field, if_present, is_number_field, is_text_field, number_field, parse_json, text_field,
    Json, JsonView,
};
use crate::error::{BackendError, BackendResult};
use crate::maps;
use crate::maps::move_all;
use crate::models;
use crate::models::{Device, DeviceProcess, SmbusTelemetry, Telemetry};
use crate::text;
use crate::text::{append_decimal, chars_of};

verus! {

broadcast use vstd::std_specs::hash::group_hash_axioms;

/// One device of a snapshot, in the flat form that every snapshot format is
/// brought to.
#[derive(Debug)]
pub struct TTSMIDeviceJSON {
    /// Position of the device, where the format gives one.
    pub index: Option<usize>,
    pub board_type: Option<String>,
    pub bus_id: Option<String>,
    pub coords: Option<String>,
    pub telemetry: Option<TelemetryJSON>,
    pub smbus: Option<SmbusTelemetryJSON>,
    pub firmwares: Option<Json>,
    pub limits: Option<Json>,
    /// PCIe generation.
    pub pcie_speed: Option<u32>,
    /// PCIe lane width.
    pub pcie_width: Option<u32>,
}

/// Where a device of a snapshot comes from: an element of `device_info` at a
/// position, or a flat record.
pub enum Source {
    Modern(nat, JsonView),
    Flat(JsonView),
}

/// What a device carries besides its telemetry blocks.
pub struct Header {
    pub index: Option<nat>,
    pub board_type: Option<Seq<char>>,
    pub bus_id: Option<Seq<char>>,
    pub coords: Option<Seq<char>>,
    pub firmwares: Option<JsonView>,
    pub limits: Option<JsonView>,
    pub pcie_speed: Option<nat>,
    pub pcie_width: Option<nat>,
}

/// A field of an optional record.
pub open spec fn opt_field(j: Option<JsonView>, pos: nat, key: Seq<char>) -> Option<JsonView> {
    match j {
        Some(v) => document::field(v, pos, key),
        None => None,
    }
}

/// Whether a value is a `board_info` block.
pub open spec fn board_ok(j: JsonView) -> bool {
    &&& document::is_record(j, 3, 5)
    &&& document::text_ok(document::field(j, 0, "board_type"@))
    &&& document::text_ok(document::field(j, 1, "bus_id"@))
    &&& document::text_ok(document::field(j, 2, "coords"@))
}

/// Whether an optional block is absent or a telemetry block.
pub open spec fn opt_telemetry_ok(j: Option<JsonView>) -> bool {
    j matches Some(v) ==> blocks::telemetry_ok(v)
}

/// Whether an optional block is absent or a SMBUS block.
pub open spec fn opt_smbus_ok(j: Option<JsonView>) -> bool {
    j matches Some(v) ==> blocks::smbus_ok(v)
}

/// Whether a value is an element of `device_info`.
pub open spec fn modern_ok(j: JsonView) -> bool {
    &&& document::is_record(j, 5, 5)
    &&& document::present(document::field(j, 0, "board_info"@)) matches Some(b) ==> board_ok(b)
    &&& opt_telemetry_ok(document::present(document::field(j, 1, "telemetry"@)))
    &&& opt_smbus_ok(document::present(document::field(j, 2, "smbus_telem"@)))
}

/// Whether a value is a flat device record.
pub open spec fn flat_ok(j: JsonView) -> bool {
    &&& document::is_record(j, 8, 10)
    &&& document::number_ok(document::field(j, 0, "index"@), usize::MAX as nat)
    &&& document::text_ok(document::field(j, 1, "board_type"@))
    &&& document::text_ok(document::field(j, 2, "bus_id"@))
    &&& document::text_ok(document::field(j, 3, "coords"@))
    &&& opt_telemetry_ok(document::present(document::field(j, 4, "telemetry"@)))
    &&& opt_smbus_ok(document::present(document::field(j, 5, "smbus"@)))
    &&& document::number_ok(document::field(j, 8, "pcie_speed"@), u32::MAX as nat)
    &&& document::number_ok(document::field(j, 9, "pcie_width"@), u32::MAX as nat)
}

impl Source {
    /// The header of the device.
    pub open spec fn header(self) -> Header {
        match self {
            Source::Modern(idx, j) => {
                let b = document::present(document::field(j, 0, "board_info"@));
                Header {
                    index: Some(idx),
                    board_type: document::text_of(opt_field(b, 0, "board_type"@)),
                    bus_id: document::text_of(opt_field(b, 1, "bus_id"@)),
                    coords: document::text_of(opt_field(b, 2, "coords"@)),
                    firmwares: document::present(document::field(j, 3, "firmwares"@)),
                    limits: document::present(document::field(j, 4, "limits"@)),
                    pcie_speed: document::count_of(
                        opt_field(b, 3, "pcie_speed"@),
                        u32::MAX as nat,
                    ),
                    pcie_width: document::count_of(
                        opt_field(b, 4, "pcie_width"@),
                        u32::MAX as nat,
                    ),
                }
            },
            Source::Flat(j) => Header {
                index: document::number_of(document::field(j, 0, "index"@), usize::MAX as nat),
                board_type: document::text_of(document::field(j, 1, "board_type"@)),
                bus_id: document::text_of(document::field(j, 2, "bus_id"@)),
                coords: document::text_of(document::field(j, 3, "coords"@)),
                firmwares: document::present(document::field(j, 6, "firmwares"@)),
                limits: document::present(document::field(j, 7, "limits"@)),
                pcie_speed: document::number_of(
                    document::field(j, 8, "pcie_speed"@),
                    u32::MAX as nat,
                ),
                pcie_width: document::number_of(
                    document::field(j, 9, "pcie_width"@),
                    u32::MAX as nat,
                ),
            },
        }
    }

    /// The telemetry block of the device.
    pub open spec fn telemetry(self) -> Option<JsonView> {
        match self {
            Source::Modern(_, j) => document::present(document::field(j, 1, "telemetry"@)),
            Source::Flat(j) => document::present(document::field(j, 4, "telemetry"@)),
        }
    }

    /// The SMBUS block of the device.
    pub open spec fn smbus(self) -> Option<JsonView> {
        match self {
            Source::Modern(_, j) => document::present(document::field(j, 2, "smbus_telem"@)),
            Source::Flat(j) => document::present(document::field(j, 5, "smbus"@)),
        }
    }
}

/// The view of an optional value that is owned.
pub open spec fn opt_tree(j: Option<Json>) -> Option<JsonView> {
    match j {
        Some(v) => Some(v@),
        None => None,
    }
}

impl TTSMIDeviceJSON {
    /// The header of the device.
    pub open spec fn header(self) -> Header {
        Header {
            index: blocks::opt_index(self.index),
            board_type: text::opt_text(self.board_type),
            bus_id: text::opt_text(self.bus_id),
            coords: text::opt_text(self.coords),
            firmwares: opt_tree(self.firmwares),
            limits: opt_tree(self.limits),
            pcie_speed: models::opt_nat32(self.pcie_speed),
            pcie_width: models::opt_nat32(self.pcie_width),
        }
    }

    /// Whether the device is what `src` decodes to.
    pub open spec fn decodes(self, src: Source) -> bool {
        &&& self.header() == src.header()
        &&& match (self.telemetry, src.telemetry()) {
            (Some(t), Some(j)) => blocks::telemetry_matches(t, j),
            (None, None) => true,
            _ => false,
        }
        &&& match (self.smbus, src.smbus()) {
            (Some(s), Some(j)) => blocks::smbus_matches(s, j),
            (None, None) => true,
            _ => false,
        }
    }
}

/// Whether each device is what its source decodes to.
pub open spec fn all_decode(devices: Seq<TTSMIDeviceJSON>, sources: Seq<Source>) -> bool {
    &&& devices.len() == sources.len()
    &&& forall|i: int| 0 <= i < devices.len() ==> (#[trigger] devices[i]).decodes(sources[i])
}

/// The elements among the first `n` of a `device_info` array that decode,
/// each with its position in the array.
pub open spec fn modern_sources(entries: Seq<JsonView>, n: nat) -> Seq<Source>
    decreases n,
{
    if n == 0 {
        Seq::empty()
    } else {
        let before = modern_sources(entries, (n - 1) as nat);
        if modern_ok(entries[n - 1]) {
            before.push(Source::Modern((n - 1) as nat, entries[n - 1]))
        } else {
            before
        }
    }
}

/// Whether every element is a flat record.
pub open spec fn all_flat(entries: Seq<JsonView>) -> bool {
    forall|i: int| 0 <= i < entries.len() ==> flat_ok(#[trigger] entries[i])
}

/// The records of a flat array, each as a source.
pub open spec fn flat_sources(entries: Seq<JsonView>) -> Seq<Source> {
    Seq::new(entries.len(), |i: int| Source::Flat(entries[i]))
}

/// Whether every element of a `device_info` array decodes.
pub open spec fn all_modern(entries: Seq<JsonView>) -> bool {
    forall|i: int| 0 <= i < entries.len() ==> modern_ok(#[trigger] entries[i])
}

/// The `device_info` array of a document of the modern format. A document
/// that is no object must decode whole.
pub open spec fn modern_entries(doc: JsonView) -> Option<Seq<JsonView>> {
    match document::field(doc, 0, "device_info"@) {
        Some(JsonView::Array(entries)) => if doc is Object || (document::is_record(doc, 1, 2)
            && all_modern(entries)) {
            Some(entries)
        } else {
            None
        },
        _ => None,
    }
}

/// The devices of a document, by the first format that it fits: the modern
/// format, an array of flat records, an object with such an array under
/// `devices`, or one flat record.
pub open spec fn device_sources(doc: JsonView) -> Option<Seq<Source>> {
    if modern_entries(doc) is Some {
        let entries = modern_entries(doc)->0;
        Some(modern_sources(entries, entries.len()))
    } else if doc is Array && all_flat(doc->Array_0) {
        Some(flat_sources(doc->Array_0))
    } else if wrapped_entries(doc) is Some {
        Some(flat_sources(wrapped_entries(doc)->0))
    } else if flat_ok(doc) {
        Some(seq![Source::Flat(doc)])
    } else {
        None
    }
}

/// The flat records under `devices`.
pub open spec fn wrapped_entries(doc: JsonView) -> Option<Seq<JsonView>> {
    match document::field(doc, 0, "devices"@) {
        Some(JsonView::Array(entries)) => if document::is_record(doc, 1, 1) && all_flat(entries) {
            Some(entries)
        } else {
            None
        },
        _ => None,
    }
}

/// The process rows of a document: only the modern format has any.
pub open spec fn document_rows(doc: JsonView) -> Seq<JsonView> {
    if modern_entries(doc) is Some {
        blocks::process_rows(document::field(doc, 1, "processes"@))
    } else {
        Seq::empty()
    }
}

fn copy_present(f: Option<&Json>) -> (r: Option<Json>)
    ensures
        opt_tree(r) == document::present(document::opt_json(f)),
{
    match if_present(f) {
        Some(v) => Some(v.dup()),
        None => None,
    }
}

fn is_board(j: &Json) -> (r: bool)
    ensures
        r == board_ok(j@),
{
    j.is_record(3, 5) && is_text_field(j.field(0, "board_type")) && is_text_field(
        j.field(1, "bus_id"),
    ) && is_text_field(j.field(2, "coords"))
}

fn field_of<'a>(j: Option<&'a Json>, pos: usize, key: &str) -> (r: Option<&'a Json>)
    ensures
        document::opt_json(r) == opt_field(document::opt_json(j), pos as nat, key@),
{
    match j {
        Some(v) => v.field(pos, key),
        None => None,
    }
}

fn number32(f: Option<&Json>) -> (n: Option<u32>)
    ensures
        models::opt_nat32(n) == document::number_of(document::opt_json(f), u32::MAX as nat),
{
    match number_field(f, u32::MAX as u64) {
        Some(v) => Some(v as u32),
        None => None,
    }
}

fn count32(f: Option<&Json>) -> (n: Option<u32>)
    ensures
        models::opt_nat32(n) == document::count_of(document::opt_json(f), u32::MAX as nat),
{
    match count_field(f, u32::MAX as u64) {
        Some(v) => Some(v as u32),
        None => None,
    }
}

/// Decodes an element of `device_info` at a position.
fn decode_modern(j: &Json, idx: usize) -> (r: Option<TTSMIDeviceJSON>)
    ensures
        r is Some <==> modern_ok(j@),
        r matches Some(d) ==> d.decodes(Source::Modern(idx as nat, j@)),
{
    if !j.is_record(5, 5) {
        return None;
    }
    let board = if_present(j.field(0, "board_info"));
    if let Some(b) = board {
        if !is_board(b) {
            return None;
        }
    }
    let telemetry = match if_present(j.field(1, "telemetry")) {
        Some(t) => match decode_telemetry(t) {
            Some(t) => Some(t),
            None => {
                return None;
            },
        },
        None => None,
    };
    let smbus = match if_present(j.field(2, "smbus_telem")) {
        Some(s) => match decode_smbus(s) {
            Some(s) => Some(s),
            None => {
                return None;
            },
        },
        None => None,
    };
    Some(
        TTSMIDeviceJSON {
            index: Some(idx),
            board_type: text_field(field_of(board, 0, "board_type")),
            bus_id: text_field(field_of(board, 1, "bus_id")),
            coords: text_field(field_of(board, 2, "coords")),
            telemetry,
            smbus,
            firmwares: copy_present(j.field(3, "firmwares")),
            limits: copy_present(j.field(4, "limits")),
            pcie_speed: count32(field_of(board, 3, "pcie_speed")),
            pcie_width: count32(field_of(board, 4, "pcie_width")),
        },
    )
}

/// Decodes a flat device record.
fn decode_flat(j: &Json) -> (r: Option<TTSMIDeviceJSON>)
    ensures
        r is Some <==> flat_ok(j@),
        r matches Some(d) ==> d.decodes(Source::Flat(j@)),
{
    if !(j.is_record(8, 10) && is_number_field(j.field(0, "index"), usize::MAX as u64)
        && is_text_field(j.field(1, "board_type")) && is_text_field(j.field(2, "bus_id"))
        && is_text_field(j.field(3, "coords")) && is_number_field(
        j.field(8, "pcie_speed"),
        u32::MAX as u64,
    ) && is_number_field(j.field(9, "pcie_width"), u32::MAX as u64)) {
        return None;
    }
    let telemetry = match if_present(j.field(4, "telemetry")) {
        Some(t) => match decode_telemetry(t) {
            Some(t) => Some(t),
            None => {
                return None;
            },
        },
        None => None,
    };
    let smbus = match if_present(j.field(5, "smbus")) {
        Some(s) => match decode_smbus(s) {
            Some(s) => Some(s),
            None => {
                return None;
            },
        },
        None => None,
    };
    Some(
        TTSMIDeviceJSON {
            index: match number_field(j.field(0, "index"), usize::MAX as u64) {
                Some(v) => Some(v as usize),
                None => None,
            },
            board_type: text_field(j.field(1, "board_type")),
            bus_id: text_field(j.field(2, "bus_id")),
            coords: text_field(j.field(3, "coords")),
            telemetry,
            smbus,
            firmwares: copy_present(j.field(6, "firmwares")),
            limits: copy_present(j.field(7, "limits")),
            pcie_speed: number32(j.field(8, "pcie_speed")),
            pcie_width: number32(j.field(9, "pcie_width")),
        },
    )
}

/// Decodes the elements of a `device_info` array that fit, each under its
/// position, and tells whether all did.
fn decode_modern_list(entries: &Vec<Json>) -> (r: (Vec<TTSMIDeviceJSON>, bool))
    ensures
        all_decode(
            r.0@,
            modern_sources(Json::Array(*entries)@->Array_0, entries@.len()),
        ),
        r.1 == all_modern(Json::Array(*entries)@->Array_0),
{
    let ghost view = Json::Array(*entries)@->Array_0;
    proof {
        document::lemma_array_view(*entries);
    }
    let mut out: Vec<TTSMIDeviceJSON> = Vec::new();
    let mut all: bool = true;
    for i in 0..entries.len()
        invariant
            view.len() == entries@.len(),
            forall|k: int| 0 <= k < entries@.len() ==> #[trigger] view[k] == entries@[k]@,
            all_decode(out@, modern_sources(view, i as nat)),
            all == (forall|k: int| 0 <= k < i ==> modern_ok(#[trigger] view[k])),
    {
        assert(view[i as int] == entries@[i as int]@);
        match decode_modern(&entries[i], i) {
            Some(d) => {
                out.push(d);
            },
            None => {
                all = false;
            },
        }
    }
    (out, all)
}

/// Decodes an array of flat records, unless one of them does not fit.
fn decode_flat_list(entries: &Vec<Json>) -> (r: Option<Vec<TTSMIDeviceJSON>>)
    ensures
        r is Some <==> all_flat(Json::Array(*entries)@->Array_0),
        r matches Some(ds) ==> all_decode(
            ds@,
            flat_sources(Json::Array(*entries)@->Array_0),
        ),
{
    let ghost view = Json::Array(*entries)@->Array_0;
    proof {
        document::lemma_array_view(*entries);
    }
    let mut out: Vec<TTSMIDeviceJSON> = Vec::new();
    for i in 0..entries.len()
        invariant
            view == Json::Array(*entries)@->Array_0,
            view.len() == entries@.len(),
            forall|k: int| 0 <= k < entries@.len() ==> #[trigger] view[k] == entries@[k]@,
            out@.len() == i,
            forall|k: int| 0 <= k < i ==> flat_ok(#[trigger] view[k]),
            forall|k: int| 0 <= k < i ==> (#[trigger] out@[k]).decodes(Source::Flat(view[k])),
    {
        assert(view[i as int] == entries@[i as int]@);
        match decode_flat(&entries[i]) {
            Some(d) => {
                out.push(d);
            },
            None => {
                return None;
            },
        }
    }
    Some(out)
}

/// The devices and processes of a parsed snapshot document, unless it fits
/// none of the formats.
pub fn decode_document(doc: &Json) -> (r: Option<(Vec<TTSMIDeviceJSON>, Vec<DeviceProcess>)>)
    ensures
        r is Some <==> device_sources(doc@) is Some,
        r matches Some((devices, processes)) ==> {
            &&& all_decode(devices@, device_sources(doc@)->0)
            &&& blocks::processes_match(processes@, document_rows(doc@))
        },
{
    let is_object = match doc {
        Json::Object(_) => true,
        _ => false,
    };
    if let Some(Json::Array(entries)) = doc.field(0, "device_info") {
        let (devices, all) = decode_modern_list(entries);
        if is_object || (doc.is_record(1, 2) && all) {
            let processes = decode_processes(doc.field(1, "processes"));
            return Some((devices, processes));
        }
    }
    if let Json::Array(entries) = doc {
        if let Some(devices) = decode_flat_list(entries) {
            return Some((devices, Vec::new()));
        }
    }
    if let Some(Json::Array(entries)) = doc.field(0, "devices") {
        if doc.is_record(1, 1) {
            if let Some(devices) = decode_flat_list(entries) {
                return Some((devices, Vec::new()));
            }
        }
    }
    match decode_flat(doc) {
        Some(d) => {
            let devices: Vec<TTSMIDeviceJSON> = vec![d];
            Some((devices, Vec::new()))
        },
        None => None,
    }
}

/// The devices of a snapshot text.
pub open spec fn text_sources(json: Seq<char>) -> Option<Seq<Source>> {
    match document::json_document(json) {
        Ok(doc) => device_sources(doc),
        Err(_) => None,
    }
}

/// The process rows of a snapshot text.
pub open spec fn text_rows(json: Seq<char>) -> Seq<JsonView> {
    match document::json_document(json) {
        Ok(doc) => document_rows(doc),
        Err(_) => Seq::empty(),
    }
}

/// At most the first 100 characters.
pub open spec fn first_hundred(s: Seq<char>) -> Seq<char> {
    if s.len() > 100 { s.take(100) } else { s }
}

/// Whether `e` is the error for a text that is no snapshot.
pub open spec fn is_parse_error(e: BackendError, json: Seq<char>) -> bool {
    e matches BackendError::ParseError(m) && m@ == "Failed to parse JSON output: "@
        + first_hundred(json)
}

fn parse_error(json_str: &str) -> (e: BackendError)
    ensures
        is_parse_error(e, json_str@),
{
    let chars = chars_of(json_str);
    let n: usize = if chars.len() > 100 { 100 } else { chars.len() };
    let mut m = "Failed to parse JSON output: ".to_owned();
    for i in 0..n
        invariant
            n <= chars@.len(),
            m@ =~= "Failed to parse JSON output: "@ + chars@.take(i as int),
    {
        m.push(chars[i]);
    }
    assert(chars@.take(n as int) =~= first_hundred(json_str@));
    BackendError::ParseError(m)
}

/// Parses a snapshot text into its devices and processes. Every format that
/// `tt-smi` has printed is read:
///
/// - the modern one, `{"device_info": [..], "processes": [..]}`, in which an
///   element that does not decode costs only itself;
/// - an array of flat records;
/// - an object with such an array under `devices`;
/// - a single flat record.
pub fn parse_json_devices(json_str: &str) -> (r: BackendResult<
    (Vec<TTSMIDeviceJSON>, Vec<DeviceProcess>),
>)
    ensures
        r is Ok <==> text_sources(json_str@) is Some,
        r matches Ok((devices, processes)) ==> {
            &&& all_decode(devices@, text_sources(json_str@)->0)
            &&& blocks::processes_match(processes@, text_rows(json_str@))
        },
        r matches Err(e) ==> is_parse_error(e, json_str@),
{
    match parse_json(json_str) {
        Ok(doc) => match decode_document(&doc) {
            Some(r) => Ok(r),
            None => Err(parse_error(json_str)),
        },
        Err(_) => Err(parse_error(json_str)),
    }
}

// Devices

/// The index of a device, 0 where the format gives none.
pub open spec fn header_index(h: Header) -> nat {
    match h.index {
        Some(i) => i,
        None => 0,
    }
}

/// The bus id of a device that reports none.
pub open spec fn default_bus_id(idx: nat) -> Seq<char> {
    "0000:0"@ + text::decimal(if idx == usize::MAX { 0 } else { idx + 1 }) + ":00.0"@
}

/// `s`, or `other` where there is none.
pub open spec fn or_text(s: Option<Seq<char>>, other: Seq<char>) -> Seq<char> {
    match s {
        Some(t) => t,
        None => other,
    }
}

/// The link speed as text.
pub open spec fn gen_text(speed: Option<nat>) -> Option<Seq<char>> {
    match speed {
        Some(g) => Some("Gen"@ + text::decimal(g)),
        None => None,
    }
}

/// The lane width, where it fits a byte.
pub open spec fn lane_width(width: Option<nat>) -> Option<nat> {
    match width {
        Some(w) => if w <= u8::MAX { Some(w) } else { None },
        None => None,
    }
}

/// The view of an optional byte.
pub open spec fn opt_byte(n: Option<u8>) -> Option<nat> {
    match n {
        Some(v) => Some(v as nat),
        None => None,
    }
}

/// Whether `d` is the device that a header describes.
pub open spec fn device_built(d: Device, h: Header) -> bool {
    &&& d.index == header_index(h)
    &&& d.board_type@ == or_text(h.board_type, "unknown"@)
    &&& d.architecture == models::board_architecture(d.board_type@)
    &&& d.bus_id@ == or_text(h.bus_id, default_bus_id(header_index(h)))
    &&& d.coords@ == or_text(h.coords, grid_text(header_index(h), 4))
    &&& blocks::firmwares_match(d.firmwares, h.firmwares)
    &&& blocks::limits_match(d.limits, h.limits)
    &&& text::opt_text(d.pcie_speed) == gen_text(h.pcie_speed)
    &&& opt_byte(d.pcie_width) == lane_width(h.pcie_width)
    &&& d.grid_override is None
    &&& d.channels_override is None
}

/// The name of a PCIe generation.
pub(crate) fn gen_name(speed: Option<u32>) -> (s: Option<String>)
    ensures
        text::opt_text(s) == gen_text(models::opt_nat32(speed)),
{
    match speed {
        Some(g) => {
            let mut s = "Gen".to_owned();
            append_decimal(&mut s, g as u64);
            Some(s)
        },
        None => None,
    }
}

/// A lane width, where it fits a byte.
pub(crate) fn lanes(width: Option<u32>) -> (w: Option<u8>)
    ensures
        opt_byte(w) == lane_width(models::opt_nat32(width)),
{
    match width {
        Some(w) => if w <= 255 {
            Some(w as u8)
        } else {
            None
        },
        None => None,
    }
}

/// A reference to what an option holds.
pub(crate) fn tree_ref(j: &Option<Json>) -> (r: Option<&Json>)
    ensures
        document::opt_json(r) == opt_tree(*j),
{
    match j {
        Some(v) => Some(v),
        None => None,
    }
}

/// Builds a device from its entry in a snapshot. What the entry does not
/// give, its index stands in for.
pub fn device_from_json(json_dev: &TTSMIDeviceJSON) -> (device: Device)
    ensures
        device_built(device, json_dev.header()),
{
    let idx: usize = match json_dev.index {
        Some(i) => i,
        None => 0,
    };
    let board_type = match &json_dev.board_type {
        Some(s) => s.clone(),
        None => "unknown".to_owned(),
    };
    let bus_id = match &json_dev.bus_id {
        Some(s) => s.clone(),
        None => {
            let mut s = "0000:0".to_owned();
            append_decimal(&mut s, idx.wrapping_add(1) as u64);
            s.append(":00.0");
            s
        },
    };
    let coords = match &json_dev.coords {
        Some(s) => s.clone(),
        None => grid_coords(idx, 4),
    };
    let mut device = Device::new(idx, board_type, bus_id, coords);
    device.firmwares = decode_firmwares(tree_ref(&json_dev.firmwares));
    device.limits = decode_limits(tree_ref(&json_dev.limits));
    device.pcie_speed = gen_name(json_dev.pcie_speed);
    device.pcie_width = lanes(json_dev.pcie_width);
    device
}

/// The text `(row,column)` of a position in a grid of the given width.
pub open spec fn grid_text(idx: nat, width: nat) -> Seq<char> {
    seq!['('] + text::decimal(idx / width) + seq![','] + text::decimal(idx % width) + seq![')']
}

/// The text `(row,column)` of a position in a grid of the given width.
pub fn grid_coords(idx: usize, width: usize) -> (s: String)
    requires
        width > 0,
    ensures
        s@ == grid_text(idx as nat, width as nat),
{
    let mut s = String::new();
    s.push('(');
    append_decimal(&mut s, (idx / width) as u64);
    s.push(',');
    append_decimal(&mut s, (idx % width) as u64);
    s.push(')');
    assert(s@ =~= grid_text(idx as nat, width as nat));
    s
}

// Snapshots

/// A fully parsed snapshot.
#[derive(Debug)]
pub struct ParsedSnapshot {
    /// The devices, in the order of the snapshot.
    pub devices: Vec<Device>,
    /// Core telemetry, by device index.
    pub telemetry: HashMap<usize, Telemetry>,
    /// SMBUS telemetry, by device index.
    pub smbus: HashMap<usize, SmbusTelemetry>,
    /// The processes that use the devices.
    pub processes: Vec<DeviceProcess>,
}

/// Where each device with a telemetry block keeps it.
pub open spec fn telemetry_keys(devices: Seq<TTSMIDeviceJSON>) -> Seq<Option<nat>> {
    Seq::new(
        devices.len(),
        |i: int|
            if devices[i].telemetry is Some {
                Some(header_index(devices[i].header()))
            } else {
                None
            },
    )
}

/// Where each device with a SMBUS block keeps it.
pub open spec fn smbus_keys(devices: Seq<TTSMIDeviceJSON>) -> Seq<Option<nat>> {
    Seq::new(
        devices.len(),
        |i: int|
            if devices[i].smbus is Some {
                Some(header_index(devices[i].header()))
            } else {
                None
            },
    )
}

/// Whether the devices are those that the entries describe.
pub open spec fn devices_built(devices: Seq<Device>, entries: Seq<TTSMIDeviceJSON>) -> bool {
    &&& devices.len() == entries.len()
    &&& forall|i: int|
        0 <= i < devices.len() ==> device_built(#[trigger] devices[i], entries[i].header())
}

/// Whether the map holds, under each index, the telemetry of the last of the
/// first `n` entries with that index and a telemetry block.
pub open spec fn telemetry_collected(
    map: Map<usize, Telemetry>,
    entries: Seq<TTSMIDeviceJSON>,
    n: nat,
    now_ms: i64,
) -> bool {
    maps::collected(
        map,
        telemetry_keys(entries),
        n,
        |k: int, t: Telemetry| blocks::telemetry_built(t, entries[k].telemetry->0, now_ms),
    )
}

/// Whether the map holds, under each index, the SMBUS telemetry of the last of
/// the first `n` entries with that index and a SMBUS block.
pub open spec fn smbus_collected(
    map: Map<usize, SmbusTelemetry>,
    entries: Seq<TTSMIDeviceJSON>,
    n: nat,
) -> bool {
    maps::collected(
        map,
        smbus_keys(entries),
        n,
        |k: int, s: SmbusTelemetry| blocks::smbus_built(s, entries[k].smbus->0),
    )
}

/// Builds a snapshot from its entries, read at the given time.
pub fn parsed_from_json_devices(
    json_devices: Vec<TTSMIDeviceJSON>,
    now_ms: i64,
) -> (parsed: ParsedSnapshot)
    ensures
        devices_built(parsed.devices@, json_devices@),
        telemetry_collected(
            parsed.telemetry@,
            json_devices@,
            json_devices@.len(),
            now_ms,
        ),
        smbus_collected(parsed.smbus@, json_devices@, json_devices@.len()),
        parsed.processes@.len() == 0,
{
    let mut devices: Vec<Device> = Vec::new();
    let mut telemetry: HashMap<usize, Telemetry> = HashMap::new();
    let mut smbus: HashMap<usize, SmbusTelemetry> = HashMap::new();
    let ghost entries = json_devices@;
    for json_dev in it: json_devices
        invariant
            it.seq() == entries,
            devices@.len() == it.index(),
            forall|i: int|
                0 <= i < it.index() ==> device_built(#[trigger] devices@[i], entries[i].header()),
            telemetry_collected(telemetry@, entries, it.index() as nat, now_ms),
            smbus_collected(smbus@, entries, it.index() as nat),
    {
        let ghost k = it.index() as int;
        assert(entries[k] == json_dev);
        let idx: usize = match json_dev.index {
            Some(i) => i,
            None => 0,
        };
        devices.push(device_from_json(&json_dev));
        let ghost before = (telemetry@, smbus@);
        if let Some(t) = json_dev.telemetry {
            telemetry.insert(idx, telemetry_from_json(t, now_ms));
        }
        if let Some(s) = json_dev.smbus {
            smbus.insert(idx, smbus_from_json_fields(s));
        }
        proof {
            maps::lemma_collected_step(
                before.0,
                telemetry@,
                telemetry_keys(entries),
                k,
                |k: int, t: Telemetry| blocks::telemetry_built(t, entries[k].telemetry->0, now_ms),
            );
            maps::lemma_collected_step(
                before.1,
                smbus@,
                smbus_keys(entries),
                k,
                |k: int, s: SmbusTelemetry| blocks::smbus_built(s, entries[k].smbus->0),
            );
        }
    }
    ParsedSnapshot { devices, telemetry, smbus, processes: Vec::new() }
}

/// Whether a snapshot is built from the entries at some time.
pub open spec fn snapshot_built(
    parsed: ParsedSnapshot,
    entries: Seq<TTSMIDeviceJSON>,
    now_ms: i64,
) -> bool {
    &&& devices_built(parsed.devices@, entries)
    &&& telemetry_collected(parsed.telemetry@, entries, entries.len(), now_ms)
    &&& smbus_collected(parsed.smbus@, entries, entries.len())
}

/// Whether a snapshot is what a text holds, read at some time.
pub open spec fn snapshot_of(parsed: ParsedSnapshot, json: Seq<char>) -> bool {
    &&& exists|entries: Seq<TTSMIDeviceJSON>, now_ms: i64|
        all_decode(entries, text_sources(json)->0) && #[trigger] snapshot_built(
            parsed,
            entries,
            now_ms,
        )
    &&& blocks::processes_match(parsed.processes@, text_rows(json))
}

/// The time, by `chrono::Utc::now`, in milliseconds since the Unix epoch.
/// Nothing is claimed of it.
#[verifier::external_body]
fn utc_now_ms() -> i64 {
    chrono::Utc::now().timestamp_millis()
}

/// Parses what `tt-smi -s` printed. It is the one parser of the subprocess
/// output and of the frames that a remote box streams.
pub fn parse_tt_smi_snapshot(json_str: &str) -> (r: BackendResult<ParsedSnapshot>)
    ensures
        r is Ok <==> text_sources(json_str@) is Some,
        r matches Ok(parsed) ==> snapshot_of(parsed, json_str@),
        r matches Err(e) ==> is_parse_error(e, json_str@),
{
    match parse_json_devices(json_str) {
        Ok((json_devices, processes)) => {
            let now_ms: i64 = utc_now_ms();
            let ghost entries = json_devices@;
            let mut parsed = parsed_from_json_devices(json_devices, now_ms);
            parsed.processes = processes;
            assert(snapshot_built(parsed, entries, now_ms));
            Ok(parsed)
        },
        Err(e) => Err(e),
    }
}

// The backend

/// Whether a device of this index is in the list.
pub open spec fn has_index(devices: Seq<Device>, index: usize) -> bool {
    exists|i: int| 0 <= i < devices.len() && (#[trigger] devices[i]).index == index
}

/// The list with each of the first `n` devices of `more` appended, unless one
/// of its index is already there.
pub open spec fn appended(devices: Seq<Device>, more: Seq<Device>, n: nat) -> Seq<Device>
    decreases n,
{
    if n == 0 {
        devices
    } else {
        let before = appended(devices, more, (n - 1) as nat);
        if has_index(before, more[n - 1].index) {
            before
        } else {
            before.push(more[n - 1])
        }
    }
}

/// Serves the snapshots of a `tt-smi` that is run on each update.
#[derive(Debug)]
pub struct JSONBackend {
    /// Path to the `tt-smi` executable.
    pub tt_smi_path: String,
    /// Arguments for `tt-smi`.
    pub tt_smi_args: Vec<String>,
    /// The devices seen so far.
    pub devices: Vec<Device>,
    pub telemetry: HashMap<usize, Telemetry>,
    pub smbus_telemetry: HashMap<usize, SmbusTelemetry>,
    /// The processes of the last snapshot.
    pub processes: Vec<DeviceProcess>,
    pub config: BackendConfig,
    /// Consecutive errors.
    pub error_count: usize,
    /// What `tt-smi` printed when a snapshot was last read.
    pub last_raw: Option<String>,
}

/// Whether `b` is a backend that has seen nothing yet.
pub open spec fn fresh_backend(b: JSONBackend, path: Seq<char>, config: BackendConfig) -> bool {
    &&& b.tt_smi_path@ == path
    &&& b.tt_smi_args@.len() == 1
    &&& b.tt_smi_args@[0]@ == "-s"@
    &&& b.devices@.len() == 0
    &&& b.telemetry@ == Map::<usize, Telemetry>::empty()
    &&& b.smbus_telemetry@ == Map::<usize, SmbusTelemetry>::empty()
    &&& b.processes@.len() == 0
    &&& b.config == config
    &&& b.error_count == 0
    &&& b.last_raw is None
}

/// One more, as far as the type counts.
pub open spec fn counted_up(n: usize) -> usize {
    if n == usize::MAX { n } else { (n + 1) as usize }
}

impl JSONBackend {
    /// A backend with the default settings.
    pub fn new(tt_smi_path: &str) -> (b: Self)
        ensures
            fresh_backend(
                b,
                tt_smi_path@,
                (BackendConfig {
                    update_interval_ms: 100,
                    max_consecutive_errors: 10,
                    read_timeout_ms: 5000,
                    verbose: false,
                }),
            ),
    {
        Self::with_config(tt_smi_path, BackendConfig::default())
    }

    /// A backend with the given settings.
    pub fn with_config(tt_smi_path: &str, config: BackendConfig) -> (b: Self)
        ensures
            fresh_backend(b, tt_smi_path@, config),
    {
        JSONBackend {
            tt_smi_path: tt_smi_path.to_owned(),
            tt_smi_args: vec!["-s".to_owned()],
            devices: Vec::new(),
            telemetry: HashMap::new(),
            smbus_telemetry: HashMap::new(),
            processes: Vec::new(),
            config,
            error_count: 0,
            last_raw: None,
        }
    }

    /// Parses a snapshot text into its entries.
    pub fn parse_json(&self, json_str: &str) -> (r: BackendResult<Vec<TTSMIDeviceJSON>>)
        ensures
            r is Ok <==> text_sources(json_str@) is Some,
            r matches Ok(devices) ==> all_decode(devices@, text_sources(json_str@)->0),
            r matches Err(e) ==> is_parse_error(e, json_str@),
    {
        match parse_json_devices(json_str) {
            Ok((devices, _processes)) => Ok(devices),
            Err(e) => Err(e),
        }
    }

    fn knows_index(&self, index: usize) -> (r: bool)
        ensures
            r == has_index(self.devices@, index),
    {
        for i in 0..self.devices.len()
            invariant
                forall|k: int| 0 <= k < i ==> (#[trigger] self.devices@[k]).index != index,
        {
            if self.devices[i].index == index {
                return true;
            }
        }
        false
    }

    /// Takes a snapshot over. Devices are only ever added, by index; readings
    /// replace those of the same index; the processes are those of the
    /// snapshot.
    pub fn merge_parsed(&mut self, parsed: ParsedSnapshot)
        ensures
            final(self).devices@ == appended(
                old(self).devices@,
                parsed.devices@,
                parsed.devices@.len(),
            ),
            final(self).telemetry@ == old(self).telemetry@.union_prefer_right(parsed.telemetry@),
            final(self).smbus_telemetry@ == old(self).smbus_telemetry@.union_prefer_right(
                parsed.smbus@,
            ),
            final(self).processes == parsed.processes,
            final(self).tt_smi_path == old(self).tt_smi_path,
            final(self).tt_smi_args == old(self).tt_smi_args,
            final(self).config == old(self).config,
            final(self).error_count == old(self).error_count,
            final(self).last_raw == old(self).last_raw,
    {
        let ghost start = self.devices@;
        let ghost more = parsed.devices@;
        for device in it: parsed.devices
            invariant
                it.seq() == more,
                self.devices@ == appended(start, more, it.index() as nat),
                self.telemetry == old(self).telemetry,
                self.smbus_telemetry == old(self).smbus_telemetry,
                self.tt_smi_path == old(self).tt_smi_path,
                self.tt_smi_args == old(self).tt_smi_args,
                self.config == old(self).config,
                self.error_count == old(self).error_count,
                self.last_raw == old(self).last_raw,
        {
            assert(more[it.index() as int] == device);
            if !self.knows_index(device.index) {
                self.devices.push(device);
            }
        }
        move_all(&mut self.telemetry, parsed.telemetry);
        move_all(&mut self.smbus_telemetry, parsed.smbus);
        self.processes = parsed.processes;
    }

    /// Takes entries over that were parsed before, read at the given time;
    /// they carry no processes.
    pub fn update_from_json(&mut self, json_devices: Vec<TTSMIDeviceJSON>, now_ms: i64)
        ensures
            exists|parsed: ParsedSnapshot| #[trigger]
                snapshot_built(parsed, json_devices@, now_ms) && {
                    &&& parsed.processes@.len() == 0
                    &&& final(self).devices@ == appended(
                        old(self).devices@,
                        parsed.devices@,
                        parsed.devices@.len(),
                    )
                    &&& final(self).telemetry@ == old(self).telemetry@.union_prefer_right(
                        parsed.telemetry@,
                    )
                    &&& final(self).smbus_telemetry@
                        == old(self).smbus_telemetry@.union_prefer_right(parsed.smbus@)
                    &&& final(self).processes == parsed.processes
                },
            final(self).last_raw == old(self).last_raw,
            final(self).error_count == old(self).error_count,
            final(self).tt_smi_path == old(self).tt_smi_path,
            final(self).tt_smi_args == old(self).tt_smi_args,
            final(self).config == old(self).config,
    {
        let ghost entries = json_devices@;
        let parsed = parsed_from_json_devices(json_devices, now_ms);
        assert(snapshot_built(parsed, entries, now_ms));
        self.merge_parsed(parsed);
    }

    /// Reads what `tt-smi -s` printed. A text that is no snapshot changes
    /// nothing but the error count; what was read before stays served.
    pub fn apply_raw_snapshot(&mut self, json_output: String) -> (r: BackendResult<()>)
        ensures
            r is Ok <==> text_sources(json_output@) is Some,
            r is Ok ==> {
                &&& exists|parsed: ParsedSnapshot| #[trigger]
                    snapshot_of(parsed, json_output@) && {
                        &&& final(self).devices@ == appended(
                            old(self).devices@,
                            parsed.devices@,
                            parsed.devices@.len(),
                        )
                        &&& final(self).telemetry@ == old(self).telemetry@.union_prefer_right(
                            parsed.telemetry@,
                        )
                        &&& final(self).smbus_telemetry@
                            == old(self).smbus_telemetry@.union_prefer_right(parsed.smbus@)
                        &&& final(self).processes == parsed.processes
                    }
                &&& final(self).last_raw == Some(json_output)
                &&& final(self).error_count == 0
            },
            r matches Err(e) ==> {
                &&& is_parse_error(e, json_output@)
                &&& *final(self) == (JSONBackend {
                    error_count: counted_up(old(self).error_count),
                    ..*old(self)
                })
            },
            final(self).tt_smi_path == old(self).tt_smi_path,
            final(self).tt_smi_args == old(self).tt_smi_args,
            final(self).config == old(self).config,
    {
        match parse_tt_smi_snapshot(json_output.as_str()) {
            Ok(parsed) => {
                self.merge_parsed(parsed);
                self.last_raw = Some(json_output);
                self.error_count = 0;
                Ok(())
            },
            Err(e) => {
                self.error_count = self.error_count.saturating_add(1);
                Err(e)
            },
        }
    }

    /// Reads the first snapshot, which must show a device.
    pub fn init_from(&mut self, json_output: &str) -> (r: BackendResult<()>)
        ensures
            match r {
                Ok(_) => text_sources(json_output@) is Some && final(self).devices@.len() > 0,
                Err(e) => if text_sources(json_output@) is Some {
                    &&& final(self).devices@.len() == 0
                    &&& e matches BackendError::DeviceNotFound(m) && m@
                        == "No devices found from tt-smi output"@
                } else {
                    is_parse_error(e, json_output@) && *final(self) == *old(self)
                },
            },
            text_sources(json_output@) is Some ==> exists|parsed: ParsedSnapshot| #[trigger]
                snapshot_of(parsed, json_output@) && final(self).devices@ == appended(
                    old(self).devices@,
                    parsed.devices@,
                    parsed.devices@.len(),
                ) && final(self).telemetry@ == old(self).telemetry@.union_prefer_right(
                    parsed.telemetry@,
                ) && final(self).smbus_telemetry@
                    == old(self).smbus_telemetry@.union_prefer_right(parsed.smbus@)
                    && final(self).processes == parsed.processes,
            final(self).last_raw == old(self).last_raw,
            final(self).error_count == old(self).error_count,
            final(self).tt_smi_path == old(self).tt_smi_path,
            final(self).tt_smi_args == old(self).tt_smi_args,
            final(self).config == old(self).config,
    {
        match parse_tt_smi_snapshot(json_output) {
            Ok(parsed) => {
                self.merge_parsed(parsed);
                if self.devices.len() == 0 {
                    Err(
                        BackendError::DeviceNotFound(
                            "No devices found from tt-smi output".to_owned(),
                        ),
                    )
                } else {
                    Ok(())
                }
            },
            Err(e) => Err(e),
        }
    }

    /// Counts a failed run of `tt-smi` and tells how many milliseconds to wait
    /// before the next: nothing after the first failure, then twice as long
    /// each time, starting at 200 and never above 3200.
    pub fn note_failure(&mut self) -> (backoff_ms: u64)
        ensures
            final(self).error_count == counted_up(old(self).error_count),
            *final(self) == (JSONBackend {
                error_count: final(self).error_count,
                ..*old(self)
            }),
            backoff_ms == backoff(final(self).error_count),
    {
        self.error_count = self.error_count.saturating_add(1);
        proof {
            vstd::arithmetic::power2::lemma2_to64();
        }
        if self.error_count <= 1 {
            0
        } else if self.error_count == 2 {
            200
        } else if self.error_count == 3 {
            400
        } else if self.error_count == 4 {
            800
        } else if self.error_count == 5 {
            1600
        } else {
            3200
        }
    }

    /// The processes that use the devices.
    pub fn device_processes(&self) -> (ps: &Vec<DeviceProcess>)
        ensures
            *ps == self.processes,
    {
        &self.processes
    }
}

/// The wait after so many failures in a row: a tenth of a second doubled for
/// each failure after the first, up to five times, and at most five seconds.
pub open spec fn backoff(errors: usize) -> nat {
    if errors <= 1 {
        0
    } else {
        let doublings: nat = if errors - 1 < 5 { (errors - 1) as nat } else { 5 };
        let ms = 100 * vstd::arithmetic::power2::pow2(doublings);
        if ms <= 5000 { ms } else { 5000 }
    }
}

impl TelemetryBackend for JSONBackend {
    open spec fn device_list(&self) -> Seq<Device> {
        self.devices@
    }

    open spec fn telemetry_map(&self) -> Map<usize, Telemetry> {
        self.telemetry@
    }

    open spec fn smbus_map(&self) -> Map<usize, SmbusTelemetry> {
        self.smbus_telemetry@
    }

    open spec fn info_text(&self) -> Seq<char> {
        "JSON ("@ + text::decimal(self.devices@.len()) + " via "@ + self.tt_smi_path@ + ")"@
    }

    open spec fn snapshot_text(&self) -> Option<Seq<char>> {
        text::opt_text(self.last_raw)
    }

    fn devices(&self) -> (devices: &Vec<Device>) {
        &self.devices
    }

    fn telemetry(&self, device_idx: usize) -> (t: Option<&Telemetry>) {
        self.telemetry.get(&device_idx)
    }

    fn smbus_telemetry(&self, device_idx: usize) -> (s: Option<&SmbusTelemetry>) {
        self.smbus_telemetry.get(&device_idx)
    }

    fn backend_info(&self) -> (s: String) {
        let mut s = "JSON (".to_owned();
        append_decimal(&mut s, self.devices.len() as u64);
        s.append(" via ");
        s.append(self.tt_smi_path.as_str());
        s.append(")");
        s
    }

    fn snapshot_json(&self) -> (s: Option<String>) {
        models::copy_text(&self.last_raw)
    }
}

/// Whether no two devices share an index.
pub open spec fn distinct_indices(devices: Seq<Device>) -> bool {
    forall|i: int, j: int|
        0 <= i < j < devices.len() ==> (#[trigger] devices[i]).index != (
        #[trigger] devices[j]).index
}

/// Whether a device of a snapshot is new: its index is not known, and none
/// before it in the snapshot has that index.
pub open spec fn is_newcomer(devices: Seq<Device>, more: Seq<Device>, i: int) -> bool {
    &&& !has_index(devices, more[i].index)
    &&& forall|j: int| 0 <= j < i ==> (#[trigger] more[j]).index != more[i].index
}

/// The new ones among the first `n` devices of a snapshot, in its order.
pub open spec fn newcomers(devices: Seq<Device>, more: Seq<Device>, n: nat) -> Seq<Device>
    decreases n,
{
    if n == 0 {
        Seq::empty()
    } else if is_newcomer(devices, more, n - 1) {
        newcomers(devices, more, (n - 1) as nat).push(more[n - 1])
    } else {
        newcomers(devices, more, (n - 1) as nat)
    }
}

proof fn lemma_appended_indices(devices: Seq<Device>, more: Seq<Device>, n: nat, index: usize)
    requires
        n <= more.len(),
    ensures
        has_index(appended(devices, more, n), index) == (has_index(devices, index) || exists|j: int|
            0 <= j < n && (#[trigger] more[j]).index == index),
    decreases n,
{
    if n > 0 {
        lemma_appended_indices(devices, more, (n - 1) as nat, index);
        let before = appended(devices, more, (n - 1) as nat);
        let after = appended(devices, more, n);
        if has_index(before, index) {
            let k = choose|k: int| 0 <= k < before.len() && (#[trigger] before[k]).index == index;
            assert(after[k].index == index);
        }
        if more[n - 1].index == index && !has_index(before, index) {
            assert(after[before.len() as int].index == index);
        }
        if has_index(after, index) && !has_index(before, index) {
            let k = choose|k: int| 0 <= k < after.len() && (#[trigger] after[k]).index == index;
            if k < before.len() {
                assert(before[k].index == index);
            }
            assert(more[n - 1].index == index);
        }
    }
}

/// Taking a snapshot over only ever adds devices: those known before keep
/// their places, the new ones follow in the order of the snapshot, and every
/// index of the snapshot is known afterwards. Where no index occurred twice,
/// none does.
pub proof fn law_devices_are_only_added(devices: Seq<Device>, more: Seq<Device>, n: nat)
    requires
        n <= more.len(),
    ensures
        appended(devices, more, n) == devices + newcomers(devices, more, n),
        forall|i: int|
            0 <= i < devices.len() ==> #[trigger] appended(devices, more, n)[i] == devices[i],
        forall|i: int|
            0 <= i < n ==> has_index(appended(devices, more, n), (#[trigger] more[i]).index),
        distinct_indices(devices) ==> distinct_indices(appended(devices, more, n)),
    decreases n,
{
    if n > 0 {
        law_devices_are_only_added(devices, more, (n - 1) as nat);
        lemma_appended_indices(devices, more, (n - 1) as nat, more[n - 1].index);
        let before = appended(devices, more, (n - 1) as nat);
        let after = appended(devices, more, n);
        assert(has_index(before, more[n - 1].index) == !is_newcomer(devices, more, n - 1));
        assert(after =~= devices + newcomers(devices, more, n));
        assert forall|i: int| 0 <= i < n implies has_index(after, (#[trigger] more[i]).index) by {
            lemma_appended_indices(devices, more, n, more[i].index);
        }
    } else {
        assert(devices =~= devices + newcomers(devices, more, 0));
    }
}

/// Every device of a modern snapshot keeps its position in `device_info` as
/// its index, whatever elements around it did not decode.
pub proof fn law_positions_are_kept(entries: Seq<JsonView>, n: nat)
    requires
        n <= entries.len(),
    ensures
        forall|i: int|
            0 <= i < modern_sources(entries, n).len() ==> {
                let s = #[trigger] modern_sources(entries, n)[i];
                s matches Source::Modern(p, j) && p < n && j == entries[p as int] && modern_ok(j)
                    && s.header().index == Some(p)
            },
        forall|p: int|
            0 <= p < n && modern_ok(#[trigger] entries[p]) ==> modern_sources(
                entries,
                n,
            ).contains(Source::Modern(p as nat, entries[p])),
    decreases n,
{
    if n > 0 {
        law_positions_are_kept(entries, (n - 1) as nat);
        let before = modern_sources(entries, (n - 1) as nat);
        let after = modern_sources(entries, n);
        assert forall|p: int| 0 <= p < n && modern_ok(#[trigger] entries[p]) implies after.contains(
            Source::Modern(p as nat, entries[p]),
        ) by {
            if p < n - 1 {
                let k = choose|k: int|
                    0 <= k < before.len() && before[k] == Source::Modern(p as nat, entries[p]);
                assert(after[k] == before[k]);
            } else {
                assert(after.last() == Source::Modern(p as nat, entries[p]));
            }
        }
    }
}

/// A document with a `device_info` array never collapses into a single
/// device: it yields as many devices as elements decode.
pub proof fn law_modern_documents_never_collapse(doc: JsonView)
    requires
        doc is Object,
        document::member(doc, "device_info"@) matches Some(JsonView::Array(_)),
    ensures
        device_sources(doc) == Some(
            modern_sources(
                document::member(doc, "device_info"@)->0->Array_0,
                document::member(doc, "device_info"@)->0->Array_0.len(),
            ),
        ),
{
}

// From a document to what is served

/// Whether no later device of a document has a block of its own under the same
/// index.
pub open spec fn is_last_with(
    sources: Seq<Source>,
    k: int,
    block: spec_fn(Source) -> Option<JsonView>,
) -> bool {
    forall|l: int|
        k < l < sources.len() && block(#[trigger] sources[l]) is Some ==> header_index(
            sources[l].header(),
        ) != header_index(sources[k].header())
}

/// The core telemetry and the SMBUS telemetry of a device are those of its own
/// entry, served under its index: the last entry with that index and such a
/// block counts.
pub proof fn law_blocks_are_served_under_their_index(
    parsed: ParsedSnapshot,
    json: Seq<char>,
    sources: Seq<Source>,
    k: int,
    idx: usize,
)
    requires
        snapshot_of(parsed, json),
        text_sources(json) == Some(sources),
        0 <= k < sources.len(),
        header_index(sources[k].header()) == idx,
    ensures
        sources[k].telemetry() matches Some(j) && is_last_with(
            sources,
            k,
            |s: Source| s.telemetry(),
        ) && j is Object ==> parsed.telemetry@.contains_key(idx) && {
            let t = parsed.telemetry@[idx];
            &&& text::opt_text(t.voltage) == document::reading_of(
                document::member(sources[k].telemetry()->0, "voltage"@),
            )
            &&& text::opt_text(t.current) == document::reading_of(
                document::member(sources[k].telemetry()->0, "current"@),
            )
            &&& text::opt_text(t.power) == document::reading_of(
                document::member(sources[k].telemetry()->0, "power"@),
            )
            &&& text::opt_text(t.asic_temperature) == document::reading_of(
                document::member(sources[k].telemetry()->0, "asic_temperature"@),
            )
            &&& models::opt_nat32(t.aiclk) == document::count_of(
                document::member(sources[k].telemetry()->0, "aiclk"@),
                u32::MAX as nat,
            )
            &&& models::opt_nat32(t.heartbeat) == document::count_of(
                document::member(sources[k].telemetry()->0, "heartbeat"@),
                u32::MAX as nat,
            )
            &&& text::opt_text(t.board_power) == document::reading_of(
                document::member(sources[k].telemetry()->0, "board_power"@),
            )
        },
        sources[k].smbus() matches Some(j) && is_last_with(sources, k, |s: Source| s.smbus())
            ==> parsed.smbus@.contains_key(idx) && exists|b: SmbusTelemetryJSON| #[trigger]
            blocks::smbus_matches(b, sources[k].smbus()->0) && blocks::smbus_built(
                parsed.smbus@[idx],
                b,
            ),
        0 <= k < parsed.devices@.len() && device_built(parsed.devices@[k], sources[k].header()),
        parsed.devices@.len() == sources.len(),
{
    let (entries, now_ms) = choose|entries: Seq<TTSMIDeviceJSON>, now_ms: i64|
        all_decode(entries, text_sources(json)->0) && #[trigger] snapshot_built(
            parsed,
            entries,
            now_ms,
        );
    assert(entries[k].decodes(sources[k]));
    assert(device_built(parsed.devices@[k], entries[k].header()));
    if sources[k].telemetry() is Some && is_last_with(sources, k, |s: Source| s.telemetry()) {
        let keys = telemetry_keys(entries);
        assert forall|l: int| k < l < keys.len() implies #[trigger] keys[l] != Some(idx as nat) by {
            assert(entries[l].decodes(sources[l]));
            let block = |s: Source| s.telemetry();
            assert(block(sources[l]) == sources[l].telemetry());
        }
        let right = |k: int, t: Telemetry|
            blocks::telemetry_built(t, entries[k].telemetry->0, now_ms);
        maps::lemma_collected_at(parsed.telemetry@, keys, right, k, idx);
        blocks::law_telemetry_is_served_by_name(
            parsed.telemetry@[idx],
            entries[k].telemetry->0,
            sources[k].telemetry()->0,
            now_ms,
        );
    }
    if sources[k].smbus() is Some && is_last_with(sources, k, |s: Source| s.smbus()) {
        let keys = smbus_keys(entries);
        assert forall|l: int| k < l < keys.len() implies #[trigger] keys[l] != Some(idx as nat) by {
            assert(entries[l].decodes(sources[l]));
            let block = |s: Source| s.smbus();
            assert(block(sources[l]) == sources[l].smbus());
        }
        let right = |k: int, s: SmbusTelemetry| blocks::smbus_built(s, entries[k].smbus->0);
        maps::lemma_collected_at(parsed.smbus@, keys, right, k, idx);
        assert(blocks::smbus_matches(entries[k].smbus->0, sources[k].smbus()->0));
    }
}

/// The indices of the elements that decode ascend.
pub proof fn lemma_modern_indices(entries: Seq<JsonView>, n: nat)
    requires
        n <= entries.len(),
    ensures
        forall|i: int|
            0 <= i < modern_sources(entries, n).len() ==> header_index(
                (#[trigger] modern_sources(entries, n)[i]).header(),
            ) < n,
        forall|i: int, l: int|
            #![trigger modern_sources(entries, n)[i], modern_sources(entries, n)[l]]
            0 <= i < l < modern_sources(entries, n).len() ==> header_index(
                modern_sources(entries, n)[i].header(),
            ) < header_index(modern_sources(entries, n)[l].header()),
    decreases n,
{
    if n > 0 {
        lemma_modern_indices(entries, (n - 1) as nat);
    }
}

/// Every element of `device_info` that decodes is a device of its own, under its
/// position: its telemetry is that of its `telemetry` block and its SMBUS
/// telemetry that of its `smbus_telem` block, each member under its own name, and
/// what its `board_info` says of it is what its device says.
pub proof fn law_modern_snapshots_are_served_by_name(
    parsed: ParsedSnapshot,
    json: Seq<char>,
    doc: JsonView,
    entries: Seq<JsonView>,
    p: usize,
)
    requires
        snapshot_of(parsed, json),
        document::json_document(json) == Ok::<JsonView, Seq<char>>(doc),
        doc is Object,
        document::member(doc, "device_info"@) == Some(JsonView::Array(entries)),
        p < entries.len(),
        entries[p as int] is Object,
        modern_ok(entries[p as int]),
    ensures
        document::present(document::member(entries[p as int], "telemetry"@)) matches Some(j)
            && j is Object ==> parsed.telemetry@.contains_key(p) && {
            let t = parsed.telemetry@[p];
            let j = document::member(entries[p as int], "telemetry"@)->0;
            &&& text::opt_text(t.voltage) == document::reading_of(
                document::member(j, "voltage"@),
            )
            &&& text::opt_text(t.current) == document::reading_of(
                document::member(j, "current"@),
            )
            &&& text::opt_text(t.power) == document::reading_of(
                document::member(j, "power"@),
            )
            &&& text::opt_text(t.asic_temperature) == document::reading_of(
                document::member(j, "asic_temperature"@),
            )
            &&& models::opt_nat32(t.aiclk) == document::count_of(
                document::member(j, "aiclk"@),
                u32::MAX as nat,
            )
            &&& models::opt_nat32(t.heartbeat) == document::count_of(
                document::member(j, "heartbeat"@),
                u32::MAX as nat,
            )
            &&& text::opt_text(t.board_power) == document::reading_of(
                document::member(j, "board_power"@),
            )
        },
        document::present(document::member(entries[p as int], "telemetry"@)) is None
            ==> !parsed.telemetry@.contains_key(p),
        document::present(document::member(entries[p as int], "smbus_telem"@)) matches Some(j)
            ==> parsed.smbus@.contains_key(p) && exists|b: SmbusTelemetryJSON| #[trigger]
            blocks::smbus_matches(
                b,
                document::member(entries[p as int], "smbus_telem"@)->0,
            ) && blocks::smbus_built(parsed.smbus@[p], b),
        document::present(document::member(entries[p as int], "smbus_telem"@)) is None
            ==> !parsed.smbus@.contains_key(p),
        exists|k: int|
            0 <= k < parsed.devices@.len() && (#[trigger] parsed.devices@[k]).index == p
                && device_built(
                parsed.devices@[k],
                Source::Modern(p as nat, entries[p as int]).header(),
            ),
{
    let sources = modern_sources(entries, entries.len());
    assert(text_sources(json) == Some(sources));
    law_positions_are_kept(entries, entries.len());
    lemma_modern_indices(entries, entries.len());
    let src = Source::Modern(p as nat, entries[p as int]);
    assert(sources.contains(src));
    let k = choose|k: int| 0 <= k < sources.len() && sources[k] == src;
    assert(is_last_with(sources, k, |s: Source| s.telemetry()));
    assert(is_last_with(sources, k, |s: Source| s.smbus()));
    law_blocks_are_served_under_their_index(parsed, json, sources, k, p);
    assert(parsed.devices@[k].index == p);
    let (es, now_ms) = choose|es: Seq<TTSMIDeviceJSON>, now_ms: i64|
        all_decode(es, text_sources(json)->0) && #[trigger] snapshot_built(parsed, es, now_ms);
    if src.telemetry() is None {
        maps::lemma_last_at(telemetry_keys(es), p as nat, es.len());
        assert forall|l: int| 0 <= l < es.len() implies #[trigger] telemetry_keys(es)[l] != Some(
            p as nat,
        ) by {
            assert(es[l].decodes(sources[l]));
            if l != k {
                assert(header_index(sources[l].header()) != header_index(sources[k].header()));
            }
        }
    }
    if src.smbus() is None {
        maps::lemma_last_at(smbus_keys(es), p as nat, es.len());
        assert forall|l: int| 0 <= l < es.len() implies #[trigger] smbus_keys(es)[l] != Some(
            p as nat,
        ) by {
            assert(es[l].decodes(sources[l]));
            if l != k {
                assert(header_index(sources[l].header()) != header_index(sources[k].header()));
            }
        }
    }
}

/// An element of `device_info` decodes where its blocks are objects: a board
/// whose texts are texts, a telemetry block of any members, and a SMBUS block
/// whose registers are texts. A block may be null or missing.
pub proof fn law_ordinary_elements_decode(j: JsonView)
    requires
        j is Object,
        document::present(document::member(j, "board_info"@)) matches Some(b) ==> b is Object
            && document::text_ok(document::member(b, "board_type"@)) && document::text_ok(
            document::member(b, "bus_id"@),
        ) && document::text_ok(document::member(b, "coords"@)),
        document::present(document::member(j, "telemetry"@)) matches Some(t) ==> t is Object,
        document::present(document::member(j, "smbus_telem"@)) matches Some(s) ==> s is Object && (
        forall|key: Seq<char>| document::text_ok(#[trigger] document::member(s, key))),
    ensures
        modern_ok(j),
{
}

/// The device of an entry is what the entry says of it: under its index, with
/// its board type and the architecture that this names, its bus id, its place,
/// and its link. What it does not say, its index stands in for.
pub proof fn law_devices_are_what_their_entries_say(d: Device, h: Header)
    requires
        device_built(d, h),
    ensures
        d.index == (if h.index is Some { h.index->0 } else { 0 }),
        h.board_type is Some ==> d.board_type@ == h.board_type->0,
        h.board_type is None ==> d.board_type@ == "unknown"@,
        d.architecture == models::board_architecture(d.board_type@),
        h.bus_id is Some ==> d.bus_id@ == h.bus_id->0,
        h.coords is Some ==> d.coords@ == h.coords->0,
        h.pcie_speed is None ==> d.pcie_speed is None,
        h.pcie_speed is Some ==> d.pcie_speed is Some && d.pcie_speed->0@ == "Gen"@
            + text::decimal(h.pcie_speed->0),
        d.pcie_width is Some <==> h.pcie_width is Some && h.pcie_width->0 <= 255,
        d.pcie_width is Some ==> d.pcie_width->0 == h.pcie_width->0,
        h.bus_id is None && d.index < usize::MAX ==> d.bus_id@ == "0000:0"@ + text::decimal(
            (d.index + 1) as nat,
        ) + ":00.0"@,
        h.coords is None ==> d.coords@ == "("@ + text::decimal((d.index / 4) as nat) + ","@
            + text::decimal((d.index % 4) as nat) + ")"@,
{
    reveal_strlit("(");
    reveal_strlit(",");
    reveal_strlit(")");
    if h.coords is None {
        assert(d.coords@ =~= "("@ + text::decimal((d.index / 4) as nat) + ","@ + text::decimal(
            (d.index % 4) as nat,
        ) + ")"@);
    }
}

/// What an entry says of its device stands in its members of these names: an
/// element of `device_info` in its `board_info`, a flat record in itself.
pub proof fn law_headers_are_read_by_name(idx: nat, j: JsonView)
    requires
        j is Object,
    ensures
        document::member(j, "board_info"@) matches Some(b) && b is Object ==> {
            let h = Source::Modern(idx, j).header();
            let b = document::member(j, "board_info"@)->0;
            &&& h.index == Some(idx)
            &&& h.board_type == document::text_of(document::member(b, "board_type"@))
            &&& h.bus_id == document::text_of(document::member(b, "bus_id"@))
            &&& h.coords == document::text_of(document::member(b, "coords"@))
            &&& h.pcie_speed == document::count_of(
                document::member(b, "pcie_speed"@),
                u32::MAX as nat,
            )
            &&& h.pcie_width == document::count_of(
                document::member(b, "pcie_width"@),
                u32::MAX as nat,
            )
            &&& h.firmwares == document::present(document::member(j, "firmwares"@))
            &&& h.limits == document::present(document::member(j, "limits"@))
        },
        ({
            let h = Source::Flat(j).header();
            &&& h.index == document::number_of(
                document::member(j, "index"@),
                usize::MAX as nat,
            )
            &&& h.board_type == document::text_of(document::member(j, "board_type"@))
            &&& h.bus_id == document::text_of(document::member(j, "bus_id"@))
            &&& h.coords == document::text_of(document::member(j, "coords"@))
            &&& h.pcie_speed == document::number_of(
                document::member(j, "pcie_speed"@),
                u32::MAX as nat,
            )
            &&& h.pcie_width == document::number_of(
                document::member(j, "pcie_width"@),
                u32::MAX as nat,
            )
            &&& h.firmwares == document::present(document::member(j, "firmwares"@))
            &&& h.limits == document::present(document::member(j, "limits"@))
            &&& Source::Flat(j).telemetry() == document::present(
                document::member(j, "telemetry"@),
            )
            &&& Source::Flat(j).smbus() == document::present(document::member(j, "smbus"@))
        }),
{
}

/// The older formats agree: a list of flat records gives the same devices bare,
/// under `devices`, and, where there is but one, on its own.
pub proof fn law_flat_formats_agree(doc: JsonView, records: Seq<JsonView>)
    requires
        all_flat(records),
        forall|i: int| 0 <= i < records.len() ==> (#[trigger] records[i]) is Object,
        doc is Object,
        document::member(doc, "device_info"@) is None,
    ensures
        device_sources(JsonView::Array(records)) == Some(flat_sources(records)),
        document::member(doc, "devices"@) == Some(JsonView::Array(records)) ==> device_sources(doc)
            == device_sources(JsonView::Array(records)),
        flat_ok(doc) && document::member(doc, "devices"@) is None ==> device_sources(doc)
            == device_sources(JsonView::Array(seq![doc])),
{
    if records.len() > 0 {
        assert(records[0] is Object);
    }
    if flat_ok(doc) {
        let one = seq![doc];
        assert(all_flat(one));
        assert(flat_sources(one) =~= seq![Source::Flat(doc)]);
    }
}

/// The wait starts with the second failure in a row, at two tenths of a second, doubles
/// with each up to the sixth, and stays there; no failure is forgotten.
pub proof fn law_waits_double(errors: usize)
    ensures
        backoff(0) == 0 && backoff(1) == 0,
        backoff(2) == 200,
        2 <= errors <= 5 ==> backoff((errors + 1) as usize) == 2 * backoff(errors),
        errors >= 6 ==> backoff(errors) == backoff(6),
        errors < usize::MAX ==> counted_up(errors) == errors + 1,
        counted_up(errors) >= errors,
{
    vstd::arithmetic::power2::lemma2_to64();
}

/// The error for a text that is no snapshot shows how the text begins, and not more than
/// a hundred characters of it.
pub proof fn law_parse_errors_show_the_text(e: BackendError, json: Seq<char>)
    requires
        is_parse_error(e, json),
    ensures
        e matches BackendError::ParseError(m) && {
            let shown = m@.skip("Failed to parse JSON output: "@.len() as int);
            &&& m@.take("Failed to parse JSON output: "@.len() as int)
                == "Failed to parse JSON output: "@
            &&& shown.len() == if json.len() < 100 { json.len() } else { 100 }
            &&& shown == json.take(shown.len() as int)
        },
{
    let start = "Failed to parse JSON output: "@;
    assert((start + first_hundred(json)).skip(start.len() as int) =~= first_hundred(json));
    assert((start + first_hundred(json)).take(start.len() as int) =~= start);
    assert(json.take(json.len() as int) =~= json);
}

} // verus!
