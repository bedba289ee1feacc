//! State of the backend that reads the kernel's hwmon sensors. The
//! application reads the files; what becomes of their contents is decided
//! here.

use std::collections::HashMap;

use vstd::prelude::*;

use crate::backend::hwmon;
use crate::backend::hwmon::{
    candidate_device, millionths_text, parse_int32, parse_int64, parse_whole, thousandths_text,
    CandidateView, EntryView, HwmonCandidate,
};
use crate::backend::parts;
use crate::backend::parts::normalize_bus_id;
use crate::backend::pcie_counters;
use crate::backend::pcie_counters::{PcieBandwidth, PcieCounterSnapshot, PcieRateTracker};
use crate::backend::{BackendConfig, TelemetryBackend};
use crate::document;
use crate::document::{if_present, is_text_field, parse_json, text_field, Json, JsonView};
use crate::error::{BackendError, BackendResult};
use crate::maps::TextMap;
use crate::models;
use crate::models::{
    copy_text, Device, DeviceLimits, FirmwaresInfo, SmbusTelemetry, Telemetry,
};
use crate::text;
use crate::text::{decimal_text, parse_unsigned, trim};

verus! {

broadcast use vstd::std_specs::hash::group_hash_axioms;

/// How often the slow lane runs, in nanoseconds.
pub const SLOW_LANE_INTERVAL_NS: u64 = 1_000_000_000;

/// Whether the slow lane is due: it has never run, or the interval has passed
/// since it did. A clock that went backwards counts as no time.
pub fn slow_lane_due(last_ns: Option<u64>, now_ns: u64, interval_ns: u64) -> (due: bool)
    ensures
        due == match last_ns {
            None => true,
            Some(prev) => (if now_ns >= prev { now_ns - prev } else { 0 }) >= interval_ns,
        },
{
    match last_ns {
        None => true,
        Some(prev) => now_ns.saturating_sub(prev) >= interval_ns,
    }
}

/// What the four fast sensors of a device hold, as read.
#[derive(Debug)]
pub struct HwmonFiles {
    /// Millidegrees Celsius.
    pub temperature: Option<String>,
    /// Millivolts.
    pub voltage: Option<String>,
    /// Microwatts.
    pub power: Option<String>,
    /// Milliamperes.
    pub current: Option<String>,
}

/// What the driver's class attributes of a device hold, as read.
#[derive(Debug)]
pub struct ClassAttrs {
    pub aiclk: Option<String>,
    pub axiclk: Option<String>,
    pub arcclk: Option<String>,
    pub heartbeat: Option<String>,
    pub therm_trip_count: Option<String>,
    pub serial: Option<String>,
    pub m3app_fw_ver: Option<String>,
}

/// The text of an attribute: trimmed, and absent where nothing is left.
pub open spec fn attr_text(f: Option<Seq<char>>) -> Option<Seq<char>> {
    match f {
        Some(s) => if text::trimmed(s).len() == 0 { None } else { Some(text::trimmed(s)) },
        None => None,
    }
}

/// Reads a text attribute: trimmed, and absent where nothing is left.
pub fn read_string_attr(f: &Option<String>) -> (r: Option<String>)
    ensures
        text::opt_text(r) == attr_text(text::opt_text(*f)),
{
    match f {
        Some(s) => {
            let t = trim(s.as_str());
            if t.as_str().is_empty() {
                None
            } else {
                Some(t)
            }
        },
        None => None,
    }
}

/// A member of optional attributes.
pub open spec fn opt_attr(a: Option<ClassAttrs>, pick: spec_fn(ClassAttrs) -> Option<String>) -> Option<
    Seq<char>,
> {
    match a {
        Some(c) => attr_text(text::opt_text(pick(c))),
        None => None,
    }
}

/// The decimal text of a number that a file holds.
pub open spec fn number_attr(f: Option<Seq<char>>) -> Option<Seq<char>> {
    match hwmon::opt_whole(f) {
        Some(n) => Some(text::decimal(n)),
        None => None,
    }
}

/// Whether `s` is the SMBUS telemetry that the attributes and the fan file
/// give, and nothing besides.
pub open spec fn synthesized(
    s: SmbusTelemetry,
    attrs: Option<ClassAttrs>,
    fan: Option<Seq<char>>,
) -> bool {
    &&& text::opt_text(s.aiclk) == opt_attr(attrs, |a: ClassAttrs| a.aiclk)
    &&& text::opt_text(s.axiclk) == opt_attr(attrs, |a: ClassAttrs| a.axiclk)
    &&& text::opt_text(s.arcclk) == opt_attr(attrs, |a: ClassAttrs| a.arcclk)
    &&& text::opt_text(s.arc0_health) == opt_attr(attrs, |a: ClassAttrs| a.heartbeat)
    &&& text::opt_text(s.therm_trip_count) == opt_attr(
        attrs,
        |a: ClassAttrs| a.therm_trip_count,
    )
    &&& text::opt_text(s.board_id) == opt_attr(attrs, |a: ClassAttrs| a.serial)
    &&& text::opt_text(s.m3_app_fw_version) == opt_attr(attrs, |a: ClassAttrs| a.m3app_fw_ver)
    &&& text::opt_text(s.fan_speed) == number_attr(fan)
    &&& models::smbus_is_empty(
        SmbusTelemetry {
            aiclk: None,
            axiclk: None,
            arcclk: None,
            arc0_health: None,
            therm_trip_count: None,
            board_id: None,
            m3_app_fw_version: None,
            fan_speed: None,
            ..s
        },
    )
}

/// Builds SMBUS telemetry out of the class attributes and the fan file.
pub fn synthesize_smbus(attrs: Option<&ClassAttrs>, fan: &Option<String>) -> (s: SmbusTelemetry)
    ensures
        synthesized(s, owned_attrs(attrs), text::opt_text(*fan)),
{
    let mut s = SmbusTelemetry::default();
    if let Some(a) = attrs {
        s.aiclk = read_string_attr(&a.aiclk);
        s.axiclk = read_string_attr(&a.axiclk);
        s.arcclk = read_string_attr(&a.arcclk);
        s.arc0_health = read_string_attr(&a.heartbeat);
        s.therm_trip_count = read_string_attr(&a.therm_trip_count);
        s.board_id = read_string_attr(&a.serial);
        s.m3_app_fw_version = read_string_attr(&a.m3app_fw_ver);
    }
    if let Some(f) = fan {
        s.fan_speed = match parse_whole(f.as_str()) {
            Some(v) => Some(decimal_text(v)),
            None => None,
        };
    }
    s
}

/// The attributes behind an optional reference.
pub open spec fn owned_attrs(a: Option<&ClassAttrs>) -> Option<ClassAttrs> {
    match a {
        Some(c) => Some(*c),
        None => None,
    }
}

/// Whether synthesized SMBUS telemetry holds anything. A fan that reports no
/// reading is nothing.
pub open spec fn has_data(s: SmbusTelemetry) -> bool {
    ||| s.aiclk is Some
    ||| s.axiclk is Some
    ||| s.arcclk is Some
    ||| s.arc0_health is Some
    ||| s.therm_trip_count is Some
    ||| s.board_id is Some
    ||| s.m3_app_fw_version is Some
    ||| s.fan_speed matches Some(f) && models::fan_reading(f@) is Some
}

/// Whether synthesized SMBUS telemetry holds anything. It is served only
/// then: a block without values would read as a device whose firmware is
/// dead.
pub fn synthesized_smbus_has_data(s: &SmbusTelemetry) -> (r: bool)
    ensures
        r == has_data(*s),
{
    s.aiclk.is_some() || s.axiclk.is_some() || s.arcclk.is_some() || s.arc0_health.is_some()
        || s.therm_trip_count.is_some() || s.board_id.is_some() || s.m3_app_fw_version.is_some()
        || s.fan_rpm().is_some()
}

/// What the slow lane reads of a device.
#[derive(Debug)]
pub struct SlowFiles {
    /// The class attributes, where the driver has them.
    pub attrs: Option<ClassAttrs>,
    /// What the fan sensor holds.
    pub fan: Option<String>,
    /// The PCIe counters, where they can be read.
    pub counters: Option<PcieCounterSnapshot>,
}

/// The low 32 bits of the number that an attribute holds.
pub open spec fn attr_number(
    a: Option<ClassAttrs>,
    pick: spec_fn(ClassAttrs) -> Option<String>,
) -> Option<u32> {
    match a {
        Some(c) => match hwmon::opt_whole(text::opt_text(pick(c))) {
            Some(n) => Some((n % 0x1_0000_0000) as u32),
            None => None,
        },
        None => None,
    }
}

fn low_number(f: &Option<String>) -> (n: Option<u32>)
    ensures
        n == match hwmon::opt_whole(text::opt_text(*f)) {
            Some(v) => Some((v % 0x1_0000_0000) as u32),
            None => None,
        },
{
    match f {
        Some(s) => match parse_whole(s.as_str()) {
            Some(v) => Some((v % 0x1_0000_0000) as u32),
            None => None,
        },
        None => None,
    }
}

/// The signed number of an optional file, where it fits 32 bits.
pub open spec fn opt_signed32(f: Option<Seq<char>>) -> Option<int> {
    match f {
        Some(s) => hwmon::signed32(s),
        None => None,
    }
}

/// The signed number of an optional file.
pub open spec fn opt_signed64(f: Option<Seq<char>>) -> Option<int> {
    match f {
        Some(s) => text::signed_value(text::trimmed(s)),
        None => None,
    }
}

/// An optional number of thousandths as text.
pub open spec fn opt_thousandths(n: Option<int>) -> Option<Seq<char>> {
    match n {
        Some(v) => Some(hwmon::thousandths(v)),
        None => None,
    }
}

/// An optional number of millionths as text.
pub open spec fn opt_millionths(n: Option<int>) -> Option<Seq<char>> {
    match n {
        Some(v) => Some(hwmon::millionths(v)),
        None => None,
    }
}

/// Whether the current has to be derived from power and voltage: there is no
/// reading of it, but one of both of them, and the voltage is positive.
pub open spec fn derives_current(f: HwmonFiles) -> bool {
    &&& opt_signed64(text::opt_text(f.power)) is Some
    &&& opt_signed32(text::opt_text(f.current)) is None
    &&& opt_signed32(text::opt_text(f.voltage)) matches Some(v) && v > 0
}

fn int32_of(f: &Option<String>) -> (n: Option<i32>)
    ensures
        hwmon::opt_int32(n) == opt_signed32(text::opt_text(*f)),
{
    match f {
        Some(s) => parse_int32(s.as_str()),
        None => None,
    }
}

fn thousandths_of(f: &Option<String>) -> (s: Option<String>)
    ensures
        text::opt_text(s) == opt_thousandths(opt_signed32(text::opt_text(*f))),
{
    match int32_of(f) {
        Some(v) => Some(thousandths_text(v as i64)),
        None => None,
    }
}

fn millionths_of(f: &Option<String>) -> (s: Option<String>)
    ensures
        text::opt_text(s) == opt_millionths(opt_signed64(text::opt_text(*f))),
{
    match f {
        Some(s) => match parse_int64(s.as_str()) {
            Some(v) => Some(millionths_text(v)),
            None => None,
        },
        None => None,
    }
}

/// The power, in microwatts, and the voltage, in millivolts, to derive a
/// current from, where that has to be done.
pub fn current_to_derive(f: &HwmonFiles) -> (r: Option<(i64, i32)>)
    ensures
        r is Some <==> derives_current(*f),
        r matches Some((p, v)) ==> opt_signed64(text::opt_text(f.power)) == Some(p as int)
            && opt_signed32(text::opt_text(f.voltage)) == Some(v as int),
{
    let power: Option<i64> = match &f.power {
        Some(s) => parse_int64(s.as_str()),
        None => None,
    };
    match (power, int32_of(&f.current), int32_of(&f.voltage)) {
        (Some(p), None, Some(v)) => if v > 0 {
            Some((p, v))
        } else {
            None
        },
        _ => None,
    }
}

/// Whether `t` is the reading that the fast sensors give. `derived` is the
/// current computed for a device that has to derive it; the clock and the
/// heartbeat come from the slow lane.
pub open spec fn sensors_read(
    t: Telemetry,
    f: HwmonFiles,
    derived: Option<Seq<char>>,
    aiclk: Option<u32>,
    heartbeat: Option<u32>,
    now_ms: i64,
) -> bool {
    &&& text::opt_text(t.voltage) == opt_thousandths(opt_signed32(text::opt_text(f.voltage)))
    &&& text::opt_text(t.power) == opt_millionths(opt_signed64(text::opt_text(f.power)))
    &&& text::opt_text(t.asic_temperature) == opt_thousandths(
        opt_signed32(text::opt_text(f.temperature)),
    )
    &&& text::opt_text(t.current) == if derives_current(f) {
        derived
    } else {
        opt_thousandths(opt_signed32(text::opt_text(f.current)))
    }
    &&& t.aiclk == aiclk
    &&& t.heartbeat == heartbeat
    &&& t.timestamp_ms == now_ms
    &&& t.board_power is None
}

/// A reading is served in whole units. What a sensor's file holds in millivolts
/// is the voltage in volts, in milliamperes the current in amperes, in
/// microwatts the power in watts, and in millidegrees the temperature in
/// degrees; where a file holds no number there is no such reading. A current is
/// derived only where none is measured.
pub proof fn law_readings_are_in_whole_units(
    t: Telemetry,
    f: HwmonFiles,
    derived: Option<Seq<char>>,
    aiclk: Option<u32>,
    heartbeat: Option<u32>,
    now_ms: i64,
)
    requires
        sensors_read(t, f, derived, aiclk, heartbeat, now_ms),
    ensures
        match opt_signed32(text::opt_text(f.voltage)) {
            Some(mv) => t.voltage matches Some(s) && text::denotes(s@, mv, 1000),
            None => t.voltage is None,
        },
        match opt_signed64(text::opt_text(f.power)) {
            Some(uw) => t.power matches Some(s) && text::denotes(s@, uw, 1_000_000),
            None => t.power is None,
        },
        match opt_signed32(text::opt_text(f.temperature)) {
            Some(mc) => t.asic_temperature matches Some(s) && text::denotes(s@, mc, 1000),
            None => t.asic_temperature is None,
        },
        opt_signed32(text::opt_text(f.current)) matches Some(ma) ==> t.current matches Some(s)
            && text::denotes(s@, ma, 1000),
        opt_signed32(text::opt_text(f.current)) is None ==> text::opt_text(t.current) == (if (
        opt_signed64(text::opt_text(f.power)) is Some) && (opt_signed32(
            text::opt_text(f.voltage),
        ) matches Some(mv) && mv > 0) {
            derived
        } else {
            None
        }),
        t.aiclk == aiclk,
        t.heartbeat == heartbeat,
        t.timestamp_ms == now_ms,
{
    if let Some(n) = opt_signed32(text::opt_text(f.voltage)) {
        hwmon::law_thousandths_denote(n);
    }
    if let Some(n) = opt_signed32(text::opt_text(f.current)) {
        hwmon::law_thousandths_denote(n);
    }
    if let Some(n) = opt_signed32(text::opt_text(f.temperature)) {
        hwmon::law_thousandths_denote(n);
    }
    if let Some(n) = opt_signed64(text::opt_text(f.power)) {
        hwmon::law_millionths_denote(n);
    }
}

/// A file that holds a number, between whitespace, is a sensor that reads that
/// number.
pub proof fn law_sensor_files_read_back(before: Seq<char>, n: int, after: Seq<char>)
    requires
        text::all_white(before),
        text::all_white(after),
    ensures
        0 <= n <= i32::MAX ==> opt_signed32(Some(before + text::decimal(n as nat) + after)) == Some(
            n,
        ),
        i32::MIN <= n < 0 ==> opt_signed32(
            Some(before + (seq!['-'] + text::decimal((-n) as nat)) + after),
        ) == Some(n),
        0 <= n <= i64::MAX ==> opt_signed64(Some(before + text::decimal(n as nat) + after)) == Some(
            n,
        ),
        i64::MIN <= n < 0 ==> opt_signed64(
            Some(before + (seq!['-'] + text::decimal((-n) as nat)) + after),
        ) == Some(n),
        opt_signed32(None) is None,
        opt_signed64(None) is None,
{
    hwmon::law_file_numbers_read_back(before, n, after);
}

/// Serves readings of the kernel's hwmon sensors.
#[derive(Debug)]
pub struct SysfsBackend {
    pub config: BackendConfig,
    /// The devices, each at the position of its index.
    pub devices: Vec<Device>,
    pub telemetry_cache: HashMap<usize, Telemetry>,
    /// SMBUS telemetry synthesized from the driver's attributes.
    pub smbus_cache: HashMap<usize, SmbusTelemetry>,
    pub pcie_trackers: HashMap<usize, PcieRateTracker>,
    /// The last traffic of each device.
    pub pcie_bandwidth: HashMap<usize, PcieBandwidth>,
    /// When the slow lane last ran, in nanoseconds.
    pub last_slow_refresh: Option<u64>,
}

/// Whether nothing has been detected or read.
pub open spec fn is_blank(b: SysfsBackend) -> bool {
    &&& b.devices@.len() == 0
    &&& no_readings(b)
}

/// Whether nothing has been read.
pub open spec fn no_readings(b: SysfsBackend) -> bool {
    &&& b.telemetry_cache@ == Map::<usize, Telemetry>::empty()
    &&& b.smbus_cache@ == Map::<usize, SmbusTelemetry>::empty()
    &&& b.pcie_trackers@ == Map::<usize, PcieRateTracker>::empty()
    &&& b.pcie_bandwidth@ == Map::<usize, PcieBandwidth>::empty()
    &&& b.last_slow_refresh is None
}

/// The values that the slow lane gives the core telemetry: those read now, or
/// those of the reading before.
pub open spec fn carried(
    before: Map<usize, Telemetry>,
    idx: usize,
    pick: spec_fn(Telemetry) -> Option<u32>,
) -> Option<u32> {
    if before.contains_key(idx) { pick(before[idx]) } else { None }
}

/// What the driver's class attributes say of a card, as read.
#[derive(Debug)]
pub struct CardAttrs {
    pub card_type: Option<String>,
    pub fw_bundle_ver: Option<String>,
}

/// The attributes at a position, where there are any.
pub open spec fn card_at(cards: Seq<Option<CardAttrs>>, i: int) -> Option<CardAttrs> {
    if 0 <= i < cards.len() { cards[i] } else { None }
}

/// Whether there is a card type at a position.
pub open spec fn has_card(cards: Seq<Option<CardAttrs>>, i: int) -> bool {
    card_at(cards, i) matches Some(c) && attr_text(text::opt_text(c.card_type)) is Some
}

/// Whether a device is as before, but for what its attributes say.
pub open spec fn enriched_by(before: Device, after: Device, attrs: Option<CardAttrs>) -> bool {
    match attrs {
        None => after == before,
        Some(a) => {
            let card = attr_text(text::opt_text(a.card_type));
            let fw = attr_text(text::opt_text(a.fw_bundle_ver));
            &&& after.board_type@ == if card is Some { card->0 } else { before.board_type@ }
            &&& if before.firmwares is None && fw is Some {
                after.firmwares matches Some(f) && text::opt_text(f.fw_bundle_version) == fw
                    && f.eth_fw is None && f.cm_fw is None && f.gddr_fw is None
            } else {
                after.firmwares == before.firmwares
            }
            &&& after == (Device {
                board_type: after.board_type,
                firmwares: after.firmwares,
                ..before
            })
        },
    }
}

/// Whether a device is what a candidate at a position becomes.
pub open spec fn is_detected(
    d: Device,
    at: int,
    c: CandidateView,
    limits: Seq<Option<DeviceLimits>>,
) -> bool {
    &&& d.index == at
    &&& d.board_type@ == c.name
    &&& d.bus_id@ == hwmon::device_bus_id(c)
    &&& d.architecture == c.architecture
    &&& d.limits == if at < limits.len() { limits[at] } else { None }
    &&& d.coords@.len() == 0
    &&& d.firmwares is None
    &&& d.pcie_speed is None
    &&& d.pcie_width is None
    &&& d.grid_override is None
    &&& d.channels_override is None
}

/// Whether a backend holds the devices that candidates become, and nothing else.
pub open spec fn holds_detected(
    b: SysfsBackend,
    found: Seq<CandidateView>,
    limits: Seq<Option<DeviceLimits>>,
) -> bool {
    &&& no_readings(b)
    &&& b.devices@.len() == found.len()
    &&& forall|i: int|
        0 <= i < found.len() ==> is_detected(#[trigger] b.devices@[i], i, found[i], limits)
}

/// Whether two devices that were just detected are alike.
pub open spec fn detected_alike(a: Device, b: Device) -> bool {
    &&& a.index == b.index
    &&& a.board_type@ == b.board_type@
    &&& a.bus_id@ == b.bus_id@
    &&& a.coords@ == b.coords@
    &&& a.architecture == b.architecture
    &&& a.firmwares == b.firmwares
    &&& a.limits == b.limits
    &&& a.pcie_speed == b.pcie_speed
    &&& a.pcie_width == b.pcie_width
    &&& a.grid_override == b.grid_override
    &&& a.channels_override == b.channels_override
}

/// What is detected depends on the directories that were read alone: not on the
/// order in which they were read, nor on what the backend held before. So to
/// detect twice is to detect once.
pub proof fn law_detection_depends_on_the_tree_alone(
    a: SysfsBackend,
    b: SysfsBackend,
    in_a: Seq<EntryView>,
    in_b: Seq<EntryView>,
    limits: Seq<Option<DeviceLimits>>,
)
    requires
        forall|e: EntryView| in_a.contains(e) == in_b.contains(e),
        hwmon::distinct_entries(in_a),
        hwmon::distinct_entries(in_b),
        holds_detected(a, hwmon::ordered(hwmon::entry_candidates(in_a)), limits),
        holds_detected(b, hwmon::ordered(hwmon::entry_candidates(in_b)), limits),
    ensures
        no_readings(a),
        no_readings(b),
        a.devices@.len() == b.devices@.len(),
        forall|i: int|
            0 <= i < a.devices@.len() ==> detected_alike(#[trigger] a.devices@[i], b.devices@[i]),
{
    hwmon::law_reading_order_does_not_matter(in_a, in_b);
    let found = hwmon::ordered(hwmon::entry_candidates(in_a));
    assert forall|i: int| 0 <= i < a.devices@.len() implies detected_alike(
        #[trigger] a.devices@[i],
        b.devices@[i],
    ) by {
        assert(is_detected(b.devices@[i], i, found[i], limits));
        assert(a.devices@[i].coords@ =~= b.devices@[i].coords@);
    }
}

impl SysfsBackend {
    /// A backend with the default settings.
    pub fn new() -> (b: Self)
        ensures
            is_blank(b),
            b.config == (BackendConfig {
                update_interval_ms: 100,
                max_consecutive_errors: 10,
                read_timeout_ms: 5000,
                verbose: false,
            }),
    {
        Self::with_config(BackendConfig::default())
    }

    /// A backend with the given settings.
    pub fn with_config(config: BackendConfig) -> (b: Self)
        ensures
            is_blank(b),
            b.config == config,
    {
        SysfsBackend {
            config,
            devices: Vec::new(),
            telemetry_cache: HashMap::new(),
            smbus_cache: HashMap::new(),
            pcie_trackers: HashMap::new(),
            pcie_bandwidth: HashMap::new(),
            last_slow_refresh: None,
        }
    }

    /// Takes over what a scan found, in place of everything before: the sorted
    /// candidates with the limits that were read for each. A device's index is
    /// its position. A scan that failed or found nothing is an error, and leaves
    /// no device.
    pub fn detect_devices_in(
        &mut self,
        found: BackendResult<Vec<HwmonCandidate>>,
        limits: Vec<Option<DeviceLimits>>,
    ) -> (r: BackendResult<()>)
        ensures
            final(self).config == old(self).config,
            match found {
                Ok(candidates) => {
                    &&& holds_detected(*final(self), hwmon::views(candidates@), limits@)
                    &&& match r {
                        Ok(_) => candidates@.len() > 0,
                        Err(e) => candidates@.len() == 0 && (
                        e matches BackendError::Initialization(m)
                            && m@ == "No Tenstorrent devices found in hwmon"@),
                    }
                },
                Err(why) => {
                    &&& holds_detected(*final(self), Seq::empty(), limits@)
                    &&& r == Err::<(), BackendError>(why)
                },
            },
    {
        self.devices = Vec::new();
        self.telemetry_cache = HashMap::new();
        self.smbus_cache = HashMap::new();
        self.pcie_trackers = HashMap::new();
        self.pcie_bandwidth = HashMap::new();
        self.last_slow_refresh = None;
        let candidates = match found {
            Ok(c) => c,
            Err(why) => {
                return Err(why);
            },
        };
        for i in 0..candidates.len()
            invariant
                no_readings(*self),
                self.config == old(self).config,
                self.devices@.len() == i,
                forall|k: int|
                    0 <= k < i ==> #[trigger] is_detected(
                        self.devices@[k],
                        k,
                        candidates@[k]@,
                        limits@,
                    ),
        {
            let l = if i < limits.len() {
                match &limits[i] {
                    Some(l) => Some(l.dup()),
                    None => None,
                }
            } else {
                None
            };
            let ghost before = self.devices@;
            let device = candidate_device(i, &candidates[i], l);
            self.devices.push(device);
            assert(is_detected(device, i as int, candidates@[i as int]@, limits@));
            assert forall|k: int| 0 <= k < i + 1 implies #[trigger] is_detected(
                self.devices@[k],
                k,
                candidates@[k]@,
                limits@,
            ) by {
                if k < i {
                    assert(is_detected(before[k], k, candidates@[k]@, limits@));
                }
            }
        }
        assert forall|k: int| 0 <= k < self.devices@.len() implies is_detected(
            #[trigger] self.devices@[k],
            k,
            hwmon::views(candidates@)[k],
            limits@,
        ) by {
            assert(is_detected(self.devices@[k], k, candidates@[k]@, limits@));
        }
        if self.devices.len() == 0 {
            return Err(
                BackendError::Initialization("No Tenstorrent devices found in hwmon".to_owned()),
            );
        }
        Ok(())
    }

    /// Enriches the devices with what the driver's attributes say, each with
    /// those at its position: its card type becomes the board type, and its
    /// firmware bundle version is taken where none is known. Tells whether
    /// every device has a card type.
    pub fn enrich_devices(&mut self, cards: &Vec<Option<CardAttrs>>) -> (all_have_card: bool)
        ensures
            final(self).devices@.len() == old(self).devices@.len(),
            forall|i: int|
                0 <= i < old(self).devices@.len() ==> enriched_by(
                    old(self).devices@[i],
                    #[trigger] final(self).devices@[i],
                    card_at(cards@, i),
                ),
            all_have_card == forall|i: int|
                0 <= i < old(self).devices@.len() ==> #[trigger] has_card(cards@, i),
            *final(self) == (SysfsBackend { devices: final(self).devices, ..*old(self) }),
    {
        let mut all_have_card = true;
        let n: usize = self.devices.len();
        for i in 0..n
            invariant
                n == old(self).devices@.len(),
                self.devices@.len() == n,
                forall|k: int|
                    0 <= k < i ==> enriched_by(
                        old(self).devices@[k],
                        #[trigger] self.devices@[k],
                        card_at(cards@, k),
                    ),
                forall|k: int| i <= k < n ==> #[trigger] self.devices@[k] == old(self).devices@[k],
                all_have_card == forall|k: int| 0 <= k < i ==> #[trigger] has_card(cards@, k),
                *self == (SysfsBackend { devices: self.devices, ..*old(self) }),
        {
            let ghost before = self.devices@;
            let mut device = self.devices[i].dup();
            let mut named = false;
            assert(before[i as int] == old(self).devices@[i as int]);
            if i < cards.len() {
                if let Some(attrs) = &cards[i] {
                    if let Some(c) = read_string_attr(&attrs.card_type) {
                        device.board_type = c;
                        named = true;
                    }
                    if device.firmwares.is_none() {
                        if let Some(f) = read_string_attr(&attrs.fw_bundle_ver) {
                            device.firmwares = Some(
                                FirmwaresInfo {
                                    fw_bundle_version: Some(f),
                                    eth_fw: None,
                                    cm_fw: None,
                                    gddr_fw: None,
                                },
                            );
                        }
                    }
                }
            }
            assert(named == has_card(cards@, i as int));
            assert(enriched_by(before[i as int], device, card_at(cards@, i as int)));
            self.devices.set(i, device);
            all_have_card = all_have_card && named;
            assert forall|k: int| i < k < n implies #[trigger] self.devices@[k]
                == old(self).devices@[k] by {
                assert(self.devices@[k] == before[k]);
            }
            assert forall|k: int| 0 <= k < i + 1 implies enriched_by(
                old(self).devices@[k],
                #[trigger] self.devices@[k],
                card_at(cards@, k),
            ) by {
                if k < i {
                    assert(self.devices@[k] == before[k]);
                }
            }
            assert(all_have_card == forall|k: int|
                0 <= k < i + 1 ==> #[trigger] has_card(cards@, k)) by {
                if all_have_card {
                    assert forall|k: int| 0 <= k < i + 1 implies #[trigger] has_card(
                        cards@,
                        k,
                    ) by {}
                } else if !named {
                    assert(!has_card(cards@, i as int));
                }
            }
        }
        all_have_card
    }

    /// Starts a tick: tells whether the slow lane runs in it, and if so notes
    /// the time.
    pub fn begin_tick(&mut self, now_ns: u64) -> (slow_lane: bool)
        ensures
            slow_lane == match old(self).last_slow_refresh {
                None => true,
                Some(prev) => (if now_ns >= prev { now_ns - prev } else { 0 })
                    >= SLOW_LANE_INTERVAL_NS,
            },
            slow_lane <==> (old(self).last_slow_refresh is None || now_ns >= old(
                self,
            ).last_slow_refresh->0 + 1_000_000_000),
            *final(self) == (SysfsBackend {
                last_slow_refresh: if slow_lane {
                    Some(now_ns)
                } else {
                    old(self).last_slow_refresh
                },
                ..*old(self)
            }),
    {
        let slow_lane = slow_lane_due(self.last_slow_refresh, now_ns, SLOW_LANE_INTERVAL_NS);
        if slow_lane {
            self.last_slow_refresh = Some(now_ns);
        }
        slow_lane
    }

    /// Takes over what was read of a device in a tick. Without the slow lane,
    /// the clock and the heartbeat are carried over from the reading before,
    /// and the SMBUS telemetry and the traffic stay as they are. With it, a
    /// device whose attributes hold nothing has no SMBUS telemetry, and one
    /// whose counters cannot be read has no traffic and starts afresh.
    pub fn apply_readings(
        &mut self,
        device_idx: usize,
        files: &HwmonFiles,
        derived_current: &Option<String>,
        slow: Option<&SlowFiles>,
        now_ns: u64,
        timestamp_ms: i64,
    )
        ensures
            final(self).telemetry_cache@ == old(self).telemetry_cache@.insert(
                device_idx,
                final(self).telemetry_cache@[device_idx],
            ),
            sensors_read(
                final(self).telemetry_cache@[device_idx],
                *files,
                text::opt_text(*derived_current),
                match slow {
                    Some(s) => attr_number(s.attrs, |a: ClassAttrs| a.aiclk),
                    None => carried(
                        old(self).telemetry_cache@,
                        device_idx,
                        |t: Telemetry| t.aiclk,
                    ),
                },
                match slow {
                    Some(s) => attr_number(s.attrs, |a: ClassAttrs| a.heartbeat),
                    None => carried(
                        old(self).telemetry_cache@,
                        device_idx,
                        |t: Telemetry| t.heartbeat,
                    ),
                },
                timestamp_ms,
            ),
            match slow {
                None => {
                    &&& final(self).smbus_cache == old(self).smbus_cache
                    &&& final(self).pcie_trackers == old(self).pcie_trackers
                    &&& final(self).pcie_bandwidth == old(self).pcie_bandwidth
                },
                Some(s) => {
                    &&& smbus_refreshed(
                        old(self).smbus_cache@,
                        final(self).smbus_cache@,
                        device_idx,
                        *s,
                    )
                    &&& traffic_refreshed(*old(self), *final(self), device_idx, *s, now_ns)
                },
            },
            final(self).devices == old(self).devices,
            final(self).config == old(self).config,
            final(self).last_slow_refresh == old(self).last_slow_refresh,
    {
        let (aiclk, heartbeat): (Option<u32>, Option<u32>) = match slow {
            Some(s) => match &s.attrs {
                Some(a) => (low_number(&a.aiclk), low_number(&a.heartbeat)),
                None => (None, None),
            },
            None => match self.telemetry_cache.get(&device_idx) {
                Some(t) => (t.aiclk, t.heartbeat),
                None => (None, None),
            },
        };
        let current = if current_to_derive(files).is_some() {
            copy_text(derived_current)
        } else {
            thousandths_of(&files.current)
        };
        let telemetry = Telemetry {
            voltage: thousandths_of(&files.voltage),
            current,
            power: millionths_of(&files.power),
            asic_temperature: thousandths_of(&files.temperature),
            aiclk,
            heartbeat,
            timestamp_ms,
            board_power: None,
        };
        if let Some(s) = slow {
            let attrs: Option<&ClassAttrs> = match &s.attrs {
                Some(a) => Some(a),
                None => None,
            };
            let smbus = synthesize_smbus(attrs, &s.fan);
            if synthesized_smbus_has_data(&smbus) {
                self.smbus_cache.insert(device_idx, smbus);
            } else {
                self.smbus_cache.remove(&device_idx);
            }
            match s.counters {
                Some(snap) => {
                    let mut tracker = match self.pcie_trackers.get(&device_idx) {
                        Some(t) => *t,
                        None => PcieRateTracker::new(),
                    };
                    let bandwidth: Option<PcieBandwidth> = tracker.sample(snap, now_ns);
                    self.pcie_trackers.insert(device_idx, tracker);
                    if let Some(bw) = bandwidth {
                        self.pcie_bandwidth.insert(device_idx, bw);
                    }
                },
                None => {
                    self.pcie_bandwidth.remove(&device_idx);
                    self.pcie_trackers.remove(&device_idx);
                },
            }
        }
        self.telemetry_cache.insert(device_idx, telemetry);
    }

    /// The last traffic of a device.
    pub fn pcie_bandwidth(&self, device_idx: usize) -> (r: Option<PcieBandwidth>)
        ensures
            r == if self.pcie_bandwidth@.contains_key(device_idx) {
                Some(self.pcie_bandwidth@[device_idx])
            } else {
                None
            },
    {
        match self.pcie_bandwidth.get(&device_idx) {
            Some(bw) => Some(*bw),
            None => None,
        }
    }
}

/// Whether the SMBUS telemetry after a slow lane is what it read.
pub open spec fn smbus_refreshed(
    before: Map<usize, SmbusTelemetry>,
    after: Map<usize, SmbusTelemetry>,
    idx: usize,
    s: SlowFiles,
) -> bool {
    exists|smbus: SmbusTelemetry| #[trigger]
        synthesized(smbus, s.attrs, text::opt_text(s.fan)) && after == if has_data(smbus) {
            before.insert(idx, smbus)
        } else {
            before.remove(idx)
        }
}

/// The last counters of a device.
pub open spec fn last_counters(
    trackers: Map<usize, PcieRateTracker>,
    idx: usize,
) -> Option<(PcieCounterSnapshot, u64)> {
    if trackers.contains_key(idx) { trackers[idx].prev } else { None }
}

/// Whether the traffic after a slow lane is what its counters tell.
pub open spec fn traffic_refreshed(
    before: SysfsBackend,
    after: SysfsBackend,
    idx: usize,
    s: SlowFiles,
    now_ns: u64,
) -> bool {
    match s.counters {
        Some(snap) => {
            &&& after.pcie_trackers@ == before.pcie_trackers@.insert(
                idx,
                PcieRateTracker { prev: Some((snap, now_ns)) },
            )
            &&& after.pcie_bandwidth@ == match pcie_counters::traffic(
                last_counters(before.pcie_trackers@, idx),
                snap,
                now_ns,
            ) {
                Some(bw) => before.pcie_bandwidth@.insert(idx, bw),
                None => before.pcie_bandwidth@,
            }
        },
        None => {
            &&& after.pcie_trackers@ == before.pcie_trackers@.remove(idx)
            &&& after.pcie_bandwidth@ == before.pcie_bandwidth@.remove(idx)
        },
    }
}

impl TelemetryBackend for SysfsBackend {
    open spec fn device_list(&self) -> Seq<Device> {
        self.devices@
    }

    open spec fn telemetry_map(&self) -> Map<usize, Telemetry> {
        self.telemetry_cache@
    }

    open spec fn smbus_map(&self) -> Map<usize, SmbusTelemetry> {
        self.smbus_cache@
    }

    open spec fn info_text(&self) -> Seq<char> {
        "Sysfs (hwmon sensors)"@
    }

    open spec fn snapshot_text(&self) -> Option<Seq<char>> {
        None
    }

    fn devices(&self) -> (devices: &Vec<Device>) {
        &self.devices
    }

    fn telemetry(&self, device_idx: usize) -> (t: Option<&Telemetry>) {
        self.telemetry_cache.get(&device_idx)
    }

    fn smbus_telemetry(&self, device_idx: usize) -> (s: Option<&SmbusTelemetry>) {
        self.smbus_cache.get(&device_idx)
    }

    fn backend_info(&self) -> (s: String) {
        "Sysfs (hwmon sensors)".to_owned()
    }

    fn snapshot_json(&self) -> (s: Option<String>) {
        None
    }
}

// Board types from `tt-smi`

/// `s` up to its first dot.
pub open spec fn before_dot(s: Seq<char>) -> Seq<char>
    decreases s.len(),
{
    if s.len() == 0 || s[0] == '.' {
        Seq::empty()
    } else {
        seq![s[0]] + before_dot(s.skip(1))
    }
}

/// The major version in a version text, 0 where there is none.
pub open spec fn major_version(s: Seq<char>) -> nat {
    match text::unsigned_value(before_dot(text::trimmed(s)), 10, u32::MAX as nat) {
        Some(n) => n,
        None => 0,
    }
}

/// Whether a `tt-smi` of this version leaves running workloads alone.
pub open spec fn is_gentle(version: Seq<char>) -> bool {
    major_version(version) >= 4
}

/// Whether a `tt-smi` of this version may be asked for a snapshot: before
/// version 4 that disturbs running workloads.
pub fn smi_version_allowed(version: &str) -> (r: bool)
    ensures
        r == (major_version(version@) >= 4),
        r == is_gentle(version@),
{
    let t = text::trim_chars(version);
    let mut head: Vec<char> = Vec::new();
    let mut i: usize = 0;
    assert(t@.skip(0) =~= t@);
    assert(head@ + before_dot(t@) =~= before_dot(t@));
    while i < t.len() && t[i] != '.'
        invariant
            i <= t@.len(),
            head@ + before_dot(t@.skip(i as int)) == before_dot(t@),
        decreases t@.len() - i,
    {
        assert(t@.skip(i as int).skip(1) =~= t@.skip(i as int + 1));
        assert(head@.push(t@[i as int]) + before_dot(t@.skip(i as int + 1)) =~= head@ + (seq![
            t@[i as int],
        ] + before_dot(t@.skip(i as int + 1))));
        head.push(t[i]);
        i = i + 1;
    }
    assert(head@ + Seq::<char>::empty() =~= head@);
    match parse_unsigned(head.as_slice(), 10, u32::MAX as u64) {
        Some(n) => n >= 4,
        None => false,
    }
}

/// Whether a value is a board with texts for its bus id and type.
pub open spec fn board_ok(b: JsonView) -> bool {
    &&& document::is_record(b, 2, 2)
    &&& document::text_ok(document::field(b, 0, "bus_id"@))
    &&& document::text_ok(document::field(b, 1, "board_type"@))
}

/// The board of an element.
pub open spec fn element_board(j: JsonView) -> Option<JsonView> {
    document::present(document::field(j, 0, "board_info"@))
}

/// Whether a value is an element with a board or without one.
pub open spec fn element_ok(j: JsonView) -> bool {
    &&& document::is_record(j, 1, 1)
    &&& element_board(j) matches Some(b) ==> board_ok(b)
}

/// The elements of a document, where all of it fits.
pub open spec fn board_elements(doc: JsonView) -> Option<Seq<JsonView>> {
    match document::present(document::field(doc, 0, "device_info"@)) {
        Some(JsonView::Array(a)) => if document::is_record(doc, 1, 1) && (forall|i: int|
            0 <= i < a.len() ==> element_ok(#[trigger] a[i])) {
            Some(a)
        } else {
            None
        },
        _ => None,
    }
}

/// The normalized bus id and the board type of an element that has both.
pub open spec fn element_sku(j: JsonView) -> Option<(Seq<char>, Seq<char>)> {
    match element_board(j) {
        Some(b) => match (
            document::text_of(document::field(b, 0, "bus_id"@)),
            document::text_of(document::field(b, 1, "board_type"@)),
        ) {
            (Some(bus), Some(board)) => if parts::normalized(bus).len() == 0 || board.len() == 0 {
                None
            } else {
                Some((parts::normalized(bus), board))
            },
            _ => None,
        },
        None => None,
    }
}

/// The board types of the first `n` elements, by normalized bus id; of two
/// with the same bus id the later counts.
pub open spec fn sku_map(elements: Seq<JsonView>, n: nat) -> Map<Seq<char>, Seq<char>>
    decreases n,
{
    if n == 0 {
        Map::empty()
    } else {
        let before = sku_map(elements, (n - 1) as nat);
        match element_sku(elements[n - 1]) {
            Some((bus, board)) => before.insert(bus, board),
            None => before,
        }
    }
}

/// The board types of a document.
pub open spec fn document_skus(doc: JsonView) -> Map<Seq<char>, Seq<char>> {
    match board_elements(doc) {
        Some(a) => sku_map(a, a.len()),
        None => Map::empty(),
    }
}

/// The texts of a map.
pub open spec fn text_values(m: Map<Seq<char>, String>) -> Map<Seq<char>, Seq<char>> {
    m.map_values(|s: String| s@)
}

fn is_element(j: &Json) -> (r: bool)
    ensures
        r == element_ok(j@),
{
    if !j.is_record(1, 1) {
        return false;
    }
    match if_present(j.field(0, "board_info")) {
        Some(b) => b.is_record(2, 2) && is_text_field(b.field(0, "bus_id")) && is_text_field(
            b.field(1, "board_type"),
        ),
        None => true,
    }
}

/// The view of an optional pair of strings.
pub open spec fn opt_pair(p: Option<(String, String)>) -> Option<(Seq<char>, Seq<char>)> {
    match p {
        Some((a, b)) => Some((a@, b@)),
        None => None,
    }
}

fn sku_of(j: &Json) -> (r: Option<(String, String)>)
    ensures
        opt_pair(r) == element_sku(j@),
{
    match if_present(j.field(0, "board_info")) {
        Some(b) => match (text_field(b.field(0, "bus_id")), text_field(b.field(1, "board_type"))) {
            (Some(bus), Some(board)) => {
                let norm = normalize_bus_id(bus.as_str());
                if norm.as_str().is_empty() || board.as_str().is_empty() {
                    None
                } else {
                    Some((norm, board))
                }
            },
            _ => None,
        },
        None => None,
    }
}

/// Takes the board types out of a parsed snapshot document.
pub fn skus_of_document(doc: &Json) -> (m: TextMap<String>)
    ensures
        text_values(m@) == document_skus(doc@),
{
    let mut m: TextMap<String> = TextMap::new();
    assert(text_values(m@) =~= Map::<Seq<char>, Seq<char>>::empty());
    if !doc.is_record(1, 1) {
        return m;
    }
    if let Some(Json::Array(a)) = doc.field(0, "device_info") {
        let ghost view = Json::Array(*a)@->Array_0;
        proof {
            document::lemma_array_view(*a);
        }
        for i in 0..a.len()
            invariant
                view.len() == a@.len(),
                forall|k: int| 0 <= k < a@.len() ==> #[trigger] view[k] == a@[k]@,
                forall|k: int| 0 <= k < i ==> element_ok(#[trigger] view[k]),
                document::is_record(doc@, 1, 1),
                document::present(document::field(doc@, 0, "device_info"@)) == Some(
                    JsonView::Array(view),
                ),
                text_values(m@) == Map::<Seq<char>, Seq<char>>::empty(),
        {
            assert(view[i as int] == a@[i as int]@);
            if !is_element(&a[i]) {
                return m;
            }
        }
        for i in 0..a.len()
            invariant
                view.len() == a@.len(),
                forall|k: int| 0 <= k < a@.len() ==> #[trigger] view[k] == a@[k]@,
                text_values(m@) == sku_map(view, i as nat),
        {
            assert(view[i as int] == a@[i as int]@);
            if let Some((bus, board)) = sku_of(&a[i]) {
                let ghost before = m@;
                let ghost key = bus@;
                m.insert(bus, board);
                assert(text_values(m@) =~= text_values(before).insert(key, board@));
            }
        }
    }
    m
}

/// Parses a snapshot text into the board types of its devices, by normalized
/// bus id. A text that does not fit has none.
pub fn parse_sku_map(json: &str) -> (m: TextMap<String>)
    ensures
        text_values(m@) == match document::json_document(json@) {
            Ok(doc) => document_skus(doc),
            Err(_) => Map::empty(),
        },
{
    match parse_json(json) {
        Ok(doc) => skus_of_document(&doc),
        Err(_) => {
            let m: TextMap<String> = TextMap::new();
            assert(text_values(m@) =~= Map::<Seq<char>, Seq<char>>::empty());
            m
        },
    }
}

/// A device with the board type that its bus id is listed with.
pub open spec fn retyped(before: Device, after: Device, skus: Map<Seq<char>, String>) -> bool {
    let bus = parts::normalized(before.bus_id@);
    &&& after.board_type@ == if skus.contains_key(bus) { skus[bus]@ } else { before.board_type@ }
    &&& after == (Device { board_type: after.board_type, ..before })
}

impl SysfsBackend {
    /// Gives each device the board type that its bus id is listed with.
    pub fn apply_sku_map(&mut self, skus: &TextMap<String>)
        ensures
            final(self).devices@.len() == old(self).devices@.len(),
            forall|i: int|
                0 <= i < old(self).devices@.len() ==> retyped(
                    old(self).devices@[i],
                    #[trigger] final(self).devices@[i],
                    skus@,
                ),
            *final(self) == (SysfsBackend { devices: final(self).devices, ..*old(self) }),
    {
        let n: usize = self.devices.len();
        for i in 0..n
            invariant
                n == self.devices@.len(),
                self.devices@.len() == old(self).devices@.len(),
                forall|k: int|
                    0 <= k < i ==> retyped(
                        old(self).devices@[k],
                        #[trigger] self.devices@[k],
                        skus@,
                    ),
                forall|k: int|
                    i <= k < self.devices@.len() ==> #[trigger] self.devices@[k] == old(
                        self,
                    ).devices@[k],
                *self == (SysfsBackend { devices: self.devices, ..*old(self) }),
        {
            let bus = normalize_bus_id(self.devices[i].bus_id.as_str());
            if let Some(sku) = skus.get(bus.as_str()) {
                let mut device = self.devices[i].dup();
                device.board_type = sku.clone();
                self.devices.set(i, device);
            }
        }
    }
}

/// The attributes of the driver are served each in its own place, without the blanks
/// around them: the clocks, the heartbeat as the health of ARC 0, the count of
/// thermal trips, the serial number as the board's id, and the version of the
/// firmware; a blank one is none. The fan is the number that its file holds.
pub proof fn law_attributes_are_served_by_name(
    s: SmbusTelemetry,
    a: ClassAttrs,
    fan: Option<Seq<char>>,
)
    requires
        synthesized(s, Some(a), fan),
    ensures
        s.aiclk is Some <==> a.aiclk is Some && text::trimmed(a.aiclk->0@).len() > 0,
        s.aiclk is Some ==> s.aiclk->0@ == text::trimmed(a.aiclk->0@),
        s.axiclk is Some <==> a.axiclk is Some && text::trimmed(a.axiclk->0@).len() > 0,
        s.axiclk is Some ==> s.axiclk->0@ == text::trimmed(a.axiclk->0@),
        s.arcclk is Some <==> a.arcclk is Some && text::trimmed(a.arcclk->0@).len() > 0,
        s.arcclk is Some ==> s.arcclk->0@ == text::trimmed(a.arcclk->0@),
        s.arc0_health is Some <==> a.heartbeat is Some && text::trimmed(a.heartbeat->0@).len() > 0,
        s.arc0_health is Some ==> s.arc0_health->0@ == text::trimmed(a.heartbeat->0@),
        s.therm_trip_count is Some <==> a.therm_trip_count is Some && text::trimmed(a.therm_trip_count->0@).len() > 0,
        s.therm_trip_count is Some ==> s.therm_trip_count->0@ == text::trimmed(a.therm_trip_count->0@),
        s.board_id is Some <==> a.serial is Some && text::trimmed(a.serial->0@).len() > 0,
        s.board_id is Some ==> s.board_id->0@ == text::trimmed(a.serial->0@),
        s.m3_app_fw_version is Some <==> a.m3app_fw_ver is Some && text::trimmed(a.m3app_fw_ver->0@).len() > 0,
        s.m3_app_fw_version is Some ==> s.m3_app_fw_version->0@ == text::trimmed(a.m3app_fw_ver->0@),
        s.fan_speed is Some <==> hwmon::opt_whole(fan) is Some,
        s.fan_speed is Some ==> s.fan_speed->0@ == text::decimal(hwmon::opt_whole(fan)->0),
        s.tdp is None && s.tdc is None && s.vcore is None && s.asic_temperature is None,
{
}

/// The clock and the heartbeat are the numbers that their attributes hold.
pub proof fn law_attribute_numbers_are_served(c: ClassAttrs, n: nat)
    requires
        n <= u32::MAX,
    ensures
        hwmon::opt_whole(text::opt_text(c.aiclk)) == Some(n) ==> attr_number(
            Some(c),
            |a: ClassAttrs| a.aiclk,
        ) == Some(n as u32),
        hwmon::opt_whole(text::opt_text(c.heartbeat)) == Some(n) ==> attr_number(
            Some(c),
            |a: ClassAttrs| a.heartbeat,
        ) == Some(n as u32),
        attr_number(None, |a: ClassAttrs| a.aiclk) is None,
{
}

/// What the slow lane counted is the traffic of the device: from the second count
/// on, the bytes of every word since the one before; a device that is not counted
/// has no traffic.
pub proof fn law_counts_become_traffic(
    before: SysfsBackend,
    after: SysfsBackend,
    idx: usize,
    s: SlowFiles,
    now_ns: u64,
)
    requires
        traffic_refreshed(before, after, idx, s, now_ns),
    ensures
        s.counters is None ==> !after.pcie_bandwidth@.contains_key(idx)
            && !after.pcie_trackers@.contains_key(idx),
        s.counters matches Some(snap) ==> {
            &&& after.pcie_trackers@.contains_key(idx) && after.pcie_trackers@[idx].prev == Some(
                (snap, now_ns),
            )
            &&& before.pcie_trackers@.contains_key(idx) ==> (
            before.pcie_trackers@[idx].prev matches Some((was, at)) ==> at < now_ns
                && was.words_in <= snap.words_in && was.words_out <= snap.words_out
                ==> after.pcie_bandwidth@.contains_key(idx) && {
                let bw = after.pcie_bandwidth@[idx];
                &&& bw.rx_bytes == 4 * (snap.words_in - was.words_in)
                &&& bw.tx_bytes == 4 * (snap.words_out - was.words_out)
                &&& bw.window_ns == now_ns - at
            })
        },
        forall|other: usize|
            other != idx ==> (#[trigger] after.pcie_bandwidth@.contains_key(other)
                <==> before.pcie_bandwidth@.contains_key(other)),
        forall|other: usize|
            other != idx && #[trigger] before.pcie_bandwidth@.contains_key(other)
                ==> after.pcie_bandwidth@[other] == before.pcie_bandwidth@[other],
{
}

/// What is detected is served under its position, with the name, the architecture
/// and the bus id that were found, and the limits that were read for it.
pub proof fn law_detected_devices_are_what_was_found(
    b: SysfsBackend,
    found: Seq<CandidateView>,
    limits: Seq<Option<DeviceLimits>>,
    i: int,
)
    requires
        holds_detected(b, found, limits),
        0 <= i < found.len(),
    ensures
        b.devices@.len() == found.len(),
        b.devices@[i].index == i,
        b.devices@[i].board_type@ == found[i].name,
        b.devices@[i].architecture == found[i].architecture,
        found[i].bus_id is Some ==> b.devices@[i].bus_id@ == found[i].bus_id->0,
        found[i].bus_id is None ==> b.devices@[i].bus_id@ == found[i].dir_name,
        i < limits.len() ==> b.devices@[i].limits == limits[i],
        b.telemetry_cache@.len() == 0 && b.smbus_cache@.len() == 0,
{
    assert(is_detected(b.devices@[i], i, found[i], limits));
}

/// A card's type becomes its board type, and its firmware version is taken where
/// none was known; what the driver does not say stays, and nothing else changes.
pub proof fn law_cards_are_what_the_driver_says(
    before: Device,
    after: Device,
    attrs: Option<CardAttrs>,
)
    requires
        enriched_by(before, after, attrs),
    ensures
        attrs is None ==> after == before,
        attrs matches Some(a) ==> {
            &&& a.card_type is Some && text::trimmed(a.card_type->0@).len() > 0
                ==> after.board_type@ == text::trimmed(a.card_type->0@)
            &&& a.card_type is None || text::trimmed(a.card_type->0@).len() == 0
                ==> after.board_type@ == before.board_type@
            &&& before.firmwares is Some ==> after.firmwares == before.firmwares
            &&& before.firmwares is None && a.fw_bundle_ver is Some && text::trimmed(
                a.fw_bundle_ver->0@,
            ).len() > 0 ==> after.firmwares is Some && text::opt_text(
                after.firmwares->0.fw_bundle_version,
            ) == Some(text::trimmed(a.fw_bundle_ver->0@))
            &&& before.firmwares is None && (a.fw_bundle_ver is None || text::trimmed(
                a.fw_bundle_ver->0@,
            ).len() == 0) ==> after.firmwares is None
        },
        after.index == before.index && after.bus_id == before.bus_id && after.limits
            == before.limits && after.architecture == before.architecture,
{
}

/// A device takes the board type that its bus id is listed with, and no other: in a
/// list in which no bus id stands twice, the one of the element that bears it.
pub proof fn law_board_types_go_by_bus_id(
    before: Device,
    after: Device,
    skus: Map<Seq<char>, String>,
    elements: Seq<JsonView>,
    k: int,
)
    requires
        retyped(before, after, skus),
        text_values(skus) == sku_map(elements, elements.len()),
        0 <= k < elements.len(),
        element_sku(elements[k]) matches Some((bus, _)) && bus == parts::normalized(
            before.bus_id@,
        ),
        forall|l: int|
            k < l < elements.len() ==> (element_sku(#[trigger] elements[l]) matches Some((bus, _))
                ==> bus != parts::normalized(before.bus_id@)),
    ensures
        element_sku(elements[k]) matches Some((_, board)) && after.board_type@ == board,
        after.index == before.index && after.bus_id == before.bus_id && after.limits
            == before.limits && after.firmwares == before.firmwares,
{
    lemma_sku_map(elements, elements.len(), k);
    let bus = parts::normalized(before.bus_id@);
    assert(text_values(skus).contains_key(bus));
    assert(text_values(skus)[bus] == skus[bus]@);
}

spec fn sku_bus(j: JsonView) -> Seq<char> {
    let (bus, _) = element_sku(j)->0;
    bus
}

spec fn sku_board(j: JsonView) -> Seq<char> {
    let (_, board) = element_sku(j)->0;
    board
}

proof fn lemma_sku_map(elements: Seq<JsonView>, n: nat, k: int)
    requires
        0 <= k < n <= elements.len(),
        element_sku(elements[k]) is Some,
        forall|l: int|
            k < l < n && element_sku(#[trigger] elements[l]) is Some ==> sku_bus(elements[l])
                != sku_bus(elements[k]),
    ensures
        sku_map(elements, n).contains_key(sku_bus(elements[k])),
        sku_map(elements, n)[sku_bus(elements[k])] == sku_board(elements[k]),
    decreases n,
{
    if k < n - 1 {
        lemma_sku_map(elements, (n - 1) as nat, k);
        assert(element_sku(elements[n - 1]) is Some ==> sku_bus(elements[n - 1])
            != sku_bus(elements[k]));
    }
}

/// The bus id and the type of a board stand in the members of these names.
pub proof fn law_board_types_are_read_by_name(j: JsonView, b: JsonView, bus: Seq<char>, board: Seq<char>)
    requires
        j is Object,
        b is Object,
        document::member(j, "board_info"@) == Some(b),
        document::member(b, "bus_id"@) == Some(JsonView::Text(bus)),
        document::member(b, "board_type"@) == Some(JsonView::Text(board)),
        parts::normalized(bus).len() > 0,
        board.len() > 0,
    ensures
        element_sku(j) == Some((parts::normalized(bus), board)),
{
}

/// A tool is asked only where the number in front of the first dot of its version
/// is at least 4.
pub proof fn law_old_tools_are_not_asked(n: nat, rest: Seq<char>)
    requires
        n <= u32::MAX,
        rest.len() > 0 ==> !text::is_white(rest.last()),
    ensures
        major_version(text::decimal(n) + "."@ + rest) == n,
        major_version(text::decimal(n)) == n,
        is_gentle(text::decimal(n) + "."@ + rest) <==> n >= 4,
        is_gentle(text::decimal(n)) <==> n >= 4,
{
    reveal_strlit(".");
    let none = Seq::<char>::empty();
    let d = text::decimal(n);
    let s = d + "."@ + rest;
    text::lemma_decimal_is_digits(n);
    text::law_decimal_reads_back(n);
    assert(text::digit_value(d[0], 10) is Some);
    if rest.len() > 0 {
        assert(s.last() == rest.last());
    } else {
        assert(s.last() == '.');
    }
    text::law_trimming_leaves_the_text(none, s, none);
    assert(none + s + none =~= s);
    assert(s =~= d + (seq!['.'] + rest));
    lemma_before_dot(d, seq!['.'] + rest);
    lemma_before_dot(d, none);
    assert(d + none =~= d);
}

proof fn lemma_before_dot(a: Seq<char>, b: Seq<char>)
    requires
        !a.contains('.'),
        b.len() > 0 ==> b[0] == '.',
    ensures
        before_dot(a + b) == a,
    decreases a.len(),
{
    let s = a + b;
    if a.len() == 0 {
        assert(s =~= b);
        assert(a =~= Seq::<char>::empty());
    } else {
        assert(s[0] == a[0]);
        assert(a.contains(a[0]));
        assert(s.skip(1) =~= a.skip(1) + b);
        assert(!a.skip(1).contains('.')) by {
            if a.skip(1).contains('.') {
                let i = choose|i: int| 0 <= i < a.skip(1).len() && a.skip(1)[i] == '.';
                assert(a[i + 1] == '.');
            }
        }
        lemma_before_dot(a.skip(1), b);
        assert(seq![a[0]] + a.skip(1) =~= a);
    }
}

/// After a slow lane the telemetry of a device holds what its attributes say, and there
/// is none where they say nothing; that of no other device changes.
pub proof fn law_slow_readings_are_served(
    before: Map<usize, SmbusTelemetry>,
    after: Map<usize, SmbusTelemetry>,
    idx: usize,
    s: SlowFiles,
    a: ClassAttrs,
)
    requires
        smbus_refreshed(before, after, idx, s),
        s.attrs == Some(a),
    ensures
        a.aiclk is Some && text::trimmed(a.aiclk->0@).len() > 0 ==> after.contains_key(idx)
            && after[idx].aiclk is Some && after[idx].aiclk->0@ == text::trimmed(a.aiclk->0@),
        a.axiclk is Some && text::trimmed(a.axiclk->0@).len() > 0 ==> after.contains_key(idx)
            && after[idx].axiclk is Some && after[idx].axiclk->0@ == text::trimmed(a.axiclk->0@),
        a.arcclk is Some && text::trimmed(a.arcclk->0@).len() > 0 ==> after.contains_key(idx)
            && after[idx].arcclk is Some && after[idx].arcclk->0@ == text::trimmed(a.arcclk->0@),
        a.heartbeat is Some && text::trimmed(a.heartbeat->0@).len() > 0 ==> after.contains_key(idx)
            && after[idx].arc0_health is Some && after[idx].arc0_health->0@ == text::trimmed(
            a.heartbeat->0@,
        ),
        a.serial is Some && text::trimmed(a.serial->0@).len() > 0 ==> after.contains_key(idx)
            && after[idx].board_id is Some && after[idx].board_id->0@ == text::trimmed(a.serial->0@),
        a.therm_trip_count is Some && text::trimmed(a.therm_trip_count->0@).len() > 0
            ==> after.contains_key(idx) && after[idx].therm_trip_count is Some,
        a.m3app_fw_ver is Some && text::trimmed(a.m3app_fw_ver->0@).len() > 0
            ==> after.contains_key(idx) && after[idx].m3_app_fw_version is Some,
        a.aiclk is None && a.axiclk is None && a.arcclk is None && a.heartbeat is None && a.serial
            is None && a.therm_trip_count is None && a.m3app_fw_ver is None && s.fan is None
            ==> !after.contains_key(idx),
        forall|other: usize|
            other != idx ==> (#[trigger] after.contains_key(other) <==> before.contains_key(other)),
        forall|other: usize|
            other != idx && #[trigger] after.contains_key(other) ==> after[other] == before[other],
{
    let smbus = choose|smbus: SmbusTelemetry| #[trigger]
        synthesized(smbus, s.attrs, text::opt_text(s.fan)) && after == if has_data(smbus) {
            before.insert(idx, smbus)
        } else {
            before.remove(idx)
        };
    law_attributes_are_served_by_name(smbus, a, text::opt_text(s.fan));
}

/// The board types of a document are those of its `device_info`, of which every element
/// must be readable.
pub proof fn law_board_types_are_in_device_info(doc: JsonView, a: Seq<JsonView>)
    requires
        doc is Object,
        document::member(doc, "device_info"@) == Some(JsonView::Array(a)),
    ensures
        (forall|i: int| 0 <= i < a.len() ==> element_ok(#[trigger] a[i])) ==> document_skus(doc)
            == sku_map(a, a.len()),
        (exists|i: int| 0 <= i < a.len() && !element_ok(#[trigger] a[i])) ==> document_skus(doc)
            == Map::<Seq<char>, Seq<char>>::empty(),
{
}

/// Between two slow lanes the clock and the heartbeat stay what they were, and before the
/// first there are none.
pub proof fn law_slow_values_are_carried(before: Map<usize, Telemetry>, idx: usize)
    ensures
        before.contains_key(idx) ==> carried(before, idx, |t: Telemetry| t.aiclk)
            == before[idx].aiclk,
        before.contains_key(idx) ==> carried(before, idx, |t: Telemetry| t.heartbeat)
            == before[idx].heartbeat,
        !before.contains_key(idx) ==> carried(before, idx, |t: Telemetry| t.aiclk) is None,
{
}

/// A card's attributes are those at its own position.
pub proof fn law_cards_keep_their_position(cards: Seq<Option<CardAttrs>>, i: int)
    ensures
        0 <= i < cards.len() ==> card_at(cards, i) == cards[i],
        i >= cards.len() ==> card_at(cards, i) is None && !has_card(cards, i),
        has_card(cards, i) <==> 0 <= i < cards.len() && cards[i] is Some && cards[i]->0.card_type
            is Some && text::trimmed(cards[i]->0.card_type->0@).len() > 0,
{
}

/// The current is derived where it is not read, from a power and a voltage above zero
/// that are.
pub proof fn law_currents_are_derived_where_none_is_read(
    f: HwmonFiles,
    power: nat,
    voltage: nat,
    after: Seq<char>,
)
    requires
        text::all_white(after),
        power <= i64::MAX,
        voltage <= i32::MAX,
        f.power matches Some(s) && s@ == text::decimal(power) + after,
        f.voltage matches Some(s) && s@ == text::decimal(voltage) + after,
    ensures
        f.current is None ==> (derives_current(f) <==> voltage > 0),
        f.current is Some && opt_signed32(text::opt_text(f.current)) is Some ==> !derives_current(
            f,
        ),
        !derives_current(HwmonFiles { power: None, ..f }),
        !derives_current(HwmonFiles { voltage: None, ..f }),
{
    let none = Seq::<char>::empty();
    hwmon::law_file_numbers_read_back(none, power as int, after);
    hwmon::law_file_numbers_read_back(none, voltage as int, after);
    assert(none + text::decimal(power) + after =~= text::decimal(power) + after);
    assert(none + text::decimal(voltage) + after =~= text::decimal(voltage) + after);
}

} // verus!
