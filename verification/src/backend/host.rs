//! State of the backend that shows the processor of this machine as a device.
//!
//! The application samples the operating system and computes the fractions;
//! here is what becomes of them.

use std::collections::HashMap;

use vstd::prelude::*;

use crate::backend::{BackendConfig, TelemetryBackend};
use crate::error::{BackendError, BackendResult};
use crate::models::{Architecture, Device, SmbusTelemetry, Telemetry};
use crate::text;
use crate::text::{
    append_decimal, decimal_text, is_float_literal, parse_unsigned, str_eq, string_of, trim,
    trim_chars,
};

verus! {

broadcast use vstd::std_specs::hash::group_hash_axioms;

// Counters and sensors

/// The energy counter of a socket: the first of the files that holds a number.
pub open spec fn counter_of(files: Seq<Option<Seq<char>>>) -> Option<nat>
    decreases files.len(),
{
    if files.len() == 0 {
        None
    } else {
        let first = match files[0] {
            Some(s) => text::unsigned_value(text::trimmed(s), 10, u64::MAX as nat),
            None => None,
        };
        if first is Some { first } else { counter_of(files.skip(1)) }
    }
}

/// The views of optional texts.
pub open spec fn opt_texts(v: Seq<Option<String>>) -> Seq<Option<Seq<char>>> {
    v.map_values(|s: Option<String>| text::opt_text(s))
}

/// The energy counter of a socket, in microjoules, out of the files that may
/// hold it.
pub fn rapl_energy_uj(files: &Vec<Option<String>>) -> (uj: Option<u64>)
    ensures
        text::opt_nat(uj) == counter_of(opt_texts(files@)),
{
    let ghost views = opt_texts(files@);
    assert(views.skip(0) =~= views);
    for i in 0..files.len()
        invariant
            views == opt_texts(files@),
            counter_of(views) == counter_of(views.skip(i as int)),
    {
        assert(views.skip(i as int)[0] == text::opt_text(files@[i as int]));
        if let Some(s) = &files[i] {
            let t = trim_chars(s.as_str());
            let n: Option<u64> = parse_unsigned(t.as_slice(), 10, u64::MAX);
            if n.is_some() {
                return n;
            }
        }
        assert(views.skip(i as int).skip(1) =~= views.skip(i as int + 1));
    }
    None
}

/// A sensor of a chip: its label, and what its file holds, in thousandths of a
/// degree.
#[derive(Debug)]
pub struct ChipSensor {
    pub label: String,
    pub input: Option<String>,
}

/// A chip with sensors: its name, if it could be read.
#[derive(Debug)]
pub struct SensorChip {
    pub name: Option<String>,
    pub sensors: Vec<ChipSensor>,
}

/// Whether a chip measures processors.
pub open spec fn measures_processor(name: Seq<char>) -> bool {
    let n = text::trimmed(name);
    n == "coretemp"@ || n == "k10temp"@ || n == "zenpower"@
}

/// Whether a label is that of the whole socket.
pub open spec fn is_package_label(label: Seq<char>, socket: nat) -> bool {
    let l = text::trimmed(label);
    l == "Package id "@ + text::decimal(socket) || (socket == 0 && (l == "Tdie"@ || l == "Tccd1"@))
}

/// The temperature that a sensor file holds, as the number that it writes.
pub open spec fn sensor_number(input: Option<Seq<char>>) -> Option<Seq<char>> {
    match input {
        Some(s) => if text::is_float(text::trimmed(s)) {
            Some(text::trimmed(s))
        } else {
            None
        },
        None => None,
    }
}

/// The temperature of the first sensor from `i` on that is that of the socket.
pub open spec fn package_reading(sensors: Seq<ChipSensor>, socket: nat, i: int) -> Option<Seq<char>>
    decreases sensors.len() - i,
{
    if i < 0 || i >= sensors.len() {
        None
    } else {
        let t = sensor_number(text::opt_text(sensors[i].input));
        if is_package_label(sensors[i].label@, socket) && t is Some {
            t
        } else {
            package_reading(sensors, socket, i + 1)
        }
    }
}

/// The temperature of a socket, out of the chips from `i` on. A chip whose name
/// cannot be read ends the search.
pub open spec fn socket_reading(chips: Seq<SensorChip>, socket: nat, i: int) -> Option<Seq<char>>
    decreases chips.len() - i,
{
    if i < 0 || i >= chips.len() {
        None
    } else {
        match chips[i].name {
            None => None,
            Some(name) => {
                let t = package_reading(chips[i].sensors@, socket, 0);
                if measures_processor(name@) && t is Some {
                    t
                } else {
                    socket_reading(chips, socket, i + 1)
                }
            },
        }
    }
}

fn package_of(sensors: &Vec<ChipSensor>, socket: usize) -> (t: Option<String>)
    ensures
        text::opt_text(t) == package_reading(sensors@, socket as nat, 0),
{
    let mut package = "Package id ".to_owned();
    append_decimal(&mut package, socket as u64);
    for i in 0..sensors.len()
        invariant
            package@ == "Package id "@ + text::decimal(socket as nat),
            package_reading(sensors@, socket as nat, 0) == package_reading(
                sensors@,
                socket as nat,
                i as int,
            ),
    {
        let label = trim(sensors[i].label.as_str());
        let fits = str_eq(label.as_str(), package.as_str()) || (socket == 0 && (str_eq(
            label.as_str(),
            "Tdie",
        ) || str_eq(label.as_str(), "Tccd1")));
        if fits {
            if let Some(s) = &sensors[i].input {
                let v = trim_chars(s.as_str());
                if is_float_literal(v.as_slice()) {
                    return Some(string_of(v.as_slice()));
                }
            }
        }
    }
    None
}

/// The temperature of a socket, in thousandths of a degree.
pub fn cpu_package_temp_millideg(chips: &Vec<SensorChip>, socket: usize) -> (t: Option<String>)
    ensures
        text::opt_text(t) == socket_reading(chips@, socket as nat, 0),
{
    for i in 0..chips.len()
        invariant
            socket_reading(chips@, socket as nat, 0) == socket_reading(
                chips@,
                socket as nat,
                i as int,
            ),
    {
        match &chips[i].name {
            None => return None,
            Some(name) => {
                let n = trim(name.as_str());
                let fits = str_eq(n.as_str(), "coretemp") || str_eq(n.as_str(), "k10temp")
                    || str_eq(n.as_str(), "zenpower");
                if fits {
                    let t = package_of(&chips[i].sensors, socket);
                    if t.is_some() {
                        return t;
                    }
                }
            },
        }
    }
    None
}

// The grid

/// Whether a grid is as near to a square as one of so many columns can be, and
/// holds `n` cells: the columns are the least whose square does, and the rows
/// the least that do.
pub open spec fn near_square(n: nat, rows: nat, cols: nat) -> bool {
    &&& cols >= 1
    &&& rows >= 1
    &&& n <= cols * cols
    &&& cols > 1 ==> (cols - 1) * (cols - 1) < n
    &&& n <= rows * cols
    &&& rows > 1 ==> (rows - 1) * cols < n
}

/// The grid of `n` cores.
pub fn core_grid(n: usize) -> (grid: (usize, usize))
    requires
        n >= 1,
    ensures
        near_square(n as nat, grid.0 as nat, grid.1 as nat),
{
    let mut cols: usize = 1;
    while (cols as u128) * (cols as u128) < n as u128
        invariant
            1 <= cols <= n,
            cols > 1 ==> (cols - 1) * (cols - 1) < n,
            cols * cols <= 0xffff_ffff_ffff_ffff * 0xffff_ffff_ffff_ffff,
        decreases n - cols,
    {
        assert(cols < n) by (nonlinear_arith)
            requires
                1 <= cols,
                cols * cols < n,
                cols <= n,
        ;
        cols = cols + 1;
        assert((cols - 1) * (cols - 1) < n);
        assert(cols * cols <= 0xffff_ffff_ffff_ffff * 0xffff_ffff_ffff_ffff) by (nonlinear_arith)
            requires
                0 <= cols <= 0xffff_ffff_ffff_ffff,
        ;
    }
    let whole: usize = n / cols;
    assert(n == cols * whole + n % cols) by {
        vstd::arithmetic::div_mod::lemma_fundamental_div_mod(n as int, cols as int);
    }
    assert(whole <= cols * whole) by (nonlinear_arith)
        requires
            cols >= 1,
            whole >= 0,
    ;
    let rows: usize = if n % cols == 0 { whole } else { whole + 1 };
    assert(cols * whole == whole * cols) by (nonlinear_arith);
    assert((whole + 1) * cols == whole * cols + cols) by (nonlinear_arith);
    assert((whole - 1) * cols == whole * cols - cols) by (nonlinear_arith);
    if n % cols == 0 {
        if whole == 0 {
            assert(whole * cols == 0) by (nonlinear_arith)
                requires
                    whole == 0,
            ;
        }
    }
    (rows, cols)
}

// The backend

/// What was sampled of a socket. The fractions are decimal texts.
#[derive(Debug)]
pub struct HostReading {
    /// The current, or what stands for it.
    pub current: String,
    /// The power, measured or guessed from the load.
    pub power: String,
    pub temperature: Option<String>,
    /// The highest clock of a core, in megahertz.
    pub max_freq_mhz: u32,
    /// How full the memory is, in percent.
    pub fill_pct: u32,
}

/// Serves the processor of this machine.
#[derive(Debug)]
pub struct HostBackend {
    pub devices: Vec<Device>,
    pub telemetry: HashMap<usize, Telemetry>,
    pub smbus: HashMap<usize, SmbusTelemetry>,
    /// The energy counter of each socket when it was last read.
    pub prev_rapl_uj: HashMap<usize, u64>,
    /// When the counters were last read, in nanoseconds.
    pub prev_rapl_ns: u64,
    pub socket_count: usize,
    pub core_count: usize,
    /// What the processor calls itself, if it does.
    pub brand: Option<String>,
    pub config: BackendConfig,
}

/// Whether `d` is the device of a socket.
pub open spec fn socket_device(d: Device, socket: int, cores: nat) -> bool {
    &&& d.index == socket
    &&& d.board_type@ == "cpu-"@ + text::decimal(socket as nat)
    &&& d.bus_id@ == "socket:"@ + text::decimal(socket as nat)
    &&& d.coords@ == seq!['('] + text::decimal(socket as nat) + ",0)"@
    &&& d.architecture == Architecture::Unknown
    &&& d.firmwares is None
    &&& d.limits is None
    &&& d.pcie_speed is None
    &&& d.pcie_width is None
    &&& d.grid_override matches Some(g) && near_square(cores, g.0 as nat, g.1 as nat)
    &&& d.channels_override == Some(4usize)
}

fn make_socket_device(socket: usize, cores: usize) -> (d: Device)
    requires
        cores >= 1,
    ensures
        socket_device(d, socket as int, cores as nat),
{
    let mut board_type = "cpu-".to_owned();
    append_decimal(&mut board_type, socket as u64);
    let mut bus_id = "socket:".to_owned();
    append_decimal(&mut bus_id, socket as u64);
    let mut coords = String::new();
    coords.push('(');
    append_decimal(&mut coords, socket as u64);
    coords.append(",0)");
    assert(coords@ =~= seq!['('] + text::decimal(socket as nat) + ",0)"@);
    Device {
        index: socket,
        board_type,
        bus_id,
        coords,
        architecture: Architecture::Unknown,
        firmwares: None,
        limits: None,
        pcie_speed: None,
        pcie_width: None,
        grid_override: Some(core_grid(cores)),
        channels_override: Some(4),
    }
}

/// The energy that a socket used since its counter was last read, and over how
/// long: none where the counter was not read before, went backwards, or no time
/// has passed.
pub open spec fn energy_window(
    before: Option<u64>,
    prev_ns: u64,
    energy: Option<u64>,
    now_ns: u64,
) -> Option<(u64, u64)> {
    match (before, energy) {
        (Some(prev), Some(uj)) => if now_ns > prev_ns && uj >= prev {
            Some(((uj - prev) as u64, (now_ns - prev_ns) as u64))
        } else {
            None
        },
        _ => None,
    }
}

/// Whether `t` is the telemetry of a reading.
pub open spec fn host_telemetry(t: Telemetry, r: HostReading, now_ms: i64) -> bool {
    &&& t.voltage is None
    &&& text::opt_text(t.current) == Some(r.current@)
    &&& text::opt_text(t.power) == Some(r.power@)
    &&& text::opt_text(t.asic_temperature) == text::opt_text(r.temperature)
    &&& t.aiclk == Some(r.max_freq_mhz)
    &&& t.heartbeat == Some(1u32)
    &&& t.timestamp_ms == now_ms
    &&& t.board_power is None
}

/// The value of a key, if it is there.
pub open spec fn at<V>(m: Map<usize, V>, k: usize) -> Option<V> {
    if m.contains_key(k) { Some(m[k]) } else { None }
}

impl HostBackend {
    /// A backend with the default settings.
    pub fn new() -> (b: Self)
        ensures
            b.devices@.len() == 0,
            b.telemetry@ == Map::<usize, Telemetry>::empty(),
            b.smbus@ == Map::<usize, SmbusTelemetry>::empty(),
            b.prev_rapl_uj@ == Map::<usize, u64>::empty(),
            b.prev_rapl_ns == 0,
            b.socket_count == 1,
            b.core_count == 0,
            b.brand is None,
            b.config == (BackendConfig {
                update_interval_ms: 100,
                max_consecutive_errors: 10,
                read_timeout_ms: 5000,
                verbose: false,
            }),
    {
        Self::with_config(BackendConfig::default())
    }

    /// A backend with the given settings.
    pub fn with_config(config: BackendConfig) -> (b: Self)
        ensures
            b.devices@.len() == 0,
            b.telemetry@ == Map::<usize, Telemetry>::empty(),
            b.smbus@ == Map::<usize, SmbusTelemetry>::empty(),
            b.prev_rapl_uj@ == Map::<usize, u64>::empty(),
            b.prev_rapl_ns == 0,
            b.socket_count == 1,
            b.core_count == 0,
            b.brand is None,
            b.config == config,
    {
        HostBackend {
            devices: Vec::new(),
            telemetry: HashMap::new(),
            smbus: HashMap::new(),
            prev_rapl_uj: HashMap::new(),
            prev_rapl_ns: 0,
            socket_count: 1,
            core_count: 0,
            brand: None,
            config,
        }
    }

    /// Takes over what the operating system tells of the processor, and makes
    /// the device of its one socket. It is an error to have no core.
    pub fn register(&mut self, core_count: usize, brand: Option<String>) -> (r: BackendResult<()>)
        ensures
            r is Ok <==> core_count > 0,
            r matches Err(e) ==> (e matches BackendError::Initialization(m) && m@
                == "sysinfo: no CPU cores found"@) && final(self).devices == old(self).devices,
            r is Ok ==> {
                &&& final(self).devices@.len() == old(self).devices@.len() + 1
                &&& final(self).devices@.drop_last() == old(self).devices@
                &&& socket_device(final(self).devices@.last(), 0, core_count as nat)
            },
            final(self).core_count == core_count,
            final(self).socket_count == 1,
            final(self).brand == brand,
            final(self).telemetry == old(self).telemetry,
            final(self).smbus == old(self).smbus,
            final(self).prev_rapl_uj == old(self).prev_rapl_uj,
            final(self).prev_rapl_ns == old(self).prev_rapl_ns,
            final(self).config == old(self).config,
    {
        self.core_count = core_count;
        self.socket_count = 1;
        self.brand = brand;
        if core_count == 0 {
            return Err(BackendError::Initialization("sysinfo: no CPU cores found".to_owned()));
        }
        self.devices.push(make_socket_device(0, core_count));
        assert(self.devices@.drop_last() =~= old(self).devices@);
        Ok(())
    }

    /// Notes the energy counter of a socket, to measure from.
    pub fn seed_energy(&mut self, socket: usize, energy: Option<u64>)
        ensures
            final(self).prev_rapl_uj@ == match energy {
                Some(uj) => old(self).prev_rapl_uj@.insert(socket, uj),
                None => old(self).prev_rapl_uj@,
            },
            final(self).devices == old(self).devices,
            final(self).telemetry == old(self).telemetry,
            final(self).smbus == old(self).smbus,
            final(self).prev_rapl_ns == old(self).prev_rapl_ns,
            final(self).socket_count == old(self).socket_count,
            final(self).core_count == old(self).core_count,
            final(self).brand == old(self).brand,
            final(self).config == old(self).config,
    {
        if let Some(uj) = energy {
            self.prev_rapl_uj.insert(socket, uj);
        }
    }

    /// Takes the energy counter of a socket, and gives the energy that it used
    /// since the last time, in microjoules, and over how many nanoseconds.
    pub fn sample_energy(&mut self, socket: usize, energy: Option<u64>, now_ns: u64) -> (r: Option<
        (u64, u64),
    >)
        ensures
            r == energy_window(
                at(old(self).prev_rapl_uj@, socket),
                old(self).prev_rapl_ns,
                energy,
                now_ns,
            ),
            final(self).prev_rapl_uj@ == match energy {
                Some(uj) => old(self).prev_rapl_uj@.insert(socket, uj),
                None => old(self).prev_rapl_uj@,
            },
            final(self).prev_rapl_ns == now_ns,
            final(self).devices == old(self).devices,
            final(self).telemetry == old(self).telemetry,
            final(self).smbus == old(self).smbus,
            final(self).socket_count == old(self).socket_count,
            final(self).core_count == old(self).core_count,
            final(self).brand == old(self).brand,
            final(self).config == old(self).config,
    {
        let before: Option<u64> = match self.prev_rapl_uj.get(&socket) {
            Some(v) => Some(*v),
            None => None,
        };
        let r: Option<(u64, u64)> = match (before, energy) {
            (Some(prev), Some(uj)) => if now_ns > self.prev_rapl_ns && uj >= prev {
                Some((uj - prev, now_ns - self.prev_rapl_ns))
            } else {
                None
            },
            _ => None,
        };
        if let Some(uj) = energy {
            self.prev_rapl_uj.insert(socket, uj);
        }
        self.prev_rapl_ns = now_ns;
        r
    }

    /// Takes what was sampled of a socket.
    pub fn sample_socket(&mut self, socket: usize, reading: HostReading, now_ms: i64)
        ensures
            final(self).telemetry@.dom() == old(self).telemetry@.dom().insert(socket),
            host_telemetry(final(self).telemetry@[socket], reading, now_ms),
            final(self).smbus@.dom() == old(self).smbus@.dom().insert(socket),
            memory_smbus(final(self).smbus@[socket], reading.fill_pct as nat),
            forall|k: usize|
                k != socket ==> {
                    &&& #[trigger] final(self).telemetry@[k] == old(self).telemetry@[k]
                    &&& final(self).smbus@[k] == old(self).smbus@[k]
                },
            final(self).devices == old(self).devices,
            final(self).prev_rapl_uj == old(self).prev_rapl_uj,
            final(self).prev_rapl_ns == old(self).prev_rapl_ns,
            final(self).socket_count == old(self).socket_count,
            final(self).core_count == old(self).core_count,
            final(self).brand == old(self).brand,
            final(self).config == old(self).config,
    {
        let fill: u32 = reading.fill_pct;
        let t = Telemetry {
            voltage: None,
            current: Some(reading.current),
            power: Some(reading.power),
            asic_temperature: reading.temperature,
            aiclk: Some(reading.max_freq_mhz),
            heartbeat: Some(1),
            timestamp_ms: now_ms,
            board_power: None,
        };
        self.telemetry.insert(socket, t);
        self.smbus.insert(socket, make_smbus_from_ram(fill));
        assert(self.telemetry@.dom() =~= old(self).telemetry@.dom().insert(socket));
        assert(self.smbus@.dom() =~= old(self).smbus@.dom().insert(socket));
    }
}

/// Whether `s` shows memory that is so full: a speed and a filling level, a
/// heartbeat, and nothing else.
pub open spec fn memory_smbus(s: SmbusTelemetry, fill_pct: nat) -> bool {
    &&& text::opt_text(s.ddr_speed) == Some("5600"@)
    &&& text::opt_text(s.ddr_status) == Some(text::decimal(fill_pct) + "%"@)
    &&& text::opt_text(s.arc0_health) == Some("1"@)
    &&& crate::models::smbus_is_empty(
        (SmbusTelemetry { ddr_speed: None, ddr_status: None, arc0_health: None, ..s }),
    )
}

fn make_smbus_from_ram(fill_pct: u32) -> (s: SmbusTelemetry)
    ensures
        memory_smbus(s, fill_pct as nat),
{
    let mut status = decimal_text(fill_pct as u64);
    status.append("%");
    let mut s = SmbusTelemetry::default();
    s.ddr_speed = Some("5600".to_owned());
    s.ddr_status = Some(status);
    s.arc0_health = Some("1".to_owned());
    s
}

impl TelemetryBackend for HostBackend {
    open spec fn device_list(&self) -> Seq<Device> {
        self.devices@
    }

    open spec fn telemetry_map(&self) -> Map<usize, Telemetry> {
        self.telemetry@
    }

    open spec fn smbus_map(&self) -> Map<usize, SmbusTelemetry> {
        self.smbus@
    }

    open spec fn info_text(&self) -> Seq<char> {
        "Host ("@ + (match self.brand {
            Some(b) => b@,
            None => "CPU"@,
        }) + " — "@ + text::decimal(self.core_count as nat) + " cores, "@ + text::decimal(
            self.socket_count as nat,
        ) + " sockets)"@
    }

    open spec fn snapshot_text(&self) -> Option<Seq<char>> {
        None
    }

    fn devices(&self) -> (devices: &Vec<Device>) {
        &self.devices
    }

    fn telemetry(&self, device_idx: usize) -> (t: Option<&Telemetry>) {
        self.telemetry.get(&device_idx)
    }

    fn smbus_telemetry(&self, device_idx: usize) -> (s: Option<&SmbusTelemetry>) {
        self.smbus.get(&device_idx)
    }

    fn backend_info(&self) -> (s: String) {
        let mut s = "Host (".to_owned();
        match &self.brand {
            Some(b) => s.append(b.as_str()),
            None => s.append("CPU"),
        }
        s.append(" — ");
        append_decimal(&mut s, self.core_count as u64);
        s.append(" cores, ");
        append_decimal(&mut s, self.socket_count as u64);
        s.append(" sockets)");
        s
    }

    fn snapshot_json(&self) -> (s: Option<String>) {
        None
    }
}

/// A counter that wrapped or was reset yields no power, never a negative one.
pub proof fn law_counter_resets_yield_no_power(prev: u64, prev_ns: u64, uj: u64, now_ns: u64)
    ensures
        uj < prev ==> energy_window(Some(prev), prev_ns, Some(uj), now_ns) is None,
        now_ns <= prev_ns ==> energy_window(Some(prev), prev_ns, Some(uj), now_ns) is None,
        energy_window(None, prev_ns, Some(uj), now_ns) is None,
{
}

/// A grid of a machine with a core has a row and a column, holds every core, and
/// has no row to spare.
pub proof fn law_grid_is_renderable(n: nat, rows: nat, cols: nat)
    requires
        near_square(n, rows, cols),
        n >= 1,
    ensures
        rows >= 1,
        cols >= 1,
        rows * cols >= n,
        rows <= cols,
{
    if rows > cols {
        assert((rows - 1) * cols >= cols * cols) by (nonlinear_arith)
            requires
                rows - 1 >= cols,
                cols >= 1,
        ;
    }
}

/// The energy that a socket used is the difference of its counter, over the
/// difference of the times; the windows of two samples that follow each other are
/// one window together.
pub proof fn law_energy_is_what_the_counter_gained(
    a: u64,
    at_a: u64,
    b: u64,
    at_b: u64,
    c: u64,
    at_c: u64,
)
    requires
        a <= b <= c,
        at_a < at_b < at_c,
    ensures
        energy_window(Some(a), at_a, Some(b), at_b) matches Some((uj, ns)) && uj == b - a && ns
            == at_b - at_a,
        ({
            let (uj_ab, ns_ab) = energy_window(Some(a), at_a, Some(b), at_b)->0;
            let (uj_bc, ns_bc) = energy_window(Some(b), at_b, Some(c), at_c)->0;
            let (uj_ac, ns_ac) = energy_window(Some(a), at_a, Some(c), at_c)->0;
            uj_ac == uj_ab + uj_bc && ns_ac == ns_ab + ns_bc
        }),
{
}

/// What is sampled of a socket is served as it is: the current, the power, the
/// temperature and the clock each in its own place, with the heart of a machine
/// that runs and no voltage. Its memory shows how full it is.
pub proof fn law_host_readings_are_served(
    t: Telemetry,
    s: SmbusTelemetry,
    r: HostReading,
    now_ms: i64,
)
    requires
        host_telemetry(t, r, now_ms),
        memory_smbus(s, r.fill_pct as nat),
    ensures
        t.current is Some && t.current->0@ == r.current@,
        t.power is Some && t.power->0@ == r.power@,
        t.asic_temperature is Some <==> r.temperature is Some,
        r.temperature is Some ==> t.asic_temperature->0@ == r.temperature->0@,
        t.aiclk == Some(r.max_freq_mhz),
        t.heartbeat == Some(1u32),
        t.timestamp_ms == now_ms,
        t.voltage is None && t.board_power is None,
        s.ddr_status is Some && s.ddr_status->0@ == text::decimal(r.fill_pct as nat) + "%"@,
        s.ddr_speed is Some && s.ddr_speed->0@ == "5600"@,
        s.arc0_health is Some && s.arc0_health->0@ == "1"@,
        s.tdp is None && s.tdc is None && s.aiclk is None && s.asic_temperature is None
            && s.fan_speed is None,
{
}

/// The energy counter is the number of the first file that holds one.
pub proof fn law_first_counter_counts(
    before: Seq<Option<Seq<char>>>,
    n: nat,
    after: Seq<Option<Seq<char>>>,
)
    requires
        n <= u64::MAX,
        forall|i: int|
            0 <= i < before.len() && (#[trigger] before[i]) is Some ==> text::unsigned_value(
                text::trimmed(before[i]->0),
                10,
                u64::MAX as nat,
            ) is None,
    ensures
        counter_of(before + seq![Some(text::decimal(n))] + after) == Some(n),
        counter_of(before) is None,
    decreases before.len(),
{
    let all = before + seq![Some(text::decimal(n))] + after;
    if before.len() == 0 {
        text::lemma_decimal_is_digits(n);
        text::law_decimal_reads_back(n);
        assert(all[0] == Some(text::decimal(n)));
        assert(text::digit_value(text::decimal(n)[0], 10) is Some);
    } else {
        assert(all[0] == before[0]);
        assert(all.skip(1) =~= before.skip(1) + seq![Some(text::decimal(n))] + after);
        assert forall|i: int|
            0 <= i < before.skip(1).len() && (#[trigger] before.skip(
                1,
            )[i]) is Some implies text::unsigned_value(
            text::trimmed(before.skip(1)[i]->0),
            10,
            u64::MAX as nat,
        ) is None by {
            assert(before.skip(1)[i] == before[i + 1]);
        }
        law_first_counter_counts(before.skip(1), n, after);
    }
}

/// The sensor of a whole socket is the one that is labelled with its number; on
/// the first socket the labels of the die will do.
pub proof fn law_labels_name_their_socket(label: Seq<char>, socket: nat, other: nat)
    ensures
        is_package_label("Package id "@ + text::decimal(socket), other) <==> other == socket,
        text::trimmed(label) == "Tdie"@ || text::trimmed(label) == "Tccd1"@ ==> (is_package_label(
            label,
            other,
        ) <==> other == 0),
        is_package_label(label, socket) ==> text::trimmed(label) == "Package id "@ + text::decimal(
            socket,
        ) || (socket == 0 && (text::trimmed(label) == "Tdie"@ || text::trimmed(label)
            == "Tccd1"@)),
{
    reveal_strlit("Package id ");
    reveal_strlit("Tdie");
    reveal_strlit("Tccd1");
    let none = Seq::<char>::empty();
    let p = "Package id "@;
    let d = text::decimal(socket);
    let l = p + d;
    text::lemma_decimal_is_digits(socket);
    assert(l[0] == 'P');
    assert(l.last() == d[d.len() - 1]);
    text::law_trimming_leaves_the_text(none, l, none);
    assert(none + l + none =~= l);
    assert("Tdie"@[0] == 'T' && "Tccd1"@[0] == 'T');
    if l == p + text::decimal(other) {
        assert(l.skip(p.len() as int) =~= d);
        assert((p + text::decimal(other)).skip(p.len() as int) =~= text::decimal(other));
        text::law_decimal_reads_back(socket);
        text::law_decimal_reads_back(other);
    }
    if text::trimmed(label) == "Tdie"@ || text::trimmed(label) == "Tccd1"@ {
        assert((p + text::decimal(other))[0] == 'P');
    }
}

/// The temperature of a socket is that of the first sensor with its label that
/// holds a number, of a chip that measures processors; a chip that does not is
/// passed over.
pub proof fn law_socket_temperature_is_the_labelled_one(
    chips: Seq<SensorChip>,
    socket: nat,
    i: int,
    k: int,
)
    requires
        0 <= i < chips.len(),
        0 <= k < chips[i].sensors@.len(),
        forall|c: int|
            0 <= c <= i ==> (#[trigger] chips[c]).name is Some,
        forall|c: int|
            0 <= c < i ==> !measures_processor((#[trigger] chips[c]).name->0@),
        measures_processor(chips[i].name->0@),
        is_package_label(chips[i].sensors@[k].label@, socket),
        chips[i].sensors@[k].input is Some,
        text::is_float(text::trimmed(chips[i].sensors@[k].input->0@)),
        forall|l: int|
            0 <= l < k ==> !is_package_label((#[trigger] chips[i].sensors@[l]).label@, socket),
    ensures
        socket_reading(chips, socket, 0) == Some(
            text::trimmed(chips[i].sensors@[k].input->0@),
        ),
        measures_processor("coretemp"@) && measures_processor("k10temp"@) && measures_processor(
            "zenpower"@,
        ),
{
    lemma_package_reading(chips[i].sensors@, socket, 0, k);
    lemma_socket_reading(chips, socket, 0, i);
    let none = Seq::<char>::empty();
    reveal_strlit("coretemp");
    reveal_strlit("k10temp");
    reveal_strlit("zenpower");
    text::law_trimming_leaves_the_text(none, "coretemp"@, none);
    text::law_trimming_leaves_the_text(none, "k10temp"@, none);
    text::law_trimming_leaves_the_text(none, "zenpower"@, none);
    assert(none + "coretemp"@ + none =~= "coretemp"@);
    assert(none + "k10temp"@ + none =~= "k10temp"@);
    assert(none + "zenpower"@ + none =~= "zenpower"@);
}

proof fn lemma_package_reading(sensors: Seq<ChipSensor>, socket: nat, i: int, k: int)
    requires
        0 <= i <= k < sensors.len(),
        forall|l: int|
            i <= l < k ==> !is_package_label((#[trigger] sensors[l]).label@, socket),
    ensures
        package_reading(sensors, socket, i) == package_reading(sensors, socket, k),
    decreases k - i,
{
    if i < k {
        assert(!is_package_label(sensors[i].label@, socket));
        lemma_package_reading(sensors, socket, i + 1, k);
    }
}

proof fn lemma_socket_reading(chips: Seq<SensorChip>, socket: nat, i: int, k: int)
    requires
        0 <= i <= k < chips.len(),
        forall|c: int| i <= c < k ==> (#[trigger] chips[c]).name is Some && !measures_processor(
            chips[c].name->0@,
        ),
    ensures
        socket_reading(chips, socket, i) == socket_reading(chips, socket, k),
    decreases k - i,
{
    if i < k {
        assert(chips[i].name is Some);
        lemma_socket_reading(chips, socket, i + 1, k);
    }
}

/// A socket is a device of its own number, named by it, with four memory channels and a
/// grid that holds its cores and no empty row.
pub proof fn law_sockets_are_numbered(d: Device, socket: int, cores: nat)
    requires
        socket_device(d, socket, cores),
        socket >= 0,
    ensures
        d.index == socket,
        d.board_type@ == "cpu-"@ + text::decimal(socket as nat),
        d.bus_id@ == "socket:"@ + text::decimal(socket as nat),
        d.coords@ == seq!['('] + text::decimal(socket as nat) + ",0)"@,
        d.architecture == Architecture::Unknown,
        d.channels_override == Some(4usize),
        d.grid_override matches Some((rows, cols)) && {
            &&& rows >= 1 && cols >= 1
            &&& rows * cols >= cores
            &&& rows > 1 ==> (rows - 1) * cols < cores
            &&& cols > 1 ==> (cols - 1) * (cols - 1) < cores <= cols * cols
        },
{
}

} // verus!
