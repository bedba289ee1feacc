//! The data that every backend serves: devices, their telemetry, their SMBUS
//! telemetry, and the processes that use them.
//!
//! A measured quantity is held as the decimal text that it was reported in
//! (`"34.8"` for degrees Celsius, `"16.0"` for watts), memory temperatures as
//! whole millidegrees.

use vstd::prelude::*;

use crate::text;
use crate::text::{append_decimal, chars_of, decimal_text, parse_unsigned, trim_chars};

verus! {

/// The generation of a chip.
#[derive(Clone, Copy, Debug, PartialEq, Eq, Structural)]
pub enum Architecture {
    Grayskull,
    Wormhole,
    Blackhole,
    Unknown,
}

/// The architecture that a board type names: `e` boards carry Grayskull, `n`
/// boards Wormhole and `p` boards Blackhole, where the letter precedes a
/// number.
pub open spec fn board_architecture(board_type: Seq<char>) -> Architecture {
    if board_type.len() < 2 || !text::is_digit(board_type[1]) {
        Architecture::Unknown
    } else if text::ascii_lower(board_type[0]) == 'e' {
        Architecture::Grayskull
    } else if text::ascii_lower(board_type[0]) == 'n' {
        Architecture::Wormhole
    } else if text::ascii_lower(board_type[0]) == 'p' {
        Architecture::Blackhole
    } else {
        Architecture::Unknown
    }
}

impl Architecture {
    /// The architecture that a board type names.
    pub fn from_board_type(board_type: &str) -> (arch: Self)
        ensures
            arch == board_architecture(board_type@),
    {
        let chars = chars_of(board_type);
        if chars.len() < 2 || !('0' <= chars[1] && chars[1] <= '9') {
            return Architecture::Unknown;
        }
        match text::to_ascii_lower(chars[0]) {
            'e' => Architecture::Grayskull,
            'n' => Architecture::Wormhole,
            'p' => Architecture::Blackhole,
            _ => Architecture::Unknown,
        }
    }
}

/// Firmware bundle and component versions of a device.
#[derive(Debug, PartialEq)]
pub struct FirmwaresInfo {
    pub fw_bundle_version: Option<String>,
    pub eth_fw: Option<String>,
    pub cm_fw: Option<String>,
    pub gddr_fw: Option<String>,
}

/// Firmware ceilings of a device. `thm_limit` is the throttle point.
#[derive(Debug, PartialEq)]
pub struct DeviceLimits {
    pub tdp_limit: Option<String>,
    pub tdc_limit: Option<String>,
    pub asic_fmax: Option<u32>,
    pub thm_limit: Option<String>,
}

/// A copy of an optional string.
pub fn copy_text(s: &Option<String>) -> (r: Option<String>)
    ensures
        r == *s,
{
    match s {
        Some(t) => Some(t.clone()),
        None => None,
    }
}

impl FirmwaresInfo {
    /// A copy.
    pub fn dup(&self) -> (r: Self)
        ensures
            r == *self,
    {
        FirmwaresInfo {
            fw_bundle_version: copy_text(&self.fw_bundle_version),
            eth_fw: copy_text(&self.eth_fw),
            cm_fw: copy_text(&self.cm_fw),
            gddr_fw: copy_text(&self.gddr_fw),
        }
    }
}

impl DeviceLimits {
    /// A copy.
    pub fn dup(&self) -> (r: Self)
        ensures
            r == *self,
    {
        DeviceLimits {
            tdp_limit: copy_text(&self.tdp_limit),
            tdc_limit: copy_text(&self.tdc_limit),
            asic_fmax: self.asic_fmax,
            thm_limit: copy_text(&self.thm_limit),
        }
    }
}

/// A monitored device.
#[derive(Debug, PartialEq)]
pub struct Device {
    pub index: usize,
    pub board_type: String,
    pub bus_id: String,
    pub coords: String,
    pub architecture: Architecture,
    pub firmwares: Option<FirmwaresInfo>,
    pub limits: Option<DeviceLimits>,
    /// PCIe generation, such as `Gen4`.
    pub pcie_speed: Option<String>,
    /// PCIe lane width.
    pub pcie_width: Option<u8>,
    /// Rows and columns to draw in place of the architecture's core grid.
    pub grid_override: Option<(usize, usize)>,
    /// Memory channels in place of the architecture's own.
    pub channels_override: Option<usize>,
}

/// The memory channels of an architecture.
pub open spec fn architecture_channels(arch: Architecture) -> usize {
    match arch {
        Architecture::Grayskull => 4,
        Architecture::Wormhole => 8,
        Architecture::Blackhole => 12,
        Architecture::Unknown => 0,
    }
}

/// The core grid of an architecture, as rows and columns.
pub open spec fn architecture_grid(arch: Architecture) -> (usize, usize) {
    match arch {
        Architecture::Grayskull => (10, 12),
        Architecture::Wormhole => (8, 10),
        Architecture::Blackhole => (14, 16),
        Architecture::Unknown => (0, 0),
    }
}

impl Device {
    /// A device whose architecture its board type names, with nothing else
    /// known of it.
    pub fn new(index: usize, board_type: String, bus_id: String, coords: String) -> (device: Self)
        ensures
            device.index == index,
            device.board_type == board_type,
            device.bus_id == bus_id,
            device.coords == coords,
            device.architecture == board_architecture(board_type@),
            device.firmwares is None,
            device.limits is None,
            device.pcie_speed is None,
            device.pcie_width is None,
            device.grid_override is None,
            device.channels_override is None,
    {
        let architecture = Architecture::from_board_type(board_type.as_str());
        Device {
            index,
            board_type,
            bus_id,
            coords,
            architecture,
            firmwares: None,
            limits: None,
            pcie_speed: None,
            pcie_width: None,
            grid_override: None,
            channels_override: None,
        }
    }

    /// The number of memory channels.
    pub fn memory_channels(&self) -> (n: usize)
        ensures
            n == match self.channels_override {
                Some(c) => c,
                None => architecture_channels(self.architecture),
            },
    {
        match self.channels_override {
            Some(c) => c,
            None => match self.architecture {
                Architecture::Grayskull => 4,
                Architecture::Wormhole => 8,
                Architecture::Blackhole => 12,
                Architecture::Unknown => 0,
            },
        }
    }

    /// The core grid, as rows and columns.
    pub fn tensix_grid(&self) -> (grid: (usize, usize))
        ensures
            grid == match self.grid_override {
                Some(g) => g,
                None => architecture_grid(self.architecture),
            },
    {
        match self.grid_override {
            Some(g) => g,
            None => match self.architecture {
                Architecture::Grayskull => (10, 12),
                Architecture::Wormhole => (8, 10),
                Architecture::Blackhole => (14, 16),
                Architecture::Unknown => (0, 0),
            },
        }
    }

    /// A copy.
    pub fn dup(&self) -> (r: Self)
        ensures
            r == *self,
    {
        Device {
            index: self.index,
            board_type: self.board_type.clone(),
            bus_id: self.bus_id.clone(),
            coords: self.coords.clone(),
            architecture: self.architecture,
            firmwares: match &self.firmwares {
                Some(f) => Some(f.dup()),
                None => None,
            },
            limits: match &self.limits {
                Some(l) => Some(l.dup()),
                None => None,
            },
            pcie_speed: copy_text(&self.pcie_speed),
            pcie_width: self.pcie_width,
            grid_override: self.grid_override,
            channels_override: self.channels_override,
        }
    }
}

/// One reading of a device's core sensors.
#[derive(Debug, PartialEq)]
pub struct Telemetry {
    /// Volts.
    pub voltage: Option<String>,
    /// Amperes.
    pub current: Option<String>,
    /// Watts.
    pub power: Option<String>,
    /// Degrees Celsius.
    pub asic_temperature: Option<String>,
    /// Megahertz.
    pub aiclk: Option<u32>,
    pub heartbeat: Option<u32>,
    /// Milliseconds since the Unix epoch.
    pub timestamp_ms: i64,
    /// Watts that the whole board draws.
    pub board_power: Option<String>,
}

impl Telemetry {
    /// A reading at the given time with no value in it.
    pub fn empty(timestamp_ms: i64) -> (t: Self)
        ensures
            t == (Telemetry {
                voltage: None,
                current: None,
                power: None,
                asic_temperature: None,
                aiclk: None,
                heartbeat: None,
                timestamp_ms,
                board_power: None,
            }),
    {
        Telemetry {
            voltage: None,
            current: None,
            power: None,
            asic_temperature: None,
            aiclk: None,
            heartbeat: None,
            timestamp_ms,
            board_power: None,
        }
    }

    /// A copy.
    pub fn dup(&self) -> (r: Self)
        ensures
            r == *self,
    {
        Telemetry {
            voltage: copy_text(&self.voltage),
            current: copy_text(&self.current),
            power: copy_text(&self.power),
            asic_temperature: copy_text(&self.asic_temperature),
            aiclk: self.aiclk,
            heartbeat: self.heartbeat,
            timestamp_ms: self.timestamp_ms,
            board_power: copy_text(&self.board_power),
        }
    }
}

/// A process that uses a device.
#[derive(Debug, PartialEq)]
pub struct DeviceProcess {
    pub pid: Option<i64>,
    pub user: Option<String>,
    pub device: Option<usize>,
    pub cmdline: Option<String>,
}

/// The four temperatures of a pair of memory channels, in millidegrees
/// Celsius.
#[derive(Clone, Copy, Debug, PartialEq, Eq)]
pub struct GddrTempPair(pub [u32; 4]);

/// One memory channel.
#[derive(Clone, Copy, Debug, PartialEq, Eq, Structural)]
pub struct GddrChannel {
    pub channel: u32,
    pub harvested: bool,
    pub enabled: bool,
    pub training_pass: bool,
    pub bist_pass: bool,
    /// Millidegrees Celsius.
    pub temp_top: Option<u32>,
    /// Millidegrees Celsius.
    pub temp_bottom: Option<u32>,
    pub corr_rd: Option<u32>,
    pub corr_wr: Option<u32>,
    pub uncorr_rd: Option<u32>,
    pub uncorr_wr: Option<u32>,
}

/// The memory of a device, channel by channel.
#[derive(Debug, PartialEq)]
pub struct GddrTelemetry {
    pub speed: Option<String>,
    /// Millidegrees Celsius.
    pub max_temp: Option<u32>,
    pub enabled_mask: Option<u32>,
    pub channels: Vec<GddrChannel>,
}

/// Whether two memory rollups hold the same.
pub open spec fn same_gddr(a: Option<GddrTelemetry>, b: Option<GddrTelemetry>) -> bool {
    match (a, b) {
        (Some(x), Some(y)) => {
            &&& x.speed == y.speed
            &&& x.max_temp == y.max_temp
            &&& x.enabled_mask == y.enabled_mask
            &&& x.channels@ == y.channels@
        },
        (None, None) => true,
        _ => false,
    }
}

/// A copy of an optional memory rollup.
pub fn copy_gddr(g: &Option<GddrTelemetry>) -> (r: Option<GddrTelemetry>)
    ensures
        same_gddr(r, *g),
{
    match g {
        None => None,
        Some(g) => {
            let mut channels: Vec<GddrChannel> = Vec::new();
            for i in 0..g.channels.len()
                invariant
                    channels@ == g.channels@.take(i as int),
            {
                channels.push(g.channels[i]);
                assert(channels@ =~= g.channels@.take(i as int + 1));
            }
            assert(channels@ =~= g.channels@);
            Some(
                GddrTelemetry {
                    speed: copy_text(&g.speed),
                    max_temp: g.max_temp,
                    enabled_mask: g.enabled_mask,
                    channels,
                },
            )
        },
    }
}

/// SMBUS telemetry of a device. Texts are register values as the source gave
/// them, in hexadecimal or decimal.
#[derive(Debug, PartialEq)]
pub struct SmbusTelemetry {
    pub board_id: Option<String>,
    pub enum_version: Option<String>,
    pub device_id: Option<String>,
    pub ddr_speed: Option<String>,
    pub ddr_status: Option<String>,
    pub arc0_health: Option<String>,
    pub arc1_health: Option<String>,
    pub arc2_health: Option<String>,
    pub arc3_health: Option<String>,
    pub arc0_fw_version: Option<String>,
    pub arc1_fw_version: Option<String>,
    pub arc2_fw_version: Option<String>,
    pub arc3_fw_version: Option<String>,
    pub eth_fw_version: Option<String>,
    pub m3_bl_fw_version: Option<String>,
    pub m3_app_fw_version: Option<String>,
    pub spibootrom_fw_version: Option<String>,
    pub tt_flash_version: Option<String>,
    pub aiclk: Option<String>,
    pub axiclk: Option<String>,
    pub arcclk: Option<String>,
    pub asic_temperature: Option<String>,
    pub vreg_temperature: Option<String>,
    pub board_temperature: Option<String>,
    pub vcore: Option<String>,
    pub tdp: Option<String>,
    pub tdc: Option<String>,
    pub throttler: Option<String>,
    pub vdd_limits: Option<String>,
    pub thm_limits: Option<String>,
    pub fan_speed: Option<String>,
    pub faults: Option<String>,
    pub pcie_status: Option<String>,
    pub eth_status0: Option<String>,
    pub eth_status1: Option<String>,
    pub input_power: Option<String>,
    pub board_power_limit: Option<String>,
    pub therm_trip_count: Option<String>,
    pub boot_date: Option<String>,
    pub rt_seconds: Option<String>,
    pub wh_fw_date: Option<String>,
    pub asic_tmon0: Option<String>,
    pub asic_tmon1: Option<String>,
    pub mvddq_power: Option<String>,
    pub gddr_train_temp0: Option<String>,
    pub gddr_train_temp1: Option<String>,
    pub aux_status: Option<String>,
    pub eth_debug_status0: Option<String>,
    pub eth_debug_status1: Option<String>,
    pub gddr_temps: [Option<GddrTempPair>; 4],
    /// Millidegrees Celsius.
    pub max_gddr_temp: Option<u64>,
    pub gddr_corr_errs: [Option<u32>; 4],
    pub gddr_uncorr_errs: Option<u32>,
    pub harvesting_state: Option<u32>,
    pub eth_live_status: Option<u64>,
    pub enabled_eth: Option<u32>,
    pub enabled_gddr: Option<u32>,
    pub enabled_l2cpu: Option<u32>,
    pub enabled_tensix_col: Option<u32>,
    pub gddr_telemetry: Option<GddrTelemetry>,
}

/// Whether `s` holds nothing.
pub open spec fn smbus_is_empty(s: SmbusTelemetry) -> bool {
    &&& s.board_id is None
    &&& s.enum_version is None
    &&& s.device_id is None
    &&& s.ddr_speed is None
    &&& s.ddr_status is None
    &&& s.arc0_health is None
    &&& s.arc1_health is None
    &&& s.arc2_health is None
    &&& s.arc3_health is None
    &&& s.arc0_fw_version is None
    &&& s.arc1_fw_version is None
    &&& s.arc2_fw_version is None
    &&& s.arc3_fw_version is None
    &&& s.eth_fw_version is None
    &&& s.m3_bl_fw_version is None
    &&& s.m3_app_fw_version is None
    &&& s.spibootrom_fw_version is None
    &&& s.tt_flash_version is None
    &&& s.aiclk is None
    &&& s.axiclk is None
    &&& s.arcclk is None
    &&& s.asic_temperature is None
    &&& s.vreg_temperature is None
    &&& s.board_temperature is None
    &&& s.vcore is None
    &&& s.tdp is None
    &&& s.tdc is None
    &&& s.throttler is None
    &&& s.vdd_limits is None
    &&& s.thm_limits is None
    &&& s.fan_speed is None
    &&& s.faults is None
    &&& s.pcie_status is None
    &&& s.eth_status0 is None
    &&& s.eth_status1 is None
    &&& s.input_power is None
    &&& s.board_power_limit is None
    &&& s.therm_trip_count is None
    &&& s.boot_date is None
    &&& s.rt_seconds is None
    &&& s.wh_fw_date is None
    &&& s.asic_tmon0 is None
    &&& s.asic_tmon1 is None
    &&& s.mvddq_power is None
    &&& s.gddr_train_temp0 is None
    &&& s.gddr_train_temp1 is None
    &&& s.aux_status is None
    &&& s.eth_debug_status0 is None
    &&& s.eth_debug_status1 is None
    &&& s.max_gddr_temp is None
    &&& s.gddr_uncorr_errs is None
    &&& s.harvesting_state is None
    &&& s.eth_live_status is None
    &&& s.enabled_eth is None
    &&& s.enabled_gddr is None
    &&& s.enabled_l2cpu is None
    &&& s.enabled_tensix_col is None
    &&& s.gddr_telemetry is None
    &&& forall|i: int| 0 <= i < 4 ==> #[trigger] s.gddr_temps@[i] is None
    &&& forall|i: int| 0 <= i < 4 ==> #[trigger] s.gddr_corr_errs@[i] is None
}

/// Whether two readings hold the same.
pub open spec fn same_smbus(a: SmbusTelemetry, b: SmbusTelemetry) -> bool {
    &&& a.board_id == b.board_id
    &&& a.enum_version == b.enum_version
    &&& a.device_id == b.device_id
    &&& a.ddr_speed == b.ddr_speed
    &&& a.ddr_status == b.ddr_status
    &&& a.arc0_health == b.arc0_health
    &&& a.arc1_health == b.arc1_health
    &&& a.arc2_health == b.arc2_health
    &&& a.arc3_health == b.arc3_health
    &&& a.arc0_fw_version == b.arc0_fw_version
    &&& a.arc1_fw_version == b.arc1_fw_version
    &&& a.arc2_fw_version == b.arc2_fw_version
    &&& a.arc3_fw_version == b.arc3_fw_version
    &&& a.eth_fw_version == b.eth_fw_version
    &&& a.m3_bl_fw_version == b.m3_bl_fw_version
    &&& a.m3_app_fw_version == b.m3_app_fw_version
    &&& a.spibootrom_fw_version == b.spibootrom_fw_version
    &&& a.tt_flash_version == b.tt_flash_version
    &&& a.aiclk == b.aiclk
    &&& a.axiclk == b.axiclk
    &&& a.arcclk == b.arcclk
    &&& a.asic_temperature == b.asic_temperature
    &&& a.vreg_temperature == b.vreg_temperature
    &&& a.board_temperature == b.board_temperature
    &&& a.vcore == b.vcore
    &&& a.tdp == b.tdp
    &&& a.tdc == b.tdc
    &&& a.throttler == b.throttler
    &&& a.vdd_limits == b.vdd_limits
    &&& a.thm_limits == b.thm_limits
    &&& a.fan_speed == b.fan_speed
    &&& a.faults == b.faults
    &&& a.pcie_status == b.pcie_status
    &&& a.eth_status0 == b.eth_status0
    &&& a.eth_status1 == b.eth_status1
    &&& a.input_power == b.input_power
    &&& a.board_power_limit == b.board_power_limit
    &&& a.therm_trip_count == b.therm_trip_count
    &&& a.boot_date == b.boot_date
    &&& a.rt_seconds == b.rt_seconds
    &&& a.wh_fw_date == b.wh_fw_date
    &&& a.asic_tmon0 == b.asic_tmon0
    &&& a.asic_tmon1 == b.asic_tmon1
    &&& a.mvddq_power == b.mvddq_power
    &&& a.gddr_train_temp0 == b.gddr_train_temp0
    &&& a.gddr_train_temp1 == b.gddr_train_temp1
    &&& a.aux_status == b.aux_status
    &&& a.eth_debug_status0 == b.eth_debug_status0
    &&& a.eth_debug_status1 == b.eth_debug_status1
    &&& a.gddr_temps == b.gddr_temps
    &&& a.gddr_corr_errs == b.gddr_corr_errs
    &&& a.max_gddr_temp == b.max_gddr_temp
    &&& a.gddr_uncorr_errs == b.gddr_uncorr_errs
    &&& a.harvesting_state == b.harvesting_state
    &&& a.eth_live_status == b.eth_live_status
    &&& a.enabled_eth == b.enabled_eth
    &&& a.enabled_gddr == b.enabled_gddr
    &&& a.enabled_l2cpu == b.enabled_l2cpu
    &&& a.enabled_tensix_col == b.enabled_tensix_col
    &&& same_gddr(a.gddr_telemetry, b.gddr_telemetry)
}

impl Default for SmbusTelemetry {
    fn default() -> (s: Self)
        ensures
            smbus_is_empty(s),
    {
        SmbusTelemetry {
            board_id: None,
            enum_version: None,
            device_id: None,
            ddr_speed: None,
            ddr_status: None,
            arc0_health: None,
            arc1_health: None,
            arc2_health: None,
            arc3_health: None,
            arc0_fw_version: None,
            arc1_fw_version: None,
            arc2_fw_version: None,
            arc3_fw_version: None,
            eth_fw_version: None,
            m3_bl_fw_version: None,
            m3_app_fw_version: None,
            spibootrom_fw_version: None,
            tt_flash_version: None,
            aiclk: None,
            axiclk: None,
            arcclk: None,
            asic_temperature: None,
            vreg_temperature: None,
            board_temperature: None,
            vcore: None,
            tdp: None,
            tdc: None,
            throttler: None,
            vdd_limits: None,
            thm_limits: None,
            fan_speed: None,
            faults: None,
            pcie_status: None,
            eth_status0: None,
            eth_status1: None,
            input_power: None,
            board_power_limit: None,
            therm_trip_count: None,
            boot_date: None,
            rt_seconds: None,
            wh_fw_date: None,
            asic_tmon0: None,
            asic_tmon1: None,
            mvddq_power: None,
            gddr_train_temp0: None,
            gddr_train_temp1: None,
            aux_status: None,
            eth_debug_status0: None,
            eth_debug_status1: None,
            max_gddr_temp: None,
            gddr_uncorr_errs: None,
            harvesting_state: None,
            eth_live_status: None,
            enabled_eth: None,
            enabled_gddr: None,
            enabled_l2cpu: None,
            enabled_tensix_col: None,
            gddr_telemetry: None,
            gddr_temps: [None, None, None, None],
            gddr_corr_errs: [None, None, None, None],
        }
    }
}

/// The unsigned number that a register text denotes: hexadecimal after `0x`
/// or `0X`, decimal otherwise, between whitespace.
pub open spec fn register_value(s: Seq<char>, max: nat) -> Option<nat> {
    let t = text::trimmed(s);
    if has_hex_prefix(t) {
        text::unsigned_value(t.skip(2), 16, max)
    } else {
        text::unsigned_value(t, 10, max)
    }
}

/// Whether `t` begins with `0x` or `0X`.
pub open spec fn has_hex_prefix(t: Seq<char>) -> bool {
    t.len() >= 2 && t[0] == '0' && (t[1] == 'x' || t[1] == 'X')
}

/// Reads a register text that denotes at most `max`.
pub fn parse_register(s: &str, max: u64) -> (n: Option<u64>)
    ensures
        text::opt_nat(n) == register_value(s@, max as nat),
{
    let t = trim_chars(s);
    if t.len() >= 2 && t[0] == '0' && (t[1] == 'x' || t[1] == 'X') {
        let mut rest: Vec<char> = Vec::new();
        for i in 2..t.len()
            invariant
                rest@ =~= t@.subrange(2, i as int),
        {
            rest.push(t[i]);
        }
        assert(rest@ =~= t@.skip(2));
        parse_unsigned(rest.as_slice(), 16, max)
    } else {
        parse_unsigned(t.as_slice(), 10, max)
    }
}

/// The view of an optional 32-bit number.
pub open spec fn opt_nat32(n: Option<u32>) -> Option<nat> {
    match n {
        Some(v) => Some(v as nat),
        None => None,
    }
}

/// Reads a 32-bit register text.
pub fn parse_hex_or_dec(s: &str) -> (n: Option<u32>)
    ensures
        opt_nat32(n) == register_value(s@, u32::MAX as nat),
{
    match parse_register(s, u32::MAX as u64) {
        Some(v) => Some(v as u32),
        None => None,
    }
}

/// Reads a 64-bit register text.
pub fn parse_hex_or_dec_64(s: &str) -> (n: Option<u64>)
    ensures
        text::opt_nat(n) == register_value(s@, u64::MAX as nat),
{
    parse_register(s, u64::MAX)
}

/// The register values by which firmware reports that there is no fan.
pub open spec fn fan_sentinel(v: nat) -> bool {
    v == 0 || v == 0xffff || v == 0xffff_ffff
}

/// Whether a fan register holds no reading.
pub fn is_fan_sentinel(v: u32) -> (r: bool)
    ensures
        r == fan_sentinel(v as nat),
{
    v == 0 || v == 0xffff || v == 0xffff_ffff
}

/// The fan speed that a register text reports.
pub open spec fn fan_reading(s: Seq<char>) -> Option<nat> {
    match register_value(s, u32::MAX as nat) {
        Some(v) => if fan_sentinel(v) { None } else { Some(v) },
        None => None,
    }
}

/// The fan speed that a register text reports, unless it holds no reading.
pub fn real_fan_rpm(s: &str) -> (rpm: Option<u32>)
    ensures
        opt_nat32(rpm) == fan_reading(s@),
{
    match parse_hex_or_dec(s) {
        Some(v) => if is_fan_sentinel(v) {
            None
        } else {
            Some(v)
        },
        None => None,
    }
}

/// Byte `i` of a word, the lowest first.
pub open spec fn byte_of(word: nat, i: int) -> nat {
    if i == 0 {
        word % 256
    } else if i == 1 {
        (word / 0x100) % 256
    } else if i == 2 {
        (word / 0x1_0000) % 256
    } else {
        (word / 0x100_0000) % 256
    }
}

/// The four temperatures packed into a register, one byte of degrees each,
/// the lowest byte first.
pub fn unpack_gddr_temps_u32(word: u32) -> (pair: GddrTempPair)
    ensures
        forall|i: int| 0 <= i < 4 ==> #[trigger] pair.0@[i] == byte_of(word as nat, i) * 1000,
{
    GddrTempPair(
        [
            (word % 256) * 1000,
            ((word / 0x100) % 256) * 1000,
            ((word / 0x1_0000) % 256) * 1000,
            ((word / 0x100_0000) % 256) * 1000,
        ],
    )
}

/// Whether `pair` is what a register text unpacks to.
pub open spec fn temps_match(pair: Option<GddrTempPair>, s: Option<Seq<char>>) -> bool {
    match s {
        Some(t) => match register_value(t, u32::MAX as nat) {
            Some(word) => match pair {
                Some(p) => forall|i: int|
                    0 <= i < 4 ==> #[trigger] p.0@[i] == byte_of(word, i) * 1000,
                None => false,
            },
            None => pair is None,
        },
        None => pair is None,
    }
}

/// Unpacks the four temperatures of a register text.
pub fn unpack_gddr_temps(s: &str) -> (pair: Option<GddrTempPair>)
    ensures
        temps_match(pair, Some(s@)),
{
    match parse_hex_or_dec(s) {
        Some(word) => Some(unpack_gddr_temps_u32(word)),
        None => None,
    }
}

/// The shutdown trip point, in degrees Celsius, that a raw thermal-limit
/// register holds: Blackhole reports it plainly, the others pack it into the
/// low half.
pub fn thm_limit_shutdown_c(raw: u32, arch: Architecture) -> (c: u32)
    ensures
        c == if arch == Architecture::Blackhole { raw as int } else { raw as int % 0x1_0000 },
{
    match arch {
        Architecture::Blackhole => raw,
        _ => raw % 0x1_0000,
    }
}

/// The dotted text of a packed version, the highest byte first.
pub open spec fn dotted_version(word: nat) -> Seq<char> {
    text::decimal(byte_of(word, 3)) + seq!['.'] + text::decimal(byte_of(word, 2)) + seq!['.']
        + text::decimal(byte_of(word, 1)) + seq!['.'] + text::decimal(byte_of(word, 0))
}

/// The dotted text of a packed firmware bundle version.
pub fn fw_bundle_version_string(word: u32) -> (s: String)
    ensures
        s@ == dotted_version(word as nat),
{
    let mut s = decimal_text(((word / 0x100_0000) % 256) as u64);
    s.push('.');
    append_decimal(&mut s, ((word / 0x1_0000) % 256) as u64);
    s.push('.');
    append_decimal(&mut s, ((word / 0x100) % 256) as u64);
    s.push('.');
    append_decimal(&mut s, (word % 256) as u64);
    assert(s@ =~= dotted_version(word as nat));
    s
}

/// The value of an optional register text.
pub open spec fn opt_register(s: Option<Seq<char>>, max: nat) -> Option<nat> {
    match s {
        Some(t) => register_value(t, max),
        None => None,
    }
}

/// The decimal text of the number that a text denotes.
pub open spec fn number_text(s: Seq<char>) -> Option<Seq<char>> {
    let t = text::trimmed(s);
    if has_hex_prefix(t) {
        match text::unsigned_value(t.skip(2), 16, u64::MAX as nat) {
            Some(v) => Some(text::decimal(v)),
            None => None,
        }
    } else if text::is_float(t) {
        Some(t)
    } else {
        None
    }
}

/// The decimal text of an optional number.
pub open spec fn opt_reading(s: Option<Seq<char>>) -> Option<Seq<char>> {
    match s {
        Some(t) => number_text(t),
        None => None,
    }
}

/// The decimal text of the number that a text denotes, in hexadecimal after
/// `0x` or in decimal.
pub fn reading_text(s: &str) -> (r: Option<String>)
    ensures
        text::opt_text(r) == number_text(s@),
{
    let t = trim_chars(s);
    if t.len() >= 2 && t[0] == '0' && (t[1] == 'x' || t[1] == 'X') {
        match parse_register(s, u64::MAX) {
            Some(v) => Some(decimal_text(v)),
            None => None,
        }
    } else if text::is_float_literal(t.as_slice()) {
        Some(text::string_of(t.as_slice()))
    } else {
        None
    }
}

impl SmbusTelemetry {
    /// The fan speed, unless the fan field holds no reading.
    pub fn fan_rpm(&self) -> (rpm: Option<u32>)
        ensures
            opt_nat32(rpm) == match self.fan_speed {
                Some(s) => fan_reading(s@),
                None => None,
            },
    {
        match &self.fan_speed {
            Some(s) => real_fan_rpm(s.as_str()),
            None => None,
        }
    }

    /// Whether the heartbeat of ARC 0 reads above 0.
    pub fn is_arc0_healthy(&self) -> (r: bool)
        ensures
            r == (opt_register(text::opt_text(self.arc0_health), u32::MAX as nat) matches Some(v)
                && v > 0),
    {
        match &self.arc0_health {
            Some(s) => match parse_hex_or_dec(s.as_str()) {
                Some(v) => v > 0,
                None => false,
            },
            None => false,
        }
    }

    /// The thermal design power, in watts.
    pub fn tdp_watts(&self) -> (w: Option<String>)
        ensures
            text::opt_text(w) == opt_reading(text::opt_text(self.tdp)),
    {
        match &self.tdp {
            Some(s) => reading_text(s.as_str()),
            None => None,
        }
    }

    /// The thermal design current, in amperes.
    pub fn tdc_amperes(&self) -> (a: Option<String>)
        ensures
            text::opt_text(a) == opt_reading(text::opt_text(self.tdc)),
    {
        match &self.tdc {
            Some(s) => reading_text(s.as_str()),
            None => None,
        }
    }

    /// A copy.
    pub fn dup(&self) -> (r: Self)
        ensures
            same_smbus(r, *self),
    {
        SmbusTelemetry {
            board_id: copy_text(&self.board_id),
            enum_version: copy_text(&self.enum_version),
            device_id: copy_text(&self.device_id),
            ddr_speed: copy_text(&self.ddr_speed),
            ddr_status: copy_text(&self.ddr_status),
            arc0_health: copy_text(&self.arc0_health),
            arc1_health: copy_text(&self.arc1_health),
            arc2_health: copy_text(&self.arc2_health),
            arc3_health: copy_text(&self.arc3_health),
            arc0_fw_version: copy_text(&self.arc0_fw_version),
            arc1_fw_version: copy_text(&self.arc1_fw_version),
            arc2_fw_version: copy_text(&self.arc2_fw_version),
            arc3_fw_version: copy_text(&self.arc3_fw_version),
            eth_fw_version: copy_text(&self.eth_fw_version),
            m3_bl_fw_version: copy_text(&self.m3_bl_fw_version),
            m3_app_fw_version: copy_text(&self.m3_app_fw_version),
            spibootrom_fw_version: copy_text(&self.spibootrom_fw_version),
            tt_flash_version: copy_text(&self.tt_flash_version),
            aiclk: copy_text(&self.aiclk),
            axiclk: copy_text(&self.axiclk),
            arcclk: copy_text(&self.arcclk),
            asic_temperature: copy_text(&self.asic_temperature),
            vreg_temperature: copy_text(&self.vreg_temperature),
            board_temperature: copy_text(&self.board_temperature),
            vcore: copy_text(&self.vcore),
            tdp: copy_text(&self.tdp),
            tdc: copy_text(&self.tdc),
            throttler: copy_text(&self.throttler),
            vdd_limits: copy_text(&self.vdd_limits),
            thm_limits: copy_text(&self.thm_limits),
            fan_speed: copy_text(&self.fan_speed),
            faults: copy_text(&self.faults),
            pcie_status: copy_text(&self.pcie_status),
            eth_status0: copy_text(&self.eth_status0),
            eth_status1: copy_text(&self.eth_status1),
            input_power: copy_text(&self.input_power),
            board_power_limit: copy_text(&self.board_power_limit),
            therm_trip_count: copy_text(&self.therm_trip_count),
            boot_date: copy_text(&self.boot_date),
            rt_seconds: copy_text(&self.rt_seconds),
            wh_fw_date: copy_text(&self.wh_fw_date),
            asic_tmon0: copy_text(&self.asic_tmon0),
            asic_tmon1: copy_text(&self.asic_tmon1),
            mvddq_power: copy_text(&self.mvddq_power),
            gddr_train_temp0: copy_text(&self.gddr_train_temp0),
            gddr_train_temp1: copy_text(&self.gddr_train_temp1),
            aux_status: copy_text(&self.aux_status),
            eth_debug_status0: copy_text(&self.eth_debug_status0),
            eth_debug_status1: copy_text(&self.eth_debug_status1),
            gddr_temps: self.gddr_temps,
            gddr_corr_errs: self.gddr_corr_errs,
            max_gddr_temp: self.max_gddr_temp,
            gddr_uncorr_errs: self.gddr_uncorr_errs,
            harvesting_state: self.harvesting_state,
            eth_live_status: self.eth_live_status,
            enabled_eth: self.enabled_eth,
            enabled_gddr: self.enabled_gddr,
            enabled_l2cpu: self.enabled_l2cpu,
            enabled_tensix_col: self.enabled_tensix_col,
            gddr_telemetry: copy_gddr(&self.gddr_telemetry),
        }
    }
}

/// A board type names its architecture by a letter, in either case, before a
/// digit, whatever follows: `e` Grayskull, `n` Wormhole and `p` Blackhole. No
/// other board type names one.
pub proof fn law_letters_name_architectures(letter: char, digit: char, rest: Seq<char>)
    requires
        '0' <= digit <= '9',
    ensures
        letter == 'e' || letter == 'E' ==> board_architecture(seq![letter, digit] + rest)
            == Architecture::Grayskull,
        letter == 'n' || letter == 'N' ==> board_architecture(seq![letter, digit] + rest)
            == Architecture::Wormhole,
        letter == 'p' || letter == 'P' ==> board_architecture(seq![letter, digit] + rest)
            == Architecture::Blackhole,
        board_architecture(seq![letter, digit] + rest) != Architecture::Unknown ==> letter == 'e'
            || letter == 'E' || letter == 'n' || letter == 'N' || letter == 'p' || letter == 'P',
        board_architecture(rest) != Architecture::Unknown ==> rest.len() >= 2 && '0' <= rest[1]
            <= '9',
{
}

/// The cores of a chip stand in a grid of its architecture's rows and columns,
/// and its memory has as many channels: 10 by 12 and 4 on Grayskull, 8 by 10 and
/// 8 on Wormhole, 14 by 16 and 12 on Blackhole.
pub proof fn law_architectures_have_their_size(arch: Architecture)
    ensures
        architecture_grid(arch) == match arch {
            Architecture::Grayskull => (10usize, 12usize),
            Architecture::Wormhole => (8usize, 10usize),
            Architecture::Blackhole => (14usize, 16usize),
            Architecture::Unknown => (0usize, 0usize),
        },
        architecture_channels(arch) == match arch {
            Architecture::Grayskull => 4usize,
            Architecture::Wormhole => 8usize,
            Architecture::Blackhole => 12usize,
            Architecture::Unknown => 0usize,
        },
{
}

/// A register text denotes the same number in decimal and, behind `0x`, in
/// hexadecimal, whatever whitespace stands around it; a number above the largest
/// is none.
pub proof fn law_registers_read_back(
    before: Seq<char>,
    n: nat,
    after: Seq<char>,
    max: nat,
    x: char,
)
    requires
        text::all_white(before),
        text::all_white(after),
        x == 'x' || x == 'X',
    ensures
        register_value(before + text::decimal(n) + after, max) == if n <= max {
            Some(n)
        } else {
            None
        },
        register_value(before + (seq!['0', x] + text::hexadecimal(n)) + after, max) == if n
            <= max {
            Some(n)
        } else {
            None
        },
        number_text(before + text::decimal(n) + after) == Some(text::decimal(n)),
        n <= u64::MAX ==> number_text(before + (seq!['0', x] + text::hexadecimal(n)) + after)
            == Some(text::decimal(n)),
{
    let d = text::decimal(n);
    let h = text::hexadecimal(n);
    let t = seq!['0', x] + h;
    text::law_decimal_reads_back(n);
    text::law_hexadecimal_reads_back(n);
    assert(text::digit_value(d[0], 10) is Some);
    assert(text::digit_value(d[d.len() - 1], 10) is Some);
    assert(d.last() == d[d.len() - 1]);
    assert(d.len() >= 2 ==> text::digit_value(d[1], 10) is Some);
    text::law_trimming_leaves_the_text(before, d, after);
    assert(text::digit_value(h[0], 16) is Some);
    assert(text::digit_value(h[h.len() - 1], 16) is Some);
    assert(t.last() == h[h.len() - 1]);
    text::law_trimming_leaves_the_text(before, t, after);
    assert(t.skip(2) =~= h);
    assert forall|k: int| 0 <= k < d.len() implies text::is_digit(#[trigger] d[k]) by {
        assert(text::digit_value(d[k], 10) is Some);
    }
    lemma_run_of_digits(d, 0);
}

proof fn lemma_run_of_digits(s: Seq<char>, i: int)
    requires
        0 <= i <= s.len(),
        forall|k: int| i <= k < s.len() ==> text::is_digit(#[trigger] s[k]),
    ensures
        text::digits_end(s, i) == s.len(),
    decreases s.len() - i,
{
    if i < s.len() {
        lemma_run_of_digits(s, i + 1);
    }
}

/// A fan register is a speed, unless it holds one of the three values by which
/// firmware says that there is none: 0, all ones in 16 bits, or all ones in 32.
pub proof fn law_fan_registers_are_speeds(n: nat)
    requires
        n <= u32::MAX,
    ensures
        fan_reading(text::decimal(n)) == if n == 0 || n == 65535 || n == 4294967295 {
            None
        } else {
            Some(n)
        },
{
    let none = Seq::<char>::empty();
    law_registers_read_back(none, n, none, u32::MAX as nat, 'x');
    assert(none + text::decimal(n) + none =~= text::decimal(n));
}

proof fn lemma_parted(x: int, by: int, q: int, r: int)
    requires
        by > 0,
        0 <= r < by,
        x == by * q + r,
    ensures
        x / by == q,
        x % by == r,
{
    assert(by * q == q * by) by (nonlinear_arith);
    vstd::arithmetic::div_mod::lemma_fundamental_div_mod_converse(x, by, q, r);
}

/// A word is unpacked into the four bytes that it is packed of, the lowest first,
/// and a packed version is shown with its highest byte first.
pub proof fn law_words_unpack_into_their_bytes(a: nat, b: nat, c: nat, d: nat)
    requires
        a < 256,
        b < 256,
        c < 256,
        d < 256,
    ensures
        ({
            let word = a + 256 * b + 65536 * c + 16777216 * d;
            &&& byte_of(word, 0) == a
            &&& byte_of(word, 1) == b
            &&& byte_of(word, 2) == c
            &&& byte_of(word, 3) == d
            &&& dotted_version(word) == text::decimal(d) + "."@ + text::decimal(c) + "."@
                + text::decimal(b) + "."@ + text::decimal(a)
        }),
{
    reveal_strlit(".");
    let word = a + 256 * b + 65536 * c + 16777216 * d;
    let w1 = (b + 256 * c + 65536 * d) as int;
    let w2 = (c + 256 * d) as int;
    lemma_parted(word as int, 256, w1, a as int);
    lemma_parted(word as int, 65536, w2, (a + 256 * b) as int);
    lemma_parted(word as int, 16777216, d as int, (a + 256 * b + 65536 * c) as int);
    lemma_parted(w1, 256, w2, b as int);
    lemma_parted(w2, 256, d as int, c as int);
    lemma_parted(d as int, 256, 0, d as int);
    assert(dotted_version(word) =~= text::decimal(d) + "."@ + text::decimal(c) + "."@
        + text::decimal(b) + "."@ + text::decimal(a));
}

} // verus!
