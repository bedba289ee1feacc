//! State of the backend that reads the chips directly, and the mapping of
//! their registers.
//!
//! Blackhole fills the registers from a table of tags and Wormhole from a
//! fixed layout. A register that an architecture does not fill reads 0, which
//! must not be served as a reading; the mapping therefore asks for the
//! architecture.

use std::collections::HashMap;

use vstd::arithmetic::power::pow;
use vstd::prelude::*;

use crate::backend::hwmon;
use crate::backend::hwmon::thousandths_text;
use crate::backend::{BackendConfig, TelemetryBackend};
use crate::error::{BackendError, BackendResult};
use crate::models;
use crate::models::{
    fw_bundle_version_string, is_fan_sentinel, thm_limit_shutdown_c,
    unpack_gddr_temps_u32, Architecture, Device, DeviceLimits, FirmwaresInfo, GddrTempPair,
    SmbusTelemetry, Telemetry,
};
use crate::text;
use crate::text::{append_decimal, decimal_text};

verus! {

/// The architecture tag of the driver crate, with its three variants.
#[verifier::external_type_specification]
pub struct ExArch(luwen_def::Arch);

/// The architecture that a tag of the driver names.
#[allow(deprecated)]
pub fn map_arch(arch: luwen_def::Arch) -> (a: Architecture)
    ensures
        a == match arch {
            luwen_def::Arch::Grayskull => Architecture::Grayskull,
            luwen_def::Arch::Wormhole => Architecture::Wormhole,
            luwen_def::Arch::Blackhole => Architecture::Blackhole,
        },
{
    match arch {
        luwen_def::Arch::Grayskull => Architecture::Grayskull,
        luwen_def::Arch::Wormhole => Architecture::Wormhole,
        luwen_def::Arch::Blackhole => Architecture::Blackhole,
    }
}


broadcast use vstd::std_specs::hash::group_hash_axioms;

/// The registers of a chip.
#[derive(Clone, Copy, Debug)]
pub struct ChipReading {
    pub arch: Architecture,
    pub board_id: u64,
    pub ddr_speed: Option<u32>,
    pub aux_status: Option<u32>,
    pub enum_version: u32,
    pub device_id: u32,
    pub harvesting_state: u32,
    pub arc0_fw_version: u32,
    pub arc1_fw_version: u32,
    pub arc2_fw_version: u32,
    pub arc3_fw_version: u32,
    pub spibootrom_fw_version: u32,
    pub eth_fw_version: u32,
    pub m3_bl_fw_version: u32,
    pub m3_app_fw_version: u32,
    pub ddr_status: u32,
    pub eth_status0: u32,
    pub eth_status1: u32,
    pub faults: u32,
    pub arc0_health: u32,
    pub arc1_health: u32,
    pub arc2_health: u32,
    pub arc3_health: u32,
    pub fan_speed: u32,
    pub aiclk: u32,
    pub axiclk: u32,
    pub arcclk: u32,
    pub throttler: u32,
    pub vcore: u32,
    pub asic_temperature: u32,
    pub vreg_temperature: u32,
    pub board_temperature: u32,
    pub tdp: u32,
    pub tdc: u32,
    pub vdd_limits: u32,
    pub thm_limits: u32,
    pub wh_fw_date: u32,
    pub asic_tmon0: u32,
    pub asic_tmon1: u32,
    pub mvddq_power: u32,
    pub gddr_train_temp0: u32,
    pub gddr_train_temp1: u32,
    pub boot_date: u32,
    pub rt_seconds: u32,
    pub eth_debug_status0: u32,
    pub eth_debug_status1: u32,
    pub tt_flash_version: u32,
    pub fw_bundle_version: u32,
    pub timer_heartbeat: u32,
    pub tensix_enabled_col: u32,
    pub enabled_eth: u32,
    pub enabled_gddr: u32,
    pub enabled_l2cpu: u32,
    pub enabled_pcie: u32,
    pub fan_rpm: u32,
    pub gddr01_temp: u32,
    pub gddr23_temp: u32,
    pub gddr45_temp: u32,
    pub gddr67_temp: u32,
    pub gddr01_corr_errs: u32,
    pub gddr23_corr_errs: u32,
    pub gddr45_corr_errs: u32,
    pub gddr67_corr_errs: u32,
    pub gddr_uncorr_errs: u32,
    pub max_gddr_temp: u32,
    pub board_power_limit: u32,
    pub input_power: u32,
    pub tdc_limit_max: u32,
    pub thm_limit_throttle: u32,
    pub therm_trip_count: u32,
    pub aiclk_limit_max: u32,
    pub tdp_limit_max: u32,
}

impl ChipReading {
    /// A reading of an architecture in which every register is 0.
    pub fn zeroed(arch: Architecture) -> (r: Self)
        ensures
            r.arch == arch,
            r.board_id == 0,
            r.ddr_speed is None,
            r.aux_status is None,
            r.enum_version == 0,
            r.device_id == 0,
            r.harvesting_state == 0,
            r.arc0_fw_version == 0,
            r.arc1_fw_version == 0,
            r.arc2_fw_version == 0,
            r.arc3_fw_version == 0,
            r.spibootrom_fw_version == 0,
            r.eth_fw_version == 0,
            r.m3_bl_fw_version == 0,
            r.m3_app_fw_version == 0,
            r.ddr_status == 0,
            r.eth_status0 == 0,
            r.eth_status1 == 0,
            r.faults == 0,
            r.arc0_health == 0,
            r.arc1_health == 0,
            r.arc2_health == 0,
            r.arc3_health == 0,
            r.fan_speed == 0,
            r.aiclk == 0,
            r.axiclk == 0,
            r.arcclk == 0,
            r.throttler == 0,
            r.vcore == 0,
            r.asic_temperature == 0,
            r.vreg_temperature == 0,
            r.board_temperature == 0,
            r.tdp == 0,
            r.tdc == 0,
            r.vdd_limits == 0,
            r.thm_limits == 0,
            r.wh_fw_date == 0,
            r.asic_tmon0 == 0,
            r.asic_tmon1 == 0,
            r.mvddq_power == 0,
            r.gddr_train_temp0 == 0,
            r.gddr_train_temp1 == 0,
            r.boot_date == 0,
            r.rt_seconds == 0,
            r.eth_debug_status0 == 0,
            r.eth_debug_status1 == 0,
            r.tt_flash_version == 0,
            r.fw_bundle_version == 0,
            r.timer_heartbeat == 0,
            r.tensix_enabled_col == 0,
            r.enabled_eth == 0,
            r.enabled_gddr == 0,
            r.enabled_l2cpu == 0,
            r.enabled_pcie == 0,
            r.fan_rpm == 0,
            r.gddr01_temp == 0,
            r.gddr23_temp == 0,
            r.gddr45_temp == 0,
            r.gddr67_temp == 0,
            r.gddr01_corr_errs == 0,
            r.gddr23_corr_errs == 0,
            r.gddr45_corr_errs == 0,
            r.gddr67_corr_errs == 0,
            r.gddr_uncorr_errs == 0,
            r.max_gddr_temp == 0,
            r.board_power_limit == 0,
            r.input_power == 0,
            r.tdc_limit_max == 0,
            r.thm_limit_throttle == 0,
            r.therm_trip_count == 0,
            r.aiclk_limit_max == 0,
            r.tdp_limit_max == 0,
    {
        ChipReading {
            arch,
            board_id: 0,
            ddr_speed: None,
            aux_status: None,
            enum_version: 0,
            device_id: 0,
            harvesting_state: 0,
            arc0_fw_version: 0,
            arc1_fw_version: 0,
            arc2_fw_version: 0,
            arc3_fw_version: 0,
            spibootrom_fw_version: 0,
            eth_fw_version: 0,
            m3_bl_fw_version: 0,
            m3_app_fw_version: 0,
            ddr_status: 0,
            eth_status0: 0,
            eth_status1: 0,
            faults: 0,
            arc0_health: 0,
            arc1_health: 0,
            arc2_health: 0,
            arc3_health: 0,
            fan_speed: 0,
            aiclk: 0,
            axiclk: 0,
            arcclk: 0,
            throttler: 0,
            vcore: 0,
            asic_temperature: 0,
            vreg_temperature: 0,
            board_temperature: 0,
            tdp: 0,
            tdc: 0,
            vdd_limits: 0,
            thm_limits: 0,
            wh_fw_date: 0,
            asic_tmon0: 0,
            asic_tmon1: 0,
            mvddq_power: 0,
            gddr_train_temp0: 0,
            gddr_train_temp1: 0,
            boot_date: 0,
            rt_seconds: 0,
            eth_debug_status0: 0,
            eth_debug_status1: 0,
            tt_flash_version: 0,
            fw_bundle_version: 0,
            timer_heartbeat: 0,
            tensix_enabled_col: 0,
            enabled_eth: 0,
            enabled_gddr: 0,
            enabled_l2cpu: 0,
            enabled_pcie: 0,
            fan_rpm: 0,
            gddr01_temp: 0,
            gddr23_temp: 0,
            gddr45_temp: 0,
            gddr67_temp: 0,
            gddr01_corr_errs: 0,
            gddr23_corr_errs: 0,
            gddr45_corr_errs: 0,
            gddr67_corr_errs: 0,
            gddr_uncorr_errs: 0,
            max_gddr_temp: 0,
            board_power_limit: 0,
            input_power: 0,
            tdc_limit_max: 0,
            thm_limit_throttle: 0,
            therm_trip_count: 0,
            aiclk_limit_max: 0,
            tdp_limit_max: 0,
        }
    }

    /// The heartbeat: a timer on Blackhole, and the health counter of ARC 0
    /// elsewhere.
    pub fn heartbeat(&self) -> (h: u32)
        ensures
            h == reading_heartbeat(*self),
    {
        match self.arch {
            Architecture::Blackhole => self.timer_heartbeat,
            _ => self.arc0_health,
        }
    }
}

/// The heartbeat of a reading.
pub open spec fn reading_heartbeat(r: ChipReading) -> u32 {
    if r.arch == Architecture::Blackhole { r.timer_heartbeat } else { r.arc0_health }
}

/// A temperature register of Blackhole, in degrees: a signed number with
/// sixteen binary places, shown in full with sixteen decimal ones.
pub open spec fn fixed_point_text(raw: u32) -> Seq<char> {
    let n = signed_register(raw);
    let m = hwmon::magnitude(n);
    (if n < 0 { seq!['-'] } else { Seq::empty() }) + text::decimal(m / 65536) + seq!['.']
        + hwmon::padded((m % 65536) * 152_587_890_625, 16)
}

/// A register read as a two's complement number.
pub open spec fn signed_register(raw: u32) -> int {
    if raw >= 0x8000_0000 { raw - 0x1_0000_0000 } else { raw as int }
}

fn fixed_point(raw: u32) -> (s: String)
    ensures
        s@ == fixed_point_text(raw),
{
    let negative = raw >= 0x8000_0000;
    let m: u64 = if negative { 0x1_0000_0000 - raw as u64 } else { raw as u64 };
    let mut s = String::new();
    if negative {
        s.push('-');
    }
    append_decimal(&mut s, m / 65536);
    s.push('.');
    hwmon::append_padded(&mut s, (m % 65536) * 152_587_890_625, 16);
    assert(s@ =~= fixed_point_text(raw));
    s
}

/// The chip temperature of a reading, in degrees.
pub open spec fn chip_temperature(r: ChipReading) -> Seq<char> {
    if r.arch == Architecture::Blackhole {
        fixed_point_text(r.asic_temperature)
    } else {
        text::decimal((r.asic_temperature as nat % 65536) / 16)
    }
}

/// Whether `t` is the core telemetry of a reading: millivolts, and the low
/// halves of the power, current and clock registers.
pub open spec fn telemetry_mapped(t: Telemetry, r: ChipReading, now_ms: i64) -> bool {
    &&& t.timestamp_ms == now_ms
    &&& text::opt_text(t.voltage) == Some(hwmon::thousandths(r.vcore as int))
    &&& text::opt_text(t.current) == Some(text::decimal(r.tdc as nat % 65536))
    &&& text::opt_text(t.power) == Some(text::decimal(r.tdp as nat % 65536))
    &&& text::opt_text(t.asic_temperature) == Some(chip_temperature(r))
    &&& t.aiclk == Some((r.aiclk % 65536) as u32)
    &&& t.heartbeat == Some(reading_heartbeat(r))
    &&& t.board_power is None
}

/// Maps the registers of a chip to core telemetry.
pub fn map_telemetry(r: &ChipReading, now_ms: i64) -> (t: Telemetry)
    ensures
        telemetry_mapped(t, *r, now_ms),
{
    let asic_temperature = match r.arch {
        Architecture::Blackhole => fixed_point(r.asic_temperature),
        _ => decimal_text(((r.asic_temperature % 65536) / 16) as u64),
    };
    Telemetry {
        voltage: Some(thousandths_text(r.vcore as i64)),
        current: Some(decimal_text((r.tdc % 65536) as u64)),
        power: Some(decimal_text((r.tdp % 65536) as u64)),
        asic_temperature: Some(asic_temperature),
        aiclk: Some(r.aiclk % 65536),
        heartbeat: Some(r.heartbeat()),
        timestamp_ms: now_ms,
        board_power: None,
    }
}

/// The decimal text of a register, where it is filled.
pub open spec fn shown(filled: bool, v: nat) -> Option<Seq<char>> {
    if filled { Some(text::decimal(v)) } else { None }
}

fn show(filled: bool, v: u32) -> (s: Option<String>)
    ensures
        text::opt_text(s) == shown(filled, v as nat),
{
    if filled {
        Some(decimal_text(v as u64))
    } else {
        None
    }
}

fn show_opt(v: Option<u32>) -> (s: Option<String>)
    ensures
        text::opt_text(s) == match v {
            Some(n) => Some(text::decimal(n as nat)),
            None => None,
        },
{
    match v {
        Some(n) => Some(decimal_text(n as u64)),
        None => None,
    }
}

fn given(filled: bool, v: u32) -> (r: Option<u32>)
    ensures
        r == if filled { Some(v) } else { None },
{
    if filled {
        Some(v)
    } else {
        None
    }
}

/// The fan register to serve: the first of the two with a real reading.
pub open spec fn fan_register(r: ChipReading) -> Option<u32> {
    if !models::fan_sentinel(r.fan_speed as nat) {
        Some(r.fan_speed)
    } else if !models::fan_sentinel(r.fan_rpm as nat) {
        Some(r.fan_rpm)
    } else {
        None
    }
}

/// Whether the temperatures are those of a register, where it is filled.
pub open spec fn pair_of(p: Option<GddrTempPair>, filled: bool, word: u32) -> bool {
    match p {
        Some(p) => filled && forall|i: int|
            0 <= i < 4 ==> #[trigger] p.0@[i] == models::byte_of(word as nat, i) * 1000,
        None => !filled,
    }
}

fn temps(filled: bool, word: u32) -> (p: Option<GddrTempPair>)
    ensures
        pair_of(p, filled, word),
{
    if filled {
        Some(unpack_gddr_temps_u32(word))
    } else {
        None
    }
}

/// Whether `s` is the SMBUS telemetry of a reading.
pub open spec fn smbus_mapped(s: SmbusTelemetry, r: ChipReading) -> bool {
    let bh = r.arch == Architecture::Blackhole;
    &&& text::opt_text(s.board_id) == Some(text::decimal(r.board_id as nat))
    &&& text::opt_text(s.ddr_status) == Some(text::decimal(r.ddr_status as nat))
    &&& text::opt_text(s.faults) == Some(text::decimal(r.faults as nat))
    &&& text::opt_text(s.arc0_fw_version) == Some(text::decimal(r.arc0_fw_version as nat))
    &&& text::opt_text(s.arc1_fw_version) == Some(text::decimal(r.arc1_fw_version as nat))
    &&& text::opt_text(s.arc2_fw_version) == Some(text::decimal(r.arc2_fw_version as nat))
    &&& text::opt_text(s.arc3_fw_version) == Some(text::decimal(r.arc3_fw_version as nat))
    &&& text::opt_text(s.eth_fw_version) == Some(text::decimal(r.eth_fw_version as nat))
    &&& text::opt_text(s.m3_bl_fw_version) == Some(text::decimal(r.m3_bl_fw_version as nat))
    &&& text::opt_text(s.m3_app_fw_version) == Some(text::decimal(r.m3_app_fw_version as nat))
    &&& text::opt_text(s.aiclk) == Some(text::decimal(r.aiclk as nat))
    &&& text::opt_text(s.axiclk) == Some(text::decimal(r.axiclk as nat))
    &&& text::opt_text(s.arcclk) == Some(text::decimal(r.arcclk as nat))
    &&& text::opt_text(s.vcore) == Some(text::decimal(r.vcore as nat))
    &&& text::opt_text(s.asic_temperature) == Some(text::decimal(r.asic_temperature as nat))
    &&& text::opt_text(s.vreg_temperature) == Some(text::decimal(r.vreg_temperature as nat))
    &&& text::opt_text(s.board_temperature) == Some(text::decimal(r.board_temperature as nat))
    &&& text::opt_text(s.tdp) == Some(text::decimal(r.tdp as nat))
    &&& text::opt_text(s.tdc) == Some(text::decimal(r.tdc as nat))
    &&& text::opt_text(s.throttler) == Some(text::decimal(r.throttler as nat))
    &&& text::opt_text(s.vdd_limits) == Some(text::decimal(r.vdd_limits as nat))
    &&& text::opt_text(s.asic_tmon0) == Some(text::decimal(r.asic_tmon0 as nat))
    &&& text::opt_text(s.asic_tmon1) == Some(text::decimal(r.asic_tmon1 as nat))
    &&& text::opt_text(s.mvddq_power) == Some(text::decimal(r.mvddq_power as nat))
    &&& text::opt_text(s.gddr_train_temp0) == Some(text::decimal(r.gddr_train_temp0 as nat))
    &&& text::opt_text(s.gddr_train_temp1) == Some(text::decimal(r.gddr_train_temp1 as nat))
    &&& text::opt_text(s.boot_date) == Some(text::decimal(r.boot_date as nat))
    &&& text::opt_text(s.rt_seconds) == Some(text::decimal(r.rt_seconds as nat))
    &&& text::opt_text(s.eth_debug_status0) == Some(text::decimal(r.eth_debug_status0 as nat))
    &&& text::opt_text(s.eth_debug_status1) == Some(text::decimal(r.eth_debug_status1 as nat))
    &&& text::opt_text(s.tt_flash_version) == Some(text::decimal(r.tt_flash_version as nat))
    &&& text::opt_text(s.enum_version) == Some(text::decimal(r.enum_version as nat))
    &&& text::opt_text(s.device_id) == Some(text::decimal(r.device_id as nat))
    &&& text::opt_text(s.spibootrom_fw_version) == Some(text::decimal(r.spibootrom_fw_version as nat))
    &&& text::opt_text(s.wh_fw_date) == Some(text::decimal(r.wh_fw_date as nat))
    &&& text::opt_text(s.eth_status0) == shown(!bh, r.eth_status0 as nat)
    &&& text::opt_text(s.eth_status1) == shown(!bh, r.eth_status1 as nat)
    &&& text::opt_text(s.arc1_health) == shown(!bh, r.arc1_health as nat)
    &&& text::opt_text(s.arc2_health) == shown(!bh, r.arc2_health as nat)
    &&& text::opt_text(s.arc3_health) == shown(!bh, r.arc3_health as nat)
    &&& text::opt_text(s.pcie_status) == shown(bh, r.enabled_pcie as nat)
    &&& text::opt_text(s.input_power) == shown(bh, r.input_power as nat)
    &&& text::opt_text(s.board_power_limit) == shown(bh, r.board_power_limit as nat)
    &&& text::opt_text(s.therm_trip_count) == shown(bh, r.therm_trip_count as nat)
    &&& text::opt_text(s.arc0_health) == Some(text::decimal(reading_heartbeat(r) as nat))
    &&& text::opt_text(s.ddr_speed) == match r.ddr_speed {
        Some(n) => Some(text::decimal(n as nat)),
        None => None,
    }
    &&& text::opt_text(s.aux_status) == match r.aux_status {
        Some(n) => Some(text::decimal(n as nat)),
        None => None,
    }
    &&& text::opt_text(s.fan_speed) == match fan_register(r) {
        Some(n) => Some(text::decimal(n as nat)),
        None => None,
    }
    &&& text::opt_text(s.thm_limits) == Some(
        text::decimal(if bh { r.thm_limits as nat } else { r.thm_limits as nat % 0x1_0000 }),
    )
    &&& pair_of(s.gddr_temps@[0], bh, r.gddr01_temp)
    &&& pair_of(s.gddr_temps@[1], bh, r.gddr23_temp)
    &&& pair_of(s.gddr_temps@[2], bh, r.gddr45_temp)
    &&& pair_of(s.gddr_temps@[3], bh, r.gddr67_temp)
    &&& s.max_gddr_temp == if bh { Some((r.max_gddr_temp * 1000) as u64) } else { None }
    &&& s.gddr_corr_errs@[0] == if bh { Some(r.gddr01_corr_errs) } else { None }
    &&& s.gddr_corr_errs@[1] == if bh { Some(r.gddr23_corr_errs) } else { None }
    &&& s.gddr_corr_errs@[2] == if bh { Some(r.gddr45_corr_errs) } else { None }
    &&& s.gddr_corr_errs@[3] == if bh { Some(r.gddr67_corr_errs) } else { None }
    &&& s.eth_live_status == if bh { Some(r.eth_status0 as u64) } else { None }
    &&& s.gddr_uncorr_errs == if bh { Some(r.gddr_uncorr_errs) } else { None }
    &&& s.harvesting_state == if bh { Some(r.harvesting_state) } else { None }
    &&& s.enabled_eth == if bh { Some(r.enabled_eth) } else { None }
    &&& s.enabled_gddr == if bh { Some(r.enabled_gddr) } else { None }
    &&& s.enabled_l2cpu == if bh { Some(r.enabled_l2cpu) } else { None }
    &&& s.enabled_tensix_col == if bh { Some(r.tensix_enabled_col) } else { None }
    &&& s.gddr_telemetry is None
}

/// Maps the registers of a chip to SMBUS telemetry.
pub fn map_smbus(r: &ChipReading) -> (s: SmbusTelemetry)
    ensures
        smbus_mapped(s, *r),
{
    let bh = match r.arch {
        Architecture::Blackhole => true,
        _ => false,
    };
    let fan: Option<u32> = if !is_fan_sentinel(r.fan_speed) {
        Some(r.fan_speed)
    } else if !is_fan_sentinel(r.fan_rpm) {
        Some(r.fan_rpm)
    } else {
        None
    };
    SmbusTelemetry {
        board_id: Some(decimal_text(r.board_id)),
        ddr_status: Some(decimal_text(r.ddr_status as u64)),
        faults: Some(decimal_text(r.faults as u64)),
        arc0_fw_version: Some(decimal_text(r.arc0_fw_version as u64)),
        arc1_fw_version: Some(decimal_text(r.arc1_fw_version as u64)),
        arc2_fw_version: Some(decimal_text(r.arc2_fw_version as u64)),
        arc3_fw_version: Some(decimal_text(r.arc3_fw_version as u64)),
        eth_fw_version: Some(decimal_text(r.eth_fw_version as u64)),
        m3_bl_fw_version: Some(decimal_text(r.m3_bl_fw_version as u64)),
        m3_app_fw_version: Some(decimal_text(r.m3_app_fw_version as u64)),
        aiclk: Some(decimal_text(r.aiclk as u64)),
        axiclk: Some(decimal_text(r.axiclk as u64)),
        arcclk: Some(decimal_text(r.arcclk as u64)),
        vcore: Some(decimal_text(r.vcore as u64)),
        asic_temperature: Some(decimal_text(r.asic_temperature as u64)),
        vreg_temperature: Some(decimal_text(r.vreg_temperature as u64)),
        board_temperature: Some(decimal_text(r.board_temperature as u64)),
        tdp: Some(decimal_text(r.tdp as u64)),
        tdc: Some(decimal_text(r.tdc as u64)),
        throttler: Some(decimal_text(r.throttler as u64)),
        vdd_limits: Some(decimal_text(r.vdd_limits as u64)),
        asic_tmon0: Some(decimal_text(r.asic_tmon0 as u64)),
        asic_tmon1: Some(decimal_text(r.asic_tmon1 as u64)),
        mvddq_power: Some(decimal_text(r.mvddq_power as u64)),
        gddr_train_temp0: Some(decimal_text(r.gddr_train_temp0 as u64)),
        gddr_train_temp1: Some(decimal_text(r.gddr_train_temp1 as u64)),
        boot_date: Some(decimal_text(r.boot_date as u64)),
        rt_seconds: Some(decimal_text(r.rt_seconds as u64)),
        eth_debug_status0: Some(decimal_text(r.eth_debug_status0 as u64)),
        eth_debug_status1: Some(decimal_text(r.eth_debug_status1 as u64)),
        tt_flash_version: Some(decimal_text(r.tt_flash_version as u64)),
        enum_version: Some(decimal_text(r.enum_version as u64)),
        device_id: Some(decimal_text(r.device_id as u64)),
        spibootrom_fw_version: Some(decimal_text(r.spibootrom_fw_version as u64)),
        wh_fw_date: Some(decimal_text(r.wh_fw_date as u64)),
        eth_status0: show(!bh, r.eth_status0),
        eth_status1: show(!bh, r.eth_status1),
        arc1_health: show(!bh, r.arc1_health),
        arc2_health: show(!bh, r.arc2_health),
        arc3_health: show(!bh, r.arc3_health),
        pcie_status: show(bh, r.enabled_pcie),
        input_power: show(bh, r.input_power),
        board_power_limit: show(bh, r.board_power_limit),
        therm_trip_count: show(bh, r.therm_trip_count),
        arc0_health: Some(decimal_text(r.heartbeat() as u64)),
        ddr_speed: show_opt(r.ddr_speed),
        aux_status: show_opt(r.aux_status),
        fan_speed: show_opt(fan),
        thm_limits: Some(decimal_text(thm_limit_shutdown_c(r.thm_limits, r.arch) as u64)),
        gddr_temps: [
            temps(bh, r.gddr01_temp),
            temps(bh, r.gddr23_temp),
            temps(bh, r.gddr45_temp),
            temps(bh, r.gddr67_temp),
        ],
        max_gddr_temp: if bh { Some(r.max_gddr_temp as u64 * 1000) } else { None },
        gddr_corr_errs: [
            given(bh, r.gddr01_corr_errs),
            given(bh, r.gddr23_corr_errs),
            given(bh, r.gddr45_corr_errs),
            given(bh, r.gddr67_corr_errs),
        ],
        eth_live_status: if bh { Some(r.eth_status0 as u64) } else { None },
        gddr_uncorr_errs: given(bh, r.gddr_uncorr_errs),
        harvesting_state: given(bh, r.harvesting_state),
        enabled_eth: given(bh, r.enabled_eth),
        enabled_gddr: given(bh, r.enabled_gddr),
        enabled_l2cpu: given(bh, r.enabled_l2cpu),
        enabled_tensix_col: given(bh, r.tensix_enabled_col),
        gddr_telemetry: None,
    }
}

/// Maps the registers of a chip to its firmware limits. Only Blackhole fills
/// them.
pub fn map_limits(r: &ChipReading) -> (l: Option<DeviceLimits>)
    ensures
        l is Some <==> r.arch == Architecture::Blackhole,
        l matches Some(l) ==> {
            &&& text::opt_text(l.tdp_limit) == Some(text::decimal(r.tdp_limit_max as nat))
            &&& text::opt_text(l.tdc_limit) == Some(text::decimal(r.tdc_limit_max as nat))
            &&& l.asic_fmax == Some(r.aiclk_limit_max)
            &&& text::opt_text(l.thm_limit) == Some(text::decimal(r.thm_limit_throttle as nat))
        },
{
    match r.arch {
        Architecture::Blackhole => Some(
            DeviceLimits {
                tdp_limit: Some(decimal_text(r.tdp_limit_max as u64)),
                tdc_limit: Some(decimal_text(r.tdc_limit_max as u64)),
                asic_fmax: Some(r.aiclk_limit_max),
                thm_limit: Some(decimal_text(r.thm_limit_throttle as u64)),
            },
        ),
        _ => None,
    }
}

/// Maps the registers of a chip to its firmware versions. A version of 0 means
/// that it is not reported.
pub fn map_firmwares(r: &ChipReading) -> (f: Option<FirmwaresInfo>)
    ensures
        f is Some <==> r.fw_bundle_version != 0,
        f matches Some(f) ==> {
            &&& text::opt_text(f.fw_bundle_version) == Some(
                models::dotted_version(r.fw_bundle_version as nat),
            )
            &&& f.eth_fw is None
            &&& f.cm_fw is None
            &&& f.gddr_fw is None
        },
{
    if r.fw_bundle_version == 0 {
        return None;
    }
    Some(
        FirmwaresInfo {
            fw_bundle_version: Some(fw_bundle_version_string(r.fw_bundle_version)),
            eth_fw: None,
            cm_fw: None,
            gddr_fw: None,
        },
    )
}

/// A chip that detection found. Of one whose ARC does not answer nothing else
/// counts.
#[derive(Debug)]
pub struct DetectedChip {
    /// Whether its ARC answers.
    pub arc_alive: bool,
    pub arch: Architecture,
    /// The name of the architecture, for a chip whose board is unknown.
    pub arch_name: String,
    /// Where the chip sits, if the driver tells.
    pub device_info: Option<String>,
    /// The registers and the board type, if they could be read.
    pub reading: Option<(ChipReading, String)>,
}

/// Whether `d` is the device that a chip found at a position becomes.
pub open spec fn device_mapped(d: Device, idx: int, c: DetectedChip) -> bool {
    &&& d.index == idx
    &&& d.board_type@ == match c.reading {
        Some((_, board)) => board@,
        None => c.arch_name@,
    }
    &&& d.bus_id@ == match c.device_info {
        Some(info) => info@,
        None => "pci:"@ + text::decimal(idx as nat),
    }
    &&& d.coords@.len() == 0
    &&& d.architecture == c.arch
    &&& match c.reading {
        Some((r, _)) => {
            &&& d.firmwares is Some <==> r.fw_bundle_version != 0
            &&& d.firmwares matches Some(f) ==> {
                &&& text::opt_text(f.fw_bundle_version) == Some(
                    models::dotted_version(r.fw_bundle_version as nat),
                )
                &&& f.eth_fw is None
                &&& f.cm_fw is None
                &&& f.gddr_fw is None
            }
            &&& d.limits is Some <==> r.arch == Architecture::Blackhole
            &&& d.limits matches Some(l) ==> {
                &&& text::opt_text(l.tdp_limit) == Some(text::decimal(r.tdp_limit_max as nat))
                &&& text::opt_text(l.tdc_limit) == Some(text::decimal(r.tdc_limit_max as nat))
                &&& l.asic_fmax == Some(r.aiclk_limit_max)
                &&& text::opt_text(l.thm_limit) == Some(
                    text::decimal(r.thm_limit_throttle as nat),
                )
            }
        },
        None => d.firmwares is None && d.limits is None,
    }
    &&& d.pcie_speed is None
    &&& d.pcie_width is None
    &&& d.grid_override is None
    &&& d.channels_override is None
}

fn chip_device(idx: usize, c: &DetectedChip) -> (d: Device)
    ensures
        device_mapped(d, idx as int, *c),
{
    let bus_id = match &c.device_info {
        Some(info) => info.clone(),
        None => {
            let mut s = "pci:".to_owned();
            append_decimal(&mut s, idx as u64);
            s
        },
    };
    let (board_type, firmwares, limits) = match &c.reading {
        Some((r, board)) => (board.clone(), map_firmwares(r), map_limits(r)),
        None => (c.arch_name.clone(), None, None),
    };
    Device {
        index: idx,
        board_type,
        bus_id,
        coords: String::new(),
        architecture: c.arch,
        firmwares,
        limits,
        pcie_speed: None,
        pcie_width: None,
        grid_override: None,
        channels_override: None,
    }
}

/// The positions among the first `n` chips whose ARC answers, or does not.
pub open spec fn positions(chips: Seq<DetectedChip>, alive: bool, n: nat) -> Seq<usize>
    decreases n,
{
    if n == 0 {
        Seq::empty()
    } else {
        let before = positions(chips, alive, (n - 1) as nat);
        if chips[n - 1].arc_alive == alive {
            before.push((n - 1) as usize)
        } else {
            before
        }
    }
}

/// Reads the chips directly.
#[derive(Debug)]
pub struct LuwenBackend {
    pub config: BackendConfig,
    pub devices: Vec<Device>,
    pub telemetry_cache: HashMap<usize, Telemetry>,
    pub smbus_cache: HashMap<usize, SmbusTelemetry>,
    /// Positions of the chips whose ARC did not answer.
    pub skipped_chips: Vec<usize>,
    /// Updates in a row in which no chip answered.
    pub consecutive_errors: usize,
}

/// The texts of the numbers, with commas between.
pub open spec fn comma_list(v: Seq<usize>) -> Seq<char>
    decreases v.len(),
{
    if v.len() == 0 {
        Seq::empty()
    } else if v.len() == 1 {
        text::decimal(v[0] as nat)
    } else {
        comma_list(v.drop_last()) + seq![','] + text::decimal(v.last() as nat)
    }
}

fn append_list(s: &mut String, v: &Vec<usize>)
    ensures
        final(s)@ == old(s)@ + comma_list(v@),
{
    let ghost start = s@;
    assert(v@.take(0) =~= Seq::<usize>::empty());
    assert(s@ =~= start + comma_list(v@.take(0)));
    for i in 0..v.len()
        invariant
            s@ == start + comma_list(v@.take(i as int)),
    {
        assert(v@.take(i as int + 1).drop_last() =~= v@.take(i as int));
        if i > 0 {
            s.push(',');
        }
        append_decimal(s, v[i] as u64);
        assert(s@ =~= start + comma_list(v@.take(i as int + 1)));
    }
    assert(v@.take(v@.len() as int) =~= v@);
}

impl LuwenBackend {
    /// A backend with the default settings.
    pub fn new() -> (b: Self)
        ensures
            b.config == (BackendConfig {
                update_interval_ms: 100,
                max_consecutive_errors: 10,
                read_timeout_ms: 5000,
                verbose: false,
            }),
            b.devices@.len() == 0,
            b.telemetry_cache@ == Map::<usize, Telemetry>::empty(),
            b.smbus_cache@ == Map::<usize, SmbusTelemetry>::empty(),
            b.skipped_chips@.len() == 0,
            b.consecutive_errors == 0,
    {
        Self::with_config(BackendConfig::default())
    }

    /// A backend with the given settings.
    pub fn with_config(config: BackendConfig) -> (b: Self)
        ensures
            b.config == config,
            b.devices@.len() == 0,
            b.telemetry_cache@ == Map::<usize, Telemetry>::empty(),
            b.smbus_cache@ == Map::<usize, SmbusTelemetry>::empty(),
            b.skipped_chips@.len() == 0,
            b.consecutive_errors == 0,
    {
        LuwenBackend {
            config,
            devices: Vec::new(),
            telemetry_cache: HashMap::new(),
            smbus_cache: HashMap::new(),
            skipped_chips: Vec::new(),
            consecutive_errors: 0,
        }
    }

    /// Takes over what detection found. A chip whose ARC does not answer is
    /// skipped, and every other keeps the position at which it was found as
    /// its index. It is an error to find no chip, or none that answers.
    pub fn register(&mut self, chips: &Vec<DetectedChip>) -> (r: BackendResult<()>)
        ensures
            ({
                let n = chips@.len();
                let alive = positions(chips@, true, n);
                &&& r is Ok <==> alive.len() > 0
                &&& n == 0 ==> *final(self) == *old(self)
                &&& n > 0 ==> final(self).skipped_chips@ == positions(chips@, false, n)
                &&& r matches Err(e) ==> (e matches BackendError::Initialization(m) && m@ == if n
                    == 0 {
                    "No devices found"@
                } else {
                    "Devices found but none had a live ARC (no telemetry available)"@
                })
                &&& final(self).devices@.len() == old(self).devices@.len() + alive.len()
                &&& forall|i: int|
                    0 <= i < old(self).devices@.len() ==> #[trigger] final(self).devices@[i]
                        == old(self).devices@[i]
                &&& forall|i: int|
                    0 <= i < alive.len() ==> device_mapped(
                        #[trigger] final(self).devices@[old(self).devices@.len() + i],
                        alive[i] as int,
                        chips@[alive[i] as int],
                    )
            }),
            final(self).config == old(self).config,
            final(self).telemetry_cache == old(self).telemetry_cache,
            final(self).smbus_cache == old(self).smbus_cache,
            final(self).consecutive_errors == old(self).consecutive_errors,
    {
        if chips.len() == 0 {
            return Err(BackendError::Initialization("No devices found".to_owned()));
        }
        self.skipped_chips = Vec::new();
        let ghost start = self.devices@;
        for i in 0..chips.len()
            invariant
                self.config == old(self).config,
                self.telemetry_cache == old(self).telemetry_cache,
                self.smbus_cache == old(self).smbus_cache,
                self.consecutive_errors == old(self).consecutive_errors,
                start == old(self).devices@,
                self.skipped_chips@ == positions(chips@, false, i as nat),
                self.devices@.len() == start.len() + positions(chips@, true, i as nat).len(),
                forall|k: int| 0 <= k < start.len() ==> #[trigger] self.devices@[k] == start[k],
                forall|k: int|
                    0 <= k < positions(chips@, true, i as nat).len() ==> device_mapped(
                        #[trigger] self.devices@[start.len() + k],
                        positions(chips@, true, i as nat)[k] as int,
                        chips@[positions(chips@, true, i as nat)[k] as int],
                    ),
        {
            let ghost before = positions(chips@, true, i as nat);
            let ghost list = self.devices@;
            if chips[i].arc_alive {
                self.devices.push(chip_device(i, &chips[i]));
                assert(positions(chips@, true, i as nat + 1) == before.push(i));
                assert forall|k: int| 0 <= k < before.push(i).len() implies device_mapped(
                    #[trigger] self.devices@[start.len() + k],
                    before.push(i)[k] as int,
                    chips@[before.push(i)[k] as int],
                ) by {
                    if k < before.len() {
                        assert(self.devices@[start.len() + k] == list[start.len() + k]);
                    }
                }
            } else {
                self.skipped_chips.push(i);
            }
        }
        if self.skipped_chips.len() == chips.len() {
            proof {
                lemma_positions_split(chips@, chips@.len());
            }
            return Err(
                BackendError::Initialization(
                    "Devices found but none had a live ARC (no telemetry available)".to_owned(),
                ),
            );
        }
        proof {
            lemma_positions_split(chips@, chips@.len());
        }
        Ok(())
    }

    /// Takes over a round of readings: those of the chips that answered. A
    /// chip that did not keeps its last reading, unless no chip has answered
    /// for as many rounds as the settings bear: that is an error.
    pub fn apply_readings(
        &mut self,
        readings: &Vec<(usize, Option<ChipReading>)>,
        now_ms: i64,
    ) -> (r: BackendResult<()>)
        ensures
            caches_updated(*old(self), *final(self), readings@, readings@.len(), now_ms),
            final(self).devices == old(self).devices,
            final(self).config == old(self).config,
            final(self).skipped_chips == old(self).skipped_chips,
            ({
                let silent = readings@.len() > 0 && forall|i: int|
                    0 <= i < readings@.len() ==> (#[trigger] readings@[i]).1 is None;
                &&& final(self).consecutive_errors == if !silent {
                    0
                } else if old(self).consecutive_errors == usize::MAX {
                    usize::MAX
                } else {
                    (old(self).consecutive_errors + 1) as usize
                }
                &&& r is Err <==> silent && final(self).consecutive_errors >= old(
                    self,
                ).config.max_consecutive_errors
                &&& r matches Err(e) ==> (e matches BackendError::Update(m) && m@
                    == "no chip answered a telemetry read in "@ + text::decimal(
                    final(self).consecutive_errors as nat,
                ) + " consecutive updates"@)
            }),
    {
        let ghost start = *self;
        let mut any_ok: bool = false;
        for i in 0..readings.len()
            invariant
                start == *old(self),
                self.devices == start.devices,
                self.config == start.config,
                self.skipped_chips == start.skipped_chips,
                self.consecutive_errors == start.consecutive_errors,
                any_ok == (exists|k: int| 0 <= k < i && (#[trigger] readings@[k]).1 is Some),
                caches_updated(start, *self, readings@, i as nat, now_ms),
        {
            let ghost mid = *self;
            let idx: usize = readings[i].0;
            if let Some(r) = &readings[i].1 {
                assert(readings@[i as int].1 is Some);
                any_ok = true;
                self.telemetry_cache.insert(idx, map_telemetry(r, now_ms));
                self.smbus_cache.insert(idx, map_smbus(r));
            }
            proof {
                lemma_caches_step(start, mid, *self, readings@, i as int, now_ms);
            }
        }
        if any_ok || readings.len() == 0 {
            self.consecutive_errors = 0;
        } else {
            self.consecutive_errors = self.consecutive_errors.saturating_add(1);
            if self.consecutive_errors >= self.config.max_consecutive_errors {
                let mut m = "no chip answered a telemetry read in ".to_owned();
                append_decimal(&mut m, self.consecutive_errors as u64);
                m.append(" consecutive updates");
                return Err(BackendError::Update(m));
            }
        }
        Ok(())
    }
}

proof fn lemma_positions_split(chips: Seq<DetectedChip>, n: nat)
    requires
        n <= chips.len(),
    ensures
        positions(chips, true, n).len() + positions(chips, false, n).len() == n,
    decreases n,
{
    if n > 0 {
        lemma_positions_split(chips, (n - 1) as nat);
    }
}

/// The last reading of a chip among the first `n` of a round.
pub open spec fn last_reading(
    readings: Seq<(usize, Option<ChipReading>)>,
    idx: usize,
    n: nat,
) -> Option<ChipReading>
    decreases n,
{
    if n == 0 {
        None
    } else if readings[n - 1].0 == idx && readings[n - 1].1 is Some {
        readings[n - 1].1
    } else {
        last_reading(readings, idx, (n - 1) as nat)
    }
}

/// Whether the caches hold, of each chip that answered among the first `n`
/// readings, that reading, and of every other chip what they held.
pub open spec fn caches_updated(
    before: LuwenBackend,
    after: LuwenBackend,
    readings: Seq<(usize, Option<ChipReading>)>,
    n: nat,
    now_ms: i64,
) -> bool {
    forall|idx: usize|
        match #[trigger] last_reading(readings, idx, n) {
            Some(r) => {
                &&& after.telemetry_cache@.contains_key(idx)
                &&& telemetry_mapped(after.telemetry_cache@[idx], r, now_ms)
                &&& after.smbus_cache@.contains_key(idx)
                &&& smbus_mapped(after.smbus_cache@[idx], r)
            },
            None => {
                &&& after.telemetry_cache@.contains_key(idx)
                    == before.telemetry_cache@.contains_key(idx)
                &&& after.telemetry_cache@[idx] == before.telemetry_cache@[idx]
                &&& after.smbus_cache@.contains_key(idx) == before.smbus_cache@.contains_key(idx)
                &&& after.smbus_cache@[idx] == before.smbus_cache@[idx]
            },
        }
}

proof fn lemma_caches_step(
    start: LuwenBackend,
    mid: LuwenBackend,
    after: LuwenBackend,
    readings: Seq<(usize, Option<ChipReading>)>,
    i: int,
    now_ms: i64,
)
    requires
        0 <= i < readings.len(),
        caches_updated(start, mid, readings, i as nat, now_ms),
        readings[i].1 is None ==> after == mid,
        readings[i].1 matches Some(r) ==> {
            &&& after.telemetry_cache@ == mid.telemetry_cache@.insert(
                readings[i].0,
                after.telemetry_cache@[readings[i].0],
            )
            &&& after.smbus_cache@ == mid.smbus_cache@.insert(
                readings[i].0,
                after.smbus_cache@[readings[i].0],
            )
            &&& telemetry_mapped(after.telemetry_cache@[readings[i].0], r, now_ms)
            &&& smbus_mapped(after.smbus_cache@[readings[i].0], r)
        },
    ensures
        caches_updated(start, after, readings, (i + 1) as nat, now_ms),
{
    assert forall|idx: usize|
        match #[trigger] last_reading(readings, idx, (i + 1) as nat) {
            Some(r) => {
                &&& after.telemetry_cache@.contains_key(idx)
                &&& telemetry_mapped(after.telemetry_cache@[idx], r, now_ms)
                &&& after.smbus_cache@.contains_key(idx)
                &&& smbus_mapped(after.smbus_cache@[idx], r)
            },
            None => {
                &&& after.telemetry_cache@.contains_key(idx)
                    == start.telemetry_cache@.contains_key(idx)
                &&& after.telemetry_cache@[idx] == start.telemetry_cache@[idx]
                &&& after.smbus_cache@.contains_key(idx) == start.smbus_cache@.contains_key(idx)
                &&& after.smbus_cache@[idx] == start.smbus_cache@[idx]
            },
        } by {
        let earlier = last_reading(readings, idx, i as nat);
        assert(last_reading(readings, idx, (i + 1) as nat) == if readings[i].0 == idx
            && readings[i].1 is Some {
            readings[i].1
        } else {
            earlier
        });
    }
}

impl TelemetryBackend for LuwenBackend {
    open spec fn device_list(&self) -> Seq<Device> {
        self.devices@
    }

    open spec fn telemetry_map(&self) -> Map<usize, Telemetry> {
        self.telemetry_cache@
    }

    open spec fn smbus_map(&self) -> Map<usize, SmbusTelemetry> {
        self.smbus_cache@
    }

    /// The name of the backend, with the chips that were skipped.
    open spec fn info_text(&self) -> Seq<char> {
        if self.skipped_chips@.len() == 0 {
            "Luwen (Direct Hardware)"@
        } else {
            "Luwen (Direct Hardware, "@ + text::decimal(self.devices@.len())
                + " unavailable — chip "@ + comma_list(self.skipped_chips@)
                + " ARC not responding)"@
        }
    }

    open spec fn snapshot_text(&self) -> Option<Seq<char>> {
        None
    }

    fn devices(&self) -> (devices: &Vec<Device>) {
        &self.devices
    }

    fn telemetry(&self, device_idx: usize) -> (t: Option<&Telemetry>) {
        self.telemetry_cache.get(&device_idx)
    }

    fn smbus_telemetry(&self, device_idx: usize) -> (s: Option<&SmbusTelemetry>) {
        self.smbus_cache.get(&device_idx)
    }

    fn backend_info(&self) -> (s: String) {
        if self.skipped_chips.len() == 0 {
            return "Luwen (Direct Hardware)".to_owned();
        }
        let mut s = "Luwen (Direct Hardware, ".to_owned();
        append_decimal(&mut s, self.devices.len() as u64);
        s.append(" unavailable — chip ");
        append_list(&mut s, &self.skipped_chips);
        s.append(" ARC not responding)");
        s
    }

    fn snapshot_json(&self) -> (s: Option<String>) {
        None
    }
}

/// Every chip that answered keeps the position at which it was found, whatever
/// chips around it were skipped.
pub proof fn law_chip_positions_are_kept(chips: Seq<DetectedChip>, n: nat)
    requires
        n <= chips.len(),
        chips.len() <= usize::MAX,
    ensures
        forall|p: int|
            0 <= p < n && (#[trigger] chips[p]).arc_alive ==> positions(chips, true, n).contains(
                p as usize,
            ),
        forall|i: int|
            0 <= i < positions(chips, true, n).len() ==> (#[trigger] positions(
                chips,
                true,
                n,
            )[i]) < n && chips[positions(chips, true, n)[i] as int].arc_alive,
    decreases n,
{
    if n > 0 {
        law_chip_positions_are_kept(chips, (n - 1) as nat);
        let before = positions(chips, true, (n - 1) as nat);
        let after = positions(chips, true, n);
        assert forall|p: int| 0 <= p < n && (#[trigger] chips[p]).arc_alive implies after.contains(
            p as usize,
        ) by {
            if p < n - 1 {
                let k = choose|k: int| 0 <= k < before.len() && before[k] == p as usize;
                assert(after[k] == before[k]);
            } else {
                assert(after.last() == p as usize);
            }
        }
    }
}

/// On any chip but Blackhole, what only Blackhole reports is absent, never 0.
pub proof fn law_foreign_registers_are_absent(s: SmbusTelemetry, r: ChipReading)
    requires
        smbus_mapped(s, r),
        r.arch != Architecture::Blackhole,
    ensures
        s.pcie_status is None,
        s.input_power is None,
        s.board_power_limit is None,
        s.therm_trip_count is None,
        s.max_gddr_temp is None,
        s.gddr_uncorr_errs is None,
        s.harvesting_state is None,
        s.eth_live_status is None,
        s.enabled_eth is None,
        s.enabled_gddr is None,
        s.enabled_l2cpu is None,
        s.enabled_tensix_col is None,
        forall|i: int| 0 <= i < 4 ==> #[trigger] s.gddr_temps@[i] is None,
        forall|i: int| 0 <= i < 4 ==> #[trigger] s.gddr_corr_errs@[i] is None,
{
}

/// A chip's registers are served in whole units: millivolts as volts, power and
/// current in watts and amperes by their low halves, and the temperature in
/// degrees, of which Blackhole counts 65536 parts and the others sixteen. The
/// heartbeat is Blackhole's timer and elsewhere the health of ARC 0.
pub proof fn law_chip_readings_are_in_whole_units(t: Telemetry, r: ChipReading, now_ms: i64)
    requires
        telemetry_mapped(t, r, now_ms),
    ensures
        t.voltage matches Some(s) && text::denotes(s@, r.vcore as int, 1000),
        t.power matches Some(s) && text::unsigned_value(s@, 10, 65535) == Some(
            (r.tdp % 65536) as nat,
        ),
        t.current matches Some(s) && text::unsigned_value(s@, 10, 65535) == Some(
            (r.tdc % 65536) as nat,
        ),
        r.arch == Architecture::Blackhole ==> t.asic_temperature is Some && text::denotes(
            t.asic_temperature->0@,
            if r.asic_temperature >= 0x8000_0000 {
                r.asic_temperature - 0x1_0000_0000
            } else {
                r.asic_temperature as int
            },
            65536,
        ),
        r.arch != Architecture::Blackhole ==> t.asic_temperature is Some && text::unsigned_value(
            t.asic_temperature->0@,
            10,
            65535,
        ) == Some(((r.asic_temperature % 65536) / 16) as nat),
        t.aiclk == Some((r.aiclk % 65536) as u32),
        r.arch == Architecture::Blackhole ==> t.heartbeat == Some(r.timer_heartbeat),
        r.arch != Architecture::Blackhole ==> t.heartbeat == Some(r.arc0_health),
        t.timestamp_ms == now_ms,
        t.board_power is None,
{
    hwmon::law_thousandths_denote(r.vcore as int);
    lemma_plain_decimal((r.tdp % 65536) as nat);
    lemma_plain_decimal((r.tdc % 65536) as nat);
    if r.arch == Architecture::Blackhole {
        lemma_fixed_point_denotes(r.asic_temperature);
    } else {
        lemma_plain_decimal(((r.asic_temperature % 65536) / 16) as nat);
    }
}

proof fn lemma_plain_decimal(n: nat)
    requires
        n <= 65535,
    ensures
        text::unsigned_value(text::decimal(n), 10, 65535) == Some(n),
{
    text::law_decimal_reads_back(n);
    assert(text::digit_value(text::decimal(n)[0], 10) is Some);
}

proof fn lemma_fixed_point_denotes(raw: u32)
    ensures
        text::denotes(fixed_point_text(raw), signed_register(raw), 65536),
{
    let n = signed_register(raw);
    let m = hwmon::magnitude(n);
    let whole = text::decimal(m / 65536);
    let rest = (m % 65536) * 152_587_890_625;
    let part = hwmon::padded(rest, 16);
    reveal_with_fuel(pow, 17);
    assert(pow(10, 16) == 10_000_000_000_000_000);
    text::law_decimal_reads_back(m / 65536);
    hwmon::lemma_padded(rest, 16);
    text::lemma_digits_join(whole, part);
    assert(text::is_fraction(fixed_point_text(raw), n, whole, part));
    let w = m / 65536;
    assert(w * pow(10, 16) == w * 10_000_000_000_000_000) by (nonlinear_arith)
        requires
            pow(10, 16) == 10_000_000_000_000_000,
    ;
    assert(text::digits_value(whole + part, 10) == w * 10_000_000_000_000_000 + rest);
    let f = m % 65536;
    assert(m == 65536 * w + f);
    assert((w * 10_000_000_000_000_000 + f * 152_587_890_625) * 65536 == (65536 * w + f)
        * 10_000_000_000_000_000) by (nonlinear_arith);
    assert(m * pow(10, 16) == m * 10_000_000_000_000_000) by (nonlinear_arith)
        requires
            pow(10, 16) == 10_000_000_000_000_000,
    ;
}

/// Every register is served under its own name, as the number that it holds; what
/// only Blackhole fills is served of Blackhole alone, and what it does not fill of
/// the others alone.
pub proof fn law_registers_are_served_by_name(s: SmbusTelemetry, r: ChipReading)
    requires
        smbus_mapped(s, r),
    ensures
        s.board_id is Some && s.board_id->0@ == text::decimal(r.board_id as nat),
        s.ddr_status is Some && s.ddr_status->0@ == text::decimal(r.ddr_status as nat),
        s.faults is Some && s.faults->0@ == text::decimal(r.faults as nat),
        s.arc0_fw_version is Some && s.arc0_fw_version->0@ == text::decimal(r.arc0_fw_version as nat),
        s.arc1_fw_version is Some && s.arc1_fw_version->0@ == text::decimal(r.arc1_fw_version as nat),
        s.arc2_fw_version is Some && s.arc2_fw_version->0@ == text::decimal(r.arc2_fw_version as nat),
        s.arc3_fw_version is Some && s.arc3_fw_version->0@ == text::decimal(r.arc3_fw_version as nat),
        s.eth_fw_version is Some && s.eth_fw_version->0@ == text::decimal(r.eth_fw_version as nat),
        s.m3_bl_fw_version is Some && s.m3_bl_fw_version->0@ == text::decimal(r.m3_bl_fw_version as nat),
        s.m3_app_fw_version is Some && s.m3_app_fw_version->0@ == text::decimal(r.m3_app_fw_version as nat),
        s.aiclk is Some && s.aiclk->0@ == text::decimal(r.aiclk as nat),
        s.axiclk is Some && s.axiclk->0@ == text::decimal(r.axiclk as nat),
        s.arcclk is Some && s.arcclk->0@ == text::decimal(r.arcclk as nat),
        s.vcore is Some && s.vcore->0@ == text::decimal(r.vcore as nat),
        s.asic_temperature is Some && s.asic_temperature->0@ == text::decimal(r.asic_temperature as nat),
        s.vreg_temperature is Some && s.vreg_temperature->0@ == text::decimal(r.vreg_temperature as nat),
        s.board_temperature is Some && s.board_temperature->0@ == text::decimal(r.board_temperature as nat),
        s.tdp is Some && s.tdp->0@ == text::decimal(r.tdp as nat),
        s.tdc is Some && s.tdc->0@ == text::decimal(r.tdc as nat),
        s.throttler is Some && s.throttler->0@ == text::decimal(r.throttler as nat),
        s.vdd_limits is Some && s.vdd_limits->0@ == text::decimal(r.vdd_limits as nat),
        s.asic_tmon0 is Some && s.asic_tmon0->0@ == text::decimal(r.asic_tmon0 as nat),
        s.asic_tmon1 is Some && s.asic_tmon1->0@ == text::decimal(r.asic_tmon1 as nat),
        s.mvddq_power is Some && s.mvddq_power->0@ == text::decimal(r.mvddq_power as nat),
        s.gddr_train_temp0 is Some && s.gddr_train_temp0->0@ == text::decimal(r.gddr_train_temp0 as nat),
        s.gddr_train_temp1 is Some && s.gddr_train_temp1->0@ == text::decimal(r.gddr_train_temp1 as nat),
        s.boot_date is Some && s.boot_date->0@ == text::decimal(r.boot_date as nat),
        s.rt_seconds is Some && s.rt_seconds->0@ == text::decimal(r.rt_seconds as nat),
        s.eth_debug_status0 is Some && s.eth_debug_status0->0@ == text::decimal(r.eth_debug_status0 as nat),
        s.eth_debug_status1 is Some && s.eth_debug_status1->0@ == text::decimal(r.eth_debug_status1 as nat),
        s.tt_flash_version is Some && s.tt_flash_version->0@ == text::decimal(r.tt_flash_version as nat),
        s.enum_version is Some && s.enum_version->0@ == text::decimal(r.enum_version as nat),
        s.device_id is Some && s.device_id->0@ == text::decimal(r.device_id as nat),
        s.spibootrom_fw_version is Some && s.spibootrom_fw_version->0@ == text::decimal(r.spibootrom_fw_version as nat),
        s.wh_fw_date is Some && s.wh_fw_date->0@ == text::decimal(r.wh_fw_date as nat),
        s.arc0_health is Some && s.arc0_health->0@ == text::decimal(
            if r.arch == Architecture::Blackhole {
                r.timer_heartbeat as nat
            } else {
                r.arc0_health as nat
            },
        ),
        s.ddr_speed is Some <==> r.ddr_speed is Some,
        s.ddr_speed is Some ==> s.ddr_speed->0@ == text::decimal(r.ddr_speed->0 as nat),
        s.aux_status is Some <==> r.aux_status is Some,
        s.aux_status is Some ==> s.aux_status->0@ == text::decimal(r.aux_status->0 as nat),
        r.arch != Architecture::Blackhole ==> {
            &&& s.eth_status0 is Some && s.eth_status0->0@ == text::decimal(r.eth_status0 as nat)
            &&& s.eth_status1 is Some && s.eth_status1->0@ == text::decimal(r.eth_status1 as nat)
            &&& s.arc1_health is Some && s.arc1_health->0@ == text::decimal(r.arc1_health as nat)
            &&& s.arc2_health is Some && s.arc2_health->0@ == text::decimal(r.arc2_health as nat)
            &&& s.arc3_health is Some && s.arc3_health->0@ == text::decimal(r.arc3_health as nat)
            &&& s.thm_limits is Some && s.thm_limits->0@ == text::decimal(
                (r.thm_limits % 65536) as nat,
            )
        },
        r.arch == Architecture::Blackhole ==> {
            &&& s.eth_status0 is None
            &&& s.eth_status1 is None
            &&& s.arc1_health is None
            &&& s.arc2_health is None
            &&& s.arc3_health is None
            &&& s.pcie_status is Some && s.pcie_status->0@ == text::decimal(r.enabled_pcie as nat)
            &&& s.input_power is Some && s.input_power->0@ == text::decimal(r.input_power as nat)
            &&& s.board_power_limit is Some && s.board_power_limit->0@ == text::decimal(r.board_power_limit as nat)
            &&& s.therm_trip_count is Some && s.therm_trip_count->0@ == text::decimal(r.therm_trip_count as nat)
            &&& s.gddr_uncorr_errs == Some(r.gddr_uncorr_errs)
            &&& s.harvesting_state == Some(r.harvesting_state)
            &&& s.enabled_eth == Some(r.enabled_eth)
            &&& s.enabled_gddr == Some(r.enabled_gddr)
            &&& s.enabled_l2cpu == Some(r.enabled_l2cpu)
            &&& s.enabled_tensix_col == Some(r.tensix_enabled_col)
            &&& s.gddr_corr_errs@[0] == Some(r.gddr01_corr_errs)
            &&& s.gddr_temps@[0] is Some
            &&& (s.gddr_temps@[0]->0).0@[0] == (r.gddr01_temp % 256) * 1000
            &&& (s.gddr_temps@[0]->0).0@[1] == ((r.gddr01_temp / 256) % 256) * 1000
            &&& (s.gddr_temps@[0]->0).0@[2] == ((r.gddr01_temp / 65536) % 256) * 1000
            &&& (s.gddr_temps@[0]->0).0@[3] == ((r.gddr01_temp / 16777216) % 256) * 1000
            &&& s.gddr_corr_errs@[1] == Some(r.gddr23_corr_errs)
            &&& s.gddr_temps@[1] is Some
            &&& (s.gddr_temps@[1]->0).0@[0] == (r.gddr23_temp % 256) * 1000
            &&& (s.gddr_temps@[1]->0).0@[1] == ((r.gddr23_temp / 256) % 256) * 1000
            &&& (s.gddr_temps@[1]->0).0@[2] == ((r.gddr23_temp / 65536) % 256) * 1000
            &&& (s.gddr_temps@[1]->0).0@[3] == ((r.gddr23_temp / 16777216) % 256) * 1000
            &&& s.gddr_corr_errs@[2] == Some(r.gddr45_corr_errs)
            &&& s.gddr_temps@[2] is Some
            &&& (s.gddr_temps@[2]->0).0@[0] == (r.gddr45_temp % 256) * 1000
            &&& (s.gddr_temps@[2]->0).0@[1] == ((r.gddr45_temp / 256) % 256) * 1000
            &&& (s.gddr_temps@[2]->0).0@[2] == ((r.gddr45_temp / 65536) % 256) * 1000
            &&& (s.gddr_temps@[2]->0).0@[3] == ((r.gddr45_temp / 16777216) % 256) * 1000
            &&& s.gddr_corr_errs@[3] == Some(r.gddr67_corr_errs)
            &&& s.gddr_temps@[3] is Some
            &&& (s.gddr_temps@[3]->0).0@[0] == (r.gddr67_temp % 256) * 1000
            &&& (s.gddr_temps@[3]->0).0@[1] == ((r.gddr67_temp / 256) % 256) * 1000
            &&& (s.gddr_temps@[3]->0).0@[2] == ((r.gddr67_temp / 65536) % 256) * 1000
            &&& (s.gddr_temps@[3]->0).0@[3] == ((r.gddr67_temp / 16777216) % 256) * 1000
            &&& s.eth_live_status == Some(r.eth_status0 as u64)
            &&& s.max_gddr_temp is Some && s.max_gddr_temp->0 == r.max_gddr_temp * 1000
            &&& s.thm_limits is Some && s.thm_limits->0@ == text::decimal(r.thm_limits as nat)
        },
        !is_no_speed(r.fan_speed) ==> s.fan_speed is Some && s.fan_speed->0@ == text::decimal(
            r.fan_speed as nat,
        ),
        is_no_speed(r.fan_speed) && !is_no_speed(r.fan_rpm) ==> s.fan_speed is Some
            && s.fan_speed->0@ == text::decimal(r.fan_rpm as nat),
        is_no_speed(r.fan_speed) && is_no_speed(r.fan_rpm) ==> s.fan_speed is None,
{
}

/// Whether a fan register says that there is no fan.
pub open spec fn is_no_speed(raw: u32) -> bool {
    raw == 0 || raw == 65535 || raw == 4294967295
}

/// A chip that was found is a device under its position, with the limits and the
/// firmware version of its own registers: the power, current, clock and throttle
/// limits of Blackhole, and a version that is not 0.
pub proof fn law_chips_become_their_devices(d: Device, idx: int, c: DetectedChip)
    requires
        device_mapped(d, idx, c),
    ensures
        d.index == idx,
        d.architecture == c.arch,
        c.device_info is Some ==> d.bus_id@ == c.device_info->0@,
        c.device_info is None ==> d.bus_id@ == "pci:"@ + text::decimal(idx as nat),
        c.reading is None ==> d.board_type@ == c.arch_name@ && d.firmwares is None && d.limits is None,
        c.reading matches Some((r, board)) ==> {
            &&& d.board_type@ == board@
            &&& r.fw_bundle_version == 0 ==> d.firmwares is None
            &&& r.fw_bundle_version != 0 ==> d.firmwares is Some && text::opt_text(
                d.firmwares->0.fw_bundle_version,
            ) == Some(models::dotted_version(r.fw_bundle_version as nat))
            &&& r.arch != Architecture::Blackhole ==> d.limits is None
            &&& r.arch == Architecture::Blackhole ==> d.limits is Some && {
                let l = d.limits->0;
                &&& text::opt_text(l.tdp_limit) == Some(text::decimal(r.tdp_limit_max as nat))
                &&& text::opt_text(l.tdc_limit) == Some(text::decimal(r.tdc_limit_max as nat))
                &&& l.asic_fmax == Some(r.aiclk_limit_max)
                &&& text::opt_text(l.thm_limit) == Some(
                    text::decimal(r.thm_limit_throttle as nat),
                )
            }
        },
{
}

proof fn lemma_last_reading(readings: Seq<(usize, Option<ChipReading>)>, n: nat, k: int)
    requires
        0 <= k < n <= readings.len(),
        readings[k].1 is Some,
        forall|l: int|
            k < l < n && (#[trigger] readings[l]).0 == readings[k].0 ==> readings[l].1 is None,
    ensures
        last_reading(readings, readings[k].0, n) == readings[k].1,
    decreases n,
{
    if k < n - 1 {
        assert(readings[n - 1].0 == readings[k].0 ==> readings[n - 1].1 is None);
        lemma_last_reading(readings, (n - 1) as nat, k);
    }
}

proof fn lemma_no_reading(readings: Seq<(usize, Option<ChipReading>)>, idx: usize, n: nat)
    requires
        n <= readings.len(),
        forall|l: int| 0 <= l < n && (#[trigger] readings[l]).0 == idx ==> readings[l].1 is None,
    ensures
        last_reading(readings, idx, n) is None,
    decreases n,
{
    if n > 0 {
        assert(readings[n - 1].0 == idx ==> readings[n - 1].1 is None);
        lemma_no_reading(readings, idx, (n - 1) as nat);
    }
}

/// A chip that answered is served from that answer, and one that did not answer
/// is served what it was served before.
pub proof fn law_answers_are_served_and_silence_keeps(
    before: LuwenBackend,
    after: LuwenBackend,
    readings: Seq<(usize, Option<ChipReading>)>,
    k: int,
    now_ms: i64,
)
    requires
        caches_updated(before, after, readings, readings.len(), now_ms),
        0 <= k < readings.len(),
        forall|l: int|
            0 <= l < readings.len() && l != k ==> (#[trigger] readings[l]).0 != readings[k].0,
    ensures
        ({
            let idx = readings[k].0;
            match readings[k].1 {
                Some(r) => {
                    &&& after.telemetry_cache@.contains_key(idx)
                    &&& telemetry_mapped(after.telemetry_cache@[idx], r, now_ms)
                    &&& after.smbus_cache@.contains_key(idx)
                    &&& smbus_mapped(after.smbus_cache@[idx], r)
                },
                None => {
                    &&& after.telemetry_cache@.contains_key(idx)
                        == before.telemetry_cache@.contains_key(idx)
                    &&& after.telemetry_cache@[idx] == before.telemetry_cache@[idx]
                    &&& after.smbus_cache@.contains_key(idx)
                        == before.smbus_cache@.contains_key(idx)
                    &&& after.smbus_cache@[idx] == before.smbus_cache@[idx]
                },
            }
        }),
{
    let idx = readings[k].0;
    if readings[k].1 is Some {
        lemma_last_reading(readings, readings.len(), k);
    } else {
        lemma_no_reading(readings, idx, readings.len());
    }
}

/// A list of numbers grows at its end, with a comma before what is added.
pub proof fn law_lists_are_parted_by_commas(v: Seq<usize>, n: usize)
    ensures
        comma_list(seq![n]) == text::decimal(n as nat),
        v.len() > 0 ==> comma_list(v.push(n)) == comma_list(v) + ","@ + text::decimal(n as nat),
        comma_list(Seq::empty()).len() == 0,
{
    reveal_strlit(",");
    assert(","@ =~= seq![',']);
    assert(v.push(n).drop_last() =~= v);
}

} // verus!
