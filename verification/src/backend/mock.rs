//! A backend of simulated devices, for demonstrations and for work without
//! hardware.
//!
//! The swing of the readings over time and the noise on them are drawn by the
//! application. Everything that follows from them is computed here, in whole
//! thousandths.

use std::collections::HashMap;

use vstd::arithmetic::power::pow;
use vstd::prelude::*;

use crate::backend::hwmon;
use crate::backend::hwmon::{append_padded, millionths_text, thousandths_text};
use crate::backend::{BackendConfig, TelemetryBackend};
use crate::error::{BackendError, BackendResult};
use crate::models;
use crate::models::{
    Architecture, Device, DeviceLimits, FirmwaresInfo, GddrTempPair, SmbusTelemetry, Telemetry,
};
use crate::text;
use crate::text::{append_decimal, append_hex, decimal_text};

verus! {

broadcast use vstd::std_specs::hash::group_hash_axioms;

/// What hardware is simulated.
#[derive(Clone, Copy, Debug, PartialEq, Eq, Structural)]
pub enum MockScenario {
    /// The three architectures in turn.
    Mixed,
    /// One Galaxy of Blackhole chips.
    Galaxy,
    /// Four Galaxies of Blackhole chips.
    QuadGalaxy,
    /// A cluster of Wormhole chips.
    WormholeCluster,
}

/// The number of devices of a scenario.
pub open spec fn scenario_size(scenario: MockScenario) -> usize {
    match scenario {
        MockScenario::Mixed => 6,
        MockScenario::Galaxy => 32,
        MockScenario::QuadGalaxy => 128,
        MockScenario::WormholeCluster => 32,
    }
}

/// The board that a scenario puts at a position.
pub open spec fn mock_board(scenario: MockScenario, idx: int) -> Seq<char> {
    match scenario {
        MockScenario::Galaxy => "p150a"@,
        MockScenario::QuadGalaxy => "p150a"@,
        MockScenario::WormholeCluster => "n150"@,
        MockScenario::Mixed => if idx % 3 == 0 {
            "e150"@
        } else if idx % 3 == 1 {
            "n150"@
        } else {
            "p150"@
        },
    }
}

/// How far the readings have swung, which is the same for every device.
#[derive(Clone, Copy, Debug)]
pub struct Swing {
    /// Of the power, in milliwatts.
    pub power_mw: i32,
    /// Of the temperature, in millidegrees.
    pub temp_millideg: i32,
    /// Of the clock, in megahertz.
    pub aiclk_mhz: i32,
    /// Of the memory temperature, in millidegrees.
    pub gddr_millideg: u32,
}

/// The random numbers that become the noise on the readings of a device.
#[derive(Clone, Copy, Debug)]
pub struct Noise {
    pub power: u64,
    pub temperature: u64,
    pub voltage: u64,
}

/// The noise that a random number stands for: one of a thousand steps, half of
/// them below zero.
pub open spec fn noise(draw: nat, step: int) -> int {
    ((draw % 1000) as int - 500) * step
}

fn noise_of(draw: u64, step: i64) -> (n: i64)
    requires
        0 <= step <= 1000,
    ensures
        n == noise(draw as nat, step as int),
        -500_000 <= n <= 500_000,
{
    let k: i64 = (draw % 1000) as i64 - 500;
    assert(-500_000 <= k * step <= 500_000) by (nonlinear_arith)
        requires
            -500 <= k <= 499,
            0 <= step <= 1000,
    ;
    k * step
}

/// A number moved into a range.
pub open spec fn clamped(n: int, low: int, high: int) -> int {
    if n < low {
        low
    } else if n > high {
        high
    } else {
        n
    }
}

fn clamp_to(n: i64, low: i64, high: i64) -> (r: i64)
    requires
        low <= high,
    ensures
        r == clamped(n as int, low as int, high as int),
        low <= r <= high,
{
    if n < low {
        low
    } else if n > high {
        high
    } else {
        n
    }
}

/// The power that a chip draws on average, in milliwatts.
pub open spec fn base_power(arch: Architecture) -> int {
    match arch {
        Architecture::Grayskull => 40_000,
        Architecture::Wormhole => 55_000,
        Architecture::Blackhole => 70_000,
        Architecture::Unknown => 50_000,
    }
}

/// The temperature at a power, in millidegrees: half a degree for each watt.
pub open spec fn base_temperature(power_mw: int) -> int {
    45_000 + (power_mw - 40_000) / 2
}

/// The power of a device, in milliwatts: within ten watts of that of its chip.
pub open spec fn mock_power(arch: Architecture, swing: Swing, draws: Noise) -> int {
    base_power(arch) + clamped(swing.power_mw + noise(draws.power as nat, 6), -10_000, 10_000)
}

/// The temperature of a device, in millidegrees.
pub open spec fn mock_temperature(arch: Architecture, swing: Swing, draws: Noise) -> int {
    clamped(
        base_temperature(base_power(arch)) + swing.temp_millideg + noise(
            draws.temperature as nat,
            4,
        ),
        25_000,
        95_000,
    )
}

/// The voltage of a device, in microvolts.
pub open spec fn mock_voltage(draws: Noise) -> int {
    850_000 + noise(draws.voltage as nat, 40)
}

/// The current of so many milliwatts at so many microvolts, to the nearest
/// microampere.
pub open spec fn mock_current(power_mw: int, voltage_uv: int) -> int {
    (2 * power_mw * 1_000_000_000 + voltage_uv) / (2 * voltage_uv)
}

/// The clock of the device at a position, in megahertz.
pub open spec fn mock_aiclk(idx: int, swing: Swing) -> int {
    clamped(900 + (idx % 7) * 43 + swing.aiclk_mhz, 900, 1200)
}

/// Whether `t` is the telemetry of the device at a position.
pub open spec fn mock_telemetry(
    t: Telemetry,
    idx: int,
    arch: Architecture,
    swing: Swing,
    draws: Noise,
    now_ms: i64,
) -> bool {
    &&& text::opt_text(t.voltage) == Some(hwmon::millionths(mock_voltage(draws)))
    &&& text::opt_text(t.current) == Some(
        hwmon::millionths(mock_current(mock_power(arch, swing, draws), mock_voltage(draws))),
    )
    &&& text::opt_text(t.power) == Some(hwmon::thousandths(mock_power(arch, swing, draws)))
    &&& text::opt_text(t.asic_temperature) == Some(
        hwmon::thousandths(mock_temperature(arch, swing, draws)),
    )
    &&& t.aiclk == Some(mock_aiclk(idx, swing) as u32)
    &&& t.heartbeat == Some(1u32)
    &&& t.timestamp_ms == now_ms
    &&& t.board_power is None
}

/// The telemetry of the device at a position.
pub fn generate_telemetry(
    idx: usize,
    arch: Architecture,
    swing: &Swing,
    draws: &Noise,
    now_ms: i64,
) -> (t: Telemetry)
    ensures
        mock_telemetry(t, idx as int, arch, *swing, *draws, now_ms),
{
    let base: i64 = match arch {
        Architecture::Grayskull => 40_000,
        Architecture::Wormhole => 55_000,
        Architecture::Blackhole => 70_000,
        Architecture::Unknown => 50_000,
    };
    let power: i64 = base + clamp_to(
        swing.power_mw as i64 + noise_of(draws.power, 6),
        -10_000,
        10_000,
    );
    let warm: i64 = 45_000 + (base - 40_000) / 2;
    let temperature: i64 = clamp_to(
        warm + swing.temp_millideg as i64 + noise_of(draws.temperature, 4),
        25_000,
        95_000,
    );
    let voltage: i64 = 850_000 + noise_of(draws.voltage, 40);
    assert(noise(draws.voltage as nat, 40) >= -20_000);
    let aiclk: i64 = clamp_to(
        900 + (idx % 7) as i64 * 43 + swing.aiclk_mhz as i64,
        900,
        1200,
    );
    let current: i64 = (2 * power * 1_000_000_000 + voltage) / (2 * voltage);
    Telemetry {
        voltage: Some(millionths_text(voltage)),
        current: Some(millionths_text(current)),
        power: Some(thousandths_text(power)),
        asic_temperature: Some(thousandths_text(temperature)),
        aiclk: Some(aiclk as u32),
        heartbeat: Some(1),
        timestamp_ms: now_ms,
        board_power: None,
    }
}

/// The status word in which each of `n` memory channels is trained, at two
/// bits a channel.
pub open spec fn trained_channels(n: nat) -> nat
    decreases n,
{
    if n == 0 {
        0
    } else {
        trained_channels((n - 1) as nat) * 4 + 2
    }
}

fn trained_word(n: usize) -> (w: u64)
    requires
        n <= 16,
    ensures
        w == trained_channels(n as nat),
{
    let mut w: u64 = 0;
    let mut bound: u64 = 1;
    assert(bound == vstd::arithmetic::power::pow(4, 0)) by {
        vstd::arithmetic::power::lemma_pow0(4);
    }
    for i in 0..n
        invariant
            n <= 16,
            w == trained_channels(i as nat),
            w < bound,
            bound == vstd::arithmetic::power::pow(4, i as nat),
            bound <= 0x1_0000_0000,
    {
        proof {
            vstd::arithmetic::power::lemma_pow_adds(4, i as nat, 1);
            vstd::arithmetic::power::lemma_pow1(4);
            vstd::arithmetic::power::lemma_pow_increases(4, i as nat + 1, 16);
            assert(vstd::arithmetic::power::pow(4, 16) == 0x1_0000_0000) by {
                reveal_with_fuel(vstd::arithmetic::power::pow, 17);
            }
        }
        w = w * 4 + 2;
        bound = bound * 4;
    }
    w
}

/// A heartbeat that counts up with the updates and is never 0.
pub open spec fn mock_heartbeat(count: nat, idx: nat, stride: nat) -> nat {
    (count + idx * stride) % 255 + 1
}

fn heartbeat(count: usize, idx: usize, stride: u64) -> (s: String)
    requires
        stride <= 255,
    ensures
        s@ == text::decimal(mock_heartbeat(count as nat, idx as nat, stride as nat)),
{
    assert(idx * stride <= 255 * 0xffff_ffff_ffff_ffff) by (nonlinear_arith)
        requires
            0 <= stride <= 255,
            0 <= idx <= 0xffff_ffff_ffff_ffff,
    ;
    let sum: u128 = count as u128 + idx as u128 * stride as u128;
    decimal_text((sum % 255) as u64 + 1)
}

/// A number with at least four digits.
pub open spec fn four_digits(n: nat) -> Seq<char> {
    if n < 10_000 { hwmon::padded(n, 4) } else { text::decimal(n) }
}

/// Whether the simulated device has a column of cores fused off.
pub open spec fn mock_harvested(scenario: MockScenario, idx: int) -> bool {
    scenario == MockScenario::QuadGalaxy && idx % 17 == 0
}

/// The coolest memory temperature of the device at a position, in
/// millidegrees.
pub open spec fn mock_gddr(idx: int, swing: Swing) -> int {
    38_000 + (idx % 4) * 2000 + swing.gddr_millideg
}

/// Whether the temperatures rise by two degrees from that of the device.
pub open spec fn mock_pair(p: Option<GddrTempPair>, t: int) -> bool {
    p matches Some(p) && forall|i: int| 0 <= i < 4 ==> #[trigger] p.0@[i] == t + 2000 * i
}

/// Whether `s` is the SMBUS telemetry of the device at a position.
pub open spec fn mock_smbus(
    s: SmbusTelemetry,
    idx: int,
    channels: nat,
    scenario: MockScenario,
    count: nat,
    swing: Swing,
) -> bool {
    &&& text::opt_text(s.board_id) == Some("BOARD_"@ + four_digits(idx as nat))
    &&& text::opt_text(s.device_id) == Some("DEV_"@ + text::decimal(idx as nat))
    &&& text::opt_text(s.ddr_status) == Some(text::decimal(trained_channels(channels)))
    &&& text::opt_text(s.arc0_health) == Some(text::decimal(mock_heartbeat(count, idx as nat, 7)))
    &&& text::opt_text(s.arc1_health) == Some(text::decimal(mock_heartbeat(count, idx as nat, 11)))
    &&& text::opt_text(s.arc2_health) == Some(text::decimal(mock_heartbeat(count, idx as nat, 13)))
    &&& text::opt_text(s.arc3_health) == Some(text::decimal(mock_heartbeat(count, idx as nat, 17)))
    &&& text::opt_text(s.rt_seconds) == Some(
        text::decimal(((count * 100) % 0x1_0000_0000_0000_0000) as nat),
    )
    &&& text::opt_text(s.enum_version) == Some("1.0"@)
    &&& text::opt_text(s.ddr_speed) == Some("6400"@)
    &&& text::opt_text(s.arc0_fw_version) == Some("1.2.3"@)
    &&& text::opt_text(s.arc1_fw_version) == Some("1.2.3"@)
    &&& text::opt_text(s.arc2_fw_version) == Some("1.2.3"@)
    &&& text::opt_text(s.arc3_fw_version) == Some("1.2.3"@)
    &&& text::opt_text(s.eth_fw_version) == Some("2.1.0"@)
    &&& text::opt_text(s.m3_bl_fw_version) == Some("0.9.1"@)
    &&& text::opt_text(s.m3_app_fw_version) == Some("1.0.5"@)
    &&& text::opt_text(s.spibootrom_fw_version) == Some("1.1.0"@)
    &&& text::opt_text(s.tt_flash_version) == Some("3.2.1"@)
    &&& text::opt_text(s.aiclk) == Some("1000"@)
    &&& text::opt_text(s.axiclk) == Some("500"@)
    &&& text::opt_text(s.arcclk) == Some("800"@)
    &&& text::opt_text(s.asic_temperature) == Some("52"@)
    &&& text::opt_text(s.vreg_temperature) == Some("48"@)
    &&& text::opt_text(s.board_temperature) == Some("42"@)
    &&& text::opt_text(s.asic_tmon0) == Some("51"@)
    &&& text::opt_text(s.asic_tmon1) == Some("53"@)
    &&& text::opt_text(s.vcore) == Some("0.85"@)
    &&& text::opt_text(s.tdp) == Some("120"@)
    &&& text::opt_text(s.tdc) == Some("150"@)
    &&& text::opt_text(s.throttler) == Some("0"@)
    &&& text::opt_text(s.vdd_limits) == Some("0.75-0.95"@)
    &&& text::opt_text(s.thm_limits) == Some("95"@)
    &&& text::opt_text(s.input_power) == Some("50"@)
    &&& text::opt_text(s.board_power_limit) == Some("120"@)
    &&& text::opt_text(s.mvddq_power) == Some("12"@)
    &&& text::opt_text(s.fan_speed) == Some("3000"@)
    &&& text::opt_text(s.faults) == Some("0"@)
    &&& text::opt_text(s.pcie_status) == Some("Gen4x16"@)
    &&& text::opt_text(s.eth_status0) == Some("LinkUp"@)
    &&& text::opt_text(s.eth_status1) == Some("LinkUp"@)
    &&& text::opt_text(s.eth_debug_status0) == Some("0"@)
    &&& text::opt_text(s.eth_debug_status1) == Some("0"@)
    &&& text::opt_text(s.aux_status) == Some("OK"@)
    &&& text::opt_text(s.gddr_train_temp0) == Some("45"@)
    &&& text::opt_text(s.gddr_train_temp1) == Some("46"@)
    &&& text::opt_text(s.therm_trip_count) == Some("0"@)
    &&& text::opt_text(s.boot_date) == Some("2026-01-11"@)
    &&& text::opt_text(s.wh_fw_date) == Some("2026-01-01"@)
    &&& forall|i: int| 0 <= i < 4 ==> mock_pair(#[trigger] s.gddr_temps@[i], mock_gddr(idx, swing))
    &&& s.max_gddr_temp == Some((mock_gddr(idx, swing) + 6000) as u64)
    &&& forall|i: int| 0 <= i < 4 ==> #[trigger] s.gddr_corr_errs@[i] is None
    &&& s.gddr_uncorr_errs is None
    &&& s.harvesting_state == Some(if mock_harvested(scenario, idx) { 1u32 } else { 0u32 })
    &&& s.eth_live_status == Some(0xAAAA_AAAA_AAAA_AAAAu64)
    &&& s.enabled_eth is None
    &&& s.enabled_gddr is None
    &&& s.enabled_l2cpu is None
    &&& s.enabled_tensix_col == Some(
        if mock_harvested(scenario, idx) { 0x3FFEu32 } else { 0x3FFFu32 },
    )
    &&& s.gddr_telemetry is None
}

fn rising_pair(t: u32) -> (p: Option<GddrTempPair>)
    requires
        t <= u32::MAX - 6000,
    ensures
        mock_pair(p, t as int),
{
    Some(GddrTempPair([t, t + 2000, t + 4000, t + 6000]))
}

/// The SMBUS telemetry of the device at a position.
pub fn generate_smbus_telemetry(
    idx: usize,
    channels: usize,
    scenario: MockScenario,
    count: usize,
    swing: &Swing,
) -> (s: SmbusTelemetry)
    requires
        channels <= 16,
        swing.gddr_millideg <= 0xffff_0000,
    ensures
        mock_smbus(s, idx as int, channels as nat, scenario, count as nat, *swing),
{
    let mut board_id = "BOARD_".to_owned();
    if idx < 10_000 {
        append_padded(&mut board_id, idx as u64, 4);
    } else {
        append_decimal(&mut board_id, idx as u64);
    }
    let mut device_id = "DEV_".to_owned();
    append_decimal(&mut device_id, idx as u64);
    let quad = match scenario {
        MockScenario::QuadGalaxy => true,
        _ => false,
    };
    let harvested = quad && idx % 17 == 0;
    let t: u32 = 38_000 + (idx % 4) as u32 * 2000 + swing.gddr_millideg;
    let seconds: u64 = (count as u64).wrapping_mul(100);
    SmbusTelemetry {
        board_id: Some(board_id),
        device_id: Some(device_id),
        ddr_status: Some(decimal_text(trained_word(channels))),
        arc0_health: Some(heartbeat(count, idx, 7)),
        arc1_health: Some(heartbeat(count, idx, 11)),
        arc2_health: Some(heartbeat(count, idx, 13)),
        arc3_health: Some(heartbeat(count, idx, 17)),
        rt_seconds: Some(decimal_text(seconds)),
        enum_version: Some("1.0".to_owned()),
        ddr_speed: Some("6400".to_owned()),
        arc0_fw_version: Some("1.2.3".to_owned()),
        arc1_fw_version: Some("1.2.3".to_owned()),
        arc2_fw_version: Some("1.2.3".to_owned()),
        arc3_fw_version: Some("1.2.3".to_owned()),
        eth_fw_version: Some("2.1.0".to_owned()),
        m3_bl_fw_version: Some("0.9.1".to_owned()),
        m3_app_fw_version: Some("1.0.5".to_owned()),
        spibootrom_fw_version: Some("1.1.0".to_owned()),
        tt_flash_version: Some("3.2.1".to_owned()),
        aiclk: Some("1000".to_owned()),
        axiclk: Some("500".to_owned()),
        arcclk: Some("800".to_owned()),
        asic_temperature: Some("52".to_owned()),
        vreg_temperature: Some("48".to_owned()),
        board_temperature: Some("42".to_owned()),
        asic_tmon0: Some("51".to_owned()),
        asic_tmon1: Some("53".to_owned()),
        vcore: Some("0.85".to_owned()),
        tdp: Some("120".to_owned()),
        tdc: Some("150".to_owned()),
        throttler: Some("0".to_owned()),
        vdd_limits: Some("0.75-0.95".to_owned()),
        thm_limits: Some("95".to_owned()),
        input_power: Some("50".to_owned()),
        board_power_limit: Some("120".to_owned()),
        mvddq_power: Some("12".to_owned()),
        fan_speed: Some("3000".to_owned()),
        faults: Some("0".to_owned()),
        pcie_status: Some("Gen4x16".to_owned()),
        eth_status0: Some("LinkUp".to_owned()),
        eth_status1: Some("LinkUp".to_owned()),
        eth_debug_status0: Some("0".to_owned()),
        eth_debug_status1: Some("0".to_owned()),
        aux_status: Some("OK".to_owned()),
        gddr_train_temp0: Some("45".to_owned()),
        gddr_train_temp1: Some("46".to_owned()),
        therm_trip_count: Some("0".to_owned()),
        boot_date: Some("2026-01-11".to_owned()),
        wh_fw_date: Some("2026-01-01".to_owned()),
        gddr_temps: [rising_pair(t), rising_pair(t), rising_pair(t), rising_pair(t)],
        max_gddr_temp: Some(t as u64 + 6000),
        gddr_corr_errs: [None, None, None, None],
        gddr_uncorr_errs: None,
        harvesting_state: Some(if harvested { 1 } else { 0 }),
        eth_live_status: Some(0xAAAA_AAAA_AAAA_AAAA),
        enabled_eth: None,
        enabled_gddr: None,
        enabled_l2cpu: None,
        enabled_tensix_col: Some(if harvested { 0x3FFE } else { 0x3FFF }),
        gddr_telemetry: None,
    }
}

/// The bus address of the device at a position.
pub open spec fn mock_bus(idx: int) -> Seq<char> {
    let n = (idx % 256 + 1) as nat;
    "0000:"@ + (if n < 16 { seq!['0'] } else { Seq::empty() }) + text::hexadecimal(n) + ":00.0"@
}

/// Whether `d` is the device at a position.
pub open spec fn mock_device(d: Device, scenario: MockScenario, idx: int) -> bool {
    &&& d.index == idx
    &&& d.board_type@ == mock_board(scenario, idx)
    &&& d.bus_id@ == mock_bus(idx)
    &&& d.coords@ == seq!['('] + text::decimal((idx / 8) as nat) + seq![','] + text::decimal(
        (idx % 8) as nat,
    ) + seq![')']
    &&& d.architecture == models::board_architecture(mock_board(scenario, idx))
    &&& d.firmwares matches Some(f) && {
        &&& text::opt_text(f.fw_bundle_version) == Some("fw_pack-19.9.0"@)
        &&& text::opt_text(f.eth_fw) == Some("6.16.0.0"@)
        &&& text::opt_text(f.cm_fw) == Some("v80.15.0.0"@)
        &&& text::opt_text(f.gddr_fw) == Some("1.37"@)
    }
    &&& d.limits matches Some(l) && {
        &&& text::opt_text(l.tdp_limit) == Some("300.0"@)
        &&& text::opt_text(l.tdc_limit) == Some("40.0"@)
        &&& l.asic_fmax == Some(800u32)
        &&& text::opt_text(l.thm_limit) == Some("105.0"@)
    }
    &&& d.pcie_speed is None
    &&& d.pcie_width is None
    &&& d.grid_override is None
    &&& d.channels_override is None
}

fn generate_device(scenario: MockScenario, idx: usize) -> (d: Device)
    ensures
        mock_device(d, scenario, idx as int),
{
    let board = match scenario {
        MockScenario::Galaxy => "p150a",
        MockScenario::QuadGalaxy => "p150a",
        MockScenario::WormholeCluster => "n150",
        MockScenario::Mixed => match idx % 3 {
            0 => "e150",
            1 => "n150",
            _ => "p150",
        },
    };
    let n: u64 = (idx % 256) as u64 + 1;
    let mut bus_id = "0000:".to_owned();
    if n < 16 {
        bus_id.push('0');
    }
    append_hex(&mut bus_id, n);
    bus_id.append(":00.0");
    assert(bus_id@ =~= mock_bus(idx as int));
    let mut coords = String::new();
    coords.push('(');
    append_decimal(&mut coords, (idx / 8) as u64);
    coords.push(',');
    append_decimal(&mut coords, (idx % 8) as u64);
    coords.push(')');
    assert(coords@ =~= seq!['('] + text::decimal((idx / 8) as nat) + seq![','] + text::decimal(
        (idx % 8) as nat,
    ) + seq![')']);
    let mut d = Device::new(idx, board.to_owned(), bus_id, coords);
    d.firmwares = Some(
        FirmwaresInfo {
            fw_bundle_version: Some("fw_pack-19.9.0".to_owned()),
            eth_fw: Some("6.16.0.0".to_owned()),
            cm_fw: Some("v80.15.0.0".to_owned()),
            gddr_fw: Some("1.37".to_owned()),
        },
    );
    d.limits = Some(
        DeviceLimits {
            tdp_limit: Some("300.0".to_owned()),
            tdc_limit: Some("40.0".to_owned()),
            asic_fmax: Some(800),
            thm_limit: Some("105.0".to_owned()),
        },
    );
    d
}

/// Serves simulated devices.
#[derive(Debug)]
pub struct MockBackend {
    pub device_count: usize,
    pub scenario: MockScenario,
    pub devices: Vec<Device>,
    pub telemetry: HashMap<usize, Telemetry>,
    pub smbus_telemetry: HashMap<usize, SmbusTelemetry>,
    pub config: BackendConfig,
    /// Updates so far. It starts over after the largest number.
    pub update_count: usize,
}

/// Whether the first `n` devices have the readings of a round, and every other
/// index what it had.
pub open spec fn round_served(
    before: MockBackend,
    after: MockBackend,
    n: nat,
    swing: Swing,
    draws: Seq<Noise>,
    now_ms: i64,
) -> bool {
    forall|i: usize| #[trigger]
        served_at(before, after, i, n, swing, draws, now_ms)
}

/// What `round_served` says of one index.
pub open spec fn served_at(
    before: MockBackend,
    after: MockBackend,
    i: usize,
    n: nat,
    swing: Swing,
    draws: Seq<Noise>,
    now_ms: i64,
) -> bool {
    if i < n {
        &&& after.telemetry@.contains_key(i)
        &&& mock_telemetry(
            after.telemetry@[i],
            i as int,
            after.devices@[i as int].architecture,
            swing,
            draws[i as int],
            now_ms,
        )
        &&& after.smbus_telemetry@.contains_key(i)
        &&& mock_smbus(
            after.smbus_telemetry@[i],
            i as int,
            models::architecture_channels(after.devices@[i as int].architecture) as nat,
            after.scenario,
            after.update_count as nat,
            swing,
        )
    } else {
        &&& after.telemetry@.contains_key(i) == before.telemetry@.contains_key(i)
        &&& after.telemetry@[i] == before.telemetry@[i]
        &&& after.smbus_telemetry@.contains_key(i) == before.smbus_telemetry@.contains_key(i)
        &&& after.smbus_telemetry@[i] == before.smbus_telemetry@[i]
    }
}

impl MockBackend {
    /// Whether the backend is that of its scenario: nothing yet, or its
    /// devices.
    pub open spec fn wf(&self) -> bool {
        &&& self.devices@.len() == 0 || self.devices@.len() == self.device_count
        &&& forall|i: int|
            0 <= i < self.devices@.len() ==> mock_device(
                #[trigger] self.devices@[i],
                self.scenario,
                i,
            )
    }

    /// A backend of that many devices of mixed architectures.
    pub fn new(device_count: usize) -> (b: Self)
        ensures
            b.wf(),
            b.device_count == device_count,
            b.scenario == MockScenario::Mixed,
            b.devices@.len() == 0,
            b.telemetry@ == Map::<usize, Telemetry>::empty(),
            b.smbus_telemetry@ == Map::<usize, SmbusTelemetry>::empty(),
            b.config == (BackendConfig {
                update_interval_ms: 100,
                max_consecutive_errors: 10,
                read_timeout_ms: 5000,
                verbose: false,
            }),
            b.update_count == 0,
    {
        Self::with_config(device_count, BackendConfig::default())
    }

    /// A backend of that many devices of mixed architectures, with the given
    /// settings.
    pub fn with_config(device_count: usize, config: BackendConfig) -> (b: Self)
        ensures
            b.wf(),
            b.device_count == device_count,
            b.scenario == MockScenario::Mixed,
            b.devices@.len() == 0,
            b.telemetry@ == Map::<usize, Telemetry>::empty(),
            b.smbus_telemetry@ == Map::<usize, SmbusTelemetry>::empty(),
            b.config == config,
            b.update_count == 0,
    {
        MockBackend {
            device_count,
            scenario: MockScenario::Mixed,
            devices: Vec::new(),
            telemetry: HashMap::new(),
            smbus_telemetry: HashMap::new(),
            config,
            update_count: 0,
        }
    }

    /// A backend of the devices of a scenario.
    pub fn with_scenario(scenario: MockScenario) -> (b: Self)
        ensures
            b.wf(),
            b.device_count == scenario_size(scenario),
            b.scenario == scenario,
            b.devices@.len() == 0,
            b.telemetry@ == Map::<usize, Telemetry>::empty(),
            b.smbus_telemetry@ == Map::<usize, SmbusTelemetry>::empty(),
            b.config == (BackendConfig {
                update_interval_ms: 100,
                max_consecutive_errors: 10,
                read_timeout_ms: 5000,
                verbose: false,
            }),
            b.update_count == 0,
    {
        let device_count: usize = match scenario {
            MockScenario::Mixed => 6,
            MockScenario::Galaxy => 32,
            MockScenario::QuadGalaxy => 128,
            MockScenario::WormholeCluster => 32,
        };
        let mut b = Self::new(device_count);
        b.scenario = scenario;
        b
    }

    /// Makes the devices and their first readings. It is an error to have no
    /// device.
    pub fn init(&mut self, swing: &Swing, draws: &Vec<Noise>, now_ms: i64) -> (r: BackendResult<()>)
        requires
            draws@.len() >= old(self).device_count,
            swing.gddr_millideg <= 0xffff_0000,
        ensures
            r is Ok <==> old(self).device_count != 0,
            r matches Err(e) ==> {
                &&& e matches BackendError::DeviceNotFound(m) && m@
                    == "Cannot create mock backend with 0 devices"@
                &&& *final(self) == *old(self)
            },
            r is Ok ==> {
                &&& final(self).wf()
                &&& final(self).devices@.len() == old(self).device_count
                &&& final(self).update_count == old(self).update_count
                &&& round_served(
                    *old(self),
                    *final(self),
                    old(self).device_count as nat,
                    *swing,
                    draws@,
                    now_ms,
                )
            },
            final(self).device_count == old(self).device_count,
            final(self).scenario == old(self).scenario,
            final(self).config == old(self).config,
    {
        if self.device_count == 0 {
            return Err(
                BackendError::DeviceNotFound("Cannot create mock backend with 0 devices".to_owned()),
            );
        }
        let mut devices: Vec<Device> = Vec::new();
        for idx in 0..self.device_count
            invariant
                devices@.len() == idx,
                forall|i: int|
                    0 <= i < idx ==> mock_device(#[trigger] devices@[i], self.scenario, i),
        {
            devices.push(generate_device(self.scenario, idx));
        }
        self.devices = devices;
        let ghost mid = *self;
        self.refresh(swing, draws, now_ms);
        assert forall|i: usize| #[trigger]
            served_at(
                *old(self),
                *self,
                i,
                old(self).device_count as nat,
                *swing,
                draws@,
                now_ms,
            ) by {
            assert(served_at(mid, *self, i, mid.device_count as nat, *swing, draws@, now_ms));
        }
        Ok(())
    }

    /// Draws the next readings.
    pub fn update(&mut self, swing: &Swing, draws: &Vec<Noise>, now_ms: i64) -> (r: BackendResult<
        (),
    >)
        requires
            old(self).wf(),
            old(self).devices@.len() == old(self).device_count,
            draws@.len() >= old(self).device_count,
            swing.gddr_millideg <= 0xffff_0000,
        ensures
            r is Ok,
            final(self).wf(),
            final(self).update_count == if old(self).update_count == usize::MAX {
                0
            } else {
                (old(self).update_count + 1) as usize
            },
            round_served(
                *old(self),
                *final(self),
                old(self).device_count as nat,
                *swing,
                draws@,
                now_ms,
            ),
            final(self).devices == old(self).devices,
            final(self).device_count == old(self).device_count,
            final(self).scenario == old(self).scenario,
            final(self).config == old(self).config,
    {
        self.update_count = self.update_count.wrapping_add(1);
        let ghost mid = *self;
        self.refresh(swing, draws, now_ms);
        assert forall|i: usize| #[trigger]
            served_at(
                *old(self),
                *self,
                i,
                old(self).device_count as nat,
                *swing,
                draws@,
                now_ms,
            ) by {
            assert(served_at(mid, *self, i, mid.device_count as nat, *swing, draws@, now_ms));
        }
        Ok(())
    }

    fn refresh(&mut self, swing: &Swing, draws: &Vec<Noise>, now_ms: i64)
        requires
            old(self).wf(),
            old(self).devices@.len() == old(self).device_count,
            draws@.len() >= old(self).device_count,
            swing.gddr_millideg <= 0xffff_0000,
        ensures
            final(self).devices == old(self).devices,
            final(self).device_count == old(self).device_count,
            final(self).scenario == old(self).scenario,
            final(self).config == old(self).config,
            final(self).update_count == old(self).update_count,
            round_served(
                *old(self),
                *final(self),
                old(self).device_count as nat,
                *swing,
                draws@,
                now_ms,
            ),
    {
        let ghost start = *self;
        let n: usize = self.device_count;
        for idx in 0..n
            invariant
                start == *old(self),
                start.wf(),
                self.devices == start.devices,
                self.device_count == start.device_count,
                self.scenario == start.scenario,
                self.config == start.config,
                self.update_count == start.update_count,
                n == start.device_count,
                start.devices@.len() == n,
                draws@.len() >= n,
                swing.gddr_millideg <= 0xffff_0000,
                round_served(start, *self, idx as nat, *swing, draws@, now_ms),
        {
            let ghost mid = *self;
            assert(mock_device(self.devices@[idx as int], self.scenario, idx as int));
            let arch = self.devices[idx].architecture;
            let channels: usize = self.devices[idx].memory_channels();
            let t = generate_telemetry(idx, arch, swing, &draws[idx], now_ms);
            let s = generate_smbus_telemetry(
                idx,
                channels,
                self.scenario,
                self.update_count,
                swing,
            );
            self.telemetry.insert(idx, t);
            self.smbus_telemetry.insert(idx, s);
            assert forall|i: usize| #[trigger]
                served_at(start, *self, i, idx as nat + 1, *swing, draws@, now_ms) by {
                assert(served_at(start, mid, i, idx as nat, *swing, draws@, now_ms));
            }
        }
    }
}

impl TelemetryBackend for MockBackend {
    open spec fn device_list(&self) -> Seq<Device> {
        self.devices@
    }

    open spec fn telemetry_map(&self) -> Map<usize, Telemetry> {
        self.telemetry@
    }

    open spec fn smbus_map(&self) -> Map<usize, SmbusTelemetry> {
        self.smbus_telemetry@
    }

    open spec fn info_text(&self) -> Seq<char> {
        "Mock ("@ + text::decimal(self.device_count as nat) + " devices)"@
    }

    open spec fn snapshot_text(&self) -> Option<Seq<char>> {
        None
    }

    fn devices(&self) -> (devices: &Vec<Device>) {
        &self.devices
    }

    fn telemetry(&self, device_idx: usize) -> (t: Option<&Telemetry>) {
        self.telemetry.get(&device_idx)
    }

    fn smbus_telemetry(&self, device_idx: usize) -> (s: Option<&SmbusTelemetry>) {
        self.smbus_telemetry.get(&device_idx)
    }

    fn backend_info(&self) -> (s: String) {
        let mut s = "Mock (".to_owned();
        append_decimal(&mut s, self.device_count as u64);
        s.append(" devices)");
        s
    }

    fn snapshot_json(&self) -> (s: Option<String>) {
        None
    }
}

/// Whatever the swing and the noise, the power stays within ten watts of that of
/// the chip, and so between 10 and 150 watts, the temperature between 25 and 95
/// degrees, the voltage between 0.83 and 0.87 volts, and the clock between 900
/// and 1200 megahertz.
pub proof fn law_readings_stay_in_range(idx: int, arch: Architecture, swing: Swing, draws: Noise)
    ensures
        base_power(arch) - 10_000 <= mock_power(arch, swing, draws) <= base_power(arch) + 10_000,
        10_000 <= mock_power(arch, swing, draws) <= 150_000,
        25_000 <= mock_temperature(arch, swing, draws) <= 95_000,
        830_000 <= mock_voltage(draws) <= 870_000,
        900 <= mock_aiclk(idx, swing) <= 1200,
{
}

/// The heartbeat of a simulated core is never 0 and differs from one update to
/// the next.
pub proof fn law_heartbeat_moves(count: nat, idx: nat, stride: nat)
    ensures
        1 <= mock_heartbeat(count, idx, stride) <= 255,
        mock_heartbeat(count + 1, idx, stride) != mock_heartbeat(count, idx, stride),
{
}

/// The mixed scenario runs through the three architectures in turn, and every
/// other scenario holds one architecture.
pub proof fn law_scenario_architectures(scenario: MockScenario, idx: int)
    requires
        0 <= idx,
    ensures
        models::board_architecture(mock_board(scenario, idx)) == match scenario {
            MockScenario::Galaxy => Architecture::Blackhole,
            MockScenario::QuadGalaxy => Architecture::Blackhole,
            MockScenario::WormholeCluster => Architecture::Wormhole,
            MockScenario::Mixed => if idx % 3 == 0 {
                Architecture::Grayskull
            } else if idx % 3 == 1 {
                Architecture::Wormhole
            } else {
                Architecture::Blackhole
            },
        },
{
    reveal_strlit("p150a");
    reveal_strlit("e150");
    reveal_strlit("n150");
    reveal_strlit("p150");
}

/// The readings are in whole units, each in its own place: volts, amperes, watts and
/// degrees; and the current at the voltage makes the power, to half a microampere.
pub proof fn law_simulated_readings_agree(
    t: Telemetry,
    idx: int,
    arch: Architecture,
    swing: Swing,
    draws: Noise,
    now_ms: i64,
)
    requires
        mock_telemetry(t, idx, arch, swing, draws, now_ms),
    ensures
        t.voltage is Some && t.current is Some && t.power is Some && t.asic_temperature is Some,
        text::denotes(t.voltage->0@, mock_voltage(draws), 1_000_000),
        text::denotes(t.power->0@, mock_power(arch, swing, draws), 1000),
        text::denotes(t.asic_temperature->0@, mock_temperature(arch, swing, draws), 1000),
        ({
            let current = mock_current(mock_power(arch, swing, draws), mock_voltage(draws));
            let voltage = mock_voltage(draws);
            &&& text::denotes(t.current->0@, current, 1_000_000)
            &&& -voltage <= 2 * (current * voltage - mock_power(arch, swing, draws)
                * 1_000_000_000) <= voltage
        }),
        t.aiclk is Some && t.aiclk->0 == mock_aiclk(idx, swing) && 900 <= t.aiclk->0 <= 1200,
        t.heartbeat == Some(1u32) && t.timestamp_ms == now_ms && t.board_power is None,
{
    let power = mock_power(arch, swing, draws);
    let voltage = mock_voltage(draws);
    law_readings_stay_in_range(idx, arch, swing, draws);
    hwmon::law_millionths_denote(voltage);
    hwmon::law_millionths_denote(mock_current(power, voltage));
    hwmon::law_thousandths_denote(power);
    hwmon::law_thousandths_denote(mock_temperature(arch, swing, draws));
    let n = 2 * power * 1_000_000_000 + voltage;
    let d = 2 * voltage;
    vstd::arithmetic::div_mod::lemma_fundamental_div_mod(n, d);
    assert((2 * voltage) * (n / d) == 2 * ((n / d) * voltage)) by (nonlinear_arith);
}

/// A random number stands for one of a thousand steps, of which the middle one is
/// none; the next number is one step further.
pub proof fn law_noise_goes_in_steps(draw: nat, step: int)
    requires
        0 <= step,
    ensures
        -500 * step <= noise(draw, step) <= 499 * step,
        draw % 1000 == 500 ==> noise(draw, step) == 0,
        draw % 1000 < 999 ==> noise(draw + 1, step) == noise(draw, step) + step,
{
    let k = (draw % 1000) as int - 500;
    assert(-500 * step <= k * step <= 499 * step) by (nonlinear_arith)
        requires
            -500 <= k <= 499,
            0 <= step,
    ;
    assert((k + 1) * step == k * step + step) by (nonlinear_arith);
    assert(0 * step == 0);
}

/// What a chip draws, and how warm it is: 40, 55 and 70 watts by its architecture, and
/// 45 degrees at the first, with half a degree for each watt more.
pub proof fn law_chips_differ_by_architecture(arch: Architecture, swing: Swing, draws: Noise)
    requires
        swing.power_mw == 0,
        swing.temp_millideg == 0,
        draws.power % 1000 == 500,
        draws.temperature % 1000 == 500,
        draws.voltage % 1000 == 500,
    ensures
        mock_power(arch, swing, draws) == match arch {
            Architecture::Grayskull => 40_000,
            Architecture::Wormhole => 55_000,
            Architecture::Blackhole => 70_000,
            Architecture::Unknown => 50_000int,
        },
        2 * (mock_temperature(arch, swing, draws) - 45_000) == mock_power(arch, swing, draws) - 40_000,
        mock_voltage(draws) == 850_000,
{
}

/// In the status word every channel is trained, and there are no others.
pub proof fn law_every_channel_is_trained(n: nat, c: nat)
    ensures
        c < n ==> (trained_channels(n) as int / pow(4, c)) % 4 == 2,
        0 <= trained_channels(n) < pow(4, n),
    decreases n,
{
    vstd::arithmetic::power::lemma_pow0(4);
    if n > 0 {
        let less = (n - 1) as nat;
        vstd::arithmetic::power::lemma_pow_adds(4, less, 1);
        vstd::arithmetic::power::lemma_pow1(4);
        law_every_channel_is_trained(less, if c > 0 { (c - 1) as nat } else { 0 });
        if 0 < c < n {
            let w = trained_channels(n) as int;
            vstd::arithmetic::power::lemma_pow_adds(4, 1, (c - 1) as nat);
            vstd::arithmetic::power::lemma_pow_positive(4, (c - 1) as nat);
            vstd::arithmetic::div_mod::lemma_div_denominator(w, 4, pow(4, (c - 1) as nat));
        }
    }
}

/// The warmest memory temperature is the highest of all that are given, which are two
/// degrees apart within a stack; a column is off where the state of the cores says so.
pub proof fn law_warmest_memory_is_the_highest(
    s: SmbusTelemetry,
    idx: int,
    channels: nat,
    scenario: MockScenario,
    count: nat,
    swing: Swing,
    i: int,
    k: int,
)
    requires
        mock_smbus(s, idx, channels, scenario, count, swing),
        0 <= idx,
        0 <= i < 4,
        0 <= k < 4,
    ensures
        s.max_gddr_temp is Some && s.gddr_temps@[i] is Some,
        s.max_gddr_temp->0 == (mock_gddr(idx, swing) + 6000) as u64,
        mock_gddr(idx, swing) == 38_000 + 2000 * (idx % 4) + swing.gddr_millideg,
        (s.gddr_temps@[i]->0).0@[k] <= s.max_gddr_temp->0,
        (s.gddr_temps@[i]->0).0@[3] == s.max_gddr_temp->0,
        k > 0 ==> (s.gddr_temps@[i]->0).0@[k] == (s.gddr_temps@[i]->0).0@[k - 1] + 2000,
        s.harvesting_state == Some(0u32) || s.harvesting_state == Some(1u32),
        s.harvesting_state == Some(1u32) <==> scenario == MockScenario::QuadGalaxy && idx % 17 == 0,
        s.enabled_tensix_col is Some && s.enabled_tensix_col->0 + s.harvesting_state->0 == 0x3FFF,
{
    assert(mock_pair(s.gddr_temps@[i], mock_gddr(idx, swing)));
}

/// The device at a position says so: its bus is the position and one, in hexadecimal,
/// and its place is a column in a row of eight.
pub proof fn law_devices_stand_at_their_position(d: Device, scenario: MockScenario, idx: int)
    requires
        mock_device(d, scenario, idx),
        0 <= idx,
    ensures
        d.index == idx,
        exists|bus: Seq<char>| #[trigger]
            text::digits_value(bus, 16) == idx % 256 + 1 && bus.len() >= 2 && d.bus_id@ == "0000:"@
                + bus + ":00.0"@,
        exists|row: nat, column: nat|
            column < 8 && row * 8 + column == idx && d.coords@ == seq!['('] + #[trigger] text::decimal(
                row,
            ) + seq![','] + #[trigger] text::decimal(column) + seq![')'],
        d.board_type@ == mock_board(scenario, idx),
        scenario == MockScenario::Galaxy || scenario == MockScenario::QuadGalaxy ==> d.board_type@
            == "p150a"@,
        scenario == MockScenario::WormholeCluster ==> d.board_type@ == "n150"@,
        scenario == MockScenario::Mixed && idx % 3 == 0 ==> d.board_type@ == "e150"@,
        scenario == MockScenario::Mixed && idx % 3 == 1 ==> d.board_type@ == "n150"@,
        scenario == MockScenario::Mixed && idx % 3 == 2 ==> d.board_type@ == "p150"@,
{
    let n = (idx % 256 + 1) as nat;
    let h = text::hexadecimal(n);
    let bus = (if n < 16 { seq!['0'] } else { Seq::empty() }) + h;
    text::law_hexadecimal_reads_back(n);
    lemma_bus_digits(n);
    assert(d.bus_id@ =~= "0000:"@ + bus + ":00.0"@);
    let row = (idx / 8) as nat;
    let column = (idx % 8) as nat;
    assert(row * 8 + column == idx);
    assert(text::decimal(row) == text::decimal((idx / 8) as nat));
}

proof fn lemma_bus_digits(n: nat)
    requires
        n > 0,
    ensures
        ({
            let bus = (if n < 16 { seq!['0'] } else { Seq::empty() }) + text::hexadecimal(n);
            text::digits_value(bus, 16) == n && bus.len() >= 2
        }),
{
    let h = text::hexadecimal(n);
    text::law_hexadecimal_reads_back(n);
    if n < 16 {
        let bus = seq!['0'] + h;
        assert(h.len() == 1);
        assert(bus.drop_last() =~= seq!['0']);
        assert(bus.last() == h.last());
        assert(h.drop_last() =~= Seq::<char>::empty());
        assert(seq!['0'].drop_last() =~= Seq::<char>::empty());
        assert(text::digits_value(seq!['0'], 16) == 0);
    } else {
        assert(Seq::<char>::empty() + h =~= h);
        assert(text::hexadecimal(n / 16).len() > 0) by {
            text::law_hexadecimal_reads_back(n / 16);
        }
    }
}

/// The sizes of the scenarios: six devices, the 32 of a Galaxy, four times that, and 32.
pub proof fn law_scenarios_have_their_size()
    ensures
        scenario_size(MockScenario::Mixed) == 6,
        scenario_size(MockScenario::Galaxy) == 32,
        scenario_size(MockScenario::QuadGalaxy) == 4 * scenario_size(MockScenario::Galaxy),
        scenario_size(MockScenario::WormholeCluster) == 32,
{
}

/// A round serves every device its own readings, by its own noise and architecture, and
/// the health of its first core moves with every update.
pub proof fn law_rounds_serve_every_device(
    before: MockBackend,
    after: MockBackend,
    n: nat,
    swing: Swing,
    draws: Seq<Noise>,
    now_ms: i64,
    i: usize,
)
    requires
        round_served(before, after, n, swing, draws, now_ms),
        i < n,
    ensures
        after.telemetry@.contains_key(i) && after.smbus_telemetry@.contains_key(i),
        after.telemetry@[i].timestamp_ms == now_ms,
        after.telemetry@[i].power is Some && text::denotes(
            after.telemetry@[i].power->0@,
            mock_power(after.devices@[i as int].architecture, swing, draws[i as int]),
            1000,
        ),
        after.smbus_telemetry@[i].device_id is Some && after.smbus_telemetry@[i].device_id->0@
            == "DEV_"@ + text::decimal(i as nat),
        after.smbus_telemetry@[i].arc0_health is Some
            && after.smbus_telemetry@[i].arc0_health->0@ == text::decimal(
            (after.update_count as nat + 7 * (i as nat)) % 255 + 1,
        ),
{
    assert(served_at(before, after, i, n, swing, draws, now_ms));
    law_simulated_readings_agree(
        after.telemetry@[i],
        i as int,
        after.devices@[i as int].architecture,
        swing,
        draws[i as int],
        now_ms,
    );
}

} // verus!
