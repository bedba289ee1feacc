//! Smoothing of numeric SMBUS fields between snapshots.
//!
//! Each numeric field follows its readings by an exponential moving average,
//! so that a jump is spread over a few frames. The average itself is a
//! floating-point number; the application computes it, and it is held here by
//! its bits. What is decided here is which fields are averaged, which are
//! taken over as they are, and what becomes of the averages.

use std::collections::HashMap;

use vstd::prelude::*;

use crate::models;
use crate::models::{copy_gddr, copy_text, real_fan_rpm, SmbusTelemetry};
use crate::text;
use crate::text::{append_decimal, is_float_literal, parse_unsigned, trim_chars};

verus! {

broadcast use vstd::std_specs::hash::group_hash_axioms;

/// Whether a text is a number: decimal, or hexadecimal after `0x`.
pub open spec fn numeric(s: Seq<char>) -> bool {
    let t = text::trimmed(s);
    if models::has_hex_prefix(t) {
        text::unsigned_value(t.skip(2), 16, u64::MAX as nat) is Some
    } else {
        text::is_float(t)
    }
}

/// Whether a text is a number that can be averaged.
pub fn is_numeric(s: &str) -> (r: bool)
    ensures
        r == numeric(s@),
{
    let t = trim_chars(s);
    if t.len() >= 2 && t[0] == '0' && (t[1] == 'x' || t[1] == 'X') {
        let mut rest: Vec<char> = Vec::new();
        for i in 2..t.len()
            invariant
                rest@ =~= t@.subrange(2, i as int),
        {
            rest.push(t[i]);
        }
        assert(rest@ =~= t@.skip(2));
        parse_unsigned(rest.as_slice(), 16, u64::MAX).is_some()
    } else {
        is_float_literal(t.as_slice())
    }
}

/// An average after a reading: its bits, and what it comes to.
#[derive(Debug)]
pub struct Smoothed {
    pub accumulator: u64,
    /// The average as the nearest whole number.
    pub whole: i64,
    /// The average as a text with two decimals.
    pub hundredths: String,
}

/// Whether the average of a reading is shown with decimals: it is where the
/// reading has a point.
pub fn shows_fraction(reading: &str) -> (r: bool)
    ensures
        r == text::trimmed(reading@).contains('.'),
{
    let t = trim_chars(reading);
    for i in 0..t.len()
        invariant
            t@ == text::trimmed(reading@),
            forall|k: int| 0 <= k < i ==> #[trigger] t@[k] != '.',
    {
        if t[i] == '.' {
            assert(t@[i as int] == '.');
            return true;
        }
    }
    assert(!t@.contains('.'));
    false
}

/// A whole number as a text.
pub open spec fn whole_text(n: int) -> Seq<char> {
    if n < 0 { seq!['-'] + text::decimal((-n) as nat) } else { text::decimal(n as nat) }
}

fn whole_string(n: i64) -> (s: String)
    ensures
        s@ == whole_text(n as int),
{
    let mut s = String::new();
    if n < 0 {
        s.push('-');
        append_decimal(&mut s, (-(n + 1)) as u64 + 1);
        assert(s@ =~= whole_text(n as int));
    } else {
        append_decimal(&mut s, n as u64);
        assert(s@ =~= whole_text(n as int));
    }
    s
}

/// The text that an average is shown as: with two decimals where the reading
/// has a point, and otherwise as a whole number.
pub open spec fn shown(average: Smoothed, reading: Seq<char>) -> Seq<char> {
    if text::trimmed(reading).contains('.') {
        average.hundredths@
    } else {
        whole_text(average.whole as int)
    }
}

/// What an average is computed from: the bits of the one before, where there
/// is one, and the new reading.
#[derive(Debug)]
pub struct SmoothInput {
    pub previous: Option<u64>,
    pub reading: String,
}

/// The number of fields that are averaged.
pub const SMOOTHED_FIELDS: usize = 20;

/// The averages of a device, one for each averaged field, by their bits.
#[derive(Debug)]
pub struct DeviceEmaState {
    pub accumulators: Vec<Option<u64>>,
}

/// The averages of every device, by index.
pub type SmbusEmaState = HashMap<usize, DeviceEmaState>;

/// The average of a field, where there is one.
pub open spec fn accumulator_at(
    ema: Map<usize, DeviceEmaState>,
    device_idx: usize,
    field: int,
) -> Option<u64> {
    if ema.contains_key(device_idx) && 0 <= field < ema[device_idx].accumulators@.len() {
        ema[device_idx].accumulators@[field]
    } else {
        None
    }
}

/// The new average of a field, where one was computed.
pub open spec fn result_at(results: Seq<Option<Smoothed>>, field: int) -> Option<Smoothed> {
    if 0 <= field < results.len() { results[field] } else { None }
}

/// A field and its average after a reading. A reading that is absent changes
/// nothing; one that is no number is taken over as it is and ends the
/// average; of a number the new average is taken.
pub open spec fn blended(
    state: Option<u64>,
    incoming: Option<String>,
    existing: Option<String>,
    result: Option<Smoothed>,
) -> (Option<u64>, Option<Seq<char>>) {
    match incoming {
        None => (state, text::opt_text(existing)),
        Some(s) => if numeric(s@) {
            match result {
                Some(r) => (Some(r.accumulator), Some(shown(r, s@))),
                None => (state, text::opt_text(existing)),
            }
        } else {
            (None, Some(s@))
        },
    }
}

/// The fan field after a reading. A value by which firmware reports that there
/// is no reading is taken over as it is and ends the average; anything else is
/// blended.
pub open spec fn fan_blended(
    state: Option<u64>,
    incoming: Option<String>,
    existing: Option<String>,
    result: Option<Smoothed>,
) -> (Option<u64>, Option<Seq<char>>) {
    if incoming is Some && models::fan_reading(incoming->0@) is None {
        (None, Some(incoming->0@))
    } else {
        blended(state, incoming, existing, result)
    }
}

/// A field that is taken over where it is present.
pub open spec fn latest<T>(incoming: Option<T>, existing: Option<T>) -> Option<T> {
    if incoming is Some { incoming } else { existing }
}

fn blend(
    state: Option<u64>,
    incoming: &Option<String>,
    existing: &mut Option<String>,
    result: Option<&Smoothed>,
) -> (next: Option<u64>)
    ensures
        (next, text::opt_text(*final(existing))) == blended(
            state,
            *incoming,
            *old(existing),
            owned(result),
        ),
{
    match incoming {
        None => state,
        Some(s) => if is_numeric(s.as_str()) {
            match result {
                Some(r) => {
                    *existing = Some(
                        if shows_fraction(s.as_str()) {
                            r.hundredths.clone()
                        } else {
                            whole_string(r.whole)
                        },
                    );
                    Some(r.accumulator)
                },
                None => state,
            }
        } else {
            *existing = Some(s.clone());
            None
        },
    }
}

/// The value behind an optional reference.
pub open spec fn owned(r: Option<&Smoothed>) -> Option<Smoothed> {
    match r {
        Some(v) => Some(*v),
        None => None,
    }
}

fn blend_fan(
    state: Option<u64>,
    incoming: &Option<String>,
    existing: &mut Option<String>,
    result: Option<&Smoothed>,
) -> (next: Option<u64>)
    ensures
        (next, text::opt_text(*final(existing))) == fan_blended(
            state,
            *incoming,
            *old(existing),
            owned(result),
        ),
{
    if let Some(s) = incoming {
        if real_fan_rpm(s.as_str()).is_none() {
            *existing = Some(s.clone());
            return None;
        }
    }
    blend(state, incoming, existing, result)
}

/// Takes a text over where it is present.
pub fn copy_field(src: &Option<String>, dst: &mut Option<String>)
    ensures
        *final(dst) == latest(*src, *old(dst)),
{
    if src.is_some() {
        *dst = copy_text(src);
    }
}

/// Takes a plain value over where it is present.
pub fn copy_opt<T: Copy>(src: &Option<T>, dst: &mut Option<T>)
    ensures
        *final(dst) == latest(*src, *old(dst)),
{
    if src.is_some() {
        *dst = *src;
    }
}

fn pick<T: Copy>(src: Option<T>, dst: Option<T>) -> (r: Option<T>)
    ensures
        r == latest(src, dst),
{
    match src {
        Some(_) => src,
        None => dst,
    }
}

fn state_of(ema: &SmbusEmaState, device_idx: usize) -> (v: Vec<Option<u64>>)
    ensures
        v@.len() == SMOOTHED_FIELDS,
        forall|i: int|
            0 <= i < SMOOTHED_FIELDS ==> #[trigger] v@[i] == accumulator_at(ema@, device_idx, i),
{
    let mut v: Vec<Option<u64>> = Vec::new();
    let state = ema.get(&device_idx);
    for i in 0..SMOOTHED_FIELDS
        invariant
            match state {
                Some(s) => ema@.contains_key(device_idx) && ema@[device_idx] == *s,
                None => !ema@.contains_key(device_idx),
            },
            v@.len() == i,
            forall|k: int| 0 <= k < i ==> #[trigger] v@[k] == accumulator_at(ema@, device_idx, k),
    {
        let a: Option<u64> = match state {
            Some(s) => if i < s.accumulators.len() {
                s.accumulators[i]
            } else {
                None
            },
            None => None,
        };
        v.push(a);
    }
    v
}

fn result_of(results: &Vec<Option<Smoothed>>, field: usize) -> (r: Option<&Smoothed>)
    ensures
        owned(r) == result_at(results@, field as int),
{
    if field < results.len() {
        match &results[field] {
            Some(s) => Some(s),
            None => None,
        }
    } else {
        None
    }
}

/// Whether an input is what the new average of a field is computed from.
pub open spec fn input_matches(
    input: Option<SmoothInput>,
    state: Option<u64>,
    incoming: Option<String>,
    fan: bool,
) -> bool {
    match incoming {
        Some(s) => if numeric(s@) && !(fan && models::fan_reading(s@) is None) {
            input matches Some(i) && i.previous == state && i.reading@ == s@
        } else {
            input is None
        },
        None => input is None,
    }
}

fn input_of(state: Option<u64>, incoming: &Option<String>, fan: bool) -> (input: Option<
    SmoothInput,
>)
    ensures
        input_matches(input, state, *incoming, fan),
{
    match incoming {
        Some(s) => {
            if fan && real_fan_rpm(s.as_str()).is_none() {
                return None;
            }
            if is_numeric(s.as_str()) {
                Some(SmoothInput { previous: state, reading: s.clone() })
            } else {
                None
            }
        },
        None => None,
    }
}

/// Whether the inputs are those of a device, field by field.
pub open spec fn inputs_listed(
    inputs: Seq<Option<SmoothInput>>,
    ema: Map<usize, DeviceEmaState>,
    device_idx: usize,
    incoming: SmbusTelemetry,
) -> bool {
    &&& inputs.len() == SMOOTHED_FIELDS
    &&& input_matches(inputs[0], accumulator_at(ema, device_idx, 0), incoming.ddr_speed, false)
    &&& input_matches(inputs[1], accumulator_at(ema, device_idx, 1), incoming.arc0_health, false)
    &&& input_matches(inputs[2], accumulator_at(ema, device_idx, 2), incoming.arc1_health, false)
    &&& input_matches(inputs[3], accumulator_at(ema, device_idx, 3), incoming.arc2_health, false)
    &&& input_matches(inputs[4], accumulator_at(ema, device_idx, 4), incoming.arc3_health, false)
    &&& input_matches(inputs[5], accumulator_at(ema, device_idx, 5), incoming.aiclk, false)
    &&& input_matches(inputs[6], accumulator_at(ema, device_idx, 6), incoming.axiclk, false)
    &&& input_matches(inputs[7], accumulator_at(ema, device_idx, 7), incoming.arcclk, false)
    &&& input_matches(inputs[8], accumulator_at(ema, device_idx, 8), incoming.asic_temperature, false)
    &&& input_matches(inputs[9], accumulator_at(ema, device_idx, 9), incoming.vreg_temperature, false)
    &&& input_matches(inputs[10], accumulator_at(ema, device_idx, 10), incoming.board_temperature, false)
    &&& input_matches(inputs[11], accumulator_at(ema, device_idx, 11), incoming.vcore, false)
    &&& input_matches(inputs[12], accumulator_at(ema, device_idx, 12), incoming.tdp, false)
    &&& input_matches(inputs[13], accumulator_at(ema, device_idx, 13), incoming.tdc, false)
    &&& input_matches(inputs[14], accumulator_at(ema, device_idx, 14), incoming.fan_speed, true)
    &&& input_matches(inputs[15], accumulator_at(ema, device_idx, 15), incoming.input_power, false)
    &&& input_matches(inputs[16], accumulator_at(ema, device_idx, 16), incoming.board_power_limit, false)
    &&& input_matches(inputs[17], accumulator_at(ema, device_idx, 17), incoming.mvddq_power, false)
    &&& input_matches(inputs[18], accumulator_at(ema, device_idx, 18), incoming.therm_trip_count, false)
    &&& input_matches(inputs[19], accumulator_at(ema, device_idx, 19), incoming.rt_seconds, false)
}

/// Lists, field by field, what the new averages of a device are computed from.
/// A field without a number to average has no input.
pub fn smoothing_inputs(
    ema: &SmbusEmaState,
    device_idx: usize,
    incoming: &SmbusTelemetry,
) -> (inputs: Vec<Option<SmoothInput>>)
    ensures
        inputs_listed(inputs@, ema@, device_idx, *incoming),
{
    let state = state_of(ema, device_idx);
    let mut inputs: Vec<Option<SmoothInput>> = Vec::new();
    inputs.push(input_of(state[0], &incoming.ddr_speed, false));
    inputs.push(input_of(state[1], &incoming.arc0_health, false));
    inputs.push(input_of(state[2], &incoming.arc1_health, false));
    inputs.push(input_of(state[3], &incoming.arc2_health, false));
    inputs.push(input_of(state[4], &incoming.arc3_health, false));
    inputs.push(input_of(state[5], &incoming.aiclk, false));
    inputs.push(input_of(state[6], &incoming.axiclk, false));
    inputs.push(input_of(state[7], &incoming.arcclk, false));
    inputs.push(input_of(state[8], &incoming.asic_temperature, false));
    inputs.push(input_of(state[9], &incoming.vreg_temperature, false));
    inputs.push(input_of(state[10], &incoming.board_temperature, false));
    inputs.push(input_of(state[11], &incoming.vcore, false));
    inputs.push(input_of(state[12], &incoming.tdp, false));
    inputs.push(input_of(state[13], &incoming.tdc, false));
    inputs.push(input_of(state[14], &incoming.fan_speed, true));
    inputs.push(input_of(state[15], &incoming.input_power, false));
    inputs.push(input_of(state[16], &incoming.board_power_limit, false));
    inputs.push(input_of(state[17], &incoming.mvddq_power, false));
    inputs.push(input_of(state[18], &incoming.therm_trip_count, false));
    inputs.push(input_of(state[19], &incoming.rt_seconds, false));
    inputs
}

/// Whether `after` is what `before` becomes with a reading and the averages
/// that were computed for it, and no other device is touched.
pub open spec fn ema_applied(
    ema_before: Map<usize, DeviceEmaState>,
    ema_after: Map<usize, DeviceEmaState>,
    device_idx: usize,
    incoming: SmbusTelemetry,
    before: SmbusTelemetry,
    after: SmbusTelemetry,
    results: Seq<Option<Smoothed>>,
) -> bool {
    &&& device_blended(ema_before, ema_after, device_idx, incoming, before, after, results)
    &&& ema_after == ema_before.insert(device_idx, ema_after[device_idx])
}

/// Whether `after` is what `before` becomes with a reading and the averages
/// that were computed for it.
pub open spec fn device_blended(
    ema_before: Map<usize, DeviceEmaState>,
    ema_after: Map<usize, DeviceEmaState>,
    device_idx: usize,
    incoming: SmbusTelemetry,
    before: SmbusTelemetry,
    after: SmbusTelemetry,
    results: Seq<Option<Smoothed>>,
) -> bool {
    &&& fields_copied(incoming, before, after)
    &&& ema_after.contains_key(device_idx)
    &&& ema_after[device_idx].accumulators@.len() == SMOOTHED_FIELDS
    &&& (accumulator_at(ema_after, device_idx, 0), text::opt_text(after.ddr_speed)) == blended(
        accumulator_at(ema_before, device_idx, 0),
        incoming.ddr_speed,
        before.ddr_speed,
        result_at(results, 0),
    )
    &&& (accumulator_at(ema_after, device_idx, 1), text::opt_text(after.arc0_health)) == blended(
        accumulator_at(ema_before, device_idx, 1),
        incoming.arc0_health,
        before.arc0_health,
        result_at(results, 1),
    )
    &&& (accumulator_at(ema_after, device_idx, 2), text::opt_text(after.arc1_health)) == blended(
        accumulator_at(ema_before, device_idx, 2),
        incoming.arc1_health,
        before.arc1_health,
        result_at(results, 2),
    )
    &&& (accumulator_at(ema_after, device_idx, 3), text::opt_text(after.arc2_health)) == blended(
        accumulator_at(ema_before, device_idx, 3),
        incoming.arc2_health,
        before.arc2_health,
        result_at(results, 3),
    )
    &&& (accumulator_at(ema_after, device_idx, 4), text::opt_text(after.arc3_health)) == blended(
        accumulator_at(ema_before, device_idx, 4),
        incoming.arc3_health,
        before.arc3_health,
        result_at(results, 4),
    )
    &&& (accumulator_at(ema_after, device_idx, 5), text::opt_text(after.aiclk)) == blended(
        accumulator_at(ema_before, device_idx, 5),
        incoming.aiclk,
        before.aiclk,
        result_at(results, 5),
    )
    &&& (accumulator_at(ema_after, device_idx, 6), text::opt_text(after.axiclk)) == blended(
        accumulator_at(ema_before, device_idx, 6),
        incoming.axiclk,
        before.axiclk,
        result_at(results, 6),
    )
    &&& (accumulator_at(ema_after, device_idx, 7), text::opt_text(after.arcclk)) == blended(
        accumulator_at(ema_before, device_idx, 7),
        incoming.arcclk,
        before.arcclk,
        result_at(results, 7),
    )
    &&& (accumulator_at(ema_after, device_idx, 8), text::opt_text(after.asic_temperature)) == blended(
        accumulator_at(ema_before, device_idx, 8),
        incoming.asic_temperature,
        before.asic_temperature,
        result_at(results, 8),
    )
    &&& (accumulator_at(ema_after, device_idx, 9), text::opt_text(after.vreg_temperature)) == blended(
        accumulator_at(ema_before, device_idx, 9),
        incoming.vreg_temperature,
        before.vreg_temperature,
        result_at(results, 9),
    )
    &&& (accumulator_at(ema_after, device_idx, 10), text::opt_text(after.board_temperature)) == blended(
        accumulator_at(ema_before, device_idx, 10),
        incoming.board_temperature,
        before.board_temperature,
        result_at(results, 10),
    )
    &&& (accumulator_at(ema_after, device_idx, 11), text::opt_text(after.vcore)) == blended(
        accumulator_at(ema_before, device_idx, 11),
        incoming.vcore,
        before.vcore,
        result_at(results, 11),
    )
    &&& (accumulator_at(ema_after, device_idx, 12), text::opt_text(after.tdp)) == blended(
        accumulator_at(ema_before, device_idx, 12),
        incoming.tdp,
        before.tdp,
        result_at(results, 12),
    )
    &&& (accumulator_at(ema_after, device_idx, 13), text::opt_text(after.tdc)) == blended(
        accumulator_at(ema_before, device_idx, 13),
        incoming.tdc,
        before.tdc,
        result_at(results, 13),
    )
    &&& (accumulator_at(ema_after, device_idx, 14), text::opt_text(after.fan_speed)) == fan_blended(
        accumulator_at(ema_before, device_idx, 14),
        incoming.fan_speed,
        before.fan_speed,
        result_at(results, 14),
    )
    &&& (accumulator_at(ema_after, device_idx, 15), text::opt_text(after.input_power)) == blended(
        accumulator_at(ema_before, device_idx, 15),
        incoming.input_power,
        before.input_power,
        result_at(results, 15),
    )
    &&& (accumulator_at(ema_after, device_idx, 16), text::opt_text(after.board_power_limit)) == blended(
        accumulator_at(ema_before, device_idx, 16),
        incoming.board_power_limit,
        before.board_power_limit,
        result_at(results, 16),
    )
    &&& (accumulator_at(ema_after, device_idx, 17), text::opt_text(after.mvddq_power)) == blended(
        accumulator_at(ema_before, device_idx, 17),
        incoming.mvddq_power,
        before.mvddq_power,
        result_at(results, 17),
    )
    &&& (accumulator_at(ema_after, device_idx, 18), text::opt_text(after.therm_trip_count)) == blended(
        accumulator_at(ema_before, device_idx, 18),
        incoming.therm_trip_count,
        before.therm_trip_count,
        result_at(results, 18),
    )
    &&& (accumulator_at(ema_after, device_idx, 19), text::opt_text(after.rt_seconds)) == blended(
        accumulator_at(ema_before, device_idx, 19),
        incoming.rt_seconds,
        before.rt_seconds,
        result_at(results, 19),
    )
}

/// Whether the fields that are not averaged are the latest ones.
pub open spec fn fields_copied(
    incoming: SmbusTelemetry,
    before: SmbusTelemetry,
    after: SmbusTelemetry,
) -> bool {
    &&& after.board_id == latest(incoming.board_id, before.board_id)
    &&& after.enum_version == latest(incoming.enum_version, before.enum_version)
    &&& after.device_id == latest(incoming.device_id, before.device_id)
    &&& after.ddr_status == latest(incoming.ddr_status, before.ddr_status)
    &&& after.arc0_fw_version == latest(incoming.arc0_fw_version, before.arc0_fw_version)
    &&& after.arc1_fw_version == latest(incoming.arc1_fw_version, before.arc1_fw_version)
    &&& after.arc2_fw_version == latest(incoming.arc2_fw_version, before.arc2_fw_version)
    &&& after.arc3_fw_version == latest(incoming.arc3_fw_version, before.arc3_fw_version)
    &&& after.eth_fw_version == latest(incoming.eth_fw_version, before.eth_fw_version)
    &&& after.m3_bl_fw_version == latest(incoming.m3_bl_fw_version, before.m3_bl_fw_version)
    &&& after.m3_app_fw_version == latest(incoming.m3_app_fw_version, before.m3_app_fw_version)
    &&& after.spibootrom_fw_version == latest(incoming.spibootrom_fw_version, before.spibootrom_fw_version)
    &&& after.tt_flash_version == latest(incoming.tt_flash_version, before.tt_flash_version)
    &&& after.throttler == latest(incoming.throttler, before.throttler)
    &&& after.vdd_limits == latest(incoming.vdd_limits, before.vdd_limits)
    &&& after.thm_limits == latest(incoming.thm_limits, before.thm_limits)
    &&& after.faults == latest(incoming.faults, before.faults)
    &&& after.pcie_status == latest(incoming.pcie_status, before.pcie_status)
    &&& after.eth_status0 == latest(incoming.eth_status0, before.eth_status0)
    &&& after.eth_status1 == latest(incoming.eth_status1, before.eth_status1)
    &&& after.boot_date == latest(incoming.boot_date, before.boot_date)
    &&& after.wh_fw_date == latest(incoming.wh_fw_date, before.wh_fw_date)
    &&& after.asic_tmon0 == latest(incoming.asic_tmon0, before.asic_tmon0)
    &&& after.asic_tmon1 == latest(incoming.asic_tmon1, before.asic_tmon1)
    &&& after.gddr_train_temp0 == latest(incoming.gddr_train_temp0, before.gddr_train_temp0)
    &&& after.gddr_train_temp1 == latest(incoming.gddr_train_temp1, before.gddr_train_temp1)
    &&& after.aux_status == latest(incoming.aux_status, before.aux_status)
    &&& after.eth_debug_status0 == latest(incoming.eth_debug_status0, before.eth_debug_status0)
    &&& after.eth_debug_status1 == latest(incoming.eth_debug_status1, before.eth_debug_status1)
    &&& after.max_gddr_temp == latest(incoming.max_gddr_temp, before.max_gddr_temp)
    &&& after.gddr_uncorr_errs == latest(incoming.gddr_uncorr_errs, before.gddr_uncorr_errs)
    &&& after.harvesting_state == latest(incoming.harvesting_state, before.harvesting_state)
    &&& after.eth_live_status == latest(incoming.eth_live_status, before.eth_live_status)
    &&& after.enabled_eth == latest(incoming.enabled_eth, before.enabled_eth)
    &&& after.enabled_gddr == latest(incoming.enabled_gddr, before.enabled_gddr)
    &&& after.enabled_l2cpu == latest(incoming.enabled_l2cpu, before.enabled_l2cpu)
    &&& after.enabled_tensix_col == latest(incoming.enabled_tensix_col, before.enabled_tensix_col)
    &&& models::same_gddr(
        after.gddr_telemetry,
        latest(incoming.gddr_telemetry, before.gddr_telemetry),
    )
    &&& forall|i: int|
        0 <= i < 4 ==> #[trigger] after.gddr_temps@[i] == latest(
            incoming.gddr_temps@[i],
            before.gddr_temps@[i],
        )
    &&& forall|i: int|
        0 <= i < 4 ==> #[trigger] after.gddr_corr_errs@[i] == latest(
            incoming.gddr_corr_errs@[i],
            before.gddr_corr_errs@[i],
        )
}

/// What is blended of a device depends on its own averages alone.
pub proof fn lemma_blend_frame(
    ema_before: Map<usize, DeviceEmaState>,
    ema_after: Map<usize, DeviceEmaState>,
    other_before: Map<usize, DeviceEmaState>,
    other_after: Map<usize, DeviceEmaState>,
    device_idx: usize,
    incoming: SmbusTelemetry,
    before: SmbusTelemetry,
    after: SmbusTelemetry,
    results: Seq<Option<Smoothed>>,
)
    requires
        device_blended(ema_before, ema_after, device_idx, incoming, before, after, results),
        ema_before.contains_key(device_idx) == other_before.contains_key(device_idx),
        ema_before.contains_key(device_idx) ==> ema_before[device_idx]
            == other_before[device_idx],
        other_after.contains_key(device_idx),
        ema_after[device_idx] == other_after[device_idx],
    ensures
        device_blended(other_before, other_after, device_idx, incoming, before, after, results),
{
    assert forall|i: int| #[trigger] accumulator_at(ema_before, device_idx, i)
        == accumulator_at(other_before, device_idx, i) by {}
    assert forall|i: int| #[trigger] accumulator_at(ema_after, device_idx, i)
        == accumulator_at(other_after, device_idx, i) by {}
}

/// Blends a snapshot of a device into what is shown of it. Identifiers,
/// versions, bitmasks, counters and maxima are taken over where they are
/// present; of the averaged fields, the new averages are taken.
pub fn apply_ema(
    ema: &mut SmbusEmaState,
    device_idx: usize,
    incoming: &SmbusTelemetry,
    existing: &mut SmbusTelemetry,
    results: &Vec<Option<Smoothed>>,
)
    ensures
        ema_applied(
            old(ema)@,
            final(ema)@,
            device_idx,
            *incoming,
            *old(existing),
            *final(existing),
            results@,
        ),
{
    copy_fields(incoming, existing);
    let state = state_of(ema, device_idx);
    let mut next: Vec<Option<u64>> = Vec::new();
    next.push(blend(state[0], &incoming.ddr_speed, &mut existing.ddr_speed, result_of(results, 0)));
    next.push(blend(state[1], &incoming.arc0_health, &mut existing.arc0_health, result_of(results, 1)));
    next.push(blend(state[2], &incoming.arc1_health, &mut existing.arc1_health, result_of(results, 2)));
    next.push(blend(state[3], &incoming.arc2_health, &mut existing.arc2_health, result_of(results, 3)));
    next.push(blend(state[4], &incoming.arc3_health, &mut existing.arc3_health, result_of(results, 4)));
    next.push(blend(state[5], &incoming.aiclk, &mut existing.aiclk, result_of(results, 5)));
    next.push(blend(state[6], &incoming.axiclk, &mut existing.axiclk, result_of(results, 6)));
    next.push(blend(state[7], &incoming.arcclk, &mut existing.arcclk, result_of(results, 7)));
    next.push(blend(state[8], &incoming.asic_temperature, &mut existing.asic_temperature, result_of(results, 8)));
    next.push(blend(state[9], &incoming.vreg_temperature, &mut existing.vreg_temperature, result_of(results, 9)));
    next.push(blend(state[10], &incoming.board_temperature, &mut existing.board_temperature, result_of(results, 10)));
    next.push(blend(state[11], &incoming.vcore, &mut existing.vcore, result_of(results, 11)));
    next.push(blend(state[12], &incoming.tdp, &mut existing.tdp, result_of(results, 12)));
    next.push(blend(state[13], &incoming.tdc, &mut existing.tdc, result_of(results, 13)));
    next.push(blend_fan(state[14], &incoming.fan_speed, &mut existing.fan_speed, result_of(results, 14)));
    next.push(blend(state[15], &incoming.input_power, &mut existing.input_power, result_of(results, 15)));
    next.push(blend(state[16], &incoming.board_power_limit, &mut existing.board_power_limit, result_of(results, 16)));
    next.push(blend(state[17], &incoming.mvddq_power, &mut existing.mvddq_power, result_of(results, 17)));
    next.push(blend(state[18], &incoming.therm_trip_count, &mut existing.therm_trip_count, result_of(results, 18)));
    next.push(blend(state[19], &incoming.rt_seconds, &mut existing.rt_seconds, result_of(results, 19)));
    ema.insert(device_idx, DeviceEmaState { accumulators: next });
}

fn copy_fields(incoming: &SmbusTelemetry, existing: &mut SmbusTelemetry)
    ensures
        fields_copied(*incoming, *old(existing), *final(existing)),
        final(existing).ddr_speed == old(existing).ddr_speed,
        final(existing).arc0_health == old(existing).arc0_health,
        final(existing).arc1_health == old(existing).arc1_health,
        final(existing).arc2_health == old(existing).arc2_health,
        final(existing).arc3_health == old(existing).arc3_health,
        final(existing).aiclk == old(existing).aiclk,
        final(existing).axiclk == old(existing).axiclk,
        final(existing).arcclk == old(existing).arcclk,
        final(existing).asic_temperature == old(existing).asic_temperature,
        final(existing).vreg_temperature == old(existing).vreg_temperature,
        final(existing).board_temperature == old(existing).board_temperature,
        final(existing).vcore == old(existing).vcore,
        final(existing).tdp == old(existing).tdp,
        final(existing).tdc == old(existing).tdc,
        final(existing).fan_speed == old(existing).fan_speed,
        final(existing).input_power == old(existing).input_power,
        final(existing).board_power_limit == old(existing).board_power_limit,
        final(existing).mvddq_power == old(existing).mvddq_power,
        final(existing).therm_trip_count == old(existing).therm_trip_count,
        final(existing).rt_seconds == old(existing).rt_seconds,
{
    copy_field(&incoming.board_id, &mut existing.board_id);
    copy_field(&incoming.enum_version, &mut existing.enum_version);
    copy_field(&incoming.device_id, &mut existing.device_id);
    copy_field(&incoming.ddr_status, &mut existing.ddr_status);
    copy_field(&incoming.arc0_fw_version, &mut existing.arc0_fw_version);
    copy_field(&incoming.arc1_fw_version, &mut existing.arc1_fw_version);
    copy_field(&incoming.arc2_fw_version, &mut existing.arc2_fw_version);
    copy_field(&incoming.arc3_fw_version, &mut existing.arc3_fw_version);
    copy_field(&incoming.eth_fw_version, &mut existing.eth_fw_version);
    copy_field(&incoming.m3_bl_fw_version, &mut existing.m3_bl_fw_version);
    copy_field(&incoming.m3_app_fw_version, &mut existing.m3_app_fw_version);
    copy_field(&incoming.spibootrom_fw_version, &mut existing.spibootrom_fw_version);
    copy_field(&incoming.tt_flash_version, &mut existing.tt_flash_version);
    copy_field(&incoming.throttler, &mut existing.throttler);
    copy_field(&incoming.vdd_limits, &mut existing.vdd_limits);
    copy_field(&incoming.thm_limits, &mut existing.thm_limits);
    copy_field(&incoming.faults, &mut existing.faults);
    copy_field(&incoming.pcie_status, &mut existing.pcie_status);
    copy_field(&incoming.eth_status0, &mut existing.eth_status0);
    copy_field(&incoming.eth_status1, &mut existing.eth_status1);
    copy_field(&incoming.boot_date, &mut existing.boot_date);
    copy_field(&incoming.wh_fw_date, &mut existing.wh_fw_date);
    copy_field(&incoming.asic_tmon0, &mut existing.asic_tmon0);
    copy_field(&incoming.asic_tmon1, &mut existing.asic_tmon1);
    copy_field(&incoming.gddr_train_temp0, &mut existing.gddr_train_temp0);
    copy_field(&incoming.gddr_train_temp1, &mut existing.gddr_train_temp1);
    copy_field(&incoming.aux_status, &mut existing.aux_status);
    copy_field(&incoming.eth_debug_status0, &mut existing.eth_debug_status0);
    copy_field(&incoming.eth_debug_status1, &mut existing.eth_debug_status1);
    copy_opt(&incoming.max_gddr_temp, &mut existing.max_gddr_temp);
    copy_opt(&incoming.gddr_uncorr_errs, &mut existing.gddr_uncorr_errs);
    copy_opt(&incoming.harvesting_state, &mut existing.harvesting_state);
    copy_opt(&incoming.eth_live_status, &mut existing.eth_live_status);
    copy_opt(&incoming.enabled_eth, &mut existing.enabled_eth);
    copy_opt(&incoming.enabled_gddr, &mut existing.enabled_gddr);
    copy_opt(&incoming.enabled_l2cpu, &mut existing.enabled_l2cpu);
    copy_opt(&incoming.enabled_tensix_col, &mut existing.enabled_tensix_col);
    if incoming.gddr_telemetry.is_some() {
        existing.gddr_telemetry = copy_gddr(&incoming.gddr_telemetry);
    }
    existing.gddr_temps = [
        pick(incoming.gddr_temps[0], existing.gddr_temps[0]),
        pick(incoming.gddr_temps[1], existing.gddr_temps[1]),
        pick(incoming.gddr_temps[2], existing.gddr_temps[2]),
        pick(incoming.gddr_temps[3], existing.gddr_temps[3]),
    ];
    existing.gddr_corr_errs = [
        pick(incoming.gddr_corr_errs[0], existing.gddr_corr_errs[0]),
        pick(incoming.gddr_corr_errs[1], existing.gddr_corr_errs[1]),
        pick(incoming.gddr_corr_errs[2], existing.gddr_corr_errs[2]),
        pick(incoming.gddr_corr_errs[3], existing.gddr_corr_errs[3]),
    ];
}

/// An average is shown in the shape of its reading: a reading without a point is
/// shown as a whole number, one with a point with decimals.
pub proof fn law_averages_keep_the_shape(
    state: Option<u64>,
    incoming: String,
    existing: Option<String>,
    average: Smoothed,
)
    requires
        numeric(incoming@),
    ensures
        blended(state, Some(incoming), existing, Some(average)) == (
            Some(average.accumulator),
            Some(
                if text::trimmed(incoming@).contains('.') {
                    average.hundredths@
                } else {
                    whole_text(average.whole as int)
                },
            ),
        ),
{
}

/// A snapshot in which a field is absent leaves the field and its average as
/// they were.
pub proof fn law_absent_fields_are_kept(
    state: Option<u64>,
    existing: Option<String>,
    result: Option<Smoothed>,
)
    ensures
        blended(state, None, existing, result) == (state, text::opt_text(existing)),
        fan_blended(state, None, existing, result) == (state, text::opt_text(existing)),
{
}

/// A snapshot that holds nothing changes nothing.
pub proof fn law_empty_snapshot_changes_nothing(
    ema_before: Map<usize, DeviceEmaState>,
    ema_after: Map<usize, DeviceEmaState>,
    device_idx: usize,
    incoming: SmbusTelemetry,
    before: SmbusTelemetry,
    after: SmbusTelemetry,
    results: Seq<Option<Smoothed>>,
)
    requires
        models::smbus_is_empty(incoming),
        ema_applied(ema_before, ema_after, device_idx, incoming, before, after, results),
    ensures
        text::opt_text(after.ddr_speed) == text::opt_text(before.ddr_speed),
        text::opt_text(after.arc0_health) == text::opt_text(before.arc0_health),
        text::opt_text(after.arc1_health) == text::opt_text(before.arc1_health),
        text::opt_text(after.arc2_health) == text::opt_text(before.arc2_health),
        text::opt_text(after.arc3_health) == text::opt_text(before.arc3_health),
        text::opt_text(after.aiclk) == text::opt_text(before.aiclk),
        text::opt_text(after.axiclk) == text::opt_text(before.axiclk),
        text::opt_text(after.arcclk) == text::opt_text(before.arcclk),
        text::opt_text(after.asic_temperature) == text::opt_text(before.asic_temperature),
        text::opt_text(after.vreg_temperature) == text::opt_text(before.vreg_temperature),
        text::opt_text(after.board_temperature) == text::opt_text(before.board_temperature),
        text::opt_text(after.vcore) == text::opt_text(before.vcore),
        text::opt_text(after.tdp) == text::opt_text(before.tdp),
        text::opt_text(after.tdc) == text::opt_text(before.tdc),
        text::opt_text(after.fan_speed) == text::opt_text(before.fan_speed),
        text::opt_text(after.input_power) == text::opt_text(before.input_power),
        text::opt_text(after.board_power_limit) == text::opt_text(before.board_power_limit),
        text::opt_text(after.mvddq_power) == text::opt_text(before.mvddq_power),
        text::opt_text(after.therm_trip_count) == text::opt_text(before.therm_trip_count),
        text::opt_text(after.rt_seconds) == text::opt_text(before.rt_seconds),
        after.board_id == before.board_id,
        after.enum_version == before.enum_version,
        after.device_id == before.device_id,
        after.ddr_status == before.ddr_status,
        after.arc0_fw_version == before.arc0_fw_version,
        after.arc1_fw_version == before.arc1_fw_version,
        after.arc2_fw_version == before.arc2_fw_version,
        after.arc3_fw_version == before.arc3_fw_version,
        after.eth_fw_version == before.eth_fw_version,
        after.m3_bl_fw_version == before.m3_bl_fw_version,
        after.m3_app_fw_version == before.m3_app_fw_version,
        after.spibootrom_fw_version == before.spibootrom_fw_version,
        after.tt_flash_version == before.tt_flash_version,
        after.throttler == before.throttler,
        after.vdd_limits == before.vdd_limits,
        after.thm_limits == before.thm_limits,
        after.faults == before.faults,
        after.pcie_status == before.pcie_status,
        after.eth_status0 == before.eth_status0,
        after.eth_status1 == before.eth_status1,
        after.boot_date == before.boot_date,
        after.wh_fw_date == before.wh_fw_date,
        after.asic_tmon0 == before.asic_tmon0,
        after.asic_tmon1 == before.asic_tmon1,
        after.gddr_train_temp0 == before.gddr_train_temp0,
        after.gddr_train_temp1 == before.gddr_train_temp1,
        after.aux_status == before.aux_status,
        after.eth_debug_status0 == before.eth_debug_status0,
        after.eth_debug_status1 == before.eth_debug_status1,
        after.max_gddr_temp == before.max_gddr_temp,
        after.gddr_uncorr_errs == before.gddr_uncorr_errs,
        after.harvesting_state == before.harvesting_state,
        after.eth_live_status == before.eth_live_status,
        after.enabled_eth == before.enabled_eth,
        after.enabled_gddr == before.enabled_gddr,
        after.enabled_l2cpu == before.enabled_l2cpu,
        after.enabled_tensix_col == before.enabled_tensix_col,
        models::same_gddr(after.gddr_telemetry, before.gddr_telemetry),
        forall|i: int| 0 <= i < 4 ==> #[trigger] after.gddr_temps@[i] == before.gddr_temps@[i],
        forall|i: int|
            0 <= i < 4 ==> #[trigger] after.gddr_corr_errs@[i] == before.gddr_corr_errs@[i],
{
}

/// A fan that stops is shown at once: the value that reports it replaces the
/// speed, ends its average, and reads as no speed.
pub proof fn law_fan_sentinel_clears(
    state: Option<u64>,
    incoming: String,
    existing: Option<String>,
    result: Option<Smoothed>,
)
    requires
        models::fan_reading(incoming@) is None,
    ensures
        fan_blended(state, Some(incoming), existing, result) == (
            None::<u64>,
            Some(incoming@),
        ),
{
}

/// Text that is no number passes through unchanged and ends the average.
pub proof fn law_text_passes_through(
    state: Option<u64>,
    incoming: String,
    existing: Option<String>,
    result: Option<Smoothed>,
)
    requires
        !numeric(incoming@),
    ensures
        blended(state, Some(incoming), existing, result) == (None::<u64>, Some(incoming@)),
{
}

/// The averaged fields of a device, by number.
pub open spec fn averaged_field(s: SmbusTelemetry, i: int) -> Option<Seq<char>> {
    if i == 0 {
        text::opt_text(s.ddr_speed)
    } else if i == 1 {
        text::opt_text(s.arc0_health)
    } else if i == 2 {
        text::opt_text(s.arc1_health)
    } else if i == 3 {
        text::opt_text(s.arc2_health)
    } else if i == 4 {
        text::opt_text(s.arc3_health)
    } else if i == 5 {
        text::opt_text(s.aiclk)
    } else if i == 6 {
        text::opt_text(s.axiclk)
    } else if i == 7 {
        text::opt_text(s.arcclk)
    } else if i == 8 {
        text::opt_text(s.asic_temperature)
    } else if i == 9 {
        text::opt_text(s.vreg_temperature)
    } else if i == 10 {
        text::opt_text(s.board_temperature)
    } else if i == 11 {
        text::opt_text(s.vcore)
    } else if i == 12 {
        text::opt_text(s.tdp)
    } else if i == 13 {
        text::opt_text(s.tdc)
    } else if i == 14 {
        text::opt_text(s.fan_speed)
    } else if i == 15 {
        text::opt_text(s.input_power)
    } else if i == 16 {
        text::opt_text(s.board_power_limit)
    } else if i == 17 {
        text::opt_text(s.mvddq_power)
    } else if i == 18 {
        text::opt_text(s.therm_trip_count)
    } else if i == 19 {
        text::opt_text(s.rt_seconds)
    } else {
        None
    }
}

/// Each average is computed from the reading of its own field and from the
/// average of that same field before, and from nothing where the field holds no
/// number.
pub proof fn law_inputs_belong_to_their_fields(
    inputs: Seq<Option<SmoothInput>>,
    ema: Map<usize, DeviceEmaState>,
    device_idx: usize,
    incoming: SmbusTelemetry,
)
    requires
        inputs_listed(inputs, ema, device_idx, incoming),
    ensures
        inputs.len() == SMOOTHED_FIELDS,
        forall|i: int|
            0 <= i < SMOOTHED_FIELDS && (#[trigger] inputs[i]) is Some ==> {
                &&& Some(inputs[i]->0.reading@) == averaged_field(incoming, i)
                &&& inputs[i]->0.previous == if ema.contains_key(device_idx) && i
                    < ema[device_idx].accumulators@.len() {
                    ema[device_idx].accumulators@[i]
                } else {
                    None
                }
            },
        forall|i: int|
            0 <= i < SMOOTHED_FIELDS ==> ((#[trigger] inputs[i]) is Some <==> averaged_field(
                incoming,
                i,
            ) is Some && numeric(averaged_field(incoming, i)->0) && (i == 14 ==> models::fan_reading(
                averaged_field(incoming, i)->0,
            ) is Some)),
{
    assert forall|i: int| 0 <= i < SMOOTHED_FIELDS implies #[trigger] input_matches_field(
        inputs,
        ema,
        device_idx,
        incoming,
        i,
    ) by {
        if i == 0 {
        }
        if i == 1 {
        }
        if i == 2 {
        }
        if i == 3 {
        }
        if i == 4 {
        }
        if i == 5 {
        }
        if i == 6 {
        }
        if i == 7 {
        }
        if i == 8 {
        }
        if i == 9 {
        }
        if i == 10 {
        }
        if i == 11 {
        }
        if i == 12 {
        }
        if i == 13 {
        }
        if i == 14 {
        }
        if i == 15 {
        }
        if i == 16 {
        }
        if i == 17 {
        }
        if i == 18 {
        }
        if i == 19 {
        }
    }
    assert forall|i: int| 0 <= i < SMOOTHED_FIELDS && (#[trigger] inputs[i]) is Some implies Some(
        inputs[i]->0.reading@,
    ) == averaged_field(incoming, i) && inputs[i]->0.previous == accumulator_at(
        ema,
        device_idx,
        i,
    ) by {
        assert(input_matches_field(inputs, ema, device_idx, incoming, i));
    }
    assert forall|i: int| 0 <= i < SMOOTHED_FIELDS implies ((#[trigger] inputs[i]) is Some
        <==> averaged_field(incoming, i) is Some && numeric(averaged_field(incoming, i)->0) && (i
        == 14 ==> models::fan_reading(averaged_field(incoming, i)->0) is Some)) by {
        assert(input_matches_field(inputs, ema, device_idx, incoming, i));
    }
}

spec fn input_matches_field(
    inputs: Seq<Option<SmoothInput>>,
    ema: Map<usize, DeviceEmaState>,
    device_idx: usize,
    incoming: SmbusTelemetry,
    i: int,
) -> bool {
    match averaged_field(incoming, i) {
        Some(s) => if numeric(s) && !(i == 14 && models::fan_reading(s) is None) {
            inputs[i] matches Some(input) && input.previous == accumulator_at(ema, device_idx, i)
                && input.reading@ == s
        } else {
            inputs[i] is None
        },
        None => inputs[i] is None,
    }
}

spec fn field_follows(
    ema_before: Map<usize, DeviceEmaState>,
    ema_after: Map<usize, DeviceEmaState>,
    device_idx: usize,
    incoming: SmbusTelemetry,
    before: SmbusTelemetry,
    after: SmbusTelemetry,
    results: Seq<Option<Smoothed>>,
    i: int,
) -> bool {
    let was = accumulator_at(ema_before, device_idx, i);
    let is = accumulator_at(ema_after, device_idx, i);
    match averaged_field(incoming, i) {
        None => is == was && averaged_field(after, i) == averaged_field(before, i),
        Some(s) => if numeric(s) && !(i == 14 && models::fan_reading(s) is None) {
            match result_at(results, i) {
                Some(r) => is == Some(r.accumulator) && averaged_field(after, i) == Some(shown(r, s)),
                None => is == was && averaged_field(after, i) == averaged_field(before, i),
            }
        } else {
            is is None && averaged_field(after, i) == Some(s)
        },
    }
}

proof fn lemma_fields_follow(
    ema_before: Map<usize, DeviceEmaState>,
    ema_after: Map<usize, DeviceEmaState>,
    device_idx: usize,
    incoming: SmbusTelemetry,
    before: SmbusTelemetry,
    after: SmbusTelemetry,
    results: Seq<Option<Smoothed>>,
    i: int,
)
    requires
        device_blended(ema_before, ema_after, device_idx, incoming, before, after, results),
        0 <= i < SMOOTHED_FIELDS,
    ensures
        field_follows(ema_before, ema_after, device_idx, incoming, before, after, results, i),
{
    if i == 0 {
    }
    if i == 1 {
    }
    if i == 2 {
    }
    if i == 3 {
    }
    if i == 4 {
    }
    if i == 5 {
    }
    if i == 6 {
    }
    if i == 7 {
    }
    if i == 8 {
    }
    if i == 9 {
    }
    if i == 10 {
    }
    if i == 11 {
    }
    if i == 12 {
    }
    if i == 13 {
    }
    if i == 14 {
    }
    if i == 15 {
    }
    if i == 16 {
    }
    if i == 17 {
    }
    if i == 18 {
    }
    if i == 19 {
    }
}

/// The average that was computed for a field is the one that is kept for it, and
/// the text that it comes to is the one that the field shows. A field that a
/// snapshot leaves out keeps both, and one that holds no number to average shows
/// what it holds and keeps no average.
pub proof fn law_averages_arrive_at_their_fields(
    ema_before: Map<usize, DeviceEmaState>,
    ema_after: Map<usize, DeviceEmaState>,
    device_idx: usize,
    incoming: SmbusTelemetry,
    before: SmbusTelemetry,
    after: SmbusTelemetry,
    inputs: Seq<Option<SmoothInput>>,
    results: Seq<Option<Smoothed>>,
)
    requires
        inputs_listed(inputs, ema_before, device_idx, incoming),
        ema_applied(ema_before, ema_after, device_idx, incoming, before, after, results),
        results.len() == SMOOTHED_FIELDS,
    ensures
        ema_after.contains_key(device_idx),
        ema_after[device_idx].accumulators@.len() == SMOOTHED_FIELDS,
        forall|i: int|
            #![trigger results[i]]
            0 <= i < SMOOTHED_FIELDS && inputs[i] is Some && results[i] is Some ==> {
                &&& ema_after[device_idx].accumulators@[i] == Some(results[i]->0.accumulator)
                &&& averaged_field(after, i) == Some(
                    if text::trimmed(inputs[i]->0.reading@).contains('.') {
                        results[i]->0.hundredths@
                    } else {
                        whole_text(results[i]->0.whole as int)
                    },
                )
            },
        forall|i: int|
            0 <= i < SMOOTHED_FIELDS && averaged_field(incoming, i) is None ==> {
                &&& #[trigger] averaged_field(after, i) == averaged_field(before, i)
                &&& ema_after[device_idx].accumulators@[i] == accumulator_at(
                    ema_before,
                    device_idx,
                    i,
                )
            },
        forall|i: int|
            0 <= i < SMOOTHED_FIELDS && averaged_field(incoming, i) is Some && inputs[i] is None
                ==> {
                &&& #[trigger] averaged_field(after, i) == averaged_field(incoming, i)
                &&& ema_after[device_idx].accumulators@[i] is None
            },
        forall|other: usize|
            other != device_idx ==> (#[trigger] ema_after.contains_key(other)
                <==> ema_before.contains_key(other)) && (ema_before.contains_key(other)
                ==> ema_after[other] == ema_before[other]),
{
    law_inputs_belong_to_their_fields(inputs, ema_before, device_idx, incoming);
    assert forall|i: int| 0 <= i < SMOOTHED_FIELDS implies #[trigger] field_follows(
        ema_before,
        ema_after,
        device_idx,
        incoming,
        before,
        after,
        results,
        i,
    ) && accumulator_at(ema_after, device_idx, i) == ema_after[device_idx].accumulators@[i] by {
        lemma_fields_follow(
            ema_before,
            ema_after,
            device_idx,
            incoming,
            before,
            after,
            results,
            i,
        );
    }
    assert forall|i: int|
        #![trigger results[i]]
        0 <= i < SMOOTHED_FIELDS && inputs[i] is Some && results[i] is Some implies {
            &&& ema_after[device_idx].accumulators@[i] == Some(results[i]->0.accumulator)
            &&& averaged_field(after, i) == Some(
                if text::trimmed(inputs[i]->0.reading@).contains('.') {
                    results[i]->0.hundredths@
                } else {
                    whole_text(results[i]->0.whole as int)
                },
            )
        } by {
        assert(field_follows(
            ema_before,
            ema_after,
            device_idx,
            incoming,
            before,
            after,
            results,
            i,
        ));
        assert(result_at(results, i) == results[i]);
    }
    assert forall|i: int|
        0 <= i < SMOOTHED_FIELDS && averaged_field(incoming, i) is None implies #[trigger] averaged_field(
        after,
        i,
    ) == averaged_field(before, i) && ema_after[device_idx].accumulators@[i] == accumulator_at(
        ema_before,
        device_idx,
        i,
    ) by {
        assert(field_follows(
            ema_before,
            ema_after,
            device_idx,
            incoming,
            before,
            after,
            results,
            i,
        ));
    }
    assert forall|i: int|
        0 <= i < SMOOTHED_FIELDS && averaged_field(incoming, i) is Some && inputs[i] is None implies #[trigger] averaged_field(
        after,
        i,
    ) == averaged_field(incoming, i) && ema_after[device_idx].accumulators@[i] is None by {
        assert(field_follows(
            ema_before,
            ema_after,
            device_idx,
            incoming,
            before,
            after,
            results,
            i,
        ));
    }
}

/// An average goes on from where it stood: what was computed for a field is what
/// the next average of that field, and of no other, is computed from.
pub proof fn law_averages_go_on(
    ema_before: Map<usize, DeviceEmaState>,
    ema_after: Map<usize, DeviceEmaState>,
    device_idx: usize,
    incoming: SmbusTelemetry,
    before: SmbusTelemetry,
    after: SmbusTelemetry,
    inputs: Seq<Option<SmoothInput>>,
    results: Seq<Option<Smoothed>>,
    next: SmbusTelemetry,
    next_inputs: Seq<Option<SmoothInput>>,
)
    requires
        inputs_listed(inputs, ema_before, device_idx, incoming),
        ema_applied(ema_before, ema_after, device_idx, incoming, before, after, results),
        results.len() == SMOOTHED_FIELDS,
        inputs_listed(next_inputs, ema_after, device_idx, next),
    ensures
        forall|i: int|
            #![trigger results[i], next_inputs[i]]
            0 <= i < SMOOTHED_FIELDS && inputs[i] is Some && results[i] is Some && next_inputs[i] is Some
                ==> next_inputs[i]->0.previous == Some(results[i]->0.accumulator),
{
    law_averages_arrive_at_their_fields(
        ema_before,
        ema_after,
        device_idx,
        incoming,
        before,
        after,
        inputs,
        results,
    );
    law_inputs_belong_to_their_fields(next_inputs, ema_after, device_idx, next);
}

/// What is not averaged is taken over as it is where a snapshot holds it, and
/// otherwise stays as it was.
pub proof fn law_other_fields_are_taken_over(
    incoming: SmbusTelemetry,
    before: SmbusTelemetry,
    after: SmbusTelemetry,
)
    requires
        fields_copied(incoming, before, after),
    ensures
        after.board_id == if incoming.board_id is Some { incoming.board_id } else { before.board_id },
        after.enum_version == if incoming.enum_version is Some { incoming.enum_version } else { before.enum_version },
        after.device_id == if incoming.device_id is Some { incoming.device_id } else { before.device_id },
        after.ddr_status == if incoming.ddr_status is Some { incoming.ddr_status } else { before.ddr_status },
        after.arc0_fw_version == if incoming.arc0_fw_version is Some { incoming.arc0_fw_version } else { before.arc0_fw_version },
        after.arc1_fw_version == if incoming.arc1_fw_version is Some { incoming.arc1_fw_version } else { before.arc1_fw_version },
        after.arc2_fw_version == if incoming.arc2_fw_version is Some { incoming.arc2_fw_version } else { before.arc2_fw_version },
        after.arc3_fw_version == if incoming.arc3_fw_version is Some { incoming.arc3_fw_version } else { before.arc3_fw_version },
        after.eth_fw_version == if incoming.eth_fw_version is Some { incoming.eth_fw_version } else { before.eth_fw_version },
        after.m3_bl_fw_version == if incoming.m3_bl_fw_version is Some { incoming.m3_bl_fw_version } else { before.m3_bl_fw_version },
        after.m3_app_fw_version == if incoming.m3_app_fw_version is Some { incoming.m3_app_fw_version } else { before.m3_app_fw_version },
        after.spibootrom_fw_version == if incoming.spibootrom_fw_version is Some { incoming.spibootrom_fw_version } else { before.spibootrom_fw_version },
        after.tt_flash_version == if incoming.tt_flash_version is Some { incoming.tt_flash_version } else { before.tt_flash_version },
        after.throttler == if incoming.throttler is Some { incoming.throttler } else { before.throttler },
        after.vdd_limits == if incoming.vdd_limits is Some { incoming.vdd_limits } else { before.vdd_limits },
        after.thm_limits == if incoming.thm_limits is Some { incoming.thm_limits } else { before.thm_limits },
        after.faults == if incoming.faults is Some { incoming.faults } else { before.faults },
        after.pcie_status == if incoming.pcie_status is Some { incoming.pcie_status } else { before.pcie_status },
        after.eth_status0 == if incoming.eth_status0 is Some { incoming.eth_status0 } else { before.eth_status0 },
        after.eth_status1 == if incoming.eth_status1 is Some { incoming.eth_status1 } else { before.eth_status1 },
        after.boot_date == if incoming.boot_date is Some { incoming.boot_date } else { before.boot_date },
        after.wh_fw_date == if incoming.wh_fw_date is Some { incoming.wh_fw_date } else { before.wh_fw_date },
        after.asic_tmon0 == if incoming.asic_tmon0 is Some { incoming.asic_tmon0 } else { before.asic_tmon0 },
        after.asic_tmon1 == if incoming.asic_tmon1 is Some { incoming.asic_tmon1 } else { before.asic_tmon1 },
        after.gddr_train_temp0 == if incoming.gddr_train_temp0 is Some { incoming.gddr_train_temp0 } else { before.gddr_train_temp0 },
        after.gddr_train_temp1 == if incoming.gddr_train_temp1 is Some { incoming.gddr_train_temp1 } else { before.gddr_train_temp1 },
        after.aux_status == if incoming.aux_status is Some { incoming.aux_status } else { before.aux_status },
        after.eth_debug_status0 == if incoming.eth_debug_status0 is Some { incoming.eth_debug_status0 } else { before.eth_debug_status0 },
        after.eth_debug_status1 == if incoming.eth_debug_status1 is Some { incoming.eth_debug_status1 } else { before.eth_debug_status1 },
        after.max_gddr_temp == if incoming.max_gddr_temp is Some { incoming.max_gddr_temp } else { before.max_gddr_temp },
        after.gddr_uncorr_errs == if incoming.gddr_uncorr_errs is Some { incoming.gddr_uncorr_errs } else { before.gddr_uncorr_errs },
        after.harvesting_state == if incoming.harvesting_state is Some { incoming.harvesting_state } else { before.harvesting_state },
        after.eth_live_status == if incoming.eth_live_status is Some { incoming.eth_live_status } else { before.eth_live_status },
        after.enabled_eth == if incoming.enabled_eth is Some { incoming.enabled_eth } else { before.enabled_eth },
        after.enabled_gddr == if incoming.enabled_gddr is Some { incoming.enabled_gddr } else { before.enabled_gddr },
        after.enabled_l2cpu == if incoming.enabled_l2cpu is Some { incoming.enabled_l2cpu } else { before.enabled_l2cpu },
        after.enabled_tensix_col == if incoming.enabled_tensix_col is Some { incoming.enabled_tensix_col } else { before.enabled_tensix_col },
        incoming.gddr_telemetry is Some ==> models::same_gddr(
            after.gddr_telemetry,
            incoming.gddr_telemetry,
        ),
        incoming.gddr_telemetry is None ==> models::same_gddr(
            after.gddr_telemetry,
            before.gddr_telemetry,
        ),
        forall|i: int|
            0 <= i < 4 ==> #[trigger] after.gddr_temps@[i] == if incoming.gddr_temps@[i] is Some {
                incoming.gddr_temps@[i]
            } else {
                before.gddr_temps@[i]
            },
        forall|i: int|
            0 <= i < 4 ==> #[trigger] after.gddr_corr_errs@[i]
                == if incoming.gddr_corr_errs@[i] is Some {
                incoming.gddr_corr_errs@[i]
            } else {
                before.gddr_corr_errs@[i]
            },
{
}

} // verus!
