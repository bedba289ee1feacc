//! The blocks of a `tt-smi` snapshot entry, decoded from JSON.

use vstd::prelude::*;

use crate::document;
use crate::document::{
    count_field, is_text_field, reading_field, signed_field, text_field, Json, JsonView,
};
use crate::models;
use crate::models::{
    parse_hex_or_dec, parse_hex_or_dec_64, real_fan_rpm, unpack_gddr_temps, DeviceLimits,
    DeviceProcess, FirmwaresInfo, SmbusTelemetry, Telemetry,
};
use crate::text;
use crate::text::decimal_text;

verus! {

/// The telemetry block of an entry. Its numbers come as numbers or as texts.
#[derive(Debug)]
pub struct TelemetryJSON {
    pub voltage: Option<String>,
    pub current: Option<String>,
    pub power: Option<String>,
    pub asic_temperature: Option<String>,
    pub aiclk: Option<u32>,
    pub heartbeat: Option<u32>,
    pub board_power: Option<String>,
}

/// Whether a value is a telemetry block.
pub open spec fn telemetry_ok(j: JsonView) -> bool {
    document::is_record(j, 0, 7)
}

/// Whether a telemetry block decodes to `t`.
pub open spec fn telemetry_matches(t: TelemetryJSON, j: JsonView) -> bool {
    &&& text::opt_text(t.voltage) == document::reading_of(document::field(j, 0, "voltage"@))
    &&& text::opt_text(t.current) == document::reading_of(document::field(j, 1, "current"@))
    &&& text::opt_text(t.power) == document::reading_of(document::field(j, 2, "power"@))
    &&& text::opt_text(t.asic_temperature) == document::reading_of(
        document::field(j, 3, "asic_temperature"@),
    )
    &&& models::opt_nat32(t.aiclk) == document::count_of(
        document::field(j, 4, "aiclk"@),
        u32::MAX as nat,
    )
    &&& models::opt_nat32(t.heartbeat) == document::count_of(
        document::field(j, 5, "heartbeat"@),
        u32::MAX as nat,
    )
    &&& text::opt_text(t.board_power) == document::reading_of(
        document::field(j, 6, "board_power"@),
    )
}

fn count32(f: Option<&Json>) -> (n: Option<u32>)
    ensures
        models::opt_nat32(n) == document::count_of(document::opt_json(f), u32::MAX as nat),
{
    match count_field(f, u32::MAX as u64) {
        Some(v) => Some(v as u32),
        None => None,
    }
}

/// Decodes a telemetry block.
pub fn decode_telemetry(j: &Json) -> (r: Option<TelemetryJSON>)
    ensures
        r is Some <==> telemetry_ok(j@),
        r matches Some(t) ==> telemetry_matches(t, j@),
{
    if !j.is_record(0, 7) {
        return None;
    }
    Some(
        TelemetryJSON {
            voltage: reading_field(j.field(0, "voltage")),
            current: reading_field(j.field(1, "current")),
            power: reading_field(j.field(2, "power")),
            asic_temperature: reading_field(j.field(3, "asic_temperature")),
            aiclk: count32(j.field(4, "aiclk")),
            heartbeat: count32(j.field(5, "heartbeat")),
            board_power: reading_field(j.field(6, "board_power")),
        },
    )
}

/// The SMBUS block of an entry, under the names of its registers.
#[derive(Debug)]
pub struct SmbusTelemetryJSON {
    pub board_id_high: Option<String>,
    pub board_id_low: Option<String>,
    pub ddr_status: Option<String>,
    pub ddr_speed: Option<String>,
    pub timer_heartbeat: Option<String>,
    pub aiclk: Option<String>,
    pub axiclk: Option<String>,
    pub arcclk: Option<String>,
    pub vcore: Option<String>,
    pub tdp: Option<String>,
    pub tdc: Option<String>,
    pub asic_temperature: Option<String>,
    pub vreg_temperature: Option<String>,
    pub board_temperature: Option<String>,
    pub eth_fw_version: Option<String>,
    pub dm_app_fw_version: Option<String>,
    pub dm_bl_fw_version: Option<String>,
    pub cm_fw_version: Option<String>,
    pub flash_bundle_version: Option<String>,
    pub tt_flash_version: Option<String>,
    pub fan_speed: Option<String>,
    pub fan_rpm: Option<String>,
    pub pcie_usage: Option<String>,
    pub enabled_tensix_col: Option<String>,
    pub board_power_limit: Option<String>,
    pub therm_trip_count: Option<String>,
    pub vdd_limits: Option<String>,
    pub thm_limit_shutdown: Option<String>,
    pub gddr_0_1_temp: Option<String>,
    pub gddr_2_3_temp: Option<String>,
    pub gddr_4_5_temp: Option<String>,
    pub gddr_6_7_temp: Option<String>,
    pub max_gddr_temp: Option<String>,
    pub gddr_0_1_corr_errs: Option<String>,
    pub gddr_2_3_corr_errs: Option<String>,
    pub gddr_4_5_corr_errs: Option<String>,
    pub gddr_6_7_corr_errs: Option<String>,
    pub gddr_uncorr_errs: Option<String>,
    pub harvesting_state: Option<String>,
    pub eth_live_status: Option<String>,
    pub enabled_eth: Option<String>,
    pub enabled_gddr: Option<String>,
    pub enabled_l2cpu: Option<String>,
}

/// Whether a value is a SMBUS block: each register absent, null or a text.
pub open spec fn smbus_ok(j: JsonView) -> bool {
    &&& document::is_record(j, 43, 43)
    &&& document::text_ok(document::field(j, 0, "BOARD_ID_HIGH"@))
    &&& document::text_ok(document::field(j, 1, "BOARD_ID_LOW"@))
    &&& document::text_ok(document::field(j, 2, "DDR_STATUS"@))
    &&& document::text_ok(document::field(j, 3, "DDR_SPEED"@))
    &&& document::text_ok(document::field(j, 4, "TIMER_HEARTBEAT"@))
    &&& document::text_ok(document::field(j, 5, "AICLK"@))
    &&& document::text_ok(document::field(j, 6, "AXICLK"@))
    &&& document::text_ok(document::field(j, 7, "ARCCLK"@))
    &&& document::text_ok(document::field(j, 8, "VCORE"@))
    &&& document::text_ok(document::field(j, 9, "TDP"@))
    &&& document::text_ok(document::field(j, 10, "TDC"@))
    &&& document::text_ok(document::field(j, 11, "ASIC_TEMPERATURE"@))
    &&& document::text_ok(document::field(j, 12, "VREG_TEMPERATURE"@))
    &&& document::text_ok(document::field(j, 13, "BOARD_TEMPERATURE"@))
    &&& document::text_ok(document::field(j, 14, "ETH_FW_VERSION"@))
    &&& document::text_ok(document::field(j, 15, "DM_APP_FW_VERSION"@))
    &&& document::text_ok(document::field(j, 16, "DM_BL_FW_VERSION"@))
    &&& document::text_ok(document::field(j, 17, "CM_FW_VERSION"@))
    &&& document::text_ok(document::field(j, 18, "FLASH_BUNDLE_VERSION"@))
    &&& document::text_ok(document::field(j, 19, "TT_FLASH_VERSION"@))
    &&& document::text_ok(document::field(j, 20, "FAN_SPEED"@))
    &&& document::text_ok(document::field(j, 21, "FAN_RPM"@))
    &&& document::text_ok(document::field(j, 22, "PCIE_USAGE"@))
    &&& document::text_ok(document::field(j, 23, "ENABLED_TENSIX_COL"@))
    &&& document::text_ok(document::field(j, 24, "BOARD_POWER_LIMIT"@))
    &&& document::text_ok(document::field(j, 25, "THERM_TRIP_COUNT"@))
    &&& document::text_ok(document::field(j, 26, "VDD_LIMITS"@))
    &&& document::text_ok(document::field(j, 27, "THM_LIMIT_SHUTDOWN"@))
    &&& document::text_ok(document::field(j, 28, "GDDR_0_1_TEMP"@))
    &&& document::text_ok(document::field(j, 29, "GDDR_2_3_TEMP"@))
    &&& document::text_ok(document::field(j, 30, "GDDR_4_5_TEMP"@))
    &&& document::text_ok(document::field(j, 31, "GDDR_6_7_TEMP"@))
    &&& document::text_ok(document::field(j, 32, "MAX_GDDR_TEMP"@))
    &&& document::text_ok(document::field(j, 33, "GDDR_0_1_CORR_ERRS"@))
    &&& document::text_ok(document::field(j, 34, "GDDR_2_3_CORR_ERRS"@))
    &&& document::text_ok(document::field(j, 35, "GDDR_4_5_CORR_ERRS"@))
    &&& document::text_ok(document::field(j, 36, "GDDR_6_7_CORR_ERRS"@))
    &&& document::text_ok(document::field(j, 37, "GDDR_UNCORR_ERRS"@))
    &&& document::text_ok(document::field(j, 38, "HARVESTING_STATE"@))
    &&& document::text_ok(document::field(j, 39, "ETH_LIVE_STATUS"@))
    &&& document::text_ok(document::field(j, 40, "ENABLED_ETH"@))
    &&& document::text_ok(document::field(j, 41, "ENABLED_GDDR"@))
    &&& document::text_ok(document::field(j, 42, "ENABLED_L2CPU"@))
}

/// Whether a SMBUS block decodes to `s`.
pub open spec fn smbus_matches(s: SmbusTelemetryJSON, j: JsonView) -> bool {
    &&& text::opt_text(s.board_id_high) == document::text_of(document::field(j, 0, "BOARD_ID_HIGH"@))
    &&& text::opt_text(s.board_id_low) == document::text_of(document::field(j, 1, "BOARD_ID_LOW"@))
    &&& text::opt_text(s.ddr_status) == document::text_of(document::field(j, 2, "DDR_STATUS"@))
    &&& text::opt_text(s.ddr_speed) == document::text_of(document::field(j, 3, "DDR_SPEED"@))
    &&& text::opt_text(s.timer_heartbeat) == document::text_of(document::field(j, 4, "TIMER_HEARTBEAT"@))
    &&& text::opt_text(s.aiclk) == document::text_of(document::field(j, 5, "AICLK"@))
    &&& text::opt_text(s.axiclk) == document::text_of(document::field(j, 6, "AXICLK"@))
    &&& text::opt_text(s.arcclk) == document::text_of(document::field(j, 7, "ARCCLK"@))
    &&& text::opt_text(s.vcore) == document::text_of(document::field(j, 8, "VCORE"@))
    &&& text::opt_text(s.tdp) == document::text_of(document::field(j, 9, "TDP"@))
    &&& text::opt_text(s.tdc) == document::text_of(document::field(j, 10, "TDC"@))
    &&& text::opt_text(s.asic_temperature) == document::text_of(document::field(j, 11, "ASIC_TEMPERATURE"@))
    &&& text::opt_text(s.vreg_temperature) == document::text_of(document::field(j, 12, "VREG_TEMPERATURE"@))
    &&& text::opt_text(s.board_temperature) == document::text_of(document::field(j, 13, "BOARD_TEMPERATURE"@))
    &&& text::opt_text(s.eth_fw_version) == document::text_of(document::field(j, 14, "ETH_FW_VERSION"@))
    &&& text::opt_text(s.dm_app_fw_version) == document::text_of(document::field(j, 15, "DM_APP_FW_VERSION"@))
    &&& text::opt_text(s.dm_bl_fw_version) == document::text_of(document::field(j, 16, "DM_BL_FW_VERSION"@))
    &&& text::opt_text(s.cm_fw_version) == document::text_of(document::field(j, 17, "CM_FW_VERSION"@))
    &&& text::opt_text(s.flash_bundle_version) == document::text_of(document::field(j, 18, "FLASH_BUNDLE_VERSION"@))
    &&& text::opt_text(s.tt_flash_version) == document::text_of(document::field(j, 19, "TT_FLASH_VERSION"@))
    &&& text::opt_text(s.fan_speed) == document::text_of(document::field(j, 20, "FAN_SPEED"@))
    &&& text::opt_text(s.fan_rpm) == document::text_of(document::field(j, 21, "FAN_RPM"@))
    &&& text::opt_text(s.pcie_usage) == document::text_of(document::field(j, 22, "PCIE_USAGE"@))
    &&& text::opt_text(s.enabled_tensix_col) == document::text_of(document::field(j, 23, "ENABLED_TENSIX_COL"@))
    &&& text::opt_text(s.board_power_limit) == document::text_of(document::field(j, 24, "BOARD_POWER_LIMIT"@))
    &&& text::opt_text(s.therm_trip_count) == document::text_of(document::field(j, 25, "THERM_TRIP_COUNT"@))
    &&& text::opt_text(s.vdd_limits) == document::text_of(document::field(j, 26, "VDD_LIMITS"@))
    &&& text::opt_text(s.thm_limit_shutdown) == document::text_of(document::field(j, 27, "THM_LIMIT_SHUTDOWN"@))
    &&& text::opt_text(s.gddr_0_1_temp) == document::text_of(document::field(j, 28, "GDDR_0_1_TEMP"@))
    &&& text::opt_text(s.gddr_2_3_temp) == document::text_of(document::field(j, 29, "GDDR_2_3_TEMP"@))
    &&& text::opt_text(s.gddr_4_5_temp) == document::text_of(document::field(j, 30, "GDDR_4_5_TEMP"@))
    &&& text::opt_text(s.gddr_6_7_temp) == document::text_of(document::field(j, 31, "GDDR_6_7_TEMP"@))
    &&& text::opt_text(s.max_gddr_temp) == document::text_of(document::field(j, 32, "MAX_GDDR_TEMP"@))
    &&& text::opt_text(s.gddr_0_1_corr_errs) == document::text_of(document::field(j, 33, "GDDR_0_1_CORR_ERRS"@))
    &&& text::opt_text(s.gddr_2_3_corr_errs) == document::text_of(document::field(j, 34, "GDDR_2_3_CORR_ERRS"@))
    &&& text::opt_text(s.gddr_4_5_corr_errs) == document::text_of(document::field(j, 35, "GDDR_4_5_CORR_ERRS"@))
    &&& text::opt_text(s.gddr_6_7_corr_errs) == document::text_of(document::field(j, 36, "GDDR_6_7_CORR_ERRS"@))
    &&& text::opt_text(s.gddr_uncorr_errs) == document::text_of(document::field(j, 37, "GDDR_UNCORR_ERRS"@))
    &&& text::opt_text(s.harvesting_state) == document::text_of(document::field(j, 38, "HARVESTING_STATE"@))
    &&& text::opt_text(s.eth_live_status) == document::text_of(document::field(j, 39, "ETH_LIVE_STATUS"@))
    &&& text::opt_text(s.enabled_eth) == document::text_of(document::field(j, 40, "ENABLED_ETH"@))
    &&& text::opt_text(s.enabled_gddr) == document::text_of(document::field(j, 41, "ENABLED_GDDR"@))
    &&& text::opt_text(s.enabled_l2cpu) == document::text_of(document::field(j, 42, "ENABLED_L2CPU"@))
}

fn smbus_texts(j: &Json) -> (r: bool)
    ensures
        r == smbus_ok(j@),
{
    if !j.is_record(43, 43) {
        return false;
    }
    if !(is_text_field(j.field(0, "BOARD_ID_HIGH")) && is_text_field(j.field(1, "BOARD_ID_LOW")) && is_text_field(j.field(2, "DDR_STATUS")) && is_text_field(j.field(3, "DDR_SPEED")) && is_text_field(j.field(4, "TIMER_HEARTBEAT")) && is_text_field(j.field(5, "AICLK"))) {
        return false;
    }
    if !(is_text_field(j.field(6, "AXICLK")) && is_text_field(j.field(7, "ARCCLK")) && is_text_field(j.field(8, "VCORE")) && is_text_field(j.field(9, "TDP")) && is_text_field(j.field(10, "TDC")) && is_text_field(j.field(11, "ASIC_TEMPERATURE"))) {
        return false;
    }
    if !(is_text_field(j.field(12, "VREG_TEMPERATURE")) && is_text_field(j.field(13, "BOARD_TEMPERATURE")) && is_text_field(j.field(14, "ETH_FW_VERSION")) && is_text_field(j.field(15, "DM_APP_FW_VERSION")) && is_text_field(j.field(16, "DM_BL_FW_VERSION")) && is_text_field(j.field(17, "CM_FW_VERSION"))) {
        return false;
    }
    if !(is_text_field(j.field(18, "FLASH_BUNDLE_VERSION")) && is_text_field(j.field(19, "TT_FLASH_VERSION")) && is_text_field(j.field(20, "FAN_SPEED")) && is_text_field(j.field(21, "FAN_RPM")) && is_text_field(j.field(22, "PCIE_USAGE")) && is_text_field(j.field(23, "ENABLED_TENSIX_COL"))) {
        return false;
    }
    if !(is_text_field(j.field(24, "BOARD_POWER_LIMIT")) && is_text_field(j.field(25, "THERM_TRIP_COUNT")) && is_text_field(j.field(26, "VDD_LIMITS")) && is_text_field(j.field(27, "THM_LIMIT_SHUTDOWN")) && is_text_field(j.field(28, "GDDR_0_1_TEMP")) && is_text_field(j.field(29, "GDDR_2_3_TEMP"))) {
        return false;
    }
    if !(is_text_field(j.field(30, "GDDR_4_5_TEMP")) && is_text_field(j.field(31, "GDDR_6_7_TEMP")) && is_text_field(j.field(32, "MAX_GDDR_TEMP")) && is_text_field(j.field(33, "GDDR_0_1_CORR_ERRS")) && is_text_field(j.field(34, "GDDR_2_3_CORR_ERRS")) && is_text_field(j.field(35, "GDDR_4_5_CORR_ERRS"))) {
        return false;
    }
    if !(is_text_field(j.field(36, "GDDR_6_7_CORR_ERRS")) && is_text_field(j.field(37, "GDDR_UNCORR_ERRS")) && is_text_field(j.field(38, "HARVESTING_STATE")) && is_text_field(j.field(39, "ETH_LIVE_STATUS")) && is_text_field(j.field(40, "ENABLED_ETH")) && is_text_field(j.field(41, "ENABLED_GDDR"))) {
        return false;
    }
    if !(is_text_field(j.field(42, "ENABLED_L2CPU"))) {
        return false;
    }
    true
}

/// Decodes a SMBUS block.
pub fn decode_smbus(j: &Json) -> (r: Option<SmbusTelemetryJSON>)
    ensures
        r is Some <==> smbus_ok(j@),
        r matches Some(s) ==> smbus_matches(s, j@),
{
    if !smbus_texts(j) {
        return None;
    }
    Some(
        SmbusTelemetryJSON {
            board_id_high: text_field(j.field(0, "BOARD_ID_HIGH")),
            board_id_low: text_field(j.field(1, "BOARD_ID_LOW")),
            ddr_status: text_field(j.field(2, "DDR_STATUS")),
            ddr_speed: text_field(j.field(3, "DDR_SPEED")),
            timer_heartbeat: text_field(j.field(4, "TIMER_HEARTBEAT")),
            aiclk: text_field(j.field(5, "AICLK")),
            axiclk: text_field(j.field(6, "AXICLK")),
            arcclk: text_field(j.field(7, "ARCCLK")),
            vcore: text_field(j.field(8, "VCORE")),
            tdp: text_field(j.field(9, "TDP")),
            tdc: text_field(j.field(10, "TDC")),
            asic_temperature: text_field(j.field(11, "ASIC_TEMPERATURE")),
            vreg_temperature: text_field(j.field(12, "VREG_TEMPERATURE")),
            board_temperature: text_field(j.field(13, "BOARD_TEMPERATURE")),
            eth_fw_version: text_field(j.field(14, "ETH_FW_VERSION")),
            dm_app_fw_version: text_field(j.field(15, "DM_APP_FW_VERSION")),
            dm_bl_fw_version: text_field(j.field(16, "DM_BL_FW_VERSION")),
            cm_fw_version: text_field(j.field(17, "CM_FW_VERSION")),
            flash_bundle_version: text_field(j.field(18, "FLASH_BUNDLE_VERSION")),
            tt_flash_version: text_field(j.field(19, "TT_FLASH_VERSION")),
            fan_speed: text_field(j.field(20, "FAN_SPEED")),
            fan_rpm: text_field(j.field(21, "FAN_RPM")),
            pcie_usage: text_field(j.field(22, "PCIE_USAGE")),
            enabled_tensix_col: text_field(j.field(23, "ENABLED_TENSIX_COL")),
            board_power_limit: text_field(j.field(24, "BOARD_POWER_LIMIT")),
            therm_trip_count: text_field(j.field(25, "THERM_TRIP_COUNT")),
            vdd_limits: text_field(j.field(26, "VDD_LIMITS")),
            thm_limit_shutdown: text_field(j.field(27, "THM_LIMIT_SHUTDOWN")),
            gddr_0_1_temp: text_field(j.field(28, "GDDR_0_1_TEMP")),
            gddr_2_3_temp: text_field(j.field(29, "GDDR_2_3_TEMP")),
            gddr_4_5_temp: text_field(j.field(30, "GDDR_4_5_TEMP")),
            gddr_6_7_temp: text_field(j.field(31, "GDDR_6_7_TEMP")),
            max_gddr_temp: text_field(j.field(32, "MAX_GDDR_TEMP")),
            gddr_0_1_corr_errs: text_field(j.field(33, "GDDR_0_1_CORR_ERRS")),
            gddr_2_3_corr_errs: text_field(j.field(34, "GDDR_2_3_CORR_ERRS")),
            gddr_4_5_corr_errs: text_field(j.field(35, "GDDR_4_5_CORR_ERRS")),
            gddr_6_7_corr_errs: text_field(j.field(36, "GDDR_6_7_CORR_ERRS")),
            gddr_uncorr_errs: text_field(j.field(37, "GDDR_UNCORR_ERRS")),
            harvesting_state: text_field(j.field(38, "HARVESTING_STATE")),
            eth_live_status: text_field(j.field(39, "ETH_LIVE_STATUS")),
            enabled_eth: text_field(j.field(40, "ENABLED_ETH")),
            enabled_gddr: text_field(j.field(41, "ENABLED_GDDR")),
            enabled_l2cpu: text_field(j.field(42, "ENABLED_L2CPU")),
        },
    )
}

/// The fan text to keep: the first of the two that holds a real reading.
pub open spec fn fan_text(
    fan_speed: Option<Seq<char>>,
    fan_rpm: Option<Seq<char>>,
) -> Option<Seq<char>> {
    if fan_speed is Some && models::fan_reading(fan_speed->0) is Some {
        fan_speed
    } else if fan_rpm is Some && models::fan_reading(fan_rpm->0) is Some {
        fan_rpm
    } else {
        None
    }
}

/// Chooses between the two fan fields: the first that holds a real speed, as
/// the text that it came in.
pub fn pick_fan_field(fan_speed: Option<&str>, fan_rpm: Option<&str>) -> (r: Option<String>)
    ensures
        text::opt_text(r) == fan_text(opt_str(fan_speed), opt_str(fan_rpm)),
{
    if let Some(s) = fan_speed {
        if real_fan_rpm(s).is_some() {
            return Some(s.to_owned());
        }
    }
    if let Some(s) = fan_rpm {
        if real_fan_rpm(s).is_some() {
            return Some(s.to_owned());
        }
    }
    None
}

/// The view of an optional string slice.
pub open spec fn opt_str(s: Option<&str>) -> Option<Seq<char>> {
    match s {
        Some(t) => Some(t@),
        None => None,
    }
}

fn as_str(s: &Option<String>) -> (r: Option<&str>)
    ensures
        opt_str(r) == text::opt_text(*s),
{
    match s {
        Some(t) => Some(t.as_str()),
        None => None,
    }
}

/// The board id: the two halves joined by a dash, or the one that is there.
pub open spec fn joined_board_id(
    high: Option<Seq<char>>,
    low: Option<Seq<char>>,
) -> Option<Seq<char>> {
    match (high, low) {
        (Some(h), Some(l)) => Some(h + seq!['-'] + l),
        (Some(h), None) => Some(h),
        (None, l) => l,
    }
}

fn join_board_id(high: Option<String>, low: Option<String>) -> (r: Option<String>)
    ensures
        text::opt_text(r) == joined_board_id(text::opt_text(high), text::opt_text(low)),
{
    match (high, low) {
        (Some(h), Some(l)) => {
            let mut s = h;
            s.push('-');
            s.append(l.as_str());
            assert(s@ =~= h@ + seq!['-'] + l@);
            Some(s)
        },
        (Some(h), None) => Some(h),
        (None, l) => l,
    }
}

/// The decimal text of an optional number.
pub open spec fn opt_decimal(n: Option<nat>) -> Option<Seq<char>> {
    match n {
        Some(v) => Some(text::decimal(v)),
        None => None,
    }
}

/// The degrees of an optional register, in millidegrees.
pub open spec fn opt_millidegrees(n: Option<nat>) -> Option<nat> {
    match n {
        Some(v) => Some(v * 1000),
        None => None,
    }
}

fn register32(s: &Option<String>) -> (n: Option<u32>)
    ensures
        models::opt_nat32(n) == models::opt_register(text::opt_text(*s), u32::MAX as nat),
{
    match s {
        Some(t) => parse_hex_or_dec(t.as_str()),
        None => None,
    }
}

fn register64(s: &Option<String>) -> (n: Option<u64>)
    ensures
        text::opt_nat(n) == models::opt_register(text::opt_text(*s), u64::MAX as nat),
{
    match s {
        Some(t) => parse_hex_or_dec_64(t.as_str()),
        None => None,
    }
}

fn millidegrees(s: &Option<String>) -> (n: Option<u64>)
    ensures
        text::opt_nat(n) == opt_millidegrees(
            models::opt_register(text::opt_text(*s), u32::MAX as nat),
        ),
{
    match register32(s) {
        Some(v) => Some(v as u64 * 1000),
        None => None,
    }
}

fn temps(s: &Option<String>) -> (p: Option<models::GddrTempPair>)
    ensures
        models::temps_match(p, text::opt_text(*s)),
{
    match s {
        Some(t) => unpack_gddr_temps(t.as_str()),
        None => None,
    }
}

/// Whether `s` is the SMBUS telemetry that the registers `j` give.
pub open spec fn smbus_built(s: SmbusTelemetry, j: SmbusTelemetryJSON) -> bool {
    &&& text::opt_text(s.board_id) == joined_board_id(
        text::opt_text(j.board_id_high),
        text::opt_text(j.board_id_low),
    )
    &&& s.ddr_status == j.ddr_status
    &&& s.ddr_speed == j.ddr_speed
    &&& s.arc0_health == j.timer_heartbeat
    &&& s.aiclk == j.aiclk
    &&& s.axiclk == j.axiclk
    &&& s.arcclk == j.arcclk
    &&& s.vcore == j.vcore
    &&& s.tdp == j.tdp
    &&& s.tdc == j.tdc
    &&& s.asic_temperature == j.asic_temperature
    &&& s.vreg_temperature == j.vreg_temperature
    &&& s.board_temperature == j.board_temperature
    &&& s.eth_fw_version == j.eth_fw_version
    &&& s.m3_app_fw_version == j.dm_app_fw_version
    &&& s.m3_bl_fw_version == j.dm_bl_fw_version
    &&& s.tt_flash_version == j.tt_flash_version
    &&& s.pcie_status == j.pcie_usage
    &&& s.board_power_limit == j.board_power_limit
    &&& s.therm_trip_count == j.therm_trip_count
    &&& s.vdd_limits == j.vdd_limits
    &&& text::opt_text(s.fan_speed) == fan_text(
        text::opt_text(j.fan_speed),
        text::opt_text(j.fan_rpm),
    )
    &&& text::opt_text(s.thm_limits) == opt_decimal(
        models::opt_register(text::opt_text(j.thm_limit_shutdown), u32::MAX as nat),
    )
    &&& text::opt_nat(s.max_gddr_temp) == opt_millidegrees(
        models::opt_register(text::opt_text(j.max_gddr_temp), u32::MAX as nat),
    )
    &&& text::opt_nat(s.eth_live_status) == models::opt_register(
        text::opt_text(j.eth_live_status),
        u64::MAX as nat,
    )
    &&& models::opt_nat32(s.gddr_uncorr_errs) == models::opt_register(text::opt_text(j.gddr_uncorr_errs), u32::MAX as nat)
    &&& models::opt_nat32(s.harvesting_state) == models::opt_register(text::opt_text(j.harvesting_state), u32::MAX as nat)
    &&& models::opt_nat32(s.enabled_eth) == models::opt_register(text::opt_text(j.enabled_eth), u32::MAX as nat)
    &&& models::opt_nat32(s.enabled_gddr) == models::opt_register(text::opt_text(j.enabled_gddr), u32::MAX as nat)
    &&& models::opt_nat32(s.enabled_l2cpu) == models::opt_register(text::opt_text(j.enabled_l2cpu), u32::MAX as nat)
    &&& models::opt_nat32(s.enabled_tensix_col) == models::opt_register(text::opt_text(j.enabled_tensix_col), u32::MAX as nat)
    &&& models::temps_match(s.gddr_temps@[0], text::opt_text(j.gddr_0_1_temp))
    &&& models::opt_nat32(s.gddr_corr_errs@[0]) == models::opt_register(text::opt_text(j.gddr_0_1_corr_errs), u32::MAX as nat)
    &&& models::temps_match(s.gddr_temps@[1], text::opt_text(j.gddr_2_3_temp))
    &&& models::opt_nat32(s.gddr_corr_errs@[1]) == models::opt_register(text::opt_text(j.gddr_2_3_corr_errs), u32::MAX as nat)
    &&& models::temps_match(s.gddr_temps@[2], text::opt_text(j.gddr_4_5_temp))
    &&& models::opt_nat32(s.gddr_corr_errs@[2]) == models::opt_register(text::opt_text(j.gddr_4_5_corr_errs), u32::MAX as nat)
    &&& models::temps_match(s.gddr_temps@[3], text::opt_text(j.gddr_6_7_temp))
    &&& models::opt_nat32(s.gddr_corr_errs@[3]) == models::opt_register(text::opt_text(j.gddr_6_7_corr_errs), u32::MAX as nat)
    &&& s.enum_version is None
    &&& s.device_id is None
    &&& s.arc1_health is None
    &&& s.arc2_health is None
    &&& s.arc3_health is None
    &&& s.arc0_fw_version is None
    &&& s.arc1_fw_version is None
    &&& s.arc2_fw_version is None
    &&& s.arc3_fw_version is None
    &&& s.spibootrom_fw_version is None
    &&& s.throttler is None
    &&& s.faults is None
    &&& s.eth_status0 is None
    &&& s.eth_status1 is None
    &&& s.input_power is None
    &&& s.boot_date is None
    &&& s.rt_seconds is None
    &&& s.wh_fw_date is None
    &&& s.asic_tmon0 is None
    &&& s.asic_tmon1 is None
    &&& s.mvddq_power is None
    &&& s.gddr_train_temp0 is None
    &&& s.gddr_train_temp1 is None
    &&& s.aux_status is None
    &&& s.eth_debug_status0 is None
    &&& s.eth_debug_status1 is None
    &&& s.gddr_telemetry is None
}

/// Builds the SMBUS telemetry of a device from its registers.
pub fn smbus_from_json_fields(smbus_json: SmbusTelemetryJSON) -> (s: SmbusTelemetry)
    ensures
        smbus_built(s, smbus_json),
{
    let fan_speed = pick_fan_field(as_str(&smbus_json.fan_speed), as_str(&smbus_json.fan_rpm));
    let thm_limits = match register32(&smbus_json.thm_limit_shutdown) {
        Some(v) => Some(decimal_text(v as u64)),
        None => None,
    };
    SmbusTelemetry {
        board_id: join_board_id(smbus_json.board_id_high, smbus_json.board_id_low),
        gddr_uncorr_errs: register32(&smbus_json.gddr_uncorr_errs),
        harvesting_state: register32(&smbus_json.harvesting_state),
        enabled_eth: register32(&smbus_json.enabled_eth),
        enabled_gddr: register32(&smbus_json.enabled_gddr),
        enabled_l2cpu: register32(&smbus_json.enabled_l2cpu),
        enabled_tensix_col: register32(&smbus_json.enabled_tensix_col),
        fan_speed,
        thm_limits,
        max_gddr_temp: millidegrees(&smbus_json.max_gddr_temp),
        eth_live_status: register64(&smbus_json.eth_live_status),
        gddr_temps: [
            temps(&smbus_json.gddr_0_1_temp),
            temps(&smbus_json.gddr_2_3_temp),
            temps(&smbus_json.gddr_4_5_temp),
            temps(&smbus_json.gddr_6_7_temp),
        ],
        gddr_corr_errs: [
            register32(&smbus_json.gddr_0_1_corr_errs),
            register32(&smbus_json.gddr_2_3_corr_errs),
            register32(&smbus_json.gddr_4_5_corr_errs),
            register32(&smbus_json.gddr_6_7_corr_errs),
        ],
        ddr_status: smbus_json.ddr_status,
        ddr_speed: smbus_json.ddr_speed,
        arc0_health: smbus_json.timer_heartbeat,
        aiclk: smbus_json.aiclk,
        axiclk: smbus_json.axiclk,
        arcclk: smbus_json.arcclk,
        vcore: smbus_json.vcore,
        tdp: smbus_json.tdp,
        tdc: smbus_json.tdc,
        asic_temperature: smbus_json.asic_temperature,
        vreg_temperature: smbus_json.vreg_temperature,
        board_temperature: smbus_json.board_temperature,
        eth_fw_version: smbus_json.eth_fw_version,
        m3_app_fw_version: smbus_json.dm_app_fw_version,
        m3_bl_fw_version: smbus_json.dm_bl_fw_version,
        tt_flash_version: smbus_json.tt_flash_version,
        pcie_status: smbus_json.pcie_usage,
        board_power_limit: smbus_json.board_power_limit,
        therm_trip_count: smbus_json.therm_trip_count,
        vdd_limits: smbus_json.vdd_limits,
        enum_version: None,
        device_id: None,
        arc1_health: None,
        arc2_health: None,
        arc3_health: None,
        arc0_fw_version: None,
        arc1_fw_version: None,
        arc2_fw_version: None,
        arc3_fw_version: None,
        spibootrom_fw_version: None,
        throttler: None,
        faults: None,
        eth_status0: None,
        eth_status1: None,
        input_power: None,
        boot_date: None,
        rt_seconds: None,
        wh_fw_date: None,
        asic_tmon0: None,
        asic_tmon1: None,
        mvddq_power: None,
        gddr_train_temp0: None,
        gddr_train_temp1: None,
        aux_status: None,
        eth_debug_status0: None,
        eth_debug_status1: None,
        gddr_telemetry: None,
    }
}

// Firmware versions, limits and processes

/// Whether a value is a firmware block: an object whose known members are
/// absent, null or texts.
pub open spec fn firmwares_ok(j: JsonView) -> bool {
    &&& j is Object
    &&& document::text_ok(document::member(j, "fw_bundle_version"@))
    &&& document::text_ok(document::member(j, "eth_fw"@))
    &&& document::text_ok(document::member(j, "cm_fw"@))
    &&& document::text_ok(document::member(j, "gddr_fw"@))
}

/// Whether an optional firmware block decodes to `f`.
pub open spec fn firmwares_match(f: Option<FirmwaresInfo>, j: Option<JsonView>) -> bool {
    match (f, j) {
        (Some(f), Some(j)) => {
            &&& firmwares_ok(j)
            &&& text::opt_text(f.fw_bundle_version) == document::text_of(
                document::member(j, "fw_bundle_version"@),
            )
            &&& text::opt_text(f.eth_fw) == document::text_of(document::member(j, "eth_fw"@))
            &&& text::opt_text(f.cm_fw) == document::text_of(document::member(j, "cm_fw"@))
            &&& text::opt_text(f.gddr_fw) == document::text_of(document::member(j, "gddr_fw"@))
        },
        (None, Some(j)) => !firmwares_ok(j),
        (None, None) => true,
        (Some(_), None) => false,
    }
}

/// Decodes a firmware block; one of another shape counts as absent.
pub fn decode_firmwares(j: Option<&Json>) -> (r: Option<FirmwaresInfo>)
    ensures
        firmwares_match(r, document::opt_json(j)),
{
    let j = match j {
        Some(v) => v,
        None => {
            return None;
        },
    };
    let is_object = match j {
        Json::Object(_) => true,
        _ => false,
    };
    if is_object && is_text_field(j.get("fw_bundle_version")) && is_text_field(j.get("eth_fw"))
        && is_text_field(j.get("cm_fw")) && is_text_field(j.get("gddr_fw")) {
        Some(
            FirmwaresInfo {
                fw_bundle_version: text_field(j.get("fw_bundle_version")),
                eth_fw: text_field(j.get("eth_fw")),
                cm_fw: text_field(j.get("cm_fw")),
                gddr_fw: text_field(j.get("gddr_fw")),
            },
        )
    } else {
        None
    }
}

/// The thermal limit of a limits block: the throttle point where it is
/// reported, and otherwise the plain limit.
pub open spec fn thermal_limit(j: JsonView) -> Option<Seq<char>> {
    let throttle = document::reading_of(document::member(j, "therm_trip_l1_limit"@));
    if throttle is Some {
        throttle
    } else {
        document::reading_of(document::member(j, "thm_limit"@))
    }
}

/// Whether an optional limits block decodes to `l`.
pub open spec fn limits_match(l: Option<DeviceLimits>, j: Option<JsonView>) -> bool {
    match (l, j) {
        (Some(l), Some(j)) => {
            &&& j is Object
            &&& text::opt_text(l.tdp_limit) == document::reading_of(
                document::member(j, "tdp_limit"@),
            )
            &&& text::opt_text(l.tdc_limit) == document::reading_of(
                document::member(j, "tdc_limit"@),
            )
            &&& models::opt_nat32(l.asic_fmax) == document::count_of(
                document::member(j, "asic_fmax"@),
                u32::MAX as nat,
            )
            &&& text::opt_text(l.thm_limit) == thermal_limit(j)
        },
        (None, Some(j)) => !(j is Object),
        (None, None) => true,
        (Some(_), None) => false,
    }
}

/// Decodes a limits block; one of another shape counts as absent.
pub fn decode_limits(j: Option<&Json>) -> (r: Option<DeviceLimits>)
    ensures
        limits_match(r, document::opt_json(j)),
{
    match j {
        Some(j) => match j {
            Json::Object(_) => {
                let throttle = reading_field(j.get("therm_trip_l1_limit"));
                let thm_limit = if throttle.is_some() {
                    throttle
                } else {
                    reading_field(j.get("thm_limit"))
                };
                Some(
                    DeviceLimits {
                        tdp_limit: reading_field(j.get("tdp_limit")),
                        tdc_limit: reading_field(j.get("tdc_limit")),
                        asic_fmax: count32(j.get("asic_fmax")),
                        thm_limit,
                    },
                )
            },
            _ => None,
        },
        None => None,
    }
}

/// Whether a value is a process row: an object whose user and command line
/// are absent, null or texts.
pub open spec fn process_ok(j: JsonView) -> bool {
    &&& j is Object
    &&& document::text_ok(document::member(j, "user"@))
    &&& document::text_ok(document::member(j, "cmdline"@))
}

/// The view of an optional index.
pub open spec fn opt_index(n: Option<usize>) -> Option<nat> {
    match n {
        Some(v) => Some(v as nat),
        None => None,
    }
}

/// Whether a process row decodes to `p`.
pub open spec fn process_matches(p: DeviceProcess, j: JsonView) -> bool {
    &&& text::opt_int(p.pid) == document::signed_of(document::member(j, "pid"@))
    &&& text::opt_text(p.user) == document::text_of(document::member(j, "user"@))
    &&& opt_index(p.device) == document::count_of(
        document::member(j, "device"@),
        usize::MAX as nat,
    )
    &&& text::opt_text(p.cmdline) == document::text_of(document::member(j, "cmdline"@))
}

fn decode_process(j: &Json) -> (r: Option<DeviceProcess>)
    ensures
        r is Some <==> process_ok(j@),
        r matches Some(p) ==> process_matches(p, j@),
{
    let is_object = match j {
        Json::Object(_) => true,
        _ => false,
    };
    if is_object && is_text_field(j.get("user")) && is_text_field(j.get("cmdline")) {
        Some(
            DeviceProcess {
                pid: signed_field(j.get("pid")),
                user: text_field(j.get("user")),
                device: match count_field(j.get("device"), usize::MAX as u64) {
                    Some(v) => Some(v as usize),
                    None => None,
                },
                cmdline: text_field(j.get("cmdline")),
            },
        )
    } else {
        None
    }
}

/// The rows among the first `n` elements of `rows` that decode.
pub open spec fn good_rows(rows: Seq<JsonView>, n: nat) -> Seq<JsonView>
    decreases n,
{
    if n == 0 {
        Seq::empty()
    } else {
        let before = good_rows(rows, (n - 1) as nat);
        if process_ok(rows[n - 1]) {
            before.push(rows[n - 1])
        } else {
            before
        }
    }
}

/// The process rows of a `processes` block: those of an array that decode,
/// and none of anything else.
pub open spec fn process_rows(f: Option<JsonView>) -> Seq<JsonView> {
    match f {
        Some(JsonView::Array(rows)) => good_rows(rows, rows.len()),
        _ => Seq::empty(),
    }
}

/// Whether each process is what its row decodes to.
pub open spec fn processes_match(ps: Seq<DeviceProcess>, rows: Seq<JsonView>) -> bool {
    &&& ps.len() == rows.len()
    &&& forall|i: int| 0 <= i < ps.len() ==> process_matches(#[trigger] ps[i], rows[i])
}

/// Decodes a `processes` block row by row; a row of an unexpected shape is
/// skipped, and so is a block that is no array.
pub fn decode_processes(value: Option<&Json>) -> (ps: Vec<DeviceProcess>)
    ensures
        processes_match(ps@, process_rows(document::opt_json(value))),
{
    let mut out: Vec<DeviceProcess> = Vec::new();
    if let Some(Json::Array(rows)) = value {
        let ghost view = Json::Array(*rows)@->Array_0;
        proof {
            document::lemma_array_view(*rows);
        }
        for i in 0..rows.len()
            invariant
                view.len() == rows@.len(),
                forall|k: int| 0 <= k < rows@.len() ==> #[trigger] view[k] == rows@[k]@,
                processes_match(out@, good_rows(view, i as nat)),
        {
            assert(view[i as int] == rows@[i as int]@);
            if let Some(p) = decode_process(&rows[i]) {
                out.push(p);
            }
        }
    }
    out
}

/// Whether `t` is the telemetry that a block gives at a time.
pub open spec fn telemetry_built(t: Telemetry, j: TelemetryJSON, now_ms: i64) -> bool {
    t == (Telemetry {
        voltage: j.voltage,
        current: j.current,
        power: j.power,
        asic_temperature: j.asic_temperature,
        aiclk: j.aiclk,
        heartbeat: j.heartbeat,
        timestamp_ms: now_ms,
        board_power: j.board_power,
    })
}

/// Turns a telemetry block into a reading taken at the given time.
pub fn telemetry_from_json(telem_json: TelemetryJSON, now_ms: i64) -> (t: Telemetry)
    ensures
        telemetry_built(t, telem_json, now_ms),
{
    Telemetry {
        voltage: telem_json.voltage,
        current: telem_json.current,
        power: telem_json.power,
        asic_temperature: telem_json.asic_temperature,
        aiclk: telem_json.aiclk,
        heartbeat: telem_json.heartbeat,
        timestamp_ms: now_ms,
        board_power: telem_json.board_power,
    }
}

// What a block gives, by the names of its members

/// A telemetry block is served member by member, each under its own name; in a
/// block that is an array the places stand for the names.
pub proof fn law_telemetry_is_served_by_name(
    t: Telemetry,
    b: TelemetryJSON,
    j: JsonView,
    now_ms: i64,
)
    requires
        telemetry_matches(b, j),
        telemetry_built(t, b, now_ms),
    ensures
        j is Object ==> {
            &&& text::opt_text(t.voltage) == document::reading_of(document::member(j, "voltage"@))
            &&& text::opt_text(t.current) == document::reading_of(document::member(j, "current"@))
            &&& text::opt_text(t.power) == document::reading_of(document::member(j, "power"@))
            &&& text::opt_text(t.asic_temperature) == document::reading_of(document::member(j, "asic_temperature"@))
            &&& models::opt_nat32(t.aiclk) == document::count_of(
                document::member(j, "aiclk"@),
                u32::MAX as nat,
            )
            &&& models::opt_nat32(t.heartbeat) == document::count_of(
                document::member(j, "heartbeat"@),
                u32::MAX as nat,
            )
            &&& text::opt_text(t.board_power) == document::reading_of(document::member(j, "board_power"@))
        },
        j is Array && j->Array_0.len() == 7 ==> {
            &&& text::opt_text(t.voltage) == document::reading_of(Some(j->Array_0[0]))
            &&& text::opt_text(t.current) == document::reading_of(Some(j->Array_0[1]))
            &&& text::opt_text(t.power) == document::reading_of(Some(j->Array_0[2]))
            &&& text::opt_text(t.asic_temperature) == document::reading_of(Some(j->Array_0[3]))
            &&& models::opt_nat32(t.aiclk) == document::count_of(
                Some(j->Array_0[4]),
                u32::MAX as nat,
            )
            &&& models::opt_nat32(t.heartbeat) == document::count_of(
                Some(j->Array_0[5]),
                u32::MAX as nat,
            )
            &&& text::opt_text(t.board_power) == document::reading_of(Some(j->Array_0[6]))
        },
        t.timestamp_ms == now_ms,
{
}

/// A SMBUS block is served register by register, each under its own name. The
/// board id is made of its two halves, the fan is the first of its two registers
/// that holds a speed, the memory temperatures are unpacked byte by byte, and
/// counts and masks are the numbers that their registers hold.
pub proof fn law_smbus_is_served_by_name(s: SmbusTelemetry, b: SmbusTelemetryJSON, j: JsonView)
    requires
        smbus_matches(b, j),
        smbus_built(s, b),
        j is Object,
    ensures
        text::opt_text(s.ddr_status) == document::text_of(document::member(j, "DDR_STATUS"@)),
        text::opt_text(s.ddr_speed) == document::text_of(document::member(j, "DDR_SPEED"@)),
        text::opt_text(s.arc0_health) == document::text_of(document::member(j, "TIMER_HEARTBEAT"@)),
        text::opt_text(s.aiclk) == document::text_of(document::member(j, "AICLK"@)),
        text::opt_text(s.axiclk) == document::text_of(document::member(j, "AXICLK"@)),
        text::opt_text(s.arcclk) == document::text_of(document::member(j, "ARCCLK"@)),
        text::opt_text(s.vcore) == document::text_of(document::member(j, "VCORE"@)),
        text::opt_text(s.tdp) == document::text_of(document::member(j, "TDP"@)),
        text::opt_text(s.tdc) == document::text_of(document::member(j, "TDC"@)),
        text::opt_text(s.asic_temperature) == document::text_of(document::member(j, "ASIC_TEMPERATURE"@)),
        text::opt_text(s.vreg_temperature) == document::text_of(document::member(j, "VREG_TEMPERATURE"@)),
        text::opt_text(s.board_temperature) == document::text_of(document::member(j, "BOARD_TEMPERATURE"@)),
        text::opt_text(s.eth_fw_version) == document::text_of(document::member(j, "ETH_FW_VERSION"@)),
        text::opt_text(s.m3_app_fw_version) == document::text_of(document::member(j, "DM_APP_FW_VERSION"@)),
        text::opt_text(s.m3_bl_fw_version) == document::text_of(document::member(j, "DM_BL_FW_VERSION"@)),
        text::opt_text(s.tt_flash_version) == document::text_of(document::member(j, "TT_FLASH_VERSION"@)),
        text::opt_text(s.pcie_status) == document::text_of(document::member(j, "PCIE_USAGE"@)),
        text::opt_text(s.board_power_limit) == document::text_of(document::member(j, "BOARD_POWER_LIMIT"@)),
        text::opt_text(s.therm_trip_count) == document::text_of(document::member(j, "THERM_TRIP_COUNT"@)),
        text::opt_text(s.vdd_limits) == document::text_of(document::member(j, "VDD_LIMITS"@)),
        models::opt_nat32(s.gddr_uncorr_errs) == models::opt_register(
            document::text_of(document::member(j, "GDDR_UNCORR_ERRS"@)),
            u32::MAX as nat,
        ),
        models::opt_nat32(s.harvesting_state) == models::opt_register(
            document::text_of(document::member(j, "HARVESTING_STATE"@)),
            u32::MAX as nat,
        ),
        models::opt_nat32(s.enabled_eth) == models::opt_register(
            document::text_of(document::member(j, "ENABLED_ETH"@)),
            u32::MAX as nat,
        ),
        models::opt_nat32(s.enabled_gddr) == models::opt_register(
            document::text_of(document::member(j, "ENABLED_GDDR"@)),
            u32::MAX as nat,
        ),
        models::opt_nat32(s.enabled_l2cpu) == models::opt_register(
            document::text_of(document::member(j, "ENABLED_L2CPU"@)),
            u32::MAX as nat,
        ),
        models::opt_nat32(s.enabled_tensix_col) == models::opt_register(
            document::text_of(document::member(j, "ENABLED_TENSIX_COL"@)),
            u32::MAX as nat,
        ),
        text::opt_nat(s.eth_live_status) == models::opt_register(
            document::text_of(document::member(j, "ETH_LIVE_STATUS"@)),
            u64::MAX as nat,
        ),
        match (
            document::text_of(document::member(j, "BOARD_ID_HIGH"@)),
            document::text_of(document::member(j, "BOARD_ID_LOW"@)),
        ) {
            (Some(high), Some(low)) => s.board_id matches Some(id) && id@ == high + "-"@ + low,
            (Some(high), None) => s.board_id matches Some(id) && id@ == high,
            (None, Some(low)) => s.board_id matches Some(id) && id@ == low,
            (None, None) => s.board_id is None,
        },
        match (
            document::text_of(document::member(j, "FAN_SPEED"@)),
            document::text_of(document::member(j, "FAN_RPM"@)),
        ) {
            (Some(fan), _) if models::fan_reading(fan) is Some => text::opt_text(s.fan_speed)
                == Some(fan),
            (_, Some(rpm)) if models::fan_reading(rpm) is Some => text::opt_text(s.fan_speed)
                == Some(rpm),
            _ => s.fan_speed is None,
        },
        match models::opt_register(
            document::text_of(document::member(j, "THM_LIMIT_SHUTDOWN"@)),
            u32::MAX as nat,
        ) {
            Some(c) => s.thm_limits matches Some(l) && l@ == text::decimal(c),
            None => s.thm_limits is None,
        },
        match models::opt_register(
            document::text_of(document::member(j, "MAX_GDDR_TEMP"@)),
            u32::MAX as nat,
        ) {
            Some(c) => s.max_gddr_temp matches Some(mc) && mc == c * 1000,
            None => s.max_gddr_temp is None,
        },
        match models::opt_register(
            document::text_of(document::member(j, "GDDR_0_1_TEMP"@)),
            u32::MAX as nat,
        ) {
            Some(word) => s.gddr_temps@[0] matches Some(p) && {
                &&& p.0@[0] == (word % 256) * 1000
                &&& p.0@[1] == ((word / 256) % 256) * 1000
                &&& p.0@[2] == ((word / 65536) % 256) * 1000
                &&& p.0@[3] == ((word / 16777216) % 256) * 1000
            },
            None => s.gddr_temps@[0] is None,
        },
        models::opt_nat32(s.gddr_corr_errs@[0]) == models::opt_register(
            document::text_of(document::member(j, "GDDR_0_1_CORR_ERRS"@)),
            u32::MAX as nat,
        ),
        match models::opt_register(
            document::text_of(document::member(j, "GDDR_2_3_TEMP"@)),
            u32::MAX as nat,
        ) {
            Some(word) => s.gddr_temps@[1] matches Some(p) && {
                &&& p.0@[0] == (word % 256) * 1000
                &&& p.0@[1] == ((word / 256) % 256) * 1000
                &&& p.0@[2] == ((word / 65536) % 256) * 1000
                &&& p.0@[3] == ((word / 16777216) % 256) * 1000
            },
            None => s.gddr_temps@[1] is None,
        },
        models::opt_nat32(s.gddr_corr_errs@[1]) == models::opt_register(
            document::text_of(document::member(j, "GDDR_2_3_CORR_ERRS"@)),
            u32::MAX as nat,
        ),
        match models::opt_register(
            document::text_of(document::member(j, "GDDR_4_5_TEMP"@)),
            u32::MAX as nat,
        ) {
            Some(word) => s.gddr_temps@[2] matches Some(p) && {
                &&& p.0@[0] == (word % 256) * 1000
                &&& p.0@[1] == ((word / 256) % 256) * 1000
                &&& p.0@[2] == ((word / 65536) % 256) * 1000
                &&& p.0@[3] == ((word / 16777216) % 256) * 1000
            },
            None => s.gddr_temps@[2] is None,
        },
        models::opt_nat32(s.gddr_corr_errs@[2]) == models::opt_register(
            document::text_of(document::member(j, "GDDR_4_5_CORR_ERRS"@)),
            u32::MAX as nat,
        ),
        match models::opt_register(
            document::text_of(document::member(j, "GDDR_6_7_TEMP"@)),
            u32::MAX as nat,
        ) {
            Some(word) => s.gddr_temps@[3] matches Some(p) && {
                &&& p.0@[0] == (word % 256) * 1000
                &&& p.0@[1] == ((word / 256) % 256) * 1000
                &&& p.0@[2] == ((word / 65536) % 256) * 1000
                &&& p.0@[3] == ((word / 16777216) % 256) * 1000
            },
            None => s.gddr_temps@[3] is None,
        },
        models::opt_nat32(s.gddr_corr_errs@[3]) == models::opt_register(
            document::text_of(document::member(j, "GDDR_6_7_CORR_ERRS"@)),
            u32::MAX as nat,
        ),
{
    reveal_strlit("-");
    assert("-"@ =~= seq!['-']);
}

/// The firmware versions are those of the members of the same names.
pub proof fn law_firmwares_are_served_by_name(f: Option<FirmwaresInfo>, j: JsonView)
    requires
        firmwares_match(f, Some(j)),
    ensures
        f is Some <==> j is Object && document::text_ok(document::member(j, "fw_bundle_version"@))
            && document::text_ok(document::member(j, "eth_fw"@)) && document::text_ok(
            document::member(j, "cm_fw"@),
        ) && document::text_ok(document::member(j, "gddr_fw"@)),
        f matches Some(f) ==> {
            &&& text::opt_text(f.fw_bundle_version) == document::text_of(
                document::member(j, "fw_bundle_version"@),
            )
            &&& text::opt_text(f.eth_fw) == document::text_of(document::member(j, "eth_fw"@))
            &&& text::opt_text(f.cm_fw) == document::text_of(document::member(j, "cm_fw"@))
            &&& text::opt_text(f.gddr_fw) == document::text_of(document::member(j, "gddr_fw"@))
        },
{
}

/// The limits are those of the members of the same names; the throttle point
/// stands for the thermal limit where it is reported.
pub proof fn law_limits_are_served_by_name(l: Option<DeviceLimits>, j: JsonView)
    requires
        limits_match(l, Some(j)),
    ensures
        l is Some <==> j is Object,
        l matches Some(l) ==> {
            &&& text::opt_text(l.tdp_limit) == document::reading_of(
                document::member(j, "tdp_limit"@),
            )
            &&& text::opt_text(l.tdc_limit) == document::reading_of(
                document::member(j, "tdc_limit"@),
            )
            &&& models::opt_nat32(l.asic_fmax) == document::count_of(
                document::member(j, "asic_fmax"@),
                u32::MAX as nat,
            )
            &&& document::reading_of(document::member(j, "therm_trip_l1_limit"@)) is Some
                ==> text::opt_text(l.thm_limit) == document::reading_of(
                document::member(j, "therm_trip_l1_limit"@),
            )
            &&& document::reading_of(document::member(j, "therm_trip_l1_limit"@)) is None
                ==> text::opt_text(l.thm_limit) == document::reading_of(
                document::member(j, "thm_limit"@),
            )
        },
{
}

proof fn lemma_good_rows(rows: Seq<JsonView>, n: nat)
    requires
        n <= rows.len(),
    ensures
        good_rows(rows, n) == rows.take(n as int).filter(|r: JsonView| process_ok(r)),
    decreases n,
{
    let keep = |r: JsonView| process_ok(r);
    if n == 0 {
        assert(rows.take(0) =~= Seq::<JsonView>::empty());
        reveal(Seq::filter);
    } else {
        lemma_good_rows(rows, (n - 1) as nat);
        assert(rows.take(n as int).drop_last() =~= rows.take(n - 1));
        reveal(Seq::filter);
    }
}

/// The processes are the rows of the array that are objects with texts, or
/// nothing, for their user and command line, in their order; each is what the
/// members of its row say.
pub proof fn law_processes_are_served_by_name(ps: Seq<DeviceProcess>, rows: Seq<JsonView>)
    requires
        processes_match(ps, process_rows(Some(JsonView::Array(rows)))),
    ensures
        ({
            let good = rows.filter(
                |r: JsonView|
                    r is Object && document::text_ok(document::member(r, "user"@))
                        && document::text_ok(document::member(r, "cmdline"@)),
            );
            &&& ps.len() == good.len()
            &&& forall|i: int|
                0 <= i < ps.len() ==> {
                    &&& text::opt_int((#[trigger] ps[i]).pid) == document::signed_of(
                        document::member(good[i], "pid"@),
                    )
                    &&& text::opt_text(ps[i].user) == document::text_of(
                        document::member(good[i], "user"@),
                    )
                    &&& opt_index(ps[i].device) == document::count_of(
                        document::member(good[i], "device"@),
                        usize::MAX as nat,
                    )
                    &&& text::opt_text(ps[i].cmdline) == document::text_of(
                        document::member(good[i], "cmdline"@),
                    )
                }
        }),
{
    lemma_good_rows(rows, rows.len());
    assert(rows.take(rows.len() as int) =~= rows);
    let keep = |r: JsonView| process_ok(r);
    let named = |r: JsonView|
        r is Object && document::text_ok(document::member(r, "user"@)) && document::text_ok(
            document::member(r, "cmdline"@),
        );
    assert(keep =~= named);
}

} // verus!
