//! Data model of the Prostar MPPT charge controller: the statistics
//! snapshot produced each tick, the writable settings record, the coil
//! registers, and the per-field combine rules used by windowed aggregation.
//!
//! Analog quantities are carried as signed integers in milli-units of the
//! base SI unit (millivolts, milliamperes, milli-degrees-Celsius, and so
//! on); timestamps are milliseconds since the Unix epoch. The hardware
//! reports each analog register as a half-precision float, so milli-unit
//! integers lose nothing.

use vstd::prelude::*;

verus! {

/// Integer maximum.
pub open spec fn imax(a: int, b: int) -> int {
    if a >= b { a } else { b }
}

/// Integer minimum.
pub open spec fn imin(a: int, b: int) -> int {
    if a <= b { a } else { b }
}

/// The rolling mid-point used by the `avg` combine rule: the sum halved,
/// rounded toward zero. It leans toward later samples; it is not a true
/// mean over the window.
pub open spec fn midpoint(a: int, b: int) -> int {
    if a + b >= 0 { (a + b) / 2 } else { -((-(a + b)) / 2) }
}

/// Exec maximum on i64.
pub fn max_i64(a: i64, b: i64) -> (r: i64)
    ensures r == imax(a as int, b as int),
{
    if a >= b { a } else { b }
}

/// Exec minimum on i64.
pub fn min_i64(a: i64, b: i64) -> (r: i64)
    ensures r == imin(a as int, b as int),
{
    if a <= b { a } else { b }
}

/// Exec maximum on u16.
pub fn max_u16(a: u16, b: u16) -> (r: u16)
    ensures r == imax(a as int, b as int),
{
    if a >= b { a } else { b }
}

/// Exec maximum on u32.
pub fn max_u32(a: u32, b: u32) -> (r: u32)
    ensures r == imax(a as int, b as int),
{
    if a >= b { a } else { b }
}

/// The rolling mid-point of two samples, exact on the full i64 range.
pub fn mid_i64(a: i64, b: i64) -> (r: i64)
    ensures r == midpoint(a as int, b as int),
{
    let s: i128 = a as i128 + b as i128;
    if s >= 0 {
        (s / 2) as i64
    } else {
        (-((-s) / 2)) as i64
    }
}

/// Charging stage reported by the controller. The declaration order gives
/// each known stage its rank; an unrecognized register value ranks below
/// every known stage, as the register ordering has it.
#[derive(Debug, Clone, Copy, PartialEq, Eq, Structural)]
pub enum ChargeState {
    UnknownState(u16),
    Start,
    NightCheck,
    Disconnect,
    Night,
    Fault,
    BulkMPPT,
    Absorption,
    Float,
    Equalize,
    Slave,
    Fixed,
}

/// Load stage reported by the controller, ranked like `ChargeState`.
#[derive(Debug, Clone, Copy, PartialEq, Eq, Structural)]
pub enum LoadState {
    Unknown(u16),
    Start,
    LVDWarning,
    LVD,
    Fault,
    Disconnect,
    NormalOff,
    Override,
    Normal,
    NotUsed,
}

/// Rank of a charge state: unknown register values sort below the known
/// stages, the known stages in declaration order.
pub open spec fn cs_rank(c: ChargeState) -> int {
    match c {
        ChargeState::UnknownState(i) => i as int,
        ChargeState::Start => 0x10000,
        ChargeState::NightCheck => 0x10001,
        ChargeState::Disconnect => 0x10002,
        ChargeState::Night => 0x10003,
        ChargeState::Fault => 0x10004,
        ChargeState::BulkMPPT => 0x10005,
        ChargeState::Absorption => 0x10006,
        ChargeState::Float => 0x10007,
        ChargeState::Equalize => 0x10008,
        ChargeState::Slave => 0x10009,
        ChargeState::Fixed => 0x1000a,
    }
}

/// Rank of a load state, as `cs_rank`.
pub open spec fn ls_rank(c: LoadState) -> int {
    match c {
        LoadState::Unknown(i) => i as int,
        LoadState::Start => 0x10000,
        LoadState::LVDWarning => 0x10001,
        LoadState::LVD => 0x10002,
        LoadState::Fault => 0x10003,
        LoadState::Disconnect => 0x10004,
        LoadState::NormalOff => 0x10005,
        LoadState::Override => 0x10006,
        LoadState::Normal => 0x10007,
        LoadState::NotUsed => 0x10008,
    }
}

/// The higher-ranked of two charge states.
pub open spec fn cs_max(a: ChargeState, b: ChargeState) -> ChargeState {
    if cs_rank(a) >= cs_rank(b) { a } else { b }
}

/// The higher-ranked of two load states.
pub open spec fn ls_max(a: LoadState, b: LoadState) -> LoadState {
    if ls_rank(a) >= ls_rank(b) { a } else { b }
}

fn cs_rank_exec(c: ChargeState) -> (r: u32)
    ensures r == cs_rank(c),
{
    match c {
        ChargeState::UnknownState(i) => i as u32,
        ChargeState::Start => 0x10000,
        ChargeState::NightCheck => 0x10001,
        ChargeState::Disconnect => 0x10002,
        ChargeState::Night => 0x10003,
        ChargeState::Fault => 0x10004,
        ChargeState::BulkMPPT => 0x10005,
        ChargeState::Absorption => 0x10006,
        ChargeState::Float => 0x10007,
        ChargeState::Equalize => 0x10008,
        ChargeState::Slave => 0x10009,
        ChargeState::Fixed => 0x1000a,
    }
}

fn ls_rank_exec(c: LoadState) -> (r: u32)
    ensures r == ls_rank(c),
{
    match c {
        LoadState::Unknown(i) => i as u32,
        LoadState::Start => 0x10000,
        LoadState::LVDWarning => 0x10001,
        LoadState::LVD => 0x10002,
        LoadState::Fault => 0x10003,
        LoadState::Disconnect => 0x10004,
        LoadState::NormalOff => 0x10005,
        LoadState::Override => 0x10006,
        LoadState::Normal => 0x10007,
        LoadState::NotUsed => 0x10008,
    }
}

/// The higher-ranked of two charge states, exec form.
pub fn cs_max_exec(a: ChargeState, b: ChargeState) -> (r: ChargeState)
    ensures r == cs_max(a, b),
{
    if cs_rank_exec(a) >= cs_rank_exec(b) { a } else { b }
}

/// The higher-ranked of two load states, exec form.
pub fn ls_max_exec(a: LoadState, b: LoadState) -> (r: LoadState)
    ensures r == ls_max(a, b),
{
    if ls_rank_exec(a) >= ls_rank_exec(b) { a } else { b }
}

/// The combine rule for the optional remote-temperature-sensor reading:
/// any present value is preserved; when both are present the larger wins.
pub open spec fn opt_max(a: Option<i64>, b: Option<i64>) -> Option<i64> {
    match (a, b) {
        (None, None) => None::<i64>,
        (Some(t), None) => Some(t),
        (None, Some(t)) => Some(t),
        (Some(t0), Some(t1)) => Some(imax(t0 as int, t1 as int) as i64),
    }
}

/// Single-bit coil registers of the controller.
#[derive(Debug, Clone, Copy, PartialEq, Eq, Structural)]
pub enum Coil {
    EqualizeTriggered,
    LoadDisconnect,
    ChargeDisconnect,
    ClearAhResettable,
    ClearAhTotal,
    ClearKwhResettable,
    ClearFaults,
    ClearAlarms,
    ForceEEPROMUpdate,
    ClearKwhTotal,
    ClearVbMinMax,
    LightingModeTest,
    FactoryReset,
    ResetControl,
}

/// One statistics snapshot read from the controller.
#[derive(Debug, Clone, Copy, PartialEq, Eq, Structural)]
pub struct Stats {
    pub timestamp: i64,
    pub software_version: u16,
    pub battery_voltage_settings_multiplier: u16,
    pub supply_3v3: i64,
    pub supply_12v: i64,
    pub supply_5v: i64,
    pub gate_drive_voltage: i64,
    pub battery_terminal_voltage: i64,
    pub array_voltage: i64,
    pub load_voltage: i64,
    pub charge_current: i64,
    pub array_current: i64,
    pub load_current: i64,
    pub battery_current_net: i64,
    pub battery_sense_voltage: i64,
    pub meterbus_voltage: i64,
    pub heatsink_temperature: i64,
    pub battery_temperature: i64,
    pub ambient_temperature: i64,
    pub rts_temperature: Option<i64>,
    pub u_inductor_temperature: i64,
    pub v_inductor_temperature: i64,
    pub w_inductor_temperature: i64,
    pub charge_state: ChargeState,
    pub array_faults: u16,
    pub battery_voltage_slow: i64,
    pub target_voltage: i64,
    pub ah_charge_resettable: i64,
    pub ah_charge_total: i64,
    pub kwh_charge_resettable: i64,
    pub kwh_charge_total: i64,
    pub load_state: LoadState,
    pub load_faults: u16,
    pub lvd_setpoint: i64,
    pub ah_load_resettable: i64,
    pub ah_load_total: i64,
    pub hourmeter: i64,
    pub alarms: u32,
    pub array_power: i64,
    pub array_vmp: i64,
    pub array_max_power_sweep: i64,
    pub array_voc: i64,
    pub battery_v_min_daily: i64,
    pub battery_v_max_daily: i64,
    pub ah_charge_daily: i64,
    pub ah_load_daily: i64,
    pub array_faults_daily: u16,
    pub load_faults_daily: u16,
    pub alarms_daily: u32,
    pub array_voltage_max_daily: i64,
    pub array_voltage_fixed: i64,
    pub array_voc_percent_fixed: i64,
}

/// The per-field combine rule of the aggregation accumulator: counters,
/// states, faults and daily maxima take the larger value, the daily
/// battery-voltage minimum takes the smaller, instantaneous electrical
/// readings take the rolling mid-point, and the optional remote sensor
/// keeps any present value.
pub open spec fn combine(a: Stats, b: Stats) -> Stats {
    Stats {
        timestamp: imax(a.timestamp as int, b.timestamp as int) as i64,
        software_version: imax(a.software_version as int, b.software_version as int) as u16,
        battery_voltage_settings_multiplier: imax(a.battery_voltage_settings_multiplier as int, b.battery_voltage_settings_multiplier as int) as u16,
        supply_3v3: midpoint(a.supply_3v3 as int, b.supply_3v3 as int) as i64,
        supply_12v: midpoint(a.supply_12v as int, b.supply_12v as int) as i64,
        supply_5v: midpoint(a.supply_5v as int, b.supply_5v as int) as i64,
        gate_drive_voltage: midpoint(a.gate_drive_voltage as int, b.gate_drive_voltage as int) as i64,
        battery_terminal_voltage: midpoint(a.battery_terminal_voltage as int, b.battery_terminal_voltage as int) as i64,
        array_voltage: midpoint(a.array_voltage as int, b.array_voltage as int) as i64,
        load_voltage: midpoint(a.load_voltage as int, b.load_voltage as int) as i64,
        charge_current: midpoint(a.charge_current as int, b.charge_current as int) as i64,
        array_current: midpoint(a.array_current as int, b.array_current as int) as i64,
        load_current: midpoint(a.load_current as int, b.load_current as int) as i64,
        battery_current_net: midpoint(a.battery_current_net as int, b.battery_current_net as int) as i64,
        battery_sense_voltage: midpoint(a.battery_sense_voltage as int, b.battery_sense_voltage as int) as i64,
        meterbus_voltage: midpoint(a.meterbus_voltage as int, b.meterbus_voltage as int) as i64,
        heatsink_temperature: imax(a.heatsink_temperature as int, b.heatsink_temperature as int) as i64,
        battery_temperature: imax(a.battery_temperature as int, b.battery_temperature as int) as i64,
        ambient_temperature: imax(a.ambient_temperature as int, b.ambient_temperature as int) as i64,
        rts_temperature: opt_max(a.rts_temperature, b.rts_temperature),
        u_inductor_temperature: imax(a.u_inductor_temperature as int, b.u_inductor_temperature as int) as i64,
        v_inductor_temperature: imax(a.v_inductor_temperature as int, b.v_inductor_temperature as int) as i64,
        w_inductor_temperature: imax(a.w_inductor_temperature as int, b.w_inductor_temperature as int) as i64,
        charge_state: cs_max(a.charge_state, b.charge_state),
        array_faults: imax(a.array_faults as int, b.array_faults as int) as u16,
        battery_voltage_slow: midpoint(a.battery_voltage_slow as int, b.battery_voltage_slow as int) as i64,
        target_voltage: midpoint(a.target_voltage as int, b.target_voltage as int) as i64,
        ah_charge_resettable: imax(a.ah_charge_resettable as int, b.ah_charge_resettable as int) as i64,
        ah_charge_total: imax(a.ah_charge_total as int, b.ah_charge_total as int) as i64,
        kwh_charge_resettable: imax(a.kwh_charge_resettable as int, b.kwh_charge_resettable as int) as i64,
        kwh_charge_total: imax(a.kwh_charge_total as int, b.kwh_charge_total as int) as i64,
        load_state: ls_max(a.load_state, b.load_state),
        load_faults: imax(a.load_faults as int, b.load_faults as int) as u16,
        lvd_setpoint: midpoint(a.lvd_setpoint as int, b.lvd_setpoint as int) as i64,
        ah_load_resettable: imax(a.ah_load_resettable as int, b.ah_load_resettable as int) as i64,
        ah_load_total: imax(a.ah_load_total as int, b.ah_load_total as int) as i64,
        hourmeter: imax(a.hourmeter as int, b.hourmeter as int) as i64,
        alarms: imax(a.alarms as int, b.alarms as int) as u32,
        array_power: midpoint(a.array_power as int, b.array_power as int) as i64,
        array_vmp: midpoint(a.array_vmp as int, b.array_vmp as int) as i64,
        array_max_power_sweep: midpoint(a.array_max_power_sweep as int, b.array_max_power_sweep as int) as i64,
        array_voc: midpoint(a.array_voc as int, b.array_voc as int) as i64,
        battery_v_min_daily: imin(a.battery_v_min_daily as int, b.battery_v_min_daily as int) as i64,
        battery_v_max_daily: imax(a.battery_v_max_daily as int, b.battery_v_max_daily as int) as i64,
        ah_charge_daily: imax(a.ah_charge_daily as int, b.ah_charge_daily as int) as i64,
        ah_load_daily: imax(a.ah_load_daily as int, b.ah_load_daily as int) as i64,
        array_faults_daily: imax(a.array_faults_daily as int, b.array_faults_daily as int) as u16,
        load_faults_daily: imax(a.load_faults_daily as int, b.load_faults_daily as int) as u16,
        alarms_daily: imax(a.alarms_daily as int, b.alarms_daily as int) as u32,
        array_voltage_max_daily: imax(a.array_voltage_max_daily as int, b.array_voltage_max_daily as int) as i64,
        array_voltage_fixed: midpoint(a.array_voltage_fixed as int, b.array_voltage_fixed as int) as i64,
        array_voc_percent_fixed: midpoint(a.array_voc_percent_fixed as int, b.array_voc_percent_fixed as int) as i64,
    }
}

/// Fold one further sample into the accumulated record, field by field.
pub fn accum(acc: &mut Stats, s: &Stats)
    ensures
        *final(acc) == combine(*old(acc), *s),
{
    acc.timestamp = max_i64(acc.timestamp, s.timestamp);
    acc.software_version = max_u16(acc.software_version, s.software_version);
    acc.battery_voltage_settings_multiplier = max_u16(acc.battery_voltage_settings_multiplier, s.battery_voltage_settings_multiplier);
    acc.supply_3v3 = mid_i64(acc.supply_3v3, s.supply_3v3);
    acc.supply_12v = mid_i64(acc.supply_12v, s.supply_12v);
    acc.supply_5v = mid_i64(acc.supply_5v, s.supply_5v);
    acc.gate_drive_voltage = mid_i64(acc.gate_drive_voltage, s.gate_drive_voltage);
    acc.battery_terminal_voltage = mid_i64(acc.battery_terminal_voltage, s.battery_terminal_voltage);
    acc.array_voltage = mid_i64(acc.array_voltage, s.array_voltage);
    acc.load_voltage = mid_i64(acc.load_voltage, s.load_voltage);
    acc.charge_current = mid_i64(acc.charge_current, s.charge_current);
    acc.array_current = mid_i64(acc.array_current, s.array_current);
    acc.load_current = mid_i64(acc.load_current, s.load_current);
    acc.battery_current_net = mid_i64(acc.battery_current_net, s.battery_current_net);
    acc.battery_sense_voltage = mid_i64(acc.battery_sense_voltage, s.battery_sense_voltage);
    acc.meterbus_voltage = mid_i64(acc.meterbus_voltage, s.meterbus_voltage);
    acc.heatsink_temperature = max_i64(acc.heatsink_temperature, s.heatsink_temperature);
    acc.battery_temperature = max_i64(acc.battery_temperature, s.battery_temperature);
    acc.ambient_temperature = max_i64(acc.ambient_temperature, s.ambient_temperature);
    acc.rts_temperature = match (acc.rts_temperature, s.rts_temperature) {
        (None, None) => None,
        (Some(t), None) => Some(t),
        (None, Some(t)) => Some(t),
        (Some(t0), Some(t1)) => Some(max_i64(t0, t1)),
    };
    acc.u_inductor_temperature = max_i64(acc.u_inductor_temperature, s.u_inductor_temperature);
    acc.v_inductor_temperature = max_i64(acc.v_inductor_temperature, s.v_inductor_temperature);
    acc.w_inductor_temperature = max_i64(acc.w_inductor_temperature, s.w_inductor_temperature);
    acc.charge_state = cs_max_exec(acc.charge_state, s.charge_state);
    acc.array_faults = max_u16(acc.array_faults, s.array_faults);
    acc.battery_voltage_slow = mid_i64(acc.battery_voltage_slow, s.battery_voltage_slow);
    acc.target_voltage = mid_i64(acc.target_voltage, s.target_voltage);
    acc.ah_charge_resettable = max_i64(acc.ah_charge_resettable, s.ah_charge_resettable);
    acc.ah_charge_total = max_i64(acc.ah_charge_total, s.ah_charge_total);
    acc.kwh_charge_resettable = max_i64(acc.kwh_charge_resettable, s.kwh_charge_resettable);
    acc.kwh_charge_total = max_i64(acc.kwh_charge_total, s.kwh_charge_total);
    acc.load_state = ls_max_exec(acc.load_state, s.load_state);
    acc.load_faults = max_u16(acc.load_faults, s.load_faults);
    acc.lvd_setpoint = mid_i64(acc.lvd_setpoint, s.lvd_setpoint);
    acc.ah_load_resettable = max_i64(acc.ah_load_resettable, s.ah_load_resettable);
    acc.ah_load_total = max_i64(acc.ah_load_total, s.ah_load_total);
    acc.hourmeter = max_i64(acc.hourmeter, s.hourmeter);
    acc.alarms = max_u32(acc.alarms, s.alarms);
    acc.array_power = mid_i64(acc.array_power, s.array_power);
    acc.array_vmp = mid_i64(acc.array_vmp, s.array_vmp);
    acc.array_max_power_sweep = mid_i64(acc.array_max_power_sweep, s.array_max_power_sweep);
    acc.array_voc = mid_i64(acc.array_voc, s.array_voc);
    acc.battery_v_min_daily = min_i64(acc.battery_v_min_daily, s.battery_v_min_daily);
    acc.battery_v_max_daily = max_i64(acc.battery_v_max_daily, s.battery_v_max_daily);
    acc.ah_charge_daily = max_i64(acc.ah_charge_daily, s.ah_charge_daily);
    acc.ah_load_daily = max_i64(acc.ah_load_daily, s.ah_load_daily);
    acc.array_faults_daily = max_u16(acc.array_faults_daily, s.array_faults_daily);
    acc.load_faults_daily = max_u16(acc.load_faults_daily, s.load_faults_daily);
    acc.alarms_daily = max_u32(acc.alarms_daily, s.alarms_daily);
    acc.array_voltage_max_daily = max_i64(acc.array_voltage_max_daily, s.array_voltage_max_daily);
    acc.array_voltage_fixed = mid_i64(acc.array_voltage_fixed, s.array_voltage_fixed);
    acc.array_voc_percent_fixed = mid_i64(acc.array_voc_percent_fixed, s.array_voc_percent_fixed);
}

/// Every field that combines by maximum is at least each input, the daily
/// battery-voltage minimum is at most each input, and the ranked states
/// dominate both inputs.
pub proof fn lemma_combine_bounds(a: Stats, b: Stats)
    ensures
        combine(a, b).timestamp >= a.timestamp && combine(a, b).timestamp >= b.timestamp,
        combine(a, b).software_version >= a.software_version && combine(a, b).software_version >= b.software_version,
        combine(a, b).battery_voltage_settings_multiplier >= a.battery_voltage_settings_multiplier && combine(a, b).battery_voltage_settings_multiplier >= b.battery_voltage_settings_multiplier,
        combine(a, b).heatsink_temperature >= a.heatsink_temperature && combine(a, b).heatsink_temperature >= b.heatsink_temperature,
        combine(a, b).battery_temperature >= a.battery_temperature && combine(a, b).battery_temperature >= b.battery_temperature,
        combine(a, b).ambient_temperature >= a.ambient_temperature && combine(a, b).ambient_temperature >= b.ambient_temperature,
        combine(a, b).u_inductor_temperature >= a.u_inductor_temperature && combine(a, b).u_inductor_temperature >= b.u_inductor_temperature,
        combine(a, b).v_inductor_temperature >= a.v_inductor_temperature && combine(a, b).v_inductor_temperature >= b.v_inductor_temperature,
        combine(a, b).w_inductor_temperature >= a.w_inductor_temperature && combine(a, b).w_inductor_temperature >= b.w_inductor_temperature,
        combine(a, b).array_faults >= a.array_faults && combine(a, b).array_faults >= b.array_faults,
        combine(a, b).ah_charge_resettable >= a.ah_charge_resettable && combine(a, b).ah_charge_resettable >= b.ah_charge_resettable,
        combine(a, b).ah_charge_total >= a.ah_charge_total && combine(a, b).ah_charge_total >= b.ah_charge_total,
        combine(a, b).kwh_charge_resettable >= a.kwh_charge_resettable && combine(a, b).kwh_charge_resettable >= b.kwh_charge_resettable,
        combine(a, b).kwh_charge_total >= a.kwh_charge_total && combine(a, b).kwh_charge_total >= b.kwh_charge_total,
        combine(a, b).load_faults >= a.load_faults && combine(a, b).load_faults >= b.load_faults,
        combine(a, b).ah_load_resettable >= a.ah_load_resettable && combine(a, b).ah_load_resettable >= b.ah_load_resettable,
        combine(a, b).ah_load_total >= a.ah_load_total && combine(a, b).ah_load_total >= b.ah_load_total,
        combine(a, b).hourmeter >= a.hourmeter && combine(a, b).hourmeter >= b.hourmeter,
        combine(a, b).alarms >= a.alarms && combine(a, b).alarms >= b.alarms,
        combine(a, b).battery_v_max_daily >= a.battery_v_max_daily && combine(a, b).battery_v_max_daily >= b.battery_v_max_daily,
        combine(a, b).ah_charge_daily >= a.ah_charge_daily && combine(a, b).ah_charge_daily >= b.ah_charge_daily,
        combine(a, b).ah_load_daily >= a.ah_load_daily && combine(a, b).ah_load_daily >= b.ah_load_daily,
        combine(a, b).array_faults_daily >= a.array_faults_daily && combine(a, b).array_faults_daily >= b.array_faults_daily,
        combine(a, b).load_faults_daily >= a.load_faults_daily && combine(a, b).load_faults_daily >= b.load_faults_daily,
        combine(a, b).alarms_daily >= a.alarms_daily && combine(a, b).alarms_daily >= b.alarms_daily,
        combine(a, b).array_voltage_max_daily >= a.array_voltage_max_daily && combine(a, b).array_voltage_max_daily >= b.array_voltage_max_daily,
        combine(a, b).battery_v_min_daily <= a.battery_v_min_daily && combine(a, b).battery_v_min_daily <= b.battery_v_min_daily,
        cs_rank(combine(a, b).charge_state) >= cs_rank(a.charge_state) && cs_rank(combine(a, b).charge_state) >= cs_rank(b.charge_state),
        ls_rank(combine(a, b).load_state) >= ls_rank(a.load_state) && ls_rank(combine(a, b).load_state) >= ls_rank(b.load_state),
{
}

/// The writable configuration registers of the controller.
#[derive(Debug, Clone, Copy, PartialEq, Eq, Structural)]
pub struct Settings {
    pub regulation_voltage: i64,
    pub float_voltage: i64,
    pub time_before_float: i64,
    pub time_before_float_low_battery: i64,
    pub float_low_battery_voltage_trigger: i64,
    pub float_cancel_voltage: i64,
    pub exit_float_time: i64,
    pub equalize_voltage: i64,
    pub days_between_equalize_cycles: i64,
    pub equalize_time_limit_above_regulation_voltage: i64,
    pub equalize_time_limit_at_regulation_voltage: i64,
    pub alarm_on_setting_change: bool,
    pub reference_charge_voltage_limit: i64,
    pub battery_charge_current_limit: i64,
    pub temperature_compensation_coefficent: i64,
    pub high_voltage_disconnect: i64,
    pub high_voltage_reconnect: i64,
    pub maximum_charge_voltage_reference: i64,
    pub max_battery_temp_compensation_limit: i64,
    pub min_battery_temp_compensation_limit: i64,
    pub load_low_voltage_disconnect: i64,
    pub load_low_voltage_reconnect: i64,
    pub load_high_voltage_disconnect: i64,
    pub load_high_voltage_reconnect: i64,
    pub lvd_load_current_compensation: i64,
    pub lvd_warning_timeout: i64,
    pub led_green_to_green_and_yellow_limit: i64,
    pub led_green_and_yellow_to_yellow_limit: i64,
    pub led_yellow_to_yellow_and_red_limit: i64,
    pub led_yellow_and_red_to_red_flashing_limit: i64,
    pub modbus_id: u8,
    pub meterbus_id: u8,
    pub mppt_fixed_vmp: i64,
    pub mppt_fixed_vmp_percent: i64,
    pub charge_current_limit: i64,
}

} // verus!
