//! The name-tree publisher's decisions: the derived control states shown
//! beside the raw statistics, the mapping from control-leaf writes to
//! operator commands, and the coercion rules for written values. The
//! name-tree handles themselves live in the binary.

use vstd::prelude::*;
use crate::FromClient;
use crate::prostar;
use crate::prostar::ChargeState;
use crate::prostar::LoadState;

verus! {

/// The derived `charging` control state: on unless the controller reports
/// the charge path disconnected or faulted.
pub open spec fn charging_spec(cs: ChargeState) -> bool {
    !(cs == ChargeState::Disconnect || cs == ChargeState::Fault)
}

/// The derived `load` control state: on unless the controller reports the
/// load path disconnected, faulted, or cut off on low voltage.
pub open spec fn load_spec(ls: LoadState) -> bool {
    !(ls == LoadState::Disconnect || ls == LoadState::Fault || ls == LoadState::LVD)
}

/// Derive the published `charging` state from the charge stage.
pub fn charging_from_state(cs: ChargeState) -> (r: bool)
    ensures
        r == charging_spec(cs),
{
    match cs {
        ChargeState::Disconnect => false,
        ChargeState::Fault => false,
        _ => true,
    }
}

/// Derive the published `load` state from the load stage.
pub fn load_from_state(ls: LoadState) -> (r: bool)
    ensures
        r == load_spec(ls),
{
    match ls {
        LoadState::Disconnect => false,
        LoadState::Fault => false,
        LoadState::LVD => false,
        _ => true,
    }
}

/// A scalar written to a name-tree leaf, as far as the write rules read
/// it.
#[derive(Debug, Clone, Copy, PartialEq, Eq, Structural)]
pub enum TreeValue {
    VTrue,
    VFalse,
    U32(u32),
    Milli(i64),
    Other,
}

/// The writable control leaves.
#[derive(Debug, Clone, Copy, PartialEq, Eq, Structural)]
pub enum ControlLeaf {
    Charging,
    Load,
    Reset,
    PhySolar,
    PhyBattery,
    PhyMaster,
}

/// The command a control-leaf write becomes: boolean leaves demand a
/// boolean value and are otherwise refused with a warning; the reset leaf
/// triggers on any write.
pub open spec fn control_command(leaf: ControlLeaf, v: TreeValue) -> Option<FromClient> {
    match leaf {
        ControlLeaf::Reset => Some(FromClient::ResetController),
        ControlLeaf::Charging => match v {
            TreeValue::VTrue => Some(FromClient::SetCharging(true)),
            TreeValue::VFalse => Some(FromClient::SetCharging(false)),
            _ => None::<FromClient>,
        },
        ControlLeaf::Load => match v {
            TreeValue::VTrue => Some(FromClient::SetLoad(true)),
            TreeValue::VFalse => Some(FromClient::SetLoad(false)),
            _ => None::<FromClient>,
        },
        ControlLeaf::PhySolar => match v {
            TreeValue::VTrue => Some(FromClient::SetPhySolar(true)),
            TreeValue::VFalse => Some(FromClient::SetPhySolar(false)),
            _ => None::<FromClient>,
        },
        ControlLeaf::PhyBattery => match v {
            TreeValue::VTrue => Some(FromClient::SetPhyBattery(true)),
            TreeValue::VFalse => Some(FromClient::SetPhyBattery(false)),
            _ => None::<FromClient>,
        },
        ControlLeaf::PhyMaster => match v {
            TreeValue::VTrue => Some(FromClient::SetPhyMaster(true)),
            TreeValue::VFalse => Some(FromClient::SetPhyMaster(false)),
            _ => None::<FromClient>,
        },
    }
}

/// Map one control-leaf write onto the reactor command it asks for.
pub fn process_control_write(leaf: ControlLeaf, v: TreeValue) -> (r: Option<FromClient>)
    ensures
        r == control_command(leaf, v),
{
    let b = match v {
        TreeValue::VTrue => Some(true),
        TreeValue::VFalse => Some(false),
        _ => None,
    };
    match leaf {
        ControlLeaf::Reset => Some(FromClient::ResetController),
        ControlLeaf::Charging => match b {
            Some(x) => Some(FromClient::SetCharging(x)),
            None => None,
        },
        ControlLeaf::Load => match b {
            Some(x) => Some(FromClient::SetLoad(x)),
            None => None,
        },
        ControlLeaf::PhySolar => match b {
            Some(x) => Some(FromClient::SetPhySolar(x)),
            None => None,
        },
        ControlLeaf::PhyBattery => match b {
            Some(x) => Some(FromClient::SetPhyBattery(x)),
            None => None,
        },
        ControlLeaf::PhyMaster => match b {
            Some(x) => Some(FromClient::SetPhyMaster(x)),
            None => None,
        },
    }
}

/// The coercion for a bus-id settings leaf: it accepts an unsigned scalar,
/// narrowed to the register's low byte as the register write has it.
pub fn u8_of_value(v: TreeValue) -> (r: Option<u8>)
    ensures
        r == match v {
            TreeValue::U32(x) => Some((x % 256) as u8),
            _ => None::<u8>,
        },
{
    match v {
        TreeValue::U32(x) => Some((x % 256) as u8),
        _ => None,
    }
}

/// The coercion for a boolean settings leaf.
pub fn bool_of_value(v: TreeValue) -> (r: Option<bool>)
    ensures
        r == match v {
            TreeValue::VTrue => Some(true),
            TreeValue::VFalse => Some(false),
            _ => None::<bool>,
        },
{
    match v {
        TreeValue::VTrue => Some(true),
        TreeValue::VFalse => Some(false),
        _ => None,
    }
}

/// The writable settings leaves, one per register.
#[derive(Debug, Clone, Copy, PartialEq, Eq, Structural)]
pub enum SettingsLeaf {
    RegulationVoltage,
    FloatVoltage,
    TimeBeforeFloat,
    TimeBeforeFloatLowBattery,
    FloatLowBatteryVoltageTrigger,
    FloatCancelVoltage,
    ExitFloatTime,
    EqualizeVoltage,
    DaysBetweenEqualizeCycles,
    EqualizeTimeLimitAboveRegulationVoltage,
    EqualizeTimeLimitAtRegulationVoltage,
    AlarmOnSettingChange,
    ReferenceChargeVoltageLimit,
    BatteryChargeCurrentLimit,
    TemperatureCompensationCoefficent,
    HighVoltageDisconnect,
    HighVoltageReconnect,
    MaximumChargeVoltageReference,
    MaxBatteryTempCompensationLimit,
    MinBatteryTempCompensationLimit,
    LoadLowVoltageDisconnect,
    LoadLowVoltageReconnect,
    LoadHighVoltageDisconnect,
    LoadHighVoltageReconnect,
    LvdLoadCurrentCompensation,
    LvdWarningTimeout,
    LedGreenToGreenAndYellowLimit,
    LedGreenAndYellowToYellowLimit,
    LedYellowToYellowAndRedLimit,
    LedYellowAndRedToRedFlashingLimit,
    ModbusId,
    MeterbusId,
    MpptFixedVmp,
    MpptFixedVmpPercent,
    ChargeCurrentLimit,
}

/// One settings-leaf write applied to a copy of the cached record:
/// dimensioned leaves demand a milli-unit scalar, the alarm flag a
/// boolean, the bus ids an unsigned scalar narrowed to the low byte;
/// anything else is refused with a warning and changes nothing.
pub open spec fn settings_write(
    s: prostar::Settings,
    leaf: SettingsLeaf,
    v: TreeValue,
) -> Option<prostar::Settings> {
    match leaf {
        SettingsLeaf::RegulationVoltage => match v {
            TreeValue::Milli(x) => Some(prostar::Settings { regulation_voltage: x, ..s }),
            _ => None::<prostar::Settings>,
        },
        SettingsLeaf::FloatVoltage => match v {
            TreeValue::Milli(x) => Some(prostar::Settings { float_voltage: x, ..s }),
            _ => None::<prostar::Settings>,
        },
        SettingsLeaf::TimeBeforeFloat => match v {
            TreeValue::Milli(x) => Some(prostar::Settings { time_before_float: x, ..s }),
            _ => None::<prostar::Settings>,
        },
        SettingsLeaf::TimeBeforeFloatLowBattery => match v {
            TreeValue::Milli(x) => Some(prostar::Settings { time_before_float_low_battery: x, ..s }),
            _ => None::<prostar::Settings>,
        },
        SettingsLeaf::FloatLowBatteryVoltageTrigger => match v {
            TreeValue::Milli(x) => Some(prostar::Settings { float_low_battery_voltage_trigger: x, ..s }),
            _ => None::<prostar::Settings>,
        },
        SettingsLeaf::FloatCancelVoltage => match v {
            TreeValue::Milli(x) => Some(prostar::Settings { float_cancel_voltage: x, ..s }),
            _ => None::<prostar::Settings>,
        },
        SettingsLeaf::ExitFloatTime => match v {
            TreeValue::Milli(x) => Some(prostar::Settings { exit_float_time: x, ..s }),
            _ => None::<prostar::Settings>,
        },
        SettingsLeaf::EqualizeVoltage => match v {
            TreeValue::Milli(x) => Some(prostar::Settings { equalize_voltage: x, ..s }),
            _ => None::<prostar::Settings>,
        },
        SettingsLeaf::DaysBetweenEqualizeCycles => match v {
            TreeValue::Milli(x) => Some(prostar::Settings { days_between_equalize_cycles: x, ..s }),
            _ => None::<prostar::Settings>,
        },
        SettingsLeaf::EqualizeTimeLimitAboveRegulationVoltage => match v {
            TreeValue::Milli(x) => Some(prostar::Settings { equalize_time_limit_above_regulation_voltage: x, ..s }),
            _ => None::<prostar::Settings>,
        },
        SettingsLeaf::EqualizeTimeLimitAtRegulationVoltage => match v {
            TreeValue::Milli(x) => Some(prostar::Settings { equalize_time_limit_at_regulation_voltage: x, ..s }),
            _ => None::<prostar::Settings>,
        },
        SettingsLeaf::AlarmOnSettingChange => match v {
            TreeValue::VTrue => Some(prostar::Settings { alarm_on_setting_change: true, ..s }),
            TreeValue::VFalse => Some(prostar::Settings { alarm_on_setting_change: false, ..s }),
            _ => None::<prostar::Settings>,
        },
        SettingsLeaf::ReferenceChargeVoltageLimit => match v {
            TreeValue::Milli(x) => Some(prostar::Settings { reference_charge_voltage_limit: x, ..s }),
            _ => None::<prostar::Settings>,
        },
        SettingsLeaf::BatteryChargeCurrentLimit => match v {
            TreeValue::Milli(x) => Some(prostar::Settings { battery_charge_current_limit: x, ..s }),
            _ => None::<prostar::Settings>,
        },
        SettingsLeaf::TemperatureCompensationCoefficent => match v {
            TreeValue::Milli(x) => Some(prostar::Settings { temperature_compensation_coefficent: x, ..s }),
            _ => None::<prostar::Settings>,
        },
        SettingsLeaf::HighVoltageDisconnect => match v {
            TreeValue::Milli(x) => Some(prostar::Settings { high_voltage_disconnect: x, ..s }),
            _ => None::<prostar::Settings>,
        },
        SettingsLeaf::HighVoltageReconnect => match v {
            TreeValue::Milli(x) => Some(prostar::Settings { high_voltage_reconnect: x, ..s }),
            _ => None::<prostar::Settings>,
        },
        SettingsLeaf::MaximumChargeVoltageReference => match v {
            TreeValue::Milli(x) => Some(prostar::Settings { maximum_charge_voltage_reference: x, ..s }),
            _ => None::<prostar::Settings>,
        },
        SettingsLeaf::MaxBatteryTempCompensationLimit => match v {
            TreeValue::Milli(x) => Some(prostar::Settings { max_battery_temp_compensation_limit: x, ..s }),
            _ => None::<prostar::Settings>,
        },
        SettingsLeaf::MinBatteryTempCompensationLimit => match v {
            TreeValue::Milli(x) => Some(prostar::Settings { min_battery_temp_compensation_limit: x, ..s }),
            _ => None::<prostar::Settings>,
        },
        SettingsLeaf::LoadLowVoltageDisconnect => match v {
            TreeValue::Milli(x) => Some(prostar::Settings { load_low_voltage_disconnect: x, ..s }),
            _ => None::<prostar::Settings>,
        },
        SettingsLeaf::LoadLowVoltageReconnect => match v {
            TreeValue::Milli(x) => Some(prostar::Settings { load_low_voltage_reconnect: x, ..s }),
            _ => None::<prostar::Settings>,
        },
        SettingsLeaf::LoadHighVoltageDisconnect => match v {
            TreeValue::Milli(x) => Some(prostar::Settings { load_high_voltage_disconnect: x, ..s }),
            _ => None::<prostar::Settings>,
        },
        SettingsLeaf::LoadHighVoltageReconnect => match v {
            TreeValue::Milli(x) => Some(prostar::Settings { load_high_voltage_reconnect: x, ..s }),
            _ => None::<prostar::Settings>,
        },
        SettingsLeaf::LvdLoadCurrentCompensation => match v {
            TreeValue::Milli(x) => Some(prostar::Settings { lvd_load_current_compensation: x, ..s }),
            _ => None::<prostar::Settings>,
        },
        SettingsLeaf::LvdWarningTimeout => match v {
            TreeValue::Milli(x) => Some(prostar::Settings { lvd_warning_timeout: x, ..s }),
            _ => None::<prostar::Settings>,
        },
        SettingsLeaf::LedGreenToGreenAndYellowLimit => match v {
            TreeValue::Milli(x) => Some(prostar::Settings { led_green_to_green_and_yellow_limit: x, ..s }),
            _ => None::<prostar::Settings>,
        },
        SettingsLeaf::LedGreenAndYellowToYellowLimit => match v {
            TreeValue::Milli(x) => Some(prostar::Settings { led_green_and_yellow_to_yellow_limit: x, ..s }),
            _ => None::<prostar::Settings>,
        },
        SettingsLeaf::LedYellowToYellowAndRedLimit => match v {
            TreeValue::Milli(x) => Some(prostar::Settings { led_yellow_to_yellow_and_red_limit: x, ..s }),
            _ => None::<prostar::Settings>,
        },
        SettingsLeaf::LedYellowAndRedToRedFlashingLimit => match v {
            TreeValue::Milli(x) => Some(prostar::Settings { led_yellow_and_red_to_red_flashing_limit: x, ..s }),
            _ => None::<prostar::Settings>,
        },
        SettingsLeaf::ModbusId => match v {
            TreeValue::U32(x) => Some(prostar::Settings { modbus_id: (x % 256) as u8, ..s }),
            _ => None::<prostar::Settings>,
        },
        SettingsLeaf::MeterbusId => match v {
            TreeValue::U32(x) => Some(prostar::Settings { meterbus_id: (x % 256) as u8, ..s }),
            _ => None::<prostar::Settings>,
        },
        SettingsLeaf::MpptFixedVmp => match v {
            TreeValue::Milli(x) => Some(prostar::Settings { mppt_fixed_vmp: x, ..s }),
            _ => None::<prostar::Settings>,
        },
        SettingsLeaf::MpptFixedVmpPercent => match v {
            TreeValue::Milli(x) => Some(prostar::Settings { mppt_fixed_vmp_percent: x, ..s }),
            _ => None::<prostar::Settings>,
        },
        SettingsLeaf::ChargeCurrentLimit => match v {
            TreeValue::Milli(x) => Some(prostar::Settings { charge_current_limit: x, ..s }),
            _ => None::<prostar::Settings>,
        },
    }
}

/// Route one settings-leaf write onto the record it would produce.
pub fn apply_settings_write(
    s: &prostar::Settings,
    leaf: SettingsLeaf,
    v: TreeValue,
) -> (r: Option<prostar::Settings>)
    ensures
        r == settings_write(*s, leaf, v),
{
    match leaf {
        SettingsLeaf::RegulationVoltage => match v {
            TreeValue::Milli(x) => Some(prostar::Settings { regulation_voltage: x, ..*s }),
            _ => None,
        },
        SettingsLeaf::FloatVoltage => match v {
            TreeValue::Milli(x) => Some(prostar::Settings { float_voltage: x, ..*s }),
            _ => None,
        },
        SettingsLeaf::TimeBeforeFloat => match v {
            TreeValue::Milli(x) => Some(prostar::Settings { time_before_float: x, ..*s }),
            _ => None,
        },
        SettingsLeaf::TimeBeforeFloatLowBattery => match v {
            TreeValue::Milli(x) => Some(prostar::Settings { time_before_float_low_battery: x, ..*s }),
            _ => None,
        },
        SettingsLeaf::FloatLowBatteryVoltageTrigger => match v {
            TreeValue::Milli(x) => Some(prostar::Settings { float_low_battery_voltage_trigger: x, ..*s }),
            _ => None,
        },
        SettingsLeaf::FloatCancelVoltage => match v {
            TreeValue::Milli(x) => Some(prostar::Settings { float_cancel_voltage: x, ..*s }),
            _ => None,
        },
        SettingsLeaf::ExitFloatTime => match v {
            TreeValue::Milli(x) => Some(prostar::Settings { exit_float_time: x, ..*s }),
            _ => None,
        },
        SettingsLeaf::EqualizeVoltage => match v {
            TreeValue::Milli(x) => Some(prostar::Settings { equalize_voltage: x, ..*s }),
            _ => None,
        },
        SettingsLeaf::DaysBetweenEqualizeCycles => match v {
            TreeValue::Milli(x) => Some(prostar::Settings { days_between_equalize_cycles: x, ..*s }),
            _ => None,
        },
        SettingsLeaf::EqualizeTimeLimitAboveRegulationVoltage => match v {
            TreeValue::Milli(x) => Some(prostar::Settings { equalize_time_limit_above_regulation_voltage: x, ..*s }),
            _ => None,
        },
        SettingsLeaf::EqualizeTimeLimitAtRegulationVoltage => match v {
            TreeValue::Milli(x) => Some(prostar::Settings { equalize_time_limit_at_regulation_voltage: x, ..*s }),
            _ => None,
        },
        SettingsLeaf::AlarmOnSettingChange => match v {
            TreeValue::VTrue => Some(prostar::Settings { alarm_on_setting_change: true, ..*s }),
            TreeValue::VFalse => Some(prostar::Settings { alarm_on_setting_change: false, ..*s }),
            _ => None,
        },
        SettingsLeaf::ReferenceChargeVoltageLimit => match v {
            TreeValue::Milli(x) => Some(prostar::Settings { reference_charge_voltage_limit: x, ..*s }),
            _ => None,
        },
        SettingsLeaf::BatteryChargeCurrentLimit => match v {
            TreeValue::Milli(x) => Some(prostar::Settings { battery_charge_current_limit: x, ..*s }),
            _ => None,
        },
        SettingsLeaf::TemperatureCompensationCoefficent => match v {
            TreeValue::Milli(x) => Some(prostar::Settings { temperature_compensation_coefficent: x, ..*s }),
            _ => None,
        },
        SettingsLeaf::HighVoltageDisconnect => match v {
            TreeValue::Milli(x) => Some(prostar::Settings { high_voltage_disconnect: x, ..*s }),
            _ => None,
        },
        SettingsLeaf::HighVoltageReconnect => match v {
            TreeValue::Milli(x) => Some(prostar::Settings { high_voltage_reconnect: x, ..*s }),
            _ => None,
        },
        SettingsLeaf::MaximumChargeVoltageReference => match v {
            TreeValue::Milli(x) => Some(prostar::Settings { maximum_charge_voltage_reference: x, ..*s }),
            _ => None,
        },
        SettingsLeaf::MaxBatteryTempCompensationLimit => match v {
            TreeValue::Milli(x) => Some(prostar::Settings { max_battery_temp_compensation_limit: x, ..*s }),
            _ => None,
        },
        SettingsLeaf::MinBatteryTempCompensationLimit => match v {
            TreeValue::Milli(x) => Some(prostar::Settings { min_battery_temp_compensation_limit: x, ..*s }),
            _ => None,
        },
        SettingsLeaf::LoadLowVoltageDisconnect => match v {
            TreeValue::Milli(x) => Some(prostar::Settings { load_low_voltage_disconnect: x, ..*s }),
            _ => None,
        },
        SettingsLeaf::LoadLowVoltageReconnect => match v {
            TreeValue::Milli(x) => Some(prostar::Settings { load_low_voltage_reconnect: x, ..*s }),
            _ => None,
        },
        SettingsLeaf::LoadHighVoltageDisconnect => match v {
            TreeValue::Milli(x) => Some(prostar::Settings { load_high_voltage_disconnect: x, ..*s }),
            _ => None,
        },
        SettingsLeaf::LoadHighVoltageReconnect => match v {
            TreeValue::Milli(x) => Some(prostar::Settings { load_high_voltage_reconnect: x, ..*s }),
            _ => None,
        },
        SettingsLeaf::LvdLoadCurrentCompensation => match v {
            TreeValue::Milli(x) => Some(prostar::Settings { lvd_load_current_compensation: x, ..*s }),
            _ => None,
        },
        SettingsLeaf::LvdWarningTimeout => match v {
            TreeValue::Milli(x) => Some(prostar::Settings { lvd_warning_timeout: x, ..*s }),
            _ => None,
        },
        SettingsLeaf::LedGreenToGreenAndYellowLimit => match v {
            TreeValue::Milli(x) => Some(prostar::Settings { led_green_to_green_and_yellow_limit: x, ..*s }),
            _ => None,
        },
        SettingsLeaf::LedGreenAndYellowToYellowLimit => match v {
            TreeValue::Milli(x) => Some(prostar::Settings { led_green_and_yellow_to_yellow_limit: x, ..*s }),
            _ => None,
        },
        SettingsLeaf::LedYellowToYellowAndRedLimit => match v {
            TreeValue::Milli(x) => Some(prostar::Settings { led_yellow_to_yellow_and_red_limit: x, ..*s }),
            _ => None,
        },
        SettingsLeaf::LedYellowAndRedToRedFlashingLimit => match v {
            TreeValue::Milli(x) => Some(prostar::Settings { led_yellow_and_red_to_red_flashing_limit: x, ..*s }),
            _ => None,
        },
        SettingsLeaf::ModbusId => match v {
            TreeValue::U32(x) => Some(prostar::Settings { modbus_id: (x % 256) as u8, ..*s }),
            _ => None,
        },
        SettingsLeaf::MeterbusId => match v {
            TreeValue::U32(x) => Some(prostar::Settings { meterbus_id: (x % 256) as u8, ..*s }),
            _ => None,
        },
        SettingsLeaf::MpptFixedVmp => match v {
            TreeValue::Milli(x) => Some(prostar::Settings { mppt_fixed_vmp: x, ..*s }),
            _ => None,
        },
        SettingsLeaf::MpptFixedVmpPercent => match v {
            TreeValue::Milli(x) => Some(prostar::Settings { mppt_fixed_vmp_percent: x, ..*s }),
            _ => None,
        },
        SettingsLeaf::ChargeCurrentLimit => match v {
            TreeValue::Milli(x) => Some(prostar::Settings { charge_current_limit: x, ..*s }),
            _ => None,
        },
    }
}

/// The cached-settings commit rule: a write the reactor acknowledged
/// replaces the cached copy; a refused write leaves it as it was.
pub fn settings_commit(
    current: Option<prostar::Settings>,
    written: prostar::Settings,
    ok: bool,
) -> (r: Option<prostar::Settings>)
    ensures
        r == if ok {
            Some(written)
        } else {
            current
        },
{
    if ok {
        Some(written)
    } else {
        current
    }
}

} // verus!
