use solar::modbus;
use solar::prostar::Coil;
use solar::publisher;
use solar::prostar::{ChargeState, LoadState};
use solar::reactor::{self, CommandPlan};
use solar::{FromClient, ToClient};
use solar::publisher::{ControlLeaf, SettingsLeaf, TreeValue};
use solar::prostar;

fn base_settings() -> prostar::Settings {
    prostar::Settings {
        regulation_voltage: 100,
        float_voltage: 111,
        time_before_float: 122,
        time_before_float_low_battery: 133,
        float_low_battery_voltage_trigger: 144,
        float_cancel_voltage: 155,
        exit_float_time: 166,
        equalize_voltage: 177,
        days_between_equalize_cycles: 188,
        equalize_time_limit_above_regulation_voltage: 199,
        equalize_time_limit_at_regulation_voltage: 210,
        alarm_on_setting_change: true,
        reference_charge_voltage_limit: 221,
        battery_charge_current_limit: 232,
        temperature_compensation_coefficent: 243,
        high_voltage_disconnect: 254,
        high_voltage_reconnect: 265,
        maximum_charge_voltage_reference: 276,
        max_battery_temp_compensation_limit: 287,
        min_battery_temp_compensation_limit: 298,
        load_low_voltage_disconnect: 309,
        load_low_voltage_reconnect: 320,
        load_high_voltage_disconnect: 331,
        load_high_voltage_reconnect: 342,
        lvd_load_current_compensation: 353,
        lvd_warning_timeout: 364,
        led_green_to_green_and_yellow_limit: 375,
        led_green_and_yellow_to_yellow_limit: 386,
        led_yellow_to_yellow_and_red_limit: 397,
        led_yellow_and_red_to_red_flashing_limit: 408,
        modbus_id: 19,
        meterbus_id: 20,
        mppt_fixed_vmp: 421,
        mppt_fixed_vmp_percent: 432,
        charge_current_limit: 443,
    }
}

#[test]
fn throttle_holds_fast_commands() {
    let (wait, stamp) = modbus::throttle_gate(10_000, 10_400);
    assert_eq!(wait, 600);
    assert_eq!(stamp, 11_000);
}

#[test]
fn throttle_passes_slow_commands() {
    let (wait, stamp) = modbus::throttle_gate(10_000, 11_500);
    assert_eq!(wait, 0);
    assert_eq!(stamp, 11_500);
}

#[test]
fn throttle_spaces_back_to_back_commands() {
    // the first command is held a full second; the second, issued the
    // instant the first fires, is held a full second past that
    let (wait_a, stamp_a) = modbus::throttle_gate(0, 0);
    assert_eq!(wait_a, 1000);
    assert_eq!(stamp_a, 1000);
    let (wait_b, stamp_b) = modbus::throttle_gate(stamp_a, stamp_a);
    assert_eq!(wait_b, 1000);
    assert_eq!(stamp_b - stamp_a, 1000);
}

#[test]
fn ladder_success_first_try() {
    let outcomes = vec![true];
    assert_eq!(modbus::eval_ladder(&outcomes), Some((true, 1, 0)));
}

#[test]
fn ladder_success_on_fourth_attempt() {
    let outcomes = vec![false, false, false, true];
    assert_eq!(modbus::eval_ladder(&outcomes), Some((true, 4, 1)));
}

#[test]
fn ladder_all_four_fail() {
    let outcomes = vec![false, false, false, false];
    assert_eq!(modbus::eval_ladder(&outcomes), Some((false, 4, 1)));
}

#[test]
fn ladder_cheap_retry_has_no_reboot() {
    let outcomes = vec![false, true];
    assert_eq!(modbus::eval_ladder(&outcomes), Some((true, 2, 0)));
}

#[test]
fn reset_coil_is_best_effort() {
    assert!(modbus::coil_write_best_effort(Coil::ResetControl, true));
    assert!(!modbus::coil_write_best_effort(Coil::ResetControl, false));
    assert!(!modbus::coil_write_best_effort(Coil::ChargeDisconnect, true));
}

#[test]
fn commands_map_to_coils() {
    assert_eq!(
        reactor::handle_command(&FromClient::SetCharging(false)),
        CommandPlan::WriteCoil(Coil::ChargeDisconnect, true)
    );
    assert_eq!(
        reactor::handle_command(&FromClient::SetLoad(true)),
        CommandPlan::WriteCoil(Coil::LoadDisconnect, false)
    );
    assert_eq!(
        reactor::handle_command(&FromClient::ResetController),
        CommandPlan::WriteCoilBestEffort(Coil::ResetControl, true)
    );
    assert_eq!(reactor::handle_command(&FromClient::Stop), CommandPlan::Quit);
    assert_eq!(reactor::handle_command(&FromClient::TailStats), CommandPlan::Tail);
    assert_eq!(
        reactor::handle_command(&FromClient::SetPhyMaster(true)),
        CommandPlan::PhyMaster(true)
    );
}

#[test]
fn master_request_refused_message() {
    match reactor::master_reply(true, false) {
        ToClient::CmdErr(m) => {
            assert_eq!(m, "design rules prohibit setting the master relay");
        }
        _ => panic!("a refused master request must name the design rule"),
    }
    assert_eq!(reactor::master_reply(true, true), ToClient::CmdOk);
    assert_eq!(reactor::master_reply(false, false), ToClient::CmdOk);
}

#[test]
fn tick_log_line_matches_wire() {
    let line = reactor::tick_log_line(1704164645000, None);
    assert_eq!(line, b"{\"V3\":{\"timestamp\":1704164645000,\"controller\":null}}\n".to_vec());
    let parsed = solar::wire::parse_stats_line(&line).expect("tick line should parse");
    assert_eq!(parsed.timestamp(), 1704164645000);
}

#[test]
fn derived_control_states() {
    assert!(!publisher::charging_from_state(ChargeState::Disconnect));
    assert!(!publisher::charging_from_state(ChargeState::Fault));
    assert!(publisher::charging_from_state(ChargeState::BulkMPPT));
    assert!(publisher::charging_from_state(ChargeState::Night));
    assert!(!publisher::load_from_state(LoadState::LVD));
    assert!(!publisher::load_from_state(LoadState::Disconnect));
    assert!(!publisher::load_from_state(LoadState::Fault));
    assert!(publisher::load_from_state(LoadState::Normal));
}

#[test]
fn control_writes_become_commands() {
    assert_eq!(
        publisher::process_control_write(ControlLeaf::Charging, TreeValue::VFalse),
        Some(FromClient::SetCharging(false))
    );
    assert_eq!(
        publisher::process_control_write(ControlLeaf::Load, TreeValue::VTrue),
        Some(FromClient::SetLoad(true))
    );
    assert_eq!(
        publisher::process_control_write(ControlLeaf::Reset, TreeValue::Other),
        Some(FromClient::ResetController)
    );
    assert_eq!(publisher::process_control_write(ControlLeaf::Charging, TreeValue::U32(1)), None);
    assert_eq!(
        publisher::process_control_write(ControlLeaf::PhyMaster, TreeValue::VTrue),
        Some(FromClient::SetPhyMaster(true))
    );
}

#[test]
fn settings_value_coercions() {
    assert_eq!(publisher::u8_of_value(TreeValue::U32(300)), Some(44));
    assert_eq!(publisher::u8_of_value(TreeValue::U32(7)), Some(7));
    assert_eq!(publisher::u8_of_value(TreeValue::VTrue), None);
    assert_eq!(publisher::bool_of_value(TreeValue::VTrue), Some(true));
    assert_eq!(publisher::bool_of_value(TreeValue::U32(1)), None);
}

#[test]
fn settings_writes_route_to_their_field() {
    let s = base_settings();
    let w = solar::publisher::apply_settings_write(&s, SettingsLeaf::RegulationVoltage, TreeValue::Milli(14_600))
        .expect("a milli-unit scalar suits a voltage leaf");
    assert_eq!(w.regulation_voltage, 14_600);
    assert_eq!(w.float_voltage, s.float_voltage);
    assert_eq!(w.modbus_id, s.modbus_id);
    let w = solar::publisher::apply_settings_write(&s, SettingsLeaf::ModbusId, TreeValue::U32(300))
        .expect("an unsigned scalar suits a bus-id leaf");
    assert_eq!(w.modbus_id, 44);
    let w = solar::publisher::apply_settings_write(&s, SettingsLeaf::AlarmOnSettingChange, TreeValue::VFalse)
        .expect("a boolean suits the alarm leaf");
    assert!(!w.alarm_on_setting_change);
    assert_eq!(
        solar::publisher::apply_settings_write(&s, SettingsLeaf::RegulationVoltage, TreeValue::VTrue),
        None
    );
    assert_eq!(
        solar::publisher::apply_settings_write(&s, SettingsLeaf::ModbusId, TreeValue::Milli(1)),
        None
    );
}

#[test]
fn settings_commit_rule() {
    let s = base_settings();
    assert_eq!(solar::publisher::settings_commit(None, s, true), Some(s));
    assert_eq!(solar::publisher::settings_commit(None, s, false), None);
    let mut t = s;
    t.regulation_voltage += 1;
    assert_eq!(solar::publisher::settings_commit(Some(s), t, false), Some(s));
    assert_eq!(solar::publisher::settings_commit(Some(s), t, true), Some(t));
}
