use solar::prostar;
use solar::wire;
use solar::codec;
use solar::{FromClient, Phy, Stats, ToClient};

fn sample_stats() -> prostar::Stats {
    prostar::Stats {
        timestamp: 1704164645000,
        software_version: 0,
        battery_voltage_settings_multiplier: 3,
        supply_3v3: 6,
        supply_12v: 13,
        supply_5v: 20,
        gate_drive_voltage: 27,
        battery_terminal_voltage: 34,
        array_voltage: 41,
        load_voltage: 48,
        charge_current: 55,
        array_current: 62,
        load_current: 69,
        battery_current_net: 76,
        battery_sense_voltage: 83,
        meterbus_voltage: 90,
        heatsink_temperature: 97,
        battery_temperature: 104,
        ambient_temperature: 111,
        rts_temperature: Some(20000),
        u_inductor_temperature: 118,
        v_inductor_temperature: 125,
        w_inductor_temperature: 132,
        charge_state: prostar::ChargeState::BulkMPPT,
        array_faults: 139,
        battery_voltage_slow: 142,
        target_voltage: 149,
        ah_charge_resettable: 156,
        ah_charge_total: 163,
        kwh_charge_resettable: 170,
        kwh_charge_total: 177,
        load_state: prostar::LoadState::Normal,
        load_faults: 184,
        lvd_setpoint: 187,
        ah_load_resettable: 194,
        ah_load_total: 201,
        hourmeter: 208,
        alarms: 430,
        array_power: 220,
        array_vmp: 227,
        array_max_power_sweep: 234,
        array_voc: 241,
        battery_v_min_daily: 248,
        battery_v_max_daily: 255,
        ah_charge_daily: 262,
        ah_load_daily: 269,
        array_faults_daily: 276,
        load_faults_daily: 279,
        alarms_daily: 564,
        array_voltage_max_daily: 287,
        array_voltage_fixed: 294,
        array_voc_percent_fixed: 301,
    }
}

fn sample_stats_b() -> prostar::Stats {
    prostar::Stats {
        timestamp: 1704164645001,
        software_version: 1,
        battery_voltage_settings_multiplier: 4,
        supply_3v3: 7,
        supply_12v: 14,
        supply_5v: 21,
        gate_drive_voltage: 28,
        battery_terminal_voltage: 35,
        array_voltage: 42,
        load_voltage: 49,
        charge_current: 56,
        array_current: 63,
        load_current: 70,
        battery_current_net: 77,
        battery_sense_voltage: 84,
        meterbus_voltage: 91,
        heatsink_temperature: 98,
        battery_temperature: 105,
        ambient_temperature: 112,
        rts_temperature: Some(20001),
        u_inductor_temperature: 119,
        v_inductor_temperature: 126,
        w_inductor_temperature: 133,
        charge_state: prostar::ChargeState::Float,
        array_faults: 140,
        battery_voltage_slow: 143,
        target_voltage: 150,
        ah_charge_resettable: 157,
        ah_charge_total: 164,
        kwh_charge_resettable: 171,
        kwh_charge_total: 178,
        load_state: prostar::LoadState::Normal,
        load_faults: 185,
        lvd_setpoint: 188,
        ah_load_resettable: 195,
        ah_load_total: 202,
        hourmeter: 209,
        alarms: 432,
        array_power: 221,
        array_vmp: 228,
        array_max_power_sweep: 235,
        array_voc: 242,
        battery_v_min_daily: 249,
        battery_v_max_daily: 256,
        ah_charge_daily: 263,
        ah_load_daily: 270,
        array_faults_daily: 277,
        load_faults_daily: 280,
        alarms_daily: 566,
        array_voltage_max_daily: 288,
        array_voltage_fixed: 295,
        array_voc_percent_fixed: 302,
    }
}

fn sample_settings() -> prostar::Settings {
    prostar::Settings {
        regulation_voltage: 100,
        float_voltage: 111,
        time_before_float: 122,
        time_before_float_low_battery: 133,
        float_low_battery_voltage_trigger: 144,
        float_cancel_voltage: 155,
        exit_float_time: 166,
        equalize_voltage: 177,
        days_between_equalize_cycles: 188,
        equalize_time_limit_above_regulation_voltage: 199,
        equalize_time_limit_at_regulation_voltage: 210,
        alarm_on_setting_change: true,
        reference_charge_voltage_limit: 221,
        battery_charge_current_limit: 232,
        temperature_compensation_coefficent: 243,
        high_voltage_disconnect: 254,
        high_voltage_reconnect: 265,
        maximum_charge_voltage_reference: 276,
        max_battery_temp_compensation_limit: 287,
        min_battery_temp_compensation_limit: 298,
        load_low_voltage_disconnect: 309,
        load_low_voltage_reconnect: 320,
        load_high_voltage_disconnect: 331,
        load_high_voltage_reconnect: 342,
        lvd_load_current_compensation: 353,
        lvd_warning_timeout: 364,
        led_green_to_green_and_yellow_limit: 375,
        led_green_and_yellow_to_yellow_limit: 386,
        led_yellow_to_yellow_and_red_limit: 397,
        led_yellow_and_red_to_red_flashing_limit: 408,
        modbus_id: 19,
        meterbus_id: 20,
        mppt_fixed_vmp: 421,
        mppt_fixed_vmp_percent: 432,
        charge_current_limit: 443,
    }
}
#[test]
fn number_roundtrip() {
    for v in [0i64, 1, -1, 42, -42, 999, 1000, i64::MAX, i64::MIN, 1234567890123] {
        let mut out: Vec<u8> = Vec::new();
        codec::enc_i64(v, &mut out);
        out.push(b',');
        let (got, end) = codec::parse_i64(&out, 0).expect("number should parse");
        assert_eq!(got, v);
        assert_eq!(end, out.len() - 1);
    }
}

#[test]
fn number_rejects_garbage() {
    let bad: Vec<u8> = b"x12".to_vec();
    assert!(codec::parse_i64(&bad, 0).is_none());
    let huge: Vec<u8> = b"99999999999999999999,".to_vec();
    assert!(codec::parse_i64(&huge, 0).is_none());
}

#[test]
fn stats_line_roundtrip_v3() {
    let env = Stats::V3 { timestamp: 1704164645000, controller: Some(sample_stats()) };
    let line = wire::encode_stats_line(&env);
    let back = wire::parse_stats_line(&line).expect("line should parse");
    assert_eq!(back, env);
}

#[test]
fn stats_line_roundtrip_v3_none() {
    let env = Stats::V3 { timestamp: 77, controller: None };
    let line = wire::encode_stats_line(&env);
    assert_eq!(wire::parse_stats_line(&line), Some(env));
}

#[test]
fn stats_line_roundtrip_v0() {
    let env = Stats::V0(sample_stats_b());
    let line = wire::encode_stats_line(&env);
    assert_eq!(wire::parse_stats_line(&line), Some(env));
}

#[test]
fn stats_line_roundtrip_v1() {
    let env = Stats::V1 {
        controller: sample_stats(),
        phy: Phy { solar: true, battery: false, master: true },
    };
    let line = wire::encode_stats_line(&env);
    assert_eq!(wire::parse_stats_line(&line), Some(env));
}

#[test]
fn stats_line_roundtrip_v2() {
    let env = Stats::V2 {
        timestamp: -5,
        controller: Some(sample_stats()),
        phy: Phy { solar: false, battery: true, master: false },
    };
    let line = wire::encode_stats_line(&env);
    assert_eq!(wire::parse_stats_line(&line), Some(env));
}

#[test]
fn stats_line_is_json() {
    let env = Stats::V3 { timestamp: 1704164645000, controller: Some(sample_stats()) };
    let line = wire::encode_stats_line(&env);
    let text = String::from_utf8(line).expect("log line should be utf-8");
    let value: serde_json::Value = serde_json::from_str(&text).expect("log line should be JSON");
    assert_eq!(value["V3"]["timestamp"].as_i64(), Some(1704164645000));
    assert_eq!(value["V3"]["controller"]["supply_12v"].as_i64(), Some(13));
    assert_eq!(value["V3"]["controller"]["charge_state"].as_str(), Some("BulkMPPT"));
}

#[test]
fn unknown_state_roundtrip() {
    let mut st = sample_stats();
    st.charge_state = prostar::ChargeState::UnknownState(777);
    st.load_state = prostar::LoadState::Unknown(3);
    let env = Stats::V0(st);
    let line = wire::encode_stats_line(&env);
    assert_eq!(wire::parse_stats_line(&line), Some(env));
}

#[test]
fn stats_line_rejects_truncation() {
    let env = Stats::V3 { timestamp: 1, controller: Some(sample_stats()) };
    let mut line = wire::encode_stats_line(&env);
    line.pop();
    line.pop();
    assert_eq!(wire::parse_stats_line(&line), None);
}

#[test]
fn from_client_roundtrip_all() {
    let cmds = vec![
        FromClient::SetCharging(true),
        FromClient::SetCharging(false),
        FromClient::SetLoad(true),
        FromClient::SetPhySolar(false),
        FromClient::SetPhyBattery(true),
        FromClient::SetPhyMaster(false),
        FromClient::ResetController,
        FromClient::LogRotated,
        FromClient::Stop,
        FromClient::TailStats,
        FromClient::ReadSettings,
        FromClient::WriteSettings(sample_settings()),
    ];
    for cmd in cmds {
        let line = wire::encode_from_client_line(&cmd);
        assert_eq!(wire::parse_from_client_line(&line), Some(cmd));
    }
}

#[test]
fn from_client_wire_text() {
    let line = wire::encode_from_client_line(&FromClient::SetCharging(false));
    assert_eq!(line, b"{\"SetCharging\":false}\n".to_vec());
    let line = wire::encode_from_client_line(&FromClient::Stop);
    assert_eq!(line, b"\"Stop\"\n".to_vec());
}

#[test]
fn to_client_roundtrip() {
    let replies = vec![
        ToClient::CmdOk,
        ToClient::CmdErr(String::from("modbus timed out")),
        ToClient::CmdErr(String::from("he said \"no\" and left a \\ behind")),
        ToClient::Stats(Stats::V3 { timestamp: 9, controller: None }),
        ToClient::Settings(sample_settings()),
    ];
    for reply in replies {
        let mut line = Vec::new();
        wire::encode_to_client(&mut line, &reply);
        line.push(b'\n');
        assert_eq!(wire::parse_to_client_line(&line), Some(reply));
    }
}

#[test]
fn to_client_wire_text() {
    let mut line = Vec::new();
    wire::encode_to_client(&mut line, &ToClient::CmdOk);
    assert_eq!(line, b"\"Ok\"".to_vec());
    let mut line = Vec::new();
    wire::encode_to_client(&mut line, &ToClient::CmdErr(String::from("no")));
    assert_eq!(line, b"{\"Err\":\"no\"}".to_vec());
    let mut line = Vec::new();
    wire::encode_to_client(&mut line, &ToClient::CmdErr(String::from("a\"b\\c")));
    assert_eq!(line, b"{\"Err\":\"a\\\"b\\\\c\"}".to_vec());
}

#[test]
fn settings_roundtrip() {
    let s = sample_settings();
    let mut out = Vec::new();
    solar::settings_codec::encode_settings(&mut out, &s);
    let (back, end) = solar::settings_codec::parse_settings(&out, 0).expect("settings parse");
    assert_eq!(back, s);
    assert_eq!(end, out.len());
}

#[test]
fn upgrade_idempotent_and_timestamp() {
    let v0 = Stats::V0(sample_stats());
    let up = v0.upgrade();
    assert_eq!(up.upgrade(), up);
    assert_eq!(up.timestamp(), v0.timestamp());
    match up {
        Stats::V3 { timestamp, controller } => {
            assert_eq!(timestamp, 1704164645000);
            assert_eq!(controller, Some(sample_stats()));
        }
        _ => panic!("upgrade did not land on the newest version"),
    }
}

#[test]
fn set_timestamp_every_version() {
    let mut v = Stats::V2 {
        timestamp: 5,
        controller: None,
        phy: Phy { solar: false, battery: false, master: false },
    };
    v.set_timestamp(99);
    assert_eq!(v.timestamp(), 99);
    let mut v = Stats::V0(sample_stats());
    v.set_timestamp(123);
    assert_eq!(v.timestamp(), 123);
}

#[test]
fn timestamp_mut_every_version() {
    let mut v = Stats::V1 {
        controller: sample_stats(),
        phy: Phy { solar: true, battery: true, master: true },
    };
    *v.timestamp_mut() = 4242;
    assert_eq!(v.timestamp(), 4242);
    match v {
        Stats::V1 { controller, .. } => assert_eq!(controller.timestamp, 4242),
        _ => panic!("the version must not change"),
    }
}
