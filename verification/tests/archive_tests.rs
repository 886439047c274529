use solar::archive;
use solar::prostar;
use solar::{Config, Stats};
use chrono::TimeZone;

fn sample_stats() -> prostar::Stats {
    prostar::Stats {
        timestamp: 1704164645000,
        software_version: 0,
        battery_voltage_settings_multiplier: 3,
        supply_3v3: 6,
        supply_12v: 13,
        supply_5v: 20,
        gate_drive_voltage: 27,
        battery_terminal_voltage: 34,
        array_voltage: 41,
        load_voltage: 48,
        charge_current: 55,
        array_current: 62,
        load_current: 69,
        battery_current_net: 76,
        battery_sense_voltage: 83,
        meterbus_voltage: 90,
        heatsink_temperature: 97,
        battery_temperature: 104,
        ambient_temperature: 111,
        rts_temperature: Some(20000),
        u_inductor_temperature: 118,
        v_inductor_temperature: 125,
        w_inductor_temperature: 132,
        charge_state: prostar::ChargeState::BulkMPPT,
        array_faults: 139,
        battery_voltage_slow: 142,
        target_voltage: 149,
        ah_charge_resettable: 156,
        ah_charge_total: 163,
        kwh_charge_resettable: 170,
        kwh_charge_total: 177,
        load_state: prostar::LoadState::Normal,
        load_faults: 184,
        lvd_setpoint: 187,
        ah_load_resettable: 194,
        ah_load_total: 201,
        hourmeter: 208,
        alarms: 430,
        array_power: 220,
        array_vmp: 227,
        array_max_power_sweep: 234,
        array_voc: 241,
        battery_v_min_daily: 248,
        battery_v_max_daily: 255,
        ah_charge_daily: 262,
        ah_load_daily: 269,
        array_faults_daily: 276,
        load_faults_daily: 279,
        alarms_daily: 564,
        array_voltage_max_daily: 287,
        array_voltage_fixed: 294,
        array_voc_percent_fixed: 301,
    }
}

fn sample_stats_b() -> prostar::Stats {
    prostar::Stats {
        timestamp: 1704164645001,
        software_version: 1,
        battery_voltage_settings_multiplier: 4,
        supply_3v3: 7,
        supply_12v: 14,
        supply_5v: 21,
        gate_drive_voltage: 28,
        battery_terminal_voltage: 35,
        array_voltage: 42,
        load_voltage: 49,
        charge_current: 56,
        array_current: 63,
        load_current: 70,
        battery_current_net: 77,
        battery_sense_voltage: 84,
        meterbus_voltage: 91,
        heatsink_temperature: 98,
        battery_temperature: 105,
        ambient_temperature: 112,
        rts_temperature: Some(20001),
        u_inductor_temperature: 119,
        v_inductor_temperature: 126,
        w_inductor_temperature: 133,
        charge_state: prostar::ChargeState::Float,
        array_faults: 140,
        battery_voltage_slow: 143,
        target_voltage: 150,
        ah_charge_resettable: 157,
        ah_charge_total: 164,
        kwh_charge_resettable: 171,
        kwh_charge_total: 178,
        load_state: prostar::LoadState::Normal,
        load_faults: 185,
        lvd_setpoint: 188,
        ah_load_resettable: 195,
        ah_load_total: 202,
        hourmeter: 209,
        alarms: 432,
        array_power: 221,
        array_vmp: 228,
        array_max_power_sweep: 235,
        array_voc: 242,
        battery_v_min_daily: 249,
        battery_v_max_daily: 256,
        ah_charge_daily: 263,
        ah_load_daily: 270,
        array_faults_daily: 277,
        load_faults_daily: 280,
        alarms_daily: 566,
        array_voltage_max_daily: 288,
        array_voltage_fixed: 295,
        array_voc_percent_fixed: 302,
    }
}

fn sample_settings() -> prostar::Settings {
    prostar::Settings {
        regulation_voltage: 100,
        float_voltage: 111,
        time_before_float: 122,
        time_before_float_low_battery: 133,
        float_low_battery_voltage_trigger: 144,
        float_cancel_voltage: 155,
        exit_float_time: 166,
        equalize_voltage: 177,
        days_between_equalize_cycles: 188,
        equalize_time_limit_above_regulation_voltage: 199,
        equalize_time_limit_at_regulation_voltage: 210,
        alarm_on_setting_change: true,
        reference_charge_voltage_limit: 221,
        battery_charge_current_limit: 232,
        temperature_compensation_coefficent: 243,
        high_voltage_disconnect: 254,
        high_voltage_reconnect: 265,
        maximum_charge_voltage_reference: 276,
        max_battery_temp_compensation_limit: 287,
        min_battery_temp_compensation_limit: 298,
        load_low_voltage_disconnect: 309,
        load_low_voltage_reconnect: 320,
        load_high_voltage_disconnect: 331,
        load_high_voltage_reconnect: 342,
        lvd_load_current_compensation: 353,
        lvd_warning_timeout: 364,
        led_green_to_green_and_yellow_limit: 375,
        led_green_and_yellow_to_yellow_limit: 386,
        led_yellow_to_yellow_and_red_limit: 397,
        led_yellow_and_red_to_red_flashing_limit: 408,
        modbus_id: 19,
        meterbus_id: 20,
        mppt_fixed_vmp: 421,
        mppt_fixed_vmp_percent: 432,
        charge_current_limit: 443,
    }
}
fn record_at(ts_ms: i64) -> Stats {
    let mut st = sample_stats();
    st.timestamp = ts_ms;
    Stats::V3 { timestamp: ts_ms, controller: Some(st) }
}

#[test]
fn combine_max_min_avg_exact() {
    let a = sample_stats();
    let b = sample_stats_b();
    let mut acc = a;
    prostar::accum(&mut acc, &b);
    assert_eq!(acc.hourmeter, a.hourmeter.max(b.hourmeter));
    assert_eq!(acc.battery_v_min_daily, a.battery_v_min_daily.min(b.battery_v_min_daily));
    assert_eq!(acc.supply_12v, (a.supply_12v + b.supply_12v) / 2);
    assert_eq!(acc.alarms, a.alarms.max(b.alarms));
    assert_eq!(acc.timestamp, a.timestamp.max(b.timestamp));
}

#[test]
fn combine_avg_is_midpoint_not_mean() {
    let mut a = sample_stats();
    let mut b = sample_stats();
    a.supply_12v = 0;
    b.supply_12v = 10;
    let mut acc = a;
    prostar::accum(&mut acc, &b);
    assert_eq!(acc.supply_12v, 5);
    let mut c = sample_stats();
    c.supply_12v = 0;
    prostar::accum(&mut acc, &c);
    assert_eq!(acc.supply_12v, 2);
}

#[test]
fn combine_rts_rules() {
    let mut a = sample_stats();
    let mut b = sample_stats();
    a.rts_temperature = None;
    b.rts_temperature = None;
    let mut acc = a;
    prostar::accum(&mut acc, &b);
    assert_eq!(acc.rts_temperature, None);
    a.rts_temperature = Some(7);
    let mut acc = a;
    prostar::accum(&mut acc, &b);
    assert_eq!(acc.rts_temperature, Some(7));
    b.rts_temperature = Some(9);
    let mut acc = a;
    prostar::accum(&mut acc, &b);
    assert_eq!(acc.rts_temperature, Some(9));
}

#[test]
fn combine_charge_state_rank() {
    let mut a = sample_stats();
    let mut b = sample_stats();
    a.charge_state = prostar::ChargeState::Start;
    b.charge_state = prostar::ChargeState::Fixed;
    let mut acc = a;
    prostar::accum(&mut acc, &b);
    assert_eq!(acc.charge_state, prostar::ChargeState::Fixed);
    a.charge_state = prostar::ChargeState::UnknownState(60000);
    b.charge_state = prostar::ChargeState::Start;
    let mut acc = a;
    prostar::accum(&mut acc, &b);
    assert_eq!(acc.charge_state, prostar::ChargeState::Start);
}

#[test]
fn stats_accum_envelope_versions() {
    let mut acc = Stats::V0(sample_stats());
    let newer = Stats::V3 { timestamp: 1704164645000 + 60000, controller: None };
    archive::stats_accum(&mut acc, &newer);
    match acc {
        Stats::V3 { timestamp, controller } => {
            assert_eq!(timestamp, 1704164645000 + 60000);
            assert_eq!(controller, Some(sample_stats()));
        }
        _ => panic!("accumulator must land on the newest version"),
    }
}

#[test]
fn decimate_six_hundred_seconds() {
    let t0: i64 = 1704164645000;
    let mut records: Vec<Stats> = Vec::new();
    let mut i: i64 = 0;
    while i < 600 {
        records.push(record_at(t0 + i * 1000));
        i += 1;
    }
    let full_count = records.len();
    assert_eq!(full_count, 600);
    let m1 = archive::decimate(60000, &records);
    assert!(m1.len() >= 9 && m1.len() <= 10, "one-minute count was {}", m1.len());
    let m10 = archive::decimate(600000, &records);
    assert_eq!(m10.len(), 1);
}

#[test]
fn decimate_window_spacing() {
    let t0: i64 = 0;
    let mut records: Vec<Stats> = Vec::new();
    let mut i: i64 = 0;
    while i < 180 {
        records.push(record_at(t0 + i * 1000));
        i += 1;
    }
    let mut d = archive::Decimate::new(60000);
    let mut window_start: Option<i64> = None;
    let mut emitted = 0;
    for r in &records {
        if window_start.is_none() {
            window_start = Some(r.timestamp());
        }
        if let Some(e) = d.step(r) {
            let start = window_start.take().expect("an emission needs an open window");
            assert!(e.timestamp() - start >= 60000);
            emitted += 1;
        }
    }
    assert!(emitted >= 2);
}

#[test]
fn archive_day_roundtrip() {
    let t0: i64 = 1704164645000;
    let mut records: Vec<Stats> = Vec::new();
    let mut i: i64 = 0;
    while i < 130 {
        records.push(record_at(t0 + i * 1000));
        i += 1;
    }
    let (full, m1, m10) = archive::archive_day(&records);
    assert_ne!(full, solar::archive::gzip_decompress(&full).unwrap());
    let back = archive::read_archive(&full).expect("full archive should decompress");
    assert_eq!(back, records);
    let back1 = archive::read_archive(&m1).expect("1m archive should decompress");
    assert_eq!(back1, archive::decimate(60000, &records));
    let back10 = archive::read_archive(&m10).expect("10m archive should decompress");
    assert_eq!(back10, archive::decimate(600000, &records));
}

#[test]
fn archive_refused_when_files_exist() {
    assert_eq!(archive::plan_archive(true, false, false, true), archive::ArchivePlan::Refuse);
    assert_eq!(archive::plan_archive(false, true, false, false), archive::ArchivePlan::Refuse);
    assert_eq!(archive::plan_archive(false, false, true, true), archive::ArchivePlan::Refuse);
    assert_eq!(
        archive::plan_archive(false, false, false, true),
        archive::ArchivePlan::RotateThenArchive
    );
    assert_eq!(
        archive::plan_archive(false, false, false, false),
        archive::ArchivePlan::ArchiveInPlace
    );
}

fn test_config() -> Config {
    Config {
        device: String::from("/dev/ttyUSB0"),
        modbus_id: 1,
        run_directory: String::from("/var/run/solar"),
        archive_directory: String::from("/var/lib/solar"),
        stats_interval: 1,
        log_level: String::from("info"),
        netidx_base: String::from("/solar"),
        netidx_bind: String::from("local"),
        netidx_spn: None,
    }
}

#[test]
fn config_paths() {
    let cfg = test_config();
    assert_eq!(cfg.pid_file(), "/var/run/solar/solar.pid");
    assert_eq!(cfg.control_socket(), "/var/run/solar/control");
    assert_eq!(cfg.log_file(), "/var/run/solar/solar.log");
}

#[test]
fn archive_paths_for_date() {
    let cfg = test_config();
    let d = archive::Date { year: 2024, month: 1, day: 2 };
    let day = cfg.archive_for_date(d);
    assert_eq!(day.all, "/var/lib/solar/solar.log-20240102.gz");
    assert_eq!(day.one_minute_averages, "/var/lib/solar/solar.log-202401021m.gz");
    assert_eq!(day.ten_minute_averages, "/var/lib/solar/solar.log-2024010210m.gz");
}

#[test]
fn history_dates_cross_leap_day() {
    let today = archive::Date { year: 2024, month: 3, day: 1 };
    let dates = archive::history_dates(today, 2);
    assert_eq!(dates.len(), 2);
    assert_eq!(dates[0], archive::Date { year: 2024, month: 2, day: 28 });
    assert_eq!(dates[1], archive::Date { year: 2024, month: 2, day: 29 });
}

#[test]
fn history_dates_cross_year() {
    let today = archive::Date { year: 2023, month: 1, day: 1 };
    let dates = archive::history_dates(today, 1);
    assert_eq!(dates[0], archive::Date { year: 2022, month: 12, day: 31 });
}

#[test]
fn damaged_archive_is_refused() {
    let garbage: Vec<u8> = b"not a gzip member".to_vec();
    assert!(archive::read_archive(&garbage).is_none());
}

#[test]
fn parse_records_stops_at_bad_line() {
    let t0: i64 = 1000;
    let records = vec![record_at(t0), record_at(t0 + 1000)];
    let mut bytes = archive::encode_records(&records);
    bytes.extend_from_slice(b"this is not a record\n");
    let more = archive::encode_records(&vec![record_at(t0 + 2000)]);
    bytes.extend_from_slice(&more);
    let back = archive::parse_records(&bytes);
    assert_eq!(back, records);
}

#[test]
fn tick_line_carries_the_wall_clock() {
    let when = chrono::Utc.with_ymd_and_hms(2024, 1, 2, 3, 4, 5).unwrap();
    let ms = when.timestamp_millis();
    let line = solar::reactor::tick_log_line(ms, Some(sample_stats()));
    let parsed = solar::wire::parse_stats_line(&line).expect("tick line should parse");
    match parsed {
        Stats::V3 { timestamp, controller } => {
            assert_eq!(timestamp, ms);
            assert_eq!(controller, Some(sample_stats()));
        }
        _ => panic!("ticks write the newest version"),
    }
}

#[test]
fn window_upper_bound_holds_on_data() {
    let t0: i64 = 1704164645000;
    let mut records: Vec<Stats> = Vec::new();
    let mut i: i64 = 0;
    while i < 120 {
        let mut st = sample_stats();
        st.timestamp = t0 + i * 1000;
        st.hourmeter = 1000 + i;
        st.battery_v_min_daily = 12000 - i;
        records.push(Stats::V3 { timestamp: t0 + i * 1000, controller: Some(st) });
        i += 1;
    }
    let windows = archive::decimate(60000, &records);
    let first = match windows[0] {
        Stats::V3 { controller: Some(c), .. } => c,
        _ => panic!("windows carry controller records"),
    };
    assert_eq!(first.hourmeter, 1000 + 60);
    assert_eq!(first.battery_v_min_daily, 12000 - 60);
}
