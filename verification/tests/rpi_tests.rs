use solar::rpi::{Relay, RelayAction, Rpi, DELAY_RELAY_MS, DELAY_REBOOT_MS};

#[test]
fn pins_match_the_board() {
    assert_eq!(Relay::R0.pin(), 26);
    assert_eq!(Relay::R1.pin(), 19);
    assert_eq!(Relay::R2.pin(), 13);
    assert_eq!(Relay::R3.pin(), 6);
}

#[test]
fn acquisition_drives_all_four_low() {
    let (rpi, plan) = Rpi::new();
    assert!(!rpi.solar() && !rpi.battery() && !rpi.master());
    assert_eq!(
        plan,
        vec![
            RelayAction::Drive(Relay::R3, false),
            RelayAction::Drive(Relay::R1, false),
            RelayAction::Drive(Relay::R2, false),
            RelayAction::Drive(Relay::R0, false),
            RelayAction::Wait(DELAY_RELAY_MS),
        ]
    );
}

#[test]
fn reboot_is_disable_then_enable() {
    let (mut rpi, _) = Rpi::new();
    rpi.mpptc_enable();
    let plan = rpi.mpptc_reboot();
    assert_eq!(
        plan,
        vec![
            RelayAction::Drive(Relay::R3, false),
            RelayAction::Wait(DELAY_RELAY_MS),
            RelayAction::Drive(Relay::R2, false),
            RelayAction::Drive(Relay::R1, false),
            RelayAction::Drive(Relay::R1, true),
            RelayAction::Wait(DELAY_RELAY_MS),
            RelayAction::Drive(Relay::R3, true),
            RelayAction::Wait(DELAY_REBOOT_MS),
            RelayAction::Drive(Relay::R2, true),
        ]
    );
    assert!(rpi.solar() && rpi.battery() && rpi.master());
}

#[test]
fn enable_sequence() {
    let (mut rpi, _) = Rpi::new();
    let plan = rpi.mpptc_enable();
    assert_eq!(
        plan,
        vec![
            RelayAction::Drive(Relay::R1, true),
            RelayAction::Wait(DELAY_RELAY_MS),
            RelayAction::Drive(Relay::R3, true),
            RelayAction::Wait(DELAY_REBOOT_MS),
            RelayAction::Drive(Relay::R2, true),
        ]
    );
    assert!(rpi.solar() && rpi.battery() && rpi.master());
}

#[test]
fn disable_sequence() {
    let (mut rpi, _) = Rpi::new();
    rpi.mpptc_enable();
    let plan = rpi.mpptc_disable();
    assert_eq!(
        plan,
        vec![
            RelayAction::Drive(Relay::R3, false),
            RelayAction::Wait(DELAY_RELAY_MS),
            RelayAction::Drive(Relay::R2, false),
            RelayAction::Drive(Relay::R1, false),
        ]
    );
    assert!(!rpi.solar() && !rpi.battery() && !rpi.master());
}

#[test]
fn converter_safety_sequence() {
    // From all-high, dropping the solar contactor while the battery
    // contactor is still high needs no master transition; dropping the
    // battery contactor afterwards, with solar already low, takes the
    // master low first and waits for the converter to drain.
    let (mut rpi, _) = Rpi::new();
    rpi.mpptc_enable();
    let plan = rpi.set_solar(false);
    assert_eq!(plan, vec![RelayAction::Drive(Relay::R2, false)]);
    assert!(rpi.battery() && rpi.master() && !rpi.solar());
    let plan = rpi.set_battery(false);
    assert_eq!(
        plan,
        vec![
            RelayAction::Drive(Relay::R3, false),
            RelayAction::Wait(DELAY_RELAY_MS),
            RelayAction::Drive(Relay::R1, false),
        ]
    );
    assert!(!rpi.battery() && !rpi.master() && !rpi.solar());
}

#[test]
fn disable_last_load_takes_master_down_first() {
    let (mut rpi, _) = Rpi::new();
    rpi.set_battery(true);
    let (on, _) = rpi.set_master(true);
    assert!(on);
    let plan = rpi.set_battery(false);
    assert_eq!(
        plan,
        vec![
            RelayAction::Drive(Relay::R3, false),
            RelayAction::Wait(DELAY_RELAY_MS),
            RelayAction::Drive(Relay::R1, false),
        ]
    );
    assert!(!rpi.master());
}

#[test]
fn master_refused_with_both_loads_off() {
    let (mut rpi, _) = Rpi::new();
    let (state, plan) = rpi.set_master(true);
    assert!(!state);
    assert_eq!(plan, vec![RelayAction::Drive(Relay::R3, false)]);
    assert!(!rpi.master());
}

#[test]
fn master_allowed_with_one_load_on() {
    let (mut rpi, _) = Rpi::new();
    rpi.set_solar(true);
    let (state, plan) = rpi.set_master(true);
    assert!(state);
    assert_eq!(plan, vec![RelayAction::Drive(Relay::R3, true)]);
    assert!(rpi.master());
}

#[test]
fn master_asked_low_goes_low() {
    let (mut rpi, _) = Rpi::new();
    rpi.set_battery(true);
    rpi.set_master(true);
    let (state, _) = rpi.set_master(false);
    assert!(!state);
    assert!(!rpi.master());
}
