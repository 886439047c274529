//! Wire codec for the controller settings record: one flat object with
//! every writable register named, in a fixed canonical order.

use vstd::prelude::*;
use crate::prostar::Settings;
use crate::codec::char_bytes;
use crate::codec::lemma_split;
use crate::codec::lemma_add_assoc;
use crate::codec::enc_field_i64;
use crate::codec::enc_field_bool;
use crate::codec::dec_field_i64;
use crate::codec::dec_field_bool;
use crate::codec::dec_field_u8;
use crate::codec::lemma_dec_enc_field_i64;
use crate::codec::lemma_dec_enc_field_bool;
use crate::codec::lemma_dec_enc_field_u8;
use crate::codec::parse_field_i64;
use crate::codec::parse_field_bool;
use crate::codec::parse_field_u8;
use crate::codec::encode_field_i64;
use crate::codec::encode_field_bool;

verus! {

pub open spec fn enc_settings_g1(v: Settings) -> Seq<u8> {
    enc_field_i64(char_bytes("\"regulation_voltage\":"@), v.regulation_voltage as int, 44u8) + (enc_field_i64(char_bytes("\"float_voltage\":"@), v.float_voltage as int, 44u8) + (enc_field_i64(char_bytes("\"time_before_float\":"@), v.time_before_float as int, 44u8) + (enc_field_i64(char_bytes("\"time_before_float_low_battery\":"@), v.time_before_float_low_battery as int, 44u8) + (enc_field_i64(char_bytes("\"float_low_battery_voltage_trigger\":"@), v.float_low_battery_voltage_trigger as int, 44u8) + (enc_field_i64(char_bytes("\"float_cancel_voltage\":"@), v.float_cancel_voltage as int, 44u8))))))
}

pub open spec fn dec_settings_g1(s: Seq<u8>, i: int) -> Option<((i64, i64, i64, i64, i64, i64), int)> {
    match dec_field_i64(s, i, char_bytes("\"regulation_voltage\":"@), 44u8) {
        None => None,
        Some((x0, i0)) =>
        match dec_field_i64(s, i0, char_bytes("\"float_voltage\":"@), 44u8) {
            None => None,
            Some((x1, i1)) =>
            match dec_field_i64(s, i1, char_bytes("\"time_before_float\":"@), 44u8) {
                None => None,
                Some((x2, i2)) =>
                match dec_field_i64(s, i2, char_bytes("\"time_before_float_low_battery\":"@), 44u8) {
                    None => None,
                    Some((x3, i3)) =>
                    match dec_field_i64(s, i3, char_bytes("\"float_low_battery_voltage_trigger\":"@), 44u8) {
                        None => None,
                        Some((x4, i4)) =>
                        match dec_field_i64(s, i4, char_bytes("\"float_cancel_voltage\":"@), 44u8) {
                            None => None,
                            Some((x5, i5)) =>
                            Some(((x0, x1, x2, x3, x4, x5), i5))
                        }
                    }
                }
            }
        }
    }
}

#[verifier::rlimit(100)]
pub proof fn lemma_dec_enc_settings_g1(s: Seq<u8>, i: int, v: Settings)
    requires
        0 <= i,
        i + enc_settings_g1(v).len() <= s.len(),
        s.subrange(i, i + enc_settings_g1(v).len() as int) == enc_settings_g1(v),
    ensures
        dec_settings_g1(s, i) == Some(((v.regulation_voltage, v.float_voltage, v.time_before_float, v.time_before_float_low_battery, v.float_low_battery_voltage_trigger, v.float_cancel_voltage), i + enc_settings_g1(v).len() as int)),
{
    let j = i + enc_settings_g1(v).len() as int;
    let f0 = enc_field_i64(char_bytes("\"regulation_voltage\":"@), v.regulation_voltage as int, 44u8);
    let f1 = enc_field_i64(char_bytes("\"float_voltage\":"@), v.float_voltage as int, 44u8);
    let f2 = enc_field_i64(char_bytes("\"time_before_float\":"@), v.time_before_float as int, 44u8);
    let f3 = enc_field_i64(char_bytes("\"time_before_float_low_battery\":"@), v.time_before_float_low_battery as int, 44u8);
    let f4 = enc_field_i64(char_bytes("\"float_low_battery_voltage_trigger\":"@), v.float_low_battery_voltage_trigger as int, 44u8);
    let f5 = enc_field_i64(char_bytes("\"float_cancel_voltage\":"@), v.float_cancel_voltage as int, 44u8);
    let t5 = f5;
    let t4 = f4 + t5;
    let t3 = f3 + t4;
    let t2 = f2 + t3;
    let t1 = f1 + t2;
    let t0 = f0 + t1;
    assert(enc_settings_g1(v) == t0);
    let p0 = i;
    lemma_split(s, p0, j, f0, t1);
    lemma_dec_enc_field_i64(s, p0, char_bytes("\"regulation_voltage\":"@), v.regulation_voltage, 44u8);
    let p1 = p0 + f0.len() as int;
    lemma_split(s, p1, j, f1, t2);
    lemma_dec_enc_field_i64(s, p1, char_bytes("\"float_voltage\":"@), v.float_voltage, 44u8);
    let p2 = p1 + f1.len() as int;
    lemma_split(s, p2, j, f2, t3);
    lemma_dec_enc_field_i64(s, p2, char_bytes("\"time_before_float\":"@), v.time_before_float, 44u8);
    let p3 = p2 + f2.len() as int;
    lemma_split(s, p3, j, f3, t4);
    lemma_dec_enc_field_i64(s, p3, char_bytes("\"time_before_float_low_battery\":"@), v.time_before_float_low_battery, 44u8);
    let p4 = p3 + f3.len() as int;
    lemma_split(s, p4, j, f4, t5);
    lemma_dec_enc_field_i64(s, p4, char_bytes("\"float_low_battery_voltage_trigger\":"@), v.float_low_battery_voltage_trigger, 44u8);
    let p5 = p4 + f4.len() as int;
    lemma_dec_enc_field_i64(s, p5, char_bytes("\"float_cancel_voltage\":"@), v.float_cancel_voltage, 44u8);
}

#[verifier::rlimit(100)]
pub fn parse_settings_g1(b: &Vec<u8>, pos: usize) -> (r: Option<((i64, i64, i64, i64, i64, i64), usize)>)
    ensures
        match r {
            Some((v, e)) => pos <= e <= b@.len() && dec_settings_g1(b@, pos as int) == Some((
                v,
                e as int,
            )),
            None => dec_settings_g1(b@, pos as int) is None,
        },
{
    proof {
        reveal_strlit("\"regulation_voltage\":");
        reveal_strlit("\"float_voltage\":");
        reveal_strlit("\"time_before_float\":");
        reveal_strlit("\"time_before_float_low_battery\":");
        reveal_strlit("\"float_low_battery_voltage_trigger\":");
        reveal_strlit("\"float_cancel_voltage\":");
    }
    match parse_field_i64(b, pos, "\"regulation_voltage\":", 44u8) {
        None => None,
        Some((x0, i0)) =>
        match parse_field_i64(b, i0, "\"float_voltage\":", 44u8) {
            None => None,
            Some((x1, i1)) =>
            match parse_field_i64(b, i1, "\"time_before_float\":", 44u8) {
                None => None,
                Some((x2, i2)) =>
                match parse_field_i64(b, i2, "\"time_before_float_low_battery\":", 44u8) {
                    None => None,
                    Some((x3, i3)) =>
                    match parse_field_i64(b, i3, "\"float_low_battery_voltage_trigger\":", 44u8) {
                        None => None,
                        Some((x4, i4)) =>
                        match parse_field_i64(b, i4, "\"float_cancel_voltage\":", 44u8) {
                            None => None,
                            Some((x5, i5)) =>
                            Some(((x0, x1, x2, x3, x4, x5), i5))
                        }
                    }
                }
            }
        }
    }
}

#[verifier::rlimit(100)]
pub fn encode_settings_g1(out: &mut Vec<u8>, v: &Settings)
    ensures
        final(out)@ == old(out)@ + enc_settings_g1(*v),
{
    proof {
        reveal_strlit("\"regulation_voltage\":");
        reveal_strlit("\"float_voltage\":");
        reveal_strlit("\"time_before_float\":");
        reveal_strlit("\"time_before_float_low_battery\":");
        reveal_strlit("\"float_low_battery_voltage_trigger\":");
        reveal_strlit("\"float_cancel_voltage\":");
    }
    encode_field_i64(out, "\"regulation_voltage\":", v.regulation_voltage, 44u8);
    encode_field_i64(out, "\"float_voltage\":", v.float_voltage, 44u8);
    encode_field_i64(out, "\"time_before_float\":", v.time_before_float, 44u8);
    encode_field_i64(out, "\"time_before_float_low_battery\":", v.time_before_float_low_battery, 44u8);
    encode_field_i64(out, "\"float_low_battery_voltage_trigger\":", v.float_low_battery_voltage_trigger, 44u8);
    encode_field_i64(out, "\"float_cancel_voltage\":", v.float_cancel_voltage, 44u8);
    assert(out@ =~= old(out)@ + enc_settings_g1(*v));
}

pub open spec fn enc_settings_g2(v: Settings) -> Seq<u8> {
    enc_field_i64(char_bytes("\"exit_float_time\":"@), v.exit_float_time as int, 44u8) + (enc_field_i64(char_bytes("\"equalize_voltage\":"@), v.equalize_voltage as int, 44u8) + (enc_field_i64(char_bytes("\"days_between_equalize_cycles\":"@), v.days_between_equalize_cycles as int, 44u8) + (enc_field_i64(char_bytes("\"equalize_time_limit_above_regulation_voltage\":"@), v.equalize_time_limit_above_regulation_voltage as int, 44u8) + (enc_field_i64(char_bytes("\"equalize_time_limit_at_regulation_voltage\":"@), v.equalize_time_limit_at_regulation_voltage as int, 44u8) + (enc_field_bool(char_bytes("\"alarm_on_setting_change\":"@), v.alarm_on_setting_change, 44u8))))))
}

pub open spec fn dec_settings_g2(s: Seq<u8>, i: int) -> Option<((i64, i64, i64, i64, i64, bool), int)> {
    match dec_field_i64(s, i, char_bytes("\"exit_float_time\":"@), 44u8) {
        None => None,
        Some((x0, i0)) =>
        match dec_field_i64(s, i0, char_bytes("\"equalize_voltage\":"@), 44u8) {
            None => None,
            Some((x1, i1)) =>
            match dec_field_i64(s, i1, char_bytes("\"days_between_equalize_cycles\":"@), 44u8) {
                None => None,
                Some((x2, i2)) =>
                match dec_field_i64(s, i2, char_bytes("\"equalize_time_limit_above_regulation_voltage\":"@), 44u8) {
                    None => None,
                    Some((x3, i3)) =>
                    match dec_field_i64(s, i3, char_bytes("\"equalize_time_limit_at_regulation_voltage\":"@), 44u8) {
                        None => None,
                        Some((x4, i4)) =>
                        match dec_field_bool(s, i4, char_bytes("\"alarm_on_setting_change\":"@), 44u8) {
                            None => None,
                            Some((x5, i5)) =>
                            Some(((x0, x1, x2, x3, x4, x5), i5))
                        }
                    }
                }
            }
        }
    }
}

#[verifier::rlimit(100)]
pub proof fn lemma_dec_enc_settings_g2(s: Seq<u8>, i: int, v: Settings)
    requires
        0 <= i,
        i + enc_settings_g2(v).len() <= s.len(),
        s.subrange(i, i + enc_settings_g2(v).len() as int) == enc_settings_g2(v),
    ensures
        dec_settings_g2(s, i) == Some(((v.exit_float_time, v.equalize_voltage, v.days_between_equalize_cycles, v.equalize_time_limit_above_regulation_voltage, v.equalize_time_limit_at_regulation_voltage, v.alarm_on_setting_change), i + enc_settings_g2(v).len() as int)),
{
    let j = i + enc_settings_g2(v).len() as int;
    let f0 = enc_field_i64(char_bytes("\"exit_float_time\":"@), v.exit_float_time as int, 44u8);
    let f1 = enc_field_i64(char_bytes("\"equalize_voltage\":"@), v.equalize_voltage as int, 44u8);
    let f2 = enc_field_i64(char_bytes("\"days_between_equalize_cycles\":"@), v.days_between_equalize_cycles as int, 44u8);
    let f3 = enc_field_i64(char_bytes("\"equalize_time_limit_above_regulation_voltage\":"@), v.equalize_time_limit_above_regulation_voltage as int, 44u8);
    let f4 = enc_field_i64(char_bytes("\"equalize_time_limit_at_regulation_voltage\":"@), v.equalize_time_limit_at_regulation_voltage as int, 44u8);
    let f5 = enc_field_bool(char_bytes("\"alarm_on_setting_change\":"@), v.alarm_on_setting_change, 44u8);
    let t5 = f5;
    let t4 = f4 + t5;
    let t3 = f3 + t4;
    let t2 = f2 + t3;
    let t1 = f1 + t2;
    let t0 = f0 + t1;
    assert(enc_settings_g2(v) == t0);
    let p0 = i;
    lemma_split(s, p0, j, f0, t1);
    lemma_dec_enc_field_i64(s, p0, char_bytes("\"exit_float_time\":"@), v.exit_float_time, 44u8);
    let p1 = p0 + f0.len() as int;
    lemma_split(s, p1, j, f1, t2);
    lemma_dec_enc_field_i64(s, p1, char_bytes("\"equalize_voltage\":"@), v.equalize_voltage, 44u8);
    let p2 = p1 + f1.len() as int;
    lemma_split(s, p2, j, f2, t3);
    lemma_dec_enc_field_i64(s, p2, char_bytes("\"days_between_equalize_cycles\":"@), v.days_between_equalize_cycles, 44u8);
    let p3 = p2 + f2.len() as int;
    lemma_split(s, p3, j, f3, t4);
    lemma_dec_enc_field_i64(s, p3, char_bytes("\"equalize_time_limit_above_regulation_voltage\":"@), v.equalize_time_limit_above_regulation_voltage, 44u8);
    let p4 = p3 + f3.len() as int;
    lemma_split(s, p4, j, f4, t5);
    lemma_dec_enc_field_i64(s, p4, char_bytes("\"equalize_time_limit_at_regulation_voltage\":"@), v.equalize_time_limit_at_regulation_voltage, 44u8);
    let p5 = p4 + f4.len() as int;
    lemma_dec_enc_field_bool(s, p5, char_bytes("\"alarm_on_setting_change\":"@), v.alarm_on_setting_change, 44u8);
}

#[verifier::rlimit(100)]
pub fn parse_settings_g2(b: &Vec<u8>, pos: usize) -> (r: Option<((i64, i64, i64, i64, i64, bool), usize)>)
    ensures
        match r {
            Some((v, e)) => pos <= e <= b@.len() && dec_settings_g2(b@, pos as int) == Some((
                v,
                e as int,
            )),
            None => dec_settings_g2(b@, pos as int) is None,
        },
{
    proof {
        reveal_strlit("\"exit_float_time\":");
        reveal_strlit("\"equalize_voltage\":");
        reveal_strlit("\"days_between_equalize_cycles\":");
        reveal_strlit("\"equalize_time_limit_above_regulation_voltage\":");
        reveal_strlit("\"equalize_time_limit_at_regulation_voltage\":");
        reveal_strlit("\"alarm_on_setting_change\":");
    }
    match parse_field_i64(b, pos, "\"exit_float_time\":", 44u8) {
        None => None,
        Some((x0, i0)) =>
        match parse_field_i64(b, i0, "\"equalize_voltage\":", 44u8) {
            None => None,
            Some((x1, i1)) =>
            match parse_field_i64(b, i1, "\"days_between_equalize_cycles\":", 44u8) {
                None => None,
                Some((x2, i2)) =>
                match parse_field_i64(b, i2, "\"equalize_time_limit_above_regulation_voltage\":", 44u8) {
                    None => None,
                    Some((x3, i3)) =>
                    match parse_field_i64(b, i3, "\"equalize_time_limit_at_regulation_voltage\":", 44u8) {
                        None => None,
                        Some((x4, i4)) =>
                        match parse_field_bool(b, i4, "\"alarm_on_setting_change\":", 44u8) {
                            None => None,
                            Some((x5, i5)) =>
                            Some(((x0, x1, x2, x3, x4, x5), i5))
                        }
                    }
                }
            }
        }
    }
}

#[verifier::rlimit(100)]
pub fn encode_settings_g2(out: &mut Vec<u8>, v: &Settings)
    ensures
        final(out)@ == old(out)@ + enc_settings_g2(*v),
{
    proof {
        reveal_strlit("\"exit_float_time\":");
        reveal_strlit("\"equalize_voltage\":");
        reveal_strlit("\"days_between_equalize_cycles\":");
        reveal_strlit("\"equalize_time_limit_above_regulation_voltage\":");
        reveal_strlit("\"equalize_time_limit_at_regulation_voltage\":");
        reveal_strlit("\"alarm_on_setting_change\":");
    }
    encode_field_i64(out, "\"exit_float_time\":", v.exit_float_time, 44u8);
    encode_field_i64(out, "\"equalize_voltage\":", v.equalize_voltage, 44u8);
    encode_field_i64(out, "\"days_between_equalize_cycles\":", v.days_between_equalize_cycles, 44u8);
    encode_field_i64(out, "\"equalize_time_limit_above_regulation_voltage\":", v.equalize_time_limit_above_regulation_voltage, 44u8);
    encode_field_i64(out, "\"equalize_time_limit_at_regulation_voltage\":", v.equalize_time_limit_at_regulation_voltage, 44u8);
    encode_field_bool(out, "\"alarm_on_setting_change\":", v.alarm_on_setting_change, 44u8);
    assert(out@ =~= old(out)@ + enc_settings_g2(*v));
}

pub open spec fn enc_settings_g3(v: Settings) -> Seq<u8> {
    enc_field_i64(char_bytes("\"reference_charge_voltage_limit\":"@), v.reference_charge_voltage_limit as int, 44u8) + (enc_field_i64(char_bytes("\"battery_charge_current_limit\":"@), v.battery_charge_current_limit as int, 44u8) + (enc_field_i64(char_bytes("\"temperature_compensation_coefficent\":"@), v.temperature_compensation_coefficent as int, 44u8) + (enc_field_i64(char_bytes("\"high_voltage_disconnect\":"@), v.high_voltage_disconnect as int, 44u8) + (enc_field_i64(char_bytes("\"high_voltage_reconnect\":"@), v.high_voltage_reconnect as int, 44u8) + (enc_field_i64(char_bytes("\"maximum_charge_voltage_reference\":"@), v.maximum_charge_voltage_reference as int, 44u8))))))
}

pub open spec fn dec_settings_g3(s: Seq<u8>, i: int) -> Option<((i64, i64, i64, i64, i64, i64), int)> {
    match dec_field_i64(s, i, char_bytes("\"reference_charge_voltage_limit\":"@), 44u8) {
        None => None,
        Some((x0, i0)) =>
        match dec_field_i64(s, i0, char_bytes("\"battery_charge_current_limit\":"@), 44u8) {
            None => None,
            Some((x1, i1)) =>
            match dec_field_i64(s, i1, char_bytes("\"temperature_compensation_coefficent\":"@), 44u8) {
                None => None,
                Some((x2, i2)) =>
                match dec_field_i64(s, i2, char_bytes("\"high_voltage_disconnect\":"@), 44u8) {
                    None => None,
                    Some((x3, i3)) =>
                    match dec_field_i64(s, i3, char_bytes("\"high_voltage_reconnect\":"@), 44u8) {
                        None => None,
                        Some((x4, i4)) =>
                        match dec_field_i64(s, i4, char_bytes("\"maximum_charge_voltage_reference\":"@), 44u8) {
                            None => None,
                            Some((x5, i5)) =>
                            Some(((x0, x1, x2, x3, x4, x5), i5))
                        }
                    }
                }
            }
        }
    }
}

#[verifier::rlimit(100)]
pub proof fn lemma_dec_enc_settings_g3(s: Seq<u8>, i: int, v: Settings)
    requires
        0 <= i,
        i + enc_settings_g3(v).len() <= s.len(),
        s.subrange(i, i + enc_settings_g3(v).len() as int) == enc_settings_g3(v),
    ensures
        dec_settings_g3(s, i) == Some(((v.reference_charge_voltage_limit, v.battery_charge_current_limit, v.temperature_compensation_coefficent, v.high_voltage_disconnect, v.high_voltage_reconnect, v.maximum_charge_voltage_reference), i + enc_settings_g3(v).len() as int)),
{
    let j = i + enc_settings_g3(v).len() as int;
    let f0 = enc_field_i64(char_bytes("\"reference_charge_voltage_limit\":"@), v.reference_charge_voltage_limit as int, 44u8);
    let f1 = enc_field_i64(char_bytes("\"battery_charge_current_limit\":"@), v.battery_charge_current_limit as int, 44u8);
    let f2 = enc_field_i64(char_bytes("\"temperature_compensation_coefficent\":"@), v.temperature_compensation_coefficent as int, 44u8);
    let f3 = enc_field_i64(char_bytes("\"high_voltage_disconnect\":"@), v.high_voltage_disconnect as int, 44u8);
    let f4 = enc_field_i64(char_bytes("\"high_voltage_reconnect\":"@), v.high_voltage_reconnect as int, 44u8);
    let f5 = enc_field_i64(char_bytes("\"maximum_charge_voltage_reference\":"@), v.maximum_charge_voltage_reference as int, 44u8);
    let t5 = f5;
    let t4 = f4 + t5;
    let t3 = f3 + t4;
    let t2 = f2 + t3;
    let t1 = f1 + t2;
    let t0 = f0 + t1;
    assert(enc_settings_g3(v) == t0);
    let p0 = i;
    lemma_split(s, p0, j, f0, t1);
    lemma_dec_enc_field_i64(s, p0, char_bytes("\"reference_charge_voltage_limit\":"@), v.reference_charge_voltage_limit, 44u8);
    let p1 = p0 + f0.len() as int;
    lemma_split(s, p1, j, f1, t2);
    lemma_dec_enc_field_i64(s, p1, char_bytes("\"battery_charge_current_limit\":"@), v.battery_charge_current_limit, 44u8);
    let p2 = p1 + f1.len() as int;
    lemma_split(s, p2, j, f2, t3);
    lemma_dec_enc_field_i64(s, p2, char_bytes("\"temperature_compensation_coefficent\":"@), v.temperature_compensation_coefficent, 44u8);
    let p3 = p2 + f2.len() as int;
    lemma_split(s, p3, j, f3, t4);
    lemma_dec_enc_field_i64(s, p3, char_bytes("\"high_voltage_disconnect\":"@), v.high_voltage_disconnect, 44u8);
    let p4 = p3 + f3.len() as int;
    lemma_split(s, p4, j, f4, t5);
    lemma_dec_enc_field_i64(s, p4, char_bytes("\"high_voltage_reconnect\":"@), v.high_voltage_reconnect, 44u8);
    let p5 = p4 + f4.len() as int;
    lemma_dec_enc_field_i64(s, p5, char_bytes("\"maximum_charge_voltage_reference\":"@), v.maximum_charge_voltage_reference, 44u8);
}

#[verifier::rlimit(100)]
pub fn parse_settings_g3(b: &Vec<u8>, pos: usize) -> (r: Option<((i64, i64, i64, i64, i64, i64), usize)>)
    ensures
        match r {
            Some((v, e)) => pos <= e <= b@.len() && dec_settings_g3(b@, pos as int) == Some((
                v,
                e as int,
            )),
            None => dec_settings_g3(b@, pos as int) is None,
        },
{
    proof {
        reveal_strlit("\"reference_charge_voltage_limit\":");
        reveal_strlit("\"battery_charge_current_limit\":");
        reveal_strlit("\"temperature_compensation_coefficent\":");
        reveal_strlit("\"high_voltage_disconnect\":");
        reveal_strlit("\"high_voltage_reconnect\":");
        reveal_strlit("\"maximum_charge_voltage_reference\":");
    }
    match parse_field_i64(b, pos, "\"reference_charge_voltage_limit\":", 44u8) {
        None => None,
        Some((x0, i0)) =>
        match parse_field_i64(b, i0, "\"battery_charge_current_limit\":", 44u8) {
            None => None,
            Some((x1, i1)) =>
            match parse_field_i64(b, i1, "\"temperature_compensation_coefficent\":", 44u8) {
                None => None,
                Some((x2, i2)) =>
                match parse_field_i64(b, i2, "\"high_voltage_disconnect\":", 44u8) {
                    None => None,
                    Some((x3, i3)) =>
                    match parse_field_i64(b, i3, "\"high_voltage_reconnect\":", 44u8) {
                        None => None,
                        Some((x4, i4)) =>
                        match parse_field_i64(b, i4, "\"maximum_charge_voltage_reference\":", 44u8) {
                            None => None,
                            Some((x5, i5)) =>
                            Some(((x0, x1, x2, x3, x4, x5), i5))
                        }
                    }
                }
            }
        }
    }
}

#[verifier::rlimit(100)]
pub fn encode_settings_g3(out: &mut Vec<u8>, v: &Settings)
    ensures
        final(out)@ == old(out)@ + enc_settings_g3(*v),
{
    proof {
        reveal_strlit("\"reference_charge_voltage_limit\":");
        reveal_strlit("\"battery_charge_current_limit\":");
        reveal_strlit("\"temperature_compensation_coefficent\":");
        reveal_strlit("\"high_voltage_disconnect\":");
        reveal_strlit("\"high_voltage_reconnect\":");
        reveal_strlit("\"maximum_charge_voltage_reference\":");
    }
    encode_field_i64(out, "\"reference_charge_voltage_limit\":", v.reference_charge_voltage_limit, 44u8);
    encode_field_i64(out, "\"battery_charge_current_limit\":", v.battery_charge_current_limit, 44u8);
    encode_field_i64(out, "\"temperature_compensation_coefficent\":", v.temperature_compensation_coefficent, 44u8);
    encode_field_i64(out, "\"high_voltage_disconnect\":", v.high_voltage_disconnect, 44u8);
    encode_field_i64(out, "\"high_voltage_reconnect\":", v.high_voltage_reconnect, 44u8);
    encode_field_i64(out, "\"maximum_charge_voltage_reference\":", v.maximum_charge_voltage_reference, 44u8);
    assert(out@ =~= old(out)@ + enc_settings_g3(*v));
}

pub open spec fn enc_settings_g4(v: Settings) -> Seq<u8> {
    enc_field_i64(char_bytes("\"max_battery_temp_compensation_limit\":"@), v.max_battery_temp_compensation_limit as int, 44u8) + (enc_field_i64(char_bytes("\"min_battery_temp_compensation_limit\":"@), v.min_battery_temp_compensation_limit as int, 44u8) + (enc_field_i64(char_bytes("\"load_low_voltage_disconnect\":"@), v.load_low_voltage_disconnect as int, 44u8) + (enc_field_i64(char_bytes("\"load_low_voltage_reconnect\":"@), v.load_low_voltage_reconnect as int, 44u8) + (enc_field_i64(char_bytes("\"load_high_voltage_disconnect\":"@), v.load_high_voltage_disconnect as int, 44u8) + (enc_field_i64(char_bytes("\"load_high_voltage_reconnect\":"@), v.load_high_voltage_reconnect as int, 44u8))))))
}

pub open spec fn dec_settings_g4(s: Seq<u8>, i: int) -> Option<((i64, i64, i64, i64, i64, i64), int)> {
    match dec_field_i64(s, i, char_bytes("\"max_battery_temp_compensation_limit\":"@), 44u8) {
        None => None,
        Some((x0, i0)) =>
        match dec_field_i64(s, i0, char_bytes("\"min_battery_temp_compensation_limit\":"@), 44u8) {
            None => None,
            Some((x1, i1)) =>
            match dec_field_i64(s, i1, char_bytes("\"load_low_voltage_disconnect\":"@), 44u8) {
                None => None,
                Some((x2, i2)) =>
                match dec_field_i64(s, i2, char_bytes("\"load_low_voltage_reconnect\":"@), 44u8) {
                    None => None,
                    Some((x3, i3)) =>
                    match dec_field_i64(s, i3, char_bytes("\"load_high_voltage_disconnect\":"@), 44u8) {
                        None => None,
                        Some((x4, i4)) =>
                        match dec_field_i64(s, i4, char_bytes("\"load_high_voltage_reconnect\":"@), 44u8) {
                            None => None,
                            Some((x5, i5)) =>
                            Some(((x0, x1, x2, x3, x4, x5), i5))
                        }
                    }
                }
            }
        }
    }
}

#[verifier::rlimit(100)]
pub proof fn lemma_dec_enc_settings_g4(s: Seq<u8>, i: int, v: Settings)
    requires
        0 <= i,
        i + enc_settings_g4(v).len() <= s.len(),
        s.subrange(i, i + enc_settings_g4(v).len() as int) == enc_settings_g4(v),
    ensures
        dec_settings_g4(s, i) == Some(((v.max_battery_temp_compensation_limit, v.min_battery_temp_compensation_limit, v.load_low_voltage_disconnect, v.load_low_voltage_reconnect, v.load_high_voltage_disconnect, v.load_high_voltage_reconnect), i + enc_settings_g4(v).len() as int)),
{
    let j = i + enc_settings_g4(v).len() as int;
    let f0 = enc_field_i64(char_bytes("\"max_battery_temp_compensation_limit\":"@), v.max_battery_temp_compensation_limit as int, 44u8);
    let f1 = enc_field_i64(char_bytes("\"min_battery_temp_compensation_limit\":"@), v.min_battery_temp_compensation_limit as int, 44u8);
    let f2 = enc_field_i64(char_bytes("\"load_low_voltage_disconnect\":"@), v.load_low_voltage_disconnect as int, 44u8);
    let f3 = enc_field_i64(char_bytes("\"load_low_voltage_reconnect\":"@), v.load_low_voltage_reconnect as int, 44u8);
    let f4 = enc_field_i64(char_bytes("\"load_high_voltage_disconnect\":"@), v.load_high_voltage_disconnect as int, 44u8);
    let f5 = enc_field_i64(char_bytes("\"load_high_voltage_reconnect\":"@), v.load_high_voltage_reconnect as int, 44u8);
    let t5 = f5;
    let t4 = f4 + t5;
    let t3 = f3 + t4;
    let t2 = f2 + t3;
    let t1 = f1 + t2;
    let t0 = f0 + t1;
    assert(enc_settings_g4(v) == t0);
    let p0 = i;
    lemma_split(s, p0, j, f0, t1);
    lemma_dec_enc_field_i64(s, p0, char_bytes("\"max_battery_temp_compensation_limit\":"@), v.max_battery_temp_compensation_limit, 44u8);
    let p1 = p0 + f0.len() as int;
    lemma_split(s, p1, j, f1, t2);
    lemma_dec_enc_field_i64(s, p1, char_bytes("\"min_battery_temp_compensation_limit\":"@), v.min_battery_temp_compensation_limit, 44u8);
    let p2 = p1 + f1.len() as int;
    lemma_split(s, p2, j, f2, t3);
    lemma_dec_enc_field_i64(s, p2, char_bytes("\"load_low_voltage_disconnect\":"@), v.load_low_voltage_disconnect, 44u8);
    let p3 = p2 + f2.len() as int;
    lemma_split(s, p3, j, f3, t4);
    lemma_dec_enc_field_i64(s, p3, char_bytes("\"load_low_voltage_reconnect\":"@), v.load_low_voltage_reconnect, 44u8);
    let p4 = p3 + f3.len() as int;
    lemma_split(s, p4, j, f4, t5);
    lemma_dec_enc_field_i64(s, p4, char_bytes("\"load_high_voltage_disconnect\":"@), v.load_high_voltage_disconnect, 44u8);
    let p5 = p4 + f4.len() as int;
    lemma_dec_enc_field_i64(s, p5, char_bytes("\"load_high_voltage_reconnect\":"@), v.load_high_voltage_reconnect, 44u8);
}

#[verifier::rlimit(100)]
pub fn parse_settings_g4(b: &Vec<u8>, pos: usize) -> (r: Option<((i64, i64, i64, i64, i64, i64), usize)>)
    ensures
        match r {
            Some((v, e)) => pos <= e <= b@.len() && dec_settings_g4(b@, pos as int) == Some((
                v,
                e as int,
            )),
            None => dec_settings_g4(b@, pos as int) is None,
        },
{
    proof {
        reveal_strlit("\"max_battery_temp_compensation_limit\":");
        reveal_strlit("\"min_battery_temp_compensation_limit\":");
        reveal_strlit("\"load_low_voltage_disconnect\":");
        reveal_strlit("\"load_low_voltage_reconnect\":");
        reveal_strlit("\"load_high_voltage_disconnect\":");
        reveal_strlit("\"load_high_voltage_reconnect\":");
    }
    match parse_field_i64(b, pos, "\"max_battery_temp_compensation_limit\":", 44u8) {
        None => None,
        Some((x0, i0)) =>
        match parse_field_i64(b, i0, "\"min_battery_temp_compensation_limit\":", 44u8) {
            None => None,
            Some((x1, i1)) =>
            match parse_field_i64(b, i1, "\"load_low_voltage_disconnect\":", 44u8) {
                None => None,
                Some((x2, i2)) =>
                match parse_field_i64(b, i2, "\"load_low_voltage_reconnect\":", 44u8) {
                    None => None,
                    Some((x3, i3)) =>
                    match parse_field_i64(b, i3, "\"load_high_voltage_disconnect\":", 44u8) {
                        None => None,
                        Some((x4, i4)) =>
                        match parse_field_i64(b, i4, "\"load_high_voltage_reconnect\":", 44u8) {
                            None => None,
                            Some((x5, i5)) =>
                            Some(((x0, x1, x2, x3, x4, x5), i5))
                        }
                    }
                }
            }
        }
    }
}

#[verifier::rlimit(100)]
pub fn encode_settings_g4(out: &mut Vec<u8>, v: &Settings)
    ensures
        final(out)@ == old(out)@ + enc_settings_g4(*v),
{
    proof {
        reveal_strlit("\"max_battery_temp_compensation_limit\":");
        reveal_strlit("\"min_battery_temp_compensation_limit\":");
        reveal_strlit("\"load_low_voltage_disconnect\":");
        reveal_strlit("\"load_low_voltage_reconnect\":");
        reveal_strlit("\"load_high_voltage_disconnect\":");
        reveal_strlit("\"load_high_voltage_reconnect\":");
    }
    encode_field_i64(out, "\"max_battery_temp_compensation_limit\":", v.max_battery_temp_compensation_limit, 44u8);
    encode_field_i64(out, "\"min_battery_temp_compensation_limit\":", v.min_battery_temp_compensation_limit, 44u8);
    encode_field_i64(out, "\"load_low_voltage_disconnect\":", v.load_low_voltage_disconnect, 44u8);
    encode_field_i64(out, "\"load_low_voltage_reconnect\":", v.load_low_voltage_reconnect, 44u8);
    encode_field_i64(out, "\"load_high_voltage_disconnect\":", v.load_high_voltage_disconnect, 44u8);
    encode_field_i64(out, "\"load_high_voltage_reconnect\":", v.load_high_voltage_reconnect, 44u8);
    assert(out@ =~= old(out)@ + enc_settings_g4(*v));
}

pub open spec fn enc_settings_g5(v: Settings) -> Seq<u8> {
    enc_field_i64(char_bytes("\"lvd_load_current_compensation\":"@), v.lvd_load_current_compensation as int, 44u8) + (enc_field_i64(char_bytes("\"lvd_warning_timeout\":"@), v.lvd_warning_timeout as int, 44u8) + (enc_field_i64(char_bytes("\"led_green_to_green_and_yellow_limit\":"@), v.led_green_to_green_and_yellow_limit as int, 44u8) + (enc_field_i64(char_bytes("\"led_green_and_yellow_to_yellow_limit\":"@), v.led_green_and_yellow_to_yellow_limit as int, 44u8) + (enc_field_i64(char_bytes("\"led_yellow_to_yellow_and_red_limit\":"@), v.led_yellow_to_yellow_and_red_limit as int, 44u8) + (enc_field_i64(char_bytes("\"led_yellow_and_red_to_red_flashing_limit\":"@), v.led_yellow_and_red_to_red_flashing_limit as int, 44u8))))))
}

pub open spec fn dec_settings_g5(s: Seq<u8>, i: int) -> Option<((i64, i64, i64, i64, i64, i64), int)> {
    match dec_field_i64(s, i, char_bytes("\"lvd_load_current_compensation\":"@), 44u8) {
        None => None,
        Some((x0, i0)) =>
        match dec_field_i64(s, i0, char_bytes("\"lvd_warning_timeout\":"@), 44u8) {
            None => None,
            Some((x1, i1)) =>
            match dec_field_i64(s, i1, char_bytes("\"led_green_to_green_and_yellow_limit\":"@), 44u8) {
                None => None,
                Some((x2, i2)) =>
                match dec_field_i64(s, i2, char_bytes("\"led_green_and_yellow_to_yellow_limit\":"@), 44u8) {
                    None => None,
                    Some((x3, i3)) =>
                    match dec_field_i64(s, i3, char_bytes("\"led_yellow_to_yellow_and_red_limit\":"@), 44u8) {
                        None => None,
                        Some((x4, i4)) =>
                        match dec_field_i64(s, i4, char_bytes("\"led_yellow_and_red_to_red_flashing_limit\":"@), 44u8) {
                            None => None,
                            Some((x5, i5)) =>
                            Some(((x0, x1, x2, x3, x4, x5), i5))
                        }
                    }
                }
            }
        }
    }
}

#[verifier::rlimit(100)]
pub proof fn lemma_dec_enc_settings_g5(s: Seq<u8>, i: int, v: Settings)
    requires
        0 <= i,
        i + enc_settings_g5(v).len() <= s.len(),
        s.subrange(i, i + enc_settings_g5(v).len() as int) == enc_settings_g5(v),
    ensures
        dec_settings_g5(s, i) == Some(((v.lvd_load_current_compensation, v.lvd_warning_timeout, v.led_green_to_green_and_yellow_limit, v.led_green_and_yellow_to_yellow_limit, v.led_yellow_to_yellow_and_red_limit, v.led_yellow_and_red_to_red_flashing_limit), i + enc_settings_g5(v).len() as int)),
{
    let j = i + enc_settings_g5(v).len() as int;
    let f0 = enc_field_i64(char_bytes("\"lvd_load_current_compensation\":"@), v.lvd_load_current_compensation as int, 44u8);
    let f1 = enc_field_i64(char_bytes("\"lvd_warning_timeout\":"@), v.lvd_warning_timeout as int, 44u8);
    let f2 = enc_field_i64(char_bytes("\"led_green_to_green_and_yellow_limit\":"@), v.led_green_to_green_and_yellow_limit as int, 44u8);
    let f3 = enc_field_i64(char_bytes("\"led_green_and_yellow_to_yellow_limit\":"@), v.led_green_and_yellow_to_yellow_limit as int, 44u8);
    let f4 = enc_field_i64(char_bytes("\"led_yellow_to_yellow_and_red_limit\":"@), v.led_yellow_to_yellow_and_red_limit as int, 44u8);
    let f5 = enc_field_i64(char_bytes("\"led_yellow_and_red_to_red_flashing_limit\":"@), v.led_yellow_and_red_to_red_flashing_limit as int, 44u8);
    let t5 = f5;
    let t4 = f4 + t5;
    let t3 = f3 + t4;
    let t2 = f2 + t3;
    let t1 = f1 + t2;
    let t0 = f0 + t1;
    assert(enc_settings_g5(v) == t0);
    let p0 = i;
    lemma_split(s, p0, j, f0, t1);
    lemma_dec_enc_field_i64(s, p0, char_bytes("\"lvd_load_current_compensation\":"@), v.lvd_load_current_compensation, 44u8);
    let p1 = p0 + f0.len() as int;
    lemma_split(s, p1, j, f1, t2);
    lemma_dec_enc_field_i64(s, p1, char_bytes("\"lvd_warning_timeout\":"@), v.lvd_warning_timeout, 44u8);
    let p2 = p1 + f1.len() as int;
    lemma_split(s, p2, j, f2, t3);
    lemma_dec_enc_field_i64(s, p2, char_bytes("\"led_green_to_green_and_yellow_limit\":"@), v.led_green_to_green_and_yellow_limit, 44u8);
    let p3 = p2 + f2.len() as int;
    lemma_split(s, p3, j, f3, t4);
    lemma_dec_enc_field_i64(s, p3, char_bytes("\"led_green_and_yellow_to_yellow_limit\":"@), v.led_green_and_yellow_to_yellow_limit, 44u8);
    let p4 = p3 + f3.len() as int;
    lemma_split(s, p4, j, f4, t5);
    lemma_dec_enc_field_i64(s, p4, char_bytes("\"led_yellow_to_yellow_and_red_limit\":"@), v.led_yellow_to_yellow_and_red_limit, 44u8);
    let p5 = p4 + f4.len() as int;
    lemma_dec_enc_field_i64(s, p5, char_bytes("\"led_yellow_and_red_to_red_flashing_limit\":"@), v.led_yellow_and_red_to_red_flashing_limit, 44u8);
}

#[verifier::rlimit(100)]
pub fn parse_settings_g5(b: &Vec<u8>, pos: usize) -> (r: Option<((i64, i64, i64, i64, i64, i64), usize)>)
    ensures
        match r {
            Some((v, e)) => pos <= e <= b@.len() && dec_settings_g5(b@, pos as int) == Some((
                v,
                e as int,
            )),
            None => dec_settings_g5(b@, pos as int) is None,
        },
{
    proof {
        reveal_strlit("\"lvd_load_current_compensation\":");
        reveal_strlit("\"lvd_warning_timeout\":");
        reveal_strlit("\"led_green_to_green_and_yellow_limit\":");
        reveal_strlit("\"led_green_and_yellow_to_yellow_limit\":");
        reveal_strlit("\"led_yellow_to_yellow_and_red_limit\":");
        reveal_strlit("\"led_yellow_and_red_to_red_flashing_limit\":");
    }
    match parse_field_i64(b, pos, "\"lvd_load_current_compensation\":", 44u8) {
        None => None,
        Some((x0, i0)) =>
        match parse_field_i64(b, i0, "\"lvd_warning_timeout\":", 44u8) {
            None => None,
            Some((x1, i1)) =>
            match parse_field_i64(b, i1, "\"led_green_to_green_and_yellow_limit\":", 44u8) {
                None => None,
                Some((x2, i2)) =>
                match parse_field_i64(b, i2, "\"led_green_and_yellow_to_yellow_limit\":", 44u8) {
                    None => None,
                    Some((x3, i3)) =>
                    match parse_field_i64(b, i3, "\"led_yellow_to_yellow_and_red_limit\":", 44u8) {
                        None => None,
                        Some((x4, i4)) =>
                        match parse_field_i64(b, i4, "\"led_yellow_and_red_to_red_flashing_limit\":", 44u8) {
                            None => None,
                            Some((x5, i5)) =>
                            Some(((x0, x1, x2, x3, x4, x5), i5))
                        }
                    }
                }
            }
        }
    }
}

#[verifier::rlimit(100)]
pub fn encode_settings_g5(out: &mut Vec<u8>, v: &Settings)
    ensures
        final(out)@ == old(out)@ + enc_settings_g5(*v),
{
    proof {
        reveal_strlit("\"lvd_load_current_compensation\":");
        reveal_strlit("\"lvd_warning_timeout\":");
        reveal_strlit("\"led_green_to_green_and_yellow_limit\":");
        reveal_strlit("\"led_green_and_yellow_to_yellow_limit\":");
        reveal_strlit("\"led_yellow_to_yellow_and_red_limit\":");
        reveal_strlit("\"led_yellow_and_red_to_red_flashing_limit\":");
    }
    encode_field_i64(out, "\"lvd_load_current_compensation\":", v.lvd_load_current_compensation, 44u8);
    encode_field_i64(out, "\"lvd_warning_timeout\":", v.lvd_warning_timeout, 44u8);
    encode_field_i64(out, "\"led_green_to_green_and_yellow_limit\":", v.led_green_to_green_and_yellow_limit, 44u8);
    encode_field_i64(out, "\"led_green_and_yellow_to_yellow_limit\":", v.led_green_and_yellow_to_yellow_limit, 44u8);
    encode_field_i64(out, "\"led_yellow_to_yellow_and_red_limit\":", v.led_yellow_to_yellow_and_red_limit, 44u8);
    encode_field_i64(out, "\"led_yellow_and_red_to_red_flashing_limit\":", v.led_yellow_and_red_to_red_flashing_limit, 44u8);
    assert(out@ =~= old(out)@ + enc_settings_g5(*v));
}

pub open spec fn enc_settings_g6(v: Settings) -> Seq<u8> {
    enc_field_i64(char_bytes("\"modbus_id\":"@), v.modbus_id as int, 44u8) + (enc_field_i64(char_bytes("\"meterbus_id\":"@), v.meterbus_id as int, 44u8) + (enc_field_i64(char_bytes("\"mppt_fixed_vmp\":"@), v.mppt_fixed_vmp as int, 44u8) + (enc_field_i64(char_bytes("\"mppt_fixed_vmp_percent\":"@), v.mppt_fixed_vmp_percent as int, 44u8) + (enc_field_i64(char_bytes("\"charge_current_limit\":"@), v.charge_current_limit as int, 125u8)))))
}

pub open spec fn dec_settings_g6(s: Seq<u8>, i: int) -> Option<((u8, u8, i64, i64, i64), int)> {
    match dec_field_u8(s, i, char_bytes("\"modbus_id\":"@), 44u8) {
        None => None,
        Some((x0, i0)) =>
        match dec_field_u8(s, i0, char_bytes("\"meterbus_id\":"@), 44u8) {
            None => None,
            Some((x1, i1)) =>
            match dec_field_i64(s, i1, char_bytes("\"mppt_fixed_vmp\":"@), 44u8) {
                None => None,
                Some((x2, i2)) =>
                match dec_field_i64(s, i2, char_bytes("\"mppt_fixed_vmp_percent\":"@), 44u8) {
                    None => None,
                    Some((x3, i3)) =>
                    match dec_field_i64(s, i3, char_bytes("\"charge_current_limit\":"@), 125u8) {
                        None => None,
                        Some((x4, i4)) =>
                        Some(((x0, x1, x2, x3, x4), i4))
                    }
                }
            }
        }
    }
}

#[verifier::rlimit(100)]
pub proof fn lemma_dec_enc_settings_g6(s: Seq<u8>, i: int, v: Settings)
    requires
        0 <= i,
        i + enc_settings_g6(v).len() <= s.len(),
        s.subrange(i, i + enc_settings_g6(v).len() as int) == enc_settings_g6(v),
    ensures
        dec_settings_g6(s, i) == Some(((v.modbus_id, v.meterbus_id, v.mppt_fixed_vmp, v.mppt_fixed_vmp_percent, v.charge_current_limit), i + enc_settings_g6(v).len() as int)),
{
    let j = i + enc_settings_g6(v).len() as int;
    let f0 = enc_field_i64(char_bytes("\"modbus_id\":"@), v.modbus_id as int, 44u8);
    let f1 = enc_field_i64(char_bytes("\"meterbus_id\":"@), v.meterbus_id as int, 44u8);
    let f2 = enc_field_i64(char_bytes("\"mppt_fixed_vmp\":"@), v.mppt_fixed_vmp as int, 44u8);
    let f3 = enc_field_i64(char_bytes("\"mppt_fixed_vmp_percent\":"@), v.mppt_fixed_vmp_percent as int, 44u8);
    let f4 = enc_field_i64(char_bytes("\"charge_current_limit\":"@), v.charge_current_limit as int, 125u8);
    let t4 = f4;
    let t3 = f3 + t4;
    let t2 = f2 + t3;
    let t1 = f1 + t2;
    let t0 = f0 + t1;
    assert(enc_settings_g6(v) == t0);
    let p0 = i;
    lemma_split(s, p0, j, f0, t1);
    lemma_dec_enc_field_u8(s, p0, char_bytes("\"modbus_id\":"@), v.modbus_id, 44u8);
    let p1 = p0 + f0.len() as int;
    lemma_split(s, p1, j, f1, t2);
    lemma_dec_enc_field_u8(s, p1, char_bytes("\"meterbus_id\":"@), v.meterbus_id, 44u8);
    let p2 = p1 + f1.len() as int;
    lemma_split(s, p2, j, f2, t3);
    lemma_dec_enc_field_i64(s, p2, char_bytes("\"mppt_fixed_vmp\":"@), v.mppt_fixed_vmp, 44u8);
    let p3 = p2 + f2.len() as int;
    lemma_split(s, p3, j, f3, t4);
    lemma_dec_enc_field_i64(s, p3, char_bytes("\"mppt_fixed_vmp_percent\":"@), v.mppt_fixed_vmp_percent, 44u8);
    let p4 = p3 + f3.len() as int;
    lemma_dec_enc_field_i64(s, p4, char_bytes("\"charge_current_limit\":"@), v.charge_current_limit, 125u8);
}

#[verifier::rlimit(100)]
pub fn parse_settings_g6(b: &Vec<u8>, pos: usize) -> (r: Option<((u8, u8, i64, i64, i64), usize)>)
    ensures
        match r {
            Some((v, e)) => pos <= e <= b@.len() && dec_settings_g6(b@, pos as int) == Some((
                v,
                e as int,
            )),
            None => dec_settings_g6(b@, pos as int) is None,
        },
{
    proof {
        reveal_strlit("\"modbus_id\":");
        reveal_strlit("\"meterbus_id\":");
        reveal_strlit("\"mppt_fixed_vmp\":");
        reveal_strlit("\"mppt_fixed_vmp_percent\":");
        reveal_strlit("\"charge_current_limit\":");
    }
    match parse_field_u8(b, pos, "\"modbus_id\":", 44u8) {
        None => None,
        Some((x0, i0)) =>
        match parse_field_u8(b, i0, "\"meterbus_id\":", 44u8) {
            None => None,
            Some((x1, i1)) =>
            match parse_field_i64(b, i1, "\"mppt_fixed_vmp\":", 44u8) {
                None => None,
                Some((x2, i2)) =>
                match parse_field_i64(b, i2, "\"mppt_fixed_vmp_percent\":", 44u8) {
                    None => None,
                    Some((x3, i3)) =>
                    match parse_field_i64(b, i3, "\"charge_current_limit\":", 125u8) {
                        None => None,
                        Some((x4, i4)) =>
                        Some(((x0, x1, x2, x3, x4), i4))
                    }
                }
            }
        }
    }
}

#[verifier::rlimit(100)]
pub fn encode_settings_g6(out: &mut Vec<u8>, v: &Settings)
    ensures
        final(out)@ == old(out)@ + enc_settings_g6(*v),
{
    proof {
        reveal_strlit("\"modbus_id\":");
        reveal_strlit("\"meterbus_id\":");
        reveal_strlit("\"mppt_fixed_vmp\":");
        reveal_strlit("\"mppt_fixed_vmp_percent\":");
        reveal_strlit("\"charge_current_limit\":");
    }
    encode_field_i64(out, "\"modbus_id\":", v.modbus_id as i64, 44u8);
    encode_field_i64(out, "\"meterbus_id\":", v.meterbus_id as i64, 44u8);
    encode_field_i64(out, "\"mppt_fixed_vmp\":", v.mppt_fixed_vmp, 44u8);
    encode_field_i64(out, "\"mppt_fixed_vmp_percent\":", v.mppt_fixed_vmp_percent, 44u8);
    encode_field_i64(out, "\"charge_current_limit\":", v.charge_current_limit, 125u8);
    assert(out@ =~= old(out)@ + enc_settings_g6(*v));
}

/// The settings record on the wire: an object holding every writable
/// register in canonical order.
#[verifier::opaque]
pub open spec fn enc_settings(v: Settings) -> Seq<u8> {
    seq![123u8] + (enc_settings_g1(v) + (enc_settings_g2(v) + (enc_settings_g3(v) + (enc_settings_g4(v) + (enc_settings_g5(v) + (enc_settings_g6(v)))))))
}

/// Decode a settings record at `i`.
#[verifier::opaque]
pub open spec fn dec_settings_at(s: Seq<u8>, i: int) -> Option<(Settings, int)> {
    if 0 <= i < s.len() && s[i] == 123 {
        match dec_settings_g1(s, i + 1) {
            None => None,
            Some((g1, e1)) =>
            match dec_settings_g2(s, e1) {
                None => None,
                Some((g2, e2)) =>
                match dec_settings_g3(s, e2) {
                    None => None,
                    Some((g3, e3)) =>
                    match dec_settings_g4(s, e3) {
                        None => None,
                        Some((g4, e4)) =>
                        match dec_settings_g5(s, e4) {
                            None => None,
                            Some((g5, e5)) =>
                            match dec_settings_g6(s, e5) {
                                None => None,
                                Some((g6, e6)) =>
                                Some((Settings { regulation_voltage: g1.0, float_voltage: g1.1, time_before_float: g1.2, time_before_float_low_battery: g1.3, float_low_battery_voltage_trigger: g1.4, float_cancel_voltage: g1.5, exit_float_time: g2.0, equalize_voltage: g2.1, days_between_equalize_cycles: g2.2, equalize_time_limit_above_regulation_voltage: g2.3, equalize_time_limit_at_regulation_voltage: g2.4, alarm_on_setting_change: g2.5, reference_charge_voltage_limit: g3.0, battery_charge_current_limit: g3.1, temperature_compensation_coefficent: g3.2, high_voltage_disconnect: g3.3, high_voltage_reconnect: g3.4, maximum_charge_voltage_reference: g3.5, max_battery_temp_compensation_limit: g4.0, min_battery_temp_compensation_limit: g4.1, load_low_voltage_disconnect: g4.2, load_low_voltage_reconnect: g4.3, load_high_voltage_disconnect: g4.4, load_high_voltage_reconnect: g4.5, lvd_load_current_compensation: g5.0, lvd_warning_timeout: g5.1, led_green_to_green_and_yellow_limit: g5.2, led_green_and_yellow_to_yellow_limit: g5.3, led_yellow_to_yellow_and_red_limit: g5.4, led_yellow_and_red_to_red_flashing_limit: g5.5, modbus_id: g6.0, meterbus_id: g6.1, mppt_fixed_vmp: g6.2, mppt_fixed_vmp_percent: g6.3, charge_current_limit: g6.4 }, e6))
                            }
                        }
                    }
                }
            }
        }
    } else {
        None
    }
}

/// Decoding inverts encoding for settings records.
#[verifier::rlimit(100)]
pub proof fn lemma_dec_enc_settings(s: Seq<u8>, i: int, v: Settings)
    requires
        0 <= i,
        i + enc_settings(v).len() <= s.len(),
        s.subrange(i, i + enc_settings(v).len() as int) == enc_settings(v),
    ensures
        dec_settings_at(s, i) == Some((v, i + enc_settings(v).len() as int)),
{
    reveal(enc_settings);
    reveal(dec_settings_at);
    let j = i + enc_settings(v).len() as int;
    let f1 = enc_settings_g1(v);
    let f2 = enc_settings_g2(v);
    let f3 = enc_settings_g3(v);
    let f4 = enc_settings_g4(v);
    let f5 = enc_settings_g5(v);
    let f6 = enc_settings_g6(v);
    let t6 = f6;
    let t5 = f5 + t6;
    let t4 = f4 + t5;
    let t3 = f3 + t4;
    let t2 = f2 + t3;
    let t1 = f1 + t2;
    assert(enc_settings(v) == seq![123u8] + t1);
    lemma_split(s, i, j, seq![123u8], t1);
    assert(s[i] == seq![123u8][0]);
    let p1 = i + 1;
    lemma_split(s, p1, j, f1, t2);
    lemma_dec_enc_settings_g1(s, p1, v);
    let p2 = p1 + f1.len() as int;
    lemma_split(s, p2, j, f2, t3);
    lemma_dec_enc_settings_g2(s, p2, v);
    let p3 = p2 + f2.len() as int;
    lemma_split(s, p3, j, f3, t4);
    lemma_dec_enc_settings_g3(s, p3, v);
    let p4 = p3 + f3.len() as int;
    lemma_split(s, p4, j, f4, t5);
    lemma_dec_enc_settings_g4(s, p4, v);
    let p5 = p4 + f4.len() as int;
    lemma_split(s, p5, j, f5, t6);
    lemma_dec_enc_settings_g5(s, p5, v);
    let p6 = p5 + f5.len() as int;
    lemma_dec_enc_settings_g6(s, p6, v);
}

/// Read a settings record at `pos`.
#[verifier::rlimit(100)]
pub fn parse_settings(b: &Vec<u8>, pos: usize) -> (r: Option<(Settings, usize)>)
    ensures
        match r {
            Some((v, e)) => pos <= e <= b@.len() && dec_settings_at(b@, pos as int) == Some((
                v,
                e as int,
            )),
            None => dec_settings_at(b@, pos as int) is None,
        },
{
    proof {
        reveal(dec_settings_at);
    }
    if pos >= b.len() || b[pos] != 123 {
        return None;
    }
    match parse_settings_g1(b, pos + 1) {
        None => None,
        Some((g1, e1)) =>
        match parse_settings_g2(b, e1) {
            None => None,
            Some((g2, e2)) =>
            match parse_settings_g3(b, e2) {
                None => None,
                Some((g3, e3)) =>
                match parse_settings_g4(b, e3) {
                    None => None,
                    Some((g4, e4)) =>
                    match parse_settings_g5(b, e4) {
                        None => None,
                        Some((g5, e5)) =>
                        match parse_settings_g6(b, e5) {
                            None => None,
                            Some((g6, e6)) =>
                            Some((Settings { regulation_voltage: g1.0, float_voltage: g1.1, time_before_float: g1.2, time_before_float_low_battery: g1.3, float_low_battery_voltage_trigger: g1.4, float_cancel_voltage: g1.5, exit_float_time: g2.0, equalize_voltage: g2.1, days_between_equalize_cycles: g2.2, equalize_time_limit_above_regulation_voltage: g2.3, equalize_time_limit_at_regulation_voltage: g2.4, alarm_on_setting_change: g2.5, reference_charge_voltage_limit: g3.0, battery_charge_current_limit: g3.1, temperature_compensation_coefficent: g3.2, high_voltage_disconnect: g3.3, high_voltage_reconnect: g3.4, maximum_charge_voltage_reference: g3.5, max_battery_temp_compensation_limit: g4.0, min_battery_temp_compensation_limit: g4.1, load_low_voltage_disconnect: g4.2, load_low_voltage_reconnect: g4.3, load_high_voltage_disconnect: g4.4, load_high_voltage_reconnect: g4.5, lvd_load_current_compensation: g5.0, lvd_warning_timeout: g5.1, led_green_to_green_and_yellow_limit: g5.2, led_green_and_yellow_to_yellow_limit: g5.3, led_yellow_to_yellow_and_red_limit: g5.4, led_yellow_and_red_to_red_flashing_limit: g5.5, modbus_id: g6.0, meterbus_id: g6.1, mppt_fixed_vmp: g6.2, mppt_fixed_vmp_percent: g6.3, charge_current_limit: g6.4 }, e6))
                        }
                    }
                }
            }
        }
    }
}

/// Append a settings record.
#[verifier::rlimit(100)]
pub fn encode_settings(out: &mut Vec<u8>, v: &Settings)
    ensures
        final(out)@ == old(out)@ + enc_settings(*v),
{
    out.push(123);
    assert(out@ =~= old(out)@ + seq![123u8]);
    encode_settings_g1(out, v);
    encode_settings_g2(out, v);
    encode_settings_g3(out, v);
    encode_settings_g4(out, v);
    encode_settings_g5(out, v);
    encode_settings_g6(out, v);
    proof {
        reveal(enc_settings);
        let o = old(out)@;
        let f1 = enc_settings_g1(*v);
        let f2 = enc_settings_g2(*v);
        let f3 = enc_settings_g3(*v);
        let f4 = enc_settings_g4(*v);
        let f5 = enc_settings_g5(*v);
        let f6 = enc_settings_g6(*v);
        let t6 = f6;
        let t5 = f5 + t6;
        let t4 = f4 + t5;
        let t3 = f3 + t4;
        let t2 = f2 + t3;
        let t1 = f1 + t2;
        let l0 = o + seq![123u8];
        let l1 = l0 + f1;
        let l2 = l1 + f2;
        let l3 = l2 + f3;
        let l4 = l3 + f4;
        let l5 = l4 + f5;
        let l6 = l5 + f6;
        assert(out@ == l6);
        lemma_add_assoc(l4, f5, t6);
        lemma_add_assoc(l3, f4, t5);
        lemma_add_assoc(l2, f3, t4);
        lemma_add_assoc(l1, f2, t3);
        lemma_add_assoc(l0, f1, t2);
        assert(l4 + t5 == l4 + (f5 + t6));
        assert(l3 + t4 == l3 + (f4 + t5));
        assert(l2 + t3 == l2 + (f3 + t4));
        assert(l1 + t2 == l1 + (f2 + t3));
        assert(l0 + t1 == l0 + (f1 + t2));
        assert(out@ == l0 + t1);
        assert(l0 + t1 =~= o + (seq![123u8] + t1));
        assert(enc_settings(*v) == seq![123u8] + t1);
    }
}

/// Every encoded record opens with a brace.
pub proof fn lemma_enc_settings_first_byte(v: Settings)
    ensures
        enc_settings(v).len() >= 1,
        enc_settings(v)[0] == 123,
{
    reveal(enc_settings);
    assert(enc_settings(v)[0] == seq![123u8][0]);
}

} // verus!
