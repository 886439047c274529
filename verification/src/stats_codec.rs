//! Wire codec for the controller statistics record: one flat object with
//! every field named, in a fixed canonical order, decoded strictly.

use vstd::prelude::*;
use crate::prostar::Stats;
use crate::prostar::ChargeState;
use crate::prostar::LoadState;
use crate::codec::char_bytes;
use crate::codec::lemma_split;
use crate::codec::lemma_add_assoc;
use crate::codec::enc_field_i64;
use crate::codec::enc_field_cs;
use crate::codec::enc_field_ls;
use crate::codec::enc_field_opt_i64;
use crate::codec::dec_field_i64;
use crate::codec::dec_field_u16;
use crate::codec::dec_field_u32;
use crate::codec::dec_field_cs;
use crate::codec::dec_field_ls;
use crate::codec::dec_field_opt_i64;
use crate::codec::lemma_dec_enc_field_i64;
use crate::codec::lemma_dec_enc_field_u16;
use crate::codec::lemma_dec_enc_field_u32;
use crate::codec::lemma_dec_enc_field_cs;
use crate::codec::lemma_dec_enc_field_ls;
use crate::codec::lemma_dec_enc_field_opt_i64;
use crate::codec::parse_field_i64;
use crate::codec::parse_field_u16;
use crate::codec::parse_field_u32;
use crate::codec::parse_field_cs;
use crate::codec::parse_field_ls;
use crate::codec::parse_field_opt_i64;
use crate::codec::encode_field_i64;
use crate::codec::encode_field_cs;
use crate::codec::encode_field_ls;
use crate::codec::encode_field_opt_i64;

verus! {

pub open spec fn enc_stats_g1(v: Stats) -> Seq<u8> {
    enc_field_i64(char_bytes("\"timestamp\":"@), v.timestamp as int, 44u8) + (enc_field_i64(char_bytes("\"software_version\":"@), v.software_version as int, 44u8) + (enc_field_i64(char_bytes("\"battery_voltage_settings_multiplier\":"@), v.battery_voltage_settings_multiplier as int, 44u8) + (enc_field_i64(char_bytes("\"supply_3v3\":"@), v.supply_3v3 as int, 44u8))))
}

pub open spec fn dec_stats_g1(s: Seq<u8>, i: int) -> Option<((i64, u16, u16, i64), int)> {
    match dec_field_i64(s, i, char_bytes("\"timestamp\":"@), 44u8) {
        None => None,
        Some((x0, i0)) =>
        match dec_field_u16(s, i0, char_bytes("\"software_version\":"@), 44u8) {
            None => None,
            Some((x1, i1)) =>
            match dec_field_u16(s, i1, char_bytes("\"battery_voltage_settings_multiplier\":"@), 44u8) {
                None => None,
                Some((x2, i2)) =>
                match dec_field_i64(s, i2, char_bytes("\"supply_3v3\":"@), 44u8) {
                    None => None,
                    Some((x3, i3)) =>
                    Some(((x0, x1, x2, x3), i3))
                }
            }
        }
    }
}

#[verifier::rlimit(100)]
pub proof fn lemma_dec_enc_stats_g1(s: Seq<u8>, i: int, v: Stats)
    requires
        0 <= i,
        i + enc_stats_g1(v).len() <= s.len(),
        s.subrange(i, i + enc_stats_g1(v).len() as int) == enc_stats_g1(v),
    ensures
        dec_stats_g1(s, i) == Some(((v.timestamp, v.software_version, v.battery_voltage_settings_multiplier, v.supply_3v3), i + enc_stats_g1(v).len() as int)),
{
    let j = i + enc_stats_g1(v).len() as int;
    let f0 = enc_field_i64(char_bytes("\"timestamp\":"@), v.timestamp as int, 44u8);
    let f1 = enc_field_i64(char_bytes("\"software_version\":"@), v.software_version as int, 44u8);
    let f2 = enc_field_i64(char_bytes("\"battery_voltage_settings_multiplier\":"@), v.battery_voltage_settings_multiplier as int, 44u8);
    let f3 = enc_field_i64(char_bytes("\"supply_3v3\":"@), v.supply_3v3 as int, 44u8);
    let t3 = f3;
    let t2 = f2 + t3;
    let t1 = f1 + t2;
    let t0 = f0 + t1;
    assert(enc_stats_g1(v) == t0);
    let p0 = i;
    lemma_split(s, p0, j, f0, t1);
    lemma_dec_enc_field_i64(s, p0, char_bytes("\"timestamp\":"@), v.timestamp, 44u8);
    let p1 = p0 + f0.len() as int;
    lemma_split(s, p1, j, f1, t2);
    lemma_dec_enc_field_u16(s, p1, char_bytes("\"software_version\":"@), v.software_version, 44u8);
    let p2 = p1 + f1.len() as int;
    lemma_split(s, p2, j, f2, t3);
    lemma_dec_enc_field_u16(s, p2, char_bytes("\"battery_voltage_settings_multiplier\":"@), v.battery_voltage_settings_multiplier, 44u8);
    let p3 = p2 + f2.len() as int;
    lemma_dec_enc_field_i64(s, p3, char_bytes("\"supply_3v3\":"@), v.supply_3v3, 44u8);
}

#[verifier::rlimit(100)]
pub fn parse_stats_g1(b: &Vec<u8>, pos: usize) -> (r: Option<((i64, u16, u16, i64), usize)>)
    ensures
        match r {
            Some((v, e)) => pos <= e <= b@.len() && dec_stats_g1(b@, pos as int) == Some((
                v,
                e as int,
            )),
            None => dec_stats_g1(b@, pos as int) is None,
        },
{
    proof {
        reveal_strlit("\"timestamp\":");
        reveal_strlit("\"software_version\":");
        reveal_strlit("\"battery_voltage_settings_multiplier\":");
        reveal_strlit("\"supply_3v3\":");
    }
    match parse_field_i64(b, pos, "\"timestamp\":", 44u8) {
        None => None,
        Some((x0, i0)) =>
        match parse_field_u16(b, i0, "\"software_version\":", 44u8) {
            None => None,
            Some((x1, i1)) =>
            match parse_field_u16(b, i1, "\"battery_voltage_settings_multiplier\":", 44u8) {
                None => None,
                Some((x2, i2)) =>
                match parse_field_i64(b, i2, "\"supply_3v3\":", 44u8) {
                    None => None,
                    Some((x3, i3)) =>
                    Some(((x0, x1, x2, x3), i3))
                }
            }
        }
    }
}

#[verifier::rlimit(100)]
pub fn encode_stats_g1(out: &mut Vec<u8>, v: &Stats)
    ensures
        final(out)@ == old(out)@ + enc_stats_g1(*v),
{
    proof {
        reveal_strlit("\"timestamp\":");
        reveal_strlit("\"software_version\":");
        reveal_strlit("\"battery_voltage_settings_multiplier\":");
        reveal_strlit("\"supply_3v3\":");
    }
    encode_field_i64(out, "\"timestamp\":", v.timestamp, 44u8);
    encode_field_i64(out, "\"software_version\":", v.software_version as i64, 44u8);
    encode_field_i64(out, "\"battery_voltage_settings_multiplier\":", v.battery_voltage_settings_multiplier as i64, 44u8);
    encode_field_i64(out, "\"supply_3v3\":", v.supply_3v3, 44u8);
    assert(out@ =~= old(out)@ + enc_stats_g1(*v));
}

pub open spec fn enc_stats_g2(v: Stats) -> Seq<u8> {
    enc_field_i64(char_bytes("\"supply_12v\":"@), v.supply_12v as int, 44u8) + (enc_field_i64(char_bytes("\"supply_5v\":"@), v.supply_5v as int, 44u8) + (enc_field_i64(char_bytes("\"gate_drive_voltage\":"@), v.gate_drive_voltage as int, 44u8) + (enc_field_i64(char_bytes("\"battery_terminal_voltage\":"@), v.battery_terminal_voltage as int, 44u8))))
}

pub open spec fn dec_stats_g2(s: Seq<u8>, i: int) -> Option<((i64, i64, i64, i64), int)> {
    match dec_field_i64(s, i, char_bytes("\"supply_12v\":"@), 44u8) {
        None => None,
        Some((x0, i0)) =>
        match dec_field_i64(s, i0, char_bytes("\"supply_5v\":"@), 44u8) {
            None => None,
            Some((x1, i1)) =>
            match dec_field_i64(s, i1, char_bytes("\"gate_drive_voltage\":"@), 44u8) {
                None => None,
                Some((x2, i2)) =>
                match dec_field_i64(s, i2, char_bytes("\"battery_terminal_voltage\":"@), 44u8) {
                    None => None,
                    Some((x3, i3)) =>
                    Some(((x0, x1, x2, x3), i3))
                }
            }
        }
    }
}

#[verifier::rlimit(100)]
pub proof fn lemma_dec_enc_stats_g2(s: Seq<u8>, i: int, v: Stats)
    requires
        0 <= i,
        i + enc_stats_g2(v).len() <= s.len(),
        s.subrange(i, i + enc_stats_g2(v).len() as int) == enc_stats_g2(v),
    ensures
        dec_stats_g2(s, i) == Some(((v.supply_12v, v.supply_5v, v.gate_drive_voltage, v.battery_terminal_voltage), i + enc_stats_g2(v).len() as int)),
{
    let j = i + enc_stats_g2(v).len() as int;
    let f0 = enc_field_i64(char_bytes("\"supply_12v\":"@), v.supply_12v as int, 44u8);
    let f1 = enc_field_i64(char_bytes("\"supply_5v\":"@), v.supply_5v as int, 44u8);
    let f2 = enc_field_i64(char_bytes("\"gate_drive_voltage\":"@), v.gate_drive_voltage as int, 44u8);
    let f3 = enc_field_i64(char_bytes("\"battery_terminal_voltage\":"@), v.battery_terminal_voltage as int, 44u8);
    let t3 = f3;
    let t2 = f2 + t3;
    let t1 = f1 + t2;
    let t0 = f0 + t1;
    assert(enc_stats_g2(v) == t0);
    let p0 = i;
    lemma_split(s, p0, j, f0, t1);
    lemma_dec_enc_field_i64(s, p0, char_bytes("\"supply_12v\":"@), v.supply_12v, 44u8);
    let p1 = p0 + f0.len() as int;
    lemma_split(s, p1, j, f1, t2);
    lemma_dec_enc_field_i64(s, p1, char_bytes("\"supply_5v\":"@), v.supply_5v, 44u8);
    let p2 = p1 + f1.len() as int;
    lemma_split(s, p2, j, f2, t3);
    lemma_dec_enc_field_i64(s, p2, char_bytes("\"gate_drive_voltage\":"@), v.gate_drive_voltage, 44u8);
    let p3 = p2 + f2.len() as int;
    lemma_dec_enc_field_i64(s, p3, char_bytes("\"battery_terminal_voltage\":"@), v.battery_terminal_voltage, 44u8);
}

#[verifier::rlimit(100)]
pub fn parse_stats_g2(b: &Vec<u8>, pos: usize) -> (r: Option<((i64, i64, i64, i64), usize)>)
    ensures
        match r {
            Some((v, e)) => pos <= e <= b@.len() && dec_stats_g2(b@, pos as int) == Some((
                v,
                e as int,
            )),
            None => dec_stats_g2(b@, pos as int) is None,
        },
{
    proof {
        reveal_strlit("\"supply_12v\":");
        reveal_strlit("\"supply_5v\":");
        reveal_strlit("\"gate_drive_voltage\":");
        reveal_strlit("\"battery_terminal_voltage\":");
    }
    match parse_field_i64(b, pos, "\"supply_12v\":", 44u8) {
        None => None,
        Some((x0, i0)) =>
        match parse_field_i64(b, i0, "\"supply_5v\":", 44u8) {
            None => None,
            Some((x1, i1)) =>
            match parse_field_i64(b, i1, "\"gate_drive_voltage\":", 44u8) {
                None => None,
                Some((x2, i2)) =>
                match parse_field_i64(b, i2, "\"battery_terminal_voltage\":", 44u8) {
                    None => None,
                    Some((x3, i3)) =>
                    Some(((x0, x1, x2, x3), i3))
                }
            }
        }
    }
}

#[verifier::rlimit(100)]
pub fn encode_stats_g2(out: &mut Vec<u8>, v: &Stats)
    ensures
        final(out)@ == old(out)@ + enc_stats_g2(*v),
{
    proof {
        reveal_strlit("\"supply_12v\":");
        reveal_strlit("\"supply_5v\":");
        reveal_strlit("\"gate_drive_voltage\":");
        reveal_strlit("\"battery_terminal_voltage\":");
    }
    encode_field_i64(out, "\"supply_12v\":", v.supply_12v, 44u8);
    encode_field_i64(out, "\"supply_5v\":", v.supply_5v, 44u8);
    encode_field_i64(out, "\"gate_drive_voltage\":", v.gate_drive_voltage, 44u8);
    encode_field_i64(out, "\"battery_terminal_voltage\":", v.battery_terminal_voltage, 44u8);
    assert(out@ =~= old(out)@ + enc_stats_g2(*v));
}

pub open spec fn enc_stats_g3(v: Stats) -> Seq<u8> {
    enc_field_i64(char_bytes("\"array_voltage\":"@), v.array_voltage as int, 44u8) + (enc_field_i64(char_bytes("\"load_voltage\":"@), v.load_voltage as int, 44u8) + (enc_field_i64(char_bytes("\"charge_current\":"@), v.charge_current as int, 44u8) + (enc_field_i64(char_bytes("\"array_current\":"@), v.array_current as int, 44u8))))
}

pub open spec fn dec_stats_g3(s: Seq<u8>, i: int) -> Option<((i64, i64, i64, i64), int)> {
    match dec_field_i64(s, i, char_bytes("\"array_voltage\":"@), 44u8) {
        None => None,
        Some((x0, i0)) =>
        match dec_field_i64(s, i0, char_bytes("\"load_voltage\":"@), 44u8) {
            None => None,
            Some((x1, i1)) =>
            match dec_field_i64(s, i1, char_bytes("\"charge_current\":"@), 44u8) {
                None => None,
                Some((x2, i2)) =>
                match dec_field_i64(s, i2, char_bytes("\"array_current\":"@), 44u8) {
                    None => None,
                    Some((x3, i3)) =>
                    Some(((x0, x1, x2, x3), i3))
                }
            }
        }
    }
}

#[verifier::rlimit(100)]
pub proof fn lemma_dec_enc_stats_g3(s: Seq<u8>, i: int, v: Stats)
    requires
        0 <= i,
        i + enc_stats_g3(v).len() <= s.len(),
        s.subrange(i, i + enc_stats_g3(v).len() as int) == enc_stats_g3(v),
    ensures
        dec_stats_g3(s, i) == Some(((v.array_voltage, v.load_voltage, v.charge_current, v.array_current), i + enc_stats_g3(v).len() as int)),
{
    let j = i + enc_stats_g3(v).len() as int;
    let f0 = enc_field_i64(char_bytes("\"array_voltage\":"@), v.array_voltage as int, 44u8);
    let f1 = enc_field_i64(char_bytes("\"load_voltage\":"@), v.load_voltage as int, 44u8);
    let f2 = enc_field_i64(char_bytes("\"charge_current\":"@), v.charge_current as int, 44u8);
    let f3 = enc_field_i64(char_bytes("\"array_current\":"@), v.array_current as int, 44u8);
    let t3 = f3;
    let t2 = f2 + t3;
    let t1 = f1 + t2;
    let t0 = f0 + t1;
    assert(enc_stats_g3(v) == t0);
    let p0 = i;
    lemma_split(s, p0, j, f0, t1);
    lemma_dec_enc_field_i64(s, p0, char_bytes("\"array_voltage\":"@), v.array_voltage, 44u8);
    let p1 = p0 + f0.len() as int;
    lemma_split(s, p1, j, f1, t2);
    lemma_dec_enc_field_i64(s, p1, char_bytes("\"load_voltage\":"@), v.load_voltage, 44u8);
    let p2 = p1 + f1.len() as int;
    lemma_split(s, p2, j, f2, t3);
    lemma_dec_enc_field_i64(s, p2, char_bytes("\"charge_current\":"@), v.charge_current, 44u8);
    let p3 = p2 + f2.len() as int;
    lemma_dec_enc_field_i64(s, p3, char_bytes("\"array_current\":"@), v.array_current, 44u8);
}

#[verifier::rlimit(100)]
pub fn parse_stats_g3(b: &Vec<u8>, pos: usize) -> (r: Option<((i64, i64, i64, i64), usize)>)
    ensures
        match r {
            Some((v, e)) => pos <= e <= b@.len() && dec_stats_g3(b@, pos as int) == Some((
                v,
                e as int,
            )),
            None => dec_stats_g3(b@, pos as int) is None,
        },
{
    proof {
        reveal_strlit("\"array_voltage\":");
        reveal_strlit("\"load_voltage\":");
        reveal_strlit("\"charge_current\":");
        reveal_strlit("\"array_current\":");
    }
    match parse_field_i64(b, pos, "\"array_voltage\":", 44u8) {
        None => None,
        Some((x0, i0)) =>
        match parse_field_i64(b, i0, "\"load_voltage\":", 44u8) {
            None => None,
            Some((x1, i1)) =>
            match parse_field_i64(b, i1, "\"charge_current\":", 44u8) {
                None => None,
                Some((x2, i2)) =>
                match parse_field_i64(b, i2, "\"array_current\":", 44u8) {
                    None => None,
                    Some((x3, i3)) =>
                    Some(((x0, x1, x2, x3), i3))
                }
            }
        }
    }
}

#[verifier::rlimit(100)]
pub fn encode_stats_g3(out: &mut Vec<u8>, v: &Stats)
    ensures
        final(out)@ == old(out)@ + enc_stats_g3(*v),
{
    proof {
        reveal_strlit("\"array_voltage\":");
        reveal_strlit("\"load_voltage\":");
        reveal_strlit("\"charge_current\":");
        reveal_strlit("\"array_current\":");
    }
    encode_field_i64(out, "\"array_voltage\":", v.array_voltage, 44u8);
    encode_field_i64(out, "\"load_voltage\":", v.load_voltage, 44u8);
    encode_field_i64(out, "\"charge_current\":", v.charge_current, 44u8);
    encode_field_i64(out, "\"array_current\":", v.array_current, 44u8);
    assert(out@ =~= old(out)@ + enc_stats_g3(*v));
}

pub open spec fn enc_stats_g4(v: Stats) -> Seq<u8> {
    enc_field_i64(char_bytes("\"load_current\":"@), v.load_current as int, 44u8) + (enc_field_i64(char_bytes("\"battery_current_net\":"@), v.battery_current_net as int, 44u8) + (enc_field_i64(char_bytes("\"battery_sense_voltage\":"@), v.battery_sense_voltage as int, 44u8) + (enc_field_i64(char_bytes("\"meterbus_voltage\":"@), v.meterbus_voltage as int, 44u8))))
}

pub open spec fn dec_stats_g4(s: Seq<u8>, i: int) -> Option<((i64, i64, i64, i64), int)> {
    match dec_field_i64(s, i, char_bytes("\"load_current\":"@), 44u8) {
        None => None,
        Some((x0, i0)) =>
        match dec_field_i64(s, i0, char_bytes("\"battery_current_net\":"@), 44u8) {
            None => None,
            Some((x1, i1)) =>
            match dec_field_i64(s, i1, char_bytes("\"battery_sense_voltage\":"@), 44u8) {
                None => None,
                Some((x2, i2)) =>
                match dec_field_i64(s, i2, char_bytes("\"meterbus_voltage\":"@), 44u8) {
                    None => None,
                    Some((x3, i3)) =>
                    Some(((x0, x1, x2, x3), i3))
                }
            }
        }
    }
}

#[verifier::rlimit(100)]
pub proof fn lemma_dec_enc_stats_g4(s: Seq<u8>, i: int, v: Stats)
    requires
        0 <= i,
        i + enc_stats_g4(v).len() <= s.len(),
        s.subrange(i, i + enc_stats_g4(v).len() as int) == enc_stats_g4(v),
    ensures
        dec_stats_g4(s, i) == Some(((v.load_current, v.battery_current_net, v.battery_sense_voltage, v.meterbus_voltage), i + enc_stats_g4(v).len() as int)),
{
    let j = i + enc_stats_g4(v).len() as int;
    let f0 = enc_field_i64(char_bytes("\"load_current\":"@), v.load_current as int, 44u8);
    let f1 = enc_field_i64(char_bytes("\"battery_current_net\":"@), v.battery_current_net as int, 44u8);
    let f2 = enc_field_i64(char_bytes("\"battery_sense_voltage\":"@), v.battery_sense_voltage as int, 44u8);
    let f3 = enc_field_i64(char_bytes("\"meterbus_voltage\":"@), v.meterbus_voltage as int, 44u8);
    let t3 = f3;
    let t2 = f2 + t3;
    let t1 = f1 + t2;
    let t0 = f0 + t1;
    assert(enc_stats_g4(v) == t0);
    let p0 = i;
    lemma_split(s, p0, j, f0, t1);
    lemma_dec_enc_field_i64(s, p0, char_bytes("\"load_current\":"@), v.load_current, 44u8);
    let p1 = p0 + f0.len() as int;
    lemma_split(s, p1, j, f1, t2);
    lemma_dec_enc_field_i64(s, p1, char_bytes("\"battery_current_net\":"@), v.battery_current_net, 44u8);
    let p2 = p1 + f1.len() as int;
    lemma_split(s, p2, j, f2, t3);
    lemma_dec_enc_field_i64(s, p2, char_bytes("\"battery_sense_voltage\":"@), v.battery_sense_voltage, 44u8);
    let p3 = p2 + f2.len() as int;
    lemma_dec_enc_field_i64(s, p3, char_bytes("\"meterbus_voltage\":"@), v.meterbus_voltage, 44u8);
}

#[verifier::rlimit(100)]
pub fn parse_stats_g4(b: &Vec<u8>, pos: usize) -> (r: Option<((i64, i64, i64, i64), usize)>)
    ensures
        match r {
            Some((v, e)) => pos <= e <= b@.len() && dec_stats_g4(b@, pos as int) == Some((
                v,
                e as int,
            )),
            None => dec_stats_g4(b@, pos as int) is None,
        },
{
    proof {
        reveal_strlit("\"load_current\":");
        reveal_strlit("\"battery_current_net\":");
        reveal_strlit("\"battery_sense_voltage\":");
        reveal_strlit("\"meterbus_voltage\":");
    }
    match parse_field_i64(b, pos, "\"load_current\":", 44u8) {
        None => None,
        Some((x0, i0)) =>
        match parse_field_i64(b, i0, "\"battery_current_net\":", 44u8) {
            None => None,
            Some((x1, i1)) =>
            match parse_field_i64(b, i1, "\"battery_sense_voltage\":", 44u8) {
                None => None,
                Some((x2, i2)) =>
                match parse_field_i64(b, i2, "\"meterbus_voltage\":", 44u8) {
                    None => None,
                    Some((x3, i3)) =>
                    Some(((x0, x1, x2, x3), i3))
                }
            }
        }
    }
}

#[verifier::rlimit(100)]
pub fn encode_stats_g4(out: &mut Vec<u8>, v: &Stats)
    ensures
        final(out)@ == old(out)@ + enc_stats_g4(*v),
{
    proof {
        reveal_strlit("\"load_current\":");
        reveal_strlit("\"battery_current_net\":");
        reveal_strlit("\"battery_sense_voltage\":");
        reveal_strlit("\"meterbus_voltage\":");
    }
    encode_field_i64(out, "\"load_current\":", v.load_current, 44u8);
    encode_field_i64(out, "\"battery_current_net\":", v.battery_current_net, 44u8);
    encode_field_i64(out, "\"battery_sense_voltage\":", v.battery_sense_voltage, 44u8);
    encode_field_i64(out, "\"meterbus_voltage\":", v.meterbus_voltage, 44u8);
    assert(out@ =~= old(out)@ + enc_stats_g4(*v));
}

pub open spec fn enc_stats_g5(v: Stats) -> Seq<u8> {
    enc_field_i64(char_bytes("\"heatsink_temperature\":"@), v.heatsink_temperature as int, 44u8) + (enc_field_i64(char_bytes("\"battery_temperature\":"@), v.battery_temperature as int, 44u8) + (enc_field_i64(char_bytes("\"ambient_temperature\":"@), v.ambient_temperature as int, 44u8) + (enc_field_opt_i64(char_bytes("\"rts_temperature\":"@), v.rts_temperature, 44u8))))
}

pub open spec fn dec_stats_g5(s: Seq<u8>, i: int) -> Option<((i64, i64, i64, Option<i64>), int)> {
    match dec_field_i64(s, i, char_bytes("\"heatsink_temperature\":"@), 44u8) {
        None => None,
        Some((x0, i0)) =>
        match dec_field_i64(s, i0, char_bytes("\"battery_temperature\":"@), 44u8) {
            None => None,
            Some((x1, i1)) =>
            match dec_field_i64(s, i1, char_bytes("\"ambient_temperature\":"@), 44u8) {
                None => None,
                Some((x2, i2)) =>
                match dec_field_opt_i64(s, i2, char_bytes("\"rts_temperature\":"@), 44u8) {
                    None => None,
                    Some((x3, i3)) =>
                    Some(((x0, x1, x2, x3), i3))
                }
            }
        }
    }
}

#[verifier::rlimit(100)]
pub proof fn lemma_dec_enc_stats_g5(s: Seq<u8>, i: int, v: Stats)
    requires
        0 <= i,
        i + enc_stats_g5(v).len() <= s.len(),
        s.subrange(i, i + enc_stats_g5(v).len() as int) == enc_stats_g5(v),
    ensures
        dec_stats_g5(s, i) == Some(((v.heatsink_temperature, v.battery_temperature, v.ambient_temperature, v.rts_temperature), i + enc_stats_g5(v).len() as int)),
{
    let j = i + enc_stats_g5(v).len() as int;
    let f0 = enc_field_i64(char_bytes("\"heatsink_temperature\":"@), v.heatsink_temperature as int, 44u8);
    let f1 = enc_field_i64(char_bytes("\"battery_temperature\":"@), v.battery_temperature as int, 44u8);
    let f2 = enc_field_i64(char_bytes("\"ambient_temperature\":"@), v.ambient_temperature as int, 44u8);
    let f3 = enc_field_opt_i64(char_bytes("\"rts_temperature\":"@), v.rts_temperature, 44u8);
    let t3 = f3;
    let t2 = f2 + t3;
    let t1 = f1 + t2;
    let t0 = f0 + t1;
    assert(enc_stats_g5(v) == t0);
    let p0 = i;
    lemma_split(s, p0, j, f0, t1);
    lemma_dec_enc_field_i64(s, p0, char_bytes("\"heatsink_temperature\":"@), v.heatsink_temperature, 44u8);
    let p1 = p0 + f0.len() as int;
    lemma_split(s, p1, j, f1, t2);
    lemma_dec_enc_field_i64(s, p1, char_bytes("\"battery_temperature\":"@), v.battery_temperature, 44u8);
    let p2 = p1 + f1.len() as int;
    lemma_split(s, p2, j, f2, t3);
    lemma_dec_enc_field_i64(s, p2, char_bytes("\"ambient_temperature\":"@), v.ambient_temperature, 44u8);
    let p3 = p2 + f2.len() as int;
    lemma_dec_enc_field_opt_i64(s, p3, char_bytes("\"rts_temperature\":"@), v.rts_temperature, 44u8);
}

#[verifier::rlimit(100)]
pub fn parse_stats_g5(b: &Vec<u8>, pos: usize) -> (r: Option<((i64, i64, i64, Option<i64>), usize)>)
    ensures
        match r {
            Some((v, e)) => pos <= e <= b@.len() && dec_stats_g5(b@, pos as int) == Some((
                v,
                e as int,
            )),
            None => dec_stats_g5(b@, pos as int) is None,
        },
{
    proof {
        reveal_strlit("\"heatsink_temperature\":");
        reveal_strlit("\"battery_temperature\":");
        reveal_strlit("\"ambient_temperature\":");
        reveal_strlit("\"rts_temperature\":");
    }
    match parse_field_i64(b, pos, "\"heatsink_temperature\":", 44u8) {
        None => None,
        Some((x0, i0)) =>
        match parse_field_i64(b, i0, "\"battery_temperature\":", 44u8) {
            None => None,
            Some((x1, i1)) =>
            match parse_field_i64(b, i1, "\"ambient_temperature\":", 44u8) {
                None => None,
                Some((x2, i2)) =>
                match parse_field_opt_i64(b, i2, "\"rts_temperature\":", 44u8) {
                    None => None,
                    Some((x3, i3)) =>
                    Some(((x0, x1, x2, x3), i3))
                }
            }
        }
    }
}

#[verifier::rlimit(100)]
pub fn encode_stats_g5(out: &mut Vec<u8>, v: &Stats)
    ensures
        final(out)@ == old(out)@ + enc_stats_g5(*v),
{
    proof {
        reveal_strlit("\"heatsink_temperature\":");
        reveal_strlit("\"battery_temperature\":");
        reveal_strlit("\"ambient_temperature\":");
        reveal_strlit("\"rts_temperature\":");
    }
    encode_field_i64(out, "\"heatsink_temperature\":", v.heatsink_temperature, 44u8);
    encode_field_i64(out, "\"battery_temperature\":", v.battery_temperature, 44u8);
    encode_field_i64(out, "\"ambient_temperature\":", v.ambient_temperature, 44u8);
    encode_field_opt_i64(out, "\"rts_temperature\":", v.rts_temperature, 44u8);
    assert(out@ =~= old(out)@ + enc_stats_g5(*v));
}

pub open spec fn enc_stats_g6(v: Stats) -> Seq<u8> {
    enc_field_i64(char_bytes("\"u_inductor_temperature\":"@), v.u_inductor_temperature as int, 44u8) + (enc_field_i64(char_bytes("\"v_inductor_temperature\":"@), v.v_inductor_temperature as int, 44u8) + (enc_field_i64(char_bytes("\"w_inductor_temperature\":"@), v.w_inductor_temperature as int, 44u8) + (enc_field_cs(char_bytes("\"charge_state\":"@), v.charge_state, 44u8))))
}

pub open spec fn dec_stats_g6(s: Seq<u8>, i: int) -> Option<((i64, i64, i64, ChargeState), int)> {
    match dec_field_i64(s, i, char_bytes("\"u_inductor_temperature\":"@), 44u8) {
        None => None,
        Some((x0, i0)) =>
        match dec_field_i64(s, i0, char_bytes("\"v_inductor_temperature\":"@), 44u8) {
            None => None,
            Some((x1, i1)) =>
            match dec_field_i64(s, i1, char_bytes("\"w_inductor_temperature\":"@), 44u8) {
                None => None,
                Some((x2, i2)) =>
                match dec_field_cs(s, i2, char_bytes("\"charge_state\":"@), 44u8) {
                    None => None,
                    Some((x3, i3)) =>
                    Some(((x0, x1, x2, x3), i3))
                }
            }
        }
    }
}

#[verifier::rlimit(100)]
pub proof fn lemma_dec_enc_stats_g6(s: Seq<u8>, i: int, v: Stats)
    requires
        0 <= i,
        i + enc_stats_g6(v).len() <= s.len(),
        s.subrange(i, i + enc_stats_g6(v).len() as int) == enc_stats_g6(v),
    ensures
        dec_stats_g6(s, i) == Some(((v.u_inductor_temperature, v.v_inductor_temperature, v.w_inductor_temperature, v.charge_state), i + enc_stats_g6(v).len() as int)),
{
    let j = i + enc_stats_g6(v).len() as int;
    let f0 = enc_field_i64(char_bytes("\"u_inductor_temperature\":"@), v.u_inductor_temperature as int, 44u8);
    let f1 = enc_field_i64(char_bytes("\"v_inductor_temperature\":"@), v.v_inductor_temperature as int, 44u8);
    let f2 = enc_field_i64(char_bytes("\"w_inductor_temperature\":"@), v.w_inductor_temperature as int, 44u8);
    let f3 = enc_field_cs(char_bytes("\"charge_state\":"@), v.charge_state, 44u8);
    let t3 = f3;
    let t2 = f2 + t3;
    let t1 = f1 + t2;
    let t0 = f0 + t1;
    assert(enc_stats_g6(v) == t0);
    let p0 = i;
    lemma_split(s, p0, j, f0, t1);
    lemma_dec_enc_field_i64(s, p0, char_bytes("\"u_inductor_temperature\":"@), v.u_inductor_temperature, 44u8);
    let p1 = p0 + f0.len() as int;
    lemma_split(s, p1, j, f1, t2);
    lemma_dec_enc_field_i64(s, p1, char_bytes("\"v_inductor_temperature\":"@), v.v_inductor_temperature, 44u8);
    let p2 = p1 + f1.len() as int;
    lemma_split(s, p2, j, f2, t3);
    lemma_dec_enc_field_i64(s, p2, char_bytes("\"w_inductor_temperature\":"@), v.w_inductor_temperature, 44u8);
    let p3 = p2 + f2.len() as int;
    lemma_dec_enc_field_cs(s, p3, char_bytes("\"charge_state\":"@), v.charge_state, 44u8);
}

#[verifier::rlimit(100)]
pub fn parse_stats_g6(b: &Vec<u8>, pos: usize) -> (r: Option<((i64, i64, i64, ChargeState), usize)>)
    ensures
        match r {
            Some((v, e)) => pos <= e <= b@.len() && dec_stats_g6(b@, pos as int) == Some((
                v,
                e as int,
            )),
            None => dec_stats_g6(b@, pos as int) is None,
        },
{
    proof {
        reveal_strlit("\"u_inductor_temperature\":");
        reveal_strlit("\"v_inductor_temperature\":");
        reveal_strlit("\"w_inductor_temperature\":");
        reveal_strlit("\"charge_state\":");
    }
    match parse_field_i64(b, pos, "\"u_inductor_temperature\":", 44u8) {
        None => None,
        Some((x0, i0)) =>
        match parse_field_i64(b, i0, "\"v_inductor_temperature\":", 44u8) {
            None => None,
            Some((x1, i1)) =>
            match parse_field_i64(b, i1, "\"w_inductor_temperature\":", 44u8) {
                None => None,
                Some((x2, i2)) =>
                match parse_field_cs(b, i2, "\"charge_state\":", 44u8) {
                    None => None,
                    Some((x3, i3)) =>
                    Some(((x0, x1, x2, x3), i3))
                }
            }
        }
    }
}

#[verifier::rlimit(100)]
pub fn encode_stats_g6(out: &mut Vec<u8>, v: &Stats)
    ensures
        final(out)@ == old(out)@ + enc_stats_g6(*v),
{
    proof {
        reveal_strlit("\"u_inductor_temperature\":");
        reveal_strlit("\"v_inductor_temperature\":");
        reveal_strlit("\"w_inductor_temperature\":");
        reveal_strlit("\"charge_state\":");
    }
    encode_field_i64(out, "\"u_inductor_temperature\":", v.u_inductor_temperature, 44u8);
    encode_field_i64(out, "\"v_inductor_temperature\":", v.v_inductor_temperature, 44u8);
    encode_field_i64(out, "\"w_inductor_temperature\":", v.w_inductor_temperature, 44u8);
    encode_field_cs(out, "\"charge_state\":", v.charge_state, 44u8);
    assert(out@ =~= old(out)@ + enc_stats_g6(*v));
}

pub open spec fn enc_stats_g7(v: Stats) -> Seq<u8> {
    enc_field_i64(char_bytes("\"array_faults\":"@), v.array_faults as int, 44u8) + (enc_field_i64(char_bytes("\"battery_voltage_slow\":"@), v.battery_voltage_slow as int, 44u8) + (enc_field_i64(char_bytes("\"target_voltage\":"@), v.target_voltage as int, 44u8) + (enc_field_i64(char_bytes("\"ah_charge_resettable\":"@), v.ah_charge_resettable as int, 44u8))))
}

pub open spec fn dec_stats_g7(s: Seq<u8>, i: int) -> Option<((u16, i64, i64, i64), int)> {
    match dec_field_u16(s, i, char_bytes("\"array_faults\":"@), 44u8) {
        None => None,
        Some((x0, i0)) =>
        match dec_field_i64(s, i0, char_bytes("\"battery_voltage_slow\":"@), 44u8) {
            None => None,
            Some((x1, i1)) =>
            match dec_field_i64(s, i1, char_bytes("\"target_voltage\":"@), 44u8) {
                None => None,
                Some((x2, i2)) =>
                match dec_field_i64(s, i2, char_bytes("\"ah_charge_resettable\":"@), 44u8) {
                    None => None,
                    Some((x3, i3)) =>
                    Some(((x0, x1, x2, x3), i3))
                }
            }
        }
    }
}

#[verifier::rlimit(100)]
pub proof fn lemma_dec_enc_stats_g7(s: Seq<u8>, i: int, v: Stats)
    requires
        0 <= i,
        i + enc_stats_g7(v).len() <= s.len(),
        s.subrange(i, i + enc_stats_g7(v).len() as int) == enc_stats_g7(v),
    ensures
        dec_stats_g7(s, i) == Some(((v.array_faults, v.battery_voltage_slow, v.target_voltage, v.ah_charge_resettable), i + enc_stats_g7(v).len() as int)),
{
    let j = i + enc_stats_g7(v).len() as int;
    let f0 = enc_field_i64(char_bytes("\"array_faults\":"@), v.array_faults as int, 44u8);
    let f1 = enc_field_i64(char_bytes("\"battery_voltage_slow\":"@), v.battery_voltage_slow as int, 44u8);
    let f2 = enc_field_i64(char_bytes("\"target_voltage\":"@), v.target_voltage as int, 44u8);
    let f3 = enc_field_i64(char_bytes("\"ah_charge_resettable\":"@), v.ah_charge_resettable as int, 44u8);
    let t3 = f3;
    let t2 = f2 + t3;
    let t1 = f1 + t2;
    let t0 = f0 + t1;
    assert(enc_stats_g7(v) == t0);
    let p0 = i;
    lemma_split(s, p0, j, f0, t1);
    lemma_dec_enc_field_u16(s, p0, char_bytes("\"array_faults\":"@), v.array_faults, 44u8);
    let p1 = p0 + f0.len() as int;
    lemma_split(s, p1, j, f1, t2);
    lemma_dec_enc_field_i64(s, p1, char_bytes("\"battery_voltage_slow\":"@), v.battery_voltage_slow, 44u8);
    let p2 = p1 + f1.len() as int;
    lemma_split(s, p2, j, f2, t3);
    lemma_dec_enc_field_i64(s, p2, char_bytes("\"target_voltage\":"@), v.target_voltage, 44u8);
    let p3 = p2 + f2.len() as int;
    lemma_dec_enc_field_i64(s, p3, char_bytes("\"ah_charge_resettable\":"@), v.ah_charge_resettable, 44u8);
}

#[verifier::rlimit(100)]
pub fn parse_stats_g7(b: &Vec<u8>, pos: usize) -> (r: Option<((u16, i64, i64, i64), usize)>)
    ensures
        match r {
            Some((v, e)) => pos <= e <= b@.len() && dec_stats_g7(b@, pos as int) == Some((
                v,
                e as int,
            )),
            None => dec_stats_g7(b@, pos as int) is None,
        },
{
    proof {
        reveal_strlit("\"array_faults\":");
        reveal_strlit("\"battery_voltage_slow\":");
        reveal_strlit("\"target_voltage\":");
        reveal_strlit("\"ah_charge_resettable\":");
    }
    match parse_field_u16(b, pos, "\"array_faults\":", 44u8) {
        None => None,
        Some((x0, i0)) =>
        match parse_field_i64(b, i0, "\"battery_voltage_slow\":", 44u8) {
            None => None,
            Some((x1, i1)) =>
            match parse_field_i64(b, i1, "\"target_voltage\":", 44u8) {
                None => None,
                Some((x2, i2)) =>
                match parse_field_i64(b, i2, "\"ah_charge_resettable\":", 44u8) {
                    None => None,
                    Some((x3, i3)) =>
                    Some(((x0, x1, x2, x3), i3))
                }
            }
        }
    }
}

#[verifier::rlimit(100)]
pub fn encode_stats_g7(out: &mut Vec<u8>, v: &Stats)
    ensures
        final(out)@ == old(out)@ + enc_stats_g7(*v),
{
    proof {
        reveal_strlit("\"array_faults\":");
        reveal_strlit("\"battery_voltage_slow\":");
        reveal_strlit("\"target_voltage\":");
        reveal_strlit("\"ah_charge_resettable\":");
    }
    encode_field_i64(out, "\"array_faults\":", v.array_faults as i64, 44u8);
    encode_field_i64(out, "\"battery_voltage_slow\":", v.battery_voltage_slow, 44u8);
    encode_field_i64(out, "\"target_voltage\":", v.target_voltage, 44u8);
    encode_field_i64(out, "\"ah_charge_resettable\":", v.ah_charge_resettable, 44u8);
    assert(out@ =~= old(out)@ + enc_stats_g7(*v));
}

pub open spec fn enc_stats_g8(v: Stats) -> Seq<u8> {
    enc_field_i64(char_bytes("\"ah_charge_total\":"@), v.ah_charge_total as int, 44u8) + (enc_field_i64(char_bytes("\"kwh_charge_resettable\":"@), v.kwh_charge_resettable as int, 44u8) + (enc_field_i64(char_bytes("\"kwh_charge_total\":"@), v.kwh_charge_total as int, 44u8) + (enc_field_ls(char_bytes("\"load_state\":"@), v.load_state, 44u8))))
}

pub open spec fn dec_stats_g8(s: Seq<u8>, i: int) -> Option<((i64, i64, i64, LoadState), int)> {
    match dec_field_i64(s, i, char_bytes("\"ah_charge_total\":"@), 44u8) {
        None => None,
        Some((x0, i0)) =>
        match dec_field_i64(s, i0, char_bytes("\"kwh_charge_resettable\":"@), 44u8) {
            None => None,
            Some((x1, i1)) =>
            match dec_field_i64(s, i1, char_bytes("\"kwh_charge_total\":"@), 44u8) {
                None => None,
                Some((x2, i2)) =>
                match dec_field_ls(s, i2, char_bytes("\"load_state\":"@), 44u8) {
                    None => None,
                    Some((x3, i3)) =>
                    Some(((x0, x1, x2, x3), i3))
                }
            }
        }
    }
}

#[verifier::rlimit(100)]
pub proof fn lemma_dec_enc_stats_g8(s: Seq<u8>, i: int, v: Stats)
    requires
        0 <= i,
        i + enc_stats_g8(v).len() <= s.len(),
        s.subrange(i, i + enc_stats_g8(v).len() as int) == enc_stats_g8(v),
    ensures
        dec_stats_g8(s, i) == Some(((v.ah_charge_total, v.kwh_charge_resettable, v.kwh_charge_total, v.load_state), i + enc_stats_g8(v).len() as int)),
{
    let j = i + enc_stats_g8(v).len() as int;
    let f0 = enc_field_i64(char_bytes("\"ah_charge_total\":"@), v.ah_charge_total as int, 44u8);
    let f1 = enc_field_i64(char_bytes("\"kwh_charge_resettable\":"@), v.kwh_charge_resettable as int, 44u8);
    let f2 = enc_field_i64(char_bytes("\"kwh_charge_total\":"@), v.kwh_charge_total as int, 44u8);
    let f3 = enc_field_ls(char_bytes("\"load_state\":"@), v.load_state, 44u8);
    let t3 = f3;
    let t2 = f2 + t3;
    let t1 = f1 + t2;
    let t0 = f0 + t1;
    assert(enc_stats_g8(v) == t0);
    let p0 = i;
    lemma_split(s, p0, j, f0, t1);
    lemma_dec_enc_field_i64(s, p0, char_bytes("\"ah_charge_total\":"@), v.ah_charge_total, 44u8);
    let p1 = p0 + f0.len() as int;
    lemma_split(s, p1, j, f1, t2);
    lemma_dec_enc_field_i64(s, p1, char_bytes("\"kwh_charge_resettable\":"@), v.kwh_charge_resettable, 44u8);
    let p2 = p1 + f1.len() as int;
    lemma_split(s, p2, j, f2, t3);
    lemma_dec_enc_field_i64(s, p2, char_bytes("\"kwh_charge_total\":"@), v.kwh_charge_total, 44u8);
    let p3 = p2 + f2.len() as int;
    lemma_dec_enc_field_ls(s, p3, char_bytes("\"load_state\":"@), v.load_state, 44u8);
}

#[verifier::rlimit(100)]
pub fn parse_stats_g8(b: &Vec<u8>, pos: usize) -> (r: Option<((i64, i64, i64, LoadState), usize)>)
    ensures
        match r {
            Some((v, e)) => pos <= e <= b@.len() && dec_stats_g8(b@, pos as int) == Some((
                v,
                e as int,
            )),
            None => dec_stats_g8(b@, pos as int) is None,
        },
{
    proof {
        reveal_strlit("\"ah_charge_total\":");
        reveal_strlit("\"kwh_charge_resettable\":");
        reveal_strlit("\"kwh_charge_total\":");
        reveal_strlit("\"load_state\":");
    }
    match parse_field_i64(b, pos, "\"ah_charge_total\":", 44u8) {
        None => None,
        Some((x0, i0)) =>
        match parse_field_i64(b, i0, "\"kwh_charge_resettable\":", 44u8) {
            None => None,
            Some((x1, i1)) =>
            match parse_field_i64(b, i1, "\"kwh_charge_total\":", 44u8) {
                None => None,
                Some((x2, i2)) =>
                match parse_field_ls(b, i2, "\"load_state\":", 44u8) {
                    None => None,
                    Some((x3, i3)) =>
                    Some(((x0, x1, x2, x3), i3))
                }
            }
        }
    }
}

#[verifier::rlimit(100)]
pub fn encode_stats_g8(out: &mut Vec<u8>, v: &Stats)
    ensures
        final(out)@ == old(out)@ + enc_stats_g8(*v),
{
    proof {
        reveal_strlit("\"ah_charge_total\":");
        reveal_strlit("\"kwh_charge_resettable\":");
        reveal_strlit("\"kwh_charge_total\":");
        reveal_strlit("\"load_state\":");
    }
    encode_field_i64(out, "\"ah_charge_total\":", v.ah_charge_total, 44u8);
    encode_field_i64(out, "\"kwh_charge_resettable\":", v.kwh_charge_resettable, 44u8);
    encode_field_i64(out, "\"kwh_charge_total\":", v.kwh_charge_total, 44u8);
    encode_field_ls(out, "\"load_state\":", v.load_state, 44u8);
    assert(out@ =~= old(out)@ + enc_stats_g8(*v));
}

pub open spec fn enc_stats_g9(v: Stats) -> Seq<u8> {
    enc_field_i64(char_bytes("\"load_faults\":"@), v.load_faults as int, 44u8) + (enc_field_i64(char_bytes("\"lvd_setpoint\":"@), v.lvd_setpoint as int, 44u8) + (enc_field_i64(char_bytes("\"ah_load_resettable\":"@), v.ah_load_resettable as int, 44u8) + (enc_field_i64(char_bytes("\"ah_load_total\":"@), v.ah_load_total as int, 44u8))))
}

pub open spec fn dec_stats_g9(s: Seq<u8>, i: int) -> Option<((u16, i64, i64, i64), int)> {
    match dec_field_u16(s, i, char_bytes("\"load_faults\":"@), 44u8) {
        None => None,
        Some((x0, i0)) =>
        match dec_field_i64(s, i0, char_bytes("\"lvd_setpoint\":"@), 44u8) {
            None => None,
            Some((x1, i1)) =>
            match dec_field_i64(s, i1, char_bytes("\"ah_load_resettable\":"@), 44u8) {
                None => None,
                Some((x2, i2)) =>
                match dec_field_i64(s, i2, char_bytes("\"ah_load_total\":"@), 44u8) {
                    None => None,
                    Some((x3, i3)) =>
                    Some(((x0, x1, x2, x3), i3))
                }
            }
        }
    }
}

#[verifier::rlimit(100)]
pub proof fn lemma_dec_enc_stats_g9(s: Seq<u8>, i: int, v: Stats)
    requires
        0 <= i,
        i + enc_stats_g9(v).len() <= s.len(),
        s.subrange(i, i + enc_stats_g9(v).len() as int) == enc_stats_g9(v),
    ensures
        dec_stats_g9(s, i) == Some(((v.load_faults, v.lvd_setpoint, v.ah_load_resettable, v.ah_load_total), i + enc_stats_g9(v).len() as int)),
{
    let j = i + enc_stats_g9(v).len() as int;
    let f0 = enc_field_i64(char_bytes("\"load_faults\":"@), v.load_faults as int, 44u8);
    let f1 = enc_field_i64(char_bytes("\"lvd_setpoint\":"@), v.lvd_setpoint as int, 44u8);
    let f2 = enc_field_i64(char_bytes("\"ah_load_resettable\":"@), v.ah_load_resettable as int, 44u8);
    let f3 = enc_field_i64(char_bytes("\"ah_load_total\":"@), v.ah_load_total as int, 44u8);
    let t3 = f3;
    let t2 = f2 + t3;
    let t1 = f1 + t2;
    let t0 = f0 + t1;
    assert(enc_stats_g9(v) == t0);
    let p0 = i;
    lemma_split(s, p0, j, f0, t1);
    lemma_dec_enc_field_u16(s, p0, char_bytes("\"load_faults\":"@), v.load_faults, 44u8);
    let p1 = p0 + f0.len() as int;
    lemma_split(s, p1, j, f1, t2);
    lemma_dec_enc_field_i64(s, p1, char_bytes("\"lvd_setpoint\":"@), v.lvd_setpoint, 44u8);
    let p2 = p1 + f1.len() as int;
    lemma_split(s, p2, j, f2, t3);
    lemma_dec_enc_field_i64(s, p2, char_bytes("\"ah_load_resettable\":"@), v.ah_load_resettable, 44u8);
    let p3 = p2 + f2.len() as int;
    lemma_dec_enc_field_i64(s, p3, char_bytes("\"ah_load_total\":"@), v.ah_load_total, 44u8);
}

#[verifier::rlimit(100)]
pub fn parse_stats_g9(b: &Vec<u8>, pos: usize) -> (r: Option<((u16, i64, i64, i64), usize)>)
    ensures
        match r {
            Some((v, e)) => pos <= e <= b@.len() && dec_stats_g9(b@, pos as int) == Some((
                v,
                e as int,
            )),
            None => dec_stats_g9(b@, pos as int) is None,
        },
{
    proof {
        reveal_strlit("\"load_faults\":");
        reveal_strlit("\"lvd_setpoint\":");
        reveal_strlit("\"ah_load_resettable\":");
        reveal_strlit("\"ah_load_total\":");
    }
    match parse_field_u16(b, pos, "\"load_faults\":", 44u8) {
        None => None,
        Some((x0, i0)) =>
        match parse_field_i64(b, i0, "\"lvd_setpoint\":", 44u8) {
            None => None,
            Some((x1, i1)) =>
            match parse_field_i64(b, i1, "\"ah_load_resettable\":", 44u8) {
                None => None,
                Some((x2, i2)) =>
                match parse_field_i64(b, i2, "\"ah_load_total\":", 44u8) {
                    None => None,
                    Some((x3, i3)) =>
                    Some(((x0, x1, x2, x3), i3))
                }
            }
        }
    }
}

#[verifier::rlimit(100)]
pub fn encode_stats_g9(out: &mut Vec<u8>, v: &Stats)
    ensures
        final(out)@ == old(out)@ + enc_stats_g9(*v),
{
    proof {
        reveal_strlit("\"load_faults\":");
        reveal_strlit("\"lvd_setpoint\":");
        reveal_strlit("\"ah_load_resettable\":");
        reveal_strlit("\"ah_load_total\":");
    }
    encode_field_i64(out, "\"load_faults\":", v.load_faults as i64, 44u8);
    encode_field_i64(out, "\"lvd_setpoint\":", v.lvd_setpoint, 44u8);
    encode_field_i64(out, "\"ah_load_resettable\":", v.ah_load_resettable, 44u8);
    encode_field_i64(out, "\"ah_load_total\":", v.ah_load_total, 44u8);
    assert(out@ =~= old(out)@ + enc_stats_g9(*v));
}

pub open spec fn enc_stats_g10(v: Stats) -> Seq<u8> {
    enc_field_i64(char_bytes("\"hourmeter\":"@), v.hourmeter as int, 44u8) + (enc_field_i64(char_bytes("\"alarms\":"@), v.alarms as int, 44u8) + (enc_field_i64(char_bytes("\"array_power\":"@), v.array_power as int, 44u8) + (enc_field_i64(char_bytes("\"array_vmp\":"@), v.array_vmp as int, 44u8))))
}

pub open spec fn dec_stats_g10(s: Seq<u8>, i: int) -> Option<((i64, u32, i64, i64), int)> {
    match dec_field_i64(s, i, char_bytes("\"hourmeter\":"@), 44u8) {
        None => None,
        Some((x0, i0)) =>
        match dec_field_u32(s, i0, char_bytes("\"alarms\":"@), 44u8) {
            None => None,
            Some((x1, i1)) =>
            match dec_field_i64(s, i1, char_bytes("\"array_power\":"@), 44u8) {
                None => None,
                Some((x2, i2)) =>
                match dec_field_i64(s, i2, char_bytes("\"array_vmp\":"@), 44u8) {
                    None => None,
                    Some((x3, i3)) =>
                    Some(((x0, x1, x2, x3), i3))
                }
            }
        }
    }
}

#[verifier::rlimit(100)]
pub proof fn lemma_dec_enc_stats_g10(s: Seq<u8>, i: int, v: Stats)
    requires
        0 <= i,
        i + enc_stats_g10(v).len() <= s.len(),
        s.subrange(i, i + enc_stats_g10(v).len() as int) == enc_stats_g10(v),
    ensures
        dec_stats_g10(s, i) == Some(((v.hourmeter, v.alarms, v.array_power, v.array_vmp), i + enc_stats_g10(v).len() as int)),
{
    let j = i + enc_stats_g10(v).len() as int;
    let f0 = enc_field_i64(char_bytes("\"hourmeter\":"@), v.hourmeter as int, 44u8);
    let f1 = enc_field_i64(char_bytes("\"alarms\":"@), v.alarms as int, 44u8);
    let f2 = enc_field_i64(char_bytes("\"array_power\":"@), v.array_power as int, 44u8);
    let f3 = enc_field_i64(char_bytes("\"array_vmp\":"@), v.array_vmp as int, 44u8);
    let t3 = f3;
    let t2 = f2 + t3;
    let t1 = f1 + t2;
    let t0 = f0 + t1;
    assert(enc_stats_g10(v) == t0);
    let p0 = i;
    lemma_split(s, p0, j, f0, t1);
    lemma_dec_enc_field_i64(s, p0, char_bytes("\"hourmeter\":"@), v.hourmeter, 44u8);
    let p1 = p0 + f0.len() as int;
    lemma_split(s, p1, j, f1, t2);
    lemma_dec_enc_field_u32(s, p1, char_bytes("\"alarms\":"@), v.alarms, 44u8);
    let p2 = p1 + f1.len() as int;
    lemma_split(s, p2, j, f2, t3);
    lemma_dec_enc_field_i64(s, p2, char_bytes("\"array_power\":"@), v.array_power, 44u8);
    let p3 = p2 + f2.len() as int;
    lemma_dec_enc_field_i64(s, p3, char_bytes("\"array_vmp\":"@), v.array_vmp, 44u8);
}

#[verifier::rlimit(100)]
pub fn parse_stats_g10(b: &Vec<u8>, pos: usize) -> (r: Option<((i64, u32, i64, i64), usize)>)
    ensures
        match r {
            Some((v, e)) => pos <= e <= b@.len() && dec_stats_g10(b@, pos as int) == Some((
                v,
                e as int,
            )),
            None => dec_stats_g10(b@, pos as int) is None,
        },
{
    proof {
        reveal_strlit("\"hourmeter\":");
        reveal_strlit("\"alarms\":");
        reveal_strlit("\"array_power\":");
        reveal_strlit("\"array_vmp\":");
    }
    match parse_field_i64(b, pos, "\"hourmeter\":", 44u8) {
        None => None,
        Some((x0, i0)) =>
        match parse_field_u32(b, i0, "\"alarms\":", 44u8) {
            None => None,
            Some((x1, i1)) =>
            match parse_field_i64(b, i1, "\"array_power\":", 44u8) {
                None => None,
                Some((x2, i2)) =>
                match parse_field_i64(b, i2, "\"array_vmp\":", 44u8) {
                    None => None,
                    Some((x3, i3)) =>
                    Some(((x0, x1, x2, x3), i3))
                }
            }
        }
    }
}

#[verifier::rlimit(100)]
pub fn encode_stats_g10(out: &mut Vec<u8>, v: &Stats)
    ensures
        final(out)@ == old(out)@ + enc_stats_g10(*v),
{
    proof {
        reveal_strlit("\"hourmeter\":");
        reveal_strlit("\"alarms\":");
        reveal_strlit("\"array_power\":");
        reveal_strlit("\"array_vmp\":");
    }
    encode_field_i64(out, "\"hourmeter\":", v.hourmeter, 44u8);
    encode_field_i64(out, "\"alarms\":", v.alarms as i64, 44u8);
    encode_field_i64(out, "\"array_power\":", v.array_power, 44u8);
    encode_field_i64(out, "\"array_vmp\":", v.array_vmp, 44u8);
    assert(out@ =~= old(out)@ + enc_stats_g10(*v));
}

pub open spec fn enc_stats_g11(v: Stats) -> Seq<u8> {
    enc_field_i64(char_bytes("\"array_max_power_sweep\":"@), v.array_max_power_sweep as int, 44u8) + (enc_field_i64(char_bytes("\"array_voc\":"@), v.array_voc as int, 44u8) + (enc_field_i64(char_bytes("\"battery_v_min_daily\":"@), v.battery_v_min_daily as int, 44u8) + (enc_field_i64(char_bytes("\"battery_v_max_daily\":"@), v.battery_v_max_daily as int, 44u8))))
}

pub open spec fn dec_stats_g11(s: Seq<u8>, i: int) -> Option<((i64, i64, i64, i64), int)> {
    match dec_field_i64(s, i, char_bytes("\"array_max_power_sweep\":"@), 44u8) {
        None => None,
        Some((x0, i0)) =>
        match dec_field_i64(s, i0, char_bytes("\"array_voc\":"@), 44u8) {
            None => None,
            Some((x1, i1)) =>
            match dec_field_i64(s, i1, char_bytes("\"battery_v_min_daily\":"@), 44u8) {
                None => None,
                Some((x2, i2)) =>
                match dec_field_i64(s, i2, char_bytes("\"battery_v_max_daily\":"@), 44u8) {
                    None => None,
                    Some((x3, i3)) =>
                    Some(((x0, x1, x2, x3), i3))
                }
            }
        }
    }
}

#[verifier::rlimit(100)]
pub proof fn lemma_dec_enc_stats_g11(s: Seq<u8>, i: int, v: Stats)
    requires
        0 <= i,
        i + enc_stats_g11(v).len() <= s.len(),
        s.subrange(i, i + enc_stats_g11(v).len() as int) == enc_stats_g11(v),
    ensures
        dec_stats_g11(s, i) == Some(((v.array_max_power_sweep, v.array_voc, v.battery_v_min_daily, v.battery_v_max_daily), i + enc_stats_g11(v).len() as int)),
{
    let j = i + enc_stats_g11(v).len() as int;
    let f0 = enc_field_i64(char_bytes("\"array_max_power_sweep\":"@), v.array_max_power_sweep as int, 44u8);
    let f1 = enc_field_i64(char_bytes("\"array_voc\":"@), v.array_voc as int, 44u8);
    let f2 = enc_field_i64(char_bytes("\"battery_v_min_daily\":"@), v.battery_v_min_daily as int, 44u8);
    let f3 = enc_field_i64(char_bytes("\"battery_v_max_daily\":"@), v.battery_v_max_daily as int, 44u8);
    let t3 = f3;
    let t2 = f2 + t3;
    let t1 = f1 + t2;
    let t0 = f0 + t1;
    assert(enc_stats_g11(v) == t0);
    let p0 = i;
    lemma_split(s, p0, j, f0, t1);
    lemma_dec_enc_field_i64(s, p0, char_bytes("\"array_max_power_sweep\":"@), v.array_max_power_sweep, 44u8);
    let p1 = p0 + f0.len() as int;
    lemma_split(s, p1, j, f1, t2);
    lemma_dec_enc_field_i64(s, p1, char_bytes("\"array_voc\":"@), v.array_voc, 44u8);
    let p2 = p1 + f1.len() as int;
    lemma_split(s, p2, j, f2, t3);
    lemma_dec_enc_field_i64(s, p2, char_bytes("\"battery_v_min_daily\":"@), v.battery_v_min_daily, 44u8);
    let p3 = p2 + f2.len() as int;
    lemma_dec_enc_field_i64(s, p3, char_bytes("\"battery_v_max_daily\":"@), v.battery_v_max_daily, 44u8);
}

#[verifier::rlimit(100)]
pub fn parse_stats_g11(b: &Vec<u8>, pos: usize) -> (r: Option<((i64, i64, i64, i64), usize)>)
    ensures
        match r {
            Some((v, e)) => pos <= e <= b@.len() && dec_stats_g11(b@, pos as int) == Some((
                v,
                e as int,
            )),
            None => dec_stats_g11(b@, pos as int) is None,
        },
{
    proof {
        reveal_strlit("\"array_max_power_sweep\":");
        reveal_strlit("\"array_voc\":");
        reveal_strlit("\"battery_v_min_daily\":");
        reveal_strlit("\"battery_v_max_daily\":");
    }
    match parse_field_i64(b, pos, "\"array_max_power_sweep\":", 44u8) {
        None => None,
        Some((x0, i0)) =>
        match parse_field_i64(b, i0, "\"array_voc\":", 44u8) {
            None => None,
            Some((x1, i1)) =>
            match parse_field_i64(b, i1, "\"battery_v_min_daily\":", 44u8) {
                None => None,
                Some((x2, i2)) =>
                match parse_field_i64(b, i2, "\"battery_v_max_daily\":", 44u8) {
                    None => None,
                    Some((x3, i3)) =>
                    Some(((x0, x1, x2, x3), i3))
                }
            }
        }
    }
}

#[verifier::rlimit(100)]
pub fn encode_stats_g11(out: &mut Vec<u8>, v: &Stats)
    ensures
        final(out)@ == old(out)@ + enc_stats_g11(*v),
{
    proof {
        reveal_strlit("\"array_max_power_sweep\":");
        reveal_strlit("\"array_voc\":");
        reveal_strlit("\"battery_v_min_daily\":");
        reveal_strlit("\"battery_v_max_daily\":");
    }
    encode_field_i64(out, "\"array_max_power_sweep\":", v.array_max_power_sweep, 44u8);
    encode_field_i64(out, "\"array_voc\":", v.array_voc, 44u8);
    encode_field_i64(out, "\"battery_v_min_daily\":", v.battery_v_min_daily, 44u8);
    encode_field_i64(out, "\"battery_v_max_daily\":", v.battery_v_max_daily, 44u8);
    assert(out@ =~= old(out)@ + enc_stats_g11(*v));
}

pub open spec fn enc_stats_g12(v: Stats) -> Seq<u8> {
    enc_field_i64(char_bytes("\"ah_charge_daily\":"@), v.ah_charge_daily as int, 44u8) + (enc_field_i64(char_bytes("\"ah_load_daily\":"@), v.ah_load_daily as int, 44u8) + (enc_field_i64(char_bytes("\"array_faults_daily\":"@), v.array_faults_daily as int, 44u8) + (enc_field_i64(char_bytes("\"load_faults_daily\":"@), v.load_faults_daily as int, 44u8))))
}

pub open spec fn dec_stats_g12(s: Seq<u8>, i: int) -> Option<((i64, i64, u16, u16), int)> {
    match dec_field_i64(s, i, char_bytes("\"ah_charge_daily\":"@), 44u8) {
        None => None,
        Some((x0, i0)) =>
        match dec_field_i64(s, i0, char_bytes("\"ah_load_daily\":"@), 44u8) {
            None => None,
            Some((x1, i1)) =>
            match dec_field_u16(s, i1, char_bytes("\"array_faults_daily\":"@), 44u8) {
                None => None,
                Some((x2, i2)) =>
                match dec_field_u16(s, i2, char_bytes("\"load_faults_daily\":"@), 44u8) {
                    None => None,
                    Some((x3, i3)) =>
                    Some(((x0, x1, x2, x3), i3))
                }
            }
        }
    }
}

#[verifier::rlimit(100)]
pub proof fn lemma_dec_enc_stats_g12(s: Seq<u8>, i: int, v: Stats)
    requires
        0 <= i,
        i + enc_stats_g12(v).len() <= s.len(),
        s.subrange(i, i + enc_stats_g12(v).len() as int) == enc_stats_g12(v),
    ensures
        dec_stats_g12(s, i) == Some(((v.ah_charge_daily, v.ah_load_daily, v.array_faults_daily, v.load_faults_daily), i + enc_stats_g12(v).len() as int)),
{
    let j = i + enc_stats_g12(v).len() as int;
    let f0 = enc_field_i64(char_bytes("\"ah_charge_daily\":"@), v.ah_charge_daily as int, 44u8);
    let f1 = enc_field_i64(char_bytes("\"ah_load_daily\":"@), v.ah_load_daily as int, 44u8);
    let f2 = enc_field_i64(char_bytes("\"array_faults_daily\":"@), v.array_faults_daily as int, 44u8);
    let f3 = enc_field_i64(char_bytes("\"load_faults_daily\":"@), v.load_faults_daily as int, 44u8);
    let t3 = f3;
    let t2 = f2 + t3;
    let t1 = f1 + t2;
    let t0 = f0 + t1;
    assert(enc_stats_g12(v) == t0);
    let p0 = i;
    lemma_split(s, p0, j, f0, t1);
    lemma_dec_enc_field_i64(s, p0, char_bytes("\"ah_charge_daily\":"@), v.ah_charge_daily, 44u8);
    let p1 = p0 + f0.len() as int;
    lemma_split(s, p1, j, f1, t2);
    lemma_dec_enc_field_i64(s, p1, char_bytes("\"ah_load_daily\":"@), v.ah_load_daily, 44u8);
    let p2 = p1 + f1.len() as int;
    lemma_split(s, p2, j, f2, t3);
    lemma_dec_enc_field_u16(s, p2, char_bytes("\"array_faults_daily\":"@), v.array_faults_daily, 44u8);
    let p3 = p2 + f2.len() as int;
    lemma_dec_enc_field_u16(s, p3, char_bytes("\"load_faults_daily\":"@), v.load_faults_daily, 44u8);
}

#[verifier::rlimit(100)]
pub fn parse_stats_g12(b: &Vec<u8>, pos: usize) -> (r: Option<((i64, i64, u16, u16), usize)>)
    ensures
        match r {
            Some((v, e)) => pos <= e <= b@.len() && dec_stats_g12(b@, pos as int) == Some((
                v,
                e as int,
            )),
            None => dec_stats_g12(b@, pos as int) is None,
        },
{
    proof {
        reveal_strlit("\"ah_charge_daily\":");
        reveal_strlit("\"ah_load_daily\":");
        reveal_strlit("\"array_faults_daily\":");
        reveal_strlit("\"load_faults_daily\":");
    }
    match parse_field_i64(b, pos, "\"ah_charge_daily\":", 44u8) {
        None => None,
        Some((x0, i0)) =>
        match parse_field_i64(b, i0, "\"ah_load_daily\":", 44u8) {
            None => None,
            Some((x1, i1)) =>
            match parse_field_u16(b, i1, "\"array_faults_daily\":", 44u8) {
                None => None,
                Some((x2, i2)) =>
                match parse_field_u16(b, i2, "\"load_faults_daily\":", 44u8) {
                    None => None,
                    Some((x3, i3)) =>
                    Some(((x0, x1, x2, x3), i3))
                }
            }
        }
    }
}

#[verifier::rlimit(100)]
pub fn encode_stats_g12(out: &mut Vec<u8>, v: &Stats)
    ensures
        final(out)@ == old(out)@ + enc_stats_g12(*v),
{
    proof {
        reveal_strlit("\"ah_charge_daily\":");
        reveal_strlit("\"ah_load_daily\":");
        reveal_strlit("\"array_faults_daily\":");
        reveal_strlit("\"load_faults_daily\":");
    }
    encode_field_i64(out, "\"ah_charge_daily\":", v.ah_charge_daily, 44u8);
    encode_field_i64(out, "\"ah_load_daily\":", v.ah_load_daily, 44u8);
    encode_field_i64(out, "\"array_faults_daily\":", v.array_faults_daily as i64, 44u8);
    encode_field_i64(out, "\"load_faults_daily\":", v.load_faults_daily as i64, 44u8);
    assert(out@ =~= old(out)@ + enc_stats_g12(*v));
}

pub open spec fn enc_stats_g13(v: Stats) -> Seq<u8> {
    enc_field_i64(char_bytes("\"alarms_daily\":"@), v.alarms_daily as int, 44u8) + (enc_field_i64(char_bytes("\"array_voltage_max_daily\":"@), v.array_voltage_max_daily as int, 44u8) + (enc_field_i64(char_bytes("\"array_voltage_fixed\":"@), v.array_voltage_fixed as int, 44u8) + (enc_field_i64(char_bytes("\"array_voc_percent_fixed\":"@), v.array_voc_percent_fixed as int, 125u8))))
}

pub open spec fn dec_stats_g13(s: Seq<u8>, i: int) -> Option<((u32, i64, i64, i64), int)> {
    match dec_field_u32(s, i, char_bytes("\"alarms_daily\":"@), 44u8) {
        None => None,
        Some((x0, i0)) =>
        match dec_field_i64(s, i0, char_bytes("\"array_voltage_max_daily\":"@), 44u8) {
            None => None,
            Some((x1, i1)) =>
            match dec_field_i64(s, i1, char_bytes("\"array_voltage_fixed\":"@), 44u8) {
                None => None,
                Some((x2, i2)) =>
                match dec_field_i64(s, i2, char_bytes("\"array_voc_percent_fixed\":"@), 125u8) {
                    None => None,
                    Some((x3, i3)) =>
                    Some(((x0, x1, x2, x3), i3))
                }
            }
        }
    }
}

#[verifier::rlimit(100)]
pub proof fn lemma_dec_enc_stats_g13(s: Seq<u8>, i: int, v: Stats)
    requires
        0 <= i,
        i + enc_stats_g13(v).len() <= s.len(),
        s.subrange(i, i + enc_stats_g13(v).len() as int) == enc_stats_g13(v),
    ensures
        dec_stats_g13(s, i) == Some(((v.alarms_daily, v.array_voltage_max_daily, v.array_voltage_fixed, v.array_voc_percent_fixed), i + enc_stats_g13(v).len() as int)),
{
    let j = i + enc_stats_g13(v).len() as int;
    let f0 = enc_field_i64(char_bytes("\"alarms_daily\":"@), v.alarms_daily as int, 44u8);
    let f1 = enc_field_i64(char_bytes("\"array_voltage_max_daily\":"@), v.array_voltage_max_daily as int, 44u8);
    let f2 = enc_field_i64(char_bytes("\"array_voltage_fixed\":"@), v.array_voltage_fixed as int, 44u8);
    let f3 = enc_field_i64(char_bytes("\"array_voc_percent_fixed\":"@), v.array_voc_percent_fixed as int, 125u8);
    let t3 = f3;
    let t2 = f2 + t3;
    let t1 = f1 + t2;
    let t0 = f0 + t1;
    assert(enc_stats_g13(v) == t0);
    let p0 = i;
    lemma_split(s, p0, j, f0, t1);
    lemma_dec_enc_field_u32(s, p0, char_bytes("\"alarms_daily\":"@), v.alarms_daily, 44u8);
    let p1 = p0 + f0.len() as int;
    lemma_split(s, p1, j, f1, t2);
    lemma_dec_enc_field_i64(s, p1, char_bytes("\"array_voltage_max_daily\":"@), v.array_voltage_max_daily, 44u8);
    let p2 = p1 + f1.len() as int;
    lemma_split(s, p2, j, f2, t3);
    lemma_dec_enc_field_i64(s, p2, char_bytes("\"array_voltage_fixed\":"@), v.array_voltage_fixed, 44u8);
    let p3 = p2 + f2.len() as int;
    lemma_dec_enc_field_i64(s, p3, char_bytes("\"array_voc_percent_fixed\":"@), v.array_voc_percent_fixed, 125u8);
}

#[verifier::rlimit(100)]
pub fn parse_stats_g13(b: &Vec<u8>, pos: usize) -> (r: Option<((u32, i64, i64, i64), usize)>)
    ensures
        match r {
            Some((v, e)) => pos <= e <= b@.len() && dec_stats_g13(b@, pos as int) == Some((
                v,
                e as int,
            )),
            None => dec_stats_g13(b@, pos as int) is None,
        },
{
    proof {
        reveal_strlit("\"alarms_daily\":");
        reveal_strlit("\"array_voltage_max_daily\":");
        reveal_strlit("\"array_voltage_fixed\":");
        reveal_strlit("\"array_voc_percent_fixed\":");
    }
    match parse_field_u32(b, pos, "\"alarms_daily\":", 44u8) {
        None => None,
        Some((x0, i0)) =>
        match parse_field_i64(b, i0, "\"array_voltage_max_daily\":", 44u8) {
            None => None,
            Some((x1, i1)) =>
            match parse_field_i64(b, i1, "\"array_voltage_fixed\":", 44u8) {
                None => None,
                Some((x2, i2)) =>
                match parse_field_i64(b, i2, "\"array_voc_percent_fixed\":", 125u8) {
                    None => None,
                    Some((x3, i3)) =>
                    Some(((x0, x1, x2, x3), i3))
                }
            }
        }
    }
}

#[verifier::rlimit(100)]
pub fn encode_stats_g13(out: &mut Vec<u8>, v: &Stats)
    ensures
        final(out)@ == old(out)@ + enc_stats_g13(*v),
{
    proof {
        reveal_strlit("\"alarms_daily\":");
        reveal_strlit("\"array_voltage_max_daily\":");
        reveal_strlit("\"array_voltage_fixed\":");
        reveal_strlit("\"array_voc_percent_fixed\":");
    }
    encode_field_i64(out, "\"alarms_daily\":", v.alarms_daily as i64, 44u8);
    encode_field_i64(out, "\"array_voltage_max_daily\":", v.array_voltage_max_daily, 44u8);
    encode_field_i64(out, "\"array_voltage_fixed\":", v.array_voltage_fixed, 44u8);
    encode_field_i64(out, "\"array_voc_percent_fixed\":", v.array_voc_percent_fixed, 125u8);
    assert(out@ =~= old(out)@ + enc_stats_g13(*v));
}

/// The statistics record on the wire: an object holding every field in
/// canonical order.
#[verifier::opaque]
pub open spec fn enc_stats(v: Stats) -> Seq<u8> {
    seq![123u8] + (enc_stats_g1(v) + (enc_stats_g2(v) + (enc_stats_g3(v) + (enc_stats_g4(v) + (enc_stats_g5(v) + (enc_stats_g6(v) + (enc_stats_g7(v) + (enc_stats_g8(v) + (enc_stats_g9(v) + (enc_stats_g10(v) + (enc_stats_g11(v) + (enc_stats_g12(v) + (enc_stats_g13(v))))))))))))))
}

/// Decode a statistics record at `i`.
#[verifier::opaque]
pub open spec fn dec_stats_at(s: Seq<u8>, i: int) -> Option<(Stats, int)> {
    if 0 <= i < s.len() && s[i] == 123 {
        match dec_stats_g1(s, i + 1) {
            None => None,
            Some((g1, e1)) =>
            match dec_stats_g2(s, e1) {
                None => None,
                Some((g2, e2)) =>
                match dec_stats_g3(s, e2) {
                    None => None,
                    Some((g3, e3)) =>
                    match dec_stats_g4(s, e3) {
                        None => None,
                        Some((g4, e4)) =>
                        match dec_stats_g5(s, e4) {
                            None => None,
                            Some((g5, e5)) =>
                            match dec_stats_g6(s, e5) {
                                None => None,
                                Some((g6, e6)) =>
                                match dec_stats_g7(s, e6) {
                                    None => None,
                                    Some((g7, e7)) =>
                                    match dec_stats_g8(s, e7) {
                                        None => None,
                                        Some((g8, e8)) =>
                                        match dec_stats_g9(s, e8) {
                                            None => None,
                                            Some((g9, e9)) =>
                                            match dec_stats_g10(s, e9) {
                                                None => None,
                                                Some((g10, e10)) =>
                                                match dec_stats_g11(s, e10) {
                                                    None => None,
                                                    Some((g11, e11)) =>
                                                    match dec_stats_g12(s, e11) {
                                                        None => None,
                                                        Some((g12, e12)) =>
                                                        match dec_stats_g13(s, e12) {
                                                            None => None,
                                                            Some((g13, e13)) =>
                                                            Some((Stats { timestamp: g1.0, software_version: g1.1, battery_voltage_settings_multiplier: g1.2, supply_3v3: g1.3, supply_12v: g2.0, supply_5v: g2.1, gate_drive_voltage: g2.2, battery_terminal_voltage: g2.3, array_voltage: g3.0, load_voltage: g3.1, charge_current: g3.2, array_current: g3.3, load_current: g4.0, battery_current_net: g4.1, battery_sense_voltage: g4.2, meterbus_voltage: g4.3, heatsink_temperature: g5.0, battery_temperature: g5.1, ambient_temperature: g5.2, rts_temperature: g5.3, u_inductor_temperature: g6.0, v_inductor_temperature: g6.1, w_inductor_temperature: g6.2, charge_state: g6.3, array_faults: g7.0, battery_voltage_slow: g7.1, target_voltage: g7.2, ah_charge_resettable: g7.3, ah_charge_total: g8.0, kwh_charge_resettable: g8.1, kwh_charge_total: g8.2, load_state: g8.3, load_faults: g9.0, lvd_setpoint: g9.1, ah_load_resettable: g9.2, ah_load_total: g9.3, hourmeter: g10.0, alarms: g10.1, array_power: g10.2, array_vmp: g10.3, array_max_power_sweep: g11.0, array_voc: g11.1, battery_v_min_daily: g11.2, battery_v_max_daily: g11.3, ah_charge_daily: g12.0, ah_load_daily: g12.1, array_faults_daily: g12.2, load_faults_daily: g12.3, alarms_daily: g13.0, array_voltage_max_daily: g13.1, array_voltage_fixed: g13.2, array_voc_percent_fixed: g13.3 }, e13))
                                                        }
                                                    }
                                                }
                                            }
                                        }
                                    }
                                }
                            }
                        }
                    }
                }
            }
        }
    } else {
        None
    }
}

/// Decoding inverts encoding for statistics records.
#[verifier::rlimit(100)]
pub proof fn lemma_dec_enc_stats(s: Seq<u8>, i: int, v: Stats)
    requires
        0 <= i,
        i + enc_stats(v).len() <= s.len(),
        s.subrange(i, i + enc_stats(v).len() as int) == enc_stats(v),
    ensures
        dec_stats_at(s, i) == Some((v, i + enc_stats(v).len() as int)),
{
    reveal(enc_stats);
    reveal(dec_stats_at);
    let j = i + enc_stats(v).len() as int;
    let f1 = enc_stats_g1(v);
    let f2 = enc_stats_g2(v);
    let f3 = enc_stats_g3(v);
    let f4 = enc_stats_g4(v);
    let f5 = enc_stats_g5(v);
    let f6 = enc_stats_g6(v);
    let f7 = enc_stats_g7(v);
    let f8 = enc_stats_g8(v);
    let f9 = enc_stats_g9(v);
    let f10 = enc_stats_g10(v);
    let f11 = enc_stats_g11(v);
    let f12 = enc_stats_g12(v);
    let f13 = enc_stats_g13(v);
    let t13 = f13;
    let t12 = f12 + t13;
    let t11 = f11 + t12;
    let t10 = f10 + t11;
    let t9 = f9 + t10;
    let t8 = f8 + t9;
    let t7 = f7 + t8;
    let t6 = f6 + t7;
    let t5 = f5 + t6;
    let t4 = f4 + t5;
    let t3 = f3 + t4;
    let t2 = f2 + t3;
    let t1 = f1 + t2;
    assert(enc_stats(v) == seq![123u8] + t1);
    lemma_split(s, i, j, seq![123u8], t1);
    assert(s[i] == seq![123u8][0]);
    let p1 = i + 1;
    lemma_split(s, p1, j, f1, t2);
    lemma_dec_enc_stats_g1(s, p1, v);
    let p2 = p1 + f1.len() as int;
    lemma_split(s, p2, j, f2, t3);
    lemma_dec_enc_stats_g2(s, p2, v);
    let p3 = p2 + f2.len() as int;
    lemma_split(s, p3, j, f3, t4);
    lemma_dec_enc_stats_g3(s, p3, v);
    let p4 = p3 + f3.len() as int;
    lemma_split(s, p4, j, f4, t5);
    lemma_dec_enc_stats_g4(s, p4, v);
    let p5 = p4 + f4.len() as int;
    lemma_split(s, p5, j, f5, t6);
    lemma_dec_enc_stats_g5(s, p5, v);
    let p6 = p5 + f5.len() as int;
    lemma_split(s, p6, j, f6, t7);
    lemma_dec_enc_stats_g6(s, p6, v);
    let p7 = p6 + f6.len() as int;
    lemma_split(s, p7, j, f7, t8);
    lemma_dec_enc_stats_g7(s, p7, v);
    let p8 = p7 + f7.len() as int;
    lemma_split(s, p8, j, f8, t9);
    lemma_dec_enc_stats_g8(s, p8, v);
    let p9 = p8 + f8.len() as int;
    lemma_split(s, p9, j, f9, t10);
    lemma_dec_enc_stats_g9(s, p9, v);
    let p10 = p9 + f9.len() as int;
    lemma_split(s, p10, j, f10, t11);
    lemma_dec_enc_stats_g10(s, p10, v);
    let p11 = p10 + f10.len() as int;
    lemma_split(s, p11, j, f11, t12);
    lemma_dec_enc_stats_g11(s, p11, v);
    let p12 = p11 + f11.len() as int;
    lemma_split(s, p12, j, f12, t13);
    lemma_dec_enc_stats_g12(s, p12, v);
    let p13 = p12 + f12.len() as int;
    lemma_dec_enc_stats_g13(s, p13, v);
}

/// Read a statistics record at `pos`.
#[verifier::rlimit(100)]
pub fn parse_stats(b: &Vec<u8>, pos: usize) -> (r: Option<(Stats, usize)>)
    ensures
        match r {
            Some((v, e)) => pos <= e <= b@.len() && dec_stats_at(b@, pos as int) == Some((
                v,
                e as int,
            )),
            None => dec_stats_at(b@, pos as int) is None,
        },
{
    proof {
        reveal(dec_stats_at);
    }
    if pos >= b.len() || b[pos] != 123 {
        return None;
    }
    match parse_stats_g1(b, pos + 1) {
        None => None,
        Some((g1, e1)) =>
        match parse_stats_g2(b, e1) {
            None => None,
            Some((g2, e2)) =>
            match parse_stats_g3(b, e2) {
                None => None,
                Some((g3, e3)) =>
                match parse_stats_g4(b, e3) {
                    None => None,
                    Some((g4, e4)) =>
                    match parse_stats_g5(b, e4) {
                        None => None,
                        Some((g5, e5)) =>
                        match parse_stats_g6(b, e5) {
                            None => None,
                            Some((g6, e6)) =>
                            match parse_stats_g7(b, e6) {
                                None => None,
                                Some((g7, e7)) =>
                                match parse_stats_g8(b, e7) {
                                    None => None,
                                    Some((g8, e8)) =>
                                    match parse_stats_g9(b, e8) {
                                        None => None,
                                        Some((g9, e9)) =>
                                        match parse_stats_g10(b, e9) {
                                            None => None,
                                            Some((g10, e10)) =>
                                            match parse_stats_g11(b, e10) {
                                                None => None,
                                                Some((g11, e11)) =>
                                                match parse_stats_g12(b, e11) {
                                                    None => None,
                                                    Some((g12, e12)) =>
                                                    match parse_stats_g13(b, e12) {
                                                        None => None,
                                                        Some((g13, e13)) =>
                                                        Some((Stats { timestamp: g1.0, software_version: g1.1, battery_voltage_settings_multiplier: g1.2, supply_3v3: g1.3, supply_12v: g2.0, supply_5v: g2.1, gate_drive_voltage: g2.2, battery_terminal_voltage: g2.3, array_voltage: g3.0, load_voltage: g3.1, charge_current: g3.2, array_current: g3.3, load_current: g4.0, battery_current_net: g4.1, battery_sense_voltage: g4.2, meterbus_voltage: g4.3, heatsink_temperature: g5.0, battery_temperature: g5.1, ambient_temperature: g5.2, rts_temperature: g5.3, u_inductor_temperature: g6.0, v_inductor_temperature: g6.1, w_inductor_temperature: g6.2, charge_state: g6.3, array_faults: g7.0, battery_voltage_slow: g7.1, target_voltage: g7.2, ah_charge_resettable: g7.3, ah_charge_total: g8.0, kwh_charge_resettable: g8.1, kwh_charge_total: g8.2, load_state: g8.3, load_faults: g9.0, lvd_setpoint: g9.1, ah_load_resettable: g9.2, ah_load_total: g9.3, hourmeter: g10.0, alarms: g10.1, array_power: g10.2, array_vmp: g10.3, array_max_power_sweep: g11.0, array_voc: g11.1, battery_v_min_daily: g11.2, battery_v_max_daily: g11.3, ah_charge_daily: g12.0, ah_load_daily: g12.1, array_faults_daily: g12.2, load_faults_daily: g12.3, alarms_daily: g13.0, array_voltage_max_daily: g13.1, array_voltage_fixed: g13.2, array_voc_percent_fixed: g13.3 }, e13))
                                                    }
                                                }
                                            }
                                        }
                                    }
                                }
                            }
                        }
                    }
                }
            }
        }
    }
}

/// Append a statistics record.
#[verifier::rlimit(100)]
pub fn encode_stats(out: &mut Vec<u8>, v: &Stats)
    ensures
        final(out)@ == old(out)@ + enc_stats(*v),
{
    out.push(123);
    assert(out@ =~= old(out)@ + seq![123u8]);
    encode_stats_g1(out, v);
    encode_stats_g2(out, v);
    encode_stats_g3(out, v);
    encode_stats_g4(out, v);
    encode_stats_g5(out, v);
    encode_stats_g6(out, v);
    encode_stats_g7(out, v);
    encode_stats_g8(out, v);
    encode_stats_g9(out, v);
    encode_stats_g10(out, v);
    encode_stats_g11(out, v);
    encode_stats_g12(out, v);
    encode_stats_g13(out, v);
    proof {
        reveal(enc_stats);
        let o = old(out)@;
        let f1 = enc_stats_g1(*v);
        let f2 = enc_stats_g2(*v);
        let f3 = enc_stats_g3(*v);
        let f4 = enc_stats_g4(*v);
        let f5 = enc_stats_g5(*v);
        let f6 = enc_stats_g6(*v);
        let f7 = enc_stats_g7(*v);
        let f8 = enc_stats_g8(*v);
        let f9 = enc_stats_g9(*v);
        let f10 = enc_stats_g10(*v);
        let f11 = enc_stats_g11(*v);
        let f12 = enc_stats_g12(*v);
        let f13 = enc_stats_g13(*v);
        let t13 = f13;
        let t12 = f12 + t13;
        let t11 = f11 + t12;
        let t10 = f10 + t11;
        let t9 = f9 + t10;
        let t8 = f8 + t9;
        let t7 = f7 + t8;
        let t6 = f6 + t7;
        let t5 = f5 + t6;
        let t4 = f4 + t5;
        let t3 = f3 + t4;
        let t2 = f2 + t3;
        let t1 = f1 + t2;
        let l0 = o + seq![123u8];
        let l1 = l0 + f1;
        let l2 = l1 + f2;
        let l3 = l2 + f3;
        let l4 = l3 + f4;
        let l5 = l4 + f5;
        let l6 = l5 + f6;
        let l7 = l6 + f7;
        let l8 = l7 + f8;
        let l9 = l8 + f9;
        let l10 = l9 + f10;
        let l11 = l10 + f11;
        let l12 = l11 + f12;
        let l13 = l12 + f13;
        assert(out@ == l13);
        lemma_add_assoc(l11, f12, t13);
        lemma_add_assoc(l10, f11, t12);
        lemma_add_assoc(l9, f10, t11);
        lemma_add_assoc(l8, f9, t10);
        lemma_add_assoc(l7, f8, t9);
        lemma_add_assoc(l6, f7, t8);
        lemma_add_assoc(l5, f6, t7);
        lemma_add_assoc(l4, f5, t6);
        lemma_add_assoc(l3, f4, t5);
        lemma_add_assoc(l2, f3, t4);
        lemma_add_assoc(l1, f2, t3);
        lemma_add_assoc(l0, f1, t2);
        assert(l11 + t12 == l11 + (f12 + t13));
        assert(l10 + t11 == l10 + (f11 + t12));
        assert(l9 + t10 == l9 + (f10 + t11));
        assert(l8 + t9 == l8 + (f9 + t10));
        assert(l7 + t8 == l7 + (f8 + t9));
        assert(l6 + t7 == l6 + (f7 + t8));
        assert(l5 + t6 == l5 + (f6 + t7));
        assert(l4 + t5 == l4 + (f5 + t6));
        assert(l3 + t4 == l3 + (f4 + t5));
        assert(l2 + t3 == l2 + (f3 + t4));
        assert(l1 + t2 == l1 + (f2 + t3));
        assert(l0 + t1 == l0 + (f1 + t2));
        assert(out@ == l0 + t1);
        assert(l0 + t1 =~= o + (seq![123u8] + t1));
        assert(enc_stats(*v) == seq![123u8] + t1);
    }
}

/// Every encoded record opens with a brace.
pub proof fn lemma_enc_stats_first_byte(v: Stats)
    ensures
        enc_stats(v).len() >= 1,
        enc_stats(v)[0] == 123,
{
    reveal(enc_stats);
    assert(enc_stats(v)[0] == seq![123u8][0]);
}

} // verus!
