//! Wire codec for the protocol's composite records: the relay state, the
//! versioned telemetry envelope and its log line, operator requests, and
//! replies.

use vstd::prelude::*;
use crate::Phy;
use crate::Stats;
use crate::FromClient;
use crate::ToClient;
use crate::upgrade_spec;
use crate::prostar;
use crate::codec::char_bytes;
use crate::codec::dec_lit;
use crate::codec::i64_digits;
use crate::codec::dec_i64_at;
use crate::codec::lemma_dec_enc_i64;
use crate::codec::parse_i64;
use crate::codec::enc_i64;
use crate::codec::is_digit;
use crate::codec::lemma_split;
use crate::codec::lemma_lit_differs;
use crate::codec::enc_field_bool;
use crate::codec::dec_field_bool;
use crate::codec::lemma_dec_enc_field_bool;
use crate::codec::parse_field_bool;
use crate::codec::encode_field_bool;
use crate::codec::enc_bool;
use crate::codec::dec_bool_at;
use crate::codec::lemma_dec_enc_bool;
use crate::codec::parse_bool;
use crate::codec::expect_lit;
use crate::codec::push_lit;
use crate::codec::enc_string;
use crate::codec::enc_estr;
use crate::codec::dec_estr_at;
use crate::codec::lemma_dec_enc_estr;
use crate::codec::parse_estr;
use crate::codec::encode_esc_bytes;
use crate::codec::dec_string_at;
use crate::codec::lemma_dec_enc_string;
use crate::codec::parse_string;
use crate::codec::bytes_eq_lit;
use crate::codec::ascii_to_string;
use crate::codec::all_below_128;
use crate::codec::string_bytes;
use crate::stats_codec::enc_stats;
use crate::stats_codec::dec_stats_at;
use crate::stats_codec::lemma_dec_enc_stats;
use crate::stats_codec::parse_stats;
use crate::stats_codec::encode_stats;
use crate::settings_codec::enc_settings;
use crate::settings_codec::dec_settings_at;
use crate::settings_codec::lemma_dec_enc_settings;
use crate::settings_codec::parse_settings;
use crate::settings_codec::encode_settings;

verus! {

/// The relay state on the wire: an object of its three booleans.
pub open spec fn enc_phy(p: Phy) -> Seq<u8> {
    seq![123u8] + (enc_field_bool(char_bytes("\"solar\":"@), p.solar, 44) + (enc_field_bool(
        char_bytes("\"battery\":"@),
        p.battery,
        44,
    ) + enc_field_bool(char_bytes("\"master\":"@), p.master, 125)))
}

/// Decode a relay state at `i`.
pub open spec fn dec_phy_at(s: Seq<u8>, i: int) -> Option<(Phy, int)> {
    if 0 <= i < s.len() && s[i] == 123 {
        match dec_field_bool(s, i + 1, char_bytes("\"solar\":"@), 44) {
            None => None,
            Some((solar, i0)) => match dec_field_bool(s, i0, char_bytes("\"battery\":"@), 44) {
                None => None,
                Some((battery, i1)) => match dec_field_bool(
                    s,
                    i1,
                    char_bytes("\"master\":"@),
                    125,
                ) {
                    None => None,
                    Some((master, i2)) => Some((Phy { solar, battery, master }, i2)),
                },
            },
        }
    } else {
        None
    }
}

/// Decoding inverts encoding for relay states.
pub proof fn lemma_dec_enc_phy(s: Seq<u8>, i: int, p: Phy)
    requires
        0 <= i,
        i + enc_phy(p).len() <= s.len(),
        s.subrange(i, i + enc_phy(p).len() as int) == enc_phy(p),
    ensures
        dec_phy_at(s, i) == Some((p, i + enc_phy(p).len() as int)),
{
    let j = i + enc_phy(p).len() as int;
    let f0 = enc_field_bool(char_bytes("\"solar\":"@), p.solar, 44);
    let f1 = enc_field_bool(char_bytes("\"battery\":"@), p.battery, 44);
    let f2 = enc_field_bool(char_bytes("\"master\":"@), p.master, 125);
    let t2 = f2;
    let t1 = f1 + t2;
    let t0 = f0 + t1;
    assert(enc_phy(p) == seq![123u8] + t0);
    lemma_split(s, i, j, seq![123u8], t0);
    assert(s[i] == seq![123u8][0]);
    let p0 = i + 1;
    lemma_split(s, p0, j, f0, t1);
    lemma_dec_enc_field_bool(s, p0, char_bytes("\"solar\":"@), p.solar, 44);
    let p1 = p0 + f0.len() as int;
    lemma_split(s, p1, j, f1, t2);
    lemma_dec_enc_field_bool(s, p1, char_bytes("\"battery\":"@), p.battery, 44);
    let p2 = p1 + f1.len() as int;
    lemma_dec_enc_field_bool(s, p2, char_bytes("\"master\":"@), p.master, 125);
}

/// Read a relay state at `pos`.
pub fn parse_phy(b: &Vec<u8>, pos: usize) -> (r: Option<(Phy, usize)>)
    ensures
        match r {
            Some((v, e)) => pos <= e <= b@.len() && dec_phy_at(b@, pos as int) == Some((
                v,
                e as int,
            )),
            None => dec_phy_at(b@, pos as int) is None,
        },
{
    proof {
        reveal_strlit("\"solar\":");
        reveal_strlit("\"battery\":");
        reveal_strlit("\"master\":");
    }
    if pos >= b.len() || b[pos] != 123 {
        return None;
    }
    match parse_field_bool(b, pos + 1, "\"solar\":", 44) {
        None => None,
        Some((solar, i0)) => match parse_field_bool(b, i0, "\"battery\":", 44) {
            None => None,
            Some((battery, i1)) => match parse_field_bool(b, i1, "\"master\":", 125) {
                None => None,
                Some((master, i2)) => Some((Phy { solar, battery, master }, i2)),
            },
        },
    }
}

/// Append a relay state.
pub fn encode_phy(out: &mut Vec<u8>, p: &Phy)
    ensures
        final(out)@ == old(out)@ + enc_phy(*p),
{
    proof {
        reveal_strlit("\"solar\":");
        reveal_strlit("\"battery\":");
        reveal_strlit("\"master\":");
    }
    out.push(123);
    encode_field_bool(out, "\"solar\":", p.solar, 44);
    encode_field_bool(out, "\"battery\":", p.battery, 44);
    encode_field_bool(out, "\"master\":", p.master, 125);
    assert(out@ =~= old(out)@ + enc_phy(*p));
}

/// An optional controller snapshot: the word `null`, or the record.
pub open spec fn enc_opt_stats(v: Option<prostar::Stats>) -> Seq<u8> {
    match v {
        None => char_bytes("null"@),
        Some(st) => enc_stats(st),
    }
}

/// Decode an optional controller snapshot at `i`.
pub open spec fn dec_opt_stats_at(s: Seq<u8>, i: int) -> Option<(Option<prostar::Stats>, int)> {
    match dec_lit(s, i, char_bytes("null"@)) {
        Some(e) => Some((None::<prostar::Stats>, e)),
        None => match dec_stats_at(s, i) {
            Some((st, e)) => Some((Some(st), e)),
            None => None,
        },
    }
}

/// Decoding inverts encoding for optional controller snapshots.
pub proof fn lemma_dec_enc_opt_stats(s: Seq<u8>, i: int, v: Option<prostar::Stats>)
    requires
        0 <= i,
        i + enc_opt_stats(v).len() <= s.len(),
        s.subrange(i, i + enc_opt_stats(v).len() as int) == enc_opt_stats(v),
    ensures
        dec_opt_stats_at(s, i) == Some((v, i + enc_opt_stats(v).len() as int)),
{
    reveal_strlit("null");
    match v {
        None => {
            assert(dec_lit(s, i, char_bytes("null"@)) == Some(i + 4));
        }
        Some(st) => {
            lemma_dec_enc_stats(s, i, st);
            crate::stats_codec::lemma_enc_stats_first_byte(st);
            assert(s[i] == enc_stats(st)[0]);
            assert(char_bytes("null"@)[0] == 110);
            lemma_lit_differs(s, i, char_bytes("null"@), 0);
        }
    }
}

/// Read an optional controller snapshot at `pos`.
pub fn parse_opt_stats(b: &Vec<u8>, pos: usize) -> (r: Option<(Option<prostar::Stats>, usize)>)
    ensures
        match r {
            Some((v, e)) => pos <= e <= b@.len() && dec_opt_stats_at(b@, pos as int) == Some((
                v,
                e as int,
            )),
            None => dec_opt_stats_at(b@, pos as int) is None,
        },
{
    proof {
        reveal_strlit("null");
    }
    match expect_lit(b, pos, "null") {
        Some(e) => Some((None, e)),
        None => match parse_stats(b, pos) {
            Some((st, e)) => Some((Some(st), e)),
            None => None,
        },
    }
}

/// Append an optional controller snapshot.
pub fn encode_opt_stats(out: &mut Vec<u8>, v: &Option<prostar::Stats>)
    ensures
        final(out)@ == old(out)@ + enc_opt_stats(*v),
{
    proof {
        reveal_strlit("null");
    }
    match v {
        None => push_lit(out, "null"),
        Some(st) => encode_stats(out, st),
    }
}

/// The versioned envelope on the wire, tagged by version.
pub open spec fn enc_envelope(v: Stats) -> Seq<u8> {
    match v {
        Stats::V0(st) => char_bytes("{\"V0\":"@) + (enc_stats(st) + seq![125u8]),
        Stats::V1 { controller, phy } => char_bytes("{\"V1\":{\"controller\":"@) + (enc_stats(
            controller,
        ) + (char_bytes(",\"phy\":"@) + (enc_phy(phy) + seq![125u8, 125u8]))),
        Stats::V2 { timestamp, controller, phy } => char_bytes("{\"V2\":{\"timestamp\":"@) + (
        i64_digits(timestamp as int) + (char_bytes(",\"controller\":"@) + (enc_opt_stats(
            controller,
        ) + (char_bytes(",\"phy\":"@) + (enc_phy(phy) + seq![125u8, 125u8]))))),
        Stats::V3 { timestamp, controller } => char_bytes("{\"V3\":{\"timestamp\":"@) + (
        i64_digits(timestamp as int) + (char_bytes(",\"controller\":"@) + (enc_opt_stats(
            controller,
        ) + seq![125u8, 125u8]))),
    }
}

/// Decode the body of a bare controller record envelope.
pub open spec fn dec_env_v0(s: Seq<u8>, p: int) -> Option<(Stats, int)> {
    match dec_stats_at(s, p) {
        Some((st, e)) => if e < s.len() && s[e] == 125 {
            Some((Stats::V0(st), e + 1))
        } else {
            None
        },
        None => None,
    }
}

/// Decode the body of a controller-and-relay-state envelope.
pub open spec fn dec_env_v1(s: Seq<u8>, p: int) -> Option<(Stats, int)> {
    match dec_stats_at(s, p) {
        Some((controller, e0)) => match dec_lit(s, e0, char_bytes(",\"phy\":"@)) {
            Some(e1) => match dec_phy_at(s, e1) {
                Some((phy, e2)) => match dec_lit(s, e2, seq![125u8, 125u8]) {
                    Some(e3) => Some((Stats::V1 { controller, phy }, e3)),
                    None => None,
                },
                None => None,
            },
            None => None,
        },
        None => None,
    }
}

/// Decode the body of a timestamped envelope that still carries the relay
/// state.
pub open spec fn dec_env_v2(s: Seq<u8>, p: int) -> Option<(Stats, int)> {
    match dec_i64_at(s, p) {
        Some((timestamp, e0)) => match dec_lit(s, e0, char_bytes(",\"controller\":"@)) {
            Some(e1) => match dec_opt_stats_at(s, e1) {
                Some((controller, e2)) => match dec_lit(s, e2, char_bytes(",\"phy\":"@)) {
                    Some(e3) => match dec_phy_at(s, e3) {
                        Some((phy, e4)) => match dec_lit(s, e4, seq![125u8, 125u8]) {
                            Some(e5) => Some((Stats::V2 { timestamp, controller, phy }, e5)),
                            None => None,
                        },
                        None => None,
                    },
                    None => None,
                },
                None => None,
            },
            None => None,
        },
        None => None,
    }
}

/// Decode the body of a newest-version envelope.
pub open spec fn dec_env_v3(s: Seq<u8>, p: int) -> Option<(Stats, int)> {
    match dec_i64_at(s, p) {
        Some((timestamp, e0)) => match dec_lit(s, e0, char_bytes(",\"controller\":"@)) {
            Some(e1) => match dec_opt_stats_at(s, e1) {
                Some((controller, e2)) => match dec_lit(s, e2, seq![125u8, 125u8]) {
                    Some(e3) => Some((Stats::V3 { timestamp, controller }, e3)),
                    None => None,
                },
                None => None,
            },
            None => None,
        },
        None => None,
    }
}

/// Decode an envelope of any version at `i`, trying the version tags in
/// order.
pub open spec fn dec_envelope_at(s: Seq<u8>, i: int) -> Option<(Stats, int)> {
    match dec_lit(s, i, char_bytes("{\"V0\":"@)) {
        Some(p) => dec_env_v0(s, p),
        None => match dec_lit(s, i, char_bytes("{\"V1\":{\"controller\":"@)) {
            Some(p) => dec_env_v1(s, p),
            None => match dec_lit(s, i, char_bytes("{\"V2\":{\"timestamp\":"@)) {
                Some(p) => dec_env_v2(s, p),
                None => match dec_lit(s, i, char_bytes("{\"V3\":{\"timestamp\":"@)) {
                    Some(p) => dec_env_v3(s, p),
                    None => None,
                },
            },
        },
    }
}

/// Decoding inverts encoding for envelopes of every version.
#[verifier::rlimit(100)]
#[verifier::spinoff_prover]
pub proof fn lemma_dec_enc_envelope(s: Seq<u8>, i: int, v: Stats)
    requires
        0 <= i,
        i + enc_envelope(v).len() <= s.len(),
        s.subrange(i, i + enc_envelope(v).len() as int) == enc_envelope(v),
    ensures
        dec_envelope_at(s, i) == Some((v, i + enc_envelope(v).len() as int)),
{
    reveal_strlit("{\"V0\":");
    reveal_strlit("{\"V1\":{\"controller\":");
    reveal_strlit("{\"V2\":{\"timestamp\":");
    reveal_strlit("{\"V3\":{\"timestamp\":");
    reveal_strlit(",\"controller\":");
    reveal_strlit(",\"phy\":");
    let j = i + enc_envelope(v).len() as int;
    let t0 = char_bytes("{\"V0\":"@);
    let t1 = char_bytes("{\"V1\":{\"controller\":"@);
    let t2 = char_bytes("{\"V2\":{\"timestamp\":"@);
    let t3 = char_bytes("{\"V3\":{\"timestamp\":"@);
    let lctl = char_bytes(",\"controller\":"@);
    let lphy = char_bytes(",\"phy\":"@);
    match v {
        Stats::V0(st) => {
            let r1 = enc_stats(st) + seq![125u8];
            lemma_split(s, i, j, t0, r1);
            let p = i + t0.len() as int;
            lemma_split(s, p, j, enc_stats(st), seq![125u8]);
            lemma_dec_enc_stats(s, p, st);
            let e = p + enc_stats(st).len() as int;
            assert(s[e] == seq![125u8][0]);
        }
        Stats::V1 { controller, phy } => {
            let r3 = enc_phy(phy) + seq![125u8, 125u8];
            let r2 = lphy + r3;
            let r1 = enc_stats(controller) + r2;
            assert(enc_envelope(v) == t1 + r1);
            lemma_split(s, i, j, t1, r1);
            assert(s[i + 3] == t1[3]);
            lemma_lit_differs(s, i, t0, 3);
            let p = i + t1.len() as int;
            lemma_split(s, p, j, enc_stats(controller), r2);
            lemma_dec_enc_stats(s, p, controller);
            let e0 = p + enc_stats(controller).len() as int;
            lemma_split(s, e0, j, lphy, r3);
            let e1 = e0 + lphy.len() as int;
            lemma_split(s, e1, j, enc_phy(phy), seq![125u8, 125u8]);
            lemma_dec_enc_phy(s, e1, phy);
            let e2 = e1 + enc_phy(phy).len() as int;
            assert(s.subrange(e2, j) == seq![125u8, 125u8]);
        }
        Stats::V2 { timestamp, controller, phy } => {
            let r5 = enc_phy(phy) + seq![125u8, 125u8];
            let r4 = lphy + r5;
            let r3 = enc_opt_stats(controller) + r4;
            let r2 = lctl + r3;
            let r1 = i64_digits(timestamp as int) + r2;
            assert(enc_envelope(v) == t2 + r1);
            lemma_split(s, i, j, t2, r1);
            assert(s[i + 3] == t2[3]);
            lemma_lit_differs(s, i, t0, 3);
            lemma_lit_differs(s, i, t1, 3);
            let p = i + t2.len() as int;
            lemma_split(s, p, j, i64_digits(timestamp as int), r2);
            let e0 = p + i64_digits(timestamp as int).len() as int;
            lemma_split(s, e0, j, lctl, r3);
            assert(s[e0] == lctl[0]);
            assert(!is_digit(s[e0]));
            lemma_dec_enc_i64(s, p, timestamp);
            let e1 = e0 + lctl.len() as int;
            lemma_split(s, e1, j, enc_opt_stats(controller), r4);
            lemma_dec_enc_opt_stats(s, e1, controller);
            let e2 = e1 + enc_opt_stats(controller).len() as int;
            lemma_split(s, e2, j, lphy, r5);
            let e3 = e2 + lphy.len() as int;
            lemma_split(s, e3, j, enc_phy(phy), seq![125u8, 125u8]);
            lemma_dec_enc_phy(s, e3, phy);
            let e4 = e3 + enc_phy(phy).len() as int;
            assert(s.subrange(e4, j) == seq![125u8, 125u8]);
        }
        Stats::V3 { timestamp, controller } => {
            let r3 = enc_opt_stats(controller) + seq![125u8, 125u8];
            let r2 = lctl + r3;
            let r1 = i64_digits(timestamp as int) + r2;
            assert(enc_envelope(v) == t3 + r1);
            lemma_split(s, i, j, t3, r1);
            assert(s[i + 3] == t3[3]);
            lemma_lit_differs(s, i, t0, 3);
            lemma_lit_differs(s, i, t1, 3);
            lemma_lit_differs(s, i, t2, 3);
            let p = i + t3.len() as int;
            lemma_split(s, p, j, i64_digits(timestamp as int), r2);
            let e0 = p + i64_digits(timestamp as int).len() as int;
            lemma_split(s, e0, j, lctl, r3);
            assert(s[e0] == lctl[0]);
            assert(!is_digit(s[e0]));
            lemma_dec_enc_i64(s, p, timestamp);
            let e1 = e0 + lctl.len() as int;
            lemma_split(s, e1, j, enc_opt_stats(controller), seq![125u8, 125u8]);
            lemma_dec_enc_opt_stats(s, e1, controller);
            let e2 = e1 + enc_opt_stats(controller).len() as int;
            assert(s.subrange(e2, j) == seq![125u8, 125u8]);
        }
    }
}

fn parse_env_v0(b: &Vec<u8>, p: usize) -> (r: Option<(Stats, usize)>)
    ensures
        match r {
            Some((v, e)) => p <= e <= b@.len() && dec_env_v0(b@, p as int) == Some((v, e as int)),
            None => dec_env_v0(b@, p as int) is None,
        },
{
    match parse_stats(b, p) {
        Some((st, e)) => {
            if e < b.len() && b[e] == 125 {
                Some((Stats::V0(st), e + 1))
            } else {
                None
            }
        }
        None => None,
    }
}

fn parse_env_v1(b: &Vec<u8>, p: usize) -> (r: Option<(Stats, usize)>)
    ensures
        match r {
            Some((v, e)) => p <= e <= b@.len() && dec_env_v1(b@, p as int) == Some((v, e as int)),
            None => dec_env_v1(b@, p as int) is None,
        },
{
    proof {
        reveal_strlit(",\"phy\":");
        reveal_strlit("}}");
        assert(char_bytes("}}"@) =~= seq![125u8, 125u8]);
    }
    match parse_stats(b, p) {
        Some((controller, e0)) => match expect_lit(b, e0, ",\"phy\":") {
            Some(e1) => match parse_phy(b, e1) {
                Some((phy, e2)) => match expect_lit(b, e2, "}}") {
                    Some(e3) => Some((Stats::V1 { controller, phy }, e3)),
                    None => None,
                },
                None => None,
            },
            None => None,
        },
        None => None,
    }
}

#[verifier::rlimit(100)]
fn parse_env_v2(b: &Vec<u8>, p: usize) -> (r: Option<(Stats, usize)>)
    ensures
        match r {
            Some((v, e)) => p <= e <= b@.len() && dec_env_v2(b@, p as int) == Some((v, e as int)),
            None => dec_env_v2(b@, p as int) is None,
        },
{
    proof {
        reveal_strlit(",\"controller\":");
        reveal_strlit(",\"phy\":");
        reveal_strlit("}}");
        assert(char_bytes("}}"@) =~= seq![125u8, 125u8]);
    }
    match parse_i64(b, p) {
        Some((timestamp, e0)) => match expect_lit(b, e0, ",\"controller\":") {
            Some(e1) => match parse_opt_stats(b, e1) {
                Some((controller, e2)) => match expect_lit(b, e2, ",\"phy\":") {
                    Some(e3) => match parse_phy(b, e3) {
                        Some((phy, e4)) => match expect_lit(b, e4, "}}") {
                            Some(e5) => Some((Stats::V2 { timestamp, controller, phy }, e5)),
                            None => None,
                        },
                        None => None,
                    },
                    None => None,
                },
                None => None,
            },
            None => None,
        },
        None => None,
    }
}

fn parse_env_v3(b: &Vec<u8>, p: usize) -> (r: Option<(Stats, usize)>)
    ensures
        match r {
            Some((v, e)) => p <= e <= b@.len() && dec_env_v3(b@, p as int) == Some((v, e as int)),
            None => dec_env_v3(b@, p as int) is None,
        },
{
    proof {
        reveal_strlit(",\"controller\":");
        reveal_strlit("}}");
        assert(char_bytes("}}"@) =~= seq![125u8, 125u8]);
    }
    match parse_i64(b, p) {
        Some((timestamp, e0)) => match expect_lit(b, e0, ",\"controller\":") {
            Some(e1) => match parse_opt_stats(b, e1) {
                Some((controller, e2)) => match expect_lit(b, e2, "}}") {
                    Some(e3) => Some((Stats::V3 { timestamp, controller }, e3)),
                    None => None,
                },
                None => None,
            },
            None => None,
        },
        None => None,
    }
}

/// Read an envelope of any version at `pos`.
#[verifier::spinoff_prover]
pub fn parse_envelope(b: &Vec<u8>, pos: usize) -> (r: Option<(Stats, usize)>)
    ensures
        match r {
            Some((v, e)) => pos <= e <= b@.len() && dec_envelope_at(b@, pos as int) == Some((
                v,
                e as int,
            )),
            None => dec_envelope_at(b@, pos as int) is None,
        },
{
    proof {
        reveal_strlit("{\"V0\":");
        reveal_strlit("{\"V1\":{\"controller\":");
        reveal_strlit("{\"V2\":{\"timestamp\":");
        reveal_strlit("{\"V3\":{\"timestamp\":");
    }
    match expect_lit(b, pos, "{\"V0\":") {
        Some(p) => parse_env_v0(b, p),
        None => match expect_lit(b, pos, "{\"V1\":{\"controller\":") {
            Some(p) => parse_env_v1(b, p),
            None => match expect_lit(b, pos, "{\"V2\":{\"timestamp\":") {
                Some(p) => parse_env_v2(b, p),
                None => match expect_lit(b, pos, "{\"V3\":{\"timestamp\":") {
                    Some(p) => parse_env_v3(b, p),
                    None => None,
                },
            },
        },
    }
}

/// Append an envelope; only the newest version is ever written, but every
/// version can be appended, as replay and archival copy records through.
#[verifier::rlimit(100)]
#[verifier::spinoff_prover]
pub fn encode_envelope(out: &mut Vec<u8>, v: &Stats)
    ensures
        final(out)@ == old(out)@ + enc_envelope(*v),
{
    proof {
        reveal_strlit("{\"V0\":");
        reveal_strlit("{\"V1\":{\"controller\":");
        reveal_strlit("{\"V2\":{\"timestamp\":");
        reveal_strlit("{\"V3\":{\"timestamp\":");
        reveal_strlit(",\"controller\":");
        reveal_strlit(",\"phy\":");
        reveal_strlit("}}");
    }
    match v {
        Stats::V0(st) => {
            push_lit(out, "{\"V0\":");
            encode_stats(out, st);
            out.push(125);
            assert(out@ =~= old(out)@ + enc_envelope(*v));
        }
        Stats::V1 { controller, phy } => {
            push_lit(out, "{\"V1\":{\"controller\":");
            encode_stats(out, controller);
            push_lit(out, ",\"phy\":");
            encode_phy(out, phy);
            push_lit(out, "}}");
            assert(char_bytes("}}"@) =~= seq![125u8, 125u8]);
            assert(out@ =~= old(out)@ + enc_envelope(*v));
        }
        Stats::V2 { timestamp, controller, phy } => {
            push_lit(out, "{\"V2\":{\"timestamp\":");
            enc_i64(*timestamp, out);
            push_lit(out, ",\"controller\":");
            encode_opt_stats(out, controller);
            push_lit(out, ",\"phy\":");
            encode_phy(out, phy);
            push_lit(out, "}}");
            assert(char_bytes("}}"@) =~= seq![125u8, 125u8]);
            assert(out@ =~= old(out)@ + enc_envelope(*v));
        }
        Stats::V3 { timestamp, controller } => {
            push_lit(out, "{\"V3\":{\"timestamp\":");
            enc_i64(*timestamp, out);
            push_lit(out, ",\"controller\":");
            encode_opt_stats(out, controller);
            push_lit(out, "}}");
            assert(char_bytes("}}"@) =~= seq![125u8, 125u8]);
            assert(out@ =~= old(out)@ + enc_envelope(*v));
        }
    }
}

/// One line of the telemetry log: the envelope and a newline.
pub open spec fn enc_stats_line(v: Stats) -> Seq<u8> {
    enc_envelope(v) + seq![10u8]
}

/// Decode one full log line, trailing newline included.
pub open spec fn dec_stats_line(s: Seq<u8>) -> Option<Stats> {
    match dec_envelope_at(s, 0) {
        Some((v, e)) => if e + 1 == s.len() && s[e] == 10 {
            Some(v)
        } else {
            None
        },
        None => None,
    }
}

/// Serialize one record as a telemetry log line.
pub fn encode_stats_line(v: &Stats) -> (r: Vec<u8>)
    ensures
        r@ == enc_stats_line(*v),
{
    let mut out: Vec<u8> = Vec::new();
    encode_envelope(&mut out, v);
    out.push(10);
    assert(out@ =~= enc_stats_line(*v));
    out
}

/// Parse one telemetry log line.
pub fn parse_stats_line(b: &Vec<u8>) -> (r: Option<Stats>)
    ensures
        r == dec_stats_line(b@),
{
    match parse_envelope(b, 0) {
        Some((v, e)) => {
            if e < b.len() && e + 1 == b.len() && b[e] == 10 {
                Some(v)
            } else {
                None
            }
        }
        None => None,
    }
}

/// Round trip of the telemetry log: a record serialized to its log line
/// and parsed back is the original, field for field, at every version.
pub proof fn lemma_stats_line_roundtrip(v: Stats)
    ensures
        dec_stats_line(enc_stats_line(v)) == Some(v),
{
    let s = enc_stats_line(v);
    assert(s.subrange(0, enc_envelope(v).len() as int) =~= enc_envelope(v));
    lemma_dec_enc_envelope(s, 0, v);
    assert(s[enc_envelope(v).len() as int] == 10);
}

/// A record written at any envelope version is read back as itself and
/// upgrades to a newest-version record carrying the same authoritative
/// timestamp; upgrading again changes nothing.
pub proof fn lemma_read_any_version(v: Stats)
    ensures
        dec_stats_line(enc_stats_line(v)) == Some(v),
        upgrade_spec(v) is V3,
        crate::timestamp_spec(upgrade_spec(v)) == crate::timestamp_spec(v),
        upgrade_spec(upgrade_spec(v)) == upgrade_spec(v),
{
    lemma_stats_line_roundtrip(v);
}


/// An operator request on the wire: unit requests as their quoted name,
/// requests with a payload as a one-member object.
pub open spec fn enc_from_client(v: FromClient) -> Seq<u8> {
    match v {
        FromClient::SetCharging(b) => char_bytes("{\"SetCharging\":"@) + (enc_bool(b) + seq![125u8]),
        FromClient::SetLoad(b) => char_bytes("{\"SetLoad\":"@) + (enc_bool(b) + seq![125u8]),
        FromClient::SetPhySolar(b) => char_bytes("{\"SetPhySolar\":"@) + (enc_bool(b) + seq![125u8]),
        FromClient::SetPhyBattery(b) => char_bytes("{\"SetPhyBattery\":"@) + (enc_bool(b) + seq![125u8]),
        FromClient::SetPhyMaster(b) => char_bytes("{\"SetPhyMaster\":"@) + (enc_bool(b) + seq![125u8]),
        FromClient::WriteSettings(st) => char_bytes("{\"WriteSettings\":"@) + (enc_settings(st) + seq![125u8]),
        FromClient::ResetController => enc_string(char_bytes("ResetController"@)),
        FromClient::LogRotated => enc_string(char_bytes("LogRotated"@)),
        FromClient::Stop => enc_string(char_bytes("Stop"@)),
        FromClient::TailStats => enc_string(char_bytes("TailStats"@)),
        FromClient::ReadSettings => enc_string(char_bytes("ReadSettings"@)),
    }
}

/// The unit request named by quoted-string content, if any.
pub open spec fn from_client_of_name(c: Seq<u8>) -> Option<FromClient> {
    if c == char_bytes("ResetController"@) {
        Some(FromClient::ResetController)
    } else if c == char_bytes("LogRotated"@) {
        Some(FromClient::LogRotated)
    } else if c == char_bytes("Stop"@) {
        Some(FromClient::Stop)
    } else if c == char_bytes("TailStats"@) {
        Some(FromClient::TailStats)
    } else if c == char_bytes("ReadSettings"@) {
        Some(FromClient::ReadSettings)
    } else {
        None
    }
}

/// Decode an operator request at `i`.
pub open spec fn dec_from_client_at(s: Seq<u8>, i: int) -> Option<(FromClient, int)> {
    if 0 <= i < s.len() && s[i] == 34 {
        match dec_string_at(s, i) {
            Some((c, e)) => match from_client_of_name(c) {
                Some(v) => Some((v, e)),
                None => None,
            },
            None => None,
        }
    } else {
        match dec_lit(s, i, char_bytes("{\"SetCharging\":"@)) {
            Some(p) => match dec_bool_at(s, p) {
                Some((b, e)) => if e < s.len() && s[e] == 125 {
                    Some((FromClient::SetCharging(b), e + 1))
                } else {
                    None
                },
                None => None,
            },
            None =>
            match dec_lit(s, i, char_bytes("{\"SetLoad\":"@)) {
                Some(p) => match dec_bool_at(s, p) {
                    Some((b, e)) => if e < s.len() && s[e] == 125 {
                        Some((FromClient::SetLoad(b), e + 1))
                    } else {
                        None
                    },
                    None => None,
                },
                None =>
                match dec_lit(s, i, char_bytes("{\"SetPhySolar\":"@)) {
                    Some(p) => match dec_bool_at(s, p) {
                        Some((b, e)) => if e < s.len() && s[e] == 125 {
                            Some((FromClient::SetPhySolar(b), e + 1))
                        } else {
                            None
                        },
                        None => None,
                    },
                    None =>
                    match dec_lit(s, i, char_bytes("{\"SetPhyBattery\":"@)) {
                        Some(p) => match dec_bool_at(s, p) {
                            Some((b, e)) => if e < s.len() && s[e] == 125 {
                                Some((FromClient::SetPhyBattery(b), e + 1))
                            } else {
                                None
                            },
                            None => None,
                        },
                        None =>
                        match dec_lit(s, i, char_bytes("{\"SetPhyMaster\":"@)) {
                            Some(p) => match dec_bool_at(s, p) {
                                Some((b, e)) => if e < s.len() && s[e] == 125 {
                                    Some((FromClient::SetPhyMaster(b), e + 1))
                                } else {
                                    None
                                },
                                None => None,
                            },
                            None =>
                            match dec_lit(s, i, char_bytes("{\"WriteSettings\":"@)) {
                                Some(p) => match dec_settings_at(s, p) {
                                    Some((st, e)) => if e < s.len() && s[e] == 125 {
                                        Some((FromClient::WriteSettings(st), e + 1))
                                    } else {
                                        None
                                    },
                                    None => None,
                                },
                                None => None,
                            }
                        }
                    }
                }
            }
        }
    }
}

/// Decoding inverts encoding for operator requests.
#[verifier::rlimit(100)]
#[verifier::spinoff_prover]
pub proof fn lemma_dec_enc_from_client(s: Seq<u8>, i: int, v: FromClient)
    requires
        0 <= i,
        i + enc_from_client(v).len() <= s.len(),
        s.subrange(i, i + enc_from_client(v).len() as int) == enc_from_client(v),
    ensures
        dec_from_client_at(s, i) == Some((v, i + enc_from_client(v).len() as int)),
{
    reveal_strlit("ResetController");
    reveal_strlit("LogRotated");
    reveal_strlit("Stop");
    reveal_strlit("TailStats");
    reveal_strlit("ReadSettings");
    reveal_strlit("{\"SetCharging\":");
    reveal_strlit("{\"SetLoad\":");
    reveal_strlit("{\"SetPhySolar\":");
    reveal_strlit("{\"SetPhyBattery\":");
    reveal_strlit("{\"SetPhyMaster\":");
    reveal_strlit("{\"WriteSettings\":");
    let j = i + enc_from_client(v).len() as int;
    let tg0 = char_bytes("{\"SetCharging\":"@);
    let tg1 = char_bytes("{\"SetLoad\":"@);
    let tg2 = char_bytes("{\"SetPhySolar\":"@);
    let tg3 = char_bytes("{\"SetPhyBattery\":"@);
    let tg4 = char_bytes("{\"SetPhyMaster\":"@);
    let tg5 = char_bytes("{\"WriteSettings\":"@);
    match v {
        FromClient::SetCharging(b) => {
            let r1 = enc_bool(b) + seq![125u8];
            assert(enc_from_client(v) == tg0 + r1);
            lemma_split(s, i, j, tg0, r1);
            let p = i + tg0.len() as int;
            lemma_split(s, p, j, enc_bool(b), seq![125u8]);
            lemma_dec_enc_bool(s, p, b);
            let e = p + enc_bool(b).len() as int;
            assert(s[e] == seq![125u8][0]);
            assert(s[i] == tg0[0]);
        }
        FromClient::SetLoad(b) => {
            let r1 = enc_bool(b) + seq![125u8];
            assert(enc_from_client(v) == tg1 + r1);
            lemma_split(s, i, j, tg1, r1);
            assert(s[i + 5] == tg1[5]);
            lemma_lit_differs(s, i, tg0, 5);
            let p = i + tg1.len() as int;
            lemma_split(s, p, j, enc_bool(b), seq![125u8]);
            lemma_dec_enc_bool(s, p, b);
            let e = p + enc_bool(b).len() as int;
            assert(s[e] == seq![125u8][0]);
            assert(s[i] == tg1[0]);
        }
        FromClient::SetPhySolar(b) => {
            let r1 = enc_bool(b) + seq![125u8];
            assert(enc_from_client(v) == tg2 + r1);
            lemma_split(s, i, j, tg2, r1);
            assert(s[i + 5] == tg2[5]);
            lemma_lit_differs(s, i, tg0, 5);
            assert(s[i + 5] == tg2[5]);
            lemma_lit_differs(s, i, tg1, 5);
            let p = i + tg2.len() as int;
            lemma_split(s, p, j, enc_bool(b), seq![125u8]);
            lemma_dec_enc_bool(s, p, b);
            let e = p + enc_bool(b).len() as int;
            assert(s[e] == seq![125u8][0]);
            assert(s[i] == tg2[0]);
        }
        FromClient::SetPhyBattery(b) => {
            let r1 = enc_bool(b) + seq![125u8];
            assert(enc_from_client(v) == tg3 + r1);
            lemma_split(s, i, j, tg3, r1);
            assert(s[i + 5] == tg3[5]);
            lemma_lit_differs(s, i, tg0, 5);
            assert(s[i + 5] == tg3[5]);
            lemma_lit_differs(s, i, tg1, 5);
            assert(s[i + 8] == tg3[8]);
            lemma_lit_differs(s, i, tg2, 8);
            let p = i + tg3.len() as int;
            lemma_split(s, p, j, enc_bool(b), seq![125u8]);
            lemma_dec_enc_bool(s, p, b);
            let e = p + enc_bool(b).len() as int;
            assert(s[e] == seq![125u8][0]);
            assert(s[i] == tg3[0]);
        }
        FromClient::SetPhyMaster(b) => {
            let r1 = enc_bool(b) + seq![125u8];
            assert(enc_from_client(v) == tg4 + r1);
            lemma_split(s, i, j, tg4, r1);
            assert(s[i + 5] == tg4[5]);
            lemma_lit_differs(s, i, tg0, 5);
            assert(s[i + 5] == tg4[5]);
            lemma_lit_differs(s, i, tg1, 5);
            assert(s[i + 8] == tg4[8]);
            lemma_lit_differs(s, i, tg2, 8);
            assert(s[i + 8] == tg4[8]);
            lemma_lit_differs(s, i, tg3, 8);
            let p = i + tg4.len() as int;
            lemma_split(s, p, j, enc_bool(b), seq![125u8]);
            lemma_dec_enc_bool(s, p, b);
            let e = p + enc_bool(b).len() as int;
            assert(s[e] == seq![125u8][0]);
            assert(s[i] == tg4[0]);
        }
        FromClient::WriteSettings(st) => {
            let r1 = enc_settings(st) + seq![125u8];
            assert(enc_from_client(v) == tg5 + r1);
            lemma_split(s, i, j, tg5, r1);
            assert(s[i + 2] == tg5[2]);
            lemma_lit_differs(s, i, tg0, 2);
            assert(s[i + 2] == tg5[2]);
            lemma_lit_differs(s, i, tg1, 2);
            assert(s[i + 2] == tg5[2]);
            lemma_lit_differs(s, i, tg2, 2);
            assert(s[i + 2] == tg5[2]);
            lemma_lit_differs(s, i, tg3, 2);
            assert(s[i + 2] == tg5[2]);
            lemma_lit_differs(s, i, tg4, 2);
            let p = i + tg5.len() as int;
            lemma_split(s, p, j, enc_settings(st), seq![125u8]);
            lemma_dec_enc_settings(s, p, st);
            let e = p + enc_settings(st).len() as int;
            assert(s[e] == seq![125u8][0]);
            assert(s[i] == tg5[0]);
        }
        FromClient::ResetController => {
            let c = char_bytes("ResetController"@);
            assert(c.len() == 15);
            assert(c[0] == 82);
            assert(c[1] == 101);
            assert(c[2] == 115);
            assert(c[3] == 101);
            assert(c[4] == 116);
            assert(c[5] == 67);
            assert(c[6] == 111);
            assert(c[7] == 110);
            assert(c[8] == 116);
            assert(c[9] == 114);
            assert(c[10] == 111);
            assert(c[11] == 108);
            assert(c[12] == 108);
            assert(c[13] == 101);
            assert(c[14] == 114);
            lemma_dec_enc_string(s, i, c);
            assert(s[i] == enc_string(c)[0]);
        }
        FromClient::LogRotated => {
            let c = char_bytes("LogRotated"@);
            assert(c.len() == 10);
            assert(c[0] == 76);
            assert(c[1] == 111);
            assert(c[2] == 103);
            assert(c[3] == 82);
            assert(c[4] == 111);
            assert(c[5] == 116);
            assert(c[6] == 97);
            assert(c[7] == 116);
            assert(c[8] == 101);
            assert(c[9] == 100);
            lemma_dec_enc_string(s, i, c);
            assert(s[i] == enc_string(c)[0]);
            assert(c != char_bytes("ResetController"@)) by {
                assert(char_bytes("ResetController"@)[0] == 82);
            }
        }
        FromClient::Stop => {
            let c = char_bytes("Stop"@);
            assert(c.len() == 4);
            assert(c[0] == 83);
            assert(c[1] == 116);
            assert(c[2] == 111);
            assert(c[3] == 112);
            lemma_dec_enc_string(s, i, c);
            assert(s[i] == enc_string(c)[0]);
            assert(c != char_bytes("ResetController"@)) by {
                assert(char_bytes("ResetController"@)[0] == 82);
            }
            assert(c != char_bytes("LogRotated"@)) by {
                assert(char_bytes("LogRotated"@)[0] == 76);
            }
        }
        FromClient::TailStats => {
            let c = char_bytes("TailStats"@);
            assert(c.len() == 9);
            assert(c[0] == 84);
            assert(c[1] == 97);
            assert(c[2] == 105);
            assert(c[3] == 108);
            assert(c[4] == 83);
            assert(c[5] == 116);
            assert(c[6] == 97);
            assert(c[7] == 116);
            assert(c[8] == 115);
            lemma_dec_enc_string(s, i, c);
            assert(s[i] == enc_string(c)[0]);
            assert(c != char_bytes("ResetController"@)) by {
                assert(char_bytes("ResetController"@)[0] == 82);
            }
            assert(c != char_bytes("LogRotated"@)) by {
                assert(char_bytes("LogRotated"@)[0] == 76);
            }
            assert(c != char_bytes("Stop"@)) by {
                assert(char_bytes("Stop"@)[0] == 83);
            }
        }
        FromClient::ReadSettings => {
            let c = char_bytes("ReadSettings"@);
            assert(c.len() == 12);
            assert(c[0] == 82);
            assert(c[1] == 101);
            assert(c[2] == 97);
            assert(c[3] == 100);
            assert(c[4] == 83);
            assert(c[5] == 101);
            assert(c[6] == 116);
            assert(c[7] == 116);
            assert(c[8] == 105);
            assert(c[9] == 110);
            assert(c[10] == 103);
            assert(c[11] == 115);
            lemma_dec_enc_string(s, i, c);
            assert(s[i] == enc_string(c)[0]);
            assert(c != char_bytes("ResetController"@)) by {
                assert(char_bytes("ResetController"@)[2] == 115);
            }
            assert(c != char_bytes("LogRotated"@)) by {
                assert(char_bytes("LogRotated"@)[0] == 76);
            }
            assert(c != char_bytes("Stop"@)) by {
                assert(char_bytes("Stop"@)[0] == 83);
            }
            assert(c != char_bytes("TailStats"@)) by {
                assert(char_bytes("TailStats"@)[0] == 84);
            }
        }
    }
}

/// Read an operator request at `pos`.
#[verifier::rlimit(100)]
#[verifier::spinoff_prover]
pub fn parse_from_client(b: &Vec<u8>, pos: usize) -> (r: Option<(FromClient, usize)>)
    ensures
        match r {
            Some((v, e)) => pos <= e <= b@.len() && dec_from_client_at(b@, pos as int) == Some((
                v,
                e as int,
            )),
            None => dec_from_client_at(b@, pos as int) is None,
        },
{
    proof {
        reveal_strlit("ResetController");
        reveal_strlit("LogRotated");
        reveal_strlit("Stop");
        reveal_strlit("TailStats");
        reveal_strlit("ReadSettings");
        reveal_strlit("{\"SetCharging\":");
        reveal_strlit("{\"SetLoad\":");
        reveal_strlit("{\"SetPhySolar\":");
        reveal_strlit("{\"SetPhyBattery\":");
        reveal_strlit("{\"SetPhyMaster\":");
        reveal_strlit("{\"WriteSettings\":");
    }
    if pos < b.len() && b[pos] == 34 {
        match parse_string(b, pos) {
            Some((c, e)) => {
                if bytes_eq_lit(&c, "ResetController") {
                    Some((FromClient::ResetController, e))
                } else if bytes_eq_lit(&c, "LogRotated") {
                    Some((FromClient::LogRotated, e))
                } else if bytes_eq_lit(&c, "Stop") {
                    Some((FromClient::Stop, e))
                } else if bytes_eq_lit(&c, "TailStats") {
                    Some((FromClient::TailStats, e))
                } else if bytes_eq_lit(&c, "ReadSettings") {
                    Some((FromClient::ReadSettings, e))
                } else {
                    None
                }
            }
            None => None,
        }
    } else {
        match expect_lit(b, pos, "{\"SetCharging\":") {
            Some(p) => match parse_bool(b, p) {
                Some((v, e)) => {
                    if e < b.len() && b[e] == 125 {
                        Some((FromClient::SetCharging(v), e + 1))
                    } else {
                        None
                    }
                }
                None => None,
            },
            None =>
            match expect_lit(b, pos, "{\"SetLoad\":") {
                Some(p) => match parse_bool(b, p) {
                    Some((v, e)) => {
                        if e < b.len() && b[e] == 125 {
                            Some((FromClient::SetLoad(v), e + 1))
                        } else {
                            None
                        }
                    }
                    None => None,
                },
                None =>
                match expect_lit(b, pos, "{\"SetPhySolar\":") {
                    Some(p) => match parse_bool(b, p) {
                        Some((v, e)) => {
                            if e < b.len() && b[e] == 125 {
                                Some((FromClient::SetPhySolar(v), e + 1))
                            } else {
                                None
                            }
                        }
                        None => None,
                    },
                    None =>
                    match expect_lit(b, pos, "{\"SetPhyBattery\":") {
                        Some(p) => match parse_bool(b, p) {
                            Some((v, e)) => {
                                if e < b.len() && b[e] == 125 {
                                    Some((FromClient::SetPhyBattery(v), e + 1))
                                } else {
                                    None
                                }
                            }
                            None => None,
                        },
                        None =>
                        match expect_lit(b, pos, "{\"SetPhyMaster\":") {
                            Some(p) => match parse_bool(b, p) {
                                Some((v, e)) => {
                                    if e < b.len() && b[e] == 125 {
                                        Some((FromClient::SetPhyMaster(v), e + 1))
                                    } else {
                                        None
                                    }
                                }
                                None => None,
                            },
                            None =>
                            match expect_lit(b, pos, "{\"WriteSettings\":") {
                                Some(p) => match parse_settings(b, p) {
                                    Some((st, e)) => {
                                        if e < b.len() && b[e] == 125 {
                                            Some((FromClient::WriteSettings(st), e + 1))
                                        } else {
                                            None
                                        }
                                    }
                                    None => None,
                                },
                                None => None,
                            }
                        }
                    }
                }
            }
        }
    }
}

/// Append an operator request.
#[verifier::rlimit(100)]
#[verifier::spinoff_prover]
pub fn encode_from_client(out: &mut Vec<u8>, v: &FromClient)
    ensures
        final(out)@ == old(out)@ + enc_from_client(*v),
{
    proof {
        reveal_strlit("ResetController");
        reveal_strlit("\"ResetController\"");
        reveal_strlit("LogRotated");
        reveal_strlit("\"LogRotated\"");
        reveal_strlit("Stop");
        reveal_strlit("\"Stop\"");
        reveal_strlit("TailStats");
        reveal_strlit("\"TailStats\"");
        reveal_strlit("ReadSettings");
        reveal_strlit("\"ReadSettings\"");
        reveal_strlit("{\"SetCharging\":");
        reveal_strlit("{\"SetLoad\":");
        reveal_strlit("{\"SetPhySolar\":");
        reveal_strlit("{\"SetPhyBattery\":");
        reveal_strlit("{\"SetPhyMaster\":");
        reveal_strlit("{\"WriteSettings\":");
        reveal_strlit("true");
        reveal_strlit("false");
    }
    match v {
        FromClient::SetCharging(x) => {
            push_lit(out, "{\"SetCharging\":");
            if *x {
                push_lit(out, "true");
            } else {
                push_lit(out, "false");
            }
            out.push(125);
            assert(out@ =~= old(out)@ + enc_from_client(*v));
        }
        FromClient::SetLoad(x) => {
            push_lit(out, "{\"SetLoad\":");
            if *x {
                push_lit(out, "true");
            } else {
                push_lit(out, "false");
            }
            out.push(125);
            assert(out@ =~= old(out)@ + enc_from_client(*v));
        }
        FromClient::SetPhySolar(x) => {
            push_lit(out, "{\"SetPhySolar\":");
            if *x {
                push_lit(out, "true");
            } else {
                push_lit(out, "false");
            }
            out.push(125);
            assert(out@ =~= old(out)@ + enc_from_client(*v));
        }
        FromClient::SetPhyBattery(x) => {
            push_lit(out, "{\"SetPhyBattery\":");
            if *x {
                push_lit(out, "true");
            } else {
                push_lit(out, "false");
            }
            out.push(125);
            assert(out@ =~= old(out)@ + enc_from_client(*v));
        }
        FromClient::SetPhyMaster(x) => {
            push_lit(out, "{\"SetPhyMaster\":");
            if *x {
                push_lit(out, "true");
            } else {
                push_lit(out, "false");
            }
            out.push(125);
            assert(out@ =~= old(out)@ + enc_from_client(*v));
        }
        FromClient::WriteSettings(st) => {
            push_lit(out, "{\"WriteSettings\":");
            encode_settings(out, st);
            out.push(125);
            assert(out@ =~= old(out)@ + enc_from_client(*v));
        }
        FromClient::ResetController => {
            push_lit(out, "\"ResetController\"");
            assert(char_bytes("\"ResetController\""@) =~= enc_string(char_bytes("ResetController"@)));
            assert(out@ =~= old(out)@ + enc_from_client(*v));
        }
        FromClient::LogRotated => {
            push_lit(out, "\"LogRotated\"");
            assert(char_bytes("\"LogRotated\""@) =~= enc_string(char_bytes("LogRotated"@)));
            assert(out@ =~= old(out)@ + enc_from_client(*v));
        }
        FromClient::Stop => {
            push_lit(out, "\"Stop\"");
            assert(char_bytes("\"Stop\""@) =~= enc_string(char_bytes("Stop"@)));
            assert(out@ =~= old(out)@ + enc_from_client(*v));
        }
        FromClient::TailStats => {
            push_lit(out, "\"TailStats\"");
            assert(char_bytes("\"TailStats\""@) =~= enc_string(char_bytes("TailStats"@)));
            assert(out@ =~= old(out)@ + enc_from_client(*v));
        }
        FromClient::ReadSettings => {
            push_lit(out, "\"ReadSettings\"");
            assert(char_bytes("\"ReadSettings\""@) =~= enc_string(char_bytes("ReadSettings"@)));
            assert(out@ =~= old(out)@ + enc_from_client(*v));
        }
    }
}

/// One request line of the control socket: the request and a newline.
pub open spec fn enc_from_client_line(v: FromClient) -> Seq<u8> {
    enc_from_client(v) + seq![10u8]
}

/// Decode one full request line, trailing newline included.
pub open spec fn dec_from_client_line(s: Seq<u8>) -> Option<FromClient> {
    match dec_from_client_at(s, 0) {
        Some((v, e)) => if e + 1 == s.len() && s[e] == 10 {
            Some(v)
        } else {
            None
        },
        None => None,
    }
}

/// Serialize one request as a control-socket line.
pub fn encode_from_client_line(v: &FromClient) -> (r: Vec<u8>)
    ensures
        r@ == enc_from_client_line(*v),
{
    let mut out: Vec<u8> = Vec::new();
    encode_from_client(&mut out, v);
    out.push(10);
    assert(out@ =~= enc_from_client_line(*v));
    out
}

/// Parse one control-socket request line.
pub fn parse_from_client_line(b: &Vec<u8>) -> (r: Option<FromClient>)
    ensures
        r == dec_from_client_line(b@),
{
    match parse_from_client(b, 0) {
        Some((v, e)) => {
            if e < b.len() && e + 1 == b.len() && b[e] == 10 {
                Some(v)
            } else {
                None
            }
        }
        None => None,
    }
}

/// Round trip of the control protocol: a request serialized to its line
/// and parsed back is the original.
pub proof fn lemma_from_client_line_roundtrip(v: FromClient)
    ensures
        dec_from_client_line(enc_from_client_line(v)) == Some(v),
{
    let s = enc_from_client_line(v);
    assert(s.subrange(0, enc_from_client(v).len() as int) =~= enc_from_client(v));
    lemma_dec_enc_from_client(s, 0, v);
    assert(s[enc_from_client(v).len() as int] == 10);
}

/// Replies that can be encoded: an error message is ASCII; its quote and
/// backslash characters travel escaped, everything else verbatim.
pub open spec fn to_client_wf(v: ToClient) -> bool {
    match v {
        ToClient::CmdErr(m) => vstd::utf8::is_ascii_chars(m@),
        _ => true,
    }
}

/// A reply on the wire.
pub open spec fn enc_to_client(v: ToClient) -> Seq<u8> {
    match v {
        ToClient::CmdOk => enc_string(char_bytes("Ok"@)),
        ToClient::CmdErr(m) => char_bytes("{\"Err\":"@) + (enc_estr(char_bytes(m@))
            + seq![125u8]),
        ToClient::Stats(st) => char_bytes("{\"Stats\":"@) + (enc_envelope(st) + seq![125u8]),
        ToClient::Settings(se) => char_bytes("{\"Settings\":"@) + (enc_settings(se)
            + seq![125u8]),
    }
}

/// What a decoded reply means: the reply's parts decode at the positions
/// its encoding gives them.
pub open spec fn dec_to_client_ok(s: Seq<u8>, i: int, v: ToClient, e: int) -> bool {
    match v {
        ToClient::CmdOk => dec_string_at(s, i) == Some((char_bytes("Ok"@), e)),
        ToClient::CmdErr(m) => {
            let p = i + char_bytes("{\"Err\":"@).len() as int;
            &&& dec_lit(s, i, char_bytes("{\"Err\":"@)) == Some(p)
            &&& dec_estr_at(s, p) == Some((char_bytes(m@), e - 1))
            &&& vstd::utf8::is_ascii_chars(m@)
            &&& 0 <= e - 1 < s.len() && s[e - 1] == 125
        },
        ToClient::Stats(st) => {
            let p = i + char_bytes("{\"Stats\":"@).len() as int;
            &&& dec_lit(s, i, char_bytes("{\"Stats\":"@)) == Some(p)
            &&& dec_envelope_at(s, p) == Some((st, e - 1))
            &&& 0 <= e - 1 < s.len() && s[e - 1] == 125
        },
        ToClient::Settings(se) => {
            let p = i + char_bytes("{\"Settings\":"@).len() as int;
            &&& dec_lit(s, i, char_bytes("{\"Settings\":"@)) == Some(p)
            &&& dec_settings_at(s, p) == Some((se, e - 1))
            &&& 0 <= e - 1 < s.len() && s[e - 1] == 125
        },
    }
}

/// The quoted-name reply at `pos`: only the acknowledgement is a bare
/// quoted name.
fn parse_reply_quoted(b: &Vec<u8>, pos: usize) -> (r: Option<(ToClient, usize)>)
    requires
        pos < b@.len(),
        b@[pos as int] == 34,
    ensures
        match r {
            Some((v, e)) => pos <= e <= b@.len() && dec_to_client_ok(b@, pos as int, v, e as int),
            None => forall|v: ToClient, e: int| !dec_to_client_ok(b@, pos as int, v, e),
        },
{
    proof {
        reveal_strlit("Ok");
        reveal_strlit("{\"Err\":");
        reveal_strlit("{\"Stats\":");
        reveal_strlit("{\"Settings\":");
    }
    let ghost i = pos as int;
    let ghost s = b@;
    proof {
        lemma_lit_differs(s, i, char_bytes("{\"Err\":"@), 0);
        lemma_lit_differs(s, i, char_bytes("{\"Stats\":"@), 0);
        lemma_lit_differs(s, i, char_bytes("{\"Settings\":"@), 0);
    }
    match parse_string(b, pos) {
        Some((c, e)) => {
            if bytes_eq_lit(&c, "Ok") {
                Some((ToClient::CmdOk, e))
            } else {
                proof {
                    assert forall|v: ToClient, e2: int| !dec_to_client_ok(s, i, v, e2) by {
                        match v {
                            ToClient::CmdOk => {
                                assert(c@ != char_bytes("Ok"@));
                            }
                            _ => {}
                        }
                    }
                }
                None
            }
        }
        None => {
            proof {
                assert forall|v: ToClient, e2: int| !dec_to_client_ok(s, i, v, e2) by {}
            }
            None
        }
    }
}

/// The error reply at `pos`, after its tag matched there.
#[verifier::rlimit(100)]
#[verifier::spinoff_prover]
fn parse_reply_err(b: &Vec<u8>, pos: usize, p: usize) -> (r: Option<(ToClient, usize)>)
    requires
        dec_lit(b@, pos as int, char_bytes("{\"Err\":"@)) == Some(p as int),
        pos <= p <= b@.len(),
    ensures
        match r {
            Some((v, e)) => pos <= e <= b@.len() && dec_to_client_ok(b@, pos as int, v, e as int),
            None => forall|v: ToClient, e: int| !dec_to_client_ok(b@, pos as int, v, e),
        },
{
    proof {
        reveal_strlit("Ok");
        reveal_strlit("{\"Err\":");
        reveal_strlit("{\"Stats\":");
        reveal_strlit("{\"Settings\":");
    }
    let ghost i = pos as int;
    let ghost s = b@;
    let ghost tag = char_bytes("{\"Err\":"@);
    proof {
        assert(s.subrange(i, i + tag.len() as int) == tag);
        assert(s[i] == s.subrange(i, i + tag.len() as int)[0]);
        assert(s[i + 2] == s.subrange(i, i + tag.len() as int)[2]);
        assert(s[i] == 123);
        assert(s[i + 2] == 69);
        lemma_lit_differs(s, i, char_bytes("{\"Stats\":"@), 2);
        lemma_lit_differs(s, i, char_bytes("{\"Settings\":"@), 2);
    }
    match parse_estr(b, p) {
        Some((c, e)) => {
            if e < b.len() && b[e] == 125 {
                if all_below_128(&c) {
                    let m = ascii_to_string(c);
                    proof {
                        assert(vstd::utf8::is_ascii_chars(m@)) by {
                            assert forall|t: int| 0 <= t < m@.len() implies '\0'
                                <= #[trigger] m@[t] <= '\u{7f}' by {
                                assert(m@[t] == c@[t] as char);
                                assert(c@[t] < 128);
                            }
                        }
                    }
                    Some((ToClient::CmdErr(m), e + 1))
                } else {
                    proof {
                        let k = choose|t: int| 0 <= t < c@.len() && !(c@[t] < 128);
                        assert(0 <= k < c@.len() && c@[k] >= 128);
                        assert forall|v: ToClient, e2: int| !dec_to_client_ok(s, i, v, e2) by {
                            match v {
                                ToClient::CmdErr(m) => {
                                    if dec_to_client_ok(s, i, v, e2) {
                                        let pe = i + char_bytes("{\"Err\":"@).len() as int;
                                        assert(dec_estr_at(s, pe) == Some((
                                            char_bytes(m@),
                                            e2 - 1,
                                        )));
                                        assert(p as int == pe);
                                        assert(char_bytes(m@) == c@);
                                        assert(vstd::utf8::is_ascii_chars(m@));
                                        assert('\0' <= m@[k] <= '\u{7f}');
                                        assert(char_bytes(m@)[k] == m@[k] as u8);
                                        assert(c@[k] < 128);
                                    }
                                }
                                _ => {}
                            }
                        }
                    }
                    None
                }
            } else {
                proof {
                    assert forall|v: ToClient, e2: int| !dec_to_client_ok(s, i, v, e2) by {}
                }
                None
            }
        }
        None => {
            proof {
                assert forall|v: ToClient, e2: int| !dec_to_client_ok(s, i, v, e2) by {}
            }
            None
        }
    }
}

/// The pushed-record reply at `pos`, after its tag matched there.
#[verifier::spinoff_prover]
fn parse_reply_stats(b: &Vec<u8>, pos: usize, p: usize) -> (r: Option<(ToClient, usize)>)
    requires
        dec_lit(b@, pos as int, char_bytes("{\"Stats\":"@)) == Some(p as int),
        dec_lit(b@, pos as int, char_bytes("{\"Err\":"@)) is None,
        pos <= p <= b@.len(),
    ensures
        match r {
            Some((v, e)) => pos <= e <= b@.len() && dec_to_client_ok(b@, pos as int, v, e as int),
            None => forall|v: ToClient, e: int| !dec_to_client_ok(b@, pos as int, v, e),
        },
{
    proof {
        reveal_strlit("Ok");
        reveal_strlit("{\"Err\":");
        reveal_strlit("{\"Stats\":");
        reveal_strlit("{\"Settings\":");
    }
    let ghost i = pos as int;
    let ghost s = b@;
    let ghost tag = char_bytes("{\"Stats\":"@);
    proof {
        assert(s.subrange(i, i + tag.len() as int) == tag);
        assert(s[i] == s.subrange(i, i + tag.len() as int)[0]);
        assert(s[i + 3] == s.subrange(i, i + tag.len() as int)[3]);
        assert(s[i] == 123);
        assert(s[i + 3] == 116);
        lemma_lit_differs(s, i, char_bytes("{\"Settings\":"@), 3);
    }
    match parse_envelope(b, p) {
        Some((st, e)) => {
            if e < b.len() && b[e] == 125 {
                Some((ToClient::Stats(st), e + 1))
            } else {
                proof {
                    assert forall|v: ToClient, e2: int| !dec_to_client_ok(s, i, v, e2) by {}
                }
                None
            }
        }
        None => {
            proof {
                assert forall|v: ToClient, e2: int| !dec_to_client_ok(s, i, v, e2) by {}
            }
            None
        }
    }
}

/// The settings reply at `pos`, after its tag matched there.
#[verifier::spinoff_prover]
fn parse_reply_settings(b: &Vec<u8>, pos: usize, p: usize) -> (r: Option<(ToClient, usize)>)
    requires
        dec_lit(b@, pos as int, char_bytes("{\"Settings\":"@)) == Some(p as int),
        dec_lit(b@, pos as int, char_bytes("{\"Err\":"@)) is None,
        dec_lit(b@, pos as int, char_bytes("{\"Stats\":"@)) is None,
        pos <= p <= b@.len(),
    ensures
        match r {
            Some((v, e)) => pos <= e <= b@.len() && dec_to_client_ok(b@, pos as int, v, e as int),
            None => forall|v: ToClient, e: int| !dec_to_client_ok(b@, pos as int, v, e),
        },
{
    proof {
        reveal_strlit("Ok");
        reveal_strlit("{\"Err\":");
        reveal_strlit("{\"Stats\":");
        reveal_strlit("{\"Settings\":");
    }
    let ghost i = pos as int;
    let ghost s = b@;
    let ghost tag = char_bytes("{\"Settings\":"@);
    proof {
        assert(s.subrange(i, i + tag.len() as int) == tag);
        assert(s[i] == s.subrange(i, i + tag.len() as int)[0]);
        assert(s[i] == 123);
    }
    match parse_settings(b, p) {
        Some((se, e)) => {
            if e < b.len() && b[e] == 125 {
                Some((ToClient::Settings(se), e + 1))
            } else {
                proof {
                    assert forall|v: ToClient, e2: int| !dec_to_client_ok(s, i, v, e2) by {}
                }
                None
            }
        }
        None => {
            proof {
                assert forall|v: ToClient, e2: int| !dec_to_client_ok(s, i, v, e2) by {}
            }
            None
        }
    }
}

/// Read a reply at `pos`: exactly the replies of the grammar come back,
/// each decoding as `dec_to_client_ok` has it; on any other bytes, nothing
/// of the grammar decodes there.
pub fn parse_to_client(b: &Vec<u8>, pos: usize) -> (r: Option<(ToClient, usize)>)
    ensures
        match r {
            Some((v, e)) => pos <= e <= b@.len() && dec_to_client_ok(b@, pos as int, v, e as int),
            None => forall|v: ToClient, e: int| !dec_to_client_ok(b@, pos as int, v, e),
        },
{
    proof {
        reveal_strlit("Ok");
        reveal_strlit("{\"Err\":");
        reveal_strlit("{\"Stats\":");
        reveal_strlit("{\"Settings\":");
    }
    let ghost i = pos as int;
    let ghost s = b@;
    if pos < b.len() && b[pos] == 34 {
        parse_reply_quoted(b, pos)
    } else {
        match expect_lit(b, pos, "{\"Err\":") {
            Some(p) => parse_reply_err(b, pos, p),
            None => match expect_lit(b, pos, "{\"Stats\":") {
                Some(p) => parse_reply_stats(b, pos, p),
                None => match expect_lit(b, pos, "{\"Settings\":") {
                    Some(p) => parse_reply_settings(b, pos, p),
                    None => {
                        proof {
                            assert forall|v: ToClient, e2: int| !dec_to_client_ok(
                                s,
                                i,
                                v,
                                e2,
                            ) by {}
                        }
                        None
                    }
                },
            },
        }
    }
}

/// Append a reply.
#[verifier::rlimit(100)]
#[verifier::spinoff_prover]
pub fn encode_to_client(out: &mut Vec<u8>, v: &ToClient)
    requires
        to_client_wf(*v),
    ensures
        final(out)@ == old(out)@ + enc_to_client(*v),
{
    proof {
        reveal_strlit("Ok");
        reveal_strlit("\"Ok\"");
        reveal_strlit("{\"Err\":");
        reveal_strlit("{\"Stats\":");
        reveal_strlit("{\"Settings\":");
    }
    match v {
        ToClient::CmdOk => {
            push_lit(out, "\"Ok\"");
            assert(char_bytes("\"Ok\""@) =~= enc_string(char_bytes("Ok"@)));
        }
        ToClient::CmdErr(m) => {
            push_lit(out, "{\"Err\":");
            out.push(34);
            let mb = string_bytes(m.as_str());
            encode_esc_bytes(out, &mb);
            out.push(34);
            out.push(125);
            assert(out@ =~= old(out)@ + enc_to_client(*v));
        }
        ToClient::Stats(st) => {
            push_lit(out, "{\"Stats\":");
            encode_envelope(out, st);
            out.push(125);
            assert(out@ =~= old(out)@ + enc_to_client(*v));
        }
        ToClient::Settings(se) => {
            push_lit(out, "{\"Settings\":");
            encode_settings(out, se);
            out.push(125);
            assert(out@ =~= old(out)@ + enc_to_client(*v));
        }
    }
}

/// Serialize one reply as a control-socket line.
pub fn encode_to_client_line(v: &ToClient) -> (r: Vec<u8>)
    requires
        to_client_wf(*v),
    ensures
        r@ == enc_to_client(*v) + seq![10u8],
{
    let mut out: Vec<u8> = Vec::new();
    encode_to_client(&mut out, v);
    out.push(10);
    assert(out@ =~= enc_to_client(*v) + seq![10u8]);
    out
}

/// For given bytes, a decodable reply determines where it ends: any two
/// replies that decode from the same start end at the same index.
proof fn lemma_reply_end_unique(s: Seq<u8>, v1: ToClient, e1: int, v2: ToClient, e2: int)
    requires
        dec_to_client_ok(s, 0, v1, e1),
        dec_to_client_ok(s, 0, v2, e2),
    ensures
        e1 == e2,
{
    reveal_strlit("Ok");
    reveal_strlit("{\"Err\":");
    reveal_strlit("{\"Stats\":");
    reveal_strlit("{\"Settings\":");
    let te = char_bytes("{\"Err\":"@);
    let ts = char_bytes("{\"Stats\":"@);
    let tg = char_bytes("{\"Settings\":"@);
    if dec_lit(s, 0, te) is Some {
        assert(s.subrange(0, te.len() as int) == te);
        assert(s[0] == s.subrange(0, te.len() as int)[0]);
        assert(s[2] == s.subrange(0, te.len() as int)[2]);
        assert(s[0] == 123 && s[2] == 69);
    }
    if dec_lit(s, 0, ts) is Some {
        assert(s.subrange(0, ts.len() as int) == ts);
        assert(s[0] == s.subrange(0, ts.len() as int)[0]);
        assert(s[2] == s.subrange(0, ts.len() as int)[2]);
        assert(s[3] == s.subrange(0, ts.len() as int)[3]);
        assert(s[0] == 123 && s[2] == 83 && s[3] == 116);
    }
    if dec_lit(s, 0, tg) is Some {
        assert(s.subrange(0, tg.len() as int) == tg);
        assert(s[0] == s.subrange(0, tg.len() as int)[0]);
        assert(s[2] == s.subrange(0, tg.len() as int)[2]);
        assert(s[3] == s.subrange(0, tg.len() as int)[3]);
        assert(s[0] == 123 && s[2] == 83 && s[3] == 101);
    }
    if dec_string_at(s, 0) is Some {
        assert(s[0] == 34);
    }
}

/// Parse one control-socket reply line, trailing newline included:
/// exactly the framed replies of the grammar come back.
pub fn parse_to_client_line(b: &Vec<u8>) -> (r: Option<ToClient>)
    ensures
        match r {
            Some(v) => exists|e: int|
                0 <= e && e + 1 == b@.len() && b@[e] == 10 && dec_to_client_ok(b@, 0, v, e),
            None => forall|v: ToClient, e: int|
                !(dec_to_client_ok(b@, 0, v, e) && e + 1 == b@.len() && b@[e] == 10),
        },
{
    match parse_to_client(b, 0) {
        Some((v0, e0)) => {
            if e0 < b.len() && e0 + 1 == b.len() && b[e0] == 10 {
                assert(dec_to_client_ok(b@, 0, v0, e0 as int));
                Some(v0)
            } else {
                proof {
                    assert forall|v: ToClient, e: int|
                        !(dec_to_client_ok(b@, 0, v, e) && e + 1 == b@.len() && b@[e]
                            == 10) by {
                        if dec_to_client_ok(b@, 0, v, e) {
                            lemma_reply_end_unique(b@, v, e, v0, e0 as int);
                        }
                    }
                }
                None
            }
        }
        None => {
            proof {
                assert forall|v: ToClient, e: int|
                    !(dec_to_client_ok(b@, 0, v, e) && e + 1 == b@.len() && b@[e] == 10) by {}
            }
            None
        }
    }
}


/// Encoding and decoding of replies cohere: the bytes a well-formed reply
/// encodes to decode back as exactly that reply.
#[verifier::rlimit(100)]
#[verifier::spinoff_prover]
pub proof fn lemma_to_client_coherent(s: Seq<u8>, i: int, v: ToClient)
    requires
        0 <= i,
        to_client_wf(v),
        i + enc_to_client(v).len() <= s.len(),
        s.subrange(i, i + enc_to_client(v).len() as int) == enc_to_client(v),
    ensures
        dec_to_client_ok(s, i, v, i + enc_to_client(v).len() as int),
{
    reveal_strlit("Ok");
    reveal_strlit("{\"Err\":");
    reveal_strlit("{\"Stats\":");
    reveal_strlit("{\"Settings\":");
    let j = i + enc_to_client(v).len() as int;
    match v {
        ToClient::CmdOk => {
            let c = char_bytes("Ok"@);
            assert(c.len() == 2);
            assert(c[0] == 79);
            assert(c[1] == 107);
            lemma_dec_enc_string(s, i, c);
        }
        ToClient::CmdErr(m) => {
            let tag = char_bytes("{\"Err\":"@);
            let body = enc_estr(char_bytes(m@));
            assert(enc_to_client(v) == tag + (body + seq![125u8]));
            lemma_split(s, i, j, tag, body + seq![125u8]);
            let p = i + tag.len() as int;
            lemma_split(s, p, j, body, seq![125u8]);
            lemma_dec_enc_estr(s, p, char_bytes(m@));
            let e = p + body.len() as int;
            assert(s[e] == seq![125u8][0]);
        }
        ToClient::Stats(st) => {
            let tag = char_bytes("{\"Stats\":"@);
            let body = enc_envelope(st);
            assert(enc_to_client(v) == tag + (body + seq![125u8]));
            lemma_split(s, i, j, tag, body + seq![125u8]);
            let p = i + tag.len() as int;
            lemma_split(s, p, j, body, seq![125u8]);
            lemma_dec_enc_envelope(s, p, st);
            let e = p + body.len() as int;
            assert(s[e] == seq![125u8][0]);
        }
        ToClient::Settings(se) => {
            let tag = char_bytes("{\"Settings\":"@);
            let body = enc_settings(se);
            assert(enc_to_client(v) == tag + (body + seq![125u8]));
            lemma_split(s, i, j, tag, body + seq![125u8]);
            let p = i + tag.len() as int;
            lemma_split(s, p, j, body, seq![125u8]);
            lemma_dec_enc_settings(s, p, se);
            let e = p + body.len() as int;
            assert(s[e] == seq![125u8][0]);
        }
    }
}


} // verus!
