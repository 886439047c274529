//! The telemetry archival pipeline: windowed aggregation of the record
//! stream, the per-day archive files, their byte-exact contents, and the
//! historical replay plan. Compression is the one outside call; everything
//! around it is decided and proved here.
//!
//! The record grammar carries timestamps as epoch milliseconds and analog
//! readings as milli-unit integers, so archives written by builds that
//! carried calendar-string timestamps and floating-point readings do not
//! read back here.

use vstd::prelude::*;
use crate::Stats;
use crate::Config;
use crate::ArchivedDay;
use crate::timestamp_spec;
use crate::prostar;
use crate::prostar::imax;

verus! {

/// The controller snapshot an envelope carries, whatever its version.
pub open spec fn controller_spec(s: Stats) -> Option<prostar::Stats> {
    match s {
        Stats::V0(st) => Some(st),
        Stats::V1 { controller, phy: _ } => Some(controller),
        Stats::V2 { timestamp: _, controller, phy: _ } => controller,
        Stats::V3 { timestamp: _, controller } => controller,
    }
}

/// The combine rule for optional controller snapshots: any present
/// snapshot is preserved; two snapshots combine field by field.
pub open spec fn opt_combine(
    a: Option<prostar::Stats>,
    b: Option<prostar::Stats>,
) -> Option<prostar::Stats> {
    match (a, b) {
        (None, None) => None::<prostar::Stats>,
        (Some(x), None) => Some(x),
        (None, Some(y)) => Some(y),
        (Some(x), Some(y)) => Some(prostar::combine(x, y)),
    }
}

/// Two envelopes folded into one: the later authoritative timestamp wins,
/// and the controller snapshots combine per field.
pub open spec fn accum_spec(a: Stats, b: Stats) -> Stats {
    Stats::V3 {
        timestamp: imax(timestamp_spec(a) as int, timestamp_spec(b) as int) as i64,
        controller: opt_combine(controller_spec(a), controller_spec(b)),
    }
}

/// Fold one further record into the accumulated record.
pub fn stats_accum(acc: &mut Stats, s: &Stats)
    ensures
        *final(acc) == accum_spec(*old(acc), *s),
{
    let ts_a = acc.timestamp();
    let ts_b = s.timestamp();
    let ts: i64 = if ts_a >= ts_b {
        ts_a
    } else {
        ts_b
    };
    let ua = acc.upgrade();
    let ub = (*s).upgrade();
    let ca = match ua {
        Stats::V3 { controller, .. } => controller,
        _ => None,
    };
    let cb = match ub {
        Stats::V3 { controller, .. } => controller,
        _ => None,
    };
    let controller = match (ca, cb) {
        (None, None) => None,
        (Some(x), None) => Some(x),
        (None, Some(y)) => Some(y),
        (Some(x), Some(y)) => {
            let mut c = x;
            prostar::accum(&mut c, &y);
            Some(c)
        }
    };
    *acc = Stats::V3 { timestamp: ts, controller };
}

/// The windowed aggregation accumulator: a window-start timestamp and the
/// partial record, or nothing between windows.
pub struct Decimate {
    pub acc: Option<(i64, Stats)>,
    pub cutoff_ms: i64,
}

/// One record folded into the accumulator: the new accumulator and what,
/// if anything, is emitted.
pub open spec fn decim_step(
    acc: Option<(i64, Stats)>,
    s: Stats,
    cutoff_ms: i64,
) -> (Option<(i64, Stats)>, Option<Stats>) {
    let na = match acc {
        None => (timestamp_spec(s), s),
        Some((ts, a)) => (ts, accum_spec(a, s)),
    };
    if timestamp_spec(na.1) - na.0 >= cutoff_ms {
        (None::<(i64, Stats)>, Some(na.1))
    } else {
        (Some(na), None::<Stats>)
    }
}

impl Decimate {
    /// An empty accumulator for the given window.
    pub fn new(cutoff_ms: i64) -> (r: Decimate)
        ensures
            r.acc is None,
            r.cutoff_ms == cutoff_ms,
    {
        Decimate { acc: None, cutoff_ms }
    }

    /// Fold one record in. An emission closes its window: the emitted
    /// record's timestamp stands at least one whole window after the
    /// window's start, and the accumulator is empty afterwards, so no
    /// window start ever emits twice.
    pub fn step(&mut self, s: &Stats) -> (emitted: Option<Stats>)
        ensures
            (final(self).acc, emitted) == decim_step(old(self).acc, *s, old(self).cutoff_ms),
            final(self).cutoff_ms == old(self).cutoff_ms,
            emitted is Some ==> final(self).acc is None,
            match (old(self).acc, emitted) {
                (Some((ts0, _)), Some(e)) => timestamp_spec(e) - ts0 >= old(self).cutoff_ms,
                (None, Some(e)) => timestamp_spec(e) - timestamp_spec(*s) >= old(
                    self,
                ).cutoff_ms,
                _ => true,
            },
    {
        let (ts0, merged) = match &self.acc {
            None => (s.timestamp(), *s),
            Some((ts, a)) => {
                let mut m = *a;
                stats_accum(&mut m, s);
                (*ts, m)
            }
        };
        let mts = merged.timestamp();
        let over = (mts as i128) - (ts0 as i128) >= (self.cutoff_ms as i128);
        if over {
            self.acc = None;
            Some(merged)
        } else {
            self.acc = Some((ts0, merged));
            None
        }
    }

    /// End of stream: whatever partial window remains is emitted. This is
    /// the one emission the window rule does not cover.
    pub fn finish(&mut self) -> (emitted: Option<Stats>)
        ensures
            final(self).acc is None,
            final(self).cutoff_ms == old(self).cutoff_ms,
            emitted == match old(self).acc {
                Some((_, a)) => Some(a),
                None => None::<Stats>,
            },
    {
        let r = match &self.acc {
            Some((_, a)) => Some(*a),
            None => None,
        };
        self.acc = None;
        r
    }
}

/// A whole stream folded through the accumulator, window starts cleared
/// between windows: the emitted records and the final partial window.
pub open spec fn run_decim_from(
    acc: Option<(i64, Stats)>,
    records: Seq<Stats>,
    cutoff_ms: i64,
) -> (Seq<Stats>, Option<(i64, Stats)>)
    decreases records.len(),
{
    if records.len() == 0 {
        (Seq::<Stats>::empty(), acc)
    } else {
        let sr = decim_step(acc, records[0], cutoff_ms);
        let rest = run_decim_from(sr.0, records.skip(1), cutoff_ms);
        match sr.1 {
            Some(e) => (seq![e] + rest.0, rest.1),
            None => rest,
        }
    }
}

/// The decimated form of a stream: every full window's record, and the
/// final partial window flushed at the end.
pub open spec fn run_decim(records: Seq<Stats>, cutoff_ms: i64) -> Seq<Stats> {
    let r = run_decim_from(None, records, cutoff_ms);
    match r.1 {
        Some((_, a)) => r.0 + seq![a],
        None => r.0,
    }
}

proof fn lemma_run_decim_snoc(
    acc: Option<(i64, Stats)>,
    records: Seq<Stats>,
    s: Stats,
    cutoff_ms: i64,
)
    ensures
        run_decim_from(acc, records.push(s), cutoff_ms) == {
            let mid = run_decim_from(acc, records, cutoff_ms);
            let sr = decim_step(mid.1, s, cutoff_ms);
            match sr.1 {
                Some(e) => (mid.0 + seq![e], sr.0),
                None => (mid.0, sr.0),
            }
        },
    decreases records.len(),
{
    let p = records.push(s);
    if records.len() == 0 {
        assert(p[0] == s);
        assert(p.skip(1) =~= Seq::<Stats>::empty());
        let sr = decim_step(acc, s, cutoff_ms);
        assert(run_decim_from(sr.0, p.skip(1), cutoff_ms) == (Seq::<Stats>::empty(), sr.0));
        assert(run_decim_from(acc, records, cutoff_ms) == (Seq::<Stats>::empty(), acc));
        match sr.1 {
            Some(e) => {
                assert(run_decim_from(acc, p, cutoff_ms) == (
                    seq![e] + Seq::<Stats>::empty(),
                    sr.0,
                ));
                assert(seq![e] + Seq::<Stats>::empty() =~= Seq::<Stats>::empty() + seq![e]);
            }
            None => {
                assert(run_decim_from(acc, p, cutoff_ms) == (Seq::<Stats>::empty(), sr.0));
            }
        }
    } else {
        assert(p[0] == records[0]);
        assert(p.skip(1) =~= records.skip(1).push(s));
        let sr0 = decim_step(acc, records[0], cutoff_ms);
        lemma_run_decim_snoc(sr0.0, records.skip(1), s, cutoff_ms);
        let midr = run_decim_from(sr0.0, records.skip(1), cutoff_ms);
        let pr = run_decim_from(sr0.0, p.skip(1), cutoff_ms);
        assert(pr == run_decim_from(sr0.0, records.skip(1).push(s), cutoff_ms));
        let mid = run_decim_from(acc, records, cutoff_ms);
        assert(mid == match sr0.1 {
            Some(e0) => (seq![e0] + midr.0, midr.1),
            None => midr,
        });
        assert(run_decim_from(acc, p, cutoff_ms) == match sr0.1 {
            Some(e0) => (seq![e0] + pr.0, pr.1),
            None => pr,
        });
        let sr = decim_step(mid.1, s, cutoff_ms);
        assert(mid.1 == midr.1);
        match (sr0.1, sr.1) {
            (Some(e0), Some(e)) => {
                assert(seq![e0] + (midr.0 + seq![e]) =~= (seq![e0] + midr.0) + seq![e]);
            }
            _ => {}
        }
    }
}

/// Reduce a stream of records to one record per window: fold each record
/// in, in order, and flush the final partial window.
pub fn decimate(cutoff_ms: i64, records: &Vec<Stats>) -> (r: Vec<Stats>)
    ensures
        r@ == run_decim(records@, cutoff_ms),
{
    let mut d = Decimate::new(cutoff_ms);
    let mut out: Vec<Stats> = Vec::new();
    let mut i: usize = 0;
    proof {
        assert(records@.take(0) =~= Seq::<Stats>::empty());
    }
    while i < records.len()
        invariant
            0 <= i <= records@.len(),
            d.cutoff_ms == cutoff_ms,
            (out@, d.acc) == run_decim_from(None, records@.take(i as int), cutoff_ms),
        decreases records@.len() - i,
    {
        let ghost pre = records@.take(i as int);
        let em = d.step(&records[i]);
        proof {
            lemma_run_decim_snoc(None, pre, records@[i as int], cutoff_ms);
            assert(records@.take(i as int + 1) =~= pre.push(records@[i as int]));
        }
        match em {
            Some(e) => out.push(e),
            None => {}
        }
        i = i + 1;
    }
    proof {
        assert(records@.take(records@.len() as int) =~= records@);
    }
    match d.finish() {
        Some(e) => {
            out.push(e);
            assert(out@ =~= run_decim(records@, cutoff_ms));
        }
        None => {
            assert(out@ =~= run_decim(records@, cutoff_ms));
        }
    }
    out
}

/// A fold of the per-field combine over a window.
pub open spec fn fold_combine(acc: prostar::Stats, rest: Seq<prostar::Stats>) -> prostar::Stats
    decreases rest.len(),
{
    if rest.len() == 0 {
        acc
    } else {
        fold_combine(prostar::combine(acc, rest[0]), rest.skip(1))
    }
}

/// Any field read that every combine can only raise is, over a whole
/// window, at least every input's reading.
pub proof fn lemma_fold_combine_upper(
    f: spec_fn(prostar::Stats) -> int,
    acc: prostar::Stats,
    rest: Seq<prostar::Stats>,
)
    requires
        forall|a: prostar::Stats, b: prostar::Stats|
            f(#[trigger] prostar::combine(a, b)) >= f(a) && f(prostar::combine(a, b)) >= f(b),
    ensures
        f(fold_combine(acc, rest)) >= f(acc),
        forall|k: int| 0 <= k < rest.len() ==> f(fold_combine(acc, rest)) >= f(#[trigger] rest[k]),
    decreases rest.len(),
{
    if rest.len() > 0 {
        lemma_fold_combine_upper(f, prostar::combine(acc, rest[0]), rest.skip(1));
        assert forall|k: int| 0 <= k < rest.len() implies f(fold_combine(acc, rest)) >= f(
            #[trigger] rest[k],
        ) by {
            if k > 0 {
                assert(rest.skip(1)[k - 1] == rest[k]);
            }
        }
    }
}

/// Any field read that every combine can only lower is, over a whole
/// window, at most every input's reading.
pub proof fn lemma_fold_combine_lower(
    f: spec_fn(prostar::Stats) -> int,
    acc: prostar::Stats,
    rest: Seq<prostar::Stats>,
)
    requires
        forall|a: prostar::Stats, b: prostar::Stats|
            f(#[trigger] prostar::combine(a, b)) <= f(a) && f(prostar::combine(a, b)) <= f(b),
    ensures
        f(fold_combine(acc, rest)) <= f(acc),
        forall|k: int| 0 <= k < rest.len() ==> f(fold_combine(acc, rest)) <= f(#[trigger] rest[k]),
    decreases rest.len(),
{
    if rest.len() > 0 {
        lemma_fold_combine_lower(f, prostar::combine(acc, rest[0]), rest.skip(1));
        assert forall|k: int| 0 <= k < rest.len() implies f(fold_combine(acc, rest)) <= f(
            #[trigger] rest[k],
        ) by {
            if k > 0 {
                assert(rest.skip(1)[k - 1] == rest[k]);
            }
        }
    }
}


/// A record file's bytes: each record on its own line.
pub open spec fn enc_lines(records: Seq<Stats>) -> Seq<u8>
    decreases records.len(),
{
    if records.len() == 0 {
        Seq::<u8>::empty()
    } else {
        crate::wire::enc_stats_line(records[0]) + enc_lines(records.skip(1))
    }
}

proof fn lemma_enc_lines_snoc(records: Seq<Stats>, s: Stats)
    ensures
        enc_lines(records.push(s)) == enc_lines(records) + crate::wire::enc_stats_line(s),
    decreases records.len(),
{
    let p = records.push(s);
    if records.len() == 0 {
        assert(p[0] == s);
        assert(p.skip(1) =~= Seq::<Stats>::empty());
        assert(enc_lines(p.skip(1)) =~= Seq::<u8>::empty());
        assert(enc_lines(p) =~= crate::wire::enc_stats_line(s));
        assert(enc_lines(records) =~= Seq::<u8>::empty());
        assert(enc_lines(records) + crate::wire::enc_stats_line(s) =~= crate::wire::enc_stats_line(
            s,
        ));
    } else {
        assert(p[0] == records[0]);
        assert(p.skip(1) =~= records.skip(1).push(s));
        lemma_enc_lines_snoc(records.skip(1), s);
        assert(enc_lines(p) == crate::wire::enc_stats_line(records[0]) + enc_lines(p.skip(1)));
        assert(enc_lines(records.skip(1).push(s)) == enc_lines(records.skip(1))
            + crate::wire::enc_stats_line(s));
        assert(crate::wire::enc_stats_line(records[0]) + (enc_lines(records.skip(1))
            + crate::wire::enc_stats_line(s)) =~= (crate::wire::enc_stats_line(records[0])
            + enc_lines(records.skip(1))) + crate::wire::enc_stats_line(s));
    }
}

/// Serialize records as a line-per-record file.
pub fn encode_records(records: &Vec<Stats>) -> (r: Vec<u8>)
    ensures
        r@ == enc_lines(records@),
{
    let mut out: Vec<u8> = Vec::new();
    let mut i: usize = 0;
    proof {
        assert(records@.take(0) =~= Seq::<Stats>::empty());
        assert(enc_lines(records@.take(0)) =~= Seq::<u8>::empty());
    }
    while i < records.len()
        invariant
            0 <= i <= records@.len(),
            out@ == enc_lines(records@.take(i as int)),
        decreases records@.len() - i,
    {
        let line = crate::wire::encode_stats_line(&records[i]);
        let ghost pre = records@.take(i as int);
        crate::codec::push_bytes(&mut out, &line);
        proof {
            lemma_enc_lines_snoc(pre, records@[i as int]);
            assert(records@.take(i as int + 1) =~= pre.push(records@[i as int]));
        }
        i = i + 1;
    }
    proof {
        assert(records@.take(records@.len() as int) =~= records@);
    }
    out
}

/// The records read from a record file: one per line, stopping at the
/// first line that does not parse, as replay always has.
pub open spec fn dec_records_at(s: Seq<u8>, i: int) -> Seq<Stats>
    decreases s.len() - i,
{
    if 0 <= i < s.len() {
        match crate::wire::dec_envelope_at(s, i) {
            Some((v, e)) => if i <= e && e + 1 <= s.len() && s[e] == 10 {
                seq![v] + dec_records_at(s, e + 1)
            } else {
                Seq::<Stats>::empty()
            },
            None => Seq::<Stats>::empty(),
        }
    } else {
        Seq::<Stats>::empty()
    }
}

/// Rotation loses nothing: the full archive file, which holds every record
/// as it was appended, reads back as exactly those records.
#[verifier::rlimit(100)]
#[verifier::spinoff_prover]
pub proof fn lemma_records_roundtrip(s: Seq<u8>, i: int, records: Seq<Stats>)
    requires
        0 <= i,
        i + enc_lines(records).len() == s.len(),
        s.subrange(i, s.len() as int) == enc_lines(records),
    ensures
        dec_records_at(s, i) == records,
    decreases records.len(),
{
    if records.len() == 0 {
        assert(i == s.len());
    } else {
        let line = crate::wire::enc_stats_line(records[0]);
        let env = crate::wire::enc_envelope(records[0]);
        assert(enc_lines(records) == line + enc_lines(records.skip(1)));
        crate::codec::lemma_split(s, i, s.len() as int, line, enc_lines(records.skip(1)));
        assert(line =~= env + seq![10u8]);
        crate::codec::lemma_split(s, i, i + line.len() as int, env, seq![10u8]);
        crate::wire::lemma_dec_enc_envelope(s, i, records[0]);
        let e = i + env.len() as int;
        assert(s[e] == seq![10u8][0]);
        lemma_records_roundtrip(s, e + 1, records.skip(1));
        assert(dec_records_at(s, i) =~= seq![records[0]] + records.skip(1));
        assert(seq![records[0]] + records.skip(1) =~= records);
    }
}

/// Parse a record file: one record per line, stopping at the first line
/// that does not parse.
pub fn parse_records(data: &Vec<u8>) -> (r: Vec<Stats>)
    ensures
        r@ == dec_records_at(data@, 0),
{
    let mut out: Vec<Stats> = Vec::new();
    let mut pos: usize = 0;
    loop
        invariant
            0 <= pos <= data@.len(),
            dec_records_at(data@, 0) == out@ + dec_records_at(data@, pos as int),
        decreases data@.len() - pos,
    {
        if pos >= data.len() {
            assert(dec_records_at(data@, pos as int) =~= Seq::<Stats>::empty());
            assert(out@ =~= out@ + dec_records_at(data@, pos as int));
            return out;
        }
        match crate::wire::parse_envelope(data, pos) {
            Some((v, e)) => {
                if e < data.len() && data[e] == 10 {
                    out.push(v);
                    proof {
                        assert(dec_records_at(data@, pos as int) == seq![v] + dec_records_at(
                            data@,
                            e as int + 1,
                        ));
                    }
                    pos = e + 1;
                } else {
                    assert(dec_records_at(data@, pos as int) =~= Seq::<Stats>::empty());
                    assert(out@ =~= out@ + dec_records_at(data@, pos as int));
                    return out;
                }
            }
            None => {
                assert(dec_records_at(data@, pos as int) =~= Seq::<Stats>::empty());
                assert(out@ =~= out@ + dec_records_at(data@, pos as int));
                return out;
            }
        }
    }
}

/// What one gzip member holds for given input bytes. The encoder is used
/// with a fixed header, so its output depends on the input alone.
pub uninterp spec fn gzip_of(data: Seq<u8>) -> Seq<u8>;

/// What decoding a gzip member yields for given input bytes.
pub uninterp spec fn gunzip_of(data: Seq<u8>) -> Seq<u8>;

/// Whether the bytes form a gzip member the decoder accepts: a property of
/// the bytes alone, and true of everything the encoder produces.
pub uninterp spec fn gzip_wf(data: Seq<u8>) -> bool;

/// Relies on libflate's gzip Encoder: with a fixed header the output is a
/// function of the input alone, a well-formed member, and its own Decoder
/// reads the input back.
#[verifier::external_body]
pub fn gzip_compress(data: &Vec<u8>) -> (r: Vec<u8>)
    ensures
        r@ == gzip_of(data@) && gunzip_of(r@) == data@ && gzip_wf(r@),
{
    let header = libflate::gzip::HeaderBuilder::new().modification_time(0).finish();
    let options = libflate::gzip::EncodeOptions::new().header(header);
    let mut enc = match libflate::gzip::Encoder::with_options(Vec::new(), options) {
        Ok(e) => e,
        Err(_) => return Vec::new(),
    };
    match std::io::Write::write_all(&mut enc, data) {
        Ok(()) => (),
        Err(_) => return Vec::new(),
    }
    enc.finish().into_result().unwrap_or_default()
}

/// Relies on libflate's gzip Decoder: exactly the well-formed members are
/// accepted, each decoding to its content.
#[verifier::external_body]
pub fn gzip_decompress(data: &Vec<u8>) -> (r: Option<Vec<u8>>)
    ensures
        r is Some <==> gzip_wf(data@),
        match r {
            Some(v) => v@ == gunzip_of(data@),
            None => true,
        },
{
    let mut dec = match libflate::gzip::Decoder::new(&data[..]) {
        Ok(d) => d,
        Err(_) => return None,
    };
    let mut out = Vec::new();
    match std::io::Read::read_to_end(&mut dec, &mut out) {
        Ok(_) => Some(out),
        Err(_) => None,
    }
}

/// The three compressed archive files for one day's records: every sample,
/// the 1-minute aggregates, and the 10-minute aggregates.
pub fn archive_day(records: &Vec<Stats>) -> (r: (Vec<u8>, Vec<u8>, Vec<u8>))
    ensures
        gunzip_of(r.0@) == enc_lines(records@),
        gunzip_of(r.1@) == enc_lines(run_decim(records@, 60000)),
        gunzip_of(r.2@) == enc_lines(run_decim(records@, 600000)),
        gzip_wf(r.0@) && gzip_wf(r.1@) && gzip_wf(r.2@),
{
    let full = encode_records(records);
    let m1 = decimate(60000, records);
    let m10 = decimate(600000, records);
    let e1 = encode_records(&m1);
    let e10 = encode_records(&m10);
    (gzip_compress(&full), gzip_compress(&e1), gzip_compress(&e10))
}

/// Read a compressed archive file back into records: every well-formed
/// gzip member reads, anything else is refused.
pub fn read_archive(data: &Vec<u8>) -> (r: Option<Vec<Stats>>)
    ensures
        r is Some <==> gzip_wf(data@),
        match r {
            Some(v) => v@ == dec_records_at(gunzip_of(data@), 0),
            None => true,
        },
{
    match gzip_decompress(data) {
        Some(bytes) => Some(parse_records(&bytes)),
        None => None,
    }
}

/// What the archiver does for a date: refuse when any of the three target
/// files already exists (a one-line notice, nothing touched); rotate the
/// live log through a link-and-truncate handoff when archiving the live
/// file; otherwise archive the named file in place.
#[derive(Debug, Clone, Copy, PartialEq, Eq, Structural)]
pub enum ArchivePlan {
    Refuse,
    RotateThenArchive,
    ArchiveInPlace,
}

/// Decide the archive run from what is on disk.
pub fn plan_archive(
    exists_all: bool,
    exists_1m: bool,
    exists_10m: bool,
    is_live_log: bool,
) -> (r: ArchivePlan)
    ensures
        r == ArchivePlan::Refuse <==> (exists_all || exists_1m || exists_10m),
        r == ArchivePlan::RotateThenArchive <==> (!exists_all && !exists_1m && !exists_10m
            && is_live_log),
        r == ArchivePlan::ArchiveInPlace <==> (!exists_all && !exists_1m && !exists_10m
            && !is_live_log),
{
    if exists_all || exists_1m || exists_10m {
        ArchivePlan::Refuse
    } else if is_live_log {
        ArchivePlan::RotateThenArchive
    } else {
        ArchivePlan::ArchiveInPlace
    }
}


/// A calendar date. The supervisor's own dates all lie from 1970 on; a
/// date handed back by day arithmetic can reach back to 1600.
#[derive(Debug, Clone, Copy, PartialEq, Eq, Structural)]
pub struct Date {
    pub year: u16,
    pub month: u8,
    pub day: u8,
}

/// A date the supervisor can name an archive after.
pub open spec fn date_wf(d: Date) -> bool {
    1600 <= d.year <= 9999 && 1 <= d.month <= 12 && 1 <= d.day <= 31
}

/// The eight digits a date contributes to an archive file name.
pub open spec fn date_digits(d: Date) -> Seq<u8> {
    seq![
        (d.year as int / 1000 % 10 + 48) as u8,
        (d.year as int / 100 % 10 + 48) as u8,
        (d.year as int / 10 % 10 + 48) as u8,
        (d.year as int % 10 + 48) as u8,
        (d.month as int / 10 % 10 + 48) as u8,
        (d.month as int % 10 + 48) as u8,
        (d.day as int / 10 % 10 + 48) as u8,
        (d.day as int % 10 + 48) as u8,
    ]
}

/// The chars of a byte sequence, one per byte.
pub open spec fn chars_of_bytes(b: Seq<u8>) -> Seq<char> {
    b.map_values(|x: u8| x as char)
}

fn date_digits_exec(d: Date) -> (r: Vec<u8>)
    requires
        date_wf(d),
    ensures
        r@ == date_digits(d),
        forall|k: int| 0 <= k < r@.len() ==> #[trigger] r@[k] < 128,
{
    let y = d.year;
    let m = d.month;
    let dd = d.day;
    let out: Vec<u8> = vec![
        (y / 1000 % 10) as u8 + 48,
        (y / 100 % 10) as u8 + 48,
        (y / 10 % 10) as u8 + 48,
        (y % 10) as u8 + 48,
        (m / 10 % 10) + 48,
        (m % 10) + 48,
        (dd / 10 % 10) + 48,
        (dd % 10) + 48,
    ];
    assert(out@ =~= date_digits(d));
    out
}

impl Config {
    /// The three archive file paths for a calendar date.
    pub fn archive_for_date(&self, date: Date) -> (r: ArchivedDay)
        requires
            date_wf(date),
        ensures
            r.all@ == self.archive_directory@ + "/solar.log-"@ + chars_of_bytes(
                date_digits(date),
            ) + ".gz"@,
            r.one_minute_averages@ == self.archive_directory@ + "/solar.log-"@ + chars_of_bytes(
                date_digits(date),
            ) + "1m.gz"@,
            r.ten_minute_averages@ == self.archive_directory@ + "/solar.log-"@ + chars_of_bytes(
                date_digits(date),
            ) + "10m.gz"@,
    {
        let code = crate::codec::ascii_to_string(date_digits_exec(date));
        let mut base = self.archive_directory.clone();
        base.append("/solar.log-");
        base.append(code.as_str());
        let mut all = base.clone();
        all.append(".gz");
        let mut m1 = base.clone();
        m1.append("1m.gz");
        let mut m10 = base.clone();
        m10.append("10m.gz");
        ArchivedDay { all, one_minute_averages: m1, ten_minute_averages: m10 }
    }
}

/// The calendar date `n` days before the given one. The value is fixed by
/// its arguments; `date_sub_days` computes it.
pub uninterp spec fn days_before(y: int, m: int, d: int, n: int) -> (int, int, int);

/// Relies on chrono::NaiveDate::checked_sub_days: the calendar date `n`
/// days earlier, in the proleptic Gregorian calendar. A triple that names
/// no real date comes back unchanged.
#[verifier::external_body]
pub fn date_sub_days(date: Date, n: u16) -> (r: Date)
    requires
        date_wf(date),
        date.year >= 1970,
        n <= 36500,
    ensures
        date_wf(r),
        (r.year as int, r.month as int, r.day as int) == days_before(
            date.year as int,
            date.month as int,
            date.day as int,
            n as int,
        ),
        n == 0 ==> r == date,
{
    let nd = chrono::NaiveDate::from_ymd_opt(date.year as i32, date.month as u32, date.day as u32);
    match nd.and_then(|d| d.checked_sub_days(chrono::Days::new(n as u64))) {
        Some(prev) => Date {
            year: chrono::Datelike::year(&prev) as u16,
            month: chrono::Datelike::month(&prev) as u8,
            day: chrono::Datelike::day(&prev) as u8,
        },
        None => date,
    }
}

/// The dates whose 10-minute archives replay covers, oldest first: today
/// less `days` through today less one.
pub fn history_dates(today: Date, days: u16) -> (r: Vec<Date>)
    requires
        date_wf(today),
        today.year >= 1970,
        days <= 36500,
    ensures
        r@.len() == days as int,
        forall|k: int|
            0 <= k < days as int ==> date_wf(#[trigger] r@[k]) && (
            r@[k].year as int,
            r@[k].month as int,
            r@[k].day as int,
        ) == days_before(today.year as int, today.month as int, today.day as int, days - k),
{
    let mut out: Vec<Date> = Vec::new();
    let mut i: u16 = days;
    while i > 0
        invariant
            0 <= i <= days,
            out@.len() == days - i,
            today.year >= 1970,
            date_wf(today),
            days <= 36500,
            forall|k: int|
                0 <= k < out@.len() ==> date_wf(#[trigger] out@[k]) && (
                out@[k].year as int,
                out@[k].month as int,
                out@[k].day as int,
            ) == days_before(today.year as int, today.month as int, today.day as int, days - k),
        decreases i,
    {
        let d = date_sub_days(today, i);
        out.push(d);
        i = i - 1;
    }
    out
}


/// Timestamps never step backwards along the stream.
pub open spec fn ts_sorted(records: Seq<Stats>) -> bool {
    forall|i: int, j: int|
        0 <= i <= j < records.len() ==> timestamp_spec(#[trigger] records[i]) <= timestamp_spec(
            #[trigger] records[j],
        )
}

/// Over a time-sorted stream, the accumulator's in-stream emissions are at
/// least one whole window apart, and the first comes no earlier than one
/// window past the open window's start. No window start can emit twice:
/// every later emission carries a timestamp at least a window beyond it.
pub proof fn lemma_decim_spacing(acc: Option<(i64, Stats)>, records: Seq<Stats>, cutoff_ms: i64)
    requires
        cutoff_ms > 0,
        ts_sorted(records),
        records.len() > 0 ==> match acc {
            Some((t0, a)) => timestamp_spec(a) <= timestamp_spec(records[0]),
            None => true,
        },
    ensures
        ({
            let em = run_decim_from(acc, records, cutoff_ms).0;
            &&& forall|k: int|
                0 <= k < em.len() - 1 ==> timestamp_spec(#[trigger] em[k]) + cutoff_ms
                    <= timestamp_spec(em[k + 1])
            &&& em.len() > 0 ==> match acc {
                Some((t0, a)) => timestamp_spec(em[0]) >= t0 + cutoff_ms,
                None => records.len() > 0 && timestamp_spec(em[0]) >= timestamp_spec(records[0])
                    + cutoff_ms,
            }
        }),
    decreases records.len(),
{
    if records.len() > 0 {
        let r = records[0];
        let rest = records.skip(1);
        assert(ts_sorted(rest)) by {
            assert forall|i: int, j: int|
                0 <= i <= j < rest.len() implies timestamp_spec(#[trigger] rest[i])
                <= timestamp_spec(#[trigger] rest[j]) by {
                assert(rest[i] == records[i + 1]);
                assert(rest[j] == records[j + 1]);
            }
        }
        if rest.len() > 0 {
            assert(rest[0] == records[1]);
            assert(timestamp_spec(r) <= timestamp_spec(rest[0]));
        }
        let sr = decim_step(acc, r, cutoff_ms);
        let em = run_decim_from(acc, records, cutoff_ms).0;
        let em1 = run_decim_from(sr.0, rest, cutoff_ms).0;
        match acc {
            None => {
                assert(sr.1 is None);
                assert(sr.0 == Some((timestamp_spec(r), r)));
                lemma_decim_spacing(sr.0, rest, cutoff_ms);
                assert(em == em1);
                if em.len() > 0 {
                    assert(timestamp_spec(em[0]) >= timestamp_spec(r) + cutoff_ms);
                }
            }
            Some((t0, a)) => {
                let merged = accum_spec(a, r);
                assert(timestamp_spec(merged) == imax(
                    timestamp_spec(a) as int,
                    timestamp_spec(r) as int,
                ));
                assert(timestamp_spec(merged) == timestamp_spec(r));
                if timestamp_spec(merged) - t0 >= cutoff_ms {
                    assert(sr == (None::<(i64, Stats)>, Some(merged)));
                    lemma_decim_spacing(None, rest, cutoff_ms);
                    assert(em == seq![merged] + em1);
                    assert(em[0] == merged);
                    assert forall|k: int|
                        0 <= k < em.len() - 1 implies timestamp_spec(#[trigger] em[k]) + cutoff_ms
                        <= timestamp_spec(em[k + 1]) by {
                        if k == 0 {
                            if em1.len() > 0 {
                                assert(em[1] == em1[0]);
                                assert(timestamp_spec(em1[0]) >= timestamp_spec(rest[0])
                                    + cutoff_ms);
                                assert(timestamp_spec(merged) <= timestamp_spec(rest[0]));
                            }
                        } else {
                            assert(em[k] == em1[k - 1]);
                            assert(em[k + 1] == em1[k]);
                        }
                    }
                } else {
                    assert(sr == (Some((t0, merged)), None::<Stats>));
                    lemma_decim_spacing(sr.0, rest, cutoff_ms);
                    assert(em == em1);
                }
            }
        }
    }
}


/// The window bounds over every field that combines by maximum or
/// minimum: the aggregated window's reading is at least (for the maxima)
/// or at most (for the daily battery-voltage minimum) every sample in
/// the window, and the ranked states dominate every sample.
#[verifier::rlimit(100)]
#[verifier::spinoff_prover]
pub proof fn lemma_window_bounds(acc: prostar::Stats, rest: Seq<prostar::Stats>)
    ensures
        forall|k: int|
            0 <= k < rest.len() ==> fold_combine(acc, rest).timestamp >= (#[trigger] rest[k]).timestamp,
        forall|k: int|
            0 <= k < rest.len() ==> fold_combine(acc, rest).heatsink_temperature >= (#[trigger] rest[k]).heatsink_temperature,
        forall|k: int|
            0 <= k < rest.len() ==> fold_combine(acc, rest).battery_temperature >= (#[trigger] rest[k]).battery_temperature,
        forall|k: int|
            0 <= k < rest.len() ==> fold_combine(acc, rest).ambient_temperature >= (#[trigger] rest[k]).ambient_temperature,
        forall|k: int|
            0 <= k < rest.len() ==> fold_combine(acc, rest).u_inductor_temperature >= (#[trigger] rest[k]).u_inductor_temperature,
        forall|k: int|
            0 <= k < rest.len() ==> fold_combine(acc, rest).v_inductor_temperature >= (#[trigger] rest[k]).v_inductor_temperature,
        forall|k: int|
            0 <= k < rest.len() ==> fold_combine(acc, rest).w_inductor_temperature >= (#[trigger] rest[k]).w_inductor_temperature,
        forall|k: int|
            0 <= k < rest.len() ==> fold_combine(acc, rest).ah_charge_resettable >= (#[trigger] rest[k]).ah_charge_resettable,
        forall|k: int|
            0 <= k < rest.len() ==> fold_combine(acc, rest).ah_charge_total >= (#[trigger] rest[k]).ah_charge_total,
        forall|k: int|
            0 <= k < rest.len() ==> fold_combine(acc, rest).kwh_charge_resettable >= (#[trigger] rest[k]).kwh_charge_resettable,
        forall|k: int|
            0 <= k < rest.len() ==> fold_combine(acc, rest).kwh_charge_total >= (#[trigger] rest[k]).kwh_charge_total,
        forall|k: int|
            0 <= k < rest.len() ==> fold_combine(acc, rest).ah_load_resettable >= (#[trigger] rest[k]).ah_load_resettable,
        forall|k: int|
            0 <= k < rest.len() ==> fold_combine(acc, rest).ah_load_total >= (#[trigger] rest[k]).ah_load_total,
        forall|k: int|
            0 <= k < rest.len() ==> fold_combine(acc, rest).hourmeter >= (#[trigger] rest[k]).hourmeter,
        forall|k: int|
            0 <= k < rest.len() ==> fold_combine(acc, rest).battery_v_max_daily >= (#[trigger] rest[k]).battery_v_max_daily,
        forall|k: int|
            0 <= k < rest.len() ==> fold_combine(acc, rest).ah_charge_daily >= (#[trigger] rest[k]).ah_charge_daily,
        forall|k: int|
            0 <= k < rest.len() ==> fold_combine(acc, rest).ah_load_daily >= (#[trigger] rest[k]).ah_load_daily,
        forall|k: int|
            0 <= k < rest.len() ==> fold_combine(acc, rest).array_voltage_max_daily >= (#[trigger] rest[k]).array_voltage_max_daily,
        forall|k: int|
            0 <= k < rest.len() ==> fold_combine(acc, rest).software_version >= (#[trigger] rest[k]).software_version,
        forall|k: int|
            0 <= k < rest.len() ==> fold_combine(acc, rest).battery_voltage_settings_multiplier >= (#[trigger] rest[k]).battery_voltage_settings_multiplier,
        forall|k: int|
            0 <= k < rest.len() ==> fold_combine(acc, rest).array_faults >= (#[trigger] rest[k]).array_faults,
        forall|k: int|
            0 <= k < rest.len() ==> fold_combine(acc, rest).load_faults >= (#[trigger] rest[k]).load_faults,
        forall|k: int|
            0 <= k < rest.len() ==> fold_combine(acc, rest).array_faults_daily >= (#[trigger] rest[k]).array_faults_daily,
        forall|k: int|
            0 <= k < rest.len() ==> fold_combine(acc, rest).load_faults_daily >= (#[trigger] rest[k]).load_faults_daily,
        forall|k: int|
            0 <= k < rest.len() ==> fold_combine(acc, rest).alarms >= (#[trigger] rest[k]).alarms,
        forall|k: int|
            0 <= k < rest.len() ==> fold_combine(acc, rest).alarms_daily >= (#[trigger] rest[k]).alarms_daily,
        forall|k: int|
            0 <= k < rest.len() ==> fold_combine(acc, rest).battery_v_min_daily <= (#[trigger] rest[k]).battery_v_min_daily,
        forall|k: int|
            0 <= k < rest.len() ==> prostar::cs_rank(fold_combine(acc, rest).charge_state)
                >= prostar::cs_rank((#[trigger] rest[k]).charge_state),
        forall|k: int|
            0 <= k < rest.len() ==> prostar::ls_rank(fold_combine(acc, rest).load_state)
                >= prostar::ls_rank((#[trigger] rest[k]).load_state),
{
    let f_timestamp = |s: prostar::Stats| s.timestamp as int;
    assert forall|a: prostar::Stats, b: prostar::Stats|
        f_timestamp(#[trigger] prostar::combine(a, b)) >= f_timestamp(a) && f_timestamp(prostar::combine(a, b))
            >= f_timestamp(b) by {
        prostar::lemma_combine_bounds(a, b);
    }
    lemma_fold_combine_upper(f_timestamp, acc, rest);
    let f_heatsink_temperature = |s: prostar::Stats| s.heatsink_temperature as int;
    assert forall|a: prostar::Stats, b: prostar::Stats|
        f_heatsink_temperature(#[trigger] prostar::combine(a, b)) >= f_heatsink_temperature(a) && f_heatsink_temperature(prostar::combine(a, b))
            >= f_heatsink_temperature(b) by {
        prostar::lemma_combine_bounds(a, b);
    }
    lemma_fold_combine_upper(f_heatsink_temperature, acc, rest);
    let f_battery_temperature = |s: prostar::Stats| s.battery_temperature as int;
    assert forall|a: prostar::Stats, b: prostar::Stats|
        f_battery_temperature(#[trigger] prostar::combine(a, b)) >= f_battery_temperature(a) && f_battery_temperature(prostar::combine(a, b))
            >= f_battery_temperature(b) by {
        prostar::lemma_combine_bounds(a, b);
    }
    lemma_fold_combine_upper(f_battery_temperature, acc, rest);
    let f_ambient_temperature = |s: prostar::Stats| s.ambient_temperature as int;
    assert forall|a: prostar::Stats, b: prostar::Stats|
        f_ambient_temperature(#[trigger] prostar::combine(a, b)) >= f_ambient_temperature(a) && f_ambient_temperature(prostar::combine(a, b))
            >= f_ambient_temperature(b) by {
        prostar::lemma_combine_bounds(a, b);
    }
    lemma_fold_combine_upper(f_ambient_temperature, acc, rest);
    let f_u_inductor_temperature = |s: prostar::Stats| s.u_inductor_temperature as int;
    assert forall|a: prostar::Stats, b: prostar::Stats|
        f_u_inductor_temperature(#[trigger] prostar::combine(a, b)) >= f_u_inductor_temperature(a) && f_u_inductor_temperature(prostar::combine(a, b))
            >= f_u_inductor_temperature(b) by {
        prostar::lemma_combine_bounds(a, b);
    }
    lemma_fold_combine_upper(f_u_inductor_temperature, acc, rest);
    let f_v_inductor_temperature = |s: prostar::Stats| s.v_inductor_temperature as int;
    assert forall|a: prostar::Stats, b: prostar::Stats|
        f_v_inductor_temperature(#[trigger] prostar::combine(a, b)) >= f_v_inductor_temperature(a) && f_v_inductor_temperature(prostar::combine(a, b))
            >= f_v_inductor_temperature(b) by {
        prostar::lemma_combine_bounds(a, b);
    }
    lemma_fold_combine_upper(f_v_inductor_temperature, acc, rest);
    let f_w_inductor_temperature = |s: prostar::Stats| s.w_inductor_temperature as int;
    assert forall|a: prostar::Stats, b: prostar::Stats|
        f_w_inductor_temperature(#[trigger] prostar::combine(a, b)) >= f_w_inductor_temperature(a) && f_w_inductor_temperature(prostar::combine(a, b))
            >= f_w_inductor_temperature(b) by {
        prostar::lemma_combine_bounds(a, b);
    }
    lemma_fold_combine_upper(f_w_inductor_temperature, acc, rest);
    let f_ah_charge_resettable = |s: prostar::Stats| s.ah_charge_resettable as int;
    assert forall|a: prostar::Stats, b: prostar::Stats|
        f_ah_charge_resettable(#[trigger] prostar::combine(a, b)) >= f_ah_charge_resettable(a) && f_ah_charge_resettable(prostar::combine(a, b))
            >= f_ah_charge_resettable(b) by {
        prostar::lemma_combine_bounds(a, b);
    }
    lemma_fold_combine_upper(f_ah_charge_resettable, acc, rest);
    let f_ah_charge_total = |s: prostar::Stats| s.ah_charge_total as int;
    assert forall|a: prostar::Stats, b: prostar::Stats|
        f_ah_charge_total(#[trigger] prostar::combine(a, b)) >= f_ah_charge_total(a) && f_ah_charge_total(prostar::combine(a, b))
            >= f_ah_charge_total(b) by {
        prostar::lemma_combine_bounds(a, b);
    }
    lemma_fold_combine_upper(f_ah_charge_total, acc, rest);
    let f_kwh_charge_resettable = |s: prostar::Stats| s.kwh_charge_resettable as int;
    assert forall|a: prostar::Stats, b: prostar::Stats|
        f_kwh_charge_resettable(#[trigger] prostar::combine(a, b)) >= f_kwh_charge_resettable(a) && f_kwh_charge_resettable(prostar::combine(a, b))
            >= f_kwh_charge_resettable(b) by {
        prostar::lemma_combine_bounds(a, b);
    }
    lemma_fold_combine_upper(f_kwh_charge_resettable, acc, rest);
    let f_kwh_charge_total = |s: prostar::Stats| s.kwh_charge_total as int;
    assert forall|a: prostar::Stats, b: prostar::Stats|
        f_kwh_charge_total(#[trigger] prostar::combine(a, b)) >= f_kwh_charge_total(a) && f_kwh_charge_total(prostar::combine(a, b))
            >= f_kwh_charge_total(b) by {
        prostar::lemma_combine_bounds(a, b);
    }
    lemma_fold_combine_upper(f_kwh_charge_total, acc, rest);
    let f_ah_load_resettable = |s: prostar::Stats| s.ah_load_resettable as int;
    assert forall|a: prostar::Stats, b: prostar::Stats|
        f_ah_load_resettable(#[trigger] prostar::combine(a, b)) >= f_ah_load_resettable(a) && f_ah_load_resettable(prostar::combine(a, b))
            >= f_ah_load_resettable(b) by {
        prostar::lemma_combine_bounds(a, b);
    }
    lemma_fold_combine_upper(f_ah_load_resettable, acc, rest);
    let f_ah_load_total = |s: prostar::Stats| s.ah_load_total as int;
    assert forall|a: prostar::Stats, b: prostar::Stats|
        f_ah_load_total(#[trigger] prostar::combine(a, b)) >= f_ah_load_total(a) && f_ah_load_total(prostar::combine(a, b))
            >= f_ah_load_total(b) by {
        prostar::lemma_combine_bounds(a, b);
    }
    lemma_fold_combine_upper(f_ah_load_total, acc, rest);
    let f_hourmeter = |s: prostar::Stats| s.hourmeter as int;
    assert forall|a: prostar::Stats, b: prostar::Stats|
        f_hourmeter(#[trigger] prostar::combine(a, b)) >= f_hourmeter(a) && f_hourmeter(prostar::combine(a, b))
            >= f_hourmeter(b) by {
        prostar::lemma_combine_bounds(a, b);
    }
    lemma_fold_combine_upper(f_hourmeter, acc, rest);
    let f_battery_v_max_daily = |s: prostar::Stats| s.battery_v_max_daily as int;
    assert forall|a: prostar::Stats, b: prostar::Stats|
        f_battery_v_max_daily(#[trigger] prostar::combine(a, b)) >= f_battery_v_max_daily(a) && f_battery_v_max_daily(prostar::combine(a, b))
            >= f_battery_v_max_daily(b) by {
        prostar::lemma_combine_bounds(a, b);
    }
    lemma_fold_combine_upper(f_battery_v_max_daily, acc, rest);
    let f_ah_charge_daily = |s: prostar::Stats| s.ah_charge_daily as int;
    assert forall|a: prostar::Stats, b: prostar::Stats|
        f_ah_charge_daily(#[trigger] prostar::combine(a, b)) >= f_ah_charge_daily(a) && f_ah_charge_daily(prostar::combine(a, b))
            >= f_ah_charge_daily(b) by {
        prostar::lemma_combine_bounds(a, b);
    }
    lemma_fold_combine_upper(f_ah_charge_daily, acc, rest);
    let f_ah_load_daily = |s: prostar::Stats| s.ah_load_daily as int;
    assert forall|a: prostar::Stats, b: prostar::Stats|
        f_ah_load_daily(#[trigger] prostar::combine(a, b)) >= f_ah_load_daily(a) && f_ah_load_daily(prostar::combine(a, b))
            >= f_ah_load_daily(b) by {
        prostar::lemma_combine_bounds(a, b);
    }
    lemma_fold_combine_upper(f_ah_load_daily, acc, rest);
    let f_array_voltage_max_daily = |s: prostar::Stats| s.array_voltage_max_daily as int;
    assert forall|a: prostar::Stats, b: prostar::Stats|
        f_array_voltage_max_daily(#[trigger] prostar::combine(a, b)) >= f_array_voltage_max_daily(a) && f_array_voltage_max_daily(prostar::combine(a, b))
            >= f_array_voltage_max_daily(b) by {
        prostar::lemma_combine_bounds(a, b);
    }
    lemma_fold_combine_upper(f_array_voltage_max_daily, acc, rest);
    let f_software_version = |s: prostar::Stats| s.software_version as int;
    assert forall|a: prostar::Stats, b: prostar::Stats|
        f_software_version(#[trigger] prostar::combine(a, b)) >= f_software_version(a) && f_software_version(prostar::combine(a, b))
            >= f_software_version(b) by {
        prostar::lemma_combine_bounds(a, b);
    }
    lemma_fold_combine_upper(f_software_version, acc, rest);
    let f_battery_voltage_settings_multiplier = |s: prostar::Stats| s.battery_voltage_settings_multiplier as int;
    assert forall|a: prostar::Stats, b: prostar::Stats|
        f_battery_voltage_settings_multiplier(#[trigger] prostar::combine(a, b)) >= f_battery_voltage_settings_multiplier(a) && f_battery_voltage_settings_multiplier(prostar::combine(a, b))
            >= f_battery_voltage_settings_multiplier(b) by {
        prostar::lemma_combine_bounds(a, b);
    }
    lemma_fold_combine_upper(f_battery_voltage_settings_multiplier, acc, rest);
    let f_array_faults = |s: prostar::Stats| s.array_faults as int;
    assert forall|a: prostar::Stats, b: prostar::Stats|
        f_array_faults(#[trigger] prostar::combine(a, b)) >= f_array_faults(a) && f_array_faults(prostar::combine(a, b))
            >= f_array_faults(b) by {
        prostar::lemma_combine_bounds(a, b);
    }
    lemma_fold_combine_upper(f_array_faults, acc, rest);
    let f_load_faults = |s: prostar::Stats| s.load_faults as int;
    assert forall|a: prostar::Stats, b: prostar::Stats|
        f_load_faults(#[trigger] prostar::combine(a, b)) >= f_load_faults(a) && f_load_faults(prostar::combine(a, b))
            >= f_load_faults(b) by {
        prostar::lemma_combine_bounds(a, b);
    }
    lemma_fold_combine_upper(f_load_faults, acc, rest);
    let f_array_faults_daily = |s: prostar::Stats| s.array_faults_daily as int;
    assert forall|a: prostar::Stats, b: prostar::Stats|
        f_array_faults_daily(#[trigger] prostar::combine(a, b)) >= f_array_faults_daily(a) && f_array_faults_daily(prostar::combine(a, b))
            >= f_array_faults_daily(b) by {
        prostar::lemma_combine_bounds(a, b);
    }
    lemma_fold_combine_upper(f_array_faults_daily, acc, rest);
    let f_load_faults_daily = |s: prostar::Stats| s.load_faults_daily as int;
    assert forall|a: prostar::Stats, b: prostar::Stats|
        f_load_faults_daily(#[trigger] prostar::combine(a, b)) >= f_load_faults_daily(a) && f_load_faults_daily(prostar::combine(a, b))
            >= f_load_faults_daily(b) by {
        prostar::lemma_combine_bounds(a, b);
    }
    lemma_fold_combine_upper(f_load_faults_daily, acc, rest);
    let f_alarms = |s: prostar::Stats| s.alarms as int;
    assert forall|a: prostar::Stats, b: prostar::Stats|
        f_alarms(#[trigger] prostar::combine(a, b)) >= f_alarms(a) && f_alarms(prostar::combine(a, b))
            >= f_alarms(b) by {
        prostar::lemma_combine_bounds(a, b);
    }
    lemma_fold_combine_upper(f_alarms, acc, rest);
    let f_alarms_daily = |s: prostar::Stats| s.alarms_daily as int;
    assert forall|a: prostar::Stats, b: prostar::Stats|
        f_alarms_daily(#[trigger] prostar::combine(a, b)) >= f_alarms_daily(a) && f_alarms_daily(prostar::combine(a, b))
            >= f_alarms_daily(b) by {
        prostar::lemma_combine_bounds(a, b);
    }
    lemma_fold_combine_upper(f_alarms_daily, acc, rest);
    let f_battery_v_min_daily = |s: prostar::Stats| s.battery_v_min_daily as int;
    assert forall|a: prostar::Stats, b: prostar::Stats|
        f_battery_v_min_daily(#[trigger] prostar::combine(a, b)) <= f_battery_v_min_daily(a) && f_battery_v_min_daily(prostar::combine(a, b))
            <= f_battery_v_min_daily(b) by {
        prostar::lemma_combine_bounds(a, b);
    }
    lemma_fold_combine_lower(f_battery_v_min_daily, acc, rest);
    let f_charge_state = |s: prostar::Stats| prostar::cs_rank(s.charge_state);
    assert forall|a: prostar::Stats, b: prostar::Stats|
        f_charge_state(#[trigger] prostar::combine(a, b)) >= f_charge_state(a) && f_charge_state(prostar::combine(a, b))
            >= f_charge_state(b) by {
        prostar::lemma_combine_bounds(a, b);
    }
    lemma_fold_combine_upper(f_charge_state, acc, rest);
    let f_load_state = |s: prostar::Stats| prostar::ls_rank(s.load_state);
    assert forall|a: prostar::Stats, b: prostar::Stats|
        f_load_state(#[trigger] prostar::combine(a, b)) >= f_load_state(a) && f_load_state(prostar::combine(a, b))
            >= f_load_state(b) by {
        prostar::lemma_combine_bounds(a, b);
    }
    lemma_fold_combine_upper(f_load_state, acc, rest);
}

} // verus!
