//! The fault-tolerant Modbus session policy: the one-second throttle gate
//! between consecutive serial commands, the retry ladder that escalates a
//! persistent fault to a hardware power-cycle, and the best-effort rule
//! for the reset coil. The binary performs the serial I/O and the sleeps;
//! every decision is made here.

use vstd::prelude::*;
use crate::prostar::Coil;

verus! {

/// The enforced gap between consecutive serial commands, milliseconds.
pub const THROTTLE_MS: u64 = 1000;

/// The retry cap: an operation is attempted this many times in all.
pub const RETRY_CAP: u8 = 4;

/// How long the throttle gate holds a command issued at `now` when the
/// previous command fired at `last`.
pub open spec fn throttle_wait(last: u64, now: u64) -> u64 {
    if now - last < THROTTLE_MS {
        (THROTTLE_MS - (now - last)) as u64
    } else {
        0u64
    }
}

/// The throttle gate: how long to sleep before running a command issued
/// at `now`, and the session's new last-command stamp. The stamp records
/// the instant the command fires, `now + wait`, so every later command is
/// held a full second past it.
pub fn throttle_gate(last: u64, now: u64) -> (r: (u64, u64))
    requires
        last <= now,
        now + THROTTLE_MS <= u64::MAX,
    ensures
        r.0 == throttle_wait(last, now),
        r.1 == now + r.0,
        r.1 >= last + THROTTLE_MS,
{
    let elapsed = now - last;
    if elapsed < THROTTLE_MS {
        (THROTTLE_MS - elapsed, now + (THROTTLE_MS - elapsed))
    } else {
        (0, now)
    }
}

/// Consecutive commands fire at least one second apart, unconditionally:
/// command `a` is issued at `now_a` and fires after its wait; command `b`
/// is issued at `now_b`, at or after `a` fired, against `a`'s recorded
/// fire instant; `b` then fires no sooner than one second after `a` did.
pub proof fn lemma_throttle_spacing(last0: u64, now_a: u64, now_b: u64)
    requires
        last0 <= now_a,
        now_a + throttle_wait(last0, now_a) <= now_b,
        now_a + THROTTLE_MS <= u64::MAX,
        now_b + THROTTLE_MS <= u64::MAX,
    ensures
        ({
            let fire_a = now_a + throttle_wait(last0, now_a);
            now_b + throttle_wait(fire_a as u64, now_b) >= fire_a + THROTTLE_MS
        }),
{
}

/// What the session does after one attempt of a command, following the
/// ladder: a success is the result; early failures get a cheap one-second
/// pause and a fresh session; the third failure escalates to a hardware
/// power-cycle of the controller; at the cap the error surfaces.
#[derive(Debug, Clone, Copy, PartialEq, Eq, Structural)]
pub enum RetryDecision {
    Done,
    Surface,
    SleepAndReopen,
    RebootAndReopen,
}

/// The ladder's decision after an attempt with `tries` failures counted
/// before it, and the new count. A power-cycle counts twice, so the next
/// failed attempt is the last.
pub open spec fn retry_next_spec(tries: u8, failed: bool) -> (RetryDecision, u8) {
    if !failed {
        (RetryDecision::Done, tries)
    } else if tries + 1 >= RETRY_CAP {
        (RetryDecision::Surface, (tries + 1) as u8)
    } else if tries + 1 >= 3 {
        (RetryDecision::RebootAndReopen, (tries + 2) as u8)
    } else {
        (RetryDecision::SleepAndReopen, (tries + 1) as u8)
    }
}

/// One rung of the retry ladder.
pub fn retry_next(tries: u8, failed: bool) -> (r: (RetryDecision, u8))
    requires
        tries <= 250,
    ensures
        r == retry_next_spec(tries, failed),
{
    if !failed {
        (RetryDecision::Done, tries)
    } else if tries + 1 >= RETRY_CAP {
        (RetryDecision::Surface, tries + 1)
    } else if tries + 1 >= 3 {
        (RetryDecision::RebootAndReopen, tries + 2)
    } else {
        (RetryDecision::SleepAndReopen, tries + 1)
    }
}

/// The whole ladder run against a sequence of attempt outcomes (true for
/// a successful attempt): whether the operation succeeded, how many
/// attempts ran, and how many hardware power-cycles were performed.
/// Nothing is returned when the outcome sequence ends mid-ladder.
pub open spec fn run_retry_from(
    outcomes: Seq<bool>,
    tries: u8,
    attempts: nat,
    reboots: nat,
) -> Option<(bool, nat, nat)>
    decreases outcomes.len(),
{
    if outcomes.len() == 0 {
        None
    } else {
        let d = retry_next_spec(tries, !outcomes[0]);
        if d.0 == RetryDecision::Done {
            Some((true, attempts + 1, reboots))
        } else if d.0 == RetryDecision::Surface {
            Some((false, attempts + 1, reboots))
        } else if d.0 == RetryDecision::RebootAndReopen {
            run_retry_from(outcomes.skip(1), d.1, attempts + 1, reboots + 1)
        } else {
            run_retry_from(outcomes.skip(1), d.1, attempts + 1, reboots)
        }
    }
}

/// The ladder from its start.
pub open spec fn run_retry(outcomes: Seq<bool>) -> Option<(bool, nat, nat)> {
    run_retry_from(outcomes, 0, 0, 0)
}

/// Run the ladder against recorded attempt outcomes, exactly as `run_retry`
/// has them: the result, the attempt count, and the power-cycle count.
pub fn eval_ladder(outcomes: &Vec<bool>) -> (r: Option<(bool, u8, u8)>)
    ensures
        match r {
            Some((ok, attempts, reboots)) => run_retry(outcomes@) == Some((
                ok,
                attempts as nat,
                reboots as nat,
            )),
            None => run_retry(outcomes@) is None,
        },
{
    let mut i: usize = 0;
    let mut tries: u8 = 0;
    let mut attempts: u8 = 0;
    let mut reboots: u8 = 0;
    proof {
        assert(outcomes@.skip(0) =~= outcomes@);
    }
    loop
        invariant
            0 <= i <= outcomes@.len(),
            i == 0 && tries == 0 || i == 1 && tries == 1 || i == 2 && tries == 2 || i == 3
                && tries == 4,
            attempts as int == i,
            i <= 2 ==> reboots == 0,
            i == 3 ==> reboots == 1,
            run_retry(outcomes@) == run_retry_from(
                outcomes@.skip(i as int),
                tries,
                attempts as nat,
                reboots as nat,
            ),
        decreases outcomes@.len() - i,
    {
        if i >= outcomes.len() {
            return None;
        }
        let ok = outcomes[i];
        let (d, t1) = retry_next(tries, !ok);
        proof {
            assert(outcomes@.skip(i as int)[0] == outcomes@[i as int]);
            assert(outcomes@.skip(i as int).skip(1) =~= outcomes@.skip(i as int + 1));
        }
        match d {
            RetryDecision::Done => {
                return Some((true, attempts + 1, reboots));
            }
            RetryDecision::Surface => {
                return Some((false, attempts + 1, reboots));
            }
            RetryDecision::RebootAndReopen => {
                reboots = reboots + 1;
                tries = t1;
                attempts = attempts + 1;
                i = i + 1;
            }
            RetryDecision::SleepAndReopen => {
                tries = t1;
                attempts = attempts + 1;
                i = i + 1;
            }
        }
    }
}

/// An operation that fails three times and succeeds on its fourth attempt
/// returns its result, after exactly one hardware power-cycle.
pub proof fn lemma_retry_success_on_fourth(outcomes: Seq<bool>)
    requires
        outcomes.len() >= 4,
        !outcomes[0],
        !outcomes[1],
        !outcomes[2],
        outcomes[3],
    ensures
        run_retry(outcomes) == Some((true, 4nat, 1nat)),
{
    let o1 = outcomes.skip(1);
    let o2 = outcomes.skip(2);
    let o3 = outcomes.skip(3);
    assert(o1[0] == outcomes[1]);
    assert(o2[0] == outcomes[2]);
    assert(o3[0] == outcomes[3]);
    assert(o1.skip(1) =~= o2);
    assert(o2.skip(1) =~= o3);
    assert(run_retry_from(outcomes, 0, 0, 0) == run_retry_from(o1, 1, 1, 0));
    assert(run_retry_from(o1, 1, 1, 0) == run_retry_from(o2, 2, 2, 0));
    assert(run_retry_from(o2, 2, 2, 0) == run_retry_from(o3, 4, 3, 1));
    assert(run_retry_from(o3, 4, 3, 1) == Some((true, 4nat, 1nat)));
}

/// An operation whose four attempts all fail surfaces the error, after
/// exactly one hardware power-cycle.
pub proof fn lemma_retry_all_fail(outcomes: Seq<bool>)
    requires
        outcomes.len() >= 4,
        !outcomes[0],
        !outcomes[1],
        !outcomes[2],
        !outcomes[3],
    ensures
        run_retry(outcomes) == Some((false, 4nat, 1nat)),
{
    let o1 = outcomes.skip(1);
    let o2 = outcomes.skip(2);
    let o3 = outcomes.skip(3);
    assert(o1[0] == outcomes[1]);
    assert(o2[0] == outcomes[2]);
    assert(o3[0] == outcomes[3]);
    assert(o1.skip(1) =~= o2);
    assert(o2.skip(1) =~= o3);
    assert(run_retry_from(outcomes, 0, 0, 0) == run_retry_from(o1, 1, 1, 0));
    assert(run_retry_from(o1, 1, 1, 0) == run_retry_from(o2, 2, 2, 0));
    assert(run_retry_from(o2, 2, 2, 0) == run_retry_from(o3, 4, 3, 1));
    assert(run_retry_from(o3, 4, 3, 1) == Some((false, 4nat, 1nat)));
}

/// Writing the reset coil high never waits for a reply: the controller
/// resets before it can answer, so that write is issued once, best-effort,
/// and reported as done. Every other coil write runs the retry ladder.
pub fn coil_write_best_effort(coil: Coil, bit: bool) -> (r: bool)
    ensures
        r == (coil == Coil::ResetControl && bit),
{
    match coil {
        Coil::ResetControl => bit,
        _ => false,
    }
}

} // verus!
