//! The relay safety manager: four relay channels, three of them in named
//! roles, and the ordering policy that keeps the DC/DC converter alive.
//!
//! Every operation is a decision: it updates the commanded relay state and
//! hands back the exact sequence of relay flips and settle delays to
//! perform, in order. The binary walks that plan against the hardware. The
//! hard rule, proved over every prefix of every plan: the MASTER relay is
//! never commanded high while both BATTERY and SOLAR are low.

use vstd::prelude::*;

verus! {

/// The four relay channels, named for their position on the relay board.
#[derive(Debug, Clone, Copy, PartialEq, Eq, Structural)]
pub enum Relay {
    R0,
    R1,
    R2,
    R3,
}

impl Relay {
    /// The BCM pin number each relay channel is wired to.
    pub fn pin(self) -> (p: u8)
        ensures
            p == self.pin_spec(),
    {
        match self {
            Relay::R0 => 26,
            Relay::R1 => 19,
            Relay::R2 => 13,
            Relay::R3 => 6,
        }
    }

    pub open spec fn pin_spec(self) -> u8 {
        match self {
            Relay::R0 => 26u8,
            Relay::R1 => 19u8,
            Relay::R2 => 13u8,
            Relay::R3 => 6u8,
        }
    }
}

/// The commanded level of each relay channel. The BATTERY contactor is R1,
/// the SOLAR contactor R2, the MASTER converter enable R3; R0 is spare.
#[derive(Debug, Clone, Copy, PartialEq, Eq, Structural)]
pub struct Relays {
    pub r0: bool,
    pub r1: bool,
    pub r2: bool,
    pub r3: bool,
}

/// The commanded level of one channel.
pub open spec fn relay_level(rs: Relays, r: Relay) -> bool {
    match r {
        Relay::R0 => rs.r0,
        Relay::R1 => rs.r1,
        Relay::R2 => rs.r2,
        Relay::R3 => rs.r3,
    }
}

/// One channel driven to a level, the others kept.
pub open spec fn relay_set(rs: Relays, r: Relay, b: bool) -> Relays {
    match r {
        Relay::R0 => Relays { r0: b, ..rs },
        Relay::R1 => Relays { r1: b, ..rs },
        Relay::R2 => Relays { r2: b, ..rs },
        Relay::R3 => Relays { r3: b, ..rs },
    }
}

impl Relays {
    /// All channels low: the safe state the board is acquired in.
    pub fn new() -> (r: Relays)
        ensures
            r == (Relays { r0: false, r1: false, r2: false, r3: false }),
    {
        Relays { r0: false, r1: false, r2: false, r3: false }
    }

    /// The commanded level of one channel.
    pub fn get(&self, r: Relay) -> (b: bool)
        ensures
            b == relay_level(*self, r),
    {
        match r {
            Relay::R0 => self.r0,
            Relay::R1 => self.r1,
            Relay::R2 => self.r2,
            Relay::R3 => self.r3,
        }
    }

    /// Command one channel to a level.
    pub fn set(&mut self, r: Relay, state: bool)
        ensures
            *final(self) == relay_set(*old(self), r, state),
    {
        if state {
            self.on(r);
        } else {
            self.off(r);
        }
    }

    /// Command one channel high.
    pub fn on(&mut self, r: Relay)
        ensures
            *final(self) == relay_set(*old(self), r, true),
    {
        match r {
            Relay::R0 => self.r0 = true,
            Relay::R1 => self.r1 = true,
            Relay::R2 => self.r2 = true,
            Relay::R3 => self.r3 = true,
        }
    }

    /// Command one channel low.
    pub fn off(&mut self, r: Relay)
        ensures
            *final(self) == relay_set(*old(self), r, false),
    {
        match r {
            Relay::R0 => self.r0 = false,
            Relay::R1 => self.r1 = false,
            Relay::R2 => self.r2 = false,
            Relay::R3 => self.r3 = false,
        }
    }
}

/// The settle delay after a relay flip, milliseconds.
pub const DELAY_RELAY_MS: u64 = 500;

/// The delay that lets the charge controller boot after power-up,
/// milliseconds.
pub const DELAY_REBOOT_MS: u64 = 15000;

/// One step of a relay plan: drive a channel, or wait.
#[derive(Debug, Clone, Copy, PartialEq, Eq, Structural)]
pub enum RelayAction {
    Drive(Relay, bool),
    Wait(u64),
}

/// The commanded state after one plan step.
pub open spec fn step(rs: Relays, a: RelayAction) -> Relays {
    match a {
        RelayAction::Drive(r, b) => relay_set(rs, r, b),
        RelayAction::Wait(_) => rs,
    }
}

/// The commanded state after a whole plan.
pub open spec fn run(rs: Relays, plan: Seq<RelayAction>) -> Relays
    decreases plan.len(),
{
    if plan.len() == 0 {
        rs
    } else {
        run(step(rs, plan[0]), plan.skip(1))
    }
}

/// The hard rule: the converter must never be enabled into no load.
/// MASTER (R3) high demands BATTERY (R1) or SOLAR (R2) high.
pub open spec fn safe(rs: Relays) -> bool {
    rs.r3 ==> rs.r1 || rs.r2
}

/// A plan that never passes through an unsafe commanded state: from a safe
/// start, every step lands safe again.
pub open spec fn plan_safe(rs: Relays, plan: Seq<RelayAction>) -> bool
    decreases plan.len(),
{
    safe(rs) && (plan.len() == 0 || plan_safe(step(rs, plan[0]), plan.skip(1)))
}

/// A safe plan lands safe: its final state satisfies the hard rule.
pub proof fn lemma_plan_safe_run(rs: Relays, plan: Seq<RelayAction>)
    requires
        plan_safe(rs, plan),
    ensures
        safe(run(rs, plan)),
    decreases plan.len(),
{
    if plan.len() > 0 {
        lemma_plan_safe_run(step(rs, plan[0]), plan.skip(1));
    }
}

/// A safe plan is safe at every prefix: the hard rule holds at each
/// intermediate commanded state, not only at the end.
pub proof fn lemma_plan_safe_prefixes(rs: Relays, plan: Seq<RelayAction>, k: int)
    requires
        plan_safe(rs, plan),
        0 <= k <= plan.len(),
    ensures
        safe(run(rs, plan.take(k))),
    decreases k,
{
    if k == 0 {
        assert(plan.take(0) =~= Seq::<RelayAction>::empty());
    } else {
        assert(plan.take(k)[0] == plan[0]);
        assert(plan.take(k).skip(1) =~= plan.skip(1).take(k - 1));
        lemma_plan_safe_prefixes(step(rs, plan[0]), plan.skip(1), k - 1);
    }
}

/// The safety manager over the relay board: it owns the commanded state
/// and decides every transition.
pub struct Rpi {
    relays: Relays,
}

impl Rpi {
    /// The commanded relay state.
    pub closed spec fn state(&self) -> Relays {
        self.relays
    }

    /// Acquire the board: all four channels, the spare included, are
    /// commanded low, and the plan drives them low before anything else
    /// runs.
    pub fn new() -> (r: (Rpi, Vec<RelayAction>))
        ensures
            r.0.state() == (Relays { r0: false, r1: false, r2: false, r3: false }),
            r.1@ == seq![
                RelayAction::Drive(Relay::R3, false),
                RelayAction::Drive(Relay::R1, false),
                RelayAction::Drive(Relay::R2, false),
                RelayAction::Drive(Relay::R0, false),
                RelayAction::Wait(DELAY_RELAY_MS),
            ],
            forall|rs0: Relays| plan_safe(step(rs0, #[trigger] r.1@[0]), r.1@.skip(1)),
            forall|rs0: Relays| run(rs0, r.1@) == r.0.state(),
    {
        let plan: Vec<RelayAction> = vec![
            RelayAction::Drive(Relay::R3, false),
            RelayAction::Drive(Relay::R1, false),
            RelayAction::Drive(Relay::R2, false),
            RelayAction::Drive(Relay::R0, false),
            RelayAction::Wait(DELAY_RELAY_MS),
        ];
        let rpi = Rpi { relays: Relays::new() };
        proof {
            assert forall|rs0: Relays| plan_safe(step(rs0, plan@[0]), plan@.skip(1)) by {
                let s1 = step(rs0, plan@[0]);
                assert(plan@.skip(1).len() == 4);
                assert(plan@.skip(1)[0] == plan@[1]);
                assert(plan@.skip(1)[1] == plan@[2]);
                assert(plan@.skip(1)[2] == plan@[3]);
                assert(plan@.skip(1)[3] == plan@[4]);
                lemma_unfold_4(s1, plan@.skip(1));
            }
            assert forall|rs0: Relays| run(rs0, plan@) == rpi.state() by {
                lemma_unfold_5(rs0, plan@);
            }
        }
        (rpi, plan)
    }

    /// Power the converter up: battery contactor first, a settle delay,
    /// then the converter enable, the controller's boot delay, and last
    /// the solar contactor.
    pub fn mpptc_enable(&mut self) -> (plan: Vec<RelayAction>)
        requires
            safe(old(self).state()),
        ensures
            plan@ == seq![
                RelayAction::Drive(Relay::R1, true),
                RelayAction::Wait(DELAY_RELAY_MS),
                RelayAction::Drive(Relay::R3, true),
                RelayAction::Wait(DELAY_REBOOT_MS),
                RelayAction::Drive(Relay::R2, true),
            ],
            final(self).state() == run(old(self).state(), plan@),
            plan_safe(old(self).state(), plan@),
            safe(final(self).state()),
            final(self).state().r1 && final(self).state().r2 && final(self).state().r3,
    {
        let plan: Vec<RelayAction> = vec![
            RelayAction::Drive(Relay::R1, true),
            RelayAction::Wait(DELAY_RELAY_MS),
            RelayAction::Drive(Relay::R3, true),
            RelayAction::Wait(DELAY_REBOOT_MS),
            RelayAction::Drive(Relay::R2, true),
        ];
        self.relays.on(Relay::R1);
        self.relays.on(Relay::R3);
        self.relays.on(Relay::R2);
        proof {
            lemma_unfold_5(old(self).state(), plan@);
        }
        plan
    }

    /// Power the converter down: the converter enable first, a settle and
    /// drain delay, then both contactors.
    pub fn mpptc_disable(&mut self) -> (plan: Vec<RelayAction>)
        requires
            safe(old(self).state()),
        ensures
            plan@ == seq![
                RelayAction::Drive(Relay::R3, false),
                RelayAction::Wait(DELAY_RELAY_MS),
                RelayAction::Drive(Relay::R2, false),
                RelayAction::Drive(Relay::R1, false),
            ],
            final(self).state() == run(old(self).state(), plan@),
            plan_safe(old(self).state(), plan@),
            safe(final(self).state()),
            !final(self).state().r1 && !final(self).state().r2 && !final(self).state().r3,
    {
        let plan: Vec<RelayAction> = vec![
            RelayAction::Drive(Relay::R3, false),
            RelayAction::Wait(DELAY_RELAY_MS),
            RelayAction::Drive(Relay::R2, false),
            RelayAction::Drive(Relay::R1, false),
        ];
        self.relays.off(Relay::R3);
        self.relays.off(Relay::R2);
        self.relays.off(Relay::R1);
        proof {
            lemma_unfold_4(old(self).state(), plan@);
        }
        plan
    }

    /// Power-cycle the converter: the full power-down plan, then the full
    /// power-up plan, suspensions included (two settle delays and the boot
    /// delay).
    pub fn mpptc_reboot(&mut self) -> (plan: Vec<RelayAction>)
        requires
            safe(old(self).state()),
        ensures
            plan@ == seq![
                RelayAction::Drive(Relay::R3, false),
                RelayAction::Wait(DELAY_RELAY_MS),
                RelayAction::Drive(Relay::R2, false),
                RelayAction::Drive(Relay::R1, false),
                RelayAction::Drive(Relay::R1, true),
                RelayAction::Wait(DELAY_RELAY_MS),
                RelayAction::Drive(Relay::R3, true),
                RelayAction::Wait(DELAY_REBOOT_MS),
                RelayAction::Drive(Relay::R2, true),
            ],
            final(self).state() == run(old(self).state(), plan@),
            plan_safe(old(self).state(), plan@),
            safe(final(self).state()),
            final(self).state().r1 && final(self).state().r2 && final(self).state().r3,
    {
        let mut plan = self.mpptc_disable();
        let ghost mid = self.state();
        let ghost p1 = plan@;
        let mut up = self.mpptc_enable();
        let ghost p2 = up@;
        plan.append(&mut up);
        proof {
            lemma_plan_safe_concat(old(self).state(), p1, p2);
            lemma_run_concat(old(self).state(), p1, p2);
            assert(plan@ =~= seq![
                RelayAction::Drive(Relay::R3, false),
                RelayAction::Wait(DELAY_RELAY_MS),
                RelayAction::Drive(Relay::R2, false),
                RelayAction::Drive(Relay::R1, false),
                RelayAction::Drive(Relay::R1, true),
                RelayAction::Wait(DELAY_RELAY_MS),
                RelayAction::Drive(Relay::R3, true),
                RelayAction::Wait(DELAY_REBOOT_MS),
                RelayAction::Drive(Relay::R2, true),
            ]);
        }
        plan
    }

    /// Drive the solar contactor. Enabling is a flip and a settle delay;
    /// disabling first takes the converter enable low when the battery
    /// contactor is already low, so the converter never runs into no load.
    pub fn set_solar(&mut self, b: bool) -> (plan: Vec<RelayAction>)
        requires
            safe(old(self).state()),
        ensures
            final(self).state() == run(old(self).state(), plan@),
            plan_safe(old(self).state(), plan@),
            safe(final(self).state()),
            final(self).state().r2 == b,
            final(self).state().r1 == old(self).state().r1,
            b ==> final(self).state().r3 == old(self).state().r3,
            !b && old(self).state().r1 ==> final(self).state().r3 == old(self).state().r3,
            !b && !old(self).state().r1 ==> !final(self).state().r3,
            b ==> plan@ == seq![
                RelayAction::Drive(Relay::R2, true),
                RelayAction::Wait(DELAY_RELAY_MS),
            ],
            !b && !old(self).state().r1 ==> plan@ == seq![
                RelayAction::Drive(Relay::R3, false),
                RelayAction::Wait(DELAY_RELAY_MS),
                RelayAction::Drive(Relay::R2, false),
            ],
            !b && old(self).state().r1 ==> plan@ == seq![RelayAction::Drive(Relay::R2, false)],
    {
        if b {
            let plan: Vec<RelayAction> = vec![
                RelayAction::Drive(Relay::R2, true),
                RelayAction::Wait(DELAY_RELAY_MS),
            ];
            self.relays.on(Relay::R2);
            proof {
                lemma_unfold_2(old(self).state(), plan@);
            }
            plan
        } else {
            self.disable_non_master(Relay::R2, Relay::R1)
        }
    }

    /// Drive the battery contactor, with the same rule against running the
    /// converter into no load.
    pub fn set_battery(&mut self, b: bool) -> (plan: Vec<RelayAction>)
        requires
            safe(old(self).state()),
        ensures
            final(self).state() == run(old(self).state(), plan@),
            plan_safe(old(self).state(), plan@),
            safe(final(self).state()),
            final(self).state().r1 == b,
            final(self).state().r2 == old(self).state().r2,
            b ==> final(self).state().r3 == old(self).state().r3,
            !b && old(self).state().r2 ==> final(self).state().r3 == old(self).state().r3,
            !b && !old(self).state().r2 ==> !final(self).state().r3,
            b ==> plan@ == seq![
                RelayAction::Drive(Relay::R1, true),
                RelayAction::Wait(DELAY_RELAY_MS),
            ],
            !b && !old(self).state().r2 ==> plan@ == seq![
                RelayAction::Drive(Relay::R3, false),
                RelayAction::Wait(DELAY_RELAY_MS),
                RelayAction::Drive(Relay::R1, false),
            ],
            !b && old(self).state().r2 ==> plan@ == seq![RelayAction::Drive(Relay::R1, false)],
    {
        if b {
            let plan: Vec<RelayAction> = vec![
                RelayAction::Drive(Relay::R1, true),
                RelayAction::Wait(DELAY_RELAY_MS),
            ];
            self.relays.on(Relay::R1);
            proof {
                lemma_unfold_2(old(self).state(), plan@);
            }
            plan
        } else {
            self.disable_non_master(Relay::R1, Relay::R2)
        }
    }

    /// Take a contactor low. Where the other contactor is already low, the
    /// converter enable goes low first, with a settle and drain delay.
    fn disable_non_master(&mut self, to_disable: Relay, other: Relay) -> (plan: Vec<
        RelayAction,
    >)
        requires
            safe(old(self).state()),
            to_disable == Relay::R1 && other == Relay::R2 || to_disable == Relay::R2 && other
                == Relay::R1,
        ensures
            final(self).state() == run(old(self).state(), plan@),
            plan_safe(old(self).state(), plan@),
            safe(final(self).state()),
            !relay_level(final(self).state(), to_disable),
            relay_level(final(self).state(), other) == relay_level(old(self).state(), other),
            relay_level(old(self).state(), other) ==> final(self).state().r3 == old(
                self,
            ).state().r3,
            !relay_level(old(self).state(), other) ==> !final(self).state().r3,
            !relay_level(old(self).state(), other) ==> plan@ == seq![
                RelayAction::Drive(Relay::R3, false),
                RelayAction::Wait(DELAY_RELAY_MS),
                RelayAction::Drive(to_disable, false),
            ],
            relay_level(old(self).state(), other) ==> plan@ == seq![
                RelayAction::Drive(to_disable, false),
            ],
    {
        if !self.relays.get(other) {
            let plan: Vec<RelayAction> = vec![
                RelayAction::Drive(Relay::R3, false),
                RelayAction::Wait(DELAY_RELAY_MS),
                RelayAction::Drive(to_disable, false),
            ];
            self.relays.off(Relay::R3);
            self.relays.off(to_disable);
            proof {
                lemma_unfold_3(old(self).state(), plan@);
            }
            plan
        } else {
            let plan: Vec<RelayAction> = vec![RelayAction::Drive(to_disable, false)];
            self.relays.off(to_disable);
            proof {
                lemma_unfold_1(old(self).state(), plan@);
            }
            plan
        }
    }

    /// Drive the converter enable. Asked high, it goes high only when a
    /// contactor is high; otherwise it is explicitly driven low and the
    /// call reports that. Asked low, it always goes low. The result is the
    /// level the relay was left at.
    pub fn set_master(&mut self, b: bool) -> (r: (bool, Vec<RelayAction>))
        requires
            safe(old(self).state()),
        ensures
            final(self).state() == run(old(self).state(), r.1@),
            plan_safe(old(self).state(), r.1@),
            safe(final(self).state()),
            r.0 == final(self).state().r3,
            final(self).state().r1 == old(self).state().r1,
            final(self).state().r2 == old(self).state().r2,
            r.0 == (b && (old(self).state().r1 || old(self).state().r2)),
            b && (old(self).state().r1 || old(self).state().r2) ==> r.1@ == seq![
                RelayAction::Drive(Relay::R3, true),
            ],
            b && !old(self).state().r1 && !old(self).state().r2 ==> !r.0 && r.1@ == seq![
                RelayAction::Drive(Relay::R3, false),
            ],
            !b ==> r.1@ == seq![RelayAction::Drive(Relay::R3, false)],
    {
        if b && (self.relays.get(Relay::R1) || self.relays.get(Relay::R2)) {
            let plan: Vec<RelayAction> = vec![RelayAction::Drive(Relay::R3, true)];
            self.relays.on(Relay::R3);
            proof {
                lemma_unfold_1(old(self).state(), plan@);
            }
            (true, plan)
        } else {
            let plan: Vec<RelayAction> = vec![RelayAction::Drive(Relay::R3, false)];
            self.relays.off(Relay::R3);
            proof {
                lemma_unfold_1(old(self).state(), plan@);
            }
            (false, plan)
        }
    }

    /// The commanded solar contactor level.
    pub fn solar(&self) -> (r: bool)
        ensures
            r == self.state().r2,
    {
        self.relays.get(Relay::R2)
    }

    /// The commanded battery contactor level.
    pub fn battery(&self) -> (r: bool)
        ensures
            r == self.state().r1,
    {
        self.relays.get(Relay::R1)
    }

    /// The commanded converter enable level.
    pub fn master(&self) -> (r: bool)
        ensures
            r == self.state().r3,
    {
        self.relays.get(Relay::R3)
    }
}

proof fn lemma_unfold_1(rs: Relays, plan: Seq<RelayAction>)
    requires
        plan.len() == 1,
    ensures
        run(rs, plan) == step(rs, plan[0]),
        plan_safe(rs, plan) == (safe(rs) && safe(step(rs, plan[0]))),
{
    let s1 = step(rs, plan[0]);
    assert(plan.skip(1).len() == 0);
    assert(run(rs, plan) == run(s1, plan.skip(1)));
    assert(run(s1, plan.skip(1)) == s1);
    assert(plan_safe(rs, plan) == (safe(rs) && plan_safe(s1, plan.skip(1))));
    assert(plan_safe(s1, plan.skip(1)) == safe(s1));
}

proof fn lemma_unfold_2(rs: Relays, plan: Seq<RelayAction>)
    requires
        plan.len() == 2,
    ensures
        run(rs, plan) == step(step(rs, plan[0]), plan[1]),
        plan_safe(rs, plan) == (safe(rs) && safe(step(rs, plan[0])) && safe(
            step(step(rs, plan[0]), plan[1]),
        )),
{
    assert(plan.skip(1)[0] == plan[1]);
    let s1 = step(rs, plan[0]);
    lemma_unfold_1(s1, plan.skip(1));
    assert(run(rs, plan) == run(s1, plan.skip(1)));
    assert(plan_safe(rs, plan) == (safe(rs) && plan_safe(s1, plan.skip(1))));
}

proof fn lemma_unfold_3(rs: Relays, plan: Seq<RelayAction>)
    requires
        plan.len() == 3,
    ensures
        run(rs, plan) == step(step(step(rs, plan[0]), plan[1]), plan[2]),
        plan_safe(rs, plan) == (safe(rs) && safe(step(rs, plan[0])) && safe(
            step(step(rs, plan[0]), plan[1]),
        ) && safe(step(step(step(rs, plan[0]), plan[1]), plan[2]))),
{
    assert(plan.skip(1)[0] == plan[1]);
    assert(plan.skip(1)[1] == plan[2]);
    let s1 = step(rs, plan[0]);
    lemma_unfold_2(s1, plan.skip(1));
    assert(run(rs, plan) == run(s1, plan.skip(1)));
    assert(plan_safe(rs, plan) == (safe(rs) && plan_safe(s1, plan.skip(1))));
}

proof fn lemma_unfold_4(rs: Relays, plan: Seq<RelayAction>)
    requires
        plan.len() == 4,
    ensures
        run(rs, plan) == step(step(step(step(rs, plan[0]), plan[1]), plan[2]), plan[3]),
        plan_safe(rs, plan) == (safe(rs) && safe(step(rs, plan[0])) && safe(
            step(step(rs, plan[0]), plan[1]),
        ) && safe(step(step(step(rs, plan[0]), plan[1]), plan[2])) && safe(
            step(step(step(step(rs, plan[0]), plan[1]), plan[2]), plan[3]),
        )),
{
    assert(plan.skip(1)[0] == plan[1]);
    assert(plan.skip(1)[1] == plan[2]);
    assert(plan.skip(1)[2] == plan[3]);
    let s1 = step(rs, plan[0]);
    lemma_unfold_3(s1, plan.skip(1));
    assert(run(rs, plan) == run(s1, plan.skip(1)));
    assert(plan_safe(rs, plan) == (safe(rs) && plan_safe(s1, plan.skip(1))));
}

proof fn lemma_unfold_5(rs: Relays, plan: Seq<RelayAction>)
    requires
        plan.len() == 5,
    ensures
        run(rs, plan) == step(
            step(step(step(step(rs, plan[0]), plan[1]), plan[2]), plan[3]),
            plan[4],
        ),
        plan_safe(rs, plan) == (safe(rs) && safe(step(rs, plan[0])) && safe(
            step(step(rs, plan[0]), plan[1]),
        ) && safe(step(step(step(rs, plan[0]), plan[1]), plan[2])) && safe(
            step(step(step(step(rs, plan[0]), plan[1]), plan[2]), plan[3]),
        ) && safe(step(step(step(step(step(rs, plan[0]), plan[1]), plan[2]), plan[3]), plan[4]))),
{
    assert(plan.skip(1)[0] == plan[1]);
    assert(plan.skip(1)[1] == plan[2]);
    assert(plan.skip(1)[2] == plan[3]);
    assert(plan.skip(1)[3] == plan[4]);
    let s1 = step(rs, plan[0]);
    lemma_unfold_4(s1, plan.skip(1));
    assert(run(rs, plan) == run(s1, plan.skip(1)));
    assert(plan_safe(rs, plan) == (safe(rs) && plan_safe(s1, plan.skip(1))));
}

/// Safe plans compose: one safe plan followed by another safe plan, picked
/// up where the first left the state, is safe as a whole.
pub proof fn lemma_plan_safe_concat(rs: Relays, p1: Seq<RelayAction>, p2: Seq<RelayAction>)
    requires
        plan_safe(rs, p1),
        plan_safe(run(rs, p1), p2),
    ensures
        plan_safe(rs, p1 + p2),
    decreases p1.len(),
{
    if p1.len() == 0 {
        assert(p1 + p2 =~= p2);
        assert(run(rs, p1) == rs);
    } else {
        assert((p1 + p2)[0] == p1[0]);
        assert((p1 + p2).skip(1) =~= p1.skip(1) + p2);
        lemma_plan_safe_concat(step(rs, p1[0]), p1.skip(1), p2);
    }
}

/// Running a concatenation is running the parts in turn.
pub proof fn lemma_run_concat(rs: Relays, p1: Seq<RelayAction>, p2: Seq<RelayAction>)
    ensures
        run(rs, p1 + p2) == run(run(rs, p1), p2),
    decreases p1.len(),
{
    if p1.len() == 0 {
        assert(p1 + p2 =~= p2);
    } else {
        assert((p1 + p2)[0] == p1[0]);
        assert((p1 + p2).skip(1) =~= p1.skip(1) + p2);
        lemma_run_concat(step(rs, p1[0]), p1.skip(1), p2);
    }
}

} // verus!
