use vstd::prelude::*;
use crate::rng::{Pcg32, range_draw, range_drawn};
use crate::zulrah::{
    Form, Return, Rot, Zulrah, ZulrahView, initial_spec, inv, step_spec,
};

verus! {

/// Accuracy values are fractions of this scale: an accuracy of
/// `ACCURACY_SCALE` is a certain hit, an accuracy of zero a certain miss.
pub const ACCURACY_SCALE: u32 = 10000;

/// One loadout's damage characteristics against one combat form: attack
/// cadence in ticks, hit probability in parts of `ACCURACY_SCALE`, and the
/// largest single hit it can deal.
#[derive(Debug, Clone, Copy, PartialEq, Eq, Structural)]
pub struct DPS {
    pub ticks: u16,
    pub max_hit: u16,
    pub acc: u32,
    /// An optional policy variant, off by default: a drawn hit above 50 is
    /// re-rolled uniformly within [45, 50].
    pub reroll_cap: bool,
}

/// What one attack roll produced: a miss, or a hit for the drawn damage.
/// A hit for zero damage is a hit, not a miss.
#[derive(Debug, Clone, Copy, PartialEq, Eq, Structural)]
pub enum RollOutcome {
    Miss,
    Hit(u16),
}

/// The damage a roll outcome deals: a miss deals zero.
pub open spec fn outcome_damage(o: RollOutcome) -> u16 {
    match o {
        RollOutcome::Miss => 0,
        RollOutcome::Hit(h) => h,
    }
}

/// The outcome of one attack roll and the generator state it leaves behind:
/// one accuracy draw decides hit or miss; a hit then draws its damage
/// uniformly from [0, max_hit], re-rolled into [45, 50] under the optional
/// cap rule.
pub open spec fn roll_spec(d: DPS, g: Pcg32) -> (RollOutcome, Pcg32) {
    let acc_draw = range_drawn(0u32, (ACCURACY_SCALE - 1) as u32, g.state, g.inc);
    let g1 = Pcg32 { state: acc_draw.1, inc: g.inc };
    if acc_draw.0 < d.acc {
        let hit_draw = range_drawn(0u32, d.max_hit as u32, g1.state, g1.inc);
        let g2 = Pcg32 { state: hit_draw.1, inc: g.inc };
        if d.reroll_cap && hit_draw.0 > 50 {
            let re_draw = range_drawn(45u32, 50u32, g2.state, g2.inc);
            (RollOutcome::Hit(re_draw.0 as u16), Pcg32 { state: re_draw.1, inc: g.inc })
        } else {
            (RollOutcome::Hit(hit_draw.0 as u16), g2)
        }
    } else {
        (RollOutcome::Miss, g1)
    }
}

impl DPS {
    /// A profile with the given cadence, maximum hit and accuracy, the
    /// re-roll cap off. The cadence is positive and the accuracy a
    /// probability: at most `ACCURACY_SCALE`.
    pub fn new(ticks: u16, max_hit: u16, acc: u32) -> (d: DPS)
        requires
            1 <= ticks,
            acc <= ACCURACY_SCALE,
        ensures
            d == (DPS { ticks, max_hit, acc, reroll_cap: false }),
    {
        DPS { ticks, max_hit, acc, reroll_cap: false }
    }

    /// The same profile with the re-roll cap turned on.
    pub fn with_reroll_cap(self) -> (d: DPS)
        ensures
            d == (DPS {
                ticks: self.ticks,
                max_hit: self.max_hit,
                acc: self.acc,
                reroll_cap: true,
            }),
    {
        DPS { ticks: self.ticks, max_hit: self.max_hit, acc: self.acc, reroll_cap: true }
    }

    /// The expected damage of one attack, truncated to whole hitpoints: half
    /// the maximum hit, scaled by the hit probability.
    pub fn average_hit(&self) -> (a: u16)
        requires
            self.acc <= ACCURACY_SCALE,
        ensures
            a == (self.max_hit as int * self.acc as int) / (2 * ACCURACY_SCALE as int),
    {
        proof {
            assert(self.max_hit as int * self.acc as int <= 65535 * 10000) by (nonlinear_arith)
                requires
                    self.max_hit <= 65535,
                    self.acc <= 10000,
            ;
            assert(self.max_hit as int * self.acc as int >= 0) by (nonlinear_arith)
                requires
                    self.max_hit >= 0,
                    self.acc >= 0,
            ;
        }
        let scaled = self.max_hit as u64 * self.acc as u64;
        (scaled / (2 * ACCURACY_SCALE as u64)) as u16
    }

    /// One attack roll, advancing the generator: an accuracy of zero can
    /// never produce a hit, a full accuracy can never produce a miss, and
    /// with the re-roll cap off a hit never exceeds the maximum hit.
    pub fn roll(&self, g: &mut Pcg32) -> (o: RollOutcome)
        requires
            old(g).inc & 1 == 1,
        ensures
            (o, *final(g)) == roll_spec(*self, *old(g)),
            final(g).inc == old(g).inc,
            self.acc == 0 ==> o is Miss,
            self.acc >= ACCURACY_SCALE ==> o is Hit,
            !self.reroll_cap ==> (o matches RollOutcome::Hit(h) ==> h <= self.max_hit),
            o matches RollOutcome::Hit(h) ==> h <= self.max_hit || (45 <= h && h <= 50),
    {
        let draw = range_draw(g, 0, ACCURACY_SCALE - 1);
        if draw < self.acc {
            let hit = range_draw(g, 0, self.max_hit as u32);
            if self.reroll_cap && hit > 50 {
                let re = range_draw(g, 45, 50);
                RollOutcome::Hit(re as u16)
            } else {
                RollOutcome::Hit(hit as u16)
            }
        } else {
            RollOutcome::Miss
        }
    }

    /// One attack roll reduced to the damage it deals: a miss deals zero,
    /// and with the re-roll cap off no hit exceeds the maximum hit.
    pub fn hit(&self, g: &mut Pcg32) -> (dmg: u16)
        requires
            old(g).inc & 1 == 1,
        ensures
            dmg == outcome_damage(roll_spec(*self, *old(g)).0),
            *final(g) == roll_spec(*self, *old(g)).1,
            final(g).inc == old(g).inc,
            self.acc == 0 ==> dmg == 0,
            !self.reroll_cap ==> dmg <= self.max_hit,
            dmg <= self.max_hit || (45 <= dmg && dmg <= 50),
    {
        match self.roll(g) {
            RollOutcome::Miss => 0,
            RollOutcome::Hit(h) => h,
        }
    }
}

/// The three damage profiles a player brings, one per combat form, and the
/// random stream their attack rolls draw from.
#[derive(Debug, Clone, Copy)]
pub struct Player {
    pub green: DPS,
    pub red: DPS,
    pub blue: DPS,
    pub rng_gen: Pcg32,
}

/// The damage profile matching a combat form.
pub open spec fn profile_for(green: DPS, red: DPS, blue: DPS, f: Form) -> DPS {
    match f {
        Form::Serpentine => green,
        Form::Magma => red,
        Form::Tanzanite => blue,
    }
}

/// Attack rolls after which one trial gives up: a defensive bound against a
/// profile that can never land a hit, far above any fight that ends.
pub const TRIAL_STEP_CAP: u64 = 100_000;

/// The most ticks one damage application can add: a full phase duration plus
/// a full inter-phase delay.
const STEP_TICKS_MAX: u64 = 131070;

/// One trial run forward from a state: the encounter and generator it ends
/// with, and whether the boss died before the fuel ran out. Each step rolls
/// the profile matching the current form and applies the damage over that
/// profile's cadence.
pub open spec fn trial_spec(
    green: DPS,
    red: DPS,
    blue: DPS,
    z: ZulrahView,
    g: Pcg32,
    fuel: nat,
) -> (ZulrahView, Pcg32, bool)
    decreases fuel,
{
    if z.hitpoints == 0 {
        (z, g, true)
    } else if fuel == 0 {
        (z, g, false)
    } else {
        let d = profile_for(green, red, blue, z.phase.form);
        let roll = roll_spec(d, g);
        let step = step_spec(z, outcome_damage(roll.0), d.ticks);
        trial_spec(green, red, blue, step.0, roll.1, (fuel - 1) as nat)
    }
}

proof fn lemma_trial_time_bound(green: DPS, red: DPS, blue: DPS, z: ZulrahView, g: Pcg32, fuel: nat)
    ensures
        trial_spec(green, red, blue, z, g, fuel).0.time <= z.time + fuel * STEP_TICKS_MAX,
    decreases fuel,
{
    if z.hitpoints == 0 || fuel == 0 {
    } else {
        let d = profile_for(green, red, blue, z.phase.form);
        let roll = roll_spec(d, g);
        let step = step_spec(z, outcome_damage(roll.0), d.ticks);
        assert(step.0.time <= z.time + STEP_TICKS_MAX);
        lemma_trial_time_bound(green, red, blue, step.0, roll.1, (fuel - 1) as nat);
        assert(fuel * STEP_TICKS_MAX == (fuel - 1) as nat * STEP_TICKS_MAX + STEP_TICKS_MAX)
            by (nonlinear_arith)
            requires
                fuel >= 1,
        ;
    }
}

/// Drives one fresh encounter for the chosen rotation to completion: rolls
/// the profile matching the current form, applies the damage over that
/// profile's cadence, re-selects the profile after each phase transition and
/// stops at death. Returns the time-to-kill and the finished encounter, or
/// `None` if the defensive step cap ran out first. The result is a function
/// of the player's profiles, the generator state and the rotation alone.
/// The generator's increment must be odd, as `pcg_seed` makes it: only then
/// does every draw terminate.
pub fn test_kill_zulrah(p: &mut Player, rot: Rot) -> (r: Option<(u64, Zulrah)>)
    requires
        old(p).rng_gen.inc & 1 == 1,
    ensures
        final(p).green == old(p).green,
        final(p).red == old(p).red,
        final(p).blue == old(p).blue,
        final(p).rng_gen.inc == old(p).rng_gen.inc,
        ({
            let t = trial_spec(
                old(p).green,
                old(p).red,
                old(p).blue,
                initial_spec(rot),
                old(p).rng_gen,
                TRIAL_STEP_CAP as nat,
            );
            &&& final(p).rng_gen == t.1
            &&& (r is Some <==> t.2)
            &&& match r {
                Some(pair) => {
                    &&& pair.1@ == t.0
                    &&& inv(pair.1@)
                    &&& pair.0 == t.0.time
                    &&& t.0.hitpoints == 0
                },
                None => true,
            }
        }),
{
    let mut z = Zulrah::new_rot(rot);
    let mut steps: u64 = 0;
    loop
        invariant
            inv(z@),
            z@.hitpoints > 0,
            steps <= TRIAL_STEP_CAP,
            z@.time <= STEP_TICKS_MAX * steps,
            p.green == old(p).green,
            p.red == old(p).red,
            p.blue == old(p).blue,
            p.rng_gen.inc == old(p).rng_gen.inc,
            old(p).rng_gen.inc & 1 == 1,
            trial_spec(
                old(p).green,
                old(p).red,
                old(p).blue,
                initial_spec(rot),
                old(p).rng_gen,
                TRIAL_STEP_CAP as nat,
            ) == trial_spec(
                old(p).green,
                old(p).red,
                old(p).blue,
                z@,
                p.rng_gen,
                (TRIAL_STEP_CAP - steps) as nat,
            ),
        decreases TRIAL_STEP_CAP - steps,
    {
        if steps >= TRIAL_STEP_CAP {
            return None;
        }
        let d = match z.form() {
            Form::Serpentine => p.green,
            Form::Magma => p.red,
            Form::Tanzanite => p.blue,
        };
        let ghost z_pre = z@;
        let ghost g_pre = p.rng_gen;
        let ghost fuel_pre = (TRIAL_STEP_CAP - steps) as nat;
        let dmg = d.hit(&mut p.rng_gen);
        let ret = z.damage(dmg, d.ticks);
        steps = steps + 1;
        proof {
            let roll = roll_spec(d, g_pre);
            let step = step_spec(z_pre, outcome_damage(roll.0), d.ticks);
            assert(z@ == step.0);
            assert(p.rng_gen == roll.1);
            assert(trial_spec(
                old(p).green,
                old(p).red,
                old(p).blue,
                z_pre,
                g_pre,
                fuel_pre,
            ) == trial_spec(
                old(p).green,
                old(p).red,
                old(p).blue,
                z@,
                p.rng_gen,
                (fuel_pre - 1) as nat,
            ));
        }
        match ret {
            Return::Dead => {
                let ttk = z.ttk();
                return Some((ttk, z));
            },
            _ => {},
        }
    }
}

/// The end states of `n` consecutive trials of one rotation, each drawing
/// from the generator state the trial before left behind.
pub open spec fn trials_spec(
    green: DPS,
    red: DPS,
    blue: DPS,
    g: Pcg32,
    rot: Rot,
    n: nat,
) -> Seq<(ZulrahView, Pcg32, bool)>
    decreases n,
{
    if n == 0 {
        Seq::empty()
    } else {
        let prev = trials_spec(green, red, blue, g, rot, (n - 1) as nat);
        let gi = if prev.len() == 0 {
            g
        } else {
            prev.last().1
        };
        prev.push(trial_spec(green, red, blue, initial_spec(rot), gi, TRIAL_STEP_CAP as nat))
    }
}

/// Whether every one of the trials ran to a kill before its step cap.
pub open spec fn all_done(s: Seq<(ZulrahView, Pcg32, bool)>) -> bool {
    forall|i: int| 0 <= i < s.len() ==> (#[trigger] s[i]).2
}

/// The elapsed-tick totals of a sequence of trials.
pub open spec fn trial_times(s: Seq<(ZulrahView, Pcg32, bool)>) -> Seq<nat> {
    s.map_values(|t: (ZulrahView, Pcg32, bool)| t.0.time)
}

/// The sum of a sequence of tick totals.
pub open spec fn time_sum(s: Seq<nat>) -> int
    decreases s.len(),
{
    if s.len() == 0 {
        0
    } else {
        time_sum(s.drop_last()) + s.last()
    }
}

/// How many of the tick totals are at or under the threshold.
pub open spec fn count_at_most(s: Seq<nat>, bound: nat) -> int
    decreases s.len(),
{
    if s.len() == 0 {
        0
    } else {
        count_at_most(s.drop_last(), bound) + if s.last() <= bound {
            1int
        } else {
            0int
        }
    }
}

/// Success counts are monotone in the threshold: raising the target time
/// never lowers the count of qualifying trials.
pub proof fn lemma_count_monotone(s: Seq<nat>, t1: nat, t2: nat)
    requires
        t1 <= t2,
    ensures
        count_at_most(s, t1) <= count_at_most(s, t2),
    decreases s.len(),
{
    if s.len() > 0 {
        lemma_count_monotone(s.drop_last(), t1, t2);
    }
}

/// A success count is never negative and never exceeds the trial count.
pub proof fn lemma_count_bounds(s: Seq<nat>, bound: nat)
    ensures
        0 <= count_at_most(s, bound) <= s.len(),
    decreases s.len(),
{
    if s.len() > 0 {
        lemma_count_bounds(s.drop_last(), bound);
    }
}

proof fn lemma_trials_len(green: DPS, red: DPS, blue: DPS, g: Pcg32, rot: Rot, n: nat)
    ensures
        trials_spec(green, red, blue, g, rot, n).len() == n,
    decreases n,
{
    if n > 0 {
        lemma_trials_len(green, red, blue, g, rot, (n - 1) as nat);
    }
}

proof fn lemma_trials_prefix(
    green: DPS,
    red: DPS,
    blue: DPS,
    g: Pcg32,
    rot: Rot,
    m: nat,
    n: nat,
)
    requires
        m <= n,
    ensures
        trials_spec(green, red, blue, g, rot, n).take(m as int) == trials_spec(
            green,
            red,
            blue,
            g,
            rot,
            m,
        ),
        trials_spec(green, red, blue, g, rot, n).len() == n,
    decreases n,
{
    lemma_trials_len(green, red, blue, g, rot, n);
    lemma_trials_len(green, red, blue, g, rot, m);
    if n == 0 {
        assert(trials_spec(green, red, blue, g, rot, n).take(m as int) =~= trials_spec(
            green,
            red,
            blue,
            g,
            rot,
            m,
        ));
    } else if m == n {
        assert(trials_spec(green, red, blue, g, rot, n).take(m as int) =~= trials_spec(
            green,
            red,
            blue,
            g,
            rot,
            m,
        ));
    } else {
        lemma_trials_prefix(green, red, blue, g, rot, m, (n - 1) as nat);
        assert(trials_spec(green, red, blue, g, rot, n).take(m as int) =~= trials_spec(
            green,
            red,
            blue,
            g,
            rot,
            (n - 1) as nat,
        ).take(m as int));
    }
}

proof fn lemma_time_sum_push(s: Seq<nat>, x: nat)
    ensures
        time_sum(s.push(x)) == time_sum(s) + x,
{
    assert(s.push(x).drop_last() =~= s);
}

proof fn lemma_count_push(s: Seq<nat>, x: nat, bound: nat)
    ensures
        count_at_most(s.push(x), bound) == count_at_most(s, bound) + if x <= bound {
            1int
        } else {
            0int
        },
{
    assert(s.push(x).drop_last() =~= s);
}

proof fn lemma_trial_times_push(s: Seq<(ZulrahView, Pcg32, bool)>, e: (ZulrahView, Pcg32, bool))
    ensures
        trial_times(s.push(e)) == trial_times(s).push(e.0.time),
{
    assert(trial_times(s.push(e)) =~= trial_times(s).push(e.0.time));
}

/// The most ticks one capped trial can accumulate.
const TRIAL_TICKS_MAX: u64 = 13_107_000_000;

/// What a batch of trials for one rotation produced: the trial count, the
/// total and the minimum of the observed time-to-kill values, and the fastest
/// trial's full encounter, retained for inspection. The mean is
/// `total_ticks / trials`, left to the presentation layer to format.
pub struct KillStats {
    pub trials: u64,
    pub total_ticks: u64,
    pub fastest: u64,
    pub fastest_kill: Zulrah,
}

/// Runs `trials` independent trials of one rotation, all drawing from the
/// player's stream, and reduces them to their sum and their minimum, keeping
/// the first trial that achieved the minimum. `None` exactly when some trial
/// gave up at the defensive step cap. The minimum asks for at least one
/// trial, and the tick total fits in a `u64` only for this many; the
/// generator's increment must be odd, as `pcg_seed` makes it.
pub fn average_kill_time(p: &mut Player, rot: Rot, trials: u64) -> (r: Option<KillStats>)
    requires
        1 <= trials <= 100_000_000,
        old(p).rng_gen.inc & 1 == 1,
    ensures
        final(p).green == old(p).green,
        final(p).red == old(p).red,
        final(p).blue == old(p).blue,
        final(p).rng_gen.inc == old(p).rng_gen.inc,
        ({
            let s = trials_spec(
                old(p).green,
                old(p).red,
                old(p).blue,
                old(p).rng_gen,
                rot,
                trials as nat,
            );
            match r {
                Some(st) => {
                    &&& all_done(s)
                    &&& final(p).rng_gen == s.last().1
                    &&& st.trials == trials
                    &&& st.total_ticks == time_sum(trial_times(s))
                    &&& forall|i: int| 0 <= i < s.len() ==> st.fastest <= (#[trigger] s[i]).0.time
                    &&& exists|i: int|
                        0 <= i < s.len() && (#[trigger] s[i]).0 == st.fastest_kill@
                            && s[i].0.time == st.fastest
                    &&& st.fastest_kill@.hitpoints == 0
                },
                None => !all_done(s),
            }
        }),
{
    let ghost green = old(p).green;
    let ghost red = old(p).red;
    let ghost blue = old(p).blue;
    let ghost g0 = old(p).rng_gen;
    proof {
        lemma_trials_len(green, red, blue, g0, rot, trials as nat);
    }

    let first = test_kill_zulrah(p, rot);
    proof {
        let e = trial_spec(green, red, blue, initial_spec(rot), g0, TRIAL_STEP_CAP as nat);
        lemma_trial_time_bound(green, red, blue, initial_spec(rot), g0, TRIAL_STEP_CAP as nat);
        assert(trials_spec(green, red, blue, g0, rot, 0nat) == Seq::<(ZulrahView, Pcg32, bool)>::empty());
        assert(trials_spec(green, red, blue, g0, rot, 1nat) == Seq::<(ZulrahView, Pcg32, bool)>::empty().push(e));
        lemma_trials_prefix(green, red, blue, g0, rot, 1nat, trials as nat);
    }
    let (mut total, mut fastest, mut fast_z) = match first {
        Some(pair) => {
            proof {
                let e = trial_spec(green, red, blue, initial_spec(rot), g0, TRIAL_STEP_CAP as nat);
                let s1 = trials_spec(green, red, blue, g0, rot, 1nat);
                lemma_trial_times_push(Seq::<(ZulrahView, Pcg32, bool)>::empty(), e);
                assert(trial_times(Seq::<(ZulrahView, Pcg32, bool)>::empty())
                    =~= Seq::<nat>::empty());
                lemma_time_sum_push(Seq::<nat>::empty(), e.0.time);
                assert(s1[0] == e);
                assert(s1.last() == e);
            }
            (pair.0, pair.0, pair.1)
        },
        None => {
            proof {
                let e = trial_spec(green, red, blue, initial_spec(rot), g0, TRIAL_STEP_CAP as nat);
                let s = trials_spec(green, red, blue, g0, rot, trials as nat);
                assert(s.take(1int)[0] == s[0]);
                assert(s[0] == e);
                assert(!s[0].2);
            }
            return None;
        },
    };
    let mut k: u64 = 1;
    while k < trials
        invariant
            1 <= k <= trials,
            trials <= 100_000_000,
            p.green == green,
            p.red == red,
            p.blue == blue,
            green == old(p).green,
            red == old(p).red,
            blue == old(p).blue,
            g0 == old(p).rng_gen,
            g0.inc & 1 == 1,
            p.rng_gen.inc == g0.inc,
            ({
                let sk = trials_spec(green, red, blue, g0, rot, k as nat);
                &&& sk.len() == k
                &&& all_done(sk)
                &&& p.rng_gen == sk.last().1
                &&& total == time_sum(trial_times(sk))
                &&& total <= k * TRIAL_TICKS_MAX
                &&& fastest <= TRIAL_TICKS_MAX
                &&& forall|i: int| 0 <= i < sk.len() ==> fastest <= (#[trigger] sk[i]).0.time
                &&& exists|i: int|
                    0 <= i < sk.len() && (#[trigger] sk[i]).0 == fast_z@ && sk[i].0.time == fastest
                &&& fast_z@.hitpoints == 0
            }),
        decreases trials - k,
    {
        let ghost sk = trials_spec(green, red, blue, g0, rot, k as nat);
        let ghost gk = p.rng_gen;
        let next = test_kill_zulrah(p, rot);
        proof {
            let e = trial_spec(green, red, blue, initial_spec(rot), gk, TRIAL_STEP_CAP as nat);
            lemma_trials_len(green, red, blue, g0, rot, (k + 1) as nat);
            assert(trials_spec(green, red, blue, g0, rot, (k + 1) as nat) == sk.push(e));
            lemma_trial_time_bound(green, red, blue, initial_spec(rot), gk, TRIAL_STEP_CAP as nat);
            lemma_time_sum_push(trial_times(sk), e.0.time);
            lemma_trial_times_push(sk, e);
            lemma_trials_prefix(green, red, blue, g0, rot, (k + 1) as nat, trials as nat);
        }
        match next {
            Some(pair) => {
                let ghost old_fast = fast_z@;
                let ghost old_fastest = fastest;
                total = total + pair.0;
                if pair.0 < fastest {
                    fastest = pair.0;
                    fast_z = pair.1;
                }
                k = k + 1;
                proof {
                    let e = trial_spec(
                        green,
                        red,
                        blue,
                        initial_spec(rot),
                        gk,
                        TRIAL_STEP_CAP as nat,
                    );
                    let sk1 = trials_spec(green, red, blue, g0, rot, k as nat);
                    assert(sk1 == sk.push(e));
                    assert(sk1.last() == e);
                    assert forall|i: int| 0 <= i < sk1.len() implies (#[trigger] sk1[i]).2
                        && fastest <= sk1[i].0.time by {
                        if i < sk.len() {
                            assert(sk1[i] == sk[i]);
                        } else {
                            assert(sk1[i] == e);
                        }
                    }
                    if pair.0 < old_fastest {
                        assert(sk1[sk.len() as int] == e);
                        assert(0 <= sk.len() < sk1.len() && sk1[sk.len() as int].0 == fast_z@
                            && sk1[sk.len() as int].0.time == fastest);
                    } else {
                        let i0 = choose|i: int|
                            0 <= i < sk.len() && (#[trigger] sk[i]).0 == old_fast
                                && sk[i].0.time == old_fastest;
                        assert(sk1[i0] == sk[i0]);
                        assert(0 <= i0 < sk1.len() && sk1[i0].0 == fast_z@ && sk1[i0].0.time
                            == fastest);
                    }
                }
            },
            None => {
                proof {
                    let e = trial_spec(
                        green,
                        red,
                        blue,
                        initial_spec(rot),
                        gk,
                        TRIAL_STEP_CAP as nat,
                    );
                    let s = trials_spec(green, red, blue, g0, rot, trials as nat);
                    assert(s.take((k + 1) as int)[k as int] == s[k as int]);
                    assert(s[k as int] == sk.push(e)[k as int]);
                    assert(!s[k as int].2);
                }
                return None;
            },
        }
    }
    Some(KillStats { trials, total_ticks: total, fastest, fastest_kill: fast_z })
}

/// Runs `trials` trials of one rotation and counts how many finished at or
/// under `time_to_beat` ticks. `None` exactly when some trial gave up at the
/// defensive step cap. The generator's increment must be odd, as `pcg_seed`
/// makes it.
pub fn beats_time(p: &mut Player, rot: Rot, trials: u64, time_to_beat: u64) -> (r: Option<u64>)
    requires
        old(p).rng_gen.inc & 1 == 1,
    ensures
        final(p).green == old(p).green,
        final(p).red == old(p).red,
        final(p).blue == old(p).blue,
        final(p).rng_gen.inc == old(p).rng_gen.inc,
        ({
            let s = trials_spec(
                old(p).green,
                old(p).red,
                old(p).blue,
                old(p).rng_gen,
                rot,
                trials as nat,
            );
            match r {
                Some(c) => {
                    &&& all_done(s)
                    &&& final(p).rng_gen == (if s.len() == 0 {
                        old(p).rng_gen
                    } else {
                        s.last().1
                    })
                    &&& c == count_at_most(trial_times(s), time_to_beat as nat)
                    &&& c <= trials
                },
                None => !all_done(s),
            }
        }),
{
    let ghost green = old(p).green;
    let ghost red = old(p).red;
    let ghost blue = old(p).blue;
    let ghost g0 = old(p).rng_gen;
    proof {
        lemma_trials_len(green, red, blue, g0, rot, trials as nat);
    }

    proof {
        assert(trial_times(trials_spec(green, red, blue, g0, rot, 0nat)) =~= Seq::<nat>::empty());
    }
    let mut count: u64 = 0;
    let mut k: u64 = 0;
    while k < trials
        invariant
            0 <= k <= trials,
            p.green == green,
            p.red == red,
            p.blue == blue,
            green == old(p).green,
            red == old(p).red,
            blue == old(p).blue,
            g0 == old(p).rng_gen,
            g0.inc & 1 == 1,
            p.rng_gen.inc == g0.inc,
            ({
                let sk = trials_spec(green, red, blue, g0, rot, k as nat);
                &&& sk.len() == k
                &&& all_done(sk)
                &&& p.rng_gen == (if k == 0 {
                    g0
                } else {
                    sk.last().1
                })
                &&& count == count_at_most(trial_times(sk), time_to_beat as nat)
                &&& count <= k
            }),
        decreases trials - k,
    {
        let ghost sk = trials_spec(green, red, blue, g0, rot, k as nat);
        let ghost gk = p.rng_gen;
        let next = test_kill_zulrah(p, rot);
        proof {
            let e = trial_spec(green, red, blue, initial_spec(rot), gk, TRIAL_STEP_CAP as nat);
            lemma_trials_len(green, red, blue, g0, rot, (k + 1) as nat);
            assert(trials_spec(green, red, blue, g0, rot, (k + 1) as nat) == sk.push(e));
            lemma_count_push(trial_times(sk), e.0.time, time_to_beat as nat);
            lemma_trial_times_push(sk, e);
            if k == 0 {
                assert(trial_times(sk) =~= Seq::<nat>::empty());
            }
            lemma_trials_prefix(green, red, blue, g0, rot, (k + 1) as nat, trials as nat);
        }
        match next {
            Some(pair) => {
                if pair.0 <= time_to_beat {
                    count = count + 1;
                }
                k = k + 1;
                proof {
                    let e = trial_spec(
                        green,
                        red,
                        blue,
                        initial_spec(rot),
                        gk,
                        TRIAL_STEP_CAP as nat,
                    );
                    let sk1 = trials_spec(green, red, blue, g0, rot, k as nat);
                    assert(sk1 == sk.push(e));
                    assert(sk1.last() == e);
                    assert forall|i: int| 0 <= i < sk1.len() implies (#[trigger] sk1[i]).2 by {
                        if i < sk.len() {
                            assert(sk1[i] == sk[i]);
                        } else {
                            assert(sk1[i] == e);
                        }
                    }
                }
            },
            None => {
                proof {
                    let e = trial_spec(
                        green,
                        red,
                        blue,
                        initial_spec(rot),
                        gk,
                        TRIAL_STEP_CAP as nat,
                    );
                    let s = trials_spec(green, red, blue, g0, rot, trials as nat);
                    assert(s.take((k + 1) as int)[k as int] == s[k as int]);
                    assert(s[k as int] == sk.push(e)[k as int]);
                    assert(!s[k as int].2);
                }
                return None;
            },
        }
    }
    Some(count)
}

} // verus!
