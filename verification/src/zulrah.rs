use vstd::prelude::*;
use std::collections::VecDeque;
use crate::damage_log::{DamageLog, log_items, log_new, log_push, log_clone, log_to_vec};

verus! {

/// The three combat stances the boss cycles through; each calls for a
/// different damage profile.
#[derive(Debug, Clone, Copy, PartialEq, Eq, Structural)]
pub enum Form {
    Serpentine,
    Magma,
    Tanzanite,
}

/// The boss's spawn point for a phase. Cosmetic: it never influences the
/// fight's arithmetic.
#[derive(Debug, Clone, Copy, PartialEq, Eq, Structural)]
pub enum Location {
    Middle,
    East,
    West,
    South,
}

/// The four fixed scripted patterns an encounter can follow.
#[derive(Debug, Clone, Copy, PartialEq, Eq, Structural)]
pub enum Rot {
    Southgreen,
    Westgreen,
    Eastgreen,
    Eastblue,
}

/// What one damage application did to the encounter: it stayed in the same
/// phase, it moved to the next phase, or it ended the fight.
#[derive(Debug, Clone, Copy, PartialEq, Eq, Structural)]
pub enum Return {
    Alive,
    Dead,
    Phase,
}

/// Ticks consumed travelling between two phases, the same for every
/// transition of every rotation.
pub const INTER_PHASE_DELAY: u16 = 7;

/// Hitpoints every encounter starts with.
pub const STARTING_HITPOINTS: u16 = 500;

/// One stationary sub-fight: a combat form at a spawn point, with a duration
/// budget counted down in ticks and a log of the damage instances received.
pub struct Phase {
    pub form: Form,
    pub loc: Location,
    /// The duration the phase started with.
    pub budget: u16,
    /// The duration still remaining.
    pub time: u16,
    pub damage: DamageLog,
}

/// The mathematical value of a `Phase`.
#[verifier::ext_equal]
pub struct PhaseView {
    pub form: Form,
    pub loc: Location,
    pub budget: u16,
    pub time: u16,
    pub damage: Seq<u16>,
}

impl View for Phase {
    type V = PhaseView;

    open spec fn view(&self) -> PhaseView {
        PhaseView {
            form: self.form,
            loc: self.loc,
            budget: self.budget,
            time: self.time,
            damage: log_items(self.damage),
        }
    }
}

impl Clone for Phase {
    fn clone(&self) -> (r: Self)
        ensures
            r@ == self@,
    {
        Phase {
            form: self.form,
            loc: self.loc,
            budget: self.budget,
            time: self.time,
            damage: log_clone(&self.damage),
        }
    }
}

impl Phase {
    /// The damage instances logged so far, as plain values in order.
    pub fn damage_log(&self) -> (r: Vec<u16>)
        ensures
            r@ == self@.damage,
    {
        log_to_vec(&self.damage)
    }

    /// The total damage logged in this phase.
    pub fn total_damage(&self) -> (t: u64)
        requires
            damage_sum(self@.damage) <= u64::MAX,
        ensures
            t == damage_sum(self@.damage),
    {
        let entries = log_to_vec(&self.damage);
        let mut t: u64 = 0;
        let mut i: usize = 0;
        while i < entries.len()
            invariant
                0 <= i <= entries@.len(),
                entries@ == self@.damage,
                t == damage_sum(self@.damage.take(i as int)),
                damage_sum(self@.damage) <= u64::MAX,
            decreases entries@.len() - i,
        {
            proof {
                lemma_damage_sum_take_step(self@.damage, i as int);
                lemma_damage_sum_take_bound(self@.damage, i + 1);
            }
            t = t + entries[i] as u64;
            i = i + 1;
        }
        proof {
            assert(self@.damage.take(entries@.len() as int) =~= self@.damage);
        }
        t
    }
}

/// The sum of a sequence of damage entries.
pub open spec fn damage_sum(s: Seq<u16>) -> int
    decreases s.len(),
{
    if s.len() == 0 {
        0
    } else {
        damage_sum(s.drop_last()) + s.last()
    }
}

proof fn lemma_damage_sum_take_step(s: Seq<u16>, i: int)
    requires
        0 <= i < s.len(),
    ensures
        damage_sum(s.take(i + 1)) == damage_sum(s.take(i)) + s[i],
{
    assert(s.take(i + 1).drop_last() =~= s.take(i));
    assert(s.take(i + 1).last() == s[i]);
}

proof fn lemma_damage_sum_take_bound(s: Seq<u16>, i: int)
    requires
        0 <= i <= s.len(),
    ensures
        damage_sum(s.take(i)) <= damage_sum(s),
        damage_sum(s.take(i)) >= 0,
    decreases s.len() - i,
{
    lemma_damage_sum_nonneg(s.take(i));
    if i == s.len() {
        assert(s.take(i) =~= s);
    } else {
        lemma_damage_sum_take_step(s, i);
        lemma_damage_sum_take_bound(s, i + 1);
    }
}

proof fn lemma_damage_sum_nonneg(s: Seq<u16>)
    ensures
        damage_sum(s) >= 0,
    decreases s.len(),
{
    if s.len() > 0 {
        lemma_damage_sum_nonneg(s.drop_last());
    }
}

/// A scripted phase template: a fresh phase with its full budget remaining
/// and an empty damage log.
pub open spec fn scripted(form: Form, loc: Location, time: u16) -> PhaseView {
    PhaseView { form, loc, budget: time, time, damage: Seq::<u16>::empty() }
}

/// The fixed opening phase, common to all four rotations.
pub open spec fn opening_phase() -> PhaseView {
    scripted(Form::Serpentine, Location::Middle, 20)
}

/// The scripted phase list of one named rotation, in order. These are the
/// literal script constants; a rotation re-issues exactly this list whenever
/// its queue runs out.
pub open spec fn pattern(name: Rot) -> Seq<PhaseView> {
    match name {
        Rot::Southgreen => seq![
            scripted(Form::Magma, Location::Middle, 14),
            scripted(Form::Tanzanite, Location::Middle, 11),
            scripted(Form::Serpentine, Location::South, 33),
            scripted(Form::Magma, Location::Middle, 16),
            scripted(Form::Tanzanite, Location::West, 14),
            scripted(Form::Serpentine, Location::South, 22),
            scripted(Form::Tanzanite, Location::South, 30),
            scripted(Form::Serpentine, Location::West, 42),
            scripted(Form::Magma, Location::Middle, 15),
            scripted(Form::Serpentine, Location::Middle, 28),
        ],
        Rot::Westgreen => seq![
            scripted(Form::Magma, Location::Middle, 14),
            scripted(Form::Tanzanite, Location::Middle, 11),
            scripted(Form::Serpentine, Location::West, 22),
            scripted(Form::Tanzanite, Location::South, 33),
            scripted(Form::Magma, Location::Middle, 15),
            scripted(Form::Serpentine, Location::East, 14),
            scripted(Form::Tanzanite, Location::South, 30),
            scripted(Form::Serpentine, Location::West, 42),
            scripted(Form::Magma, Location::Middle, 15),
            scripted(Form::Serpentine, Location::Middle, 28),
        ],
        Rot::Eastgreen => seq![
            scripted(Form::Serpentine, Location::East, 24),
            scripted(Form::Magma, Location::Middle, 34),
            scripted(Form::Tanzanite, Location::West, 14),
            scripted(Form::Serpentine, Location::South, 14),
            scripted(Form::Tanzanite, Location::East, 14),
            scripted(Form::Serpentine, Location::Middle, 19),
            scripted(Form::Serpentine, Location::West, 14),
            scripted(Form::Tanzanite, Location::Middle, 28),
            scripted(Form::Serpentine, Location::East, 29),
            scripted(Form::Tanzanite, Location::Middle, 12),
            scripted(Form::Serpentine, Location::Middle, 28),
        ],
        Rot::Eastblue => seq![
            scripted(Form::Tanzanite, Location::East, 30),
            scripted(Form::Serpentine, Location::South, 18),
            scripted(Form::Tanzanite, Location::West, 24),
            scripted(Form::Magma, Location::Middle, 22),
            scripted(Form::Serpentine, Location::East, 11),
            scripted(Form::Serpentine, Location::South, 28),
            scripted(Form::Tanzanite, Location::West, 27),
            scripted(Form::Serpentine, Location::Middle, 14),
            scripted(Form::Tanzanite, Location::Middle, 21),
            scripted(Form::Serpentine, Location::East, 23),
            scripted(Form::Tanzanite, Location::Middle, 12),
            scripted(Form::Serpentine, Location::Middle, 28),
        ],
    }
}

/// A phase that has not started yet: full budget remaining, no damage logged.
pub open spec fn unspent(p: PhaseView) -> bool {
    &&& p.time == p.budget
    &&& p.damage == Seq::<u16>::empty()
}

/// Every scripted pattern is non-empty and consists of unspent phases.
pub proof fn lemma_pattern_props(name: Rot)
    ensures
        10 <= pattern(name).len() <= 12,
        forall|i: int| 0 <= i < pattern(name).len() ==> unspent(#[trigger] pattern(name)[i]),
{
    match name {
        Rot::Southgreen => {
            assert forall|i: int| 0 <= i < pattern(name).len() implies unspent(
                #[trigger] pattern(name)[i],
            ) by {}
        },
        Rot::Westgreen => {
            assert forall|i: int| 0 <= i < pattern(name).len() implies unspent(
                #[trigger] pattern(name)[i],
            ) by {}
        },
        Rot::Eastgreen => {
            assert forall|i: int| 0 <= i < pattern(name).len() implies unspent(
                #[trigger] pattern(name)[i],
            ) by {}
        },
        Rot::Eastblue => {
            assert forall|i: int| 0 <= i < pattern(name).len() implies unspent(
                #[trigger] pattern(name)[i],
            ) by {}
        },
    }
}

/// The views of a sequence of phases.
pub open spec fn phase_views(s: Seq<Phase>) -> Seq<PhaseView> {
    s.map_values(|p: Phase| p@)
}

/// The upcoming queue of phases for one cycle of a named pattern, plus the
/// constant inter-phase delay. When the queue runs out it regenerates the
/// full pattern-specific sequence, so an encounter can outlive one scripted
/// cycle.
pub struct Rotation {
    name: Rot,
    phases: VecDeque<Phase>,
    delay: u16,
}

/// The mathematical value of a `Rotation`.
#[verifier::ext_equal]
pub struct RotationView {
    pub name: Rot,
    pub queue: Seq<PhaseView>,
    pub delay: u16,
}

impl View for Rotation {
    type V = RotationView;

    closed spec fn view(&self) -> RotationView {
        RotationView { name: self.name, queue: phase_views(self.phases@), delay: self.delay }
    }
}

/// What pulling the next phase from a rotation yields: the head of the queue,
/// or, when the queue is exhausted, the head of the freshly regenerated
/// pattern. The second component is the queue left behind.
pub open spec fn rot_next_spec(r: RotationView) -> (PhaseView, Seq<PhaseView>) {
    if r.queue.len() > 0 {
        (r.queue[0], r.queue.skip(1))
    } else {
        (pattern(r.name)[0], pattern(r.name).skip(1))
    }
}

/// Regeneration is a function of the rotation's name alone: any two exhausted
/// rotations following the same named pattern re-issue the same ordered phase
/// sequence, the one `pattern` gives.
pub proof fn lemma_regeneration_deterministic(r1: RotationView, r2: RotationView)
    requires
        r1.name == r2.name,
        r1.queue.len() == 0,
        r2.queue.len() == 0,
    ensures
        rot_next_spec(r1) == rot_next_spec(r2),
        rot_next_spec(r1).1 == pattern(r1.name).skip(1),
{
}

impl Rotation {
    /// Builds the timeline for one named pattern: the fixed opening phase
    /// followed by that pattern's scripted list.
    pub fn new(rot: Rot) -> (r: Rotation)
        ensures
            r@.name == rot,
            r@.delay == INTER_PHASE_DELAY,
            r@.queue == seq![opening_phase()] + pattern(rot),
    {
        let mut phases: VecDeque<Phase> = VecDeque::new();

        phases.push_back(
            Phase {
                form: Form::Serpentine,
                loc: Location::Middle,
                budget: 20,
                time: 20,
                damage: log_new(),
            },
        );
        proof {
            assert(phase_views(phases@) =~= seq![opening_phase()]);
        }

        Rotation::add_phases(&rot, &mut phases);
        Rotation { name: rot, phases, delay: INTER_PHASE_DELAY }
    }

    /// Appends the named pattern's full scripted phase list to the queue.
    pub fn add_phases(rot: &Rot, phases: &mut VecDeque<Phase>)
        ensures
            phase_views(final(phases)@) == phase_views(old(phases)@) + pattern(*rot),
    {
        match *rot {
            Rot::Southgreen => Rotation::south_green(phases),
            Rot::Westgreen => Rotation::west_green(phases),
            Rot::Eastgreen => Rotation::east_green(phases),
            Rot::Eastblue => Rotation::east_blue(phases),
        }
    }

    /// Dequeues and returns the next phase; when the queue is empty, the full
    /// pattern-specific sequence is regenerated first, identical to the
    /// original, so a phase is always returned.
    pub fn next_phase(&mut self) -> (p: Phase)
        ensures
            final(self)@.name == old(self)@.name,
            final(self)@.delay == old(self)@.delay,
            p@ == rot_next_spec(old(self)@).0,
            final(self)@.queue == rot_next_spec(old(self)@).1,
    {
        let phase = self.phases.pop_front();
        match phase {
            Some(phase) => {
                proof {
                    assert(phase_views(self.phases@) =~= phase_views(old(self).phases@).skip(1));
                }
                phase
            },
            None => {
                proof {
                    assert(phase_views(self.phases@) =~= Seq::<PhaseView>::empty());
                    lemma_pattern_props(self.name);
                }
                let name = self.name;
                Rotation::add_phases(&name, &mut self.phases);
                let p2 = self.phases.pop_front();
                match p2 {
                    Some(p2) => {
                        proof {
                            assert(phase_views(old(self).phases@) + pattern(old(self).name)
                                =~= pattern(old(self).name));
                            assert(phase_views(self.phases@) =~= pattern(old(self).name).skip(1));
                        }
                        p2
                    },
                    None => {
                        proof {
                            assert(false);
                        }
                        unreached()
                    },
                }
            },
        }
    }

    fn push_scripted(phases: &mut VecDeque<Phase>, form: Form, loc: Location, time: u16)
        ensures
            phase_views(final(phases)@) == phase_views(old(phases)@).push(
                scripted(form, loc, time),
            ),
    {
        phases.push_back(Phase { form, loc, budget: time, time, damage: log_new() });
        proof {
            assert(phase_views(phases@) =~= phase_views(old(phases)@).push(
                scripted(form, loc, time),
            ));
        }
    }

    fn south_green(phases: &mut VecDeque<Phase>)
        ensures
            phase_views(final(phases)@) == phase_views(old(phases)@) + pattern(Rot::Southgreen),
    {
        Rotation::push_scripted(phases, Form::Magma, Location::Middle, 14);
        Rotation::push_scripted(phases, Form::Tanzanite, Location::Middle, 11);
        Rotation::push_scripted(phases, Form::Serpentine, Location::South, 33);
        Rotation::push_scripted(phases, Form::Magma, Location::Middle, 16);
        Rotation::push_scripted(phases, Form::Tanzanite, Location::West, 14);
        Rotation::push_scripted(phases, Form::Serpentine, Location::South, 22);
        Rotation::push_scripted(phases, Form::Tanzanite, Location::South, 30);
        Rotation::push_scripted(phases, Form::Serpentine, Location::West, 42);
        Rotation::push_scripted(phases, Form::Magma, Location::Middle, 15);
        Rotation::push_scripted(phases, Form::Serpentine, Location::Middle, 28);
        proof {
            assert(phase_views(phases@) =~= phase_views(old(phases)@) + pattern(Rot::Southgreen));
        }
    }

    fn west_green(phases: &mut VecDeque<Phase>)
        ensures
            phase_views(final(phases)@) == phase_views(old(phases)@) + pattern(Rot::Westgreen),
    {
        Rotation::push_scripted(phases, Form::Magma, Location::Middle, 14);
        Rotation::push_scripted(phases, Form::Tanzanite, Location::Middle, 11);
        Rotation::push_scripted(phases, Form::Serpentine, Location::West, 22);
        Rotation::push_scripted(phases, Form::Tanzanite, Location::South, 33);
        Rotation::push_scripted(phases, Form::Magma, Location::Middle, 15);
        Rotation::push_scripted(phases, Form::Serpentine, Location::East, 14);
        Rotation::push_scripted(phases, Form::Tanzanite, Location::South, 30);
        Rotation::push_scripted(phases, Form::Serpentine, Location::West, 42);
        Rotation::push_scripted(phases, Form::Magma, Location::Middle, 15);
        Rotation::push_scripted(phases, Form::Serpentine, Location::Middle, 28);
        proof {
            assert(phase_views(phases@) =~= phase_views(old(phases)@) + pattern(Rot::Westgreen));
        }
    }

    fn east_green(phases: &mut VecDeque<Phase>)
        ensures
            phase_views(final(phases)@) == phase_views(old(phases)@) + pattern(Rot::Eastgreen),
    {
        Rotation::push_scripted(phases, Form::Serpentine, Location::East, 24);
        Rotation::push_scripted(phases, Form::Magma, Location::Middle, 34);
        Rotation::push_scripted(phases, Form::Tanzanite, Location::West, 14);
        Rotation::push_scripted(phases, Form::Serpentine, Location::South, 14);
        Rotation::push_scripted(phases, Form::Tanzanite, Location::East, 14);
        Rotation::push_scripted(phases, Form::Serpentine, Location::Middle, 19);
        Rotation::push_scripted(phases, Form::Serpentine, Location::West, 14);
        Rotation::push_scripted(phases, Form::Tanzanite, Location::Middle, 28);
        Rotation::push_scripted(phases, Form::Serpentine, Location::East, 29);
        Rotation::push_scripted(phases, Form::Tanzanite, Location::Middle, 12);
        Rotation::push_scripted(phases, Form::Serpentine, Location::Middle, 28);
        proof {
            assert(phase_views(phases@) =~= phase_views(old(phases)@) + pattern(Rot::Eastgreen));
        }
    }

    fn east_blue(phases: &mut VecDeque<Phase>)
        ensures
            phase_views(final(phases)@) == phase_views(old(phases)@) + pattern(Rot::Eastblue),
    {
        Rotation::push_scripted(phases, Form::Tanzanite, Location::East, 30);
        Rotation::push_scripted(phases, Form::Serpentine, Location::South, 18);
        Rotation::push_scripted(phases, Form::Tanzanite, Location::West, 24);
        Rotation::push_scripted(phases, Form::Magma, Location::Middle, 22);
        Rotation::push_scripted(phases, Form::Serpentine, Location::East, 11);
        Rotation::push_scripted(phases, Form::Serpentine, Location::South, 28);
        Rotation::push_scripted(phases, Form::Tanzanite, Location::West, 27);
        Rotation::push_scripted(phases, Form::Serpentine, Location::Middle, 14);
        Rotation::push_scripted(phases, Form::Tanzanite, Location::Middle, 21);
        Rotation::push_scripted(phases, Form::Serpentine, Location::East, 23);
        Rotation::push_scripted(phases, Form::Tanzanite, Location::Middle, 12);
        Rotation::push_scripted(phases, Form::Serpentine, Location::Middle, 28);
        proof {
            assert(phase_views(phases@) =~= phase_views(old(phases)@) + pattern(Rot::Eastblue));
        }
    }
}

/// The boss state machine: the live phase, the remaining hitpoints, the
/// elapsed-tick total, and the archive of completed phases.
pub struct Zulrah {
    rot: Rotation,
    phase: Phase,
    hitpoints: u16,
    time: u64,
    kill: Vec<Phase>,
}

/// The mathematical value of a `Zulrah` encounter.
#[verifier::ext_equal]
pub struct ZulrahView {
    pub rot: RotationView,
    pub phase: PhaseView,
    pub hitpoints: u16,
    pub time: nat,
    pub kill: Seq<PhaseView>,
}

impl View for Zulrah {
    type V = ZulrahView;

    closed spec fn view(&self) -> ZulrahView {
        ZulrahView {
            rot: self.rot@,
            phase: self.phase@,
            hitpoints: self.hitpoints,
            time: self.time as nat,
            kill: phase_views(self.kill@),
        }
    }
}

/// Ticks a phase has consumed so far out of its budget.
pub open spec fn consumed(p: PhaseView) -> int {
    p.budget - p.time
}

/// Total ticks consumed by a sequence of archived phases.
pub open spec fn consumed_sum(s: Seq<PhaseView>) -> int
    decreases s.len(),
{
    if s.len() == 0 {
        0
    } else {
        consumed_sum(s.drop_last()) + consumed(s.last())
    }
}

/// Inter-phase delays applied so far: every archived phase was followed by
/// one, except the phase archived at the moment of death.
pub open spec fn delays_applied(z: ZulrahView) -> int {
    if z.hitpoints > 0 {
        z.kill.len() as int
    } else {
        z.kill.len() - 1
    }
}

/// Exact tick accounting: ticks consumed by completed phases, plus the
/// inter-phase delays applied, plus the ticks consumed so far in the current
/// phase (already archived once the encounter is dead), equal the elapsed
/// total.
pub open spec fn ticks_accounted(z: ZulrahView) -> bool {
    z.time == consumed_sum(z.kill) + z.rot.delay * delays_applied(z) + if z.hitpoints > 0 {
        consumed(z.phase)
    } else {
        0
    }
}

/// The encounter's internal invariant, established at creation and preserved
/// by every damage application.
pub open spec fn inv(z: ZulrahView) -> bool {
    &&& z.rot.delay == INTER_PHASE_DELAY
    &&& z.hitpoints <= STARTING_HITPOINTS
    &&& z.phase.time <= z.phase.budget
    &&& forall|i: int| 0 <= i < z.rot.queue.len() ==> unspent(#[trigger] z.rot.queue[i])
    &&& forall|i: int| 0 <= i < z.kill.len() ==> (#[trigger] z.kill[i]).time <= z.kill[i].budget
    &&& (z.hitpoints > 0 ==> forall|i: int|
        0 <= i < z.kill.len() ==> (#[trigger] z.kill[i]).time == 0)
    &&& (z.hitpoints == 0 ==> z.kill.len() >= 1)
    &&& ticks_accounted(z)
}

/// The state a fresh encounter starts in: the opening phase current, the
/// named pattern queued, full hitpoints, no time elapsed, nothing archived.
pub open spec fn initial_spec(rot: Rot) -> ZulrahView {
    ZulrahView {
        rot: RotationView { name: rot, queue: pattern(rot), delay: INTER_PHASE_DELAY },
        phase: opening_phase(),
        hitpoints: STARTING_HITPOINTS,
        time: 0,
        kill: Seq::<PhaseView>::empty(),
    }
}

/// The full transition one damage application makes on an alive encounter:
/// the elapsed ticks are clamped against the phase's remaining duration;
/// lethal damage logs only the remaining hitpoints, archives the phase and
/// ends the fight; otherwise the damage is logged, and a phase whose duration
/// ran out is archived, the delay is charged and the next scripted phase is
/// pulled in.
pub open spec fn step_spec(z: ZulrahView, dmg: u16, ticks: u16) -> (ZulrahView, Return) {
    let spent = if ticks >= z.phase.time {
        z.phase.time
    } else {
        ticks
    };
    let ticked = PhaseView {
        form: z.phase.form,
        loc: z.phase.loc,
        budget: z.phase.budget,
        time: (z.phase.time - spent) as u16,
        damage: z.phase.damage,
    };
    let time1 = (z.time + spent) as nat;
    if dmg >= z.hitpoints {
        let finished = PhaseView {
            form: ticked.form,
            loc: ticked.loc,
            budget: ticked.budget,
            time: ticked.time,
            damage: ticked.damage.push(z.hitpoints),
        };
        (
            ZulrahView {
                rot: z.rot,
                phase: finished,
                hitpoints: 0,
                time: time1,
                kill: z.kill.push(finished),
            },
            Return::Dead,
        )
    } else {
        let logged = PhaseView {
            form: ticked.form,
            loc: ticked.loc,
            budget: ticked.budget,
            time: ticked.time,
            damage: ticked.damage.push(dmg),
        };
        let hp1 = (z.hitpoints - dmg) as u16;
        if logged.time == 0 {
            let nxt = rot_next_spec(z.rot);
            (
                ZulrahView {
                    rot: RotationView { name: z.rot.name, queue: nxt.1, delay: z.rot.delay },
                    phase: nxt.0,
                    hitpoints: hp1,
                    time: (time1 + z.rot.delay) as nat,
                    kill: z.kill.push(logged),
                },
                Return::Phase,
            )
        } else {
            (
                ZulrahView { rot: z.rot, phase: logged, hitpoints: hp1, time: time1, kill: z.kill },
                Return::Alive,
            )
        }
    }
}

proof fn lemma_consumed_sum_push(s: Seq<PhaseView>, p: PhaseView)
    ensures
        consumed_sum(s.push(p)) == consumed_sum(s) + consumed(p),
{
    assert(s.push(p).drop_last() =~= s);
}

/// One damage application on a live encounter preserves the invariant, never
/// increases hitpoints, never decreases elapsed time, and ends the fight
/// exactly when the damage covers the remaining hitpoints.
pub proof fn lemma_step_preserves_inv(z: ZulrahView, dmg: u16, ticks: u16)
    requires
        inv(z),
        z.hitpoints > 0,
    ensures
        ({
            let (z1, r) = step_spec(z, dmg, ticks);
            &&& inv(z1)
            &&& z1.hitpoints <= z.hitpoints
            &&& z1.time >= z.time
            &&& (r is Dead <==> z1.hitpoints == 0)
            &&& (r is Dead <==> dmg >= z.hitpoints)
            &&& z1.rot.name == z.rot.name
            &&& z1.rot.delay == z.rot.delay
        }),
{
    let spent = if ticks >= z.phase.time {
        z.phase.time
    } else {
        ticks
    };
    let (z1, r) = step_spec(z, dmg, ticks);
    if dmg >= z.hitpoints {
        lemma_consumed_sum_push(z.kill, z1.phase);
    } else {
        let logged = PhaseView {
            form: z.phase.form,
            loc: z.phase.loc,
            budget: z.phase.budget,
            time: (z.phase.time - spent) as u16,
            damage: z.phase.damage.push(dmg),
        };
        if logged.time == 0 {
            lemma_consumed_sum_push(z.kill, logged);
            lemma_pattern_props(z.rot.name);
            let nxt = rot_next_spec(z.rot);
            assert(unspent(nxt.0));
            assert(forall|i: int| 0 <= i < nxt.1.len() ==> unspent(#[trigger] nxt.1[i]));
        }
    }
}

impl Zulrah {
    /// A fresh encounter following the first named pattern.
    pub fn new() -> (z: Zulrah)
        ensures
            z@ == initial_spec(Rot::Southgreen),
            inv(z@),
    {
        Zulrah::new_rot(Rot::Southgreen)
    }

    /// A fresh encounter following the chosen named pattern, with the fixed
    /// opening phase already current and full starting hitpoints.
    pub fn new_rot(rot: Rot) -> (z: Zulrah)
        ensures
            z@ == initial_spec(rot),
            inv(z@),
    {
        let mut r = Rotation::new(rot);
        let phase = r.next_phase();
        let z = Zulrah {
            rot: r,
            phase,
            hitpoints: STARTING_HITPOINTS,
            time: 0,
            kill: Vec::new(),
        };
        proof {
            assert((seq![opening_phase()] + pattern(rot))[0] == opening_phase());
            assert((seq![opening_phase()] + pattern(rot)).skip(1) =~= pattern(rot));
            assert(phase_views(z.kill@) =~= Seq::<PhaseView>::empty());
            assert(z@ =~~= initial_spec(rot));
            lemma_pattern_props(rot);
        }
        z
    }

    /// Applies one attack's outcome: `damage` hitpoints dealt over
    /// `ticks` elapsed game ticks. Calling this on a dead encounter is a
    /// programming error, ruled out by the precondition and, for callers the
    /// verifier has not seen, caught loudly by a runtime assertion; see
    /// `try_damage` for the variant that reports the failure instead.
    pub fn damage(&mut self, damage: u16, ticks: u16) -> (r: Return)
        requires
            inv(old(self)@),
            old(self)@.hitpoints > 0,
            old(self)@.time + old(self)@.phase.time + old(self)@.rot.delay <= u64::MAX,
        ensures
            inv(final(self)@),
            final(self)@ == step_spec(old(self)@, damage, ticks).0,
            r == step_spec(old(self)@, damage, ticks).1,
            final(self)@.hitpoints <= old(self)@.hitpoints,
            final(self)@.hitpoints == (if damage >= old(self)@.hitpoints {
                0u16
            } else {
                (old(self)@.hitpoints - damage) as u16
            }),
            final(self)@.time >= old(self)@.time,
            final(self)@.time == old(self)@.time + (if ticks >= old(self)@.phase.time {
                old(self)@.phase.time
            } else {
                ticks
            }) + (if r is Phase {
                INTER_PHASE_DELAY
            } else {
                0u16
            }),
            r is Dead <==> final(self)@.hitpoints == 0,
            r is Dead <==> damage >= old(self)@.hitpoints,
    {
        vstd::pervasive::runtime_assert(self.hitpoints > 0);
        proof {
            lemma_step_preserves_inv(old(self)@, damage, ticks);
        }

        if ticks >= self.phase.time {
            self.time = self.time + self.phase.time as u64;
            self.phase.time = 0;
        } else {
            self.time = self.time + ticks as u64;
            self.phase.time = self.phase.time - ticks;
        }

        if damage >= self.hitpoints {
            log_push(&mut self.phase.damage, self.hitpoints);
            let archived = self.phase.clone();
            self.kill.push(archived);
            self.hitpoints = 0;
            proof {
                assert(phase_views(self.kill@) =~= phase_views(old(self).kill@).push(self.phase@));
                assert(self@ =~~= step_spec(old(self)@, damage, ticks).0);
            }
            return Return::Dead;
        }

        self.hitpoints = self.hitpoints - damage;
        log_push(&mut self.phase.damage, damage);

        if self.phase.time == 0 {
            self.time = self.time + self.rot.delay as u64;
            let archived = self.phase.clone();
            self.kill.push(archived);
            proof {
                assert(phase_views(self.kill@) =~= phase_views(old(self).kill@).push(self.phase@));
            }
            self.phase = self.rot.next_phase();
            proof {
                assert(self@ =~~= step_spec(old(self)@, damage, ticks).0);
            }
            Return::Phase
        } else {
            proof {
                assert(self@ =~~= step_spec(old(self)@, damage, ticks).0);
            }
            Return::Alive
        }
    }

    /// The checked damage application: on a dead encounter it mutates nothing
    /// and reports the failure instead, so the elapsed-tick total of a dead
    /// encounter can never change.
    pub fn try_damage(&mut self, damage: u16, ticks: u16) -> (r: Option<Return>)
        requires
            inv(old(self)@),
            old(self)@.hitpoints > 0 ==> old(self)@.time + old(self)@.phase.time + old(
                self,
            )@.rot.delay <= u64::MAX,
        ensures
            inv(final(self)@),
            old(self)@.hitpoints == 0 ==> r is None && final(self)@ == old(self)@,
            old(self)@.hitpoints > 0 ==> r == Some(step_spec(old(self)@, damage, ticks).1)
                && final(self)@ == step_spec(old(self)@, damage, ticks).0,
            final(self)@.hitpoints <= old(self)@.hitpoints,
    {
        if self.hitpoints == 0 {
            None
        } else {
            Some(self.damage(damage, ticks))
        }
    }

    /// Whether the encounter has reached its unique terminal state.
    pub fn is_dead(&self) -> (b: bool)
        ensures
            b <==> self@.hitpoints == 0,
    {
        self.hitpoints == 0
    }

    /// Total elapsed ticks; once the encounter is dead this is the full
    /// time-to-kill and no operation changes it again.
    pub fn ttk(&self) -> (t: u64)
        ensures
            t == self@.time,
    {
        self.time
    }

    /// The combat form of the live phase.
    pub fn form(&self) -> (f: Form)
        ensures
            f == self@.phase.form,
    {
        self.phase.form
    }

    /// The hitpoints still remaining.
    pub fn hitpoints(&self) -> (hp: u16)
        ensures
            hp == self@.hitpoints,
    {
        self.hitpoints
    }

    /// The named pattern this encounter follows.
    pub fn rotation_name(&self) -> (n: Rot)
        ensures
            n == self@.rot.name,
    {
        self.rot.name
    }

    /// The phase the encounter is currently in.
    pub fn current_phase(&self) -> (p: &Phase)
        ensures
            p@ == self@.phase,
    {
        &self.phase
    }

    /// The archive of completed phases, oldest first.
    pub fn kill_history(&self) -> (h: &Vec<Phase>)
        ensures
            phase_views(h@) == self@.kill,
    {
        &self.kill
    }
}

/// The tick-accounting law: at every point in an encounter's life, the sum of
/// ticks consumed by completed phases, plus one inter-phase delay for every
/// transition taken, plus the ticks consumed so far in the current phase,
/// equals the elapsed-tick total exactly.
pub proof fn lemma_tick_accounting(z: ZulrahView)
    requires
        inv(z),
    ensures
        z.time == consumed_sum(z.kill) + INTER_PHASE_DELAY * delays_applied(z) + if z.hitpoints
            > 0 {
            consumed(z.phase)
        } else {
            0
        },
{
}

} // verus!
