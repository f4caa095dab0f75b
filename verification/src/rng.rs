use vstd::prelude::*;

verus! {

/// The state of one deterministic PCG32 pseudo-random stream, held as plain
/// values so that every value drawn from it is a function of the seed alone.
#[derive(Debug, Clone, Copy, PartialEq, Eq, Structural)]
pub struct Pcg32 {
    pub state: u64,
    pub inc: u64,
}

/// The generator state that `randomize::PCG32::seed` builds from a seed pair.
pub uninterp spec fn pcg_seeded(seed: u64, inc: u64) -> (u64, u64);

/// The value drawn uniformly from `[low, high]` together with the generator
/// state left behind, for a generator at `(state, inc)`.
pub uninterp spec fn range_drawn(low: u32, high: u32, state: u64, inc: u64) -> (u32, u64);

/// Relies on `randomize::PCG32::seed`: it computes the initial generator state
/// from the two arguments alone, so the result is named by `pcg_seeded`; and
/// it forces the increment odd (it stores `(inc << 1) | 1`), which gives the
/// generator a full period.
#[verifier::external_body]
pub fn pcg_seed(seed: u64, inc: u64) -> (g: Pcg32)
    ensures
        (g.state, g.inc) == pcg_seeded(seed, inc),
        g.inc & 1 == 1,
{
    let p = randomize::PCG32::seed(seed, inc);
    Pcg32 { state: p.state, inc: p.inc }
}

/// Relies on `randomize::RandRangeU32::new` and `RandRangeU32::sample`: the
/// sample is drawn from the inclusive range `[low, high]`, consuming draws of
/// a `randomize::PCG32` whose state advances as a function of its fields
/// alone, so the pair of value and new state is named by `range_drawn`.
/// `new` divides by the range width, which is zero only for the full `u32`
/// range; that range is excluded here. `sample` is a rejection loop over the
/// generator's outputs: with an odd increment the underlying congruential
/// step has a full period (multiplier congruent to 1 mod 4, increment odd),
/// every 32-bit output occurs, and the loop terminates; with an even
/// increment the stream can get stuck on a rejected value (state 0 with
/// increment 0 repeats 0 forever), so those states are excluded here.
#[verifier::external_body]
pub fn range_draw(g: &mut Pcg32, low: u32, high: u32) -> (r: u32)
    requires
        low <= high,
        !(low == 0 && high == 0xffff_ffffu32),
        old(g).inc & 1 == 1,
    ensures
        low <= r <= high,
        (r, final(g).state) == range_drawn(low, high, old(g).state, old(g).inc),
        final(g).inc == old(g).inc,
{
    let mut p = randomize::PCG32 { state: g.state, inc: g.inc };
    let r = randomize::RandRangeU32::new(low, high).sample(&mut p);
    g.state = p.state;
    r
}

} // verus!
