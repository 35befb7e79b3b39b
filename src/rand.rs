//! The simulator's seeded source of random numbers.
use vstd::prelude::*;

verus! {

pub const LCG_MUL: u64 = 6364136223846793005;
pub const LCG_INC: u64 = 1442695040888963407;

/// The state that follows `s`.
pub open spec fn lcg_next(s: u64) -> u64 {
    ((s as int * LCG_MUL as int + LCG_INC as int) % 0x1_0000_0000_0000_0000) as u64
}

/// The value drawn from `[lo, hi]` when the state becomes `s`.
pub open spec fn draw_in(s: u64, lo: u64, hi: u64) -> u64
    recommends lo <= hi, hi - lo < u64::MAX,
{
    (lo + (s / 0x2_0000_0000) % ((hi - lo + 1) as u64)) as u64
}

/// A linear congruential generator: the same seed gives the same draws.
pub struct SimRng {
    pub state: u64,
}

impl SimRng {
    pub fn new(seed: u64) -> (r: SimRng)
        ensures
            r.state == seed,
    {
        SimRng { state: seed }
    }

    /// Draws an integer uniformly from `lo..=hi`.
    pub fn rand_i(&mut self, lo: u64, hi: u64) -> (r: u64)
        requires
            lo <= hi,
            hi - lo < u64::MAX,
        ensures
            final(self).state == lcg_next(old(self).state),
            r == draw_in(final(self).state, lo, hi),
            lo <= r <= hi,
    {
        let next = self.state.wrapping_mul(LCG_MUL).wrapping_add(LCG_INC);
        self.state = next;
        let span: u64 = hi - lo + 1;
        let off: u64 = (next / 0x2_0000_0000) % span;
        lo + off
    }
}

} // verus!
