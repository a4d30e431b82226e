use vstd::prelude::*;

verus! {

pub const LCG_MULTIPLIER: u64 = 6364136223846793005;

pub const LCG_INCREMENT: u64 = 1442695040888963407;

/// The state that follows `s` in the linear congruential sequence modulo 2^64.
pub open spec fn next_state(s: u64) -> u64 {
    ((LCG_MULTIPLIER * s + LCG_INCREMENT) % 0x1_0000_0000_0000_0000) as u64
}

/// The value in `[0, n)` drawn from state `s`: its upper 32 bits, scaled down to `n`.
pub open spec fn drawn(s: u64, n: int) -> int {
    (s as int / 0x1_0000_0000) * n / 0x1_0000_0000
}

/// A seedable pseudo-random source.
#[derive(Clone, Copy, Debug, PartialEq, Eq, Structural)]
pub struct Rng {
    pub state: u64,
}

impl Rng {
    pub fn new(seed: u64) -> (r: Rng)
        ensures
            r.state == seed,
    {
        Rng { state: seed }
    }

    /// Advances the state and draws a value in `[0, n)`.
    pub fn below(&mut self, n: u64) -> (r: u64)
        requires
            0 < n <= 0x1_0000_0000,
        ensures
            final(self).state == next_state(old(self).state),
            r as int == drawn(final(self).state, n as int),
            r < n,
    {
        let s: u128 = self.state as u128;
        proof {
            assert(LCG_MULTIPLIER * s <= 6364136223846793005 * 0xffff_ffff_ffff_ffff) by (nonlinear_arith)
                requires s <= 0xffff_ffff_ffff_ffff;
        }
        let m: u128 = (LCG_MULTIPLIER as u128 * s + LCG_INCREMENT as u128) % 0x1_0000_0000_0000_0000;
        let next: u64 = m as u64;
        self.state = next;
        let hi: u64 = next / 0x1_0000_0000;
        proof {
            assert(hi * n <= 0xffff_ffff * 0x1_0000_0000) by (nonlinear_arith)
                requires hi <= 0xffff_ffff, n <= 0x1_0000_0000;
            assert(hi * n / 0x1_0000_0000 < n) by (nonlinear_arith)
                requires hi < 0x1_0000_0000, n > 0;
        }
        hi * n / 0x1_0000_0000
    }
}

} // verus!
