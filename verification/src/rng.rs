//! A deterministic pseudo-random generator: a 64-bit linear congruential
//! generator whose upper bits feed every draw. The world owns one, so a
//! seed reproduces a whole run.

use vstd::prelude::*;

verus! {

pub const LCG_MUL: u64 = 6364136223846793005;
pub const LCG_INC: u64 = 1442695040888963407;

pub struct Rng {
    pub state: u64,
}

/// The generator state that follows `s`.
pub open spec fn lcg_next_spec(s: u64) -> u64 {
    (((s as int) * (LCG_MUL as int) + (LCG_INC as int)) % 0x1_0000_0000_0000_0000) as u64
}

/// The value the step to state `s` yields: the slow-moving upper bits.
pub open spec fn lcg_out_spec(s: u64) -> u64 {
    lcg_next_spec(s) >> 33
}

impl Rng {
    pub fn new(seed: u64) -> (r: Rng)
        ensures
            r.state == seed,
    {
        Rng { state: seed }
    }

    /// Advance one step and yield a 31-bit value.
    pub fn next(&mut self) -> (r: u64)
        ensures
            final(self).state == lcg_next_spec(old(self).state),
            r == lcg_out_spec(old(self).state),
            r < 0x8000_0000,
    {
        let s = self.state;
        proof {
            assert((s as int) * (LCG_MUL as int) + (LCG_INC as int)
                < 0x1_0000_0000_0000_0000_0000_0000_0000_0000int) by (nonlinear_arith)
                requires
                    s as int <= 0xffff_ffff_ffff_ffffint,
            ;
        }
        let wide: u128 = (s as u128) * (LCG_MUL as u128) + (LCG_INC as u128);
        let ns: u64 = (wide % 0x1_0000_0000_0000_0000u128) as u64;
        self.state = ns;
        let out = ns >> 33;
        proof {
            assert(ns >> 33 < 0x8000_0000u64) by (bit_vector);
        }
        out
    }

    /// A draw in `[0, n)`.
    pub fn below(&mut self, n: u64) -> (r: u64)
        requires
            1 <= n,
        ensures
            r < n,
            r == lcg_out_spec(old(self).state) % n,
            final(self).state == lcg_next_spec(old(self).state),
    {
        let out = self.next();
        out % n
    }

    /// A draw in `[0, n)` as a signed value.
    pub fn below_i64(&mut self, n: i64) -> (r: i64)
        requires
            1 <= n,
        ensures
            0 <= r < n,
            r == lcg_out_spec(old(self).state) % (n as u64),
            final(self).state == lcg_next_spec(old(self).state),
    {
        let out = self.below(n as u64);
        out as i64
    }

    /// A draw in `[-m, m]`, the fixed-point image of a symmetric
    /// uniform interval.
    pub fn symmetric(&mut self, m: i64) -> (r: i64)
        requires
            0 <= m <= 1_000_000_000,
        ensures
            r == lcg_out_spec(old(self).state) % ((2 * m + 1) as u64) - m,
            -m <= r <= m,
            final(self).state == lcg_next_spec(old(self).state),
    {
        let out = self.below_i64(2 * m + 1);
        out - m
    }
}

} // verus!
