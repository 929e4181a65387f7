//! A 64-bit linear congruential generator. Its whole behaviour is a function
//! of its state, so two generators made from one seed give the same draws.

use crate::ieee::{is_finite, scaled, unit_to_bits, SIGN_BIT};
use vstd::arithmetic::power2::pow2;
use vstd::prelude::*;

verus! {

/// Multiplier of the recurrence `s' = s * LCG_MUL + 1 (mod 2^64)`.
pub const LCG_MUL: u64 = 6364136223846793005;

/// The state that follows `s`.
pub open spec fn lcg_step(s: u64) -> u64 {
    ((s as nat * LCG_MUL as nat + 1) % 0x1_0000_0000_0000_0000) as u64
}

/// The state reached from `s` after `n` steps.
pub open spec fn lcg_steps(s: u64, n: nat) -> u64
    decreases n,
{
    if n == 0 {
        s
    } else {
        lcg_step(lcg_steps(s, (n - 1) as nat))
    }
}

/// The top 24 bits of a state: the numerator of a fraction in `[0, 1)` with
/// denominator `2^24`.
pub open spec fn unit24_of(s: u64) -> u32 {
    (s as nat / 0x100_0000_0000) as u32
}

/// The low 32 bits of a state, reduced modulo `n`.
pub open spec fn range_of(s: u64, n: u32) -> u32 {
    ((s as nat % 0x1_0000_0000) % (n as nat)) as u32
}

pub struct LcgRng {
    state: u64,
}

impl View for LcgRng {
    type V = u64;

    closed spec fn view(&self) -> u64 {
        self.state
    }
}

impl LcgRng {
    pub fn new(seed: u64) -> (r: Self)
        ensures
            r@ == seed,
    {
        Self { state: seed }
    }

    /// The current state, from which every later draw follows.
    pub fn state(&self) -> (s: u64)
        ensures
            s == self@,
    {
        self.state
    }

    /// Advances the state once and returns the new state.
    pub fn next_u64(&mut self) -> (r: u64)
        ensures
            final(self)@ == lcg_step(old(self)@),
            r == final(self)@,
    {
        let m: u64 = self.state.wrapping_mul(LCG_MUL);
        let s: u64 = m.wrapping_add(1);
        proof {
            let p: nat = old(self).state as nat * LCG_MUL as nat;
            let r: nat = 0x1_0000_0000_0000_0000;
            assert(m as nat == p % r);
            assert((p % r + 1) % r == (p + 1) % r) by {
                vstd::arithmetic::div_mod::lemma_add_mod_noop(p as int, 1, r as int);
                vstd::arithmetic::div_mod::lemma_small_mod(1, r);
            }
        }
        self.state = s;
        s
    }

    /// Advances the state once and returns its top 24 bits.
    pub fn next_unit24(&mut self) -> (r: u32)
        ensures
            final(self)@ == lcg_step(old(self)@),
            r == unit24_of(final(self)@),
            r < 0x100_0000,
    {
        let s: u64 = self.next_u64();
        let x: u64 = s >> 40;
        assert(x == s / 0x100_0000_0000 && x < 0x100_0000) by (bit_vector)
            requires
                x == s >> 40,
        ;
        x as u32
    }

    /// Advances the state once and returns the pattern of a number in
    /// `[0, 1)`: the top 24 bits of the new state as a fraction of `2^24`,
    /// that is, so many times `2^125` units of `2^-149`.
    pub fn next_f32(&mut self) -> (r: u32)
        ensures
            final(self)@ == lcg_step(old(self)@),
            r < SIGN_BIT,
            is_finite(r),
            scaled(r) == unit24_of(final(self)@) * pow2(125),
    {
        let x: u32 = self.next_unit24();
        unit_to_bits(x)
    }

    /// Advances the state once and returns a value in `[0, n)`: the low 32
    /// bits of the new state modulo `n`.
    pub fn gen_range_u32(&mut self, n: u32) -> (r: u32)
        requires
            n > 0,
        ensures
            final(self)@ == lcg_step(old(self)@),
            r == range_of(final(self)@, n),
            r < n,
    {
        let s: u64 = self.next_u64();
        let low: u32 = s as u32;
        assert(low == s % 0x1_0000_0000) by (bit_vector)
            requires
                low == s as u32,
        ;
        low % n
    }
}

} // verus!
