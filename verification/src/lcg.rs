//! The 32-bit linear congruential generator.
//!
//! The state is a single 32-bit word, advanced by a fixed wrapping
//! multiply-add over the full 32-bit ring; the raw output is the new state
//! itself. The low bits of the output have short periods, so this variant
//! must not be relied on for small power-of-two moduli. Its 32-bit bounded
//! sampling deliberately trades correctness for speed: it scales one raw draw
//! by a fixed-point multiply-high with no rejection, a known, accepted
//! statistical bias of this variant only. Seeded with 0, the first 32-bit
//! output is `1013904223`, the increment itself. Not cryptographically
//! secure.

use vstd::prelude::*;

verus! {

use vstd::arithmetic::div_mod::lemma_multiply_divide_lt;
use vstd::arithmetic::mul::lemma_mul_strict_inequality;
use vstd::arithmetic::mul::lemma_mul_upper_bound;
use vstd::arithmetic::power2::lemma2_to64;
use vstd::bits::lemma_u64_shr_is_div;
use vstd::wrapping::u32_specs;
use crate::rand::Rand;

/// The 32-bit linear congruential engine.
pub struct Lcg32 {
    /// The 32-bit state word.
    pub state: u32,
}

/// The fixed multiplier of the step.
pub const LCG_MULTIPLIER: u32 = 1664525;

/// The fixed increment of the step.
pub const LCG_INCREMENT: u32 = 1013904223;

/// The step: multiply and add, both wrapping, over the full 32-bit ring.
pub open spec fn lcg_advance_spec(s: u32) -> u32 {
    u32_specs::wrapping_add(u32_specs::wrapping_mul(s, LCG_MULTIPLIER), LCG_INCREMENT)
}

/// What this variant's biased 32-bit bounded sampling returns: one raw draw,
/// scaled to `0..m` by a fixed-point multiply-high, with no rejection.
pub open spec fn scaled32_post(pre: Lcg32, post: Lcg32, m: u32, r: u32) -> bool {
    post == pre.step32().0 && r == ((pre.step32().1 as nat * m as nat) / 0x1_0000_0000) as u32
}

impl Rand for Lcg32 {
    open spec fn from_seed_spec(seed: u64) -> Self {
        Lcg32 { state: seed as u32 }
    }

    open spec fn step32(self) -> (Self, u32) {
        (Lcg32 { state: lcg_advance_spec(self.state) }, lcg_advance_spec(self.state))
    }

    open spec fn step64(self) -> (Self, u64) {
        let (s1, hi) = self.step32();
        let (s2, lo) = s1.step32();
        (s2, ((hi as u64) << 32) | (lo as u64))
    }

    fn from_seed(seed: u64) -> (r: Self) {
        #[verifier::truncate]
        let s = seed as u32;
        Lcg32 { state: s }
    }

    fn rand_u32(&mut self) -> (r: u32) {
        self.state = self.state.wrapping_mul(LCG_MULTIPLIER).wrapping_add(LCG_INCREMENT);
        self.state
    }

    fn rand_u64(&mut self) -> (r: u64) {
        let hi = self.rand_u32();
        let lo = self.rand_u32();
        ((hi as u64) << 32) | (lo as u64)
    }
}

impl Lcg32 {
    /// This variant's own bounded sampling: a sample from `0..m` by scaling
    /// one raw draw with a fixed-point multiply-high and no rejection — fast,
    /// and biased for bounds that do not divide `2^32`.
    pub fn rand_bounded_u32(&mut self, m: u32) -> (r: u32)
        requires
            m > 0,
        ensures
            r < m,
            scaled32_post(*old(self), *final(self), m, r),
    {
        let x = self.rand_u32();
        proof {
            lemma_mul_upper_bound(x as int, 0xffff_ffff, m as int, 0xffff_ffff);
        }
        let prod = (x as u64) * (m as u64);
        let hi = prod >> 32;
        proof {
            lemma_u64_shr_is_div(prod, 32);
            lemma2_to64();
            lemma_mul_strict_inequality(x as int, 0x1_0000_0000, m as int);
            lemma_multiply_divide_lt(prod as int, 0x1_0000_0000, m as int);
        }
        #[verifier::truncate]
        let r = hi as u32;
        r
    }
}

} // verus!
