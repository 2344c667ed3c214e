//! The PCG-XSH-RR generator.
//!
//! The state is a single 64-bit word, advanced by a linear congruential step
//! with an odd increment; every state value is valid, including zero. The
//! 32-bit output applies an xorshift-high and a data-dependent right rotation
//! to the state *before* the step. Seeding steps twice — once from state
//! zero, then once more after adding the seed — to decorrelate small seeds.
//! Seeded with 0, the first 32-bit output after that warm-up is `0xe823a24e`.
//! Not cryptographically secure.

use vstd::prelude::*;

verus! {

use vstd::wrapping::u64_specs;
use crate::rand::Rand;

/// The PCG-XSH-RR engine.
pub struct Pcg32 {
    /// The 64-bit state word.
    pub state: u64,
}

/// The fixed multiplier of the linear congruential step.
pub const PCG_MULTIPLIER: u64 = 6364136223846793005;

/// The fixed increment of the linear congruential step; bit 0 is forced on
/// wherever it is used, so the increment is always odd.
pub const PCG_INCREMENT: u64 = 1442695040888963407;

/// The linear congruential step: multiply and add, both wrapping.
pub open spec fn pcg_advance_spec(s: u64) -> u64 {
    u64_specs::wrapping_add(u64_specs::wrapping_mul(s, PCG_MULTIPLIER), PCG_INCREMENT | 1)
}

/// The output permutation applied to a state word: xorshift the high bits
/// down, truncate to 32 bits, and rotate right by the top five bits.
pub open spec fn pcg_output_spec(s: u64) -> u32 {
    let xs = (((s >> 18) ^ s) >> 27) as u32;
    let rot = (s >> 59) as u32;
    (xs >> rot) | (xs << ((32 - rot) as u32 & 31))
}

/// The linear congruential step, executable form.
fn pcg_advance(s: u64) -> (r: u64)
    ensures
        r == pcg_advance_spec(s),
{
    s.wrapping_mul(PCG_MULTIPLIER).wrapping_add(PCG_INCREMENT | 1)
}

impl Rand for Pcg32 {
    open spec fn from_seed_spec(seed: u64) -> Self {
        Pcg32 {
            state: pcg_advance_spec(u64_specs::wrapping_add(pcg_advance_spec(0), seed)),
        }
    }

    open spec fn step32(self) -> (Self, u32) {
        (Pcg32 { state: pcg_advance_spec(self.state) }, pcg_output_spec(self.state))
    }

    open spec fn step64(self) -> (Self, u64) {
        let (s1, hi) = self.step32();
        let (s2, lo) = s1.step32();
        (s2, ((hi as u64) << 32) | (lo as u64))
    }

    fn from_seed(seed: u64) -> (r: Self) {
        let warm = pcg_advance(0);
        Pcg32 { state: pcg_advance(warm.wrapping_add(seed)) }
    }

    fn rand_u32(&mut self) -> (r: u32) {
        let s = self.state;
        self.state = pcg_advance(s);
        let xs64 = ((s >> 18) ^ s) >> 27;
        #[verifier::truncate]
        let xs = xs64 as u32;
        let rot64 = s >> 59;
        proof {
            assert(rot64 < 32) by (bit_vector)
                requires
                    rot64 == s >> 59,
            ;
        }
        let rot = rot64 as u32;
        let back = (32 - rot) & 31;
        proof {
            assert(back < 32) by (bit_vector)
                requires
                    back == ((32 - rot) as u32) & 31,
                    rot < 32,
            ;
        }
        (xs >> rot) | (xs << back)
    }

    fn rand_u64(&mut self) -> (r: u64) {
        let hi = self.rand_u32();
        let lo = self.rand_u32();
        ((hi as u64) << 32) | (lo as u64)
    }
}

} // verus!
