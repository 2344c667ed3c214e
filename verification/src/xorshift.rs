//! The xorshift128+ generator, the recommended engine.
//!
//! The state is a pair of 64-bit words, never both zero. One step computes
//! `x' = x ^ (x << 23)`, `y' = x' ^ y ^ (x' >> 17) ^ (y >> 26)`, outputs
//! `y' + y` (wrapping) and moves to the state `(y, y')`. The 32-bit output
//! takes the high half of the 64-bit output, because the low bits fail
//! stricter statistical tests. Seeded with 0, the first 64-bit output is
//! `0x99a57b5e061d5cf4` and the first 32-bit output is `0x99a57b5e`. Not
//! cryptographically secure.

use vstd::prelude::*;

verus! {

use vstd::wrapping::u64_specs;
use crate::rand::Rand;

/// Recommended engine. Currently xorshift128+.
pub struct Rng {
    /// The first word of the state.
    pub x: u64,
    /// The second word of the state.
    pub y: u64,
}

/// The two fixed words that a seed is combined with. They differ, so no seed
/// can zero both state words at once.
pub const SEED_WORD_X: u64 = 0xf4dbdf2183dcefb7;

/// The second fixed seeding word.
pub const SEED_WORD_Y: u64 = 0x1ad5be0d6dd28e9b;

impl Rand for Rng {
    open spec fn from_seed_spec(seed: u64) -> Self {
        Rng { x: seed ^ SEED_WORD_X, y: seed ^ SEED_WORD_Y }
    }

    open spec fn step64(self) -> (Self, u64) {
        let x1 = self.x ^ (self.x << 23);
        let y1 = x1 ^ self.y ^ (x1 >> 17) ^ (self.y >> 26);
        (Rng { x: self.y, y: y1 }, u64_specs::wrapping_add(y1, self.y))
    }

    open spec fn step32(self) -> (Self, u32) {
        (self.step64().0, (self.step64().1 >> 32) as u32)
    }

    fn from_seed(seed: u64) -> (r: Self) {
        Rng { x: seed ^ SEED_WORD_X, y: seed ^ SEED_WORD_Y }
    }

    fn rand_u64(&mut self) -> (r: u64) {
        let mut x = self.x;
        let y = self.y;
        self.x = y;
        x = x ^ (x << 23);
        self.y = x ^ y ^ (x >> 17) ^ (y >> 26);
        self.y.wrapping_add(y)
    }

    fn rand_u32(&mut self) -> (r: u32) {
        let r = self.rand_u64();
        #[verifier::truncate]
        let r32 = (r >> 32) as u32;
        r32
    }
}

impl Rng {
    /// The next `n` raw 64-bit outputs, eagerly collected.
    pub fn iter(&mut self, n: usize) -> (r: Vec<u64>)
        ensures
            r@.len() == n,
            forall|i: int| 0 <= i < n ==> r@[i] == crate::rand::draw64(*old(self), i as nat),
            *final(self) == crate::rand::state64_after(*old(self), n as nat),
    {
        let mut r: Vec<u64> = Vec::new();
        let mut i: usize = 0;
        while i < n
            invariant
                i <= n,
                r@.len() == i,
                forall|j: int| 0 <= j < i ==> r@[j] == crate::rand::draw64(*old(self), j as nat),
                *self == crate::rand::state64_after(*old(self), i as nat),
            decreases n - i,
        {
            let x = self.rand_u64();
            r.push(x);
            i = i + 1;
        }
        r
    }
}

/// A freshly seeded state never has both words zero: the two seeding words
/// differ, so at most one of them can equal the seed.
pub proof fn lemma_from_seed_nonzero(seed: u64)
    ensures
        !(Rng::from_seed_spec(seed).x == 0 && Rng::from_seed_spec(seed).y == 0),
{
    assert(!(seed ^ SEED_WORD_X == 0 && seed ^ SEED_WORD_Y == 0)) by (bit_vector);
}

/// Whether an xorshift128+ state avoids the absorbing all-zero pair.
pub open spec fn nonzero_state(g: Rng) -> bool {
    !(g.x == 0 && g.y == 0)
}

/// A step never reaches the all-zero state from a state that is not all-zero,
/// so the absorbing fixed point of xorshift128+ is unreachable.
pub proof fn lemma_step_preserves_nonzero(g: Rng)
    requires
        !(g.x == 0 && g.y == 0),
    ensures
        !(g.step64().0.x == 0 && g.step64().0.y == 0),
{
    let x = g.x;
    let y = g.y;
    assert(!(y == 0 && (x ^ (x << 23)) ^ y ^ ((x ^ (x << 23)) >> 17) ^ (y >> 26) == 0))
        by (bit_vector)
        requires
            !(x == 0 && y == 0),
    ;
}

/// For every seed and every number of steps, the xorshift128+ state pair is
/// never `(0, 0)`: construction avoids it and no step reaches it.
pub proof fn lemma_stream_never_zero(seed: u64, k: nat)
    ensures
        nonzero_state(crate::rand::state64_after(Rng::from_seed_spec(seed), k)),
        nonzero_state(crate::rand::state32_after(Rng::from_seed_spec(seed), k)),
    decreases k,
{
    lemma_states_agree(Rng::from_seed_spec(seed), k);
    if k == 0 {
        lemma_from_seed_nonzero(seed);
    } else {
        lemma_stream_never_zero(seed, (k - 1) as nat);
        lemma_step_preserves_nonzero(
            crate::rand::state64_after(Rng::from_seed_spec(seed), (k - 1) as nat),
        );
    }
}

/// For xorshift128+ a 32-bit draw advances the state exactly as a 64-bit draw
/// does, so the two draw streams walk one state sequence.
pub proof fn lemma_states_agree(g: Rng, k: nat)
    ensures
        crate::rand::state32_after(g, k) == crate::rand::state64_after(g, k),
    decreases k,
{
    if k != 0 {
        lemma_states_agree(g, (k - 1) as nat);
    }
}

} // verus!
