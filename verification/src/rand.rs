//! The generator abstraction and the operations derived from it.
//!
//! A bit generator owns a small fixed-size state, is constructed
//! deterministically from a 64-bit seed, and exposes one primitive per output
//! width: produce the next raw output and advance the state. The derived
//! operations are free functions over any generator, so adding a variant
//! never touches them. Every operation is specified exactly, as a function of
//! the starting state, so that one seed fixes one output sequence.

use vstd::prelude::*;

verus! {

use crate::bounded::mask_reject32_post;
use crate::bounded::mask_reject64_post;
use crate::bounded::rand_bounded_u32;
use crate::bounded::rand_bounded_u64;
use crate::bounded::rand_bounded_usize;

/// A deterministic bit generator.
///
/// `step32` and `step64` are the mathematical state-transition functions; the
/// executable primitives `rand_u32` and `rand_u64` are proved to follow them
/// exactly.
pub trait Rand: Sized {
    /// The state constructed from a seed.
    spec fn from_seed_spec(seed: u64) -> Self;

    /// One 32-bit step: the next state and its raw 32-bit output.
    spec fn step32(self) -> (Self, u32);

    /// One 64-bit step: the next state and its raw 64-bit output.
    spec fn step64(self) -> (Self, u64);

    /// Construct the generator deterministically from a seed. Every seed is
    /// valid for every variant.
    fn from_seed(seed: u64) -> (r: Self)
        ensures
            r == Self::from_seed_spec(seed),
    ;

    /// A sample from the uniform distribution on `0..=u32::MAX`.
    fn rand_u32(&mut self) -> (r: u32)
        ensures
            (*final(self), r) == old(self).step32(),
    ;

    /// A sample from the uniform distribution on `0..=u64::MAX`.
    fn rand_u64(&mut self) -> (r: u64)
        ensures
            (*final(self), r) == old(self).step64(),
    ;

    /// A sample from the uniform distribution on `0..=u8::MAX`: the low byte
    /// of the next raw 32-bit output.
    fn rand_u8(&mut self) -> (r: u8)
        ensures
            *final(self) == old(self).step32().0,
            r == old(self).step32().1 as u8,
    {
        #[verifier::truncate]
        let r = self.rand_u32() as u8;
        r
    }

    /// A sample from the uniform distribution on `0..=u16::MAX`: the low two
    /// bytes of the next raw 32-bit output.
    fn rand_u16(&mut self) -> (r: u16)
        ensures
            *final(self) == old(self).step32().0,
            r == old(self).step32().1 as u16,
    {
        #[verifier::truncate]
        let r = self.rand_u32() as u16;
        r
    }

    /// A sample from the uniform distribution on `0..=usize::MAX`.
    fn rand_usize(&mut self) -> (r: usize)
        ensures
            *final(self) == old(self).step64().0,
            r == old(self).step64().1 as usize,
    {
        #[verifier::truncate]
        let r = self.rand_u64() as usize;
        r
    }
}

/// The state reached after `k` 32-bit draws.
pub open spec fn state32_after<G: Rand>(g: G, k: nat) -> G
    decreases k,
{
    if k == 0 {
        g
    } else {
        state32_after(g, (k - 1) as nat).step32().0
    }
}

/// The `k`-th raw 32-bit output (counting from 0).
pub open spec fn draw32<G: Rand>(g: G, k: nat) -> u32 {
    state32_after(g, k).step32().1
}

/// The state reached after `k` 64-bit draws.
pub open spec fn state64_after<G: Rand>(g: G, k: nat) -> G
    decreases k,
{
    if k == 0 {
        g
    } else {
        state64_after(g, (k - 1) as nat).step64().0
    }
}

/// The `k`-th raw 64-bit output (counting from 0).
pub open spec fn draw64<G: Rand>(g: G, k: nat) -> u64 {
    state64_after(g, k).step64().1
}

/// Taking one more 32-bit draw extends the stream at its end.
pub proof fn lemma_state32_after_snoc<G: Rand>(g: G, k: nat)
    ensures
        state32_after(g, k + 1) == state32_after(g, k).step32().0,
{
}

/// Taking one more 64-bit draw extends the stream at its end.
pub proof fn lemma_state64_after_snoc<G: Rand>(g: G, k: nat)
    ensures
        state64_after(g, k + 1) == state64_after(g, k).step64().0,
{
}

/// The next `n` raw 32-bit outputs of a generator, eagerly collected.
pub fn rand_iter<G: Rand>(g: &mut G, n: usize) -> (r: Vec<u32>)
    ensures
        r@.len() == n,
        forall|i: int| 0 <= i < n ==> r@[i] == draw32(*old(g), i as nat),
        *final(g) == state32_after(*old(g), n as nat),
{
    let mut r: Vec<u32> = Vec::new();
    let mut i: usize = 0;
    while i < n
        invariant
            i <= n,
            r@.len() == i,
            forall|j: int| 0 <= j < i ==> r@[j] == draw32(*old(g), j as nat),
            *g == state32_after(*old(g), i as nat),
        decreases n - i,
    {
        proof {
            lemma_state32_after_snoc(*old(g), i as nat);
        }
        let x = g.rand_u32();
        r.push(x);
        i = i + 1;
    }
    r
}

/// A sample from the uniform distribution on `a..b`.
pub fn rand_range_u32<G: Rand>(g: &mut G, a: u32, b: u32) -> (r: u32)
    requires
        a < b,
    ensures
        a <= r < b,
        mask_reject32_post(*old(g), *final(g), (b - a) as u32, (r - a) as u32),
{
    let x = rand_bounded_u32(g, b - a);
    a + x
}

/// A sample from the uniform distribution on `a..b`.
pub fn rand_range_u64<G: Rand>(g: &mut G, a: u64, b: u64) -> (r: u64)
    requires
        a < b,
    ensures
        a <= r < b,
        mask_reject64_post(*old(g), *final(g), (b - a) as u64, (r - a) as u64),
{
    let x = rand_bounded_u64(g, b - a);
    a + x
}

/// A sample from the uniform distribution on `a..b`. The width `b - a` is
/// computed exactly (it always fits in 32 unsigned bits), so the full signed
/// range is supported.
pub fn rand_range_i32<G: Rand>(g: &mut G, a: i32, b: i32) -> (r: i32)
    requires
        a < b,
    ensures
        a <= r < b,
        mask_reject32_post(*old(g), *final(g), (b - a) as u32, (r - a) as u32),
{
    let w = (b as i64 - a as i64) as u32;
    let x = rand_bounded_u32(g, w);
    (a as i64 + x as i64) as i32
}

/// A sample from the uniform distribution on `a..b`. The width `b - a` is
/// computed exactly (it always fits in 64 unsigned bits), so the full signed
/// range is supported.
pub fn rand_range_i64<G: Rand>(g: &mut G, a: i64, b: i64) -> (r: i64)
    requires
        a < b,
    ensures
        a <= r < b,
        mask_reject64_post(*old(g), *final(g), (b - a) as u64, (r - a) as u64),
{
    let w = (b as i128 - a as i128) as u64;
    let x = rand_bounded_u64(g, w);
    (a as i128 + x as i128) as i64
}

/// A sample from the uniform distribution on the non-empty slice: the element
/// at a bounded-sampled index.
pub fn choice<'a, G: Rand, T>(g: &mut G, a: &'a [T]) -> (r: &'a T)
    requires
        a@.len() > 0,
    ensures
        exists|i: usize|
            i < a@.len() && mask_reject64_post(*old(g), *final(g), a@.len() as u64, i as u64)
                && *r == a@[i as int],
{
    let i = rand_bounded_usize(g, a.len());
    vstd::slice::slice_index_get(a, i)
}

/// Shuffle the slice in place: a Fisher–Yates walk from the top position
/// down, one bounded draw per position, uniform over all permutations. The
/// result keeps the multiset of elements, and a slice of length 0 or 1 is
/// left as it is without drawing from the generator.
pub fn shuffle<G: Rand, T>(g: &mut G, a: &mut [T])
    ensures
        crate::shuffle::shuffle_steps(
            *old(g),
            *final(g),
            old(a)@,
            final(a)@,
            old(a)@.len() - 1,
            0,
        ),
        final(a)@.to_multiset() == old(a)@.to_multiset(),
        final(a)@.len() == old(a)@.len(),
{
    let n = a.len();
    if n == 0 {
        return ;
    }
    let mut i: usize = n - 1;
    while i > 0
        invariant
            i < n,
            n == a@.len(),
            crate::shuffle::shuffle_steps(*old(g), *g, old(a)@, a@, n - 1, i as int),
        decreases i,
    {
        let ghost g_pre = *g;
        let ghost a_pre = a@;
        let j = rand_bounded_usize(g, i + 1);
        crate::shuffle::swap_in_slice(a, i, j);
        proof {
            crate::shuffle::lemma_shuffle_steps_extend(
                *old(g),
                g_pre,
                *g,
                old(a)@,
                a_pre,
                n - 1,
                i as int,
                j,
            );
            assert(a@ == crate::shuffle::swap_seq(a_pre, i as int, j as int));
        }
        i = i - 1;
    }
    proof {
        crate::shuffle::lemma_shuffle_steps_multiset(*old(g), *g, old(a)@, a@, n - 1, 0);
    }
}

/// The number of 32-bit draws that filling `n` bytes consumes.
pub open spec fn fill_word_count(n: int) -> int {
    (n + 3) / 4
}

/// The byte that filling puts at position `i`: the bytes of each draw,
/// least-significant first.
pub open spec fn fill_byte<G: Rand>(g: G, i: int) -> u8 {
    (draw32(g, (i / 4) as nat) >> ((8 * (i % 4)) as u32)) as u8
}

/// Shifting a word right byte by byte matches shifting it by whole bytes.
proof fn lemma_shr_byte_step(x: u32, b: u32)
    by (bit_vector)
    requires
        b < 3,
    ensures
        (x >> (8 * b)) >> 8 == x >> (8 * b + 8),
{
}

/// Fill the buffer with random bytes: one 32-bit draw per four bytes, emitted
/// least-significant byte first; a tail shorter than four bytes consumes one
/// draw for only the bytes it needs, and no draw follows the last byte.
pub fn fill<G: Rand>(g: &mut G, a: &mut [u8])
    ensures
        final(a)@.len() == old(a)@.len(),
        forall|i: int| 0 <= i < old(a)@.len() ==> final(a)@[i] == fill_byte(*old(g), i),
        *final(g) == state32_after(*old(g), fill_word_count(old(a)@.len() as int) as nat),
{
    let n = a.len();
    let mut k: usize = 0;
    while k < n
        invariant
            k <= n,
            n == a@.len(),
            k % 4 == 0 || k == n,
            *g == state32_after(*old(g), fill_word_count(k as int) as nat),
            forall|i: int| 0 <= i < k ==> a@[i] == fill_byte(*old(g), i),
        decreases n - k,
    {
        let ghost c = (k / 4) as nat;
        proof {
            lemma_state32_after_snoc(*old(g), c);
        }
        let x = g.rand_u32();
        proof {
            assert(x >> 0u32 == x) by (bit_vector);
        }
        let k0: usize = k;
        let mut w = x;
        let mut b: usize = 0;
        while b < 4 && k < n
            invariant
                b <= 4,
                k <= n,
                n == a@.len(),
                k == k0 + b,
                k0 % 4 == 0,
                k0 < n,
                c == k0 / 4,
                x == draw32(*old(g), c),
                *g == state32_after(*old(g), c + 1),
                b < 4 ==> w == x >> ((8 * b) as u32),
                forall|i: int| 0 <= i < k ==> a@[i] == fill_byte(*old(g), i),
            decreases 4 - b,
        {
            let byte = #[verifier::truncate] (w as u8);
            a[k] = byte;
            proof {
                assert(k / 4 == c && k % 4 == b);
                if b < 3 {
                    lemma_shr_byte_step(x, b as u32);
                    assert((8 * (b + 1)) as u32 == 8 * (b as u32) + 8);
                }
            }
            w = w >> 8;
            b = b + 1;
            k = k + 1;
        }
    }
}

} // verus!
