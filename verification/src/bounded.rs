//! Unbiased bounded sampling by masking and rejection.
//!
//! To sample uniformly from `0..m`, a draw is masked down to the next
//! power-of-two range and rejected while it is not below `m`. Rejection keeps
//! the sample exactly uniform; masking keeps the expected number of redraws
//! below two. A power-of-two bound accepts the first draw. The redraw loop is
//! not capped in any way a caller can observe: only after `u64::MAX` rejected
//! draws in a row — a streak no generator here produces — does it stop and
//! yield zero, and the contracts state that case exactly.

use vstd::prelude::*;

verus! {

use vstd::arithmetic::power2::pow2;
use vstd::arithmetic::power2::lemma_pow2_adds;
use vstd::arithmetic::power2::lemma_pow2_pos;
use vstd::arithmetic::power2::lemma_pow2_strictly_increases;
use vstd::arithmetic::power2::lemma2_to64;
use vstd::wrapping::u32_specs;
use vstd::wrapping::u64_specs;
use crate::rand::Rand;
use crate::rand::draw32;
use crate::rand::draw64;
use crate::rand::state32_after;
use crate::rand::state64_after;
use crate::rand::lemma_state32_after_snoc;
use crate::rand::lemma_state64_after_snoc;

/// Rejected draws after which a sampler stops retrying.
pub const DRAW_LIMIT: u64 = 0xffff_ffff_ffff_ffff;

/// The doubling that computes the next power of two: the smallest power of
/// two that is at least `x`, continuing from the candidate `p`.
pub open spec fn npot32_from(x: u32, p: u32) -> u32
    decreases 2 * x - p,
{
    if p >= x {
        p
    } else if p == 0 || p >= 0x80000000 {
        0
    } else {
        npot32_from(x, (2 * p) as u32)
    }
}

/// The next power of two of `x`, wrapping to 0 where it would not fit.
pub open spec fn wntpot32_spec(x: u32) -> u32 {
    if x > 0x80000000 {
        0
    } else {
        npot32_from(x, 1)
    }
}

/// As `npot32_from`, for 64 bits.
pub open spec fn npot64_from(x: u64, p: u64) -> u64
    decreases 2 * x - p,
{
    if p >= x {
        p
    } else if p == 0 || p >= 0x8000_0000_0000_0000 {
        0
    } else {
        npot64_from(x, (2 * p) as u64)
    }
}

/// The next power of two of `x`, wrapping to 0 where it would not fit.
pub open spec fn wntpot64_spec(x: u64) -> u64 {
    if x > 0x8000_0000_0000_0000 {
        0
    } else {
        npot64_from(x, 1)
    }
}

/// The smallest power of two that is at least `x`, or 0 where `x` exceeds the
/// largest 32-bit power of two.
pub fn wrapping_next_power_of_two_u32(x: u32) -> (r: u32)
    ensures
        r == wntpot32_spec(x),
{
    if x > 0x80000000 {
        return 0;
    }
    let mut p: u32 = 1;
    while p < x
        invariant
            1 <= p,
            x <= 0x80000000,
            wntpot32_spec(x) == npot32_from(x, p),
        decreases 2 * x - p,
    {
        p = 2 * p;
    }
    p
}

/// The smallest power of two that is at least `x`, or 0 where `x` exceeds the
/// largest 64-bit power of two.
pub fn wrapping_next_power_of_two_u64(x: u64) -> (r: u64)
    ensures
        r == wntpot64_spec(x),
{
    if x > 0x8000_0000_0000_0000 {
        return 0;
    }
    let mut p: u64 = 1;
    while p < x
        invariant
            1 <= p,
            x <= 0x8000_0000_0000_0000,
            wntpot64_spec(x) == npot64_from(x, p),
        decreases 2 * x - p,
    {
        p = 2 * p;
    }
    p
}

/// The mask used to sample below `m`: one less than the next power of two,
/// all ones where that power wrapped to zero.
pub open spec fn mask32(m: u32) -> u32 {
    u32_specs::wrapping_sub(wntpot32_spec(m), 1)
}

/// As `mask32`, for 64 bits.
pub open spec fn mask64(m: u64) -> u64 {
    u64_specs::wrapping_sub(wntpot64_spec(m), 1)
}

/// Whether the masked draw `x` is accepted for the bound `m`.
pub open spec fn accept32(x: u32, m: u32) -> bool {
    (mask32(m) & x) < m
}

/// Whether the masked draw `x` is accepted for the bound `m`.
pub open spec fn accept64(x: u64, m: u64) -> bool {
    (mask64(m) & x) < m
}

/// The first `k` draws from `g` are rejected for the bound `m` and draw `k`
/// is accepted.
pub open spec fn mask_reject32_at<G: Rand>(g: G, m: u32, k: nat) -> bool {
    (forall|j: nat| j < k ==> !accept32(#[trigger] draw32(g, j), m)) && accept32(
        draw32(g, k),
        m,
    )
}

/// As `mask_reject32_at`, over 64-bit draws.
pub open spec fn mask_reject64_at<G: Rand>(g: G, m: u64, k: nat) -> bool {
    (forall|j: nat| j < k ==> !accept64(#[trigger] draw64(g, j), m)) && accept64(
        draw64(g, k),
        m,
    )
}

/// What masked rejection sampling over 32-bit draws returns: the first
/// accepted draw, masked, with the state advanced past it — or, only after
/// `DRAW_LIMIT` straight rejections, zero.
pub open spec fn mask_reject32_post<G: Rand>(pre: G, post: G, m: u32, r: u32) -> bool {
    (exists|k: nat|
        k < DRAW_LIMIT && #[trigger] mask_reject32_at(pre, m, k) && post == state32_after(
            pre,
            k + 1,
        ) && r == mask32(m) & draw32(pre, k)) || ((forall|j: nat|
        j < DRAW_LIMIT ==> !accept32(#[trigger] draw32(pre, j), m)) && post == state32_after(
        pre,
        DRAW_LIMIT as nat,
    ) && r == 0)
}

/// As `mask_reject32_post`, over 64-bit draws.
pub open spec fn mask_reject64_post<G: Rand>(pre: G, post: G, m: u64, r: u64) -> bool {
    (exists|k: nat|
        k < DRAW_LIMIT && #[trigger] mask_reject64_at(pre, m, k) && post == state64_after(
            pre,
            k + 1,
        ) && r == mask64(m) & draw64(pre, k)) || ((forall|j: nat|
        j < DRAW_LIMIT ==> !accept64(#[trigger] draw64(pre, j), m)) && post == state64_after(
        pre,
        DRAW_LIMIT as nat,
    ) && r == 0)
}

/// A sample from the uniform distribution on `0..m`, by masked rejection
/// over 32-bit draws.
pub fn rand_bounded_u32<G: Rand>(g: &mut G, m: u32) -> (r: u32)
    requires
        m > 0,
    ensures
        r < m,
        mask_reject32_post(*old(g), *final(g), m, r),
{
    let mask = wrapping_next_power_of_two_u32(m).wrapping_sub(1);
    let mut tries: u64 = 0;
    while tries < DRAW_LIMIT
        invariant
            m > 0,
            mask == mask32(m),
            tries <= DRAW_LIMIT,
            *g == state32_after(*old(g), tries as nat),
            forall|j: nat| j < tries ==> !accept32(#[trigger] draw32(*old(g), j), m),
        decreases DRAW_LIMIT - tries,
    {
        proof {
            lemma_state32_after_snoc(*old(g), tries as nat);
        }
        let x = mask & g.rand_u32();
        if x < m {
            proof {
                assert(mask_reject32_at(*old(g), m, tries as nat));
            }
            return x;
        }
        tries = tries + 1;
    }
    0
}

/// A sample from the uniform distribution on `0..m`, by masked rejection
/// over 64-bit draws.
pub fn rand_bounded_u64<G: Rand>(g: &mut G, m: u64) -> (r: u64)
    requires
        m > 0,
    ensures
        r < m,
        mask_reject64_post(*old(g), *final(g), m, r),
{
    let mask = wrapping_next_power_of_two_u64(m).wrapping_sub(1);
    let mut tries: u64 = 0;
    while tries < DRAW_LIMIT
        invariant
            m > 0,
            mask == mask64(m),
            tries <= DRAW_LIMIT,
            *g == state64_after(*old(g), tries as nat),
            forall|j: nat| j < tries ==> !accept64(#[trigger] draw64(*old(g), j), m),
        decreases DRAW_LIMIT - tries,
    {
        proof {
            lemma_state64_after_snoc(*old(g), tries as nat);
        }
        let x = mask & g.rand_u64();
        if x < m {
            proof {
                assert(mask_reject64_at(*old(g), m, tries as nat));
            }
            return x;
        }
        tries = tries + 1;
    }
    0
}

/// Masking with one less than a positive bound stays below the bound.
proof fn lemma_mask_below32(m: u32, x: u32)
    by (bit_vector)
    requires
        m >= 1,
    ensures
        (((m - 1) as u32) & x) < m,
{
}

/// Masking with one less than a positive bound stays below the bound.
proof fn lemma_mask_below64(m: u64, x: u64)
    by (bit_vector)
    requires
        m >= 1,
    ensures
        (((m - 1) as u64) & x) < m,
{
}

/// For a power of two `x`, the doubling search from a power of two at most
/// `x` ends at `x` itself.
proof fn lemma_npot32_pow2(x: u32, p: u32, em: nat, ep: nat)
    requires
        x == pow2(em),
        p == pow2(ep),
        ep <= em,
        em <= 31,
    ensures
        npot32_from(x, p) == x,
    decreases em - ep,
{
    lemma2_to64();
    lemma_pow2_pos(ep);
    if ep == em {
    } else {
        lemma_pow2_strictly_increases(ep, em);
        lemma_pow2_strictly_increases(ep, 31);
        lemma_pow2_adds(ep, 1);
        lemma_npot32_pow2(x, (2 * p) as u32, em, ep + 1);
    }
}

/// As `lemma_npot32_pow2`, for 64 bits.
proof fn lemma_npot64_pow2(x: u64, p: u64, em: nat, ep: nat)
    requires
        x == pow2(em),
        p == pow2(ep),
        ep <= em,
        em <= 63,
    ensures
        npot64_from(x, p) == x,
    decreases em - ep,
{
    lemma2_to64();
    vstd::arithmetic::power2::lemma2_to64_rest();
    lemma_pow2_pos(ep);
    if ep == em {
    } else {
        lemma_pow2_strictly_increases(ep, em);
        lemma_pow2_strictly_increases(ep, 63);
        lemma_pow2_adds(ep, 1);
        lemma_npot64_pow2(x, (2 * p) as u64, em, ep + 1);
    }
}

/// For a power-of-two bound `m == 2^e`, the sampling mask is exactly `m - 1`.
pub proof fn lemma_mask32_pow2(m: u32, e: nat)
    requires
        m == pow2(e),
    ensures
        mask32(m) == (m - 1) as u32,
{
    lemma2_to64();
    vstd::arithmetic::power2::lemma2_to64_rest();
    lemma_pow2_pos(e);
    if e >= 32 {
        if e > 32 {
            lemma_pow2_strictly_increases(32, e);
        }
        assert(false);
    }
    lemma_npot32_pow2(m, 1, e, 0);
}

/// For a power-of-two bound `m == 2^e`, the sampling mask is exactly `m - 1`.
pub proof fn lemma_mask64_pow2(m: u64, e: nat)
    requires
        m == pow2(e),
    ensures
        mask64(m) == (m - 1) as u64,
{
    lemma2_to64();
    vstd::arithmetic::power2::lemma2_to64_rest();
    lemma_pow2_pos(e);
    if e >= 64 {
        if e > 64 {
            lemma_pow2_strictly_increases(64, e);
        }
        assert(false);
    }
    lemma_npot64_pow2(m, 1, e, 0);
}

/// With a power-of-two bound `m == 2^e`, every draw is accepted: bounded
/// sampling consumes exactly one draw and returns it masked with `m - 1`.
pub proof fn lemma_mask_reject32_pow2_first_draw<G: Rand>(
    pre: G,
    post: G,
    m: u32,
    r: u32,
    e: nat,
)
    requires
        m == pow2(e),
        mask_reject32_post(pre, post, m, r),
    ensures
        post == state32_after(pre, 1),
        r == ((m - 1) as u32) & draw32(pre, 0),
{
    lemma_mask32_pow2(m, e);
    lemma_pow2_pos(e);
    lemma_mask_below32(m, draw32(pre, 0));
    assert(accept32(draw32(pre, 0), m));
    if exists|k: nat|
        k < DRAW_LIMIT && #[trigger] mask_reject32_at(pre, m, k) && post == state32_after(
            pre,
            k + 1,
        ) && r == mask32(m) & draw32(pre, k) {
        let k = choose|k: nat|
            k < DRAW_LIMIT && #[trigger] mask_reject32_at(pre, m, k) && post == state32_after(
                pre,
                k + 1,
            ) && r == mask32(m) & draw32(pre, k);
        if k != 0 {
            assert(!accept32(draw32(pre, 0), m));
        }
    } else {
        assert(!accept32(draw32(pre, 0), m));
    }
}

/// With a power-of-two bound `m == 2^e`, every draw is accepted: bounded
/// sampling consumes exactly one draw and returns it masked with `m - 1`.
pub proof fn lemma_mask_reject64_pow2_first_draw<G: Rand>(
    pre: G,
    post: G,
    m: u64,
    r: u64,
    e: nat,
)
    requires
        m == pow2(e),
        mask_reject64_post(pre, post, m, r),
    ensures
        post == state64_after(pre, 1),
        r == ((m - 1) as u64) & draw64(pre, 0),
{
    lemma_mask64_pow2(m, e);
    lemma_pow2_pos(e);
    lemma_mask_below64(m, draw64(pre, 0));
    assert(accept64(draw64(pre, 0), m));
    if exists|k: nat|
        k < DRAW_LIMIT && #[trigger] mask_reject64_at(pre, m, k) && post == state64_after(
            pre,
            k + 1,
        ) && r == mask64(m) & draw64(pre, k) {
        let k = choose|k: nat|
            k < DRAW_LIMIT && #[trigger] mask_reject64_at(pre, m, k) && post == state64_after(
                pre,
                k + 1,
            ) && r == mask64(m) & draw64(pre, k);
        if k != 0 {
            assert(!accept64(draw64(pre, 0), m));
        }
    } else {
        assert(!accept64(draw64(pre, 0), m));
    }
}

/// Bounded sampling is deterministic: from one starting state and one bound,
/// the contract admits exactly one final state and one result.
pub proof fn lemma_mask_reject32_deterministic<G: Rand>(
    pre: G,
    m: u32,
    post1: G,
    r1: u32,
    post2: G,
    r2: u32,
)
    requires
        mask_reject32_post(pre, post1, m, r1),
        mask_reject32_post(pre, post2, m, r2),
    ensures
        post1 == post2,
        r1 == r2,
{
    if exists|k: nat| k < DRAW_LIMIT && #[trigger] mask_reject32_at(pre, m, k) {
        let k = choose|k: nat| k < DRAW_LIMIT && #[trigger] mask_reject32_at(pre, m, k);
        assert forall|k1: nat, k2: nat|
            mask_reject32_at(pre, m, k1) && mask_reject32_at(pre, m, k2) implies k1 == k2 by {
            if k1 < k2 {
                assert(!accept32(draw32(pre, k1), m));
            }
            if k2 < k1 {
                assert(!accept32(draw32(pre, k2), m));
            }
        }
        assert(mask_reject32_at(pre, m, k));
    }
}

/// Bounded sampling is deterministic: from one starting state and one bound,
/// the contract admits exactly one final state and one result.
pub proof fn lemma_mask_reject64_deterministic<G: Rand>(
    pre: G,
    m: u64,
    post1: G,
    r1: u64,
    post2: G,
    r2: u64,
)
    requires
        mask_reject64_post(pre, post1, m, r1),
        mask_reject64_post(pre, post2, m, r2),
    ensures
        post1 == post2,
        r1 == r2,
{
    if exists|k: nat| k < DRAW_LIMIT && #[trigger] mask_reject64_at(pre, m, k) {
        let k = choose|k: nat| k < DRAW_LIMIT && #[trigger] mask_reject64_at(pre, m, k);
        assert forall|k1: nat, k2: nat|
            mask_reject64_at(pre, m, k1) && mask_reject64_at(pre, m, k2) implies k1 == k2 by {
            if k1 < k2 {
                assert(!accept64(draw64(pre, k1), m));
            }
            if k2 < k1 {
                assert(!accept64(draw64(pre, k2), m));
            }
        }
        assert(mask_reject64_at(pre, m, k));
    }
}

/// A sample from the uniform distribution on `0..m`, by masked rejection over
/// 64-bit draws.
pub fn rand_bounded_usize<G: Rand>(g: &mut G, m: usize) -> (r: usize)
    requires
        m > 0,
    ensures
        r < m,
        mask_reject64_post(*old(g), *final(g), m as u64, r as u64),
{
    let r = rand_bounded_u64(g, m as u64);
    #[verifier::truncate]
    let r_small = r as usize;
    r_small
}

} // verus!
