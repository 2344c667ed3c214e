//! The Fisher–Yates shuffle, specified exactly.
//!
//! Walking the positions from the top down, each position is swapped with a
//! bounded-sampled position at or below it. `shuffle_steps` is the
//! mathematical description of that walk: it relates the generator states and
//! the array contents before and after, one bounded draw per position.

use vstd::prelude::*;

verus! {

use vstd::seq_lib::to_multiset_update;
use vstd::seq_lib::group_to_multiset_ensures;
use crate::bounded::mask_reject64_post;
use crate::rand::Rand;

/// A mutable borrow of one slice element.
fn slice_index_mut<T>(a: &mut [T], i: usize) -> (element: &mut T)
    requires
        i < old(a)@.len(),
    ensures
        *element == old(a)@[i as int],
        final(a)@ == old(a)@.update(i as int, *final(element)),
{
    &mut a[i]
}

/// Exchange the elements at `i` and `j` in place.
pub fn swap_in_slice<T>(a: &mut [T], i: usize, j: usize)
    requires
        i < old(a)@.len(),
        j < old(a)@.len(),
    ensures
        final(a)@ == swap_seq(old(a)@, i as int, j as int),
{
    if i == j {
        proof {
            assert(swap_seq(old(a)@, i as int, j as int) =~= old(a)@);
        }
        return ;
    }
    let lo: usize = if i < j {
        i
    } else {
        j
    };
    let hi: usize = if i < j {
        j
    } else {
        i
    };
    let (left, right) = a.split_at_mut(hi);
    let pl = slice_index_mut(left, lo);
    let pr = slice_index_mut(right, 0);
    core::mem::swap(pl, pr);
    proof {
        assert(a@ =~= swap_seq(old(a)@, i as int, j as int));
    }
}

/// The sequence with the elements at `i` and `j` exchanged.
pub open spec fn swap_seq<T>(a: Seq<T>, i: int, j: int) -> Seq<T> {
    a.update(i, a[j]).update(j, a[i])
}

/// The Fisher–Yates walk from position `hi` down to position `lo + 1`:
/// starting at generator state `g0` and contents `a0`, each position `i` is
/// swapped with a position `j <= i` obtained by a bounded sample on `0..=i`,
/// ending at state `g1` and contents `a1`.
pub open spec fn shuffle_steps<G: Rand, T>(
    g0: G,
    g1: G,
    a0: Seq<T>,
    a1: Seq<T>,
    hi: int,
    lo: int,
) -> bool
    decreases hi - lo,
{
    if hi <= lo {
        g1 == g0 && a1 == a0
    } else {
        exists|gm: G, j: usize|
            j <= hi && #[trigger] mask_reject64_post(g0, gm, (hi + 1) as u64, j as u64)
                && shuffle_steps(gm, g1, swap_seq(a0, hi, j as int), a1, hi - 1, lo)
    }
}

/// Exchanging two elements leaves a sequence's multiset of elements as it
/// was.
pub proof fn lemma_swap_seq_multiset<T>(a: Seq<T>, i: int, j: int)
    requires
        0 <= i < a.len(),
        0 <= j < a.len(),
    ensures
        swap_seq(a, i, j).to_multiset() =~= a.to_multiset(),
        swap_seq(a, i, j).len() == a.len(),
{
    broadcast use group_to_multiset_ensures;
    broadcast use vstd::multiset::group_multiset_axioms;
    broadcast use vstd::multiset::group_multiset_properties;

    let b = a.update(i, a[j]);
    to_multiset_update(a, i, a[j]);
    assert(b[j] == a[j]);
    to_multiset_update(b, j, a[i]);
    assert(a.to_multiset().contains(a[i]));
    assert(swap_seq(a, i, j).to_multiset() =~= a.to_multiset());
}

/// One more swap at the low end extends a Fisher–Yates walk by one position.
pub proof fn lemma_shuffle_steps_extend<G: Rand, T>(
    g0: G,
    gm: G,
    g2: G,
    a0: Seq<T>,
    am: Seq<T>,
    hi: int,
    i: int,
    j: usize,
)
    requires
        0 <= i <= hi,
        shuffle_steps(g0, gm, a0, am, hi, i),
        j <= i,
        mask_reject64_post(gm, g2, (i + 1) as u64, j as u64),
    ensures
        shuffle_steps(g0, g2, a0, swap_seq(am, i, j as int), hi, i - 1),
    decreases hi - i,
{
    if hi <= i {
        assert(gm == g0 && am == a0);
        let a_next = swap_seq(a0, hi, j as int);
        assert(shuffle_steps(g2, g2, a_next, a_next, hi - 1, i - 1));
        assert(j <= hi && mask_reject64_post(g0, g2, (hi + 1) as u64, j as u64) && shuffle_steps(
            g2,
            g2,
            swap_seq(a0, hi, j as int),
            swap_seq(am, i, j as int),
            hi - 1,
            i - 1,
        ));
    } else {
        let (gm1, j1) = choose|gm1: G, j1: usize|
            j1 <= hi && #[trigger] mask_reject64_post(g0, gm1, (hi + 1) as u64, j1 as u64)
                && shuffle_steps(gm1, gm, swap_seq(a0, hi, j1 as int), am, hi - 1, i);
        lemma_shuffle_steps_extend(gm1, gm, g2, swap_seq(a0, hi, j1 as int), am, hi - 1, i, j);
        assert(j1 <= hi && mask_reject64_post(g0, gm1, (hi + 1) as u64, j1 as u64)
            && shuffle_steps(
            gm1,
            g2,
            swap_seq(a0, hi, j1 as int),
            swap_seq(am, i, j as int),
            hi - 1,
            i - 1,
        ));
    }
}

/// Shuffling a slice of length 0 or 1 is a no-op: it leaves the generator
/// state and the contents exactly as they were, drawing nothing.
pub proof fn lemma_shuffle_tiny_noop<G: Rand, T>(g0: G, g1: G, a0: Seq<T>, a1: Seq<T>)
    requires
        a0.len() <= 1,
        shuffle_steps(g0, g1, a0, a1, a0.len() - 1, 0),
    ensures
        g1 == g0,
        a1 == a0,
{
}

/// A Fisher–Yates walk is a permutation: it leaves the multiset of elements,
/// and so the length, as they were.
pub proof fn lemma_shuffle_steps_multiset<G: Rand, T>(
    g0: G,
    g1: G,
    a0: Seq<T>,
    a1: Seq<T>,
    hi: int,
    lo: int,
)
    requires
        0 <= lo,
        hi < a0.len(),
        shuffle_steps(g0, g1, a0, a1, hi, lo),
    ensures
        a1.to_multiset() == a0.to_multiset(),
        a1.len() == a0.len(),
    decreases hi - lo,
{
    if hi <= lo {
    } else {
        let (gm, j) = choose|gm: G, j: usize|
            j <= hi && #[trigger] mask_reject64_post(g0, gm, (hi + 1) as u64, j as u64)
                && shuffle_steps(gm, g1, swap_seq(a0, hi, j as int), a1, hi - 1, lo);
        lemma_swap_seq_multiset(a0, hi, j as int);
        lemma_shuffle_steps_multiset(gm, g1, swap_seq(a0, hi, j as int), a1, hi - 1, lo);
    }
}

/// The Fisher–Yates walk is deterministic: from one starting state and one
/// starting arrangement, it admits exactly one final state and one final
/// arrangement — the shuffled order is a function of the seed.
pub proof fn lemma_shuffle_steps_deterministic<G: Rand, T>(
    g0: G,
    a0: Seq<T>,
    g1: G,
    a1: Seq<T>,
    g2: G,
    a2: Seq<T>,
    hi: int,
    lo: int,
)
    requires
        shuffle_steps(g0, g1, a0, a1, hi, lo),
        shuffle_steps(g0, g2, a0, a2, hi, lo),
    ensures
        g1 == g2,
        a1 == a2,
    decreases hi - lo,
{
    if hi > lo {
        let (gm1, j1) = choose|gm1: G, j1: usize|
            j1 <= hi && #[trigger] mask_reject64_post(g0, gm1, (hi + 1) as u64, j1 as u64)
                && shuffle_steps(gm1, g1, swap_seq(a0, hi, j1 as int), a1, hi - 1, lo);
        let (gm2, j2) = choose|gm2: G, j2: usize|
            j2 <= hi && #[trigger] mask_reject64_post(g0, gm2, (hi + 1) as u64, j2 as u64)
                && shuffle_steps(gm2, g2, swap_seq(a0, hi, j2 as int), a2, hi - 1, lo);
        crate::bounded::lemma_mask_reject64_deterministic(
            g0,
            (hi + 1) as u64,
            gm1,
            j1 as u64,
            gm2,
            j2 as u64,
        );
        lemma_shuffle_steps_deterministic(
            gm1,
            swap_seq(a0, hi, j1 as int),
            g1,
            a1,
            g2,
            a2,
            hi - 1,
            lo,
        );
    }
}

} // verus!
