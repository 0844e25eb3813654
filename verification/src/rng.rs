//! A small deterministic pseudo-random generator.
//!
//! Round zero of a session has no data to condition on, so its slider
//! endpoints are drawn pseudo-randomly, and the acquisition search restarts
//! from pseudo-random seeds. A linear congruential generator is enough for
//! both and keeps every run reproducible from its seed.

use vstd::prelude::*;
use crate::fixed::SCALE;
use crate::points::valid_point;

verus! {

pub const LCG_MUL: u64 = 6364136223846793005;
pub const LCG_INC: u64 = 1442695040888963407;
/// The modulus of the generator: two to the word width.
pub open spec fn two_64() -> int {
    0x1_0000_0000_0000_0000
}

/// The generator state after one step.
pub open spec fn lcg_next(s: u64) -> u64 {
    ((s as int * LCG_MUL as int + LCG_INC as int) % two_64()) as u64
}

/// The generator state after `k` steps.
pub open spec fn lcg_iter(s: u64, k: int) -> u64
    decreases k,
{
    if k <= 0 {
        s
    } else {
        lcg_next(lcg_iter(s, k - 1))
    }
}

/// The coordinate in `[0, SCALE]` read off a generator state.
pub open spec fn coord_of(s: u64) -> i64 {
    (((s as int) / 1024) % (SCALE as int + 1)) as i64
}

/// The point a generator in state `g0` yields after first taking `k0` steps:
/// coordinate `i` reads the state after `k0 + i + 1` steps.
pub open spec fn drawn_pt(g0: u64, k0: int, dim: nat) -> Seq<i64> {
    Seq::new(dim, |i: int| coord_of(lcg_iter(g0, k0 + i + 1)))
}

/// Stepping in two stages is one longer walk.
pub proof fn lemma_lcg_iter_add(s: u64, a: int, b: int)
    requires
        a >= 0,
        b >= 0,
    ensures
        lcg_iter(lcg_iter(s, a), b) == lcg_iter(s, a + b),
    decreases b,
{
    if b > 0 {
        lemma_lcg_iter_add(s, a, b - 1);
    }
}

/// A point drawn after advancing the generator `a` steps is the point drawn
/// at offset `a` from the original state.
pub proof fn lemma_drawn_pt_shift(g0: u64, a: int, dim: nat)
    requires
        a >= 0,
    ensures
        drawn_pt(lcg_iter(g0, a), 0, dim) == drawn_pt(g0, a, dim),
{
    assert forall|i: int| 0 <= i < dim implies #[trigger] drawn_pt(lcg_iter(g0, a), 0, dim)[i]
        == drawn_pt(g0, a, dim)[i] by {
        lemma_lcg_iter_add(g0, a, i + 1);
    }
    assert(drawn_pt(lcg_iter(g0, a), 0, dim) =~= drawn_pt(g0, a, dim));
}

pub struct Lcg {
    pub state: u64,
}

impl Lcg {
    pub fn new(seed: u64) -> (r: Lcg)
        ensures
            r.state == seed,
    {
        Lcg { state: seed }
    }

    /// Advance the generator one step.
    pub fn step(&mut self) -> (r: u64)
        ensures
            final(self).state == lcg_next(old(self).state),
            r == final(self).state,
    {
        let s0 = self.state;
        let m = s0.wrapping_mul(LCG_MUL);
        let s1 = m.wrapping_add(LCG_INC);
        proof {
            let p = s0 as int * LCG_MUL as int;
            assert(m as int == p % two_64());
            assert(s1 as int == (p % two_64() + LCG_INC as int) % two_64());
            vstd::arithmetic::div_mod::lemma_add_mod_noop(p, LCG_INC as int, two_64());
            vstd::arithmetic::div_mod::lemma_small_mod(LCG_INC as nat, two_64() as nat);
        }
        self.state = s1;
        s1
    }

    /// Draw one coordinate in `[0, SCALE]`.
    pub fn next_coord(&mut self) -> (r: i64)
        ensures
            final(self).state == lcg_next(old(self).state),
            r == coord_of(final(self).state),
            0 <= r <= SCALE,
    {
        let s = self.step();
        let c = (s / 1024) % ((SCALE as u64) + 1);
        proof {
            vstd::arithmetic::div_mod::lemma_mod_bound((s as int) / 1024, SCALE as int + 1);
        }
        c as i64
    }

    /// Draw a point of dimension `dim` with every coordinate in `[0, SCALE]`.
    pub fn next_point(&mut self, dim: usize) -> (r: Vec<i64>)
        ensures
            valid_point(r@, dim as nat),
            final(self).state == lcg_iter(old(self).state, dim as int),
            forall|i: int| 0 <= i < dim ==> #[trigger] r@[i] == coord_of(lcg_iter(old(self).state, i + 1)),
            r@ == drawn_pt(old(self).state, 0, dim as nat),
    {
        let mut r: Vec<i64> = Vec::new();
        let mut i: usize = 0;
        while i < dim
            invariant
                i <= dim,
                r@.len() == i,
                self.state == lcg_iter(old(self).state, i as int),
                forall|j: int| 0 <= j < i ==> 0 <= #[trigger] r@[j] <= SCALE,
                forall|j: int| 0 <= j < i ==> #[trigger] r@[j] == coord_of(lcg_iter(old(self).state, j + 1)),
            decreases dim - i,
        {
            let c = self.next_coord();
            r.push(c);
            i = i + 1;
        }
        proof {
            assert(r@ =~= drawn_pt(old(self).state, 0, dim as nat));
        }
        r
    }
}

} // verus!
