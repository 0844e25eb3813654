//! The acquisition function: where to query next.
//!
//! The criterion is the upper confidence bound, `mean(x) + 2 * sigma(x)`,
//! a standard exploration-exploitation trade-off computed from the
//! regressor's posterior mean and variance (the standard deviation is an
//! exact integer square root of the fixed-point variance). The search is a
//! derivative-free multi-start scheme: the current best training point plus
//! pseudo-random restarts, followed by greedy coordinate refinement, all
//! within the unit box. The proposal is therefore never worse, under the
//! criterion, than the incumbent best point, and ties among restarts go to
//! the earliest.

use vstd::prelude::*;
use crate::fixed::{SCALE, mul_wide};
use crate::points::{valid_point, copy_point};
use crate::rng::{Lcg, lcg_iter, drawn_pt, lemma_lcg_iter_add, lemma_drawn_pt_shift};
use crate::dataset::pts_view;
use crate::regressor::{RegressorState, spec_pmean, spec_pvar, best_to, same_model, lemma_prediction_congruent};

verus! {

/// Number of pseudo-random restarts of the acquisition search.
pub const ACQ_RESTARTS: usize = 8;

/// Coordinate step of the greedy refinement (0.1).
pub const LOCAL_STEP: i64 = 100_000;

/// Refinement passes over all coordinates.
pub const REFINE_PASSES: usize = 2;

/// The integer square root, rounded down.
pub open spec fn sqrt_floor(n: int) -> int
    decreases
            (if n >= 0 {
                n
            } else {
                0
            }),
{
    if n <= 0 {
        0
    } else {
        let p = sqrt_floor(n - 1);
        if (p + 1) * (p + 1) <= n {
            p + 1
        } else {
            p
        }
    }
}

/// `sqrt_floor(n)` brackets `n` between consecutive squares.
pub proof fn lemma_sqrt_floor_bracket(n: int)
    requires
        n >= 0,
    ensures
        sqrt_floor(n) >= 0,
        sqrt_floor(n) * sqrt_floor(n) <= n,
        n < (sqrt_floor(n) + 1) * (sqrt_floor(n) + 1),
    decreases n,
{
    if n > 0 {
        lemma_sqrt_floor_bracket(n - 1);
        let p = sqrt_floor(n - 1);
        if (p + 1) * (p + 1) <= n {
            assert(n < (p + 2) * (p + 2)) by (nonlinear_arith)
                requires
                    p >= 0,
                    n - 1 < (p + 1) * (p + 1),
            ;
        }
    }
}

/// Any bracketing root equals `sqrt_floor(n)`.
pub proof fn lemma_sqrt_unique(n: int, r: int)
    requires
        n >= 0,
        r >= 0,
        r * r <= n,
        n < (r + 1) * (r + 1),
    ensures
        r == sqrt_floor(n),
{
    lemma_sqrt_floor_bracket(n);
    let s = sqrt_floor(n);
    assert(r == s) by (nonlinear_arith)
        requires
            r >= 0,
            s >= 0,
            r * r <= n,
            n < (r + 1) * (r + 1),
            s * s <= n,
            n < (s + 1) * (s + 1),
    ;
}

/// The integer square root of a machine word.
pub fn isqrt(n: u64) -> (r: u64)
    ensures
        r as int == sqrt_floor(n as int),
        r as int * r as int <= n as int,
        (n as int) < (r as int + 1) * (r as int + 1),
{
    let mut lo: u64 = 0;
    let mut hi: u64 = 4_294_967_296;
    proof {
        assert((4_294_967_296 as int) * (4_294_967_296 as int) > u64::MAX as int) by (nonlinear_arith);
    }
    while hi - lo > 1
        invariant
            lo < hi,
            hi <= 4_294_967_296,
            lo as int * lo as int <= n as int,
            (n as int) < hi as int * hi as int,
        decreases hi - lo,
    {
        let mid: u64 = lo + (hi - lo) / 2;
        proof {
            assert(mid as int * mid as int <= u64::MAX as int) by (nonlinear_arith)
                requires
                    mid < 4_294_967_296,
            ;
        }
        if mid * mid <= n {
            lo = mid;
        } else {
            hi = mid;
        }
    }
    proof {
        lemma_sqrt_unique(n as int, lo as int);
    }
    lo
}

/// The upper confidence bound at `x`: posterior mean plus twice the
/// posterior standard deviation, in fixed point.
pub open spec fn spec_acq(st: RegressorState, x: Seq<i64>) -> int {
    spec_pmean(st, x) + 2 * sqrt_floor(spec_pvar(st, x) * SCALE)
}

/// Evaluate the acquisition criterion at `x`.
pub fn acq_value(st: &RegressorState, x: &Vec<i64>) -> (r: i64)
    requires
        st.wf(),
        valid_point(x@, st.dim as nat),
    ensures
        r == spec_acq(*st, x@),
{
    let m: i64 = st.predict_mean(x);
    let v: i64 = st.predict_variance(x);
    let prod: i128 = mul_wide(v, SCALE);
    proof {
        assert(0 <= v as int * SCALE <= (SCALE as int) * (SCALE as int)) by (nonlinear_arith)
            requires
                0 <= v <= SCALE,
        ;
    }
    let s: u64 = isqrt(prod as u64);
    proof {
        assert(s as int <= SCALE) by (nonlinear_arith)
            requires
                s as int * s as int <= (SCALE as int) * (SCALE as int),
                s as int >= 0,
        ;
    }
    m + 2 * (s as i64)
}

/// Restart candidate `t` of the search: the `t`-th point the generator
/// draws.
pub open spec fn cand_pt(g0: u64, t: int, dim: nat) -> Seq<i64> {
    drawn_pt(g0, t * dim as int, dim)
}

/// The incumbent after the first `t` restarts: start from the best training
/// point and replace it whenever a candidate scores strictly higher, so ties
/// keep the earlier candidate.
pub open spec fn pick_to(st: RegressorState, g0: u64, t: int) -> Seq<i64>
    decreases t,
{
    if t <= 0 {
        pts_view(st.pts@)[best_to(st.latents@, st.pts@.len() as int)]
    } else {
        let prev = pick_to(st, g0, t - 1);
        let c = cand_pt(g0, t - 1, st.dim as nat);
        if spec_acq(st, c) > spec_acq(st, prev) {
            c
        } else {
            prev
        }
    }
}

/// Coordinate `d` stepped up by the refinement step, clamped to the box.
pub open spec fn step_up(p: Seq<i64>, d: int) -> Seq<i64> {
    p.update(
        d,
        if p[d] + LOCAL_STEP > SCALE {
            SCALE
        } else {
            (p[d] + LOCAL_STEP) as i64
        },
    )
}

/// Coordinate `d` stepped down by the refinement step, clamped to the box.
pub open spec fn step_down(p: Seq<i64>, d: int) -> Seq<i64> {
    p.update(
        d,
        if p[d] - LOCAL_STEP < 0 {
            0
        } else {
            (p[d] - LOCAL_STEP) as i64
        },
    )
}

/// One greedy refinement of coordinate `d`: take the step up if it scores
/// strictly higher, then likewise the step down.
pub open spec fn refine_coord(st: RegressorState, p: Seq<i64>, d: int) -> Seq<i64> {
    let p1 = if spec_acq(st, step_up(p, d)) > spec_acq(st, p) {
        step_up(p, d)
    } else {
        p
    };
    if spec_acq(st, step_down(p1, d)) > spec_acq(st, p1) {
        step_down(p1, d)
    } else {
        p1
    }
}

/// The point after greedy refinement of the first `d` coordinates.
pub open spec fn refine_pass_to(st: RegressorState, p: Seq<i64>, d: int) -> Seq<i64>
    decreases d,
{
    if d <= 0 {
        p
    } else {
        refine_coord(st, refine_pass_to(st, p, d - 1), d - 1)
    }
}

/// The point after `t` full refinement passes.
pub open spec fn refine_iters(st: RegressorState, p: Seq<i64>, t: int) -> Seq<i64>
    decreases t,
{
    if t <= 0 {
        p
    } else {
        refine_pass_to(st, refine_iters(st, p, t - 1), st.dim as int)
    }
}

/// The proposal the search returns: the best of the incumbent and the
/// drawn restarts, refined coordinate by coordinate.
pub open spec fn next_point_spec(st: RegressorState, g0: u64) -> Seq<i64> {
    refine_iters(st, pick_to(st, g0, ACQ_RESTARTS as int), REFINE_PASSES as int)
}

/// The acquisition criterion depends only on the observable model.
pub proof fn lemma_acq_congruent(a: RegressorState, b: RegressorState, x: Seq<i64>)
    requires
        same_model(a, b),
    ensures
        spec_acq(a, x) == spec_acq(b, x),
{
    lemma_prediction_congruent(a, b, x);
}

proof fn lemma_pick_to_congruent(a: RegressorState, b: RegressorState, g0: u64, t: int)
    requires
        same_model(a, b),
    ensures
        pick_to(a, g0, t) == pick_to(b, g0, t),
    decreases (if t >= 0 {
        t
    } else {
        0
    }),
{
    assert(a.pts@.len() == b.pts@.len()) by {
        assert(pts_view(a.pts@).len() == pts_view(b.pts@).len());
    }
    if t > 0 {
        lemma_pick_to_congruent(a, b, g0, t - 1);
        lemma_acq_congruent(a, b, cand_pt(g0, t - 1, a.dim as nat));
        lemma_acq_congruent(a, b, pick_to(a, g0, t - 1));
    }
}

proof fn lemma_refine_coord_congruent(a: RegressorState, b: RegressorState, p: Seq<i64>, d: int)
    requires
        same_model(a, b),
    ensures
        refine_coord(a, p, d) == refine_coord(b, p, d),
{
    lemma_acq_congruent(a, b, p);
    lemma_acq_congruent(a, b, step_up(p, d));
    let p1 = if spec_acq(a, step_up(p, d)) > spec_acq(a, p) {
        step_up(p, d)
    } else {
        p
    };
    lemma_acq_congruent(a, b, p1);
    lemma_acq_congruent(a, b, step_down(p1, d));
}

proof fn lemma_refine_pass_congruent(a: RegressorState, b: RegressorState, p: Seq<i64>, d: int)
    requires
        same_model(a, b),
    ensures
        refine_pass_to(a, p, d) == refine_pass_to(b, p, d),
    decreases (if d >= 0 {
        d
    } else {
        0
    }),
{
    if d > 0 {
        lemma_refine_pass_congruent(a, b, p, d - 1);
        lemma_refine_coord_congruent(a, b, refine_pass_to(a, p, d - 1), d - 1);
    }
}

proof fn lemma_refine_iters_congruent(a: RegressorState, b: RegressorState, p: Seq<i64>, t: int)
    requires
        same_model(a, b),
    ensures
        refine_iters(a, p, t) == refine_iters(b, p, t),
    decreases (if t >= 0 {
        t
    } else {
        0
    }),
{
    if t > 0 {
        lemma_refine_iters_congruent(a, b, p, t - 1);
        lemma_refine_pass_congruent(a, b, refine_iters(a, p, t - 1), a.dim as int);
    }
}

/// The search proposal depends only on the observable model and the
/// generator state: two states with the same model yield the same proposal.
pub proof fn lemma_next_point_spec_congruent(a: RegressorState, b: RegressorState, g0: u64)
    requires
        same_model(a, b),
    ensures
        next_point_spec(a, g0) == next_point_spec(b, g0),
{
    lemma_pick_to_congruent(a, b, g0, ACQ_RESTARTS as int);
    lemma_refine_iters_congruent(a, b, pick_to(a, g0, ACQ_RESTARTS as int), REFINE_PASSES as int);
}

/// Propose the next query point: the maximizer of the acquisition criterion
/// over the incumbent best training point, `ACQ_RESTARTS` pseudo-random
/// restarts, and greedy coordinate refinement. The proposal lies in the unit
/// box and scores at least as high as the incumbent best training point.
pub fn next_point(st: &RegressorState, gen: &mut Lcg) -> (r: Vec<i64>)
    requires
        st.wf(),
    ensures
        valid_point(r@, st.dim as nat),
        spec_acq(*st, r@) >= spec_acq(
            *st,
            pts_view(st.pts@)[best_to(st.latents@, st.pts@.len() as int)],
        ),
        r@ == next_point_spec(*st, old(gen).state),
        final(gen).state == lcg_iter(old(gen).state, ACQ_RESTARTS as int * st.dim as int),
{
    let ghost g0: u64 = gen.state;
    let gi: usize = st.arg_max_latent();
    proof {
        assert(pts_view(st.pts@)[gi as int] == st.pts@[gi as int]@);
    }
    let mut best: Vec<i64> = copy_point(&st.pts[gi]);
    let ghost anchor: int = spec_acq(*st, best@);
    let mut bv: i64 = acq_value(st, &best);
    let mut t: usize = 0;
    while t < ACQ_RESTARTS
        invariant
            st.wf(),
            valid_point(best@, st.dim as nat),
            bv == spec_acq(*st, best@),
            spec_acq(*st, best@) >= anchor,
            t <= ACQ_RESTARTS,
            best@ == pick_to(*st, g0, t as int),
            gen.state == lcg_iter(g0, t as int * st.dim as int),
        decreases ACQ_RESTARTS - t,
    {
        let ghost pre: u64 = gen.state;
        let cand: Vec<i64> = gen.next_point(st.dim);
        proof {
            lemma_drawn_pt_shift(g0, t as int * st.dim as int, st.dim as nat);
            assert(cand@ == cand_pt(g0, t as int, st.dim as nat));
            lemma_lcg_iter_add(g0, t as int * st.dim as int, st.dim as int);
            assert(t as int * st.dim as int + st.dim as int == (t + 1) as int * st.dim as int)
                by (nonlinear_arith);
        }
        let v: i64 = acq_value(st, &cand);
        if v > bv {
            best = cand;
            bv = v;
        }
        t = t + 1;
    }
    let ghost base: Seq<i64> = best@;
    let mut pass: usize = 0;
    while pass < REFINE_PASSES
        invariant
            st.wf(),
            valid_point(best@, st.dim as nat),
            bv == spec_acq(*st, best@),
            spec_acq(*st, best@) >= anchor,
            pass <= REFINE_PASSES,
            best@ == refine_iters(*st, base, pass as int),
        decreases REFINE_PASSES - pass,
    {
        let ghost pass_in: Seq<i64> = best@;
        let mut d: usize = 0;
        while d < st.dim
            invariant
                st.wf(),
                valid_point(best@, st.dim as nat),
                bv == spec_acq(*st, best@),
                spec_acq(*st, best@) >= anchor,
                d <= st.dim,
                best@ == refine_pass_to(*st, pass_in, d as int),
            decreases st.dim - d,
        {
            let ghost before: Seq<i64> = best@;
            let up: i64 = if best[d] + LOCAL_STEP > SCALE {
                SCALE
            } else {
                best[d] + LOCAL_STEP
            };
            let mut cand: Vec<i64> = copy_point(&best);
            cand[d] = up;
            proof {
                assert(cand@ =~= step_up(before, d as int));
                assert(valid_point(cand@, st.dim as nat));
            }
            let v: i64 = acq_value(st, &cand);
            if v > bv {
                best = cand;
                bv = v;
            }
            let down: i64 = if best[d] - LOCAL_STEP < 0 {
                0
            } else {
                best[d] - LOCAL_STEP
            };
            let mut cand2: Vec<i64> = copy_point(&best);
            cand2[d] = down;
            proof {
                assert(cand2@ =~= step_down(best@, d as int));
                assert(valid_point(cand2@, st.dim as nat));
            }
            let v2: i64 = acq_value(st, &cand2);
            if v2 > bv {
                best = cand2;
                bv = v2;
            }
            proof {
                assert(best@ == refine_coord(*st, before, d as int));
            }
            d = d + 1;
        }
        pass = pass + 1;
    }
    proof {
        assert(anchor == spec_acq(*st, pts_view(st.pts@)[best_to(st.latents@, st.pts@.len() as int)]));
    }
    best
}

} // verus!
