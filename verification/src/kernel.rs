//! The covariance (kernel) function of the surrogate model.
//!
//! The kernel is a rational-quadratic decay with unit shape parameter (the
//! Cauchy kernel), `k(p, q) = signal_var / (1 + d2(p, q) / (2 * ls^2))`,
//! where `d2` is the squared euclidean distance. It is symmetric, bounded by
//! the signal variance, attains that bound exactly at zero distance, and is
//! positive definite over distinct points; unlike the squared-exponential
//! kernel it needs no transcendental function, so it has an exact fixed-point
//! form.

use vstd::prelude::*;
use crate::fixed::{SCALE, div_tz, iabs, lemma_div_tz_bound, lemma_div_tz_exact, mul_wide, div_tz_wide, div_nn};
use crate::points::{valid_point, sqdist_to, sqdist, lemma_sqdist_bound, lemma_sqdist_symmetric, lemma_sqdist_self};

verus! {

/// Smallest accepted length scale (the real value 0.01).
pub const MIN_LENGTH_SCALE: i64 = 10_000;

/// Largest accepted length scale (the real value 10.0).
pub const MAX_LENGTH_SCALE: i64 = 10_000_000;

/// Kernel hyperparameters, in fixed point: the length scale of the distance
/// decay, the signal variance (the prior variance of the latent utility), and
/// the slip margin by which a preferred point's latent utility must exceed a
/// dispreferred one's before the fit regards the comparison as satisfied.
#[derive(Clone, Copy)]
pub struct Hyperparameters {
    pub length_scale: i64,
    pub signal_var: i64,
    pub slip: i64,
}

impl Hyperparameters {
    pub open spec fn wf(self) -> bool {
        &&& MIN_LENGTH_SCALE <= self.length_scale <= MAX_LENGTH_SCALE
        &&& 0 < self.signal_var <= SCALE
        &&& 0 < self.slip <= SCALE
    }
}

/// The covariance of two points under hyperparameters `h`, in fixed point.
pub open spec fn spec_cov(p: Seq<i64>, q: Seq<i64>, h: Hyperparameters) -> int {
    let r2 = sqdist_to(p, q, p.len() as int) / (SCALE as int);
    let ls2 = div_tz(h.length_scale as int * h.length_scale as int, SCALE as int);
    let denom = SCALE as int + div_tz(r2 * SCALE, 2 * ls2);
    div_tz(h.signal_var as int * SCALE, denom)
}

/// The covariance is symmetric in its two points.
pub proof fn lemma_cov_symmetric(p: Seq<i64>, q: Seq<i64>, h: Hyperparameters)
    requires
        p.len() == q.len(),
    ensures
        spec_cov(p, q, h) == spec_cov(q, p, h),
{
    lemma_sqdist_symmetric(p, q, p.len() as int);
}

/// At zero distance the covariance equals the signal variance exactly.
pub proof fn lemma_cov_self(p: Seq<i64>, h: Hyperparameters)
    requires
        h.wf(),
    ensures
        spec_cov(p, p, h) == h.signal_var,
{
    lemma_sqdist_self(p, p.len() as int);
    assert(0int / (SCALE as int) == 0);
    assert(div_tz(0 * SCALE, 2 * div_tz(h.length_scale as int * h.length_scale as int, SCALE as int)) == 0) by {
        assert(0 * SCALE == 0);
        assert(MIN_LENGTH_SCALE as int * MIN_LENGTH_SCALE as int <= h.length_scale as int * h.length_scale as int) by (nonlinear_arith)
            requires
                MIN_LENGTH_SCALE <= h.length_scale,
        ;
        assert(div_tz(h.length_scale as int * h.length_scale as int, SCALE as int) >= 100) by (nonlinear_arith)
            requires
                h.length_scale as int * h.length_scale as int >= 100_000_000,
        ;
    }
    lemma_div_tz_exact(h.signal_var as int, SCALE as int);
}

/// The squared length scale in fixed point, at least 100 and at most
/// `100 * SCALE` for well-formed hyperparameters.
pub proof fn lemma_ls2_range(h: Hyperparameters)
    requires
        h.wf(),
    ensures
        100 <= div_tz(h.length_scale as int * h.length_scale as int, SCALE as int) <= 100 * SCALE,
{
    assert(100_000_000 <= h.length_scale as int * h.length_scale as int <= 100_000_000_000_000) by (nonlinear_arith)
        requires
            MIN_LENGTH_SCALE <= h.length_scale <= MAX_LENGTH_SCALE,
    ;
    assert(100 <= (h.length_scale as int * h.length_scale as int) / (SCALE as int) <= 100 * SCALE) by (nonlinear_arith)
        requires
            100_000_000 <= h.length_scale as int * h.length_scale as int <= 100_000_000_000_000,
    ;
}

/// The covariance never grows with distance: of two points, the farther one
/// has the smaller (or equal) covariance with `p`.
pub proof fn lemma_cov_decreasing(p: Seq<i64>, qa: Seq<i64>, qb: Seq<i64>, h: Hyperparameters, dim: nat)
    requires
        h.wf(),
        valid_point(p, dim),
        valid_point(qa, dim),
        valid_point(qb, dim),
        sqdist_to(p, qa, p.len() as int) <= sqdist_to(p, qb, p.len() as int),
    ensures
        spec_cov(p, qb, h) <= spec_cov(p, qa, h),
{
    let n = p.len() as int;
    lemma_sqdist_bound(p, qa, n);
    lemma_sqdist_bound(p, qb, n);
    let sa = sqdist_to(p, qa, n);
    let sb = sqdist_to(p, qb, n);
    vstd::arithmetic::div_mod::lemma_div_is_ordered(sa, sb, SCALE as int);
    let r2a = sa / (SCALE as int);
    let r2b = sb / (SCALE as int);
    assert(0 <= r2a) by (nonlinear_arith)
        requires
            sa >= 0,
            r2a == sa / (SCALE as int),
    ;
    lemma_ls2_range(h);
    let ls2 = div_tz(h.length_scale as int * h.length_scale as int, SCALE as int);
    assert(0 <= r2a * SCALE <= r2b * SCALE) by (nonlinear_arith)
        requires
            0 <= r2a <= r2b,
    ;
    vstd::arithmetic::div_mod::lemma_div_is_ordered(r2a * SCALE, r2b * SCALE, 2 * ls2);
    let da = div_tz(r2a * SCALE, 2 * ls2);
    let db = div_tz(r2b * SCALE, 2 * ls2);
    assert(da == (r2a * SCALE) / (2 * ls2) && db == (r2b * SCALE) / (2 * ls2));
    assert((r2a * SCALE) / (2 * ls2) >= 0) by (nonlinear_arith)
        requires
            r2a * SCALE >= 0,
            ls2 >= 100,
    ;
    assert(0 <= h.signal_var as int * SCALE) by (nonlinear_arith)
        requires
            h.signal_var > 0,
    ;
    vstd::arithmetic::div_mod::lemma_div_is_ordered_by_denominator(
        h.signal_var as int * SCALE,
        SCALE as int + da,
        SCALE as int + db,
    );
}

/// The covariance lies in `[0, signal_var]` for valid points.
pub proof fn lemma_cov_range(p: Seq<i64>, q: Seq<i64>, h: Hyperparameters, dim: nat)
    requires
        h.wf(),
        valid_point(p, dim),
        valid_point(q, dim),
    ensures
        0 <= spec_cov(p, q, h) <= h.signal_var,
{
    lemma_sqdist_bound(p, q, p.len() as int);
    let r2s = sqdist_to(p, q, p.len() as int);
    let r2 = r2s / (SCALE as int);
    assert(0 <= r2) by (nonlinear_arith)
        requires
            r2s >= 0,
            r2 == r2s / (SCALE as int),
    ;
    lemma_ls2_range(h);
    let ls2 = div_tz(h.length_scale as int * h.length_scale as int, SCALE as int);
    assert(0 <= r2 * SCALE) by (nonlinear_arith)
        requires
            r2 >= 0,
    ;
    assert(iabs(r2 * SCALE) <= (r2 * SCALE) * (2 * ls2)) by (nonlinear_arith)
        requires
            r2 >= 0,
            ls2 >= 100,
    ;
    lemma_div_tz_bound(r2 * SCALE, 2 * ls2, r2 * SCALE);
    let denom = SCALE as int + div_tz(r2 * SCALE, 2 * ls2);
    assert(denom >= SCALE);
    assert(0 <= h.signal_var as int * SCALE) by (nonlinear_arith)
        requires
            h.signal_var > 0,
    ;
    assert(h.signal_var as int * SCALE <= h.signal_var as int * denom) by (nonlinear_arith)
        requires
            denom >= SCALE,
            h.signal_var > 0,
    ;
    lemma_div_tz_bound(h.signal_var as int * SCALE, denom, h.signal_var as int);
}

/// The covariance of two points, in fixed point.
pub fn cov(p: &Vec<i64>, q: &Vec<i64>, dim: usize, h: &Hyperparameters) -> (r: i64)
    requires
        h.wf(),
        valid_point(p@, dim as nat),
        valid_point(q@, dim as nat),
        dim <= crate::fixed::MAX_DIM,
    ensures
        r == spec_cov(p@, q@, *h),
        0 <= r <= h.signal_var,
{
    let r2s: i64 = sqdist(p, q, dim);
    let r2: i64 = div_nn(r2s, SCALE);
    let ls2w: i128 = div_tz_wide(mul_wide(h.length_scale, h.length_scale), SCALE as i128);
    proof {
        lemma_ls2_range(*h);
    }
    let ls2: i64 = ls2w as i64;
    let num: i128 = mul_wide(r2, SCALE);
    proof {
        assert(0 <= r2 as int * SCALE) by (nonlinear_arith)
            requires
                r2 >= 0,
        ;
        assert(iabs(r2 as int * SCALE) <= (r2 as int * SCALE) * (2 * ls2 as int)) by (nonlinear_arith)
            requires
                r2 >= 0,
                ls2 >= 100,
        ;
        lemma_div_tz_bound(r2 as int * SCALE, 2 * ls2 as int, r2 as int * SCALE);
        assert(r2 as int * SCALE <= 0x7fff_ffff_ffff_ffff) by (nonlinear_arith)
            requires
                0 <= r2 <= crate::fixed::MAX_DIM as int * SCALE,
        ;
    }
    let decay: i128 = div_tz_wide(num, 2 * (ls2 as i128));
    let denom: i64 = SCALE + (decay as i64);
    let covw: i128 = div_tz_wide(mul_wide(h.signal_var, SCALE), denom as i128);
    proof {
        assert(0 <= h.signal_var as int * SCALE) by (nonlinear_arith)
            requires
                h.signal_var > 0,
        ;
        assert(h.signal_var as int * SCALE <= h.signal_var as int * denom as int) by (nonlinear_arith)
            requires
                denom >= SCALE,
                h.signal_var > 0,
        ;
        lemma_div_tz_bound(h.signal_var as int * SCALE, denom as int, h.signal_var as int);
    }
    covw as i64
}

} // verus!
