//! The preference regressor: the surrogate model of the user's latent
//! utility, fit from pairwise preference constraints alone.
//!
//! The fit has two stages.
//!
//! First the latent utility at every training point is estimated by repeated
//! margin sweeps over the constraints: a sweep walks the constraints in
//! order, and for each (winner, loser) pair whose latent gap is below the
//! slip margin it raises the winner and lowers the loser by a fixed step,
//! clamped to a bounded box (the box is the prior on latent scale). The
//! sweep count is budgeted from the constraint count; if some comparison is
//! still unsatisfied afterwards, the fit reports
//! `RegressionDidNotConverge` (cyclic preferences can never all be
//! satisfied).
//!
//! Second, the prediction weights solve the regularized Gram system
//! `(K + jitter * I) w = y` by bounded Gauss-Seidel passes, for each
//! candidate length scale of a small grid and for geometrically growing
//! jitter; the first combination whose residual falls below tolerance is
//! kept (a derivative-free grid search standing in for marginal-likelihood
//! ascent). If none reaches tolerance up to the jitter ceiling the fit
//! reports `IllConditionedCovariance`.
//!
//! Prediction at a query point `x` follows the GP conditioning form: the
//! posterior mean is `k(x) . w`; the posterior variance is the prior
//! variance minus an information term, computed with a diagonal solve
//! (`sum_i k_i(x)^2 / (K_ii + jitter)`) and clamped into
//! `[0, signal_var]`.

use vstd::prelude::*;
use crate::fixed::{
    SCALE, MAX_POINTS, LATENT_BOUND, WEIGHT_BOUND, iabs, div_tz, clamp_spec, lemma_div_tz_bound,
    lemma_mul_bound, mul_wide, div_tz_wide, clamp_wide,
};
use crate::points::valid_point;
use crate::kernel::{Hyperparameters, spec_cov, cov, lemma_cov_range};
use crate::dataset::{Constraint, Dataset, pts_view};
use crate::errors::FitStatus;

verus! {

/// Latent step applied per unsatisfied comparison and sweep (0.05).
pub const FIT_STEP: i64 = 50_000;

/// The slip margin: the latent gap below which a comparison still pushes
/// the pair apart (0.1).
pub const SLIP_MARGIN: i64 = 100_000;

/// Residual tolerance of the weight solve (0.01).
pub const SOLVE_TOL: i64 = 10_000;

/// First jitter level (0.01).
pub const JITTER_BASE: i64 = 10_000;

/// Jitter ceiling: the base grown geometrically by factor 4, five times.
pub const JITTER_MAX: i64 = 10_240_000;

/// Gauss-Seidel passes per solve attempt.
pub const GS_PASSES: usize = 24;

/// Cap on the constraint count entering the sweep budget.
pub const SWEEP_CAP: usize = 256;

/// Candidate length scales of the hyperparameter grid (0.2, 0.5, 1.0).
pub const LS_NARROW: i64 = 200_000;

pub const LS_MEDIUM: i64 = 500_000;

pub const LS_WIDE: i64 = 1_000_000;

/// All latent values lie in the prior box.
pub open spec fn lat_ok(y: Seq<i64>) -> bool {
    forall|i: int| 0 <= i < y.len() ==> iabs(#[trigger] y[i] as int) <= LATENT_BOUND
}

/// All weights lie in the weight box.
pub open spec fn wt_ok(w: Seq<i64>) -> bool {
    forall|i: int| 0 <= i < w.len() ==> iabs(#[trigger] w[i] as int) <= WEIGHT_BOUND
}

/// Every constraint index refers into a point list of length `n`.
pub open spec fn cons_ok(cs: Seq<Constraint>, n: int) -> bool {
    forall|k: int|
        0 <= k < cs.len() ==> {
            &&& (#[trigger] cs[k]).winner < n
            &&& cs[k].loser_a < n
            &&& cs[k].loser_b < n
        }
}

/// The all-zero latent vector.
pub open spec fn zeros(n: int) -> Seq<i64> {
    Seq::new(n as nat, |i: int| 0i64)
}

/// Clamp into the latent box.
pub open spec fn cl_lat(x: int) -> i64 {
    clamp_spec(x, LATENT_BOUND as int) as i64
}

/// One (winner, loser) comparison: if the latent gap is below the margin,
/// push the winner up and the loser down by one step each. A pair ranking a
/// point against itself is vacuous.
pub open spec fn pair_step(y: Seq<i64>, w: int, l: int, m: int) -> Seq<i64>
    recommends
        0 <= w < y.len(),
        0 <= l < y.len(),
{
    if w == l || y[w] - y[l] >= m {
        y
    } else {
        y.update(w, cl_lat(y[w] + FIT_STEP)).update(l, cl_lat(y[l] - FIT_STEP))
    }
}

/// One constraint: the winner is compared against both losers in turn.
pub open spec fn con_step(y: Seq<i64>, c: Constraint, m: int) -> Seq<i64> {
    pair_step(pair_step(y, c.winner as int, c.loser_a as int, m), c.winner as int, c.loser_b as int, m)
}

/// The latent vector after the first `k` constraints of one sweep.
pub open spec fn sweep_to(y: Seq<i64>, cs: Seq<Constraint>, m: int, k: int) -> Seq<i64>
    decreases k,
{
    if k <= 0 {
        y
    } else {
        con_step(sweep_to(y, cs, m, k - 1), cs[k - 1], m)
    }
}

/// One full sweep over all constraints, in order.
pub open spec fn sweep_all(y: Seq<i64>, cs: Seq<Constraint>, m: int) -> Seq<i64> {
    sweep_to(y, cs, m, cs.len() as int)
}

/// The latent vector after `t` sweeps.
pub open spec fn iterate(y: Seq<i64>, cs: Seq<Constraint>, m: int, t: int) -> Seq<i64>
    decreases t,
{
    if t <= 0 {
        y
    } else {
        sweep_all(iterate(y, cs, m, t - 1), cs, m)
    }
}

/// The sweep budget granted to a fit over `c` constraints: quadratic, since
/// a chain of preferences settles front by front, with a cap that bounds the
/// worst-case latency.
pub open spec fn sweep_budget(c: int) -> int {
    let capped = if c > SWEEP_CAP { SWEEP_CAP as int } else { c };
    8 + 4 * capped * capped
}

/// The latent vector a fit over `ds` computes.
pub open spec fn fit_latents_spec(ds: Dataset) -> Seq<i64> {
    iterate(zeros(ds.points@.len() as int), ds.constraints@, SLIP_MARGIN as int, sweep_budget(ds.constraints@.len() as int))
}

/// Whether one (winner, loser) comparison holds with margin `m`; a pair
/// ranking a point against itself is vacuous.
pub open spec fn pair_sat(y: Seq<i64>, w: int, l: int, m: int) -> bool {
    w == l || y[w] - y[l] >= m
}

/// Whether every recorded comparison holds with margin `m`: the fit's
/// convergence criterion (the latents are a mode consistent with all
/// preferences).
pub open spec fn all_satisfied(y: Seq<i64>, cs: Seq<Constraint>, m: int) -> bool {
    forall|k: int|
        0 <= k < cs.len() ==> pair_sat(y, (#[trigger] cs[k]).winner as int, cs[k].loser_a as int, m)
            && pair_sat(y, cs[k].winner as int, cs[k].loser_b as int, m)
}

proof fn lemma_pair_step_shape(y: Seq<i64>, w: int, l: int, m: int)
    requires
        0 <= w < y.len(),
        0 <= l < y.len(),
        lat_ok(y),
    ensures
        pair_step(y, w, l, m).len() == y.len(),
        lat_ok(pair_step(y, w, l, m)),
{
}

proof fn lemma_sweep_to_shape(y: Seq<i64>, cs: Seq<Constraint>, m: int, k: int)
    requires
        cons_ok(cs, y.len() as int),
        lat_ok(y),
        k <= cs.len(),
    ensures
        sweep_to(y, cs, m, k).len() == y.len(),
        lat_ok(sweep_to(y, cs, m, k)),
    decreases k,
{
    if k > 0 {
        lemma_sweep_to_shape(y, cs, m, k - 1);
        let y1 = sweep_to(y, cs, m, k - 1);
        lemma_pair_step_shape(y1, cs[k - 1].winner as int, cs[k - 1].loser_a as int, m);
        lemma_pair_step_shape(
            pair_step(y1, cs[k - 1].winner as int, cs[k - 1].loser_a as int, m),
            cs[k - 1].winner as int,
            cs[k - 1].loser_b as int,
            m,
        );
    }
}

/// Apply one (winner, loser) comparison in place.
fn apply_pair(y: &mut Vec<i64>, w: usize, l: usize, m: i64)
    requires
        w < old(y)@.len(),
        l < old(y)@.len(),
        lat_ok(old(y)@),
        0 < m <= SCALE,
    ensures
        final(y)@ == pair_step(old(y)@, w as int, l as int, m as int),
        final(y)@.len() == old(y)@.len(),
        lat_ok(final(y)@),
{
    let yw: i64 = y[w];
    let yl: i64 = y[l];
    proof {
        assert(iabs(yw as int) <= LATENT_BOUND);
        assert(iabs(yl as int) <= LATENT_BOUND);
    }
    if w != l && yw - yl < m {
        let nw: i64 = clamp_wide((yw as i128) + (FIT_STEP as i128), LATENT_BOUND);
        let nl: i64 = clamp_wide((yl as i128) - (FIT_STEP as i128), LATENT_BOUND);
        y[w] = nw;
        y[l] = nl;
        proof {
            assert(final(y)@ =~= old(y)@.update(w as int, cl_lat(yw + FIT_STEP)).update(
                l as int,
                cl_lat(yl - FIT_STEP),
            ));
        }
    }
}

/// One sweep over all constraints, in order.
fn sweep_exec(y: &mut Vec<i64>, cs: &Vec<Constraint>, m: i64)
    requires
        cons_ok(cs@, old(y)@.len() as int),
        lat_ok(old(y)@),
        0 < m <= SCALE,
    ensures
        final(y)@ == sweep_all(old(y)@, cs@, m as int),
        final(y)@.len() == old(y)@.len(),
        lat_ok(final(y)@),
{
    let n_cs: usize = cs.len();
    let mut k: usize = 0;
    while k < n_cs
        invariant
            cons_ok(cs@, old(y)@.len() as int),
            lat_ok(old(y)@),
            0 < m <= SCALE,
            n_cs == cs@.len(),
            k <= n_cs,
            y@ == sweep_to(old(y)@, cs@, m as int, k as int),
            y@.len() == old(y)@.len(),
            lat_ok(y@),
        decreases n_cs - k,
    {
        let c: Constraint = cs[k];
        apply_pair(y, c.winner, c.loser_a, m);
        apply_pair(y, c.winner, c.loser_b, m);
        k = k + 1;
    }
}

/// The latent fit: `sweeps` margin sweeps from the all-zero start.
fn fit_latents(cs: &Vec<Constraint>, n: usize, sweeps: usize, m: i64) -> (y: Vec<i64>)
    requires
        cons_ok(cs@, n as int),
        0 < m <= SCALE,
    ensures
        y@ == iterate(zeros(n as int), cs@, m as int, sweeps as int),
        y@.len() == n,
        lat_ok(y@),
{
    let mut y: Vec<i64> = Vec::new();
    let mut i: usize = 0;
    while i < n
        invariant
            i <= n,
            y@.len() == i,
            forall|j: int| 0 <= j < i ==> #[trigger] y@[j] == 0i64,
        decreases n - i,
    {
        y.push(0i64);
        i = i + 1;
    }
    proof {
        assert(y@ =~= zeros(n as int));
    }
    let mut t: usize = 0;
    while t < sweeps
        invariant
            cons_ok(cs@, n as int),
            0 < m <= SCALE,
            t <= sweeps,
            y@ == iterate(zeros(n as int), cs@, m as int, t as int),
            y@.len() == n,
            lat_ok(y@),
        decreases sweeps - t,
    {
        sweep_exec(&mut y, cs, m);
        t = t + 1;
    }
    y
}

/// The running kernel-weighted sum `sum_{j < k} cov(x, pts[j]) * w[j]`.
pub open spec fn kw_sum(pts: Seq<Seq<i64>>, x: Seq<i64>, wv: Seq<i64>, h: Hyperparameters, k: int) -> int
    decreases k,
{
    if k <= 0 {
        0
    } else {
        kw_sum(pts, x, wv, h, k - 1) + spec_cov(x, pts[k - 1], h) * wv[k - 1]
    }
}

/// The residual of row `i` of the regularized Gram system, in fixed point.
pub open spec fn spec_res(pts: Seq<Seq<i64>>, wv: Seq<i64>, y: Seq<i64>, h: Hyperparameters, jit: int, i: int) -> int {
    div_tz(kw_sum(pts, pts[i], wv, h, pts.len() as int) + jit * wv[i], SCALE as int) - y[i]
}

/// The kernel-weighted dot product against all points.
fn kdot(pts: &Vec<Vec<i64>>, x: &Vec<i64>, w: &Vec<i64>, dim: usize, h: &Hyperparameters) -> (r: i128)
    requires
        h.wf(),
        valid_point(x@, dim as nat),
        forall|i: int| 0 <= i < pts@.len() ==> valid_point(#[trigger] pts_view(pts@)[i], dim as nat),
        wt_ok(w@),
        w@.len() == pts@.len(),
        pts@.len() <= MAX_POINTS,
        dim <= crate::fixed::MAX_DIM,
    ensures
        r == kw_sum(pts_view(pts@), x@, w@, *h, pts@.len() as int),
        iabs(r as int) <= pts@.len() * (SCALE * WEIGHT_BOUND),
{
    let n: usize = pts.len();
    let mut acc: i128 = 0;
    let mut j: usize = 0;
    while j < n
        invariant
            h.wf(),
            valid_point(x@, dim as nat),
            forall|i: int| 0 <= i < pts@.len() ==> valid_point(#[trigger] pts_view(pts@)[i], dim as nat),
            wt_ok(w@),
            w@.len() == pts@.len(),
            pts@.len() <= MAX_POINTS,
            dim <= crate::fixed::MAX_DIM,
            n == pts@.len(),
            j <= n,
            acc == kw_sum(pts_view(pts@), x@, w@, *h, j as int),
            iabs(acc as int) <= j * (SCALE * WEIGHT_BOUND),
        decreases n - j,
    {
        proof {
            assert(pts_view(pts@)[j as int] == pts@[j as int]@);
        }
        let kj: i64 = cov(x, &pts[j], dim, h);
        let term: i128 = mul_wide(kj, w[j]);
        proof {
            lemma_mul_bound(kj as int, w@[j as int] as int, SCALE as int, WEIGHT_BOUND as int);
            assert((j as int) * (SCALE * WEIGHT_BOUND) + SCALE * WEIGHT_BOUND == (j + 1) as int * (
            SCALE * WEIGHT_BOUND)) by (nonlinear_arith);
            assert((j + 1) as int * (SCALE * WEIGHT_BOUND) <= (MAX_POINTS as int) * (SCALE * WEIGHT_BOUND))
                by (nonlinear_arith)
                requires
                    j + 1 <= MAX_POINTS,
            ;
        }
        acc = acc + term;
        j = j + 1;
    }
    acc
}

/// One Gauss-Seidel row update on the regularized Gram system: rebalance
/// `wv[row]` against the current weights, clamped into the weight box. The
/// diagonal of the Gram matrix is the signal variance exactly.
pub open spec fn gs_row(pts: Seq<Seq<i64>>, y: Seq<i64>, h: Hyperparameters, jit: int, wv: Seq<i64>, row: int) -> Seq<i64>
    recommends
        0 <= row < pts.len(),
{
    let full = kw_sum(pts, pts[row], wv, h, pts.len() as int);
    let num = y[row] * SCALE - (full - h.signal_var * wv[row]);
    wv.update(row, clamp_spec(div_tz(num, h.signal_var as int + jit), WEIGHT_BOUND as int) as i64)
}

/// The weights after the first `k` row updates of one pass.
pub open spec fn gs_rows(pts: Seq<Seq<i64>>, y: Seq<i64>, h: Hyperparameters, jit: int, wv: Seq<i64>, k: int) -> Seq<i64>
    decreases k,
{
    if k <= 0 {
        wv
    } else {
        gs_row(pts, y, h, jit, gs_rows(pts, y, h, jit, wv, k - 1), k - 1)
    }
}

/// The weights after `t` full Gauss-Seidel passes.
pub open spec fn gs_iter(pts: Seq<Seq<i64>>, y: Seq<i64>, h: Hyperparameters, jit: int, wv: Seq<i64>, t: int) -> Seq<i64>
    decreases t,
{
    if t <= 0 {
        wv
    } else {
        gs_rows(pts, y, h, jit, gs_iter(pts, y, h, jit, wv, t - 1), pts.len() as int)
    }
}

/// The weights the bounded solve returns for a given system.
pub open spec fn solve_spec(pts: Seq<Seq<i64>>, y: Seq<i64>, h: Hyperparameters, jit: int) -> Seq<i64> {
    gs_iter(pts, y, h, jit, zeros(pts.len() as int), GS_PASSES as int)
}

/// Whether every row residual of the regularized Gram system is within
/// tolerance.
pub open spec fn residuals_ok(pts: Seq<Seq<i64>>, wv: Seq<i64>, y: Seq<i64>, h: Hyperparameters, jit: int) -> bool {
    forall|i: int| 0 <= i < pts.len() ==> iabs(#[trigger] spec_res(pts, wv, y, h, jit, i)) <= SOLVE_TOL
}

/// Bounded Gauss-Seidel passes on `(K + jitter * I) w = y`.
fn solve_weights(pts: &Vec<Vec<i64>>, y: &Vec<i64>, dim: usize, h: &Hyperparameters, jit: i64) -> (w: Vec<i64>)
    requires
        h.wf(),
        forall|i: int| 0 <= i < pts@.len() ==> valid_point(#[trigger] pts_view(pts@)[i], dim as nat),
        y@.len() == pts@.len(),
        lat_ok(y@),
        1 <= pts@.len() <= MAX_POINTS,
        dim <= crate::fixed::MAX_DIM,
        0 < jit <= JITTER_MAX,
    ensures
        w@.len() == pts@.len(),
        wt_ok(w@),
        w@ == solve_spec(pts_view(pts@), y@, *h, jit as int),
{
    let n: usize = pts.len();
    let mut w: Vec<i64> = Vec::new();
    let mut i: usize = 0;
    while i < n
        invariant
            i <= n,
            w@.len() == i,
            wt_ok(w@),
            forall|j: int| 0 <= j < i ==> #[trigger] w@[j] == 0i64,
        decreases n - i,
    {
        w.push(0i64);
        i = i + 1;
    }
    proof {
        assert(w@ =~= zeros(n as int));
    }
    let mut pass: usize = 0;
    while pass < GS_PASSES
        invariant
            h.wf(),
            forall|i2: int| 0 <= i2 < pts@.len() ==> valid_point(#[trigger] pts_view(pts@)[i2], dim as nat),
            y@.len() == pts@.len(),
            lat_ok(y@),
            1 <= pts@.len() <= MAX_POINTS,
            dim <= crate::fixed::MAX_DIM,
            0 < jit <= JITTER_MAX,
            n == pts@.len(),
            w@.len() == n,
            wt_ok(w@),
            pass <= GS_PASSES,
            w@ == gs_iter(pts_view(pts@), y@, *h, jit as int, zeros(n as int), pass as int),
        decreases GS_PASSES - pass,
    {
        let ghost w_in = w@;
        let mut row: usize = 0;
        while row < n
            invariant
                h.wf(),
                forall|i2: int| 0 <= i2 < pts@.len() ==> valid_point(#[trigger] pts_view(pts@)[i2], dim as nat),
                y@.len() == pts@.len(),
                lat_ok(y@),
                1 <= pts@.len() <= MAX_POINTS,
                dim <= crate::fixed::MAX_DIM,
                0 < jit <= JITTER_MAX,
                n == pts@.len(),
                row <= n,
                w@.len() == n,
                wt_ok(w@),
                w@ == gs_rows(pts_view(pts@), y@, *h, jit as int, w_in, row as int),
            decreases n - row,
        {
            let ghost w_cur = w@;
            // The diagonal of K is the signal variance exactly, so the row
            // update divides by signal_var + jitter after removing the row's
            // own current contribution from the full dot product.
            proof {
                assert(pts_view(pts@)[row as int] == pts@[row as int]@);
            }
            let full: i128 = kdot(pts, &pts[row], &w, dim, h);
            let own: i128 = mul_wide(h.signal_var, w[row]);
            proof {
                lemma_mul_bound(h.signal_var as int, w@[row as int] as int, SCALE as int, WEIGHT_BOUND as int);
                assert(iabs(full as int) <= (MAX_POINTS as int) * ((SCALE as int) * (WEIGHT_BOUND as int)))
                    by (nonlinear_arith)
                    requires
                        iabs(full as int) <= pts@.len() * (SCALE * WEIGHT_BOUND),
                        pts@.len() <= MAX_POINTS,
                ;
            }
            let off: i128 = full - own;
            let num: i128 = mul_wide(y[row], SCALE) - off;
            proof {
                lemma_mul_bound(y@[row as int] as int, SCALE as int, LATENT_BOUND as int, SCALE as int);
            }
            let wi: i64 = clamp_wide(div_tz_wide(num, (h.signal_var + jit) as i128), WEIGHT_BOUND);
            w[row] = wi;
            proof {
                assert(w@ == gs_row(pts_view(pts@), y@, *h, jit as int, w_cur, row as int));
            }
            row = row + 1;
        }
        pass = pass + 1;
    }
    w
}

/// Whether every row residual of the regularized Gram system is within
/// tolerance.
fn residual_ok(pts: &Vec<Vec<i64>>, w: &Vec<i64>, y: &Vec<i64>, dim: usize, h: &Hyperparameters, jit: i64) -> (ok: bool)
    requires
        h.wf(),
        forall|i: int| 0 <= i < pts@.len() ==> valid_point(#[trigger] pts_view(pts@)[i], dim as nat),
        y@.len() == pts@.len(),
        w@.len() == pts@.len(),
        lat_ok(y@),
        wt_ok(w@),
        1 <= pts@.len() <= MAX_POINTS,
        dim <= crate::fixed::MAX_DIM,
        0 < jit <= JITTER_MAX,
    ensures
        ok == residuals_ok(pts_view(pts@), w@, y@, *h, jit as int),
{
    let n: usize = pts.len();
    let mut i: usize = 0;
    while i < n
        invariant
            h.wf(),
            forall|i2: int| 0 <= i2 < pts@.len() ==> valid_point(#[trigger] pts_view(pts@)[i2], dim as nat),
            y@.len() == pts@.len(),
            w@.len() == pts@.len(),
            lat_ok(y@),
            wt_ok(w@),
            1 <= pts@.len() <= MAX_POINTS,
            dim <= crate::fixed::MAX_DIM,
            0 < jit <= JITTER_MAX,
            n == pts@.len(),
            i <= n,
            forall|i2: int|
                0 <= i2 < i ==> iabs(spec_res(pts_view(pts@), w@, y@, *h, jit as int, i2)) <= SOLVE_TOL,
        decreases n - i,
    {
        proof {
            assert(pts_view(pts@)[i as int] == pts@[i as int]@);
        }
        let full: i128 = kdot(pts, &pts[i], w, dim, h);
        let reg: i128 = mul_wide(jit, w[i]);
        proof {
            lemma_mul_bound(jit as int, w@[i as int] as int, JITTER_MAX as int, WEIGHT_BOUND as int);
            assert(iabs(full as int) <= (MAX_POINTS as int) * ((SCALE as int) * (WEIGHT_BOUND as int)))
                by (nonlinear_arith)
                requires
                    iabs(full as int) <= pts@.len() * (SCALE * WEIGHT_BOUND),
                    pts@.len() <= MAX_POINTS,
            ;
        }
        let q: i128 = div_tz_wide(full + reg, SCALE as i128);
        let res: i128 = q - (y[i] as i128);
        if res > (SOLVE_TOL as i128) || res < -(SOLVE_TOL as i128) {
            proof {
                assert(iabs(spec_res(pts_view(pts@), w@, y@, *h, jit as int, i as int)) > SOLVE_TOL);
            }
            return false;
        }
        i = i + 1;
    }
    true
}

/// Whether every recorded comparison holds with margin `m`.
fn check_satisfied(y: &Vec<i64>, cs: &Vec<Constraint>, m: i64) -> (r: bool)
    requires
        cons_ok(cs@, y@.len() as int),
        lat_ok(y@),
        0 < m <= SCALE,
    ensures
        r == all_satisfied(y@, cs@, m as int),
{
    let n_cs: usize = cs.len();
    let mut k: usize = 0;
    while k < n_cs
        invariant
            cons_ok(cs@, y@.len() as int),
            lat_ok(y@),
            0 < m <= SCALE,
            n_cs == cs@.len(),
            k <= n_cs,
            forall|j: int|
                0 <= j < k ==> pair_sat(y@, (#[trigger] cs@[j]).winner as int, cs@[j].loser_a as int, m as int)
                    && pair_sat(y@, cs@[j].winner as int, cs@[j].loser_b as int, m as int),
        decreases n_cs - k,
    {
        let c: Constraint = cs[k];
        if c.winner != c.loser_a && y[c.winner] - y[c.loser_a] < m {
            proof {
                assert(!pair_sat(y@, cs@[k as int].winner as int, cs@[k as int].loser_a as int, m as int));
            }
            return false;
        }
        if c.winner != c.loser_b && y[c.winner] - y[c.loser_b] < m {
            proof {
                assert(!pair_sat(y@, cs@[k as int].winner as int, cs@[k as int].loser_b as int, m as int));
            }
            return false;
        }
        k = k + 1;
    }
    true
}

/// The first index of a maximal entry among the first `k` latents.
pub open spec fn best_to(y: Seq<i64>, k: int) -> int
    decreases k,
{
    if k <= 1 {
        0
    } else {
        let b = best_to(y, k - 1);
        if y[k - 1] > y[b] {
            k - 1
        } else {
            b
        }
    }
}

/// The chosen index is in range, attains the maximum, and is the first
/// index to do so.
pub proof fn lemma_best_to_props(y: Seq<i64>, k: int)
    requires
        1 <= k <= y.len(),
    ensures
        0 <= best_to(y, k) < k,
        forall|j: int| 0 <= j < k ==> #[trigger] y[j] <= y[best_to(y, k)],
        forall|j: int| 0 <= j < best_to(y, k) ==> #[trigger] y[j] < y[best_to(y, k)],
    decreases k,
{
    if k > 1 {
        lemma_best_to_props(y, k - 1);
    }
}

/// The candidate length scales, in search order.
pub open spec fn ls_of(c: int) -> i64 {
    if c == 0 {
        LS_NARROW
    } else if c == 1 {
        LS_MEDIUM
    } else {
        LS_WIDE
    }
}

/// The hyperparameter candidate at grid position `c`.
pub open spec fn hyp_of(c: int) -> Hyperparameters {
    Hyperparameters { length_scale: ls_of(c), signal_var: SCALE, slip: SLIP_MARGIN }
}

/// The jitter at escalation level `l`: the base grown geometrically by
/// factor 4, capped at the ceiling.
pub open spec fn jit_of(l: int) -> i64
    decreases l,
{
    if l <= 0 {
        JITTER_BASE
    } else {
        let p = jit_of(l - 1);
        if p <= JITTER_MAX / 4 {
            (4 * p) as i64
        } else {
            JITTER_MAX
        }
    }
}

proof fn lemma_jit_of_range(l: int)
    requires
        l >= 0,
    ensures
        0 < jit_of(l) <= JITTER_MAX,
    decreases l,
{
    if l > 0 {
        lemma_jit_of_range(l - 1);
    }
}

/// Whether grid combination (`c`, `l`) solves the regularized Gram system
/// for these points and latents within tolerance.
pub open spec fn combo_ok(pts: Seq<Seq<i64>>, lat: Seq<i64>, c: int, l: int) -> bool {
    residuals_ok(pts, solve_spec(pts, lat, hyp_of(c), jit_of(l) as int), lat, hyp_of(c), jit_of(l) as int)
}

/// Whether some grid combination solves the system for the dataset's fitted
/// latents within tolerance: exactly when a fit of `ds` with satisfied
/// comparisons succeeds.
pub open spec fn any_combo_ok(ds: Dataset) -> bool {
    exists|c: int, l: int|
        0 <= c < 3 && 0 <= l < 6 && #[trigger] combo_ok(ds.pview(), fit_latents_spec(ds), c, l)
}

/// Whether (`c`, `l`) is the first grid combination (candidate-major, then
/// jitter level) that solves the system within tolerance.
pub open spec fn is_first_combo(pts: Seq<Seq<i64>>, lat: Seq<i64>, c: int, l: int) -> bool {
    &&& 0 <= c < 3
    &&& 0 <= l < 6
    &&& combo_ok(pts, lat, c, l)
    &&& forall|c2: int, l2: int|
        0 <= c2 < 3 && 0 <= l2 < 6 && (c2 < c || (c2 == c && l2 < l)) ==> !#[trigger] combo_ok(
            pts,
            lat,
            c2,
            l2,
        )
}

/// The first solving combination is unique.
pub proof fn lemma_first_combo_unique(pts: Seq<Seq<i64>>, lat: Seq<i64>, c1: int, l1: int, c2: int, l2: int)
    requires
        is_first_combo(pts, lat, c1, l1),
        is_first_combo(pts, lat, c2, l2),
    ensures
        c1 == c2,
        l1 == l2,
{
    if c1 < c2 || (c1 == c2 && l1 < l2) {
        assert(!combo_ok(pts, lat, c1, l1));
    }
    if c2 < c1 || (c1 == c2 && l2 < l1) {
        assert(!combo_ok(pts, lat, c2, l2));
    }
}

/// What a successful fit over `ds` guarantees of the returned state: it
/// trains on exactly the dataset's points, its latents are the margin-sweep
/// result from the all-zero start and satisfy every recorded comparison with
/// the slip margin, its weights are the bounded solve's result for the first
/// grid combination (candidate-major, then jitter level) whose residuals all
/// fall within tolerance, and it records that combination.
pub open spec fn fitted_ok(st: RegressorState, ds: Dataset) -> bool {
    &&& st.wf()
    &&& st.dim == ds.dim
    &&& pts_view(st.pts@) == ds.pview()
    &&& st.latents@ == fit_latents_spec(ds)
    &&& all_satisfied(st.latents@, ds.constraints@, SLIP_MARGIN as int)
    &&& st.weights@ == solve_spec(ds.pview(), st.latents@, st.hyp, st.jitter as int)
    &&& residuals_ok(ds.pview(), st.weights@, st.latents@, st.hyp, st.jitter as int)
    &&& exists|c: int, l: int|
        st.hyp == hyp_of(c) && st.jitter == jit_of(l) && #[trigger] is_first_combo(
            ds.pview(),
            st.latents@,
            c,
            l,
        )
}

/// The fitted surrogate: the training points, their latent utilities, the
/// solved prediction weights, and the hyperparameters and jitter the solve
/// succeeded with. Recomputed from the dataset on every refit, never
/// mutated.
pub struct RegressorState {
    pub dim: usize,
    pub pts: Vec<Vec<i64>>,
    pub latents: Vec<i64>,
    pub weights: Vec<i64>,
    pub hyp: Hyperparameters,
    pub jitter: i64,
}

/// The posterior mean at `x`: the kernel vector dotted with the solved
/// weights.
pub open spec fn spec_pmean(st: RegressorState, x: Seq<i64>) -> int {
    div_tz(kw_sum(pts_view(st.pts@), x, st.weights@, st.hyp, st.pts@.len() as int), SCALE as int)
}

/// The information term of the posterior variance at `x`, from a diagonal
/// solve: `sum_{j < k} k_j(x)^2 / (signal_var + jitter)`.
pub open spec fn info_sum(st: RegressorState, x: Seq<i64>, k: int) -> int
    decreases k,
{
    if k <= 0 {
        0
    } else {
        info_sum(st, x, k - 1) + div_tz(
            spec_cov(x, pts_view(st.pts@)[k - 1], st.hyp) * spec_cov(x, pts_view(st.pts@)[k - 1], st.hyp),
            st.hyp.signal_var + st.jitter,
        )
    }
}

/// The posterior variance at `x`: prior variance minus the information
/// term, clamped below at zero.
pub open spec fn spec_pvar(st: RegressorState, x: Seq<i64>) -> int {
    let raw = st.hyp.signal_var - div_tz(info_sum(st, x, st.pts@.len() as int), SCALE as int);
    if raw < 0 {
        0
    } else {
        raw
    }
}

/// Whether two regressor states carry the same observable model: the same
/// training point coordinates, latents, weights, hyperparameters and jitter.
pub open spec fn same_model(a: RegressorState, b: RegressorState) -> bool {
    &&& a.dim == b.dim
    &&& pts_view(a.pts@) == pts_view(b.pts@)
    &&& a.latents@ == b.latents@
    &&& a.weights@ == b.weights@
    &&& a.hyp == b.hyp
    &&& a.jitter == b.jitter
}

/// The variance information term reads the state only through its
/// observable model.
pub proof fn lemma_info_sum_congruent(a: RegressorState, b: RegressorState, x: Seq<i64>, k: int)
    requires
        same_model(a, b),
    ensures
        info_sum(a, x, k) == info_sum(b, x, k),
    decreases (if k >= 0 {
        k
    } else {
        0
    }),
{
    if k > 0 {
        lemma_info_sum_congruent(a, b, x, k - 1);
        assert(pts_view(a.pts@)[k - 1] == pts_view(b.pts@)[k - 1]);
    }
}

/// Predictions depend only on the observable model: two states with the
/// same model predict the same mean and variance at every query point.
pub proof fn lemma_prediction_congruent(a: RegressorState, b: RegressorState, x: Seq<i64>)
    requires
        same_model(a, b),
    ensures
        spec_pmean(a, x) == spec_pmean(b, x),
        spec_pvar(a, x) == spec_pvar(b, x),
{
    assert(a.pts@.len() == b.pts@.len()) by {
        assert(pts_view(a.pts@).len() == pts_view(b.pts@).len());
    }
    lemma_info_sum_congruent(a, b, x, a.pts@.len() as int);
}

impl RegressorState {
    pub open spec fn wf(self) -> bool {
        &&& 1 <= self.dim <= crate::fixed::MAX_DIM
        &&& 1 <= self.pts@.len() <= MAX_POINTS
        &&& forall|i: int|
            0 <= i < self.pts@.len() ==> valid_point(#[trigger] pts_view(self.pts@)[i], self.dim as nat)
        &&& self.latents@.len() == self.pts@.len()
        &&& self.weights@.len() == self.pts@.len()
        &&& lat_ok(self.latents@)
        &&& wt_ok(self.weights@)
        &&& self.hyp.wf()
        &&& 0 < self.jitter <= JITTER_MAX
    }

    pub fn n_points(&self) -> (r: usize)
        ensures
            r == self.pts@.len(),
    {
        self.pts.len()
    }

    /// The posterior mean of the latent utility at `x`. A pure function of
    /// the state and the query point: two calls on equal arguments return
    /// the same value.
    pub fn predict_mean(&self, x: &Vec<i64>) -> (r: i64)
        requires
            self.wf(),
            valid_point(x@, self.dim as nat),
        ensures
            r == spec_pmean(*self, x@),
            iabs(r as int) <= (MAX_POINTS as int) * (WEIGHT_BOUND as int),
    {
        let full: i128 = kdot(&self.pts, x, &self.weights, self.dim, &self.hyp);
        let q: i128 = div_tz_wide(full, SCALE as i128);
        proof {
            lemma_div_tz_bound(
                full as int,
                SCALE as int,
                (MAX_POINTS as int) * WEIGHT_BOUND,
            );
            assert(iabs(full as int) <= ((MAX_POINTS as int) * WEIGHT_BOUND) * SCALE) by (nonlinear_arith)
                requires
                    iabs(full as int) <= pts_view(self.pts@).len() * (SCALE * WEIGHT_BOUND),
                    pts_view(self.pts@).len() <= MAX_POINTS,
            ;
        }
        q as i64
    }

    /// The posterior variance of the latent utility at `x`, in
    /// `[0, signal_var]`. A pure function of the state and the query point.
    pub fn predict_variance(&self, x: &Vec<i64>) -> (r: i64)
        requires
            self.wf(),
            valid_point(x@, self.dim as nat),
        ensures
            r == spec_pvar(*self, x@),
            0 <= r <= self.hyp.signal_var,
    {
        let n: usize = self.pts.len();
        let diag: i64 = self.hyp.signal_var + self.jitter;
        let mut acc: i128 = 0;
        let mut j: usize = 0;
        while j < n
            invariant
                self.wf(),
                valid_point(x@, self.dim as nat),
                n == self.pts@.len(),
                diag == self.hyp.signal_var + self.jitter,
                j <= n,
                acc == info_sum(*self, x@, j as int),
                0 <= acc <= j * ((SCALE as int) * (SCALE as int)),
            decreases n - j,
        {
            proof {
                assert(pts_view(self.pts@)[j as int] == self.pts@[j as int]@);
            }
            let kj: i64 = cov(x, &self.pts[j], self.dim, &self.hyp);
            let sq: i128 = mul_wide(kj, kj);
            proof {
                assert(0 <= kj as int * kj as int <= SCALE * SCALE) by (nonlinear_arith)
                    requires
                        0 <= kj <= SCALE,
                ;
                assert(iabs(kj as int * kj as int) <= (kj as int * kj as int) * (diag as int))
                    by (nonlinear_arith)
                    requires
                        diag >= 1,
                        kj as int * kj as int >= 0,
                ;
                lemma_div_tz_bound(kj as int * kj as int, diag as int, kj as int * kj as int);
                assert((j as int) * ((SCALE as int) * (SCALE as int)) + (SCALE as int) * (SCALE as int)
                    == (j + 1) as int * ((SCALE as int) * (SCALE as int))) by (nonlinear_arith);
                assert((j + 1) as int * ((SCALE as int) * (SCALE as int)) <= (MAX_POINTS as int) * ((
                SCALE as int) * (SCALE as int))) by (nonlinear_arith)
                    requires
                        j + 1 <= MAX_POINTS,
                ;
            }
            let term: i128 = div_tz_wide(sq, diag as i128);
            acc = acc + term;
            j = j + 1;
        }
        let d: i128 = div_tz_wide(acc, SCALE as i128);
        proof {
            assert((n as int) * ((SCALE as int) * (SCALE as int)) <= (MAX_POINTS as int) * ((
            SCALE as int) * (SCALE as int))) by (nonlinear_arith)
                requires
                    n <= MAX_POINTS,
            ;
            assert(iabs(acc as int) <= ((MAX_POINTS as int) * (SCALE as int)) * (SCALE as int))
                by (nonlinear_arith)
                requires
                    0 <= acc <= (MAX_POINTS as int) * ((SCALE as int) * (SCALE as int)),
            ;
            lemma_div_tz_bound(acc as int, SCALE as int, (MAX_POINTS as int) * (SCALE as int));
        }
        if d >= self.hyp.signal_var as i128 {
            0
        } else {
            self.hyp.signal_var - (d as i64)
        }
    }

    /// The first index of a training point with maximal latent utility:
    /// the current best-known point.
    pub fn arg_max_latent(&self) -> (r: usize)
        requires
            self.wf(),
        ensures
            r == best_to(self.latents@, self.pts@.len() as int),
            r < self.pts@.len(),
            forall|j: int| 0 <= j < self.latents@.len() ==> #[trigger] self.latents@[j] <= self.latents@[r as int],
            forall|j: int| 0 <= j < r ==> #[trigger] self.latents@[j] < self.latents@[r as int],
    {
        let n: usize = self.latents.len();
        let mut b: usize = 0;
        let mut i: usize = 1;
        while i < n
            invariant
                self.wf(),
                n == self.latents@.len(),
                n >= 1,
                1 <= i <= n,
                b == best_to(self.latents@, i as int),
                b < i,
            decreases n - i,
        {
            if self.latents[i] > self.latents[b] {
                b = i;
            }
            i = i + 1;
        }
        proof {
            lemma_best_to_props(self.latents@, n as int);
        }
        b
    }

    /// The current best training point and its latent utility: the first
    /// training point whose posterior utility estimate is maximal.
    pub fn best_training_point(&self) -> (r: (Vec<i64>, i64))
        requires
            self.wf(),
        ensures
            r.0@ == pts_view(self.pts@)[best_to(self.latents@, self.pts@.len() as int)],
            r.1 == self.latents@[best_to(self.latents@, self.pts@.len() as int)],
            valid_point(r.0@, self.dim as nat),
            forall|j: int| 0 <= j < self.latents@.len() ==> #[trigger] self.latents@[j] <= r.1,
    {
        let gi: usize = self.arg_max_latent();
        proof {
            assert(pts_view(self.pts@)[gi as int] == self.pts@[gi as int]@);
            assert(valid_point(pts_view(self.pts@)[gi as int], self.dim as nat));
        }
        (crate::points::copy_point(&self.pts[gi]), self.latents[gi])
    }

    /// Fit the surrogate to the dataset. On success the returned state
    /// trains on exactly the dataset's points, its latents satisfy every
    /// recorded comparison with the slip margin, and every row residual of
    /// the weight solve is within tolerance. `RegressionDidNotConverge` is
    /// returned exactly when the sweep budget left some comparison
    /// unsatisfied;
    /// `IllConditionedCovariance` when no hyperparameter candidate and no
    /// jitter level up to the ceiling solved within tolerance.
    pub fn fit(ds: &Dataset) -> (r: Result<RegressorState, FitStatus>)
        requires
            ds.wf(),
            1 <= ds.points@.len(),
        ensures
            r is Ok ==> fitted_ok(r->Ok_0, *ds),
            r is Ok <==> (all_satisfied(fit_latents_spec(*ds), ds.constraints@, SLIP_MARGIN as int)
                && any_combo_ok(*ds)),
            (r == Err::<RegressorState, FitStatus>(FitStatus::RegressionDidNotConverge))
                <==> !all_satisfied(fit_latents_spec(*ds), ds.constraints@, SLIP_MARGIN as int),
            (r == Err::<RegressorState, FitStatus>(FitStatus::IllConditionedCovariance)) <==> (
            all_satisfied(fit_latents_spec(*ds), ds.constraints@, SLIP_MARGIN as int)
                && !any_combo_ok(*ds)),
            r is Err ==> (r->Err_0 == FitStatus::RegressionDidNotConverge || r->Err_0
                == FitStatus::IllConditionedCovariance),
    {
        let n: usize = ds.points.len();
        let n_cs: usize = ds.constraints.len();
        let capped: usize = if n_cs > SWEEP_CAP {
            SWEEP_CAP
        } else {
            n_cs
        };
        proof {
            assert(4 * capped * capped <= 262144) by (nonlinear_arith)
                requires
                    capped <= 256,
            ;
        }
        let sweeps: usize = 8 + 4 * capped * capped;
        proof {
            assert(cons_ok(ds.constraints@, n as int));
            assert forall|i2: int| 0 <= i2 < ds.points@.len() implies valid_point(
                #[trigger] pts_view(ds.points@)[i2],
                ds.dim as nat,
            ) by {
                assert(valid_point(ds.pview()[i2], ds.dim as nat));
            }
        }
        let lat: Vec<i64> = fit_latents(&ds.constraints, n, sweeps, SLIP_MARGIN);
        if !check_satisfied(&lat, &ds.constraints, SLIP_MARGIN) {
            return Err(FitStatus::RegressionDidNotConverge);
        }
        let mut cand: usize = 0;
        while cand < 3
            invariant
                ds.wf(),
                1 <= ds.points@.len(),
                n == ds.points@.len(),
                lat@ == fit_latents_spec(*ds),
                lat@.len() == n,
                lat_ok(lat@),
                all_satisfied(lat@, ds.constraints@, SLIP_MARGIN as int),
                forall|i2: int| 0 <= i2 < ds.points@.len() ==> valid_point(
                    #[trigger] pts_view(ds.points@)[i2],
                    ds.dim as nat,
                ),
                cand <= 3,
                forall|c2: int, l2: int|
                    0 <= c2 < cand && 0 <= l2 < 6 ==> !#[trigger] combo_ok(ds.pview(), lat@, c2, l2),
            decreases 3 - cand,
        {
            let ls: i64 = if cand == 0 {
                LS_NARROW
            } else if cand == 1 {
                LS_MEDIUM
            } else {
                LS_WIDE
            };
            let h = Hyperparameters { length_scale: ls, signal_var: SCALE, slip: SLIP_MARGIN };
            proof {
                assert(h == hyp_of(cand as int));
            }
            let mut jit: i64 = JITTER_BASE;
            let mut level: usize = 0;
            while level < 6
                invariant
                    ds.wf(),
                    1 <= ds.points@.len(),
                    n == ds.points@.len(),
                    lat@ == fit_latents_spec(*ds),
                    lat@.len() == n,
                    lat_ok(lat@),
                    all_satisfied(lat@, ds.constraints@, SLIP_MARGIN as int),
                    forall|i2: int| 0 <= i2 < ds.points@.len() ==> valid_point(
                        #[trigger] pts_view(ds.points@)[i2],
                        ds.dim as nat,
                    ),
                    h.wf(),
                    h == hyp_of(cand as int),
                    cand < 3,
                    level <= 6,
                    0 < jit <= JITTER_MAX,
                    jit == jit_of(level as int),
                    forall|c2: int, l2: int|
                        0 <= c2 < cand && 0 <= l2 < 6 ==> !#[trigger] combo_ok(ds.pview(), lat@, c2, l2),
                    forall|l2: int| 0 <= l2 < level ==> !#[trigger] combo_ok(ds.pview(), lat@, cand as int, l2),
                decreases 6 - level,
            {
                let w: Vec<i64> = solve_weights(&ds.points, &lat, ds.dim, &h, jit);
                let solved: bool = residual_ok(&ds.points, &w, &lat, ds.dim, &h, jit);
                proof {
                    assert(pts_view(ds.points@) == ds.pview());
                    assert(solved == combo_ok(ds.pview(), lat@, cand as int, level as int));
                }
                if solved {
                    let pts_copy: Vec<Vec<i64>> = crate::points::copy_point_list(&ds.points);
                    proof {
                        assert forall|i2: int| 0 <= i2 < pts_copy@.len() implies #[trigger] pts_view(
                            pts_copy@,
                        )[i2] == ds.pview()[i2] by {
                            assert(pts_view(pts_copy@)[i2] == pts_copy@[i2]@);
                            assert(ds.pview()[i2] == ds.points@[i2]@);
                        }
                        assert(pts_view(pts_copy@) =~= ds.pview());
                    }
                    let st = RegressorState {
                        dim: ds.dim,
                        pts: pts_copy,
                        latents: lat,
                        weights: w,
                        hyp: h,
                        jitter: jit,
                    };
                    proof {
                        assert(combo_ok(ds.pview(), st.latents@, cand as int, level as int));
                        assert(is_first_combo(ds.pview(), st.latents@, cand as int, level as int));
                        assert(fitted_ok(st, *ds));
                        assert(any_combo_ok(*ds));
                    }
                    return Ok(st);
                }
                if jit <= JITTER_MAX / 4 {
                    jit = jit * 4;
                } else {
                    jit = JITTER_MAX;
                }
                level = level + 1;
            }
            cand = cand + 1;
        }
        proof {
            assert(!any_combo_ok(*ds)) by {
                assert forall|c2: int, l2: int| 0 <= c2 < 3 && 0 <= l2 < 6 implies !#[trigger] combo_ok(
                    ds.pview(),
                    fit_latents_spec(*ds),
                    c2,
                    l2,
                ) by {
                    assert(!combo_ok(ds.pview(), lat@, c2, l2));
                }
            }
        }
        Err(FitStatus::IllConditionedCovariance)
    }
}

} // verus!
