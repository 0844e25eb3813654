//! Laws of the slider interpolation and of dataset growth, stated once over
//! all inputs and proved.

use vstd::prelude::*;
use crate::fixed::{SCALE, div_tz, lemma_div_tz_exact};
use crate::points::{interp_coord, interp_pt};
use crate::dataset::{Dataset, pts_view, reg, reg_idx, find_from};
use crate::session::SLSFramework;
use crate::regressor::{
    RegressorState, fitted_ok, fit_latents_spec, any_combo_ok, combo_ok, is_first_combo,
    lemma_first_combo_unique, same_model, hyp_of, jit_of, solve_spec,
};

verus! {

/// The midpoint of two points, coordinate by coordinate, rounded down.
pub open spec fn midpoint_pt(a: Seq<i64>, b: Seq<i64>) -> Seq<i64> {
    Seq::new(a.len(), |i: int| (((a[i] + b[i]) / 2) as i64))
}

/// At slider value zero the interpolation returns the first endpoint
/// exactly.
pub proof fn lemma_interp_at_zero(a: int, b: int)
    ensures
        interp_coord(a, b, 0) == a,
{
    assert(a * (SCALE - 0) + b * 0 == a * SCALE) by (nonlinear_arith);
    lemma_div_tz_exact(a, SCALE as int);
}

/// At slider value one the interpolation returns the second endpoint
/// exactly.
pub proof fn lemma_interp_at_one(a: int, b: int)
    ensures
        interp_coord(a, b, SCALE as int) == b,
{
    assert(a * (SCALE - SCALE) + b * SCALE == b * SCALE) by (nonlinear_arith);
    lemma_div_tz_exact(b, SCALE as int);
}

/// At slider value one half the interpolation returns the floor midpoint
/// exactly.
pub proof fn lemma_interp_at_half(a: int, b: int)
    requires
        0 <= a,
        0 <= b,
    ensures
        interp_coord(a, b, (SCALE / 2) as int) == (a + b) / 2,
{
    let h: int = (SCALE / 2) as int;
    let k = a + b;
    assert(a * (SCALE - h) + b * h == k * h) by (nonlinear_arith)
        requires
            h == SCALE / 2,
            SCALE == 1_000_000,
            k == a + b,
    ;
    let q = k / 2;
    let r = k % 2;
    vstd::arithmetic::div_mod::lemma_fundamental_div_mod(k, 2);
    vstd::arithmetic::div_mod::lemma_mod_bound(k, 2);
    assert(k * h == (SCALE as int) * q + r * h) by (nonlinear_arith)
        requires
            k == 2 * q + r,
            h == SCALE / 2,
            SCALE == 1_000_000,
    ;
    assert(0 <= r * h < SCALE) by (nonlinear_arith)
        requires
            0 <= r < 2,
            h == SCALE / 2,
            SCALE == 1_000_000,
    ;
    vstd::arithmetic::div_mod::lemma_div_multiples_vanish_fancy(q, r * h, SCALE as int);
    assert(k * h >= 0) by (nonlinear_arith)
        requires
            k >= 0,
            h > 0,
    ;
    assert(div_tz(k * h, SCALE as int) == (k * h) / (SCALE as int));
}

/// The interpolation law at the endpoints and the midpoint, as whole
/// points: querying the slider at 0 and 1 returns the two endpoints, and
/// querying at one half returns their floor midpoint, all exactly.
pub proof fn lemma_interp_pt_laws(a: Seq<i64>, b: Seq<i64>)
    requires
        a.len() == b.len(),
        forall|i: int| 0 <= i < a.len() ==> 0 <= #[trigger] a[i] <= SCALE,
        forall|i: int| 0 <= i < b.len() ==> 0 <= #[trigger] b[i] <= SCALE,
    ensures
        interp_pt(a, b, 0) == a,
        interp_pt(a, b, SCALE as int) == b,
        interp_pt(a, b, (SCALE / 2) as int) == midpoint_pt(a, b),
{
    assert forall|i: int| 0 <= i < a.len() implies #[trigger] interp_pt(a, b, 0)[i] == a[i] by {
        lemma_interp_at_zero(a[i] as int, b[i] as int);
    }
    assert(interp_pt(a, b, 0) =~= a);
    assert forall|i: int| 0 <= i < a.len() implies #[trigger] interp_pt(a, b, SCALE as int)[i]
        == b[i] by {
        lemma_interp_at_one(a[i] as int, b[i] as int);
    }
    assert(interp_pt(a, b, SCALE as int) =~= b);
    assert forall|i: int| 0 <= i < a.len() implies #[trigger] interp_pt(a, b, (SCALE / 2) as int)[i]
        == midpoint_pt(a, b)[i] by {
        lemma_interp_at_half(a[i] as int, b[i] as int);
    }
    assert(interp_pt(a, b, (SCALE / 2) as int) =~= midpoint_pt(a, b));
}

/// Round zero of any well-formed session with distinct slider endpoints:
/// the slider queries at 0 and 1 are the two endpoints themselves, hence
/// distinct, and the query at one half is their exact floor midpoint.
pub proof fn lemma_round_zero_queries(s: SLSFramework)
    requires
        s.wf(),
        s.slider.end0@ != s.slider.end1@,
    ensures
        interp_pt(s.slider.end0@, s.slider.end1@, 0) == s.slider.end0@,
        interp_pt(s.slider.end0@, s.slider.end1@, SCALE as int) == s.slider.end1@,
        interp_pt(s.slider.end0@, s.slider.end1@, 0) != interp_pt(
            s.slider.end0@,
            s.slider.end1@,
            SCALE as int,
        ),
        interp_pt(s.slider.end0@, s.slider.end1@, (SCALE / 2) as int) == midpoint_pt(
            s.slider.end0@,
            s.slider.end1@,
        ),
{
    lemma_interp_pt_laws(s.slider.end0@, s.slider.end1@);
}

/// The fit is a function of the dataset's content alone: two datasets with
/// the same point coordinates and the same constraints fit the same latents
/// and succeed on the same grid combinations.
pub proof fn lemma_fit_congruent(d1: Dataset, d2: Dataset)
    requires
        d1.pview() == d2.pview(),
        d1.constraints@ == d2.constraints@,
    ensures
        fit_latents_spec(d1) == fit_latents_spec(d2),
        any_combo_ok(d1) == any_combo_ok(d2),
{
    assert(pts_view(d1.points@).len() == d1.points@.len());
    assert(pts_view(d2.points@).len() == d2.points@.len());
    assert(d1.points@.len() == d2.points@.len());
    assert(fit_latents_spec(d1) == fit_latents_spec(d2));
    if any_combo_ok(d1) {
        let (c, l): (int, int) = choose|c: int, l: int|
            0 <= c < 3 && 0 <= l < 6 && #[trigger] combo_ok(d1.pview(), fit_latents_spec(d1), c, l);
        assert(combo_ok(d2.pview(), fit_latents_spec(d2), c, l));
        assert(any_combo_ok(d2));
    }
    if any_combo_ok(d2) {
        let (c, l): (int, int) = choose|c: int, l: int|
            0 <= c < 3 && 0 <= l < 6 && #[trigger] combo_ok(d2.pview(), fit_latents_spec(d2), c, l);
        assert(combo_ok(d1.pview(), fit_latents_spec(d1), c, l));
        assert(any_combo_ok(d1));
    }
}

/// Two successful fits of datasets with the same content carry the same
/// observable model: same training coordinates, latents, weights,
/// hyperparameters and jitter. With `lemma_fit_congruent` this is the
/// engine's determinism: equal histories give equal surrogates.
pub proof fn lemma_fitted_same(st1: RegressorState, st2: RegressorState, d1: Dataset, d2: Dataset)
    requires
        d1.dim == d2.dim,
        d1.pview() == d2.pview(),
        d1.constraints@ == d2.constraints@,
        fitted_ok(st1, d1),
        fitted_ok(st2, d2),
    ensures
        same_model(st1, st2),
{
    lemma_fit_congruent(d1, d2);
    let (c1, l1): (int, int) = choose|c: int, l: int|
        st1.hyp == hyp_of(c) && st1.jitter == jit_of(l) && #[trigger] is_first_combo(
            d1.pview(),
            st1.latents@,
            c,
            l,
        );
    let (c2, l2): (int, int) = choose|c: int, l: int|
        st2.hyp == hyp_of(c) && st2.jitter == jit_of(l) && #[trigger] is_first_combo(
            d2.pview(),
            st2.latents@,
            c,
            l,
        );
    assert(st1.latents@ == st2.latents@);
    assert(is_first_combo(d1.pview(), st1.latents@, c2, l2));
    lemma_first_combo_unique(d1.pview(), st1.latents@, c1, l1, c2, l2);
    assert(st1.weights@ == solve_spec(d1.pview(), st1.latents@, st1.hyp, st1.jitter as int));
    assert(st2.weights@ == solve_spec(d1.pview(), st1.latents@, st1.hyp, st1.jitter as int));
}

/// Dataset growth per recorded round: registering the three points of one
/// ranking appends at most three new points, removes none, keeps every
/// existing point at its index, and every index the new constraint holds
/// refers into the grown list.
pub proof fn lemma_dataset_growth(p0: Seq<Seq<i64>>, xp: Seq<i64>, e0: Seq<i64>, e1: Seq<i64>)
    ensures
        ({
            let p1 = reg(p0, xp);
            let p2 = reg(p1, e0);
            let p3 = reg(p2, e1);
            &&& p0.len() <= p3.len() <= p0.len() + 3
            &&& forall|j: int| 0 <= j < p0.len() ==> #[trigger] p3[j] == p0[j]
            &&& 0 <= reg_idx(p0, xp) < p3.len()
            &&& 0 <= reg_idx(p1, e0) < p3.len()
            &&& 0 <= reg_idx(p2, e1) < p3.len()
            &&& p1[reg_idx(p0, xp)] == xp
        }),
{
    lemma_reg_props(p0, xp);
    lemma_reg_props(reg(p0, xp), e0);
    lemma_reg_props(reg(reg(p0, xp), e0), e1);
}

/// Registering one point grows the list by at most one, keeps every
/// existing point at its index, and yields an index into the grown list.
pub proof fn lemma_reg_props(pts: Seq<Seq<i64>>, p: Seq<i64>)
    ensures
        pts.len() <= reg(pts, p).len() <= pts.len() + 1,
        forall|j: int| 0 <= j < pts.len() ==> #[trigger] reg(pts, p)[j] == pts[j],
        0 <= reg_idx(pts, p) <= pts.len(),
        reg_idx(pts, p) < reg(pts, p).len(),
        reg(pts, p)[reg_idx(pts, p)] == p,
{
    lemma_find_from_ge(pts, p, 0);
}

proof fn lemma_find_from_ge(pts: Seq<Seq<i64>>, p: Seq<i64>, i: int)
    requires
        0 <= i <= pts.len(),
    ensures
        i <= find_from(pts, p, i) <= pts.len(),
        find_from(pts, p, i) < pts.len() ==> pts[find_from(pts, p, i)] == p,
    decreases pts.len() - i,
{
    if i < pts.len() && pts[i] != p {
        lemma_find_from_ge(pts, p, i + 1);
    }
}

} // verus!
