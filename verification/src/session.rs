//! The optimization session: the stateful driver of the sequential line
//! search loop.
//!
//! The session owns the preference dataset, the current slider, the fitted
//! regressor and the current best (point, score) pair. Each reported slider
//! position appends one preference constraint (the chosen point beats both
//! slider endpoints), refits the regressor, updates the best-known point and
//! computes the next slider: one end is the best-known point, the other the
//! acquisition proposal. Before the first report there is no data, so the
//! slider is pseudo-random and the best point is undefined. A failed refit
//! is surfaced in the returned status while the dataset and slider still
//! advance with the previous regressor state.

use vstd::prelude::*;
use crate::fixed::{SCALE, MAX_DIM, MAX_POINTS};
use crate::points::{valid_point, interp_coord, interp_pt, interpolate, copy_point};
use crate::rng::{Lcg, lcg_iter, drawn_pt, lemma_lcg_iter_add, lemma_drawn_pt_shift};
use crate::dataset::{Dataset, Constraint, pts_view, reg, reg_idx, find_from};
use crate::regressor::{RegressorState, fitted_ok, fit_latents_spec, all_satisfied, any_combo_ok, best_to, lemma_best_to_props, SLIP_MARGIN};
use crate::acquisition::{next_point, next_point_spec, spec_acq, ACQ_RESTARTS};
use crate::errors::{SlsError, FitStatus};

verus! {

/// The seed a session starts from when none is given.
pub const DEFAULT_SEED: u64 = 0x9e3779b97f4a7c15;

/// The distinctness adjustment of round zero: the first coordinate stepped
/// by one, wrapping at the top of the unit box.
pub open spec fn bump(c: i64) -> i64 {
    if c == SCALE {
        0
    } else {
        (c + 1) as i64
    }
}

/// The first slider endpoint a session seeded with `seed` starts with.
pub open spec fn seeded_end0(seed: u64, dim: nat) -> Seq<i64> {
    drawn_pt(seed, 0, dim)
}

/// The second seeded slider endpoint: the second drawn point, its first
/// coordinate bumped when the draw collides with the first endpoint.
pub open spec fn seeded_end1(seed: u64, dim: nat) -> Seq<i64> {
    let e0 = drawn_pt(seed, 0, dim);
    let raw = drawn_pt(seed, dim as int, dim);
    if raw == e0 {
        raw.update(0, bump(e0[0]))
    } else {
        raw
    }
}

/// The current slider: a segment between two points of the space.
pub struct Slider {
    pub end0: Vec<i64>,
    pub end1: Vec<i64>,
}

/// State of the sequential line search algorithm.
pub struct SLSFramework {
    pub dim: usize,
    pub dataset: Dataset,
    pub regressor: Option<RegressorState>,
    pub slider: Slider,
    pub x_max: Option<Vec<i64>>,
    pub y_max: i64,
    pub gen: Lcg,
}

impl SLSFramework {
    pub open spec fn wf(self) -> bool {
        &&& 1 <= self.dim <= MAX_DIM
        &&& self.dataset.wf()
        &&& self.dataset.dim == self.dim
        &&& valid_point(self.slider.end0@, self.dim as nat)
        &&& valid_point(self.slider.end1@, self.dim as nat)
        &&& (self.regressor matches Some(st) ==> st.wf() && st.dim == self.dim)
        &&& (self.x_max matches Some(p) ==> valid_point(p@, self.dim as nat))
        &&& (self.x_max is Some <==> self.regressor is Some)
        &&& (self.regressor matches Some(st) ==> {
            &&& st.pts@.len() <= self.dataset.points@.len()
            &&& forall|j: int|
                0 <= j < st.pts@.len() ==> #[trigger] pts_view(st.pts@)[j] == self.dataset.pview()[j]
        })
        &&& (self.regressor matches Some(st) ==> self.x_max matches Some(p) && p@ == pts_view(
            st.pts@,
        )[best_to(st.latents@, st.pts@.len() as int)] && self.y_max == st.latents@[best_to(
            st.latents@,
            st.pts@.len() as int,
        )])
    }

    /// Initialize the algorithm from a given generator seed.
    ///
    /// `dim` is the number of dimensions of the parameter space. The dataset
    /// starts empty, the best point is undefined, and the first slider is
    /// pseudo-random with two distinct endpoints.
    pub fn new_with_seed(dim: usize, seed: u64) -> (r: SLSFramework)
        requires
            1 <= dim <= MAX_DIM,
        ensures
            r.wf(),
            r.dim == dim,
            r.dataset.points@.len() == 0,
            r.dataset.constraints@.len() == 0,
            r.regressor is None,
            r.x_max is None,
            r.slider.end0@ != r.slider.end1@,
            r.slider.end0@ == seeded_end0(seed, dim as nat),
            r.slider.end1@ == seeded_end1(seed, dim as nat),
            r.gen.state == lcg_iter(seed, 2 * dim as int),
    {
        let mut gen = Lcg::new(seed);
        let end0: Vec<i64> = gen.next_point(dim);
        let mut end1: Vec<i64> = gen.next_point(dim);
        proof {
            lemma_drawn_pt_shift(seed, dim as int, dim as nat);
            lemma_lcg_iter_add(seed, dim as int, dim as int);
            assert(end1@ == drawn_pt(seed, dim as int, dim as nat));
        }
        if crate::points::points_equal(&end0, &end1) {
            let c0: i64 = end0[0];
            let nc: i64 = if c0 == SCALE {
                0
            } else {
                c0 + 1
            };
            end1[0] = nc;
            proof {
                assert(nc == bump(end0@[0]));
                assert(end1@ == drawn_pt(seed, dim as int, dim as nat).update(0, bump(end0@[0])));
                assert(end1@[0] != end0@[0]);
            }
        }
        proof {
            assert(end0@ != end1@);
            assert(end1@ == seeded_end1(seed, dim as nat));
        }
        SLSFramework {
            dim,
            dataset: Dataset::new(dim),
            regressor: None,
            slider: Slider { end0, end1 },
            x_max: None,
            y_max: 0,
            gen,
        }
    }

    /// Initialize the algorithm.
    ///
    /// `dim` is the number of dimensions of the parameter space.
    pub fn new(dim: usize) -> (r: SLSFramework)
        requires
            1 <= dim <= MAX_DIM,
        ensures
            r.wf(),
            r.dim == dim,
            r.dataset.points@.len() == 0,
            r.dataset.constraints@.len() == 0,
            r.regressor is None,
            r.x_max is None,
            r.slider.end0@ != r.slider.end1@,
            r.slider.end0@ == seeded_end0(DEFAULT_SEED, dim as nat),
            r.slider.end1@ == seeded_end1(DEFAULT_SEED, dim as nat),
            r.gen.state == lcg_iter(DEFAULT_SEED, 2 * dim as int),
    {
        Self::new_with_seed(dim, DEFAULT_SEED)
    }

    /// Get the position along the current slider.
    ///
    /// `pos` is the slider value; it must lie in `[0, SCALE]` (the real unit
    /// interval) or the call is rejected. The result is the exact linear
    /// interpolation `end0 * (1 - pos) + end1 * pos` of the slider
    /// endpoints, coordinate by coordinate.
    pub fn get_parameters_from_slider(&self, pos: i64) -> (r: Result<Vec<i64>, SlsError>)
        requires
            self.wf(),
        ensures
            (r == Err::<Vec<i64>, SlsError>(SlsError::OutOfRangeInput)) <==> !(0 <= pos <= SCALE),
            r is Err ==> r == Err::<Vec<i64>, SlsError>(SlsError::OutOfRangeInput),
            r matches Ok(p) ==> {
                &&& valid_point(p@, self.dim as nat)
                &&& p@ == interp_pt(self.slider.end0@, self.slider.end1@, pos as int)
                &&& forall|i: int|
                    0 <= i < self.dim ==> #[trigger] p@[i] == interp_coord(
                        self.slider.end0@[i] as int,
                        self.slider.end1@[i] as int,
                        pos as int,
                    )
            },
    {
        if pos < 0 || pos > SCALE {
            return Err(SlsError::OutOfRangeInput);
        }
        Ok(interpolate(&self.slider.end0, &self.slider.end1, pos, self.dim))
    }

    /// Get the best position to date, or `UndefinedBestPoint` before the
    /// first round has completed.
    pub fn get_x_max(&self) -> (r: Result<Vec<i64>, SlsError>)
        requires
            self.wf(),
        ensures
            (r == Err::<Vec<i64>, SlsError>(SlsError::UndefinedBestPoint)) <==> self.x_max is None,
            r is Err ==> r == Err::<Vec<i64>, SlsError>(SlsError::UndefinedBestPoint),
            r matches Ok(p) ==> {
                &&& self.x_max matches Some(q) && p@ == q@
                &&& valid_point(p@, self.dim as nat)
            },
            r matches Ok(p) ==> ({
                let st = self.regressor->Some_0;
                let b = best_to(st.latents@, st.pts@.len() as int);
                &&& self.regressor is Some
                &&& p@ == pts_view(st.pts@)[b]
                &&& 0 <= b < self.dataset.points@.len() && p@ == self.dataset.pview()[b]
                &&& forall|j: int| 0 <= j < st.latents@.len() ==> #[trigger] st.latents@[j] <= st.latents@[b]
                &&& self.y_max == st.latents@[b]
            }),
    {
        match &self.x_max {
            None => Err(SlsError::UndefinedBestPoint),
            Some(p) => {
                proof {
                    let st = self.regressor->Some_0;
                    lemma_best_to_props(st.latents@, st.pts@.len() as int);
                    let b = best_to(st.latents@, st.pts@.len() as int);
                    assert(pts_view(st.pts@)[b] == self.dataset.pview()[b]);
                }
                Ok(copy_point(p))
            },
        }
    }

    /// Take one step of the algorithm.
    ///
    /// `pos` is the user's preferred position along the current slider, in
    /// `[0, SCALE]`; outside that range the call fails with
    /// `OutOfRangeInput` and changes nothing. Otherwise the interpolated
    /// point is ranked above both slider endpoints in the dataset, the
    /// regressor is refit, the best-known point is updated, and a new slider
    /// is computed: its first end the best-known point, its second the
    /// acquisition proposal. A refit failure is returned as the status while
    /// the previous regressor state and best point are kept.
    pub fn proceed_optimization(&mut self, pos: i64) -> (r: Result<FitStatus, SlsError>)
        requires
            old(self).wf(),
            0 <= pos <= SCALE ==> old(self).dataset.points@.len() + 3 <= MAX_POINTS,
        ensures
            final(self).wf(),
            final(self).dim == old(self).dim,
            (r == Err::<FitStatus, SlsError>(SlsError::OutOfRangeInput)) <==> !(0 <= pos <= SCALE),
            r is Err ==> r == Err::<FitStatus, SlsError>(SlsError::OutOfRangeInput),
            r is Err ==> *final(self) == *old(self),
            r is Ok ==> ({
                let xp = interp_pt(old(self).slider.end0@, old(self).slider.end1@, pos as int);
                let p0 = old(self).dataset.pview();
                let p1 = reg(p0, xp);
                let p2 = reg(p1, old(self).slider.end0@);
                let p3 = reg(p2, old(self).slider.end1@);
                &&& final(self).dataset.pview() == p3
                &&& final(self).dataset.constraints@ == old(self).dataset.constraints@.push(
                    Constraint {
                        winner: reg_idx(p0, xp) as usize,
                        loser_a: reg_idx(p1, old(self).slider.end0@) as usize,
                        loser_b: reg_idx(p2, old(self).slider.end1@) as usize,
                    },
                )
                &&& final(self).dataset.constraints@.len() == old(self).dataset.constraints@.len() + 1
                &&& old(self).dataset.points@.len() <= final(self).dataset.points@.len()
                &&& final(self).dataset.points@.len() <= old(self).dataset.points@.len() + 3
                &&& forall|j: int|
                    0 <= j < old(self).dataset.points@.len()
                        ==> #[trigger] final(self).dataset.pview()[j] == old(self).dataset.pview()[j]
            }),
            r is Ok ==> ({
                &&& (r->Ok_0 == FitStatus::RegressionDidNotConverge) <==> !all_satisfied(
                    fit_latents_spec(final(self).dataset),
                    final(self).dataset.constraints@,
                    SLIP_MARGIN as int,
                )
                &&& (r->Ok_0 == FitStatus::Converged) <==> (all_satisfied(
                    fit_latents_spec(final(self).dataset),
                    final(self).dataset.constraints@,
                    SLIP_MARGIN as int,
                ) && any_combo_ok(final(self).dataset))
                &&& (r->Ok_0 == FitStatus::IllConditionedCovariance) <==> (all_satisfied(
                    fit_latents_spec(final(self).dataset),
                    final(self).dataset.constraints@,
                    SLIP_MARGIN as int,
                ) && !any_combo_ok(final(self).dataset))
                &&& (r->Ok_0 == FitStatus::Converged) ==> ({
                    &&& final(self).regressor matches Some(st)
                    &&& fitted_ok(final(self).regressor->Some_0, final(self).dataset)
                    &&& final(self).x_max matches Some(p) && p@ == pts_view(
                        final(self).regressor->Some_0.pts@,
                    )[best_to(
                        final(self).regressor->Some_0.latents@,
                        final(self).regressor->Some_0.pts@.len() as int,
                    )]
                    &&& final(self).y_max == final(self).regressor->Some_0.latents@[best_to(
                        final(self).regressor->Some_0.latents@,
                        final(self).regressor->Some_0.pts@.len() as int,
                    )]
                })
                &&& (r->Ok_0 != FitStatus::Converged) ==> final(self).regressor == old(self).regressor
                    && final(self).x_max == old(self).x_max && final(self).y_max == old(self).y_max
                &&& (final(self).regressor matches Some(st) ==> {
                    &&& final(self).slider.end0@ == pts_view(st.pts@)[best_to(
                        st.latents@,
                        st.pts@.len() as int,
                    )]
                    &&& spec_acq(st, final(self).slider.end1@) >= spec_acq(st, final(self).slider.end0@)
                    &&& final(self).slider.end1@ == next_point_spec(st, old(self).gen.state)
                    &&& final(self).gen.state == lcg_iter(
                        old(self).gen.state,
                        ACQ_RESTARTS as int * old(self).dim as int,
                    )
                })
                &&& (final(self).regressor is None ==> {
                    &&& final(self).slider.end0@ == drawn_pt(old(self).gen.state, 0, old(self).dim as nat)
                    &&& final(self).slider.end1@ == drawn_pt(
                        old(self).gen.state,
                        old(self).dim as int,
                        old(self).dim as nat,
                    )
                    &&& final(self).gen.state == lcg_iter(old(self).gen.state, 2 * old(self).dim as int)
                })
            }),
    {
        if pos < 0 || pos > SCALE {
            return Err(SlsError::OutOfRangeInput);
        }
        let x: Vec<i64> = interpolate(&self.slider.end0, &self.slider.end1, pos, self.dim);
        // The three points all have the session dimension, so the append
        // cannot be rejected.
        self.dataset.add_constraint(&x, &self.slider.end0, &self.slider.end1).unwrap();
        proof {
            let p0 = old(self).dataset.pview();
            let p1 = reg(p0, x@);
            let p2 = reg(p1, old(self).slider.end0@);
            let p3 = reg(p2, old(self).slider.end1@);
            assert(p1.len() >= 1) by {
                if p0.len() == 0 {
                    assert(find_from(p0, x@, 0) == 0);
                }
            }
            assert(p2.len() >= p1.len());
            assert(p3.len() >= p2.len());
            assert(self.dataset.pview().len() == self.dataset.points@.len());
            assert(self.dataset.points@.len() >= 1);
        }
        let status: FitStatus = match RegressorState::fit(&self.dataset) {
            Ok(st) => {
                let (bp, by): (Vec<i64>, i64) = st.best_training_point();
                self.x_max = Some(bp);
                self.y_max = by;
                self.regressor = Some(st);
                FitStatus::Converged
            },
            Err(f) => f,
        };
        let ghost g_pre: u64 = self.gen.state;
        proof {
            assert(g_pre == old(self).gen.state);
        }
        match &self.regressor {
            Some(st) => {
                let (e0, _score): (Vec<i64>, i64) = st.best_training_point();
                let e1: Vec<i64> = next_point(st, &mut self.gen);
                self.slider = Slider { end0: e0, end1: e1 };
            },
            None => {
                let e0: Vec<i64> = self.gen.next_point(self.dim);
                let e1: Vec<i64> = self.gen.next_point(self.dim);
                proof {
                    lemma_drawn_pt_shift(g_pre, old(self).dim as int, old(self).dim as nat);
                    lemma_lcg_iter_add(g_pre, old(self).dim as int, old(self).dim as int);
                }
                self.slider = Slider { end0: e0, end1: e1 };
            },
        }
        Ok(status)
    }
}

} // verus!
