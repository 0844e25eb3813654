//! The preference dataset: the distinct points observed so far and the
//! ordered list of preference constraints among them.
//!
//! Points are always deduplicated on registration (exact coordinate
//! equality), so a constraint may rank a point against itself when a slider
//! was reported at one of its ends; the regressor treats such a pair as
//! vacuous. Constraints are appended, never edited or removed, and every
//! index they hold refers into the point list.

use vstd::prelude::*;
use crate::fixed::{MAX_DIM, MAX_POINTS, SCALE};
use crate::points::{valid_point, points_equal, copy_point};
use crate::errors::SlsError;

verus! {

/// One recorded ranking: the point at `winner` is preferred over the points
/// at `loser_a` and `loser_b`.
#[derive(Clone, Copy)]
pub struct Constraint {
    pub winner: usize,
    pub loser_a: usize,
    pub loser_b: usize,
}

/// The sequence of coordinate sequences held by a point list.
pub open spec fn pts_view(pts: Seq<Vec<i64>>) -> Seq<Seq<i64>> {
    pts.map_values(|q: Vec<i64>| q@)
}

/// The first index at or after `i` whose point equals `p`, or the length if
/// there is none.
pub open spec fn find_from(pts: Seq<Seq<i64>>, p: Seq<i64>, i: int) -> int
    recommends
        0 <= i <= pts.len(),
    decreases pts.len() - i,
{
    if i < 0 || i >= pts.len() {
        pts.len() as int
    } else if pts[i] == p {
        i
    } else {
        find_from(pts, p, i + 1)
    }
}

/// The index `p` gets once registered: its first occurrence, or the old
/// length if it is new.
pub open spec fn reg_idx(pts: Seq<Seq<i64>>, p: Seq<i64>) -> int {
    find_from(pts, p, 0)
}

/// The point list after registering `p`: unchanged if present, else extended.
pub open spec fn reg(pts: Seq<Seq<i64>>, p: Seq<i64>) -> Seq<Seq<i64>> {
    if reg_idx(pts, p) < pts.len() {
        pts
    } else {
        pts.push(p)
    }
}

proof fn lemma_find_from_in_range(pts: Seq<Seq<i64>>, p: Seq<i64>, i: int)
    requires
        0 <= i <= pts.len(),
    ensures
        i <= find_from(pts, p, i) <= pts.len(),
        find_from(pts, p, i) < pts.len() ==> pts[find_from(pts, p, i)] == p,
    decreases pts.len() - i,
{
    if i < pts.len() && pts[i] != p {
        lemma_find_from_in_range(pts, p, i + 1);
    }
}

pub struct Dataset {
    pub dim: usize,
    pub points: Vec<Vec<i64>>,
    pub constraints: Vec<Constraint>,
}

impl Dataset {
    pub open spec fn pview(self) -> Seq<Seq<i64>> {
        pts_view(self.points@)
    }

    pub open spec fn wf(self) -> bool {
        &&& 1 <= self.dim <= MAX_DIM
        &&& self.points@.len() <= MAX_POINTS
        &&& forall|i: int|
            0 <= i < self.points@.len() ==> valid_point(#[trigger] self.pview()[i], self.dim as nat)
        &&& forall|i: int|
            0 <= i < self.constraints@.len() ==> {
                &&& (#[trigger] self.constraints@[i]).winner < self.points@.len()
                &&& self.constraints@[i].loser_a < self.points@.len()
                &&& self.constraints@[i].loser_b < self.points@.len()
            }
    }

    /// An empty dataset of dimension `dim`.
    pub fn new(dim: usize) -> (r: Dataset)
        requires
            1 <= dim <= MAX_DIM,
        ensures
            r.wf(),
            r.dim == dim,
            r.points@.len() == 0,
            r.constraints@.len() == 0,
    {
        Dataset { dim, points: Vec::new(), constraints: Vec::new() }
    }

    pub fn n_points(&self) -> (r: usize)
        ensures
            r == self.points@.len(),
    {
        self.points.len()
    }

    pub fn n_constraints(&self) -> (r: usize)
        ensures
            r == self.constraints@.len(),
    {
        self.constraints.len()
    }

    /// Register `p`, returning its index: the existing index of an equal
    /// point, or the index of a fresh copy appended at the end.
    fn register(&mut self, p: &Vec<i64>) -> (r: usize)
        requires
            old(self).wf(),
            valid_point(p@, old(self).dim as nat),
            old(self).points@.len() < MAX_POINTS,
        ensures
            final(self).wf(),
            final(self).dim == old(self).dim,
            final(self).constraints@ == old(self).constraints@,
            final(self).pview() == reg(old(self).pview(), p@),
            r == reg_idx(old(self).pview(), p@),
            r < final(self).points@.len(),
            final(self).pview()[r as int] == p@,
            old(self).points@.len() <= final(self).points@.len() <= old(self).points@.len() + 1,
    {
        let ghost pv = self.pview();
        let n = self.points.len();
        let mut i: usize = 0;
        while i < n
            invariant
                self.wf(),
                *self == *old(self),
                valid_point(p@, self.dim as nat),
                pv == self.pview(),
                n == self.points@.len(),
                i <= n,
                find_from(pv, p@, 0) == find_from(pv, p@, i as int),
            decreases n - i,
        {
            proof {
                assert(pv[i as int] == self.points@[i as int]@);
            }
            if points_equal(&self.points[i], p) {
                proof {
                    lemma_find_from_in_range(pv, p@, i as int);
                }
                return i;
            }
            i = i + 1;
        }
        proof {
            assert(find_from(pv, p@, n as int) == pv.len());
        }
        self.points.push(copy_point(p));
        proof {
            assert(self.pview() =~= pv.push(p@));
            assert(self.pview()[n as int] == p@);
            assert forall|j: int| 0 <= j < self.points@.len() implies valid_point(
                #[trigger] self.pview()[j],
                self.dim as nat,
            ) by {
                if j < n {
                    assert(self.pview()[j] == pv[j]);
                }
            }
        }
        n
    }

    /// Append the ranking derived from one slider round: `winner` beats both
    /// `loser_a` and `loser_b`. Each of the three points is registered
    /// (deduplicated by exact equality). Fails exactly when a supplied
    /// point's length differs from the dataset dimension, and then changes
    /// nothing.
    pub fn add_constraint(&mut self, winner: &Vec<i64>, loser_a: &Vec<i64>, loser_b: &Vec<i64>) -> (r:
        Result<(), SlsError>)
        requires
            old(self).wf(),
            old(self).points@.len() + 3 <= MAX_POINTS,
            forall|i: int| 0 <= i < winner@.len() ==> 0 <= #[trigger] winner@[i] <= SCALE,
            forall|i: int| 0 <= i < loser_a@.len() ==> 0 <= #[trigger] loser_a@[i] <= SCALE,
            forall|i: int| 0 <= i < loser_b@.len() ==> 0 <= #[trigger] loser_b@[i] <= SCALE,
        ensures
            final(self).wf(),
            final(self).dim == old(self).dim,
            r == Err::<(), SlsError>(SlsError::DimensionMismatch) <==> !(winner@.len() == old(self).dim
                && loser_a@.len() == old(self).dim && loser_b@.len() == old(self).dim),
            r is Err ==> r == Err::<(), SlsError>(SlsError::DimensionMismatch),
            r is Err ==> *final(self) == *old(self),
            r is Ok ==> ({
                let p0 = old(self).pview();
                let p1 = reg(p0, winner@);
                let p2 = reg(p1, loser_a@);
                let p3 = reg(p2, loser_b@);
                &&& final(self).pview() == p3
                &&& final(self).constraints@ == old(self).constraints@.push(
                    Constraint {
                        winner: reg_idx(p0, winner@) as usize,
                        loser_a: reg_idx(p1, loser_a@) as usize,
                        loser_b: reg_idx(p2, loser_b@) as usize,
                    },
                )
            }),
            r is Ok ==> old(self).points@.len() <= final(self).points@.len() <= old(self).points@.len()
                + 3 && final(self).constraints@.len() == old(self).constraints@.len() + 1,
            r is Ok ==> forall|j: int|
                0 <= j < old(self).points@.len() ==> #[trigger] final(self).pview()[j] == old(
                    self,
                ).pview()[j],
    {
        if winner.len() != self.dim || loser_a.len() != self.dim || loser_b.len() != self.dim {
            return Err(SlsError::DimensionMismatch);
        }
        let iw = self.register(winner);
        let ia = self.register(loser_a);
        let ib = self.register(loser_b);
        self.constraints.push(Constraint { winner: iw, loser_a: ia, loser_b: ib });
        Ok(())
    }
}

} // verus!
