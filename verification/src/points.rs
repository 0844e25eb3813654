//! Points of the parameter space and the slider interpolation.
//!
//! A point is a vector of fixed-point coordinates, each in `[0, SCALE]`
//! (the real unit interval per dimension).

use vstd::prelude::*;
use crate::fixed::{SCALE, div_tz, iabs, lemma_div_tz_bound, mul_wide, div_tz_wide};

verus! {

/// A well-formed point of dimension `dim`: every coordinate lies in
/// `[0, SCALE]`.
pub open spec fn valid_point(p: Seq<i64>, dim: nat) -> bool {
    &&& p.len() == dim
    &&& forall|i: int| 0 <= i < p.len() ==> 0 <= #[trigger] p[i] <= SCALE
}

/// One coordinate of the slider interpolation `a * (1 - v) + b * v`, in
/// fixed point: the slider position `v` lies in `[0, SCALE]`.
pub open spec fn interp_coord(a: int, b: int, v: int) -> int {
    div_tz(a * (SCALE - v) + b * v, SCALE as int)
}

/// The interpolated point as a coordinate sequence.
pub open spec fn interp_pt(a: Seq<i64>, b: Seq<i64>, v: int) -> Seq<i64> {
    Seq::new(a.len(), |i: int| interp_coord(a[i] as int, b[i] as int, v) as i64)
}

/// An interpolated coordinate of two valid coordinates stays in `[0, SCALE]`.
pub proof fn lemma_interp_coord_in_range(a: int, b: int, v: int)
    requires
        0 <= a <= SCALE,
        0 <= b <= SCALE,
        0 <= v <= SCALE,
    ensures
        0 <= interp_coord(a, b, v) <= SCALE,
{
    assert(0 <= a * (SCALE - v) + b * v <= SCALE * SCALE) by (nonlinear_arith)
        requires
            0 <= a <= SCALE,
            0 <= b <= SCALE,
            0 <= v <= SCALE,
    ;
    lemma_div_tz_bound(a * (SCALE - v) + b * v, SCALE as int, SCALE as int);
}

/// Linear interpolation between two points: coordinate `i` of the result is
/// `interp_coord(a[i], b[i], v)`.
pub fn interpolate(a: &Vec<i64>, b: &Vec<i64>, v: i64, dim: usize) -> (r: Vec<i64>)
    requires
        valid_point(a@, dim as nat),
        valid_point(b@, dim as nat),
        0 <= v <= SCALE,
    ensures
        valid_point(r@, dim as nat),
        forall|i: int| 0 <= i < dim ==> #[trigger] r@[i] == interp_coord(a@[i] as int, b@[i] as int, v as int),
        r@ == interp_pt(a@, b@, v as int),
{
    let mut r: Vec<i64> = Vec::new();
    let mut i: usize = 0;
    while i < dim
        invariant
            valid_point(a@, dim as nat),
            valid_point(b@, dim as nat),
            0 <= v <= SCALE,
            i <= dim,
            r@.len() == i,
            forall|j: int| 0 <= j < i ==> 0 <= #[trigger] r@[j] <= SCALE,
            forall|j: int| 0 <= j < i ==> #[trigger] r@[j] == interp_coord(a@[j] as int, b@[j] as int, v as int),
        decreases dim - i,
    {
        let pa: i128 = mul_wide(a[i], SCALE - v);
        let pb: i128 = mul_wide(b[i], v);
        proof {
            assert(0 <= a@[i as int] * (SCALE - v) && 0 <= b@[i as int] * v
                && a@[i as int] * (SCALE - v) + b@[i as int] * v <= SCALE * SCALE) by (nonlinear_arith)
                requires
                    0 <= a@[i as int] <= SCALE,
                    0 <= b@[i as int] <= SCALE,
                    0 <= v <= SCALE,
            ;
        }
        let num: i128 = pa + pb;
        let q: i128 = div_tz_wide(num, SCALE as i128);
        proof {
            lemma_div_tz_bound(num as int, SCALE as int, SCALE as int);
        }
        r.push(q as i64);
        i = i + 1;
    }
    proof {
        assert forall|j: int| 0 <= j < dim implies r@[j] == interp_pt(a@, b@, v as int)[j] by {
            lemma_interp_coord_in_range(a@[j] as int, b@[j] as int, v as int);
        }
        assert(r@ =~= interp_pt(a@, b@, v as int));
    }
    r
}

/// An owned copy of a point.
pub fn copy_point(p: &Vec<i64>) -> (r: Vec<i64>)
    ensures
        r@ == p@,
{
    let mut r: Vec<i64> = Vec::new();
    let mut i: usize = 0;
    while i < p.len()
        invariant
            i <= p@.len(),
            r@ == p@.subrange(0, i as int),
        decreases p@.len() - i,
    {
        r.push(p[i]);
        proof {
            assert(r@ =~= p@.subrange(0, i + 1));
        }
        i = i + 1;
    }
    proof {
        assert(r@ =~= p@);
    }
    r
}

/// An owned copy of a point list.
pub fn copy_point_list(pts: &Vec<Vec<i64>>) -> (r: Vec<Vec<i64>>)
    ensures
        r@.len() == pts@.len(),
        forall|i: int| 0 <= i < pts@.len() ==> #[trigger] r@[i]@ == pts@[i]@,
{
    let mut r: Vec<Vec<i64>> = Vec::new();
    let mut i: usize = 0;
    while i < pts.len()
        invariant
            i <= pts@.len(),
            r@.len() == i,
            forall|j: int| 0 <= j < i ==> #[trigger] r@[j]@ == pts@[j]@,
        decreases pts@.len() - i,
    {
        r.push(copy_point(&pts[i]));
        i = i + 1;
    }
    r
}

/// Whether two points hold the same coordinates.
pub fn points_equal(a: &Vec<i64>, b: &Vec<i64>) -> (r: bool)
    ensures
        r == (a@ == b@),
{
    if a.len() != b.len() {
        proof {
            assert(a@.len() != b@.len());
        }
        return false;
    }
    let mut i: usize = 0;
    while i < a.len()
        invariant
            a@.len() == b@.len(),
            i <= a@.len(),
            forall|j: int| 0 <= j < i ==> #[trigger] a@[j] == b@[j],
        decreases a@.len() - i,
    {
        if a[i] != b[i] {
            proof {
                assert(a@[i as int] != b@[i as int]);
            }
            return false;
        }
        i = i + 1;
    }
    proof {
        assert(a@ =~= b@);
    }
    true
}

/// Squared euclidean distance between the fixed-point prefixes of length `n`,
/// in `SCALE * SCALE` units.
pub open spec fn sqdist_to(p: Seq<i64>, q: Seq<i64>, n: int) -> int
    decreases n,
{
    if n <= 0 {
        0
    } else {
        sqdist_to(p, q, n - 1) + (p[n - 1] - q[n - 1]) * (p[n - 1] - q[n - 1])
    }
}

/// Squared distance of valid prefixes is bounded by `n * SCALE * SCALE` and
/// nonnegative.
pub proof fn lemma_sqdist_bound(p: Seq<i64>, q: Seq<i64>, n: int)
    requires
        0 <= n <= p.len(),
        n <= q.len(),
        forall|i: int| 0 <= i < p.len() ==> 0 <= #[trigger] p[i] <= SCALE,
        forall|i: int| 0 <= i < q.len() ==> 0 <= #[trigger] q[i] <= SCALE,
    ensures
        0 <= sqdist_to(p, q, n) <= n * (SCALE * SCALE),
    decreases n,
{
    if n > 0 {
        lemma_sqdist_bound(p, q, n - 1);
        let d = p[n - 1] - q[n - 1];
        assert(0 <= d * d <= SCALE * SCALE) by (nonlinear_arith)
            requires
                iabs(d) <= SCALE,
        ;
        assert((n - 1) * (SCALE * SCALE) + SCALE * SCALE == n * (SCALE * SCALE)) by (nonlinear_arith);
    }
}

/// Squared distance is symmetric in its two points.
pub proof fn lemma_sqdist_symmetric(p: Seq<i64>, q: Seq<i64>, n: int)
    ensures
        sqdist_to(p, q, n) == sqdist_to(q, p, n),
    decreases n,
{
    if n > 0 {
        lemma_sqdist_symmetric(p, q, n - 1);
        assert((p[n - 1] - q[n - 1]) * (p[n - 1] - q[n - 1]) == (q[n - 1] - p[n - 1]) * (q[n - 1] - p[n - 1])) by (nonlinear_arith);
    }
}

/// The squared distance of a point to itself is zero.
pub proof fn lemma_sqdist_self(p: Seq<i64>, n: int)
    ensures
        sqdist_to(p, p, n) == 0,
    decreases n,
{
    if n > 0 {
        lemma_sqdist_self(p, n - 1);
    }
}

/// Squared euclidean distance between two points of dimension `dim`.
pub fn sqdist(p: &Vec<i64>, q: &Vec<i64>, dim: usize) -> (r: i64)
    requires
        valid_point(p@, dim as nat),
        valid_point(q@, dim as nat),
        dim <= crate::fixed::MAX_DIM,
    ensures
        r == sqdist_to(p@, q@, dim as int),
        0 <= r <= dim * (SCALE * SCALE),
{
    let mut acc: i64 = 0;
    let mut i: usize = 0;
    while i < dim
        invariant
            valid_point(p@, dim as nat),
            valid_point(q@, dim as nat),
            dim <= crate::fixed::MAX_DIM,
            i <= dim,
            acc == sqdist_to(p@, q@, i as int),
            0 <= acc <= i * (SCALE * SCALE),
        decreases dim - i,
    {
        let d: i64 = p[i] - q[i];
        proof {
            assert(0 <= (d as int) * (d as int) <= SCALE * SCALE) by (nonlinear_arith)
                requires
                    iabs(d as int) <= SCALE,
            ;
            assert((i as int) * (SCALE * SCALE) + SCALE * SCALE == (i + 1) as int * (SCALE * SCALE)) by (nonlinear_arith);
            assert((i + 1) as int * (SCALE * SCALE) <= (crate::fixed::MAX_DIM as int) * (SCALE * SCALE)) by (nonlinear_arith)
                requires
                    i + 1 <= crate::fixed::MAX_DIM,
        ;
        }
        acc = acc + d * d;
        i = i + 1;
    }
    acc
}

} // verus!
