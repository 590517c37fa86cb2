//! Vectors, coordinates, frames and bounding boxes.
//!
//! Every runtime value is a fixed-point number (see `num`): a struct of
//! `i128` components whose mathematical content is its view, a ghost struct
//! of unbounded integers.  Contracts are stated over the views.

use crate::metric::{minkowski_dot, CarthesianMinkowski, Metric};
use crate::num::{
    div_fl, isqrt, lemma_div_bound, lemma_isqrt_ge, muls, sabs, AXIS_MAX, FRAME_ROOT_MAX,
    NORM_MIN, POINT_MAX, SCALE, SCALE2, TOL, UNIT_MAX,
};
use vstd::prelude::*;

verus! {

/// Mathematical model of a four-component vector.
pub ghost struct Vec4 {
    pub t: int,
    pub x: int,
    pub y: int,
    pub z: int,
}

/// Mathematical model of a tangent vector: a direction anchored at a root.
pub ghost struct Ray4 {
    pub root: Vec4,
    pub dir: Vec4,
}

/// Mathematical model of an observer frame: a root and four basis vectors.
pub ghost struct Frame4 {
    pub root: Vec4,
    pub axis0: Vec4,
    pub axis1: Vec4,
    pub axis2: Vec4,
    pub axis3: Vec4,
}

/// Mathematical model of an axis-aligned box: per-axis lower and upper bounds.
pub ghost struct Box4 {
    pub lo: Vec4,
    pub hi: Vec4,
}

/// Mathematical model of a spatial three-vector.
pub ghost struct Spat3 {
    pub x: int,
    pub y: int,
    pub z: int,
}

pub open spec fn v4zero() -> Vec4 {
    Vec4 { t: 0, x: 0, y: 0, z: 0 }
}

pub open spec fn v4add(a: Vec4, b: Vec4) -> Vec4 {
    Vec4 { t: a.t + b.t, x: a.x + b.x, y: a.y + b.y, z: a.z + b.z }
}

pub open spec fn v4sub(a: Vec4, b: Vec4) -> Vec4 {
    Vec4 { t: a.t - b.t, x: a.x - b.x, y: a.y - b.y, z: a.z - b.z }
}

/// Every component within `[-m, m]`.
pub open spec fn bounded4(v: Vec4, m: int) -> bool {
    -m <= v.t <= m && -m <= v.x <= m && -m <= v.y <= m && -m <= v.z <= m
}

/// Every component within `[-m, m]`.
pub open spec fn bounded3(v: Spat3, m: int) -> bool {
    -m <= v.x <= m && -m <= v.y <= m && -m <= v.z <= m
}

/// Basic 4-vector with fixed-point components.
#[derive(Clone, Copy, Debug, PartialEq, Eq, Structural)]
pub struct FourVector {
    pub t: i128,
    pub x: i128,
    pub y: i128,
    pub z: i128,
}

impl View for FourVector {
    type V = Vec4;

    open spec fn view(&self) -> Vec4 {
        Vec4 { t: self.t as int, x: self.x as int, y: self.y as int, z: self.z as int }
    }
}

/// Coordinate on the manifold, in the global chart.
#[derive(Clone, Copy, Debug, PartialEq, Eq, Structural)]
pub struct Coord {
    pub components: FourVector,
}

impl View for Coord {
    type V = Vec4;

    open spec fn view(&self) -> Vec4 {
        self.components@
    }
}

/// Vector in the tangent space of the manifold.
#[derive(Clone, Copy, Debug, PartialEq, Eq, Structural)]
pub struct ManifoldVector {
    pub root: Coord,
    pub components: FourVector,
}

impl View for ManifoldVector {
    type V = Ray4;

    open spec fn view(&self) -> Ray4 {
        Ray4 { root: self.root@, dir: self.components@ }
    }
}

/// An observer's local reference frame: an origin and four basis vectors.
#[derive(Clone, Copy, Debug, PartialEq, Eq, Structural)]
pub struct ManifoldFrame {
    pub root: Coord,
    pub axis0: FourVector,
    pub axis1: FourVector,
    pub axis2: FourVector,
    pub axis3: FourVector,
}

impl View for ManifoldFrame {
    type V = Frame4;

    open spec fn view(&self) -> Frame4 {
        Frame4 {
            root: self.root@,
            axis0: self.axis0@,
            axis1: self.axis1@,
            axis2: self.axis2@,
            axis3: self.axis3@,
        }
    }
}

/// Vector describing relative distances in flat 3-dimensional euclidean space.
#[derive(Clone, Copy, Debug, PartialEq, Eq, Structural)]
pub struct SpatialVec {
    pub x: i128,
    pub y: i128,
    pub z: i128,
}

impl View for SpatialVec {
    type V = Spat3;

    open spec fn view(&self) -> Spat3 {
        Spat3 { x: self.x as int, y: self.y as int, z: self.z as int }
    }
}

/// Axis-aligned region of the global chart that bounds ray marching.
#[derive(Clone, Copy, Debug, PartialEq, Eq, Structural)]
pub struct BoundingBox {
    pub lo: FourVector,
    pub hi: FourVector,
}

impl View for BoundingBox {
    type V = Box4;

    open spec fn view(&self) -> Box4 {
        Box4 { lo: self.lo@, hi: self.hi@ }
    }
}

/// Membership in a box: the conjunction of the four interval tests.
pub open spec fn box_contains(b: Box4, p: Vec4) -> bool {
    b.lo.t <= p.t <= b.hi.t && b.lo.x <= p.x <= b.hi.x && b.lo.y <= p.y <= b.hi.y && b.lo.z
        <= p.z <= b.hi.z
}

impl BoundingBox {
    /// Whether `point` lies inside the box on all four axes.
    pub fn contains(&self, point: &Coord) -> (b: bool)
        ensures
            b == box_contains(self@, point@),
    {
        self.lo.t <= point.components.t && point.components.t <= self.hi.t
            && self.lo.x <= point.components.x && point.components.x <= self.hi.x
            && self.lo.y <= point.components.y && point.components.y <= self.hi.y
            && self.lo.z <= point.components.z && point.components.z <= self.hi.z
    }
}

/// All four basis vectors bounded by `m`.
pub open spec fn frame_axes_bounded(f: Frame4, m: int) -> bool {
    bounded4(f.axis0, m) && bounded4(f.axis1, m) && bounded4(f.axis2, m) && bounded4(f.axis3, m)
}

/// A frame the engine can work in: bounded components and basis vectors
/// whose squared pseudo-norm is well clear of zero.
pub open spec fn frame_ok(f: Frame4) -> bool {
    bounded4(f.root, FRAME_ROOT_MAX as int) && frame_axes_bounded(f, AXIS_MAX as int) && sabs(
        minkowski_dot(f.axis0, f.axis0),
    ) >= NORM_MIN as int && sabs(minkowski_dot(f.axis1, f.axis1)) >= NORM_MIN as int && sabs(
        minkowski_dot(f.axis2, f.axis2),
    ) >= NORM_MIN as int && sabs(minkowski_dot(f.axis3, f.axis3)) >= NORM_MIN as int
}

/// Orthonormality within tolerance: the timelike axis has squared norm
/// `-1`, the spatial axes `+1`, and all pairs are pseudo-orthogonal,
/// each within `TOL` at scale `SCALE2`.
pub open spec fn frame_normal(f: Frame4) -> bool {
    sabs(minkowski_dot(f.axis0, f.axis0) + SCALE2 as int) <= TOL as int && sabs(
        minkowski_dot(f.axis1, f.axis1) - SCALE2 as int,
    ) <= TOL as int && sabs(minkowski_dot(f.axis2, f.axis2) - SCALE2 as int) <= TOL as int && sabs(
        minkowski_dot(f.axis3, f.axis3) - SCALE2 as int,
    ) <= TOL as int && sabs(minkowski_dot(f.axis0, f.axis1)) <= TOL as int && sabs(
        minkowski_dot(f.axis0, f.axis2),
    ) <= TOL as int && sabs(minkowski_dot(f.axis0, f.axis3)) <= TOL as int && sabs(
        minkowski_dot(f.axis1, f.axis2),
    ) <= TOL as int && sabs(minkowski_dot(f.axis1, f.axis3)) <= TOL as int && sabs(
        minkowski_dot(f.axis2, f.axis3),
    ) <= TOL as int
}

/// Absolute value on the machine type.
pub(crate) fn iabs(v: i128) -> (r: i128)
    requires
        v != i128::MIN,
    ensures
        r == sabs(v as int),
{
    if v < 0 {
        -v
    } else {
        v
    }
}

/// A vector scaled to unit length: `v * SCALE / isqrt(|<v,v>|)`.
pub open spec fn gs_unit(v: Vec4) -> Vec4 {
    let s = isqrt_spec_of_norm(v);
    Vec4 {
        t: (v.t * SCALE as int) / s,
        x: (v.x * SCALE as int) / s,
        y: (v.y * SCALE as int) / s,
        z: (v.z * SCALE as int) / s,
    }
}

/// The root of the magnitude of a vector's squared pseudo-norm.
pub open spec fn isqrt_spec_of_norm(v: Vec4) -> int {
    crate::num::isqrt_spec(sabs(minkowski_dot(v, v)))
}

/// The projection term `(<u,v> * u) / SCALE2` used by Gram-Schmidt.
pub open spec fn gs_proj(u: Vec4, v: Vec4) -> Vec4 {
    let c = minkowski_dot(u, v);
    Vec4 {
        t: (c * u.t) / SCALE2 as int,
        x: (c * u.x) / SCALE2 as int,
        y: (c * u.y) / SCALE2 as int,
        z: (c * u.z) / SCALE2 as int,
    }
}

/// The normalized timelike axis.
pub open spec fn gs_t(f: Frame4) -> Vec4 {
    gs_unit(f.axis0)
}

/// The first spatial axis with the timelike projection removed.
pub open spec fn gs_x_raw(f: Frame4) -> Vec4 {
    v4add(f.axis1, gs_proj(gs_t(f), f.axis1))
}

pub open spec fn gs_x(f: Frame4) -> Vec4 {
    gs_unit(gs_x_raw(f))
}

/// The second spatial axis with earlier projections removed.
pub open spec fn gs_y_raw(f: Frame4) -> Vec4 {
    v4sub(v4add(f.axis2, gs_proj(gs_t(f), f.axis2)), gs_proj(gs_x(f), f.axis2))
}

pub open spec fn gs_y(f: Frame4) -> Vec4 {
    gs_unit(gs_y_raw(f))
}

/// The third spatial axis with all earlier projections removed.
pub open spec fn gs_z_raw(f: Frame4) -> Vec4 {
    v4sub(
        v4sub(v4add(f.axis3, gs_proj(gs_t(f), f.axis3)), gs_proj(gs_x(f), f.axis3)),
        gs_proj(gs_y(f), f.axis3),
    )
}

pub open spec fn gs_z(f: Frame4) -> Vec4 {
    gs_unit(gs_z_raw(f))
}

/// The metric-aware Gram-Schmidt result on a frame.
pub open spec fn normalize_spec(f: Frame4) -> Frame4 {
    Frame4 { root: f.root, axis0: gs_t(f), axis1: gs_x(f), axis2: gs_y(f), axis3: gs_z(f) }
}

/// A frame that Gram-Schmidt can handle at the working precision: bounded
/// axes, every stage's squared norm clear of zero, and the normalized
/// stages of near-unit size.
pub open spec fn normalize_ok(f: Frame4) -> bool {
    frame_axes_bounded(f, AXIS_MAX as int) && sabs(minkowski_dot(f.axis0, f.axis0))
        >= NORM_MIN as int && sabs(minkowski_dot(gs_x_raw(f), gs_x_raw(f))) >= NORM_MIN as int
        && sabs(minkowski_dot(gs_y_raw(f), gs_y_raw(f))) >= NORM_MIN as int && sabs(
        minkowski_dot(gs_z_raw(f), gs_z_raw(f)),
    ) >= NORM_MIN as int && bounded4(gs_t(f), UNIT_MAX as int) && bounded4(gs_x(f), UNIT_MAX as int)
        && bounded4(gs_y(f), UNIT_MAX as int)
}

/// Normalization step: `v * SCALE / isqrt(|<v,v>|)` componentwise.
fn gs_unit_exec(v: &FourVector) -> (r: FourVector)
    requires
        bounded4(v@, POINT_MAX as int),
        sabs(minkowski_dot(v@, v@)) >= NORM_MIN as int,
    ensures
        r@ == gs_unit(v@),
        bounded4(r@, 2147483648),
{
    let n = CarthesianMinkowski::inner(&Coord { components: *v }, v, v);
    proof {
        crate::metric::lemma_dot_bound(v@, v@, POINT_MAX as int, POINT_MAX as int);
    }
    let s = isqrt(iabs(n));
    proof {
        lemma_isqrt_ge(sabs(n as int), 32768);
        assert(2147483648int * 32768 == 70368744177664) by (nonlinear_arith);
        crate::num::lemma_div_bound_denom((v@.t * SCALE as int), 2147483648, 32768, s as int);
        crate::num::lemma_div_bound_denom((v@.x * SCALE as int), 2147483648, 32768, s as int);
        crate::num::lemma_div_bound_denom((v@.y * SCALE as int), 2147483648, 32768, s as int);
        crate::num::lemma_div_bound_denom((v@.z * SCALE as int), 2147483648, 32768, s as int);
    }
    FourVector {
        t: div_fl(muls(v.t, SCALE), s),
        x: div_fl(muls(v.x, SCALE), s),
        y: div_fl(muls(v.y, SCALE), s),
        z: div_fl(muls(v.z, SCALE), s),
    }
}

/// Projection step: `(<u,v> * u) / SCALE2` componentwise.
fn gs_proj_exec(u: &FourVector, v: &FourVector) -> (r: FourVector)
    requires
        bounded4(u@, UNIT_MAX as int),
        bounded4(v@, AXIS_MAX as int),
    ensures
        r@ == gs_proj(u@, v@),
        bounded4(r@, 268435456),
{
    let c = CarthesianMinkowski::inner(&Coord { components: *u }, u, v);
    proof {
        crate::metric::lemma_dot_bound(u@, v@, UNIT_MAX as int, AXIS_MAX as int);
        crate::num::lemma_mul_bound(c as int, u@.t, 1099511627776, UNIT_MAX as int);
        crate::num::lemma_mul_bound(c as int, u@.x, 1099511627776, UNIT_MAX as int);
        crate::num::lemma_mul_bound(c as int, u@.y, 1099511627776, UNIT_MAX as int);
        crate::num::lemma_mul_bound(c as int, u@.z, 1099511627776, UNIT_MAX as int);
        assert(1099511627776int * 1048576 == 268435456int * 4294967296) by (nonlinear_arith);
        lemma_div_bound((c as int) * u@.t, 268435456, SCALE2 as int);
        lemma_div_bound((c as int) * u@.x, 268435456, SCALE2 as int);
        lemma_div_bound((c as int) * u@.y, 268435456, SCALE2 as int);
        lemma_div_bound((c as int) * u@.z, 268435456, SCALE2 as int);
    }
    FourVector {
        t: div_fl(muls(c, u.t), SCALE2),
        x: div_fl(muls(c, u.x), SCALE2),
        y: div_fl(muls(c, u.y), SCALE2),
        z: div_fl(muls(c, u.z), SCALE2),
    }
}

impl ManifoldFrame {
    /// Whether this frame is orthonormal within the engine's tolerance.
    pub fn normal(&self) -> (b: bool)
        requires
            frame_axes_bounded(self@, AXIS_MAX as int),
        ensures
            b == frame_normal(self@),
    {
        let root = self.root;
        let n0 = CarthesianMinkowski::inner(&root, &self.axis0, &self.axis0);
        let n1 = CarthesianMinkowski::inner(&root, &self.axis1, &self.axis1);
        let n2 = CarthesianMinkowski::inner(&root, &self.axis2, &self.axis2);
        let n3 = CarthesianMinkowski::inner(&root, &self.axis3, &self.axis3);
        let p01 = CarthesianMinkowski::inner(&root, &self.axis0, &self.axis1);
        let p02 = CarthesianMinkowski::inner(&root, &self.axis0, &self.axis2);
        let p03 = CarthesianMinkowski::inner(&root, &self.axis0, &self.axis3);
        let p12 = CarthesianMinkowski::inner(&root, &self.axis1, &self.axis2);
        let p13 = CarthesianMinkowski::inner(&root, &self.axis1, &self.axis3);
        let p23 = CarthesianMinkowski::inner(&root, &self.axis2, &self.axis3);
        proof {
            crate::metric::lemma_dot_bound(self@.axis0, self@.axis0, AXIS_MAX as int, AXIS_MAX as int);
            crate::metric::lemma_dot_bound(self@.axis1, self@.axis1, AXIS_MAX as int, AXIS_MAX as int);
            crate::metric::lemma_dot_bound(self@.axis2, self@.axis2, AXIS_MAX as int, AXIS_MAX as int);
            crate::metric::lemma_dot_bound(self@.axis3, self@.axis3, AXIS_MAX as int, AXIS_MAX as int);
            crate::metric::lemma_dot_bound(self@.axis0, self@.axis1, AXIS_MAX as int, AXIS_MAX as int);
            crate::metric::lemma_dot_bound(self@.axis0, self@.axis2, AXIS_MAX as int, AXIS_MAX as int);
            crate::metric::lemma_dot_bound(self@.axis0, self@.axis3, AXIS_MAX as int, AXIS_MAX as int);
            crate::metric::lemma_dot_bound(self@.axis1, self@.axis2, AXIS_MAX as int, AXIS_MAX as int);
            crate::metric::lemma_dot_bound(self@.axis1, self@.axis3, AXIS_MAX as int, AXIS_MAX as int);
            crate::metric::lemma_dot_bound(self@.axis2, self@.axis3, AXIS_MAX as int, AXIS_MAX as int);
        }
        iabs(n0 + SCALE2) <= TOL && iabs(n1 - SCALE2) <= TOL && iabs(n2 - SCALE2) <= TOL && iabs(
            n3 - SCALE2,
        ) <= TOL && iabs(p01) <= TOL && iabs(p02) <= TOL && iabs(p03) <= TOL && iabs(p12) <= TOL
            && iabs(p13) <= TOL && iabs(p23) <= TOL
    }

    /// Metric-aware Gram-Schmidt: normalize the timelike axis, then remove
    /// earlier projections from each spatial axis and renormalize it.
    pub fn normalize(&self) -> (r: ManifoldFrame)
        requires
            normalize_ok(self@),
        ensures
            r@ == normalize_spec(self@),
    {
        let t = gs_unit_exec(&self.axis0);
        let pt1 = gs_proj_exec(&t, &self.axis1);
        let xraw = FourVector {
            t: self.axis1.t + pt1.t,
            x: self.axis1.x + pt1.x,
            y: self.axis1.y + pt1.y,
            z: self.axis1.z + pt1.z,
        };
        assert(xraw@ == gs_x_raw(self@));
        let x = gs_unit_exec(&xraw);
        let pt2 = gs_proj_exec(&t, &self.axis2);
        let px2 = gs_proj_exec(&x, &self.axis2);
        let yraw = FourVector {
            t: self.axis2.t + pt2.t - px2.t,
            x: self.axis2.x + pt2.x - px2.x,
            y: self.axis2.y + pt2.y - px2.y,
            z: self.axis2.z + pt2.z - px2.z,
        };
        assert(yraw@ == gs_y_raw(self@));
        let y = gs_unit_exec(&yraw);
        let pt3 = gs_proj_exec(&t, &self.axis3);
        let px3 = gs_proj_exec(&x, &self.axis3);
        let py3 = gs_proj_exec(&y, &self.axis3);
        let zraw = FourVector {
            t: self.axis3.t + pt3.t - px3.t - py3.t,
            x: self.axis3.x + pt3.x - px3.x - py3.x,
            y: self.axis3.y + pt3.y - px3.y - py3.y,
            z: self.axis3.z + pt3.z - px3.z - py3.z,
        };
        assert(zraw@ == gs_z_raw(self@));
        let z = gs_unit_exec(&zraw);
        ManifoldFrame { root: self.root, axis0: t, axis1: x, axis2: y, axis3: z }
    }
}

} // verus!
