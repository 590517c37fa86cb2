//! The metric capability and its flat Minkowski realization.
//!
//! A metric defines the inner product at a point, geodesic stepping, and the
//! change of basis between an observer's local orthonormal frame and the
//! global chart.  `CarthesianMinkowski` is flat spacetime with signature
//! (-,+,+,+): geodesics are straight lines and the inner product does not
//! depend on the root point.

use crate::geometry::{
    bounded3, bounded4, frame_axes_bounded, frame_ok, v4sub, v4zero, Coord, FourVector, Frame4,
    ManifoldFrame, ManifoldVector, Ray4, Spat3, SpatialVec, Vec4,
};
use crate::num::{
    div_fl, isqrt, isqrt_spec, lemma_div_bound, lemma_div_bound_denom, lemma_isqrt_ge,
    lemma_isqrt_le, lemma_mul_bound, muls, sabs, AXIS_MAX, FRAME_ROOT_MAX, LOCAL_MAX, NORM_MIN,
    POINT_MAX, RAY_DIR_MAX, RAY_ROOT_MAX, SCALE, SCALE2, STEP_MAX,
};
use vstd::prelude::*;

verus! {

/// The flat inner product `-a.t*b.t + a.x*b.x + a.y*b.y + a.z*b.z`
/// (signature -,+,+,+), at scale `SCALE2`.
pub open spec fn minkowski_dot(a: Vec4, b: Vec4) -> int {
    -(a.t * b.t) + a.x * b.x + a.y * b.y + a.z * b.z
}

/// Bounded arguments give a bounded inner product.
pub proof fn lemma_dot_bound(a: Vec4, b: Vec4, x: int, y: int)
    requires
        bounded4(a, x),
        bounded4(b, y),
        0 <= x,
        0 <= y,
    ensures
        -(4 * x * y) <= minkowski_dot(a, b) <= 4 * x * y,
{
    lemma_mul_bound(a.t, b.t, x, y);
    lemma_mul_bound(a.x, b.x, x, y);
    lemma_mul_bound(a.y, b.y, x, y);
    lemma_mul_bound(a.z, b.z, x, y);
    assert(4 * x * y == x * y + x * y + x * y + x * y) by (nonlinear_arith);
}

/// One local coordinate of a vector: its inner product with a basis vector,
/// divided by the root of the magnitude of that basis vector's squared norm.
pub open spec fn loc_comp(axis: Vec4, w: Vec4) -> int {
    minkowski_dot(axis, w) / isqrt_spec(sabs(minkowski_dot(axis, axis)))
}

/// A vector delta projected on all four axes of a frame, the timelike
/// component negated by the signature convention.
pub open spec fn loc_vec(f: Frame4, w: Vec4) -> Vec4 {
    Vec4 {
        t: -loc_comp(f.axis0, w),
        x: loc_comp(f.axis1, w),
        y: loc_comp(f.axis2, w),
        z: loc_comp(f.axis3, w),
    }
}

/// The global-to-local change of basis of the flat metric.
pub open spec fn into_local_flat(f: Frame4, v: Ray4) -> Ray4 {
    Ray4 { root: loc_vec(f, v4sub(v.root, f.root)), dir: loc_vec(f, v.dir) }
}

/// The linear combination `sum_i w_i * axis_i / SCALE`, componentwise.
pub open spec fn lincomb(f: Frame4, w: Vec4) -> Vec4 {
    Vec4 {
        t: (w.t * f.axis0.t + w.x * f.axis1.t + w.y * f.axis2.t + w.z * f.axis3.t) / SCALE as int,
        x: (w.t * f.axis0.x + w.x * f.axis1.x + w.y * f.axis2.x + w.z * f.axis3.x) / SCALE as int,
        y: (w.t * f.axis0.y + w.x * f.axis1.y + w.y * f.axis2.y + w.z * f.axis3.y) / SCALE as int,
        z: (w.t * f.axis0.z + w.x * f.axis1.z + w.y * f.axis2.z + w.z * f.axis3.z) / SCALE as int,
    }
}

/// The local-to-global change of basis of the flat metric.
pub open spec fn from_local_flat(f: Frame4, v: Ray4) -> Ray4 {
    Ray4 {
        root: crate::geometry::v4add(f.root, lincomb(f, v.root)),
        dir: lincomb(f, v.dir),
    }
}

/// One geodesic step of the flat metric: the root advances by
/// `step * dir / SCALE`, the direction is unchanged.
pub open spec fn step_flat(v: Ray4, step: int) -> Ray4 {
    Ray4 {
        root: Vec4 {
            t: v.root.t + (step * v.dir.t) / SCALE as int,
            x: v.root.x + (step * v.dir.x) / SCALE as int,
            y: v.root.y + (step * v.dir.y) / SCALE as int,
            z: v.root.z + (step * v.dir.z) / SCALE as int,
        },
        dir: v.dir,
    }
}

/// One geodesic step moves each root component by at most `67108864`.
pub proof fn lemma_step_growth(v: Ray4, step: int)
    requires
        bounded4(v.dir, RAY_DIR_MAX as int),
        0 <= step <= STEP_MAX as int,
    ensures
        sabs(step_flat(v, step).root.t - v.root.t) <= 67108864,
        sabs(step_flat(v, step).root.x - v.root.x) <= 67108864,
        sabs(step_flat(v, step).root.y - v.root.y) <= 67108864,
        sabs(step_flat(v, step).root.z - v.root.z) <= 67108864,
{
    lemma_mul_bound(step, v.dir.t, STEP_MAX as int, RAY_DIR_MAX as int);
    lemma_mul_bound(step, v.dir.x, STEP_MAX as int, RAY_DIR_MAX as int);
    lemma_mul_bound(step, v.dir.y, STEP_MAX as int, RAY_DIR_MAX as int);
    lemma_mul_bound(step, v.dir.z, STEP_MAX as int, RAY_DIR_MAX as int);
    lemma_div_bound(step * v.dir.t, 67108864, SCALE as int);
    lemma_div_bound(step * v.dir.x, 67108864, SCALE as int);
    lemma_div_bound(step * v.dir.y, 67108864, SCALE as int);
    lemma_div_bound(step * v.dir.z, 67108864, SCALE as int);
}

/// The metric capability: inner product, pseudo-norm, geodesic stepping and
/// local/global frame conversion, each with its mathematical model.
pub trait Metric: Sized {
    spec fn inner_spec(root: Vec4, a: Vec4, b: Vec4) -> int;

    spec fn norm_spec(v: Ray4) -> int;

    spec fn step_spec(start: Ray4, step: int) -> Ray4;

    spec fn from_local_spec(frame: Frame4, v: Ray4) -> Ray4;

    spec fn into_local_spec(frame: Frame4, v: Ray4) -> Ray4;

    /// Bilinear form between two tangent vectors at a point.
    fn inner(root: &Coord, a: &FourVector, b: &FourVector) -> (r: i128)
        requires
            bounded4(a@, 4611686018427387904),
            bounded4(b@, 4611686018427387904),
        ensures
            r == Self::inner_spec(root@, a@, b@);

    /// Squared pseudo-norm: negative is timelike, zero null, positive spacelike.
    fn norm(vector: &ManifoldVector) -> (r: i128)
        requires
            bounded4(vector@.dir, 4611686018427387904),
        ensures
            r == Self::norm_spec(vector@);

    /// Advance a tangent vector one geodesic step of size `step`.
    fn step_geodesic(start: &ManifoldVector, step: i128) -> (r: ManifoldVector)
        requires
            bounded4(start@.root, RAY_ROOT_MAX as int),
            bounded4(start@.dir, RAY_DIR_MAX as int),
            0 <= step <= STEP_MAX,
        ensures
            r@ == Self::step_spec(start@, step as int);

    /// Lift a vector expressed in a local orthonormal frame into the global
    /// chart.
    fn from_local(frame: &ManifoldFrame, vector: &ManifoldVector) -> (r: ManifoldVector)
        requires
            frame_ok(frame@),
            bounded4(vector@.root, POINT_MAX as int),
            bounded4(vector@.dir, POINT_MAX as int),
        ensures
            r@ == Self::from_local_spec(frame@, vector@);

    /// Re-express a global vector in an observer frame's local coordinates.
    /// Callers must pass a non-degenerate frame (see `frame_ok`): the
    /// division by a near-null basis norm is not recovered internally.
    fn into_local(root_frame: &ManifoldFrame, secondary: &ManifoldVector) -> (r: ManifoldVector)
        requires
            frame_ok(root_frame@),
            bounded4(secondary@.root, RAY_ROOT_MAX as int),
            bounded4(secondary@.dir, RAY_ROOT_MAX as int),
        ensures
            r@ == Self::into_local_spec(root_frame@, secondary@),
            bounded4(r@.root, LOCAL_MAX as int),
            bounded4(r@.dir, LOCAL_MAX as int);
}

/// Flat Minkowski spacetime in carthesian coordinates.
#[derive(Clone, Copy, Debug)]
pub struct CarthesianMinkowski;

/// A null tangent vector along `d`: spatial part normalized to unit length,
/// time component set to minus that unit length.
pub open spec fn lightray_spec(d: Spat3) -> Ray4 {
    let l = isqrt_spec(d.x * d.x + d.y * d.y + d.z * d.z);
    let sx = (d.x * SCALE as int) / l;
    let sy = (d.y * SCALE as int) / l;
    let sz = (d.z * SCALE as int) / l;
    Ray4 {
        root: v4zero(),
        dir: Vec4 { t: -isqrt_spec(sx * sx + sy * sy + sz * sz), x: sx, y: sy, z: sz },
    }
}

/// A purely spatial tangent vector along `d`, normalized to unit length.
pub open spec fn instantray_spec(d: Spat3) -> Ray4 {
    let l = isqrt_spec(d.x * d.x + d.y * d.y + d.z * d.z);
    Ray4 {
        root: v4zero(),
        dir: Vec4 {
            t: 0,
            x: (d.x * SCALE as int) / l,
            y: (d.y * SCALE as int) / l,
            z: (d.z * SCALE as int) / l,
        },
    }
}


/// Each component of `d` is bounded in magnitude by the root of the sum of
/// squares.
pub(crate) proof fn lemma_spatial_comp_le_len(d: Spat3, n: int)
    requires
        n == d.x * d.x + d.y * d.y + d.z * d.z,
    ensures
        n >= 0,
        sabs(d.x) <= isqrt_spec(n),
        sabs(d.y) <= isqrt_spec(n),
        sabs(d.z) <= isqrt_spec(n),
{
    assert(d.x * d.x >= 0 && d.y * d.y >= 0 && d.z * d.z >= 0 && sabs(d.x) * sabs(d.x) == d.x
        * d.x && sabs(d.y) * sabs(d.y) == d.y * d.y && sabs(d.z) * sabs(d.z) == d.z * d.z)
        by (nonlinear_arith);
    lemma_isqrt_ge(n, sabs(d.x));
    lemma_isqrt_ge(n, sabs(d.y));
    lemma_isqrt_ge(n, sabs(d.z));
}

/// The spatial part of a normalized ray direction, shared by `lightray` and
/// `instantray`: each component is `d_i * SCALE / l`, within `SCALE`.
fn normalized_spatial(d: &SpatialVec) -> (r: (i128, i128, i128))
    requires
        bounded3(d@, POINT_MAX as int),
        d@.x * d@.x + d@.y * d@.y + d@.z * d@.z >= 1,
    ensures
        ({
            let l = isqrt_spec(d@.x * d@.x + d@.y * d@.y + d@.z * d@.z);
            r.0 == (d@.x * SCALE as int) / l && r.1 == (d@.y * SCALE as int) / l && r.2 == (d@.z
                * SCALE as int) / l && -SCALE <= r.0 <= SCALE && -SCALE <= r.1 <= SCALE && -SCALE
                <= r.2 <= SCALE
        }),
{
    let nx = muls(d.x, d.x);
    let ny = muls(d.y, d.y);
    let nz = muls(d.z, d.z);
    proof {
        lemma_mul_bound(d@.x, d@.x, POINT_MAX as int, POINT_MAX as int);
        lemma_mul_bound(d@.y, d@.y, POINT_MAX as int, POINT_MAX as int);
        lemma_mul_bound(d@.z, d@.z, POINT_MAX as int, POINT_MAX as int);
    }
    let n = nx + ny + nz;
    proof {
        lemma_spatial_comp_le_len(d@, n as int);
    }
    let l = isqrt(n);
    proof {
        lemma_isqrt_ge(n as int, 1);
        assert(sabs(d@.x) * SCALE as int <= (l as int) * SCALE as int && -((l as int)
            * SCALE as int) <= d@.x * SCALE as int <= (l as int) * SCALE as int)
            by (nonlinear_arith)
            requires
                sabs(d@.x) <= l as int,
                l as int >= 1,
        ;
        assert(-((l as int) * SCALE as int) <= d@.y * SCALE as int <= (l as int) * SCALE as int)
            by (nonlinear_arith)
            requires
                sabs(d@.y) <= l as int,
                l as int >= 1,
        ;
        assert(-((l as int) * SCALE as int) <= d@.z * SCALE as int <= (l as int) * SCALE as int)
            by (nonlinear_arith)
            requires
                sabs(d@.z) <= l as int,
                l as int >= 1,
        ;
        assert(SCALE as int * l as int == l as int * SCALE as int) by (nonlinear_arith);
        lemma_div_bound(d@.x * SCALE as int, SCALE as int, l as int);
        lemma_div_bound(d@.y * SCALE as int, SCALE as int, l as int);
        lemma_div_bound(d@.z * SCALE as int, SCALE as int, l as int);
    }
    let sx = div_fl(muls(d.x, SCALE), l);
    let sy = div_fl(muls(d.y, SCALE), l);
    let sz = div_fl(muls(d.z, SCALE), l);
    (sx, sy, sz)
}

impl CarthesianMinkowski {
    /// Build a null (lightlike) ray rooted at the local origin: unit spatial
    /// part, time component minus the spatial unit length.
    pub fn lightray(spatial: &SpatialVec) -> (r: ManifoldVector)
        requires
            bounded3(spatial@, POINT_MAX as int),
            spatial@.x * spatial@.x + spatial@.y * spatial@.y + spatial@.z * spatial@.z >= 1,
        ensures
            r@ == lightray_spec(spatial@),
            bounded4(r@.dir, 2 * SCALE as int),
            r@.root == v4zero(),
    {
        let (sx, sy, sz) = normalized_spatial(spatial);
        let qx = muls(sx, sx);
        let qy = muls(sy, sy);
        let qz = muls(sz, sz);
        proof {
            assert(sx as int * sx as int >= 0 && sy as int * sy as int >= 0 && sz as int * sz as int
                >= 0) by (nonlinear_arith);
            lemma_mul_bound(sx as int, sx as int, SCALE as int, SCALE as int);
            lemma_mul_bound(sy as int, sy as int, SCALE as int, SCALE as int);
            lemma_mul_bound(sz as int, sz as int, SCALE as int, SCALE as int);
        }
        let n2 = qx + qy + qz;
        proof {
            assert(131071int * 131071 == 17179607041) by (nonlinear_arith);
            lemma_isqrt_le(n2 as int, 2 * SCALE as int - 1);
        }
        let st = isqrt(n2);
        ManifoldVector {
            root: Coord { components: FourVector { t: 0, x: 0, y: 0, z: 0 } },
            components: FourVector { t: -st, x: sx, y: sy, z: sz },
        }
    }

    /// Build a purely spatial (instantaneous) ray rooted at the local origin:
    /// unit spatial part, zero time component.
    pub fn instantray(spatial: &SpatialVec) -> (r: ManifoldVector)
        requires
            bounded3(spatial@, POINT_MAX as int),
            spatial@.x * spatial@.x + spatial@.y * spatial@.y + spatial@.z * spatial@.z >= 1,
        ensures
            r@ == instantray_spec(spatial@),
            bounded4(r@.dir, SCALE as int),
            r@.root == v4zero(),
    {
        let (sx, sy, sz) = normalized_spatial(spatial);
        ManifoldVector {
            root: Coord { components: FourVector { t: 0, x: 0, y: 0, z: 0 } },
            components: FourVector { t: 0, x: sx, y: sy, z: sz },
        }
    }
}

/// One local coordinate: `<axis, w> / isqrt(|<axis, axis>|)`.
fn loc_comp_exec(root: &Coord, axis: &FourVector, w: &FourVector) -> (r: i128)
    requires
        bounded4(axis@, AXIS_MAX as int),
        bounded4(w@, 3221225472),
        sabs(minkowski_dot(axis@, axis@)) >= NORM_MIN as int,
    ensures
        r == loc_comp(axis@, w@),
        -LOCAL_MAX <= r <= LOCAL_MAX,
{
    let c = CarthesianMinkowski::inner(root, axis, w);
    let n = CarthesianMinkowski::inner(root, axis, axis);
    proof {
        lemma_dot_bound(axis@, axis@, AXIS_MAX as int, AXIS_MAX as int);
        lemma_dot_bound(axis@, w@, AXIS_MAX as int, 3221225472);
    }
    let s = isqrt(if n < 0 {
        -n
    } else {
        n
    });
    proof {
        lemma_isqrt_ge(sabs(n as int), 32768);
        assert(LOCAL_MAX as int * 32768 == 4503599627370496) by (nonlinear_arith);
        lemma_div_bound_denom(c as int, LOCAL_MAX as int, 32768, s as int);
    }
    div_fl(c, s)
}

/// The four local coordinates of a vector delta in a frame.
fn loc_vec_exec(root: &Coord, frame: &ManifoldFrame, w: &FourVector) -> (r: FourVector)
    requires
        frame_ok(frame@),
        bounded4(w@, 3221225472),
    ensures
        r@ == loc_vec(frame@, w@),
        bounded4(r@, LOCAL_MAX as int),
{
    FourVector {
        t: -loc_comp_exec(root, &frame.axis0, w),
        x: loc_comp_exec(root, &frame.axis1, w),
        y: loc_comp_exec(root, &frame.axis2, w),
        z: loc_comp_exec(root, &frame.axis3, w),
    }
}

/// The linear combination `sum_i w_i * axis_i / SCALE`, componentwise.
fn lincomb_exec(frame: &ManifoldFrame, w: &FourVector) -> (r: FourVector)
    requires
        frame_axes_bounded(frame@, AXIS_MAX as int),
        bounded4(w@, POINT_MAX as int),
    ensures
        r@ == lincomb(frame@, w@),
        bounded4(r@, 17179869184),
{
    proof {
        lemma_mul_bound(w@.t, frame@.axis0.t, POINT_MAX as int, AXIS_MAX as int);
        lemma_mul_bound(w@.x, frame@.axis1.t, POINT_MAX as int, AXIS_MAX as int);
        lemma_mul_bound(w@.y, frame@.axis2.t, POINT_MAX as int, AXIS_MAX as int);
        lemma_mul_bound(w@.z, frame@.axis3.t, POINT_MAX as int, AXIS_MAX as int);
        lemma_mul_bound(w@.t, frame@.axis0.x, POINT_MAX as int, AXIS_MAX as int);
        lemma_mul_bound(w@.x, frame@.axis1.x, POINT_MAX as int, AXIS_MAX as int);
        lemma_mul_bound(w@.y, frame@.axis2.x, POINT_MAX as int, AXIS_MAX as int);
        lemma_mul_bound(w@.z, frame@.axis3.x, POINT_MAX as int, AXIS_MAX as int);
        lemma_mul_bound(w@.t, frame@.axis0.y, POINT_MAX as int, AXIS_MAX as int);
        lemma_mul_bound(w@.x, frame@.axis1.y, POINT_MAX as int, AXIS_MAX as int);
        lemma_mul_bound(w@.y, frame@.axis2.y, POINT_MAX as int, AXIS_MAX as int);
        lemma_mul_bound(w@.z, frame@.axis3.y, POINT_MAX as int, AXIS_MAX as int);
        lemma_mul_bound(w@.t, frame@.axis0.z, POINT_MAX as int, AXIS_MAX as int);
        lemma_mul_bound(w@.x, frame@.axis1.z, POINT_MAX as int, AXIS_MAX as int);
        lemma_mul_bound(w@.y, frame@.axis2.z, POINT_MAX as int, AXIS_MAX as int);
        lemma_mul_bound(w@.z, frame@.axis3.z, POINT_MAX as int, AXIS_MAX as int);
        lemma_div_bound(
            w@.t * frame@.axis0.t + w@.x * frame@.axis1.t + w@.y * frame@.axis2.t + w@.z
                * frame@.axis3.t,
            17179869184,
            SCALE as int,
        );
        lemma_div_bound(
            w@.t * frame@.axis0.x + w@.x * frame@.axis1.x + w@.y * frame@.axis2.x + w@.z
                * frame@.axis3.x,
            17179869184,
            SCALE as int,
        );
        lemma_div_bound(
            w@.t * frame@.axis0.y + w@.x * frame@.axis1.y + w@.y * frame@.axis2.y + w@.z
                * frame@.axis3.y,
            17179869184,
            SCALE as int,
        );
        lemma_div_bound(
            w@.t * frame@.axis0.z + w@.x * frame@.axis1.z + w@.y * frame@.axis2.z + w@.z
                * frame@.axis3.z,
            17179869184,
            SCALE as int,
        );
    }
    FourVector {
        t: div_fl(
            muls(w.t, frame.axis0.t) + muls(w.x, frame.axis1.t) + muls(w.y, frame.axis2.t) + muls(
                w.z,
                frame.axis3.t,
            ),
            SCALE,
        ),
        x: div_fl(
            muls(w.t, frame.axis0.x) + muls(w.x, frame.axis1.x) + muls(w.y, frame.axis2.x) + muls(
                w.z,
                frame.axis3.x,
            ),
            SCALE,
        ),
        y: div_fl(
            muls(w.t, frame.axis0.y) + muls(w.x, frame.axis1.y) + muls(w.y, frame.axis2.y) + muls(
                w.z,
                frame.axis3.y,
            ),
            SCALE,
        ),
        z: div_fl(
            muls(w.t, frame.axis0.z) + muls(w.x, frame.axis1.z) + muls(w.y, frame.axis2.z) + muls(
                w.z,
                frame.axis3.z,
            ),
            SCALE,
        ),
    }
}

impl Metric for CarthesianMinkowski {
    open spec fn inner_spec(root: Vec4, a: Vec4, b: Vec4) -> int {
        minkowski_dot(a, b)
    }

    open spec fn norm_spec(v: Ray4) -> int {
        minkowski_dot(v.dir, v.dir)
    }

    open spec fn step_spec(start: Ray4, step: int) -> Ray4 {
        step_flat(start, step)
    }

    open spec fn from_local_spec(frame: Frame4, v: Ray4) -> Ray4 {
        from_local_flat(frame, v)
    }

    open spec fn into_local_spec(frame: Frame4, v: Ray4) -> Ray4 {
        into_local_flat(frame, v)
    }

    fn inner(root: &Coord, a: &FourVector, b: &FourVector) -> (r: i128)
    {
        proof {
            lemma_mul_bound(a@.t, b@.t, 4611686018427387904, 4611686018427387904);
            lemma_mul_bound(a@.x, b@.x, 4611686018427387904, 4611686018427387904);
            lemma_mul_bound(a@.y, b@.y, 4611686018427387904, 4611686018427387904);
            lemma_mul_bound(a@.z, b@.z, 4611686018427387904, 4611686018427387904);
        }
        -muls(a.t, b.t) + muls(a.x, b.x) + muls(a.y, b.y) + muls(a.z, b.z)
    }

    fn norm(vector: &ManifoldVector) -> (r: i128) {
        Self::inner(&vector.root, &vector.components, &vector.components)
    }

    fn step_geodesic(start: &ManifoldVector, step: i128) -> (r: ManifoldVector) {
        proof {
            lemma_mul_bound(step as int, start@.dir.t, STEP_MAX as int, RAY_DIR_MAX as int);
            lemma_mul_bound(step as int, start@.dir.x, STEP_MAX as int, RAY_DIR_MAX as int);
            lemma_mul_bound(step as int, start@.dir.y, STEP_MAX as int, RAY_DIR_MAX as int);
            lemma_mul_bound(step as int, start@.dir.z, STEP_MAX as int, RAY_DIR_MAX as int);
            lemma_div_bound(step as int * start@.dir.t, 67108864, SCALE as int);
            lemma_div_bound(step as int * start@.dir.x, 67108864, SCALE as int);
            lemma_div_bound(step as int * start@.dir.y, 67108864, SCALE as int);
            lemma_div_bound(step as int * start@.dir.z, 67108864, SCALE as int);
        }
        ManifoldVector {
            root: Coord {
                components: FourVector {
                    t: start.root.components.t + div_fl(muls(step, start.components.t), SCALE),
                    x: start.root.components.x + div_fl(muls(step, start.components.x), SCALE),
                    y: start.root.components.y + div_fl(muls(step, start.components.y), SCALE),
                    z: start.root.components.z + div_fl(muls(step, start.components.z), SCALE),
                },
            },
            components: start.components,
        }
    }

    fn from_local(frame: &ManifoldFrame, vector: &ManifoldVector) -> (r: ManifoldVector) {
        let off = lincomb_exec(frame, &vector.root.components);
        let dir = lincomb_exec(frame, &vector.components);
        ManifoldVector {
            root: Coord {
                components: FourVector {
                    t: frame.root.components.t + off.t,
                    x: frame.root.components.x + off.x,
                    y: frame.root.components.y + off.y,
                    z: frame.root.components.z + off.z,
                },
            },
            components: dir,
        }
    }

    fn into_local(root_frame: &ManifoldFrame, secondary: &ManifoldVector) -> (r: ManifoldVector) {
        let delta = FourVector {
            t: secondary.root.components.t - root_frame.root.components.t,
            x: secondary.root.components.x - root_frame.root.components.x,
            y: secondary.root.components.y - root_frame.root.components.y,
            z: secondary.root.components.z - root_frame.root.components.z,
        };
        let root = loc_vec_exec(&root_frame.root, root_frame, &delta);
        let dir = loc_vec_exec(&root_frame.root, root_frame, &secondary.components);
        ManifoldVector { root: Coord { components: root }, components: dir }
    }
}

} // verus!
