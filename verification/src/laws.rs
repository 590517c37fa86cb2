//! Engine-wide laws, proved from the models the contracts use.

use crate::geometry::{bounded3, Frame4, Ray4, Spat3, Vec4};
use crate::metric::{
    from_local_flat, instantray_spec, into_local_flat, lightray_spec, minkowski_dot, step_flat,
};
use crate::num::{
    isqrt_spec, lemma_div_add_exact, lemma_div_bound, lemma_isqrt_ge, lemma_isqrt_le,
    lemma_isqrt_props, lemma_isqrt_unique, sabs, POINT_MAX, SCALE, SCALE2,
};
use vstd::arithmetic::mul::lemma_mul_is_distributive_add;
use vstd::arithmetic::div_mod::{
    lemma_div_multiples_vanish, lemma_fundamental_div_mod, lemma_mod_bound,
};
use vstd::prelude::*;

verus! {

/// Geodesic steps compose additively: stepping by `a` and then by `b`
/// reaches the same root coordinate as one step of `a + b`, whenever no
/// fixed-point remainder carries between the two steps (in particular
/// whenever each `step * component` is a multiple of `SCALE`).
pub proof fn lemma_step_geodesic_additive(v: Ray4, a: int, b: int)
    requires
        (a * v.dir.t) % (SCALE as int) + (b * v.dir.t) % (SCALE as int) < SCALE as int,
        (a * v.dir.x) % (SCALE as int) + (b * v.dir.x) % (SCALE as int) < SCALE as int,
        (a * v.dir.y) % (SCALE as int) + (b * v.dir.y) % (SCALE as int) < SCALE as int,
        (a * v.dir.z) % (SCALE as int) + (b * v.dir.z) % (SCALE as int) < SCALE as int,
    ensures
        step_flat(step_flat(v, a), b) == step_flat(v, a + b),
{
    lemma_div_add_exact(a * v.dir.t, b * v.dir.t, SCALE as int);
    lemma_div_add_exact(a * v.dir.x, b * v.dir.x, SCALE as int);
    lemma_div_add_exact(a * v.dir.y, b * v.dir.y, SCALE as int);
    lemma_div_add_exact(a * v.dir.z, b * v.dir.z, SCALE as int);
    assert((a + b) * v.dir.t == a * v.dir.t + b * v.dir.t && (a + b) * v.dir.x == a * v.dir.x + b
        * v.dir.x && (a + b) * v.dir.y == a * v.dir.y + b * v.dir.y && (a + b) * v.dir.z == a
        * v.dir.z + b * v.dir.z) by (nonlinear_arith);
}

/// A lightray is null by construction: its squared pseudo-norm vanishes up
/// to the engine's fixed-point granularity, for every nonzero direction.
pub proof fn lemma_lightray_null(d: Spat3)
    requires
        bounded3(d, POINT_MAX as int),
        d.x * d.x + d.y * d.y + d.z * d.z >= 1,
    ensures
        0 <= minkowski_dot(lightray_spec(d).dir, lightray_spec(d).dir),
        minkowski_dot(lightray_spec(d).dir, lightray_spec(d).dir) <= 4 * SCALE as int,
{
    let n = d.x * d.x + d.y * d.y + d.z * d.z;
    let l = isqrt_spec(n);
    crate::metric::lemma_spatial_comp_le_len(d, n);
    lemma_isqrt_ge(n, 1);
    let sx = (d.x * SCALE as int) / l;
    let sy = (d.y * SCALE as int) / l;
    let sz = (d.z * SCALE as int) / l;
    assert(sabs(d.x) * SCALE as int <= l * SCALE as int && -(l * SCALE as int) <= d.x
        * SCALE as int <= l * SCALE as int) by (nonlinear_arith)
        requires
            sabs(d.x) <= l,
            1 <= l,
    ;
    assert(-(l * SCALE as int) <= d.y * SCALE as int <= l * SCALE as int) by (nonlinear_arith)
        requires
            sabs(d.y) <= l,
            1 <= l,
    ;
    assert(-(l * SCALE as int) <= d.z * SCALE as int <= l * SCALE as int) by (nonlinear_arith)
        requires
            sabs(d.z) <= l,
            1 <= l,
    ;
    assert(SCALE as int * l == l * SCALE as int) by (nonlinear_arith);
    lemma_div_bound(d.x * SCALE as int, SCALE as int, l);
    lemma_div_bound(d.y * SCALE as int, SCALE as int, l);
    lemma_div_bound(d.z * SCALE as int, SCALE as int, l);
    let m = sx * sx + sy * sy + sz * sz;
    assert(0 <= sx * sx <= SCALE2 as int && 0 <= sy * sy <= SCALE2 as int && 0 <= sz * sz
        <= SCALE2 as int) by (nonlinear_arith)
        requires
            -SCALE as int <= sx <= SCALE as int,
            -SCALE as int <= sy <= SCALE as int,
            -SCALE as int <= sz <= SCALE as int,
    ;
    let r = isqrt_spec(m);
    lemma_isqrt_props(m);
    assert(131071int * 131071 == 17179607041) by (nonlinear_arith);
    lemma_isqrt_le(m, 2 * SCALE as int - 1);
    assert((r + 1) * (r + 1) == r * r + 2 * r + 1) by (nonlinear_arith);
    assert((-r) * (-r) == r * r) by (nonlinear_arith);
}

/// An instantray has unit squared pseudo-norm (`+1` at scale `SCALE2`) up
/// to the fixed-point granularity, for any spatial direction of at least
/// unit length.
pub proof fn lemma_instantray_unit(d: Spat3)
    requires
        bounded3(d, POINT_MAX as int),
        d.x * d.x + d.y * d.y + d.z * d.z >= SCALE2 as int,
    ensures
        sabs(minkowski_dot(instantray_spec(d).dir, instantray_spec(d).dir) - SCALE2 as int) <= 8
            * SCALE as int + 3,
{
    let n = d.x * d.x + d.y * d.y + d.z * d.z;
    let l = isqrt_spec(n);
    crate::metric::lemma_spatial_comp_le_len(d, n);
    assert(65536int * 65536 == 4294967296) by (nonlinear_arith);
    lemma_isqrt_ge(n, SCALE as int);
    lemma_isqrt_props(n);
    assert((l + 1) * (l + 1) == l * l + 2 * l + 1) by (nonlinear_arith);
    let sx = (d.x * SCALE as int) / l;
    let sy = (d.y * SCALE as int) / l;
    let sz = (d.z * SCALE as int) / l;
    let r1 = (d.x * SCALE as int) % l;
    let r2 = (d.y * SCALE as int) % l;
    let r3 = (d.z * SCALE as int) % l;
    lemma_fundamental_div_mod(d.x * SCALE as int, l);
    lemma_fundamental_div_mod(d.y * SCALE as int, l);
    lemma_fundamental_div_mod(d.z * SCALE as int, l);
    lemma_mod_bound(d.x * SCALE as int, l);
    lemma_mod_bound(d.y * SCALE as int, l);
    lemma_mod_bound(d.z * SCALE as int, l);
    // Per component: (l*s)^2 expands to the exact square of d*SCALE - r.
    assert(l * l * (sx * sx) == (d.x * SCALE as int) * (d.x * SCALE as int) - 2 * (d.x
        * SCALE as int) * r1 + r1 * r1) by (nonlinear_arith)
        requires
            d.x * SCALE as int == l * sx + r1,
    ;
    assert(l * l * (sy * sy) == (d.y * SCALE as int) * (d.y * SCALE as int) - 2 * (d.y
        * SCALE as int) * r2 + r2 * r2) by (nonlinear_arith)
        requires
            d.y * SCALE as int == l * sy + r2,
    ;
    assert(l * l * (sz * sz) == (d.z * SCALE as int) * (d.z * SCALE as int) - 2 * (d.z
        * SCALE as int) * r3 + r3 * r3) by (nonlinear_arith)
        requires
            d.z * SCALE as int == l * sz + r3,
    ;
    // The squares of d*SCALE sum to SCALE2 * n.
    assert((d.x * SCALE as int) * (d.x * SCALE as int) + (d.y * SCALE as int) * (d.y
        * SCALE as int) + (d.z * SCALE as int) * (d.z * SCALE as int) == SCALE2 as int * (d.x * d.x
        + d.y * d.y + d.z * d.z)) by (nonlinear_arith);
    // Bound the cross terms and the remainder squares.
    assert(-(2 * SCALE as int * (l * l)) <= 2 * (d.x * SCALE as int) * r1 <= 2 * SCALE as int * (l
        * l)) by (nonlinear_arith)
        requires
            sabs(d.x) <= l,
            0 <= r1 < l,
            0 <= l,
    ;
    assert(-(2 * SCALE as int * (l * l)) <= 2 * (d.y * SCALE as int) * r2 <= 2 * SCALE as int * (l
        * l)) by (nonlinear_arith)
        requires
            sabs(d.y) <= l,
            0 <= r2 < l,
            0 <= l,
    ;
    assert(-(2 * SCALE as int * (l * l)) <= 2 * (d.z * SCALE as int) * r3 <= 2 * SCALE as int * (l
        * l)) by (nonlinear_arith)
        requires
            sabs(d.z) <= l,
            0 <= r3 < l,
            0 <= l,
    ;
    assert(0 <= r1 * r1 <= l * l && 0 <= r2 * r2 <= l * l && 0 <= r3 * r3 <= l * l)
        by (nonlinear_arith)
        requires
            0 <= r1 < l,
            0 <= r2 < l,
            0 <= r3 < l,
    ;
    let m = sx * sx + sy * sy + sz * sz;
    // Combine: l*l*m sits within the derived window around SCALE2 * n.
    assert(l * l * m == l * l * (sx * sx) + l * l * (sy * sy) + l * l * (sz * sz))
        by (nonlinear_arith)
        requires
            m == sx * sx + sy * sy + sz * sz,
    ;
    // n itself sits between l*l and l*l + 2*l.
    assert(SCALE2 as int * (l * l) <= SCALE2 as int * n) by (nonlinear_arith)
        requires
            l * l <= n,
    ;
    assert(SCALE2 as int * n <= SCALE2 as int * (l * l) + 2 * SCALE2 as int * l)
        by (nonlinear_arith)
        requires
            n <= l * l + 2 * l,
    ;
    // With l at least SCALE, fold everything into per-unit bounds on m.
    assert(l * l * (sx * sx) >= (d.x * SCALE as int) * (d.x * SCALE as int) - 2 * SCALE as int * (
    l * l));
    assert(l * l * (sy * sy) >= (d.y * SCALE as int) * (d.y * SCALE as int) - 2 * SCALE as int * (
    l * l));
    assert(l * l * (sz * sz) >= (d.z * SCALE as int) * (d.z * SCALE as int) - 2 * SCALE as int * (
    l * l));
    assert(l * l * (sx * sx) <= (d.x * SCALE as int) * (d.x * SCALE as int) + 2 * SCALE as int * (
    l * l) + l * l);
    assert(l * l * (sy * sy) <= (d.y * SCALE as int) * (d.y * SCALE as int) + 2 * SCALE as int * (
    l * l) + l * l);
    assert(l * l * (sz * sz) <= (d.z * SCALE as int) * (d.z * SCALE as int) + 2 * SCALE as int * (
    l * l) + l * l);
    assert(l * l * m >= SCALE2 as int * n - 6 * SCALE as int * (l * l)) by (nonlinear_arith)
        requires
            l * l * m == l * l * (sx * sx) + l * l * (sy * sy) + l * l * (sz * sz),
            l * l * (sx * sx) >= (d.x * SCALE as int) * (d.x * SCALE as int) - 2 * SCALE as int * (
                l * l),
            l * l * (sy * sy) >= (d.y * SCALE as int) * (d.y * SCALE as int) - 2 * SCALE as int * (
                l * l),
            l * l * (sz * sz) >= (d.z * SCALE as int) * (d.z * SCALE as int) - 2 * SCALE as int * (
                l * l),
            (d.x * SCALE as int) * (d.x * SCALE as int) + (d.y * SCALE as int) * (d.y
                * SCALE as int) + (d.z * SCALE as int) * (d.z * SCALE as int) == SCALE2 as int * n,
    ;
    assert(l * l * m <= SCALE2 as int * n + 6 * SCALE as int * (l * l) + 3 * (l * l))
        by (nonlinear_arith)
        requires
            l * l * m == l * l * (sx * sx) + l * l * (sy * sy) + l * l * (sz * sz),
            l * l * (sx * sx) <= (d.x * SCALE as int) * (d.x * SCALE as int) + 2 * SCALE as int * (
                l * l) + l * l,
            l * l * (sy * sy) <= (d.y * SCALE as int) * (d.y * SCALE as int) + 2 * SCALE as int * (
                l * l) + l * l,
            l * l * (sz * sz) <= (d.z * SCALE as int) * (d.z * SCALE as int) + 2 * SCALE as int * (
                l * l) + l * l,
            (d.x * SCALE as int) * (d.x * SCALE as int) + (d.y * SCALE as int) * (d.y
                * SCALE as int) + (d.z * SCALE as int) * (d.z * SCALE as int) == SCALE2 as int * n,
    ;
    assert(m >= SCALE2 as int - 6 * SCALE as int) by (nonlinear_arith)
        requires
            l * l * m >= SCALE2 as int * (l * l) - 6 * SCALE as int * (l * l),
            l >= 1,
    ;
    assert(m <= SCALE2 as int + 8 * SCALE as int + 3) by (nonlinear_arith)
        requires
            l * l * m <= SCALE2 as int * (l * l) + 2 * SCALE2 as int * l + 6 * SCALE as int * (l
                * l) + 3 * (l * l),
            l >= SCALE as int,
            SCALE as int >= 1,
    ;
}

/// Exact orthonormality: the timelike axis has squared norm exactly
/// `-SCALE2`, the spatial axes exactly `+SCALE2`, and all pairs are exactly
/// pseudo-orthogonal.
pub open spec fn frame_exact(f: Frame4) -> bool {
    minkowski_dot(f.axis0, f.axis0) == -SCALE2 as int && minkowski_dot(f.axis1, f.axis1)
        == SCALE2 as int && minkowski_dot(f.axis2, f.axis2) == SCALE2 as int && minkowski_dot(
        f.axis3,
        f.axis3,
    ) == SCALE2 as int && minkowski_dot(f.axis0, f.axis1) == 0 && minkowski_dot(f.axis0, f.axis2)
        == 0 && minkowski_dot(f.axis0, f.axis3) == 0 && minkowski_dot(f.axis1, f.axis2) == 0
        && minkowski_dot(f.axis1, f.axis3) == 0 && minkowski_dot(f.axis2, f.axis3) == 0
}

/// The combination `sum_i c_i * axis_i` is divisible by `SCALE` on every
/// component.
pub open spec fn combo_exact(f: Frame4, c: Vec4) -> bool {
    (c.t * f.axis0.t + c.x * f.axis1.t + c.y * f.axis2.t + c.z * f.axis3.t) % (SCALE as int) == 0 && (
    c.t * f.axis0.x + c.x * f.axis1.x + c.y * f.axis2.x + c.z * f.axis3.x) % (SCALE as int) == 0 && (
    c.t * f.axis0.y + c.x * f.axis1.y + c.y * f.axis2.y + c.z * f.axis3.y) % (SCALE as int) == 0 && (
    c.t * f.axis0.z + c.x * f.axis1.z + c.y * f.axis2.z + c.z * f.axis3.z) % (SCALE as int) == 0
}

/// The inner product of `a` with an exact combination `u` of the frame's
/// axes unmixes into the combination of the axis inner products.
proof fn lemma_unmix(f: Frame4, a: Vec4, u: Vec4, c: Vec4)
    requires
        SCALE as int * u.t == c.t * f.axis0.t + c.x * f.axis1.t + c.y * f.axis2.t + c.z
            * f.axis3.t,
        SCALE as int * u.x == c.t * f.axis0.x + c.x * f.axis1.x + c.y * f.axis2.x + c.z
            * f.axis3.x,
        SCALE as int * u.y == c.t * f.axis0.y + c.x * f.axis1.y + c.y * f.axis2.y + c.z
            * f.axis3.y,
        SCALE as int * u.z == c.t * f.axis0.z + c.x * f.axis1.z + c.y * f.axis2.z + c.z
            * f.axis3.z,
    ensures
        minkowski_dot(a, u) * SCALE as int == c.t * minkowski_dot(a, f.axis0) + c.x
            * minkowski_dot(a, f.axis1) + c.y * minkowski_dot(a, f.axis2) + c.z * minkowski_dot(
            a,
            f.axis3,
        ),
{
    // Push the scale into each component of u.
    assert((-(a.t * u.t) + a.x * u.x + a.y * u.y + a.z * u.z) * SCALE as int == -(a.t * (
    SCALE as int * u.t)) + a.x * (SCALE as int * u.x) + a.y * (SCALE as int * u.y) + a.z * (
    SCALE as int * u.z)) by (nonlinear_arith);
    // Distribute each component of a over the axis combination.
    lemma_mul_is_distributive_add(a.t, c.t * f.axis0.t + c.x * f.axis1.t + c.y * f.axis2.t, c.z * f.axis3.t);
    lemma_mul_is_distributive_add(a.t, c.t * f.axis0.t + c.x * f.axis1.t, c.y * f.axis2.t);
    lemma_mul_is_distributive_add(a.t, c.t * f.axis0.t, c.x * f.axis1.t);
    assert(a.t * (c.t * f.axis0.t) == c.t * (a.t * f.axis0.t))
        by (nonlinear_arith);
    assert(a.t * (c.x * f.axis1.t) == c.x * (a.t * f.axis1.t))
        by (nonlinear_arith);
    assert(a.t * (c.y * f.axis2.t) == c.y * (a.t * f.axis2.t))
        by (nonlinear_arith);
    assert(a.t * (c.z * f.axis3.t) == c.z * (a.t * f.axis3.t))
        by (nonlinear_arith);
    lemma_mul_is_distributive_add(a.x, c.t * f.axis0.x + c.x * f.axis1.x + c.y * f.axis2.x, c.z * f.axis3.x);
    lemma_mul_is_distributive_add(a.x, c.t * f.axis0.x + c.x * f.axis1.x, c.y * f.axis2.x);
    lemma_mul_is_distributive_add(a.x, c.t * f.axis0.x, c.x * f.axis1.x);
    assert(a.x * (c.t * f.axis0.x) == c.t * (a.x * f.axis0.x))
        by (nonlinear_arith);
    assert(a.x * (c.x * f.axis1.x) == c.x * (a.x * f.axis1.x))
        by (nonlinear_arith);
    assert(a.x * (c.y * f.axis2.x) == c.y * (a.x * f.axis2.x))
        by (nonlinear_arith);
    assert(a.x * (c.z * f.axis3.x) == c.z * (a.x * f.axis3.x))
        by (nonlinear_arith);
    lemma_mul_is_distributive_add(a.y, c.t * f.axis0.y + c.x * f.axis1.y + c.y * f.axis2.y, c.z * f.axis3.y);
    lemma_mul_is_distributive_add(a.y, c.t * f.axis0.y + c.x * f.axis1.y, c.y * f.axis2.y);
    lemma_mul_is_distributive_add(a.y, c.t * f.axis0.y, c.x * f.axis1.y);
    assert(a.y * (c.t * f.axis0.y) == c.t * (a.y * f.axis0.y))
        by (nonlinear_arith);
    assert(a.y * (c.x * f.axis1.y) == c.x * (a.y * f.axis1.y))
        by (nonlinear_arith);
    assert(a.y * (c.y * f.axis2.y) == c.y * (a.y * f.axis2.y))
        by (nonlinear_arith);
    assert(a.y * (c.z * f.axis3.y) == c.z * (a.y * f.axis3.y))
        by (nonlinear_arith);
    lemma_mul_is_distributive_add(a.z, c.t * f.axis0.z + c.x * f.axis1.z + c.y * f.axis2.z, c.z * f.axis3.z);
    lemma_mul_is_distributive_add(a.z, c.t * f.axis0.z + c.x * f.axis1.z, c.y * f.axis2.z);
    lemma_mul_is_distributive_add(a.z, c.t * f.axis0.z, c.x * f.axis1.z);
    assert(a.z * (c.t * f.axis0.z) == c.t * (a.z * f.axis0.z))
        by (nonlinear_arith);
    assert(a.z * (c.x * f.axis1.z) == c.x * (a.z * f.axis1.z))
        by (nonlinear_arith);
    assert(a.z * (c.y * f.axis2.z) == c.y * (a.z * f.axis2.z))
        by (nonlinear_arith);
    assert(a.z * (c.z * f.axis3.z) == c.z * (a.z * f.axis3.z))
        by (nonlinear_arith);
    // Distribute each coefficient over an axis inner product.
    lemma_mul_is_distributive_add(c.t, -(a.t * f.axis0.t) + a.x * f.axis0.x + a.y * f.axis0.y, a.z * f.axis0.z);
    lemma_mul_is_distributive_add(c.t, -(a.t * f.axis0.t) + a.x * f.axis0.x, a.y * f.axis0.y);
    lemma_mul_is_distributive_add(c.t, -(a.t * f.axis0.t), a.x * f.axis0.x);
    assert(c.t * (-(a.t * f.axis0.t)) == -(c.t * (a.t * f.axis0.t))) by (nonlinear_arith);
    lemma_mul_is_distributive_add(c.x, -(a.t * f.axis1.t) + a.x * f.axis1.x + a.y * f.axis1.y, a.z * f.axis1.z);
    lemma_mul_is_distributive_add(c.x, -(a.t * f.axis1.t) + a.x * f.axis1.x, a.y * f.axis1.y);
    lemma_mul_is_distributive_add(c.x, -(a.t * f.axis1.t), a.x * f.axis1.x);
    assert(c.x * (-(a.t * f.axis1.t)) == -(c.x * (a.t * f.axis1.t))) by (nonlinear_arith);
    lemma_mul_is_distributive_add(c.y, -(a.t * f.axis2.t) + a.x * f.axis2.x + a.y * f.axis2.y, a.z * f.axis2.z);
    lemma_mul_is_distributive_add(c.y, -(a.t * f.axis2.t) + a.x * f.axis2.x, a.y * f.axis2.y);
    lemma_mul_is_distributive_add(c.y, -(a.t * f.axis2.t), a.x * f.axis2.x);
    assert(c.y * (-(a.t * f.axis2.t)) == -(c.y * (a.t * f.axis2.t))) by (nonlinear_arith);
    lemma_mul_is_distributive_add(c.z, -(a.t * f.axis3.t) + a.x * f.axis3.x + a.y * f.axis3.y, a.z * f.axis3.z);
    lemma_mul_is_distributive_add(c.z, -(a.t * f.axis3.t) + a.x * f.axis3.x, a.y * f.axis3.y);
    lemma_mul_is_distributive_add(c.z, -(a.t * f.axis3.t), a.x * f.axis3.x);
    assert(c.z * (-(a.t * f.axis3.t)) == -(c.z * (a.t * f.axis3.t))) by (nonlinear_arith);
}

/// The flat inner product is symmetric.
proof fn lemma_dot_sym(a: Vec4, b: Vec4)
    ensures
        minkowski_dot(a, b) == minkowski_dot(b, a),
{
    assert(-(a.t * b.t) + a.x * b.x + a.y * b.y + a.z * b.z == -(b.t * a.t) + b.x * a.x + b.y * a.y
        + b.z * a.z) by (nonlinear_arith);
}

/// The root of `SCALE2` is `SCALE`.
proof fn lemma_isqrt_scale2()
    ensures
        isqrt_spec(SCALE2 as int) == SCALE as int,
{
    assert(65536int * 65536 == 4294967296 && 65537int * 65537 == 4295098369) by (nonlinear_arith);
    lemma_isqrt_unique(SCALE2 as int, SCALE as int);
}

/// The exact local coordinates of an exact axis combination: projecting
/// `u = sum_i c_i axis_i / SCALE` back on an exactly orthonormal frame
/// recovers the coefficients.
proof fn lemma_project_back(f: Frame4, u: Vec4, c: Vec4)
    requires
        frame_exact(f),
        combo_exact(f, c),
        u == crate::metric::lincomb(f, c),
    ensures
        crate::metric::loc_vec(f, u) == c,
{
    let st = c.t * f.axis0.t + c.x * f.axis1.t + c.y * f.axis2.t + c.z * f.axis3.t;
    let sx = c.t * f.axis0.x + c.x * f.axis1.x + c.y * f.axis2.x + c.z * f.axis3.x;
    let sy = c.t * f.axis0.y + c.x * f.axis1.y + c.y * f.axis2.y + c.z * f.axis3.y;
    let sz = c.t * f.axis0.z + c.x * f.axis1.z + c.y * f.axis2.z + c.z * f.axis3.z;
    lemma_fundamental_div_mod(st, SCALE as int);
    lemma_fundamental_div_mod(sx, SCALE as int);
    lemma_fundamental_div_mod(sy, SCALE as int);
    lemma_fundamental_div_mod(sz, SCALE as int);
    assert(SCALE as int * u.t == st && SCALE as int * u.x == sx && SCALE as int * u.y == sy
        && SCALE as int * u.z == sz);
    lemma_unmix(f, f.axis0, u, c);
    lemma_unmix(f, f.axis1, u, c);
    lemma_unmix(f, f.axis2, u, c);
    lemma_unmix(f, f.axis3, u, c);
    lemma_dot_sym(f.axis1, f.axis0);
    lemma_dot_sym(f.axis2, f.axis0);
    lemma_dot_sym(f.axis2, f.axis1);
    lemma_dot_sym(f.axis3, f.axis0);
    lemma_dot_sym(f.axis3, f.axis1);
    lemma_dot_sym(f.axis3, f.axis2);
    lemma_isqrt_scale2();
    // Each projection is c_i * (+-SCALE2) / SCALE == +-c_i * SCALE; dividing
    // by the axis root SCALE recovers +-c_i exactly.
    assert(minkowski_dot(f.axis0, u) * SCALE as int == c.t * (-SCALE2 as int));
    assert(minkowski_dot(f.axis0, u) == -c.t * SCALE as int) by (nonlinear_arith)
        requires
            minkowski_dot(f.axis0, u) * SCALE as int == c.t * (-SCALE2 as int),
    ;
    assert(minkowski_dot(f.axis1, u) == c.x * SCALE as int) by (nonlinear_arith)
        requires
            minkowski_dot(f.axis1, u) * SCALE as int == c.x * SCALE2 as int,
    ;
    assert(minkowski_dot(f.axis2, u) == c.y * SCALE as int) by (nonlinear_arith)
        requires
            minkowski_dot(f.axis2, u) * SCALE as int == c.y * SCALE2 as int,
    ;
    assert(minkowski_dot(f.axis3, u) == c.z * SCALE as int) by (nonlinear_arith)
        requires
            minkowski_dot(f.axis3, u) * SCALE as int == c.z * SCALE2 as int,
    ;
    lemma_div_multiples_vanish(-c.t, SCALE as int);
    lemma_div_multiples_vanish(c.t, SCALE as int);
    lemma_div_multiples_vanish(c.x, SCALE as int);
    lemma_div_multiples_vanish(c.y, SCALE as int);
    lemma_div_multiples_vanish(c.z, SCALE as int);
    assert(-c.t * SCALE as int == SCALE as int * (-c.t) && c.x * SCALE as int == SCALE as int * c.x
        && c.y * SCALE as int == SCALE as int * c.y && c.z * SCALE as int == SCALE as int * c.z)
        by (nonlinear_arith);
    assert(sabs(minkowski_dot(f.axis0, f.axis0)) == SCALE2 as int);
}

/// Round trip through a frame: lifting a local vector into the global chart
/// with `from_local` and projecting it back with `into_local` returns the
/// original vector exactly, for every exactly orthonormal frame and every
/// vector whose axis combinations land on the fixed-point grid.
pub proof fn lemma_local_roundtrip(f: Frame4, v: Ray4)
    requires
        frame_exact(f),
        combo_exact(f, v.root),
        combo_exact(f, v.dir),
    ensures
        into_local_flat(f, from_local_flat(f, v)) == v,
{
    let w = from_local_flat(f, v);
    assert(crate::geometry::v4sub(w.root, f.root) == crate::metric::lincomb(f, v.root));
    lemma_project_back(f, crate::metric::lincomb(f, v.root), v.root);
    lemma_project_back(f, w.dir, v.dir);
}

} // verus!
