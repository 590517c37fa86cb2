//! Fixed-point scalar arithmetic for the engine.
//!
//! A world unit is `SCALE` raw units; squared norms and inner products are
//! therefore carried at scale `SCALE2 = SCALE * SCALE`.  Division always
//! rounds toward negative infinity (the rounding of `int` division with a
//! positive divisor), and square roots round down.

use vstd::arithmetic::div_mod::{
    lemma_div_is_ordered, lemma_div_multiples_vanish, lemma_div_nonincreasing,
    lemma_fundamental_div_mod, lemma_fundamental_div_mod_converse, lemma_mod_bound, lemma_mod_pos_bound,
};
use vstd::prelude::*;

verus! {

/// Raw units per world unit.
pub const SCALE: i128 = 65536;

/// `SCALE * SCALE`: raw units per squared world unit.
pub const SCALE2: i128 = 4294967296;

/// Numerical tolerance on squared norms when deciding frame orthonormality
/// (`4 * SCALE` raw units at scale `SCALE2`).
pub const TOL: i128 = 262144;

/// Bound on the components of a frame's basis vectors.
pub const AXIS_MAX: i128 = 262144;

/// Bound on the components of a frame's root coordinate.
pub const FRAME_ROOT_MAX: i128 = 536870912;

/// Bound on bounding-box corners and on camera ray roots.
pub const POINT_MAX: i128 = 1073741824;

/// Bound on a marched ray's root coordinate (one step beyond the box).
pub const RAY_ROOT_MAX: i128 = 2147483648;

/// Bound on a ray's direction components.
pub const RAY_DIR_MAX: i128 = 4194304;

/// Bound on a geodesic step size.
pub const STEP_MAX: i128 = 1048576;

/// Bound on a collider's radius and time thickness.
pub const SIZE_MAX: i128 = 1073741824;

/// Least admitted magnitude of a basis vector's squared pseudo-norm
/// (`SCALE2 / 4`): below it a frame counts as degenerate.
pub const NORM_MIN: i128 = 1073741824;

/// Bound on the components of a ray re-expressed in a collider's local frame.
pub const LOCAL_MAX: i128 = 137438953472;

/// Bound on the components of a normalized intermediate basis vector.
pub const UNIT_MAX: i128 = 1048576;

/// Bound on camera plane dimensions.
pub const PLANE_MAX: i128 = 1048576;

/// Absolute value.
pub open spec fn sabs(x: int) -> int {
    if x < 0 {
        -x
    } else {
        x
    }
}

/// Least of two integers.
pub open spec fn smin(a: int, b: int) -> int {
    if a <= b {
        a
    } else {
        b
    }
}

/// Greatest of two integers.
pub open spec fn smax(a: int, b: int) -> int {
    if a >= b {
        a
    } else {
        b
    }
}

/// The integer square root: the greatest `r` with `r * r <= n` (0 below 1).
pub open spec fn isqrt_spec(n: int) -> int
    decreases n,
{
    if n < 1 {
        0
    } else {
        let r = isqrt_spec(n - 1);
        if (r + 1) * (r + 1) <= n {
            r + 1
        } else {
            r
        }
    }
}

pub proof fn lemma_isqrt_props(n: int)
    requires
        n >= 0,
    ensures
        isqrt_spec(n) >= 0,
        isqrt_spec(n) * isqrt_spec(n) <= n,
        n < (isqrt_spec(n) + 1) * (isqrt_spec(n) + 1),
    decreases n,
{
    if n >= 1 {
        lemma_isqrt_props(n - 1);
        let r = isqrt_spec(n - 1);
        if (r + 1) * (r + 1) <= n {
            assert((r + 1) * (r + 1) < (r + 2) * (r + 2)) by (nonlinear_arith)
                requires
                    r >= 0,
            ;
        }
    }
}

pub proof fn lemma_isqrt_unique(n: int, r: int)
    requires
        n >= 0,
        r >= 0,
        r * r <= n,
        n < (r + 1) * (r + 1),
    ensures
        r == isqrt_spec(n),
{
    lemma_isqrt_props(n);
    let s = isqrt_spec(n);
    if r < s {
        assert((r + 1) * (r + 1) <= s * s) by (nonlinear_arith)
            requires
                0 <= r,
                r < s,
        ;
    }
    if s < r {
        assert((s + 1) * (s + 1) <= r * r) by (nonlinear_arith)
            requires
                0 <= s,
                s < r,
        ;
    }
}

/// If `n` is at most `m * m`, its square root is at most `m`.
pub proof fn lemma_isqrt_le(n: int, m: int)
    requires
        0 <= n,
        0 <= m,
        n <= m * m,
    ensures
        isqrt_spec(n) <= m,
{
    lemma_isqrt_props(n);
    let r = isqrt_spec(n);
    if r > m {
        assert(m * m < (m + 1) * (m + 1) && (m + 1) * (m + 1) <= r * r) by (nonlinear_arith)
            requires
                0 <= m,
                m < r,
        ;
    }
}

/// If `n` is at least `m * m`, its square root is at least `m`.
pub proof fn lemma_isqrt_ge(n: int, m: int)
    requires
        0 <= m,
        m * m <= n,
    ensures
        m <= isqrt_spec(n),
{
    lemma_isqrt_props(n);
    let r = isqrt_spec(n);
    if m > r {
        assert((r + 1) * (r + 1) <= m * m) by (nonlinear_arith)
            requires
                0 <= r,
                r < m,
        ;
    }
}

/// Bounded factors give a bounded product.
pub proof fn lemma_mul_bound(a: int, b: int, x: int, y: int)
    requires
        -x <= a <= x,
        -y <= b <= y,
        0 <= x,
        0 <= y,
    ensures
        -(x * y) <= a * b <= x * y,
{
    assert(-(x * y) <= a * b <= x * y) by (nonlinear_arith)
        requires
            -x <= a <= x,
            -y <= b <= y,
            0 <= x,
            0 <= y,
    ;
}

/// A numerator within `x * d` gives a quotient within `x`.
pub proof fn lemma_div_bound(a: int, x: int, d: int)
    requires
        -(x * d) <= a <= x * d,
        1 <= d,
        0 <= x,
    ensures
        -x <= a / d <= x,
{
    assert(x * d == d * x && -(x * d) == d * (-x)) by (nonlinear_arith);
    lemma_div_is_ordered(a, d * x, d);
    lemma_div_is_ordered(d * (-x), a, d);
    lemma_div_multiples_vanish(x, d);
    lemma_div_multiples_vanish(-x, d);
}

/// A numerator within `x * dmin` gives a quotient within `x` for any
/// divisor at least `dmin`.
pub proof fn lemma_div_bound_denom(a: int, x: int, dmin: int, d: int)
    requires
        -(x * dmin) <= a <= x * dmin,
        1 <= dmin <= d,
        0 <= x,
    ensures
        -x <= a / d <= x,
{
    assert(x * dmin <= x * d) by (nonlinear_arith)
        requires
            0 <= x,
            dmin <= d,
    ;
    lemma_div_bound(a, x, d);
}

/// Floor quotients add exactly when the remainders do not carry.
pub proof fn lemma_div_add_exact(x: int, y: int, d: int)
    requires
        1 <= d,
        (x % d) + (y % d) < d,
    ensures
        x / d + y / d == (x + y) / d,
{
    lemma_fundamental_div_mod(x, d);
    lemma_fundamental_div_mod(y, d);
    lemma_mod_bound(x, d);
    lemma_mod_bound(y, d);
    assert((x / d + y / d) * d == d * (x / d) + d * (y / d)) by (nonlinear_arith);
    lemma_fundamental_div_mod_converse(x + y, d, x / d + y / d, (x % d) + (y % d));
}

/// Multiplication with the product shown to fit the machine type.
pub fn muls(a: i128, b: i128) -> (r: i128)
    requires
        -9223372036854775808 <= a <= 9223372036854775808,
        -9223372036854775808 <= b <= 9223372036854775808,
    ensures
        r == a * b,
{
    proof {
        assert(-85070591730234615865843651857942052864 <= (a as int) * (b as int)
            <= 85070591730234615865843651857942052864) by (nonlinear_arith)
            requires
                -9223372036854775808 <= a as int <= 9223372036854775808,
                -9223372036854775808 <= b as int <= 9223372036854775808,
        ;
    }
    a * b
}

/// Division rounding toward negative infinity, for a positive divisor:
/// the rounding of `int` division.
pub fn div_fl(a: i128, b: i128) -> (r: i128)
    requires
        1 <= b,
        -170141183460469231731687303715884105727 <= a,
    ensures
        r == a as int / b as int,
{
    let bu: u128 = b as u128;
    if a >= 0 {
        let au: u128 = a as u128;
        let q: u128 = au / bu;
        proof {
            lemma_div_nonincreasing(au as int, bu as int);
        }
        q as i128
    } else {
        let na: u128 = (-a) as u128;
        let q: u128 = na / bu;
        let rem: u128 = na % bu;
        proof {
            lemma_fundamental_div_mod(na as int, bu as int);
            lemma_mod_pos_bound(na as int, bu as int);
            lemma_div_nonincreasing(na as int, bu as int);
        }
        if rem == 0 {
            proof {
                assert(a as int == (-(q as int)) * (b as int) + 0) by (nonlinear_arith)
                    requires
                        na as int == bu as int * (q as int) + 0,
                        a as int == -(na as int),
                        b as int == bu as int,
                ;
                lemma_fundamental_div_mod_converse(a as int, b as int, -(q as int), 0);
            }
            -(q as i128)
        } else {
            proof {
                assert(a as int == (-(q as int) - 1) * (b as int) + (b as int - rem as int))
                    by (nonlinear_arith)
                    requires
                        na as int == bu as int * (q as int) + rem as int,
                        a as int == -(na as int),
                        b as int == bu as int,
                ;
                lemma_fundamental_div_mod_converse(
                    a as int,
                    b as int,
                    -(q as int) - 1,
                    b as int - rem as int,
                );
            }
            -(q as i128) - 1
        }
    }
}

/// The integer square root of a non-negative number, by bisection.
pub fn isqrt(n: i128) -> (r: i128)
    requires
        0 <= n,
        n <= 85070591730234615865843651857942052863,
    ensures
        r == isqrt_spec(n as int),
        r >= 0,
        r * r <= n,
        n < (r + 1) * (r + 1),
{
    let nu: u128 = n as u128;
    let mut lo: u128 = 0;
    let mut hi: u128 = 9223372036854775808;
    proof {
        assert((hi as int) * (hi as int) == 85070591730234615865843651857942052864)
            by (nonlinear_arith)
            requires
                hi == 9223372036854775808u128,
        ;
    }
    while lo + 1 < hi
        invariant
            0 <= lo < hi <= 9223372036854775808,
            (lo as int) * (lo as int) <= n as int,
            (n as int) < (hi as int) * (hi as int),
            nu == n as u128,
            0 <= n,
        decreases hi - lo,
    {
        let mid: u128 = lo + (hi - lo) / 2;
        proof {
            vstd::arithmetic::div_mod::lemma_div_is_strictly_smaller((hi - lo) as int, 2);
            lemma_div_is_ordered(2, (hi - lo) as int, 2);
            vstd::arithmetic::div_mod::lemma_div_by_self(2);
            assert((mid as int) * (mid as int) <= 85070591730234615865843651857942052864)
                by (nonlinear_arith)
                requires
                    0 <= mid as int <= 9223372036854775808,
            ;
        }
        if mid * mid <= nu {
            lo = mid;
        } else {
            hi = mid;
        }
    }
    proof {
        lemma_isqrt_unique(n as int, lo as int);
        lemma_isqrt_props(n as int);
    }
    lo as i128
}

} // verus!
