//! Colliders: objects a marched ray can strike.
//!
//! A `SphereCollider` is a world-tube: a sphere of fixed spatial radius in
//! its own rest frame, present during a temporal slab of half-width
//! `time_thickness` around its rest time.  Intersection is decided in the
//! sphere's local frame by a quadratic spatial test clamped to the marching
//! interval and to the temporal slab.

use crate::geometry::{
    bounded4, frame_ok, iabs, v4zero, Box4, BoundingBox, Coord, FourVector, Frame4, ManifoldFrame,
    ManifoldVector, Ray4, Vec4,
};
use crate::metric::{into_local_flat, CarthesianMinkowski, Metric};
use crate::num::{
    div_fl, isqrt, isqrt_spec, lemma_div_bound, lemma_isqrt_le, lemma_mul_bound, muls, sabs, smax,
    smin, LOCAL_MAX, POINT_MAX, RAY_DIR_MAX, RAY_ROOT_MAX, SCALE, SIZE_MAX, STEP_MAX,
};
use vstd::prelude::*;

verus! {

/// A capability for testing rays against an object, and for broad-phase
/// culling against a bounding box.
pub trait RayIntersector: Sized {
    /// The object's validity condition.
    spec fn wf(&self) -> bool;

    /// The exact predicate that `intersects` decides.
    spec fn hit_spec(&self, ray: Ray4, step: int) -> bool;

    /// The exact predicate that `in_bounding_box` decides.
    spec fn in_box_spec(&self, b: Box4) -> bool;

    /// Whether the ray crosses the object within the next marching interval
    /// of size `stepsize`.
    fn intersects(&self, ray: &ManifoldVector, stepsize: i128) -> (b: bool)
        requires
            self.wf(),
            bounded4(ray@.root, RAY_ROOT_MAX as int),
            bounded4(ray@.dir, RAY_DIR_MAX as int),
            0 <= stepsize <= STEP_MAX,
        ensures
            b == self.hit_spec(ray@, stepsize as int),
    ;

    /// Conservative culling: whether the object may overlap the box.
    fn in_bounding_box(&self, bbox: &BoundingBox) -> (b: bool)
        requires
            self.wf(),
            bounded4(bbox@.lo, POINT_MAX as int),
            bounded4(bbox@.hi, POINT_MAX as int),
        ensures
            b == self.in_box_spec(bbox@),
    ;
}

/// Mathematical model of a sphere collider.
pub ghost struct Sphere4 {
    pub center: Frame4,
    pub radius: int,
    pub thick: int,
}

/// A sphere swept through a temporal slab, described in its own rest frame.
#[derive(Clone, Copy, Debug)]
pub struct SphereCollider {
    pub center: ManifoldFrame,
    pub radius: i128,
    pub time_thickness: i128,
}

impl View for SphereCollider {
    type V = Sphere4;

    open spec fn view(&self) -> Sphere4 {
        Sphere4 {
            center: self.center@,
            radius: self.radius as int,
            thick: self.time_thickness as int,
        }
    }
}

/// The exact intersection predicate: the ray is moved into the sphere's
/// rest frame; the spatial crossing interval from the quadratic's roots is
/// clamped to `[0, step]` and to the temporal slab, and a hit is a
/// non-empty interval.  A direction with zero local time component leaves
/// the temporal window unconstrained while the root lies inside the slab.
pub open spec fn sphere_hit(s: Sphere4, ray: Ray4, step: int) -> bool {
    let lr = into_local_flat(s.center, ray);
    let ab = lr.root.x * lr.dir.x + lr.root.y * lr.dir.y + lr.root.z * lr.dir.z;
    let na = lr.root.x * lr.root.x + lr.root.y * lr.root.y + lr.root.z * lr.root.z;
    let nb = lr.dir.x * lr.dir.x + lr.dir.y * lr.dir.y + lr.dir.z * lr.dir.z;
    let ab_s = ab / SCALE as int;
    let na_s = na / SCALE as int;
    let nb_s = nb / SCALE as int;
    let r2_s = (s.radius * s.radius) / SCALE as int;
    let d = ab_s * ab_s - na_s * nb_s + nb_s * r2_s;
    if d < 0 {
        false
    } else {
        let rd = isqrt_spec(d);
        let lo1 = if nb_s >= 1 {
            smax(0, ((-ab_s - rd) * SCALE as int) / nb_s)
        } else {
            0
        };
        let hi1 = if nb_s >= 1 {
            smin(step, ((-ab_s + rd) * SCALE as int) / nb_s)
        } else {
            step
        };
        if lr.dir.t == 0 {
            if -s.thick <= lr.root.t <= s.thick {
                lo1 <= hi1
            } else {
                false
            }
        } else {
            let den = if lr.dir.t > 0 {
                lr.dir.t
            } else {
                -lr.dir.t
            };
            let nu1 = if lr.dir.t > 0 {
                (lr.root.t - s.thick) * SCALE as int
            } else {
                -((lr.root.t - s.thick) * SCALE as int)
            };
            let nu2 = if lr.dir.t > 0 {
                (lr.root.t + s.thick) * SCALE as int
            } else {
                -((lr.root.t + s.thick) * SCALE as int)
            };
            let ta = nu1 / den;
            let tb = nu2 / den;
            let lo2 = smax(lo1, smin(ta, tb));
            let hi2 = smin(hi1, smax(ta, tb));
            lo2 <= hi2
        }
    }
}

/// One corner of a box, selected by the bits of `k`.
pub open spec fn box_corner(b: Box4, k: int) -> Vec4 {
    Vec4 {
        t: if k % 2 == 1 {
            b.hi.t
        } else {
            b.lo.t
        },
        x: if (k / 2) % 2 == 1 {
            b.hi.x
        } else {
            b.lo.x
        },
        y: if (k / 4) % 2 == 1 {
            b.hi.y
        } else {
            b.lo.y
        },
        z: if (k / 8) % 2 == 1 {
            b.hi.z
        } else {
            b.lo.z
        },
    }
}

/// A corner re-expressed in a frame's local coordinates.
pub open spec fn corner_local(f: Frame4, b: Box4, k: int) -> Vec4 {
    into_local_flat(f, Ray4 { root: box_corner(b, k), dir: v4zero() }).root
}

pub open spec fn v4min(a: Vec4, b: Vec4) -> Vec4 {
    Vec4 { t: smin(a.t, b.t), x: smin(a.x, b.x), y: smin(a.y, b.y), z: smin(a.z, b.z) }
}

pub open spec fn v4max(a: Vec4, b: Vec4) -> Vec4 {
    Vec4 { t: smax(a.t, b.t), x: smax(a.x, b.x), y: smax(a.y, b.y), z: smax(a.z, b.z) }
}

/// Componentwise lower envelope of the first `k` local corners.
pub open spec fn env_lo(f: Frame4, b: Box4, k: int) -> Vec4
    decreases k,
{
    if k <= 1 {
        corner_local(f, b, 0)
    } else {
        v4min(env_lo(f, b, k - 1), corner_local(f, b, k - 1))
    }
}

/// Componentwise upper envelope of the first `k` local corners.
pub open spec fn env_hi(f: Frame4, b: Box4, k: int) -> Vec4
    decreases k,
{
    if k <= 1 {
        corner_local(f, b, 0)
    } else {
        v4max(env_hi(f, b, k - 1), corner_local(f, b, k - 1))
    }
}

/// The conservative overlap test: the local envelope of all 16 box corners
/// must overlap the doubled temporal slab, and each spatial envelope must
/// straddle zero or come within twice the radius of it.
pub open spec fn sphere_in_box(s: Sphere4, b: Box4) -> bool {
    let lo = env_lo(s.center, b, 16);
    let hi = env_hi(s.center, b, 16);
    lo.t < 2 * s.thick && hi.t > -(2 * s.thick) && (smin(sabs(lo.x), sabs(hi.x)) < 2 * s.radius
        || (lo.x <= 0 && 0 <= hi.x)) && (smin(sabs(lo.y), sabs(hi.y)) < 2 * s.radius || (lo.y <= 0
        && 0 <= hi.y)) && (smin(sabs(lo.z), sabs(hi.z)) < 2 * s.radius || (lo.z <= 0 && 0 <= hi.z))
}

impl RayIntersector for SphereCollider {
    open spec fn wf(&self) -> bool {
        frame_ok(self@.center) && 0 <= self@.radius <= SIZE_MAX as int && 0 <= self@.thick
            <= SIZE_MAX as int
    }

    open spec fn hit_spec(&self, ray: Ray4, step: int) -> bool {
        sphere_hit(self@, ray, step)
    }

    open spec fn in_box_spec(&self, b: Box4) -> bool {
        sphere_in_box(self@, b)
    }

    fn intersects(&self, ray: &ManifoldVector, stepsize: i128) -> (b: bool) {
        let lr = CarthesianMinkowski::into_local(&self.center, ray);
        let rx = lr.root.components.x;
        let ry = lr.root.components.y;
        let rz = lr.root.components.z;
        let dx = lr.components.x;
        let dy = lr.components.y;
        let dz = lr.components.z;
        proof {
            lemma_mul_bound(rx as int, dx as int, LOCAL_MAX as int, LOCAL_MAX as int);
            lemma_mul_bound(ry as int, dy as int, LOCAL_MAX as int, LOCAL_MAX as int);
            lemma_mul_bound(rz as int, dz as int, LOCAL_MAX as int, LOCAL_MAX as int);
            lemma_mul_bound(rx as int, rx as int, LOCAL_MAX as int, LOCAL_MAX as int);
            lemma_mul_bound(ry as int, ry as int, LOCAL_MAX as int, LOCAL_MAX as int);
            lemma_mul_bound(rz as int, rz as int, LOCAL_MAX as int, LOCAL_MAX as int);
            lemma_mul_bound(dx as int, dx as int, LOCAL_MAX as int, LOCAL_MAX as int);
            lemma_mul_bound(dy as int, dy as int, LOCAL_MAX as int, LOCAL_MAX as int);
            lemma_mul_bound(dz as int, dz as int, LOCAL_MAX as int, LOCAL_MAX as int);
            lemma_mul_bound(self@.radius, self@.radius, SIZE_MAX as int, SIZE_MAX as int);
        }
        let ab = muls(rx, dx) + muls(ry, dy) + muls(rz, dz);
        let na = muls(rx, rx) + muls(ry, ry) + muls(rz, rz);
        let nb = muls(dx, dx) + muls(dy, dy) + muls(dz, dz);
        let r2 = muls(self.radius, self.radius);
        proof {
            lemma_div_bound(ab as int, 864691128455135232, SCALE as int);
            lemma_div_bound(na as int, 864691128455135232, SCALE as int);
            lemma_div_bound(nb as int, 864691128455135232, SCALE as int);
            lemma_div_bound(r2 as int, 17592186044416, SCALE as int);
        }
        let ab_s = div_fl(ab, SCALE);
        let na_s = div_fl(na, SCALE);
        let nb_s = div_fl(nb, SCALE);
        let r2_s = div_fl(r2, SCALE);
        proof {
            lemma_mul_bound(ab_s as int, ab_s as int, 864691128455135232, 864691128455135232);
            lemma_mul_bound(na_s as int, nb_s as int, 864691128455135232, 864691128455135232);
            lemma_mul_bound(nb_s as int, r2_s as int, 864691128455135232, 17592186044416);
        }
        let d = muls(ab_s, ab_s) - muls(na_s, nb_s) + muls(nb_s, r2_s);
        if d < 0 {
            return false;
        }
        proof {
            assert(2305843009213693952int * 2305843009213693952
                == 5316911983139663491615228241121378304) by (nonlinear_arith);
            lemma_isqrt_le(d as int, 2305843009213693952);
        }
        let rd = isqrt(d);
        let mut lower: i128 = 0;
        let mut upper: i128 = stepsize;
        if nb_s >= 1 {
            let cl = div_fl(muls(-ab_s - rd, SCALE), nb_s);
            let cu = div_fl(muls(-ab_s + rd, SCALE), nb_s);
            if cl > lower {
                lower = cl;
            }
            if cu < upper {
                upper = cu;
            }
        }
        let rt = lr.root.components.t;
        let dt = lr.components.t;
        if dt == 0 {
            if -self.time_thickness <= rt && rt <= self.time_thickness {
                lower <= upper
            } else {
                false
            }
        } else {
            let den = if dt > 0 {
                dt
            } else {
                -dt
            };
            let nu1 = if dt > 0 {
                muls(rt - self.time_thickness, SCALE)
            } else {
                -muls(rt - self.time_thickness, SCALE)
            };
            let nu2 = if dt > 0 {
                muls(rt + self.time_thickness, SCALE)
            } else {
                -muls(rt + self.time_thickness, SCALE)
            };
            let ta = div_fl(nu1, den);
            let tb = div_fl(nu2, den);
            let tlo = if ta <= tb {
                ta
            } else {
                tb
            };
            let thi = if ta >= tb {
                ta
            } else {
                tb
            };
            if tlo > lower {
                lower = tlo;
            }
            if thi < upper {
                upper = thi;
            }
            lower <= upper
        }
    }

    fn in_bounding_box(&self, bbox: &BoundingBox) -> (b: bool) {
        let c0 = corner_local_exec(&self.center, bbox, 0);
        let mut lo = c0;
        let mut hi = c0;
        let mut k: usize = 1;
        while k < 16
            invariant
                1 <= k <= 16,
                self.wf(),
                bounded4(bbox@.lo, POINT_MAX as int),
                bounded4(bbox@.hi, POINT_MAX as int),
                lo@ == env_lo(self@.center, bbox@, k as int),
                hi@ == env_hi(self@.center, bbox@, k as int),
                bounded4(lo@, LOCAL_MAX as int),
                bounded4(hi@, LOCAL_MAX as int),
            decreases 16 - k,
        {
            let c = corner_local_exec(&self.center, bbox, k);
            lo = FourVector {
                t: if c.t < lo.t {
                    c.t
                } else {
                    lo.t
                },
                x: if c.x < lo.x {
                    c.x
                } else {
                    lo.x
                },
                y: if c.y < lo.y {
                    c.y
                } else {
                    lo.y
                },
                z: if c.z < lo.z {
                    c.z
                } else {
                    lo.z
                },
            };
            hi = FourVector {
                t: if c.t > hi.t {
                    c.t
                } else {
                    hi.t
                },
                x: if c.x > hi.x {
                    c.x
                } else {
                    hi.x
                },
                y: if c.y > hi.y {
                    c.y
                } else {
                    hi.y
                },
                z: if c.z > hi.z {
                    c.z
                } else {
                    hi.z
                },
            };
            k = k + 1;
        }
        let r2 = 2 * self.radius;
        let t2 = 2 * self.time_thickness;
        lo.t < t2 && hi.t > -t2 && ({
            let m = if iabs(lo.x) <= iabs(hi.x) {
                iabs(lo.x)
            } else {
                iabs(hi.x)
            };
            m < r2 || (lo.x <= 0 && 0 <= hi.x)
        }) && ({
            let m = if iabs(lo.y) <= iabs(hi.y) {
                iabs(lo.y)
            } else {
                iabs(hi.y)
            };
            m < r2 || (lo.y <= 0 && 0 <= hi.y)
        }) && ({
            let m = if iabs(lo.z) <= iabs(hi.z) {
                iabs(lo.z)
            } else {
                iabs(hi.z)
            };
            m < r2 || (lo.z <= 0 && 0 <= hi.z)
        })
    }
}

/// The local coordinates of the `k`-th corner of a box in a frame.
fn corner_local_exec(frame: &ManifoldFrame, bbox: &BoundingBox, k: usize) -> (r: FourVector)
    requires
        frame_ok(frame@),
        bounded4(bbox@.lo, POINT_MAX as int),
        bounded4(bbox@.hi, POINT_MAX as int),
        k < 16,
    ensures
        r@ == corner_local(frame@, bbox@, k as int),
        bounded4(r@, LOCAL_MAX as int),
{
    let corner = FourVector {
        t: if k % 2 == 1 {
            bbox.hi.t
        } else {
            bbox.lo.t
        },
        x: if (k / 2) % 2 == 1 {
            bbox.hi.x
        } else {
            bbox.lo.x
        },
        y: if (k / 4) % 2 == 1 {
            bbox.hi.y
        } else {
            bbox.lo.y
        },
        z: if (k / 8) % 2 == 1 {
            bbox.hi.z
        } else {
            bbox.lo.z
        },
    };
    let v = ManifoldVector {
        root: Coord { components: corner },
        components: FourVector { t: 0, x: 0, y: 0, z: 0 },
    };
    let local = CarthesianMinkowski::into_local(frame, &v);
    local.root.components
}


} // verus!
