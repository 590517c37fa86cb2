//! Cameras: mapping a pixel address to an initial ray.
//!
//! Screen coordinates are normalized to `[-1/2, 1/2]` across the pixel grid
//! and scaled by the configured plane width and height (the height keeps the
//! aspect ratio of the grid).  Four policies combine perspective or parallel
//! projection with lightlike or instantaneous rays; each returns a ray in
//! the global chart, lifted through the camera's frame.

use crate::geometry::{
    bounded4, frame_ok, Coord, FourVector, Frame4, ManifoldFrame, ManifoldVector, Ray4, Spat3,
    SpatialVec, Vec4,
};
use crate::metric::{
    from_local_flat, instantray_spec, lightray_spec, CarthesianMinkowski, Metric,
};
use crate::num::{
    div_fl, lemma_div_bound, lemma_mul_bound, muls, AXIS_MAX, PLANE_MAX, POINT_MAX, RAY_DIR_MAX,
    SCALE,
};
use vstd::prelude::*;

verus! {

/// A camera: the exact pixel grid to iterate, and one ray per pixel.
pub trait Camera: Sized {
    /// The camera's validity condition.
    spec fn wf(&self) -> bool;

    /// The pixel grid dimensions.
    spec fn size_spec(&self) -> (usize, usize);

    /// The exact ray produced for a pixel.
    spec fn ray_spec(&self, px: int, py: int) -> Ray4;

    /// The exact pixel dimensions to iterate.
    fn screen_size(&self) -> (r: (usize, usize))
        requires
            self.wf(),
        ensures
            r == self.size_spec(),
    ;

    /// The ray for a pixel, in the global chart, rooted near the camera.
    fn ray(&self, pixel: (usize, usize)) -> (r: ManifoldVector)
        requires
            self.wf(),
            pixel.0 < self.size_spec().0,
            pixel.1 < self.size_spec().1,
        ensures
            r@ == self.ray_spec(pixel.0 as int, pixel.1 as int),
            bounded4(r@.root, POINT_MAX as int),
            bounded4(r@.dir, RAY_DIR_MAX as int),
    ;
}

/// The signed plane offset of pixel `p` of `n`: the pixel position
/// normalized to `[-1/2, 1/2]` and scaled by the plane dimension.
pub open spec fn screen_offset_spec(p: int, n: int, plane: int) -> int {
    (((p * SCALE as int) / n - 32768) * plane) / SCALE as int
}

fn screen_offset(p: usize, n: usize, plane: i128) -> (r: i128)
    requires
        1 <= n <= 4095,
        p <= n,
        0 <= plane <= PLANE_MAX,
    ensures
        r == screen_offset_spec(p as int, n as int, plane as int),
        -524288 <= r <= 524288,
{
    proof {
        lemma_div_bound((p as int) * SCALE as int, SCALE as int, n as int);
        vstd::arithmetic::div_mod::lemma_div_pos_is_pos((p as int) * SCALE as int, n as int);
    }
    let x = div_fl(muls(p as i128, SCALE), n as i128);
    proof {
        lemma_mul_bound(x as int - 32768, plane as int, 32768, PLANE_MAX as int);
        lemma_div_bound((x as int - 32768) * plane as int, 524288, SCALE as int);
    }
    div_fl(muls(x - 32768, plane), SCALE)
}

/// A lifted ray with a small local root and direction stays within the
/// renderer's working bounds.
proof fn lemma_ray_bounds(f: Frame4, v: Ray4, rb: int, db: int)
    requires
        frame_ok(f),
        bounded4(v.root, rb),
        bounded4(v.dir, db),
        0 <= rb <= 524288,
        0 <= db <= 262144,
    ensures
        bounded4(from_local_flat(f, v).root, POINT_MAX as int),
        bounded4(from_local_flat(f, v).dir, RAY_DIR_MAX as int),
{
    lemma_mul_bound(v.root.t, f.axis0.t, rb, AXIS_MAX as int);
    lemma_mul_bound(v.root.x, f.axis1.t, rb, AXIS_MAX as int);
    lemma_mul_bound(v.root.y, f.axis2.t, rb, AXIS_MAX as int);
    lemma_mul_bound(v.root.z, f.axis3.t, rb, AXIS_MAX as int);
    lemma_mul_bound(v.root.t, f.axis0.x, rb, AXIS_MAX as int);
    lemma_mul_bound(v.root.x, f.axis1.x, rb, AXIS_MAX as int);
    lemma_mul_bound(v.root.y, f.axis2.x, rb, AXIS_MAX as int);
    lemma_mul_bound(v.root.z, f.axis3.x, rb, AXIS_MAX as int);
    lemma_mul_bound(v.root.t, f.axis0.y, rb, AXIS_MAX as int);
    lemma_mul_bound(v.root.x, f.axis1.y, rb, AXIS_MAX as int);
    lemma_mul_bound(v.root.y, f.axis2.y, rb, AXIS_MAX as int);
    lemma_mul_bound(v.root.z, f.axis3.y, rb, AXIS_MAX as int);
    lemma_mul_bound(v.root.t, f.axis0.z, rb, AXIS_MAX as int);
    lemma_mul_bound(v.root.x, f.axis1.z, rb, AXIS_MAX as int);
    lemma_mul_bound(v.root.y, f.axis2.z, rb, AXIS_MAX as int);
    lemma_mul_bound(v.root.z, f.axis3.z, rb, AXIS_MAX as int);
    lemma_mul_bound(v.dir.t, f.axis0.t, db, AXIS_MAX as int);
    lemma_mul_bound(v.dir.x, f.axis1.t, db, AXIS_MAX as int);
    lemma_mul_bound(v.dir.y, f.axis2.t, db, AXIS_MAX as int);
    lemma_mul_bound(v.dir.z, f.axis3.t, db, AXIS_MAX as int);
    lemma_mul_bound(v.dir.t, f.axis0.x, db, AXIS_MAX as int);
    lemma_mul_bound(v.dir.x, f.axis1.x, db, AXIS_MAX as int);
    lemma_mul_bound(v.dir.y, f.axis2.x, db, AXIS_MAX as int);
    lemma_mul_bound(v.dir.z, f.axis3.x, db, AXIS_MAX as int);
    lemma_mul_bound(v.dir.t, f.axis0.y, db, AXIS_MAX as int);
    lemma_mul_bound(v.dir.x, f.axis1.y, db, AXIS_MAX as int);
    lemma_mul_bound(v.dir.y, f.axis2.y, db, AXIS_MAX as int);
    lemma_mul_bound(v.dir.z, f.axis3.y, db, AXIS_MAX as int);
    lemma_mul_bound(v.dir.t, f.axis0.z, db, AXIS_MAX as int);
    lemma_mul_bound(v.dir.x, f.axis1.z, db, AXIS_MAX as int);
    lemma_mul_bound(v.dir.y, f.axis2.z, db, AXIS_MAX as int);
    lemma_mul_bound(v.dir.z, f.axis3.z, db, AXIS_MAX as int);
    lemma_div_bound(
        v.root.t * f.axis0.t + v.root.x * f.axis1.t + v.root.y * f.axis2.t + v.root.z * f.axis3.t,
        8388608,
        SCALE as int,
    );
    lemma_div_bound(
        v.root.t * f.axis0.x + v.root.x * f.axis1.x + v.root.y * f.axis2.x + v.root.z * f.axis3.x,
        8388608,
        SCALE as int,
    );
    lemma_div_bound(
        v.root.t * f.axis0.y + v.root.x * f.axis1.y + v.root.y * f.axis2.y + v.root.z * f.axis3.y,
        8388608,
        SCALE as int,
    );
    lemma_div_bound(
        v.root.t * f.axis0.z + v.root.x * f.axis1.z + v.root.y * f.axis2.z + v.root.z * f.axis3.z,
        8388608,
        SCALE as int,
    );
    lemma_div_bound(
        v.dir.t * f.axis0.t + v.dir.x * f.axis1.t + v.dir.y * f.axis2.t + v.dir.z * f.axis3.t,
        4194304,
        SCALE as int,
    );
    lemma_div_bound(
        v.dir.t * f.axis0.x + v.dir.x * f.axis1.x + v.dir.y * f.axis2.x + v.dir.z * f.axis3.x,
        4194304,
        SCALE as int,
    );
    lemma_div_bound(
        v.dir.t * f.axis0.y + v.dir.x * f.axis1.y + v.dir.y * f.axis2.y + v.dir.z * f.axis3.y,
        4194304,
        SCALE as int,
    );
    lemma_div_bound(
        v.dir.t * f.axis0.z + v.dir.x * f.axis1.z + v.dir.y * f.axis2.z + v.dir.z * f.axis3.z,
        4194304,
        SCALE as int,
    );
}

/// Validity shared by all camera variants.
pub open spec fn camera_fields_ok(
    frame: Frame4,
    pix_width: usize,
    pix_height: usize,
    plane_width: i128,
    plane_height: i128,
) -> bool {
    frame_ok(frame) && 1 <= pix_width <= 4095 && 1 <= pix_height <= 4095 && 0 <= plane_width
        <= PLANE_MAX && 0 <= plane_height <= PLANE_MAX
}

/// Perspective projection with lightlike rays.
pub struct BasicCamera {
    pub frame: ManifoldFrame,
    pub pix_width: usize,
    pub pix_height: usize,
    pub plane_width: i128,
    pub plane_height: i128,
}

impl BasicCamera {
    pub fn new(frame: &ManifoldFrame, width: usize, height: usize, scale: i128) -> (r: Self)
        requires
            frame_ok(frame@),
            2 <= width <= 4096,
            2 <= height <= 4096,
            0 <= scale <= PLANE_MAX,
            scale as int * height as int <= PLANE_MAX as int * width as int,
        ensures
            r.frame == *frame,
            r.pix_width == width - 1,
            r.pix_height == height - 1,
            r.plane_width == scale,
            r.plane_height == (scale as int * height as int) / (width as int),
            r.wf(),
    {
        proof {
            lemma_mul_bound(scale as int, height as int, PLANE_MAX as int, 4096);
            lemma_div_bound_plane(scale as int, height as int, width as int);
        }
        BasicCamera {
            frame: *frame,
            pix_width: width - 1,
            pix_height: height - 1,
            plane_width: scale,
            plane_height: div_fl(muls(scale, height as i128), width as i128),
        }
    }
}

/// The plane height `scale * height / width` stays within `PLANE_MAX`.
proof fn lemma_div_bound_plane(scale: int, height: int, width: int)
    requires
        0 <= scale,
        0 < height,
        0 < width,
        scale * height <= PLANE_MAX as int * width,
    ensures
        0 <= (scale * height) / width <= PLANE_MAX as int,
{
    assert(scale * height >= 0) by (nonlinear_arith)
        requires
            0 <= scale,
            0 < height,
    ;
    vstd::arithmetic::div_mod::lemma_div_pos_is_pos(scale * height, width);
    lemma_div_bound(scale * height, PLANE_MAX as int, width);
}

impl Camera for BasicCamera {
    open spec fn wf(&self) -> bool {
        camera_fields_ok(self.frame@, self.pix_width, self.pix_height, self.plane_width,
            self.plane_height)
    }

    open spec fn size_spec(&self) -> (usize, usize) {
        (((self.pix_width + 1) as usize), ((self.pix_height + 1) as usize))
    }

    open spec fn ray_spec(&self, px: int, py: int) -> Ray4 {
        from_local_flat(
            self.frame@,
            lightray_spec(
                Spat3 {
                    x: screen_offset_spec(px, self.pix_width as int, self.plane_width as int),
                    y: screen_offset_spec(py, self.pix_height as int, self.plane_height as int),
                    z: SCALE as int,
                },
            ),
        )
    }

    fn screen_size(&self) -> (r: (usize, usize)) {
        (self.pix_width + 1, self.pix_height + 1)
    }

    fn ray(&self, pixel: (usize, usize)) -> (r: ManifoldVector) {
        let dx = screen_offset(pixel.0, self.pix_width, self.plane_width);
        let dy = screen_offset(pixel.1, self.pix_height, self.plane_height);
        let dir = SpatialVec { x: dx, y: dy, z: SCALE };
        proof {
            assert(dir@.x * dir@.x >= 0 && dir@.y * dir@.y >= 0 && dir@.z * dir@.z == 4294967296)
                by (nonlinear_arith)
                requires
                    dir@.z == 65536,
            ;
        }
        let local = CarthesianMinkowski::lightray(&dir);
        proof {
            lemma_ray_bounds(self.frame@, local@, 0, 2 * SCALE as int);
        }
        CarthesianMinkowski::from_local(&self.frame, &local)
    }
}

/// Perspective projection with instantaneous (purely spatial) rays.
pub struct InstantCamera {
    pub frame: ManifoldFrame,
    pub pix_width: usize,
    pub pix_height: usize,
    pub plane_width: i128,
    pub plane_height: i128,
}

impl InstantCamera {
    pub fn new(frame: &ManifoldFrame, width: usize, height: usize, scale: i128) -> (r: Self)
        requires
            frame_ok(frame@),
            2 <= width <= 4096,
            2 <= height <= 4096,
            0 <= scale <= PLANE_MAX,
            scale as int * height as int <= PLANE_MAX as int * width as int,
        ensures
            r.frame == *frame,
            r.pix_width == width - 1,
            r.pix_height == height - 1,
            r.plane_width == scale,
            r.plane_height == (scale as int * height as int) / (width as int),
            r.wf(),
    {
        proof {
            lemma_mul_bound(scale as int, height as int, PLANE_MAX as int, 4096);
            lemma_div_bound_plane(scale as int, height as int, width as int);
        }
        InstantCamera {
            frame: *frame,
            pix_width: width - 1,
            pix_height: height - 1,
            plane_width: scale,
            plane_height: div_fl(muls(scale, height as i128), width as i128),
        }
    }
}

impl Camera for InstantCamera {
    open spec fn wf(&self) -> bool {
        camera_fields_ok(self.frame@, self.pix_width, self.pix_height, self.plane_width,
            self.plane_height)
    }

    open spec fn size_spec(&self) -> (usize, usize) {
        (((self.pix_width + 1) as usize), ((self.pix_height + 1) as usize))
    }

    open spec fn ray_spec(&self, px: int, py: int) -> Ray4 {
        from_local_flat(
            self.frame@,
            instantray_spec(
                Spat3 {
                    x: screen_offset_spec(px, self.pix_width as int, self.plane_width as int),
                    y: screen_offset_spec(py, self.pix_height as int, self.plane_height as int),
                    z: SCALE as int,
                },
            ),
        )
    }

    fn screen_size(&self) -> (r: (usize, usize)) {
        (self.pix_width + 1, self.pix_height + 1)
    }

    fn ray(&self, pixel: (usize, usize)) -> (r: ManifoldVector) {
        let dx = screen_offset(pixel.0, self.pix_width, self.plane_width);
        let dy = screen_offset(pixel.1, self.pix_height, self.plane_height);
        let dir = SpatialVec { x: dx, y: dy, z: SCALE };
        proof {
            assert(dir@.x * dir@.x >= 0 && dir@.y * dir@.y >= 0 && dir@.z * dir@.z == 4294967296)
                by (nonlinear_arith)
                requires
                    dir@.z == 65536,
            ;
        }
        let local = CarthesianMinkowski::instantray(&dir);
        proof {
            lemma_ray_bounds(self.frame@, local@, 0, SCALE as int);
        }
        CarthesianMinkowski::from_local(&self.frame, &local)
    }
}

/// Parallel projection with lightlike rays: every ray shares one direction;
/// only the root offset varies with the pixel.
pub struct ParallelRayCamera {
    pub frame: ManifoldFrame,
    pub pix_width: usize,
    pub pix_height: usize,
    pub plane_width: i128,
    pub plane_height: i128,
}

impl ParallelRayCamera {
    pub fn new(frame: &ManifoldFrame, width: usize, height: usize, scale: i128) -> (r: Self)
        requires
            frame_ok(frame@),
            2 <= width <= 4096,
            2 <= height <= 4096,
            0 <= scale <= PLANE_MAX,
            scale as int * height as int <= PLANE_MAX as int * width as int,
        ensures
            r.frame == *frame,
            r.pix_width == width - 1,
            r.pix_height == height - 1,
            r.plane_width == scale,
            r.plane_height == (scale as int * height as int) / (width as int),
            r.wf(),
    {
        proof {
            lemma_mul_bound(scale as int, height as int, PLANE_MAX as int, 4096);
            lemma_div_bound_plane(scale as int, height as int, width as int);
        }
        ParallelRayCamera {
            frame: *frame,
            pix_width: width - 1,
            pix_height: height - 1,
            plane_width: scale,
            plane_height: div_fl(muls(scale, height as i128), width as i128),
        }
    }
}

impl Camera for ParallelRayCamera {
    open spec fn wf(&self) -> bool {
        camera_fields_ok(self.frame@, self.pix_width, self.pix_height, self.plane_width,
            self.plane_height)
    }

    open spec fn size_spec(&self) -> (usize, usize) {
        (((self.pix_width + 1) as usize), ((self.pix_height + 1) as usize))
    }

    open spec fn ray_spec(&self, px: int, py: int) -> Ray4 {
        from_local_flat(
            self.frame@,
            Ray4 {
                root: Vec4 {
                    t: 0,
                    x: screen_offset_spec(px, self.pix_width as int, self.plane_width as int),
                    y: screen_offset_spec(py, self.pix_height as int, self.plane_height as int),
                    z: 0,
                },
                dir: Vec4 { t: -(SCALE as int), x: 0, y: 0, z: SCALE as int },
            },
        )
    }

    fn screen_size(&self) -> (r: (usize, usize)) {
        (self.pix_width + 1, self.pix_height + 1)
    }

    fn ray(&self, pixel: (usize, usize)) -> (r: ManifoldVector) {
        let ox = screen_offset(pixel.0, self.pix_width, self.plane_width);
        let oy = screen_offset(pixel.1, self.pix_height, self.plane_height);
        let local = ManifoldVector {
            root: Coord { components: FourVector { t: 0, x: ox, y: oy, z: 0 } },
            components: FourVector { t: -SCALE, x: 0, y: 0, z: SCALE },
        };
        proof {
            lemma_ray_bounds(self.frame@, local@, 524288, SCALE as int);
        }
        CarthesianMinkowski::from_local(&self.frame, &local)
    }
}

/// Parallel projection with instantaneous rays: an orthographic projection
/// of one spatial slice.
pub struct InstantParallelRayCamera {
    pub frame: ManifoldFrame,
    pub pix_width: usize,
    pub pix_height: usize,
    pub plane_width: i128,
    pub plane_height: i128,
}

impl InstantParallelRayCamera {
    pub fn new(frame: &ManifoldFrame, width: usize, height: usize, scale: i128) -> (r: Self)
        requires
            frame_ok(frame@),
            2 <= width <= 4096,
            2 <= height <= 4096,
            0 <= scale <= PLANE_MAX,
            scale as int * height as int <= PLANE_MAX as int * width as int,
        ensures
            r.frame == *frame,
            r.pix_width == width - 1,
            r.pix_height == height - 1,
            r.plane_width == scale,
            r.plane_height == (scale as int * height as int) / (width as int),
            r.wf(),
    {
        proof {
            lemma_mul_bound(scale as int, height as int, PLANE_MAX as int, 4096);
            lemma_div_bound_plane(scale as int, height as int, width as int);
        }
        InstantParallelRayCamera {
            frame: *frame,
            pix_width: width - 1,
            pix_height: height - 1,
            plane_width: scale,
            plane_height: div_fl(muls(scale, height as i128), width as i128),
        }
    }
}

impl Camera for InstantParallelRayCamera {
    open spec fn wf(&self) -> bool {
        camera_fields_ok(self.frame@, self.pix_width, self.pix_height, self.plane_width,
            self.plane_height)
    }

    open spec fn size_spec(&self) -> (usize, usize) {
        (((self.pix_width + 1) as usize), ((self.pix_height + 1) as usize))
    }

    open spec fn ray_spec(&self, px: int, py: int) -> Ray4 {
        from_local_flat(
            self.frame@,
            Ray4 {
                root: Vec4 {
                    t: 0,
                    x: screen_offset_spec(px, self.pix_width as int, self.plane_width as int),
                    y: screen_offset_spec(py, self.pix_height as int, self.plane_height as int),
                    z: 0,
                },
                dir: Vec4 { t: 0, x: 0, y: 0, z: SCALE as int },
            },
        )
    }

    fn screen_size(&self) -> (r: (usize, usize)) {
        (self.pix_width + 1, self.pix_height + 1)
    }

    fn ray(&self, pixel: (usize, usize)) -> (r: ManifoldVector) {
        let ox = screen_offset(pixel.0, self.pix_width, self.plane_width);
        let oy = screen_offset(pixel.1, self.pix_height, self.plane_height);
        let local = ManifoldVector {
            root: Coord { components: FourVector { t: 0, x: ox, y: oy, z: 0 } },
            components: FourVector { t: 0, x: 0, y: 0, z: SCALE },
        };
        proof {
            lemma_ray_bounds(self.frame@, local@, 524288, SCALE as int);
        }
        CarthesianMinkowski::from_local(&self.frame, &local)
    }
}

} // verus!
