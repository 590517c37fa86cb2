//! The renderer: march every pixel's ray through the scene.
//!
//! For each pixel the camera's ray is advanced by fixed geodesic steps while
//! its root stays inside the bounding box; after each step it is tested
//! against every object in list order, and the first hit yields that
//! object's color.  A ray that leaves the box, or exhausts the step
//! ceiling, yields background black.

use crate::camera::Camera;
use crate::geometry::{bounded4, box_contains, BoundingBox, Box4, ManifoldVector, Ray4};
use crate::metric::{lemma_step_growth, step_flat, CarthesianMinkowski, Metric};
use crate::num::{POINT_MAX, RAY_DIR_MAX, RAY_ROOT_MAX, STEP_MAX};
use crate::objects::RayIntersector;
use vstd::prelude::*;

verus! {

/// An 8-bit RGB color.
#[derive(Clone, Copy, Debug, PartialEq, Eq, Structural)]
pub struct Color {
    pub r: u8,
    pub g: u8,
    pub b: u8,
}

/// The background color.
pub open spec fn black() -> Color {
    Color { r: 0, g: 0, b: 0 }
}

/// The color of the first object from index `i` on that the ray hits, in
/// list order.
pub open spec fn first_hit<O: RayIntersector>(
    objs: Seq<(Color, O)>,
    ray: Ray4,
    step: int,
    i: int,
) -> Option<Color>
    decreases objs.len() - i,
{
    if i < 0 || i >= objs.len() {
        Option::None
    } else if objs[i].1.hit_spec(ray, step) {
        Option::Some(objs[i].0)
    } else {
        first_hit(objs, ray, step, i + 1)
    }
}

/// The color a marched ray produces: while the root lies in the box and
/// fuel remains, advance one step and take the first hit; otherwise black.
pub open spec fn march<O: RayIntersector>(
    objs: Seq<(Color, O)>,
    bounds: Box4,
    ray: Ray4,
    step: int,
    fuel: nat,
) -> Color
    decreases fuel,
{
    if fuel == 0 {
        black()
    } else if !box_contains(bounds, ray.root) {
        black()
    } else {
        let advanced = step_flat(ray, step);
        match first_hit(objs, advanced, step, 0) {
            Option::Some(c) => c,
            Option::None => march(objs, bounds, advanced, step, (fuel - 1) as nat),
        }
    }
}

/// The first object the advanced ray hits, in list order.
fn first_hit_exec<O: RayIntersector>(
    objects: &Vec<(Color, O)>,
    ray: &ManifoldVector,
    step: i128,
) -> (r: Option<Color>)
    requires
        forall|i: int| 0 <= i < objects@.len() ==> (#[trigger] objects@[i]).1.wf(),
        bounded4(ray@.root, RAY_ROOT_MAX as int),
        bounded4(ray@.dir, RAY_DIR_MAX as int),
        0 <= step <= STEP_MAX,
    ensures
        r == first_hit(objects@, ray@, step as int, 0),
{
    let mut i: usize = 0;
    while i < objects.len()
        invariant
            0 <= i <= objects@.len(),
            forall|j: int| 0 <= j < objects@.len() ==> (#[trigger] objects@[j]).1.wf(),
            bounded4(ray@.root, RAY_ROOT_MAX as int),
            bounded4(ray@.dir, RAY_DIR_MAX as int),
            0 <= step <= STEP_MAX,
            first_hit(objects@, ray@, step as int, 0) == first_hit(
                objects@,
                ray@,
                step as int,
                i as int,
            ),
        decreases objects@.len() - i,
    {
        if objects[i].1.intersects(ray, step) {
            return Option::Some(objects[i].0);
        }
        i = i + 1;
    }
    Option::None
}

/// March one ray until it leaves the box, hits an object, or exhausts the
/// step ceiling.
fn march_ray<O: RayIntersector>(
    objects: &Vec<(Color, O)>,
    bounds: &BoundingBox,
    start: &ManifoldVector,
    step: i128,
    max_steps: usize,
) -> (c: Color)
    requires
        forall|i: int| 0 <= i < objects@.len() ==> (#[trigger] objects@[i]).1.wf(),
        bounded4(bounds@.lo, POINT_MAX as int),
        bounded4(bounds@.hi, POINT_MAX as int),
        bounded4(start@.root, POINT_MAX as int),
        bounded4(start@.dir, RAY_DIR_MAX as int),
        0 <= step <= STEP_MAX,
    ensures
        c == march(objects@, bounds@, start@, step as int, max_steps as nat),
{
    let mut ray: ManifoldVector = *start;
    let mut fuel: usize = max_steps;
    while fuel > 0 && bounds.contains(&ray.root)
        invariant
            forall|i: int| 0 <= i < objects@.len() ==> (#[trigger] objects@[i]).1.wf(),
            bounded4(bounds@.lo, POINT_MAX as int),
            bounded4(bounds@.hi, POINT_MAX as int),
            bounded4(ray@.dir, RAY_DIR_MAX as int),
            0 <= step <= STEP_MAX,
            march(objects@, bounds@, start@, step as int, max_steps as nat) == march(
                objects@,
                bounds@,
                ray@,
                step as int,
                fuel as nat,
            ),
        decreases fuel,
    {
        proof {
            lemma_step_growth(ray@, step as int);
        }
        let next = CarthesianMinkowski::step_geodesic(&ray, step);
        match first_hit_exec(objects, &next, step) {
            Option::Some(c) => {
                return c;
            },
            Option::None => {},
        }
        ray = next;
        fuel = fuel - 1;
    }
    Color { r: 0, g: 0, b: 0 }
}

/// Render the scene: for every pixel of the camera's grid, march its ray
/// and record the resulting color.  Row `y` of the result holds the pixel
/// at `(x, y)` at index `x`.
pub fn render_scene<C: Camera, O: RayIntersector>(
    camera: &C,
    objects: &Vec<(Color, O)>,
    bounds: &BoundingBox,
    step: i128,
    max_steps: usize,
) -> (img: Vec<Vec<Color>>)
    requires
        camera.wf(),
        forall|i: int| 0 <= i < objects@.len() ==> (#[trigger] objects@[i]).1.wf(),
        bounded4(bounds@.lo, POINT_MAX as int),
        bounded4(bounds@.hi, POINT_MAX as int),
        0 <= step <= STEP_MAX,
    ensures
        img@.len() == camera.size_spec().1,
        forall|y: int| 0 <= y < img@.len() ==> (#[trigger] img@[y])@.len() == camera.size_spec().0,
        forall|y: int, x: int|
            0 <= y < img@.len() && 0 <= x < img@[y]@.len() ==> #[trigger] img@[y]@[x] == march(
                objects@,
                bounds@,
                camera.ray_spec(x, y),
                step as int,
                max_steps as nat,
            ),
{
    let (width, height) = camera.screen_size();
    let mut img: Vec<Vec<Color>> = Vec::new();
    let mut y: usize = 0;
    while y < height
        invariant
            y <= height,
            img@.len() == y,
            (width, height) == camera.size_spec(),
            camera.wf(),
            forall|i: int| 0 <= i < objects@.len() ==> (#[trigger] objects@[i]).1.wf(),
            bounded4(bounds@.lo, POINT_MAX as int),
            bounded4(bounds@.hi, POINT_MAX as int),
            0 <= step <= STEP_MAX,
            forall|yy: int| 0 <= yy < y ==> (#[trigger] img@[yy])@.len() == width,
            forall|yy: int, xx: int|
                0 <= yy < y && 0 <= xx < width ==> #[trigger] img@[yy]@[xx] == march(
                    objects@,
                    bounds@,
                    camera.ray_spec(xx, yy),
                    step as int,
                    max_steps as nat,
                ),
        decreases height - y,
    {
        let mut row: Vec<Color> = Vec::new();
        let mut x: usize = 0;
        while x < width
            invariant
                x <= width,
                y < height,
                row@.len() == x,
                (width, height) == camera.size_spec(),
                camera.wf(),
                forall|i: int| 0 <= i < objects@.len() ==> (#[trigger] objects@[i]).1.wf(),
                bounded4(bounds@.lo, POINT_MAX as int),
                bounded4(bounds@.hi, POINT_MAX as int),
                0 <= step <= STEP_MAX,
                forall|xx: int|
                    0 <= xx < x ==> #[trigger] row@[xx] == march(
                        objects@,
                        bounds@,
                        camera.ray_spec(xx, y as int),
                        step as int,
                        max_steps as nat,
                    ),
            decreases width - x,
        {
            let r0 = camera.ray((x, y));
            let c = march_ray(objects, bounds, &r0, step, max_steps);
            row.push(c);
            x = x + 1;
        }
        img.push(row);
        y = y + 1;
    }
    img
}

} // verus!
