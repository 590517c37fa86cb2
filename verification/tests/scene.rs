use relray::camera::{
    BasicCamera, Camera, InstantParallelRayCamera, ParallelRayCamera,
};
use relray::geometry::{BoundingBox, Coord, FourVector, ManifoldFrame, ManifoldVector};
use relray::num::SCALE;
use relray::objects::{RayIntersector, SphereCollider};
use relray::render::{render_scene, Color};

fn fv(t: i128, x: i128, y: i128, z: i128) -> FourVector {
    FourVector { t, x, y, z }
}

fn coord(t: i128, x: i128, y: i128, z: i128) -> Coord {
    Coord { components: fv(t, x, y, z) }
}

fn rest_frame(root: Coord) -> ManifoldFrame {
    ManifoldFrame {
        root,
        axis0: fv(SCALE, 0, 0, 0),
        axis1: fv(0, SCALE, 0, 0),
        axis2: fv(0, 0, SCALE, 0),
        axis3: fv(0, 0, 0, SCALE),
    }
}

fn boost_frame(root: Coord) -> ManifoldFrame {
    ManifoldFrame {
        root,
        axis0: fv(81920, 0, 0, 49152),
        axis1: fv(0, SCALE, 0, 0),
        axis2: fv(0, 0, SCALE, 0),
        axis3: fv(49152, 0, 0, 81920),
    }
}

/// A unit sphere at rest, centered `z_units` ahead of the origin, present
/// during a generous temporal slab.
fn sphere_ahead(z_units: i128) -> SphereCollider {
    SphereCollider {
        center: rest_frame(coord(0, 0, 0, z_units * SCALE)),
        radius: SCALE,
        time_thickness: 20 * SCALE,
    }
}

fn forward_lightray(root: Coord) -> ManifoldVector {
    ManifoldVector { root, components: fv(-SCALE, 0, 0, SCALE) }
}

const RED: Color = Color { r: 255, g: 0, b: 0 };
const BLACK: Color = Color { r: 0, g: 0, b: 0 };

#[test]
fn ray_through_center_hits() {
    let sphere = sphere_ahead(3);
    // After two unit steps the ray root is at z = 2, within one more step
    // of the sphere surface at z = 2 .. 4.
    let ray = forward_lightray(coord(-2 * SCALE, 0, 0, 2 * SCALE));
    assert!(sphere.intersects(&ray, 2 * SCALE));
}

#[test]
fn ray_far_off_axis_misses() {
    let sphere = sphere_ahead(3);
    // Parallel ray offset 2 units in x: passes at distance 2 > radius 1.
    let ray = ManifoldVector {
        root: coord(0, 2 * SCALE, 0, 0),
        components: fv(-SCALE, 0, 0, SCALE),
    };
    assert!(!sphere.intersects(&ray, 8 * SCALE));
}

#[test]
fn ray_outside_temporal_slab_misses() {
    let sphere = SphereCollider {
        center: rest_frame(coord(0, 0, 0, 3 * SCALE)),
        radius: SCALE,
        time_thickness: SCALE / 2,
    };
    // A purely spatial ray crossing the sphere's location, but rooted at a
    // local time far outside the half-unit slab: no hit.
    let ray = ManifoldVector {
        root: coord(10 * SCALE, 0, 0, 2 * SCALE),
        components: fv(0, 0, 0, SCALE),
    };
    assert!(!sphere.intersects(&ray, 4 * SCALE));
    // The same ray at local time zero crosses inside the slab.
    let ray_now = ManifoldVector {
        root: coord(0, 0, 0, 2 * SCALE),
        components: fv(0, 0, 0, SCALE),
    };
    assert!(sphere.intersects(&ray_now, 4 * SCALE));
}

#[test]
fn sphere_inside_box_is_not_culled() {
    let bbox = BoundingBox {
        lo: fv(-5 * SCALE, -5 * SCALE, -5 * SCALE, -5 * SCALE),
        hi: fv(5 * SCALE, 5 * SCALE, 5 * SCALE, 5 * SCALE),
    };
    // A grid of spheres genuinely intersecting the box: none may be culled.
    for zu in -4..5 {
        for xu in -4..5 {
            let sphere = SphereCollider {
                center: rest_frame(coord(0, xu * SCALE, 0, zu * SCALE)),
                radius: SCALE,
                time_thickness: 20 * SCALE,
            };
            assert!(sphere.in_bounding_box(&bbox), "culled at x={} z={}", xu, zu);
        }
    }
}

#[test]
fn sphere_far_away_is_culled() {
    let bbox = BoundingBox {
        lo: fv(-5 * SCALE, -5 * SCALE, -5 * SCALE, -5 * SCALE),
        hi: fv(5 * SCALE, 5 * SCALE, 5 * SCALE, 5 * SCALE),
    };
    let sphere = SphereCollider {
        center: rest_frame(coord(0, 0, 0, 100 * SCALE)),
        radius: SCALE,
        time_thickness: SCALE,
    };
    assert!(!sphere.in_bounding_box(&bbox));
}

#[test]
fn camera_screen_size_is_exact() {
    let cam = BasicCamera::new(&rest_frame(coord(0, 0, 0, 0)), 3, 3, SCALE);
    assert_eq!(cam.screen_size(), (3, 3));
}

#[test]
fn parallel_camera_center_ray_is_forward() {
    let frame = rest_frame(coord(0, 0, 0, 0));
    let cam = ParallelRayCamera::new(&frame, 3, 3, SCALE);
    let ray = cam.ray((1, 1));
    assert_eq!(ray.root.components, fv(0, 0, 0, 0));
    assert_eq!(ray.components, fv(-SCALE, 0, 0, SCALE));
}

#[test]
fn instant_parallel_camera_ray_is_spatial() {
    let frame = rest_frame(coord(0, 0, 0, 0));
    let cam = InstantParallelRayCamera::new(&frame, 3, 3, SCALE);
    let ray = cam.ray((1, 1));
    assert_eq!(ray.components, fv(0, 0, 0, SCALE));
}

#[test]
fn render_sphere_center_hit_corner_miss() {
    let frame = rest_frame(coord(0, 0, 0, 0));
    let cam = BasicCamera::new(&frame, 3, 3, SCALE);
    let objects = vec![(RED, sphere_ahead(3))];
    let bbox = BoundingBox {
        lo: fv(-6 * SCALE, -5 * SCALE, -5 * SCALE, -5 * SCALE),
        hi: fv(6 * SCALE, 5 * SCALE, 5 * SCALE, 5 * SCALE),
    };
    let img = render_scene(&cam, &objects, &bbox, SCALE, 50);
    assert_eq!(img.len(), 3);
    assert_eq!(img[0].len(), 3);
    // The central pixel looks straight at the sphere.
    assert_eq!(img[1][1], RED);
    // A corner pixel aims far off-axis and leaves the box without a hit.
    assert_eq!(img[0][0], BLACK);
}

#[test]
fn render_is_consistent_under_boost() {
    // The same physical scene seen from a camera at rest and from one
    // boosted along the viewing axis: the on-axis ray hits in both.
    let objects = vec![(RED, sphere_ahead(3))];
    let bbox = BoundingBox {
        lo: fv(-6 * SCALE, -5 * SCALE, -5 * SCALE, -5 * SCALE),
        hi: fv(6 * SCALE, 5 * SCALE, 5 * SCALE, 5 * SCALE),
    };
    let rest_cam = BasicCamera::new(&rest_frame(coord(0, 0, 0, 0)), 3, 3, SCALE);
    let rest_img = render_scene(&rest_cam, &objects, &bbox, SCALE, 50);
    let boost_cam = BasicCamera::new(&boost_frame(coord(0, 0, 0, 0)), 3, 3, SCALE);
    let boost_img = render_scene(&boost_cam, &objects, &bbox, SCALE, 50);
    assert_eq!(rest_img[1][1], RED);
    assert_eq!(boost_img[1][1], RED);
}

#[test]
fn render_empty_scene_is_black() {
    let frame = rest_frame(coord(0, 0, 0, 0));
    let cam = BasicCamera::new(&frame, 2, 2, SCALE);
    let objects: Vec<(Color, SphereCollider)> = Vec::new();
    let bbox = BoundingBox {
        lo: fv(-2 * SCALE, -2 * SCALE, -2 * SCALE, -2 * SCALE),
        hi: fv(2 * SCALE, 2 * SCALE, 2 * SCALE, 2 * SCALE),
    };
    let img = render_scene(&cam, &objects, &bbox, SCALE, 10);
    for row in &img {
        for px in row {
            assert_eq!(*px, BLACK);
        }
    }
}

#[test]
fn sphere_far_in_time_is_culled() {
    let bbox = BoundingBox {
        lo: fv(-5 * SCALE, -5 * SCALE, -5 * SCALE, -5 * SCALE),
        hi: fv(5 * SCALE, 5 * SCALE, 5 * SCALE, 5 * SCALE),
    };
    // Present only around t = 100, far outside the box's time range.
    let sphere = SphereCollider {
        center: rest_frame(coord(100 * SCALE, 0, 0, 0)),
        radius: SCALE,
        time_thickness: SCALE,
    };
    assert!(!sphere.in_bounding_box(&bbox));
}
