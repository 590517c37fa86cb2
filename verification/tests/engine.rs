use relray::geometry::{BoundingBox, Coord, FourVector, ManifoldFrame, ManifoldVector, SpatialVec};
use relray::metric::{CarthesianMinkowski, Metric};
use relray::num::{SCALE, SCALE2};

fn fv(t: i128, x: i128, y: i128, z: i128) -> FourVector {
    FourVector { t, x, y, z }
}

fn coord(t: i128, x: i128, y: i128, z: i128) -> Coord {
    Coord { components: fv(t, x, y, z) }
}

fn mv(root: Coord, dir: FourVector) -> ManifoldVector {
    ManifoldVector { root, components: dir }
}

/// An orthonormal frame at rest: the identity basis scaled to raw units.
fn rest_frame(root: Coord) -> ManifoldFrame {
    ManifoldFrame {
        root,
        axis0: fv(SCALE, 0, 0, 0),
        axis1: fv(0, SCALE, 0, 0),
        axis2: fv(0, 0, SCALE, 0),
        axis3: fv(0, 0, 0, SCALE),
    }
}

/// An exactly orthonormal frame boosted along `z` with `beta = 3/5`,
/// `gamma = 5/4`: `gamma * SCALE = 81920`, `gamma * beta * SCALE = 49152`.
fn boost_frame(root: Coord) -> ManifoldFrame {
    ManifoldFrame {
        root,
        axis0: fv(81920, 0, 0, 49152),
        axis1: fv(0, SCALE, 0, 0),
        axis2: fv(0, 0, SCALE, 0),
        axis3: fv(49152, 0, 0, 81920),
    }
}

#[test]
fn inner_has_minkowski_signature() {
    let root = coord(0, 0, 0, 0);
    let et = fv(SCALE, 0, 0, 0);
    let ez = fv(0, 0, 0, SCALE);
    assert_eq!(CarthesianMinkowski::inner(&root, &et, &et), -SCALE2);
    assert_eq!(CarthesianMinkowski::inner(&root, &ez, &ez), SCALE2);
    assert_eq!(CarthesianMinkowski::inner(&root, &et, &ez), 0);
}

#[test]
fn norm_signs_classify_vectors() {
    let root = coord(0, 0, 0, 0);
    assert!(CarthesianMinkowski::norm(&mv(root, fv(SCALE, 0, 0, 0))) < 0);
    assert!(CarthesianMinkowski::norm(&mv(root, fv(0, SCALE, 0, 0))) > 0);
    assert_eq!(CarthesianMinkowski::norm(&mv(root, fv(SCALE, SCALE, 0, 0))), 0);
}

#[test]
fn lightray_is_null_within_tolerance() {
    // A 3-4-5 direction: spatial length 5 world units.
    let d = SpatialVec { x: 3 * SCALE, y: 4 * SCALE, z: 0 };
    let ray = CarthesianMinkowski::lightray(&d);
    let n = CarthesianMinkowski::norm(&ray);
    assert!(0 <= n && n <= 4 * SCALE, "norm {} out of tolerance", n);
    // The spatial part is unit length up to truncation and the time
    // component is minus that length.
    assert!(ray.components.t < 0);
    assert_eq!(ray.root.components, fv(0, 0, 0, 0));
}

#[test]
fn lightray_axis_aligned_is_exact() {
    let d = SpatialVec { x: 0, y: 0, z: 2 * SCALE };
    let ray = CarthesianMinkowski::lightray(&d);
    assert_eq!(ray.components, fv(-SCALE, 0, 0, SCALE));
    assert_eq!(CarthesianMinkowski::norm(&ray), 0);
}

#[test]
fn instantray_has_unit_norm() {
    let d = SpatialVec { x: 2 * SCALE, y: 0, z: 0 };
    let ray = CarthesianMinkowski::instantray(&d);
    assert_eq!(ray.components, fv(0, SCALE, 0, 0));
    assert_eq!(CarthesianMinkowski::norm(&ray), SCALE2);

    let d2 = SpatialVec { x: SCALE, y: SCALE, z: SCALE };
    let n2 = CarthesianMinkowski::norm(&CarthesianMinkowski::instantray(&d2));
    assert!((n2 - SCALE2).abs() <= 8 * SCALE + 3, "norm {} too far from unit", n2);
}

#[test]
fn step_geodesic_advances_root_linearly() {
    let ray = mv(coord(0, 0, 0, 0), fv(-SCALE, 0, 0, SCALE));
    let stepped = CarthesianMinkowski::step_geodesic(&ray, SCALE);
    assert_eq!(stepped.root.components, fv(-SCALE, 0, 0, SCALE));
    assert_eq!(stepped.components, ray.components);
}

#[test]
fn step_geodesic_composes_additively() {
    let ray = mv(coord(123, 456, 789, 0), fv(-SCALE, 0, 2 * SCALE, SCALE));
    let a: i128 = 32768;
    let b: i128 = 16384;
    let two = CarthesianMinkowski::step_geodesic(&CarthesianMinkowski::step_geodesic(&ray, a), b);
    let one = CarthesianMinkowski::step_geodesic(&ray, a + b);
    assert_eq!(two.root.components, one.root.components);
    assert_eq!(two.components, one.components);
}

#[test]
fn bounding_box_contains_tests_all_axes() {
    let bbox = BoundingBox { lo: fv(-SCALE, -SCALE, -SCALE, -SCALE), hi: fv(SCALE, SCALE, SCALE, SCALE) };
    assert!(bbox.contains(&coord(0, 0, 0, 0)));
    assert!(bbox.contains(&coord(SCALE, -SCALE, 0, SCALE)));
    assert!(!bbox.contains(&coord(0, 0, 0, SCALE + 1)));
    assert!(!bbox.contains(&coord(-SCALE - 1, 0, 0, 0)));
}

#[test]
fn rest_and_boost_frames_are_normal() {
    assert!(rest_frame(coord(0, 0, 0, 0)).normal());
    assert!(boost_frame(coord(0, 0, 0, 0)).normal());
}

#[test]
fn skewed_frame_is_not_normal() {
    let mut f = rest_frame(coord(0, 0, 0, 0));
    f.axis1 = fv(0, SCALE, SCALE, 0);
    assert!(!f.normal());
}

#[test]
fn normalize_orthogonalizes_a_skewed_frame() {
    let f = ManifoldFrame {
        root: coord(0, 0, 0, 0),
        axis0: fv(2 * SCALE, 0, 0, 0),
        axis1: fv(SCALE, SCALE, 0, 0),
        axis2: fv(0, 0, SCALE, 0),
        axis3: fv(0, 0, 0, SCALE),
    };
    let g = f.normalize();
    assert_eq!(g.axis0, fv(SCALE, 0, 0, 0));
    assert_eq!(g.axis1, fv(0, SCALE, 0, 0));
    assert_eq!(g.axis2, fv(0, 0, SCALE, 0));
    assert_eq!(g.axis3, fv(0, 0, 0, SCALE));
    assert!(g.normal());
}

#[test]
fn normalize_keeps_a_normal_frame() {
    let f = boost_frame(coord(0, 0, 0, 0));
    let g = f.normalize();
    assert_eq!(g.axis0, f.axis0);
    assert_eq!(g.axis1, f.axis1);
    assert_eq!(g.axis2, f.axis2);
    assert_eq!(g.axis3, f.axis3);
}

#[test]
fn local_roundtrip_through_rest_frame() {
    let frame = rest_frame(coord(7 * SCALE, 0, -3 * SCALE, 0));
    let v = mv(coord(0, 0, 0, 0), fv(4, -8, 12, -16));
    let lifted = CarthesianMinkowski::from_local(&frame, &v);
    let back = CarthesianMinkowski::into_local(&frame, &lifted);
    assert_eq!(back.components, v.components);
    assert_eq!(back.root.components, v.root.components);
}

#[test]
fn local_roundtrip_through_boost_frame() {
    let frame = boost_frame(coord(0, 0, 0, 0));
    // Components divisible by 4 keep every axis combination on the grid.
    let v = mv(coord(4, 8, -12, 16), fv(-4, 0, 20, 400));
    let lifted = CarthesianMinkowski::from_local(&frame, &v);
    let back = CarthesianMinkowski::into_local(&frame, &lifted);
    assert_eq!(back.components, v.components);
    assert_eq!(back.root.components, v.root.components);
}

#[test]
fn from_local_lifts_through_boost() {
    let frame = boost_frame(coord(0, 0, 0, 0));
    // The local forward lightray (-1, 0, 0, 1) becomes (-gamma(1-beta),
    // 0, 0, gamma(1-beta)) = (-1/2, 0, 0, 1/2) under the 3/5 boost.
    let v = mv(coord(0, 0, 0, 0), fv(-SCALE, 0, 0, SCALE));
    let lifted = CarthesianMinkowski::from_local(&frame, &v);
    assert_eq!(lifted.components, fv(-SCALE / 2, 0, 0, SCALE / 2));
}

#[test]
fn normal_tolerates_small_numerical_error() {
    // An axis one raw unit long of unit length: squared-norm error
    // 2 * SCALE + 1, within the engine tolerance of 4 * SCALE.
    let mut f = rest_frame(coord(0, 0, 0, 0));
    f.axis1 = fv(0, SCALE + 1, 0, 0);
    assert!(f.normal());
    // An error of about 8 * SCALE is outside the tolerance.
    f.axis1 = fv(0, SCALE + 4, 0, 0);
    assert!(!f.normal());
}
