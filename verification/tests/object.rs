use ray_rust::flags::{BIGNORE, INONLY, OUTONLY};
use ray_rust::material::{RenderColor, RenderMaterial};
use ray_rust::object::{
    RenderFloor, RenderFloorSerial, RenderObject, RenderObjectSerial, RenderSphere, RenderSphereSerial,
};
use ray_rust::registry::MaterialRegistry;
use ray_rust::scalar::Scalar;
use ray_rust::vec3::Vec3;

fn s(v: f32) -> Scalar {
    Scalar::from_bits(v.to_bits())
}

fn v(x: f32, y: f32, z: f32) -> Vec3 {
    Vec3::new(s(x), s(y), s(z))
}

const INF: f32 = f32::INFINITY;

/// The discriminant and the two roots of a ray and a sphere, as the
/// renderer computes them.
fn roots(origin: [f32; 3], dir: [f32; 3], center: [f32; 3], r: f32) -> (f32, f32, f32) {
    let wpt = [origin[0] - center[0], origin[1] - center[1], origin[2] - center[2]];
    let dot = |a: [f32; 3], b: [f32; 3]| a[0] * b[0] + a[1] * b[1] + a[2] * b[2];
    let b = 2.0f32 * dot(dir, wpt);
    let c = dot(wpt, wpt) - r * r;
    let d2 = b * b - 4.0f32 * c;
    let d = d2.sqrt();
    let t0 = (-b - d) / 2.0f32;
    (d2, t0, t0 + d)
}

fn sphere(d2: f32, t0: f32, t1: f32, len: f32, flags: u32) -> f32 {
    f32::from_bits(RenderSphere::raycast(s(d2), s(t0), s(t1), s(len), flags).to_bits())
}

fn floor(w: f32, t0: f32, len: f32) -> f32 {
    f32::from_bits(RenderFloor::raycast(s(w), s(t0), s(len)).to_bits())
}

#[test]
fn a_sphere_ahead_is_met_at_its_near_root() {
    assert_eq!(sphere(4.0, 3.0, 5.0, INF, 0), 3.0);
    assert_eq!(sphere(4.0, 0.0, 2.0, INF, 0), 0.0);
    assert_eq!(sphere(4.0, 3.0, 5.0, 100.0, BIGNORE), 3.0);
}

#[test]
fn a_ray_from_inside_a_sphere_meets_the_far_root() {
    assert_eq!(sphere(4.0, -1.0, 1.0, INF, 0), 1.0);
    assert_eq!(sphere(4.0, -3.0, 0.5, INF, 0), 0.5);
}

#[test]
fn outonly_rejects_the_near_root() {
    assert_eq!(sphere(4.0, 3.0, 5.0, INF, OUTONLY), 5.0);
    assert_eq!(sphere(4.0, 3.0, 5.0, 4.0, OUTONLY), 4.0);
}

#[test]
fn inonly_rejects_the_far_root() {
    assert_eq!(sphere(4.0, -1.0, 1.0, INF, INONLY), INF);
    assert_eq!(sphere(4.0, 3.0, 5.0, INF, INONLY), 3.0);
    assert_eq!(sphere(4.0, 3.0, 5.0, INF, INONLY | OUTONLY), INF);
}

#[test]
fn a_root_beyond_the_ray_length_hands_the_length_back() {
    assert_eq!(sphere(4.0, 3.0, 5.0, 3.0, 0), 3.0);
    assert_eq!(sphere(4.0, 3.0, 5.0, 2.0, 0), 2.0);
    assert_eq!(sphere(4.0, -1.0, 7.0, 6.5, 0), 6.5);
    assert_eq!(sphere(4.0, 3.0, 5.0, 3.5, 0), 3.0);
}

#[test]
fn a_sphere_behind_the_origin_is_missed() {
    assert_eq!(sphere(4.0, -5.0, -3.0, INF, 0), INF);
    assert_eq!(sphere(4.0, -5.0, 0.0, 17.0, 0), 17.0);
    assert_eq!(sphere(4.0, -5.0, -0.0, 17.0, 0), 17.0);
}

#[test]
fn a_discriminant_below_the_machine_epsilon_is_no_hit() {
    assert_eq!(sphere(0.0, 3.0, 3.0, INF, 0), INF);
    assert_eq!(sphere(-4.0, f32::NAN, f32::NAN, INF, 0), INF);
    assert_eq!(sphere(f32::EPSILON / 2.0, 3.0, 3.0, 9.0, 0), 9.0);
    assert_eq!(sphere(f32::EPSILON, 3.0, 3.0, 9.0, 0), 3.0);
    assert_eq!(sphere(f32::NAN, 3.0, 3.0, 9.0, 0), 9.0);
}

#[test]
fn a_root_that_is_no_number_is_passed_over() {
    assert_eq!(sphere(4.0, f32::NAN, 5.0, INF, 0), 5.0);
    assert_eq!(sphere(4.0, 3.0, f32::NAN, INF, OUTONLY), INF);
    assert_eq!(sphere(4.0, f32::NAN, f32::NAN, 8.0, 0), 8.0);
}

#[test]
fn a_ray_from_the_centre_leaves_a_sphere_at_its_radius() {
    let center = [3.0f32, -30.0, 172.0];
    let directions: [[f32; 3]; 7] = [
        [1.0, 0.0, 0.0],
        [0.0, 1.0, 0.0],
        [0.0, 0.0, -1.0],
        [0.6, 0.8, 0.0],
        [0.0, -0.6, 0.8],
        [0.57735026, 0.57735026, 0.57735026],
        [-0.26726124, 0.5345225, -0.8017837],
    ];
    for r in [0.5f32, 1.0, 80.0, 1234.5] {
        for dir in directions {
            let (d2, t0, t1) = roots(center, dir, center, r);
            let t = sphere(d2, t0, t1, INF, OUTONLY);
            assert!((t - r).abs() <= r * 1.0e-5, "radius {} direction {:?}: {}", r, dir, t);
            // Without the flag the same ray meets the same root: the near
            // one lies behind the centre.
            assert_eq!(sphere(d2, t0, t1, INF, 0), t);
        }
    }
}

#[test]
fn a_floor_is_met_from_the_side_that_its_normal_faces() {
    assert_eq!(floor(-0.5, 10.0, INF), 10.0);
    assert_eq!(floor(-1.0, 0.0, INF), 0.0);
    assert_eq!(floor(0.5, 10.0, INF), INF);
    assert_eq!(floor(0.5, 10.0, 99.0), 99.0);
}

#[test]
fn a_floor_behind_or_beyond_is_missed() {
    assert_eq!(floor(-0.5, -10.0, INF), INF);
    assert_eq!(floor(-0.5, 10.0, 10.0), 10.0);
    assert_eq!(floor(-0.5, 10.0, 5.0), 5.0);
    assert_eq!(floor(-0.5, 10.0, 10.5), 10.0);
}

#[test]
fn a_ray_along_the_floor_does_not_meet_it() {
    // The quotient by a cosine of zero is infinite or no number.
    assert_eq!(floor(0.0, INF, INF), INF);
    assert_eq!(floor(0.0, -INF, INF), INF);
    assert_eq!(floor(0.0, f32::NAN, INF), INF);
    assert_eq!(floor(-0.0, INF, 50.0), 50.0);
    assert_eq!(floor(f32::NAN, 1.0, 50.0), 50.0);
}

#[test]
fn constructors_make_the_object_they_are_given() {
    let sphere = RenderSphere::new(2, s(80.0), v(0.0, -30.0, 172.0));
    assert_eq!(
        sphere,
        RenderObject::Sphere(RenderSphere { material: 2, r: s(80.0), org: v(0.0, -30.0, 172.0) })
    );
    assert_eq!(sphere.material(), 2);
    let floor = RenderFloor::new(0, v(0.0, -300.0, 0.0), v(0.0, 1.0, 0.0));
    assert_eq!(
        floor,
        RenderObject::Floor(RenderFloor {
            material: 0,
            org: v(0.0, -300.0, 0.0),
            face_normal: v(0.0, 1.0, 0.0)
        })
    );
    assert_eq!(floor.material(), 0);
}

fn registry() -> MaterialRegistry {
    let grey = RenderColor::new(s(0.5), s(0.5), s(0.5));
    let mut r = MaterialRegistry::new();
    r.insert(RenderMaterial::new("floor".to_string(), grey, grey, 0, s(0.0), s(1.0)));
    r.insert(RenderMaterial::new("mirror".to_string(), grey, grey, 24, s(0.0), s(1.0)));
    r
}

#[test]
fn a_stored_object_carries_the_name_of_its_material() {
    let r = registry();
    match RenderSphere::new(1, s(80.0), v(1.0, 2.0, 3.0)).serialize(&r) {
        RenderObjectSerial::Sphere(stored) => {
            assert_eq!(stored.material, "mirror");
            assert_eq!(stored.r, s(80.0));
            assert_eq!(stored.org, v(1.0, 2.0, 3.0));
        }
        other => panic!("a sphere was stored as {:?}", other),
    }
    match RenderFloor::new(0, v(0.0, -300.0, 0.0), v(0.0, 1.0, 0.0)).serialize(&r) {
        RenderObjectSerial::Floor(stored) => {
            assert_eq!(stored.material, "floor");
            assert_eq!(stored.org, v(0.0, -300.0, 0.0));
            assert_eq!(stored.face_normal, v(0.0, 1.0, 0.0));
        }
        other => panic!("a floor was stored as {:?}", other),
    }
}

#[test]
fn a_stored_object_is_read_against_the_registry() {
    let r = registry();
    let stored = RenderSphereSerial { material: "mirror".to_string(), r: s(80.0), org: v(1.0, 2.0, 3.0) };
    assert_eq!(
        RenderSphere::deserialize(&r, &stored).ok(),
        Some(RenderSphere::new(1, s(80.0), v(1.0, 2.0, 3.0)))
    );
    let stored = RenderFloorSerial {
        material: "floor".to_string(),
        org: v(0.0, -300.0, 0.0),
        face_normal: v(0.0, 1.0, 0.0),
    };
    assert_eq!(
        RenderObject::deserialize(&r, &RenderObjectSerial::Floor(stored)).ok(),
        Some(RenderFloor::new(0, v(0.0, -300.0, 0.0), v(0.0, 1.0, 0.0)))
    );
}

#[test]
fn an_unknown_material_is_an_error_that_names_it() {
    let r = registry();
    let stored = RenderSphereSerial { material: "glass".to_string(), r: s(80.0), org: v(1.0, 2.0, 3.0) };
    match RenderSphere::deserialize(&r, &stored) {
        Err(e) => assert_eq!(e.s, "RenderSphere couldn't find material glass"),
        Ok(o) => panic!("read {:?}", o),
    }
    let stored = RenderFloorSerial {
        material: "".to_string(),
        org: v(0.0, -300.0, 0.0),
        face_normal: v(0.0, 1.0, 0.0),
    };
    match RenderFloor::deserialize(&r, &stored) {
        Err(e) => assert_eq!(e.s, "RenderFloor couldn't find material "),
        Ok(o) => panic!("read {:?}", o),
    }
}
