use tinyray::fx::SCALE;
use tinyray::vec3::{Pixel, Vec3};

fn units(x: i64, y: i64, z: i64) -> Vec3 {
    Vec3 { x: x * SCALE, y: y * SCALE, z: z * SCALE }
}

#[test]
fn dot_of_whole_units() {
    let a = units(1, 2, 3);
    let b = units(4, 5, 6);
    assert_eq!(a.dot(&b), 32 * SCALE);
}

#[test]
fn add_sub_scale_neg() {
    let a = units(1, 2, 3);
    let b = units(4, 5, 6);
    assert_eq!(a.add(&b), units(5, 7, 9));
    assert_eq!(b.sub(&a), units(3, 3, 3));
    assert_eq!(a.mul(2 * SCALE), units(2, 4, 6));
    assert_eq!(a.neg(), units(-1, -2, -3));
}

#[test]
fn norm_of_pythagorean_triple() {
    assert_eq!(units(3, 4, 0).norm(), 5 * SCALE);
    assert_eq!(units(0, 0, 0).norm(), 0);
}

#[test]
fn normalize_exact_and_truncated() {
    // an axis vector normalizes to exactly one unit
    assert_eq!(units(0, 0, -7).normalize(), units(0, 0, -1));
    // (0, 3, 4) has length 5: components 3/5 and 4/5, truncated
    let n = units(0, 3, 4).normalize();
    assert_eq!(n, Vec3 { x: 0, y: 39321, z: 52428 });
}

#[test]
fn normalize_zero_is_sentinel() {
    let z = Vec3 { x: 0, y: 0, z: 0 };
    assert_eq!(z.normalize(), z);
}

#[test]
fn reflect_across_surface() {
    // a 45-degree incoming ray mirrors about the upward normal
    let v = units(1, -1, 0);
    let n = units(0, 1, 0);
    assert_eq!(v.reflect(&n), units(1, 1, 0));
}

#[test]
fn refract_straight_on_passes_through() {
    // head-on incidence bends nothing, whatever the index
    let v = units(0, 0, -1);
    let n = units(0, 0, 1);
    let glass = 3 * SCALE / 2;
    assert_eq!(v.refract(n, glass), units(0, 0, -1));
}

#[test]
fn refract_total_internal_reflection() {
    // leaving a dense medium at a shallow angle: no transmitted ray,
    // answered by the zero-vector sentinel
    let v = Vec3 { x: 52428, y: 39321, z: 0 };
    let n = units(0, 1, 0);
    let glass = 3 * SCALE / 2;
    assert_eq!(v.refract(n, glass), Vec3 { x: 0, y: 0, z: 0 });
}

#[test]
fn pixel_vector_round_trip() {
    let p = Pixel { r: 1, g: 2, b: 3 };
    assert_eq!(p.to_vec3(), Vec3 { x: 1, y: 2, z: 3 });
    assert_eq!(p.to_vec3().to_pixel(), p);
}
