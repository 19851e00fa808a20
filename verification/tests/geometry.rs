use tinyray::fx::SCALE;
use tinyray::scene::{scene_intersect, Albedo, Light, Material, Sphere};
use tinyray::vec3::Vec3;

fn units(x: i64, y: i64, z: i64) -> Vec3 {
    Vec3 { x: x * SCALE, y: y * SCALE, z: z * SCALE }
}

fn matte(r: i64, g: i64, b: i64) -> Material {
    Material {
        diffuse_color: Vec3 { x: r, y: g, z: b },
        albedo: Albedo { diffuse: SCALE, specular: 0, reflect: 0, refract: 0 },
        specular_exponent: 1,
        refractive_index: SCALE,
    }
}

#[test]
fn ray_at_center_hits_at_distance_minus_radius() {
    // aimed straight at the center from 10 units away, radius 2:
    // the hit is at exactly 10 - 2 = 8 units
    let sphere = Sphere { center: units(0, 0, -10), radius: 2 * SCALE, material: matte(1, 1, 1) };
    let orig = units(0, 0, 0);
    let dir = units(0, 0, -1);
    assert_eq!(sphere.ray_intersect(&orig, &dir), Some(8 * SCALE));
}

#[test]
fn ray_misses_off_axis_sphere() {
    let sphere = Sphere { center: units(0, 5, -10), radius: SCALE, material: matte(1, 1, 1) };
    let orig = units(0, 0, 0);
    let dir = units(0, 0, -1);
    assert_eq!(sphere.ray_intersect(&orig, &dir), None);
}

#[test]
fn ray_ignores_sphere_behind() {
    let sphere = Sphere { center: units(0, 0, 10), radius: SCALE, material: matte(1, 1, 1) };
    let orig = units(0, 0, 0);
    let dir = units(0, 0, -1);
    assert_eq!(sphere.ray_intersect(&orig, &dir), None);
}

#[test]
fn ray_inside_sphere_takes_far_root() {
    // origin inside: the near root is behind, the far one ahead at 3 units
    let sphere = Sphere { center: units(0, 0, -1), radius: 2 * SCALE, material: matte(1, 1, 1) };
    let orig = units(0, 0, 0);
    let dir = units(0, 0, -1);
    assert_eq!(sphere.ray_intersect(&orig, &dir), Some(3 * SCALE));
}

#[test]
fn nearest_hit_independent_of_order() {
    let near = Sphere { center: units(0, 0, -10), radius: SCALE, material: matte(10, 20, 30) };
    let far = Sphere { center: units(0, 0, -20), radius: SCALE, material: matte(40, 50, 60) };
    let orig = units(0, 0, 0);
    let dir = units(0, 0, -1);

    let one = scene_intersect(&orig, &dir, &vec![near, far]);
    let two = scene_intersect(&orig, &dir, &vec![far, near]);
    assert_eq!(one, two);

    let (hit, normal, material) = one.expect("the ray faces both spheres");
    assert_eq!(hit, units(0, 0, -9));
    assert_eq!(normal, units(0, 0, 1));
    assert_eq!(material, near.material);
}

#[test]
fn equal_distance_tie_keeps_first() {
    // two spheres with the same geometry hit at the same distance; the
    // strictly-nearer comparison keeps whichever comes first
    let red = Sphere { center: units(0, 0, -10), radius: SCALE, material: matte(1, 0, 0) };
    let blue = Sphere { center: units(0, 0, -10), radius: SCALE, material: matte(0, 0, 1) };
    let orig = units(0, 0, 0);
    let dir = units(0, 0, -1);
    let (_, _, first) = scene_intersect(&orig, &dir, &vec![red, blue]).unwrap();
    assert_eq!(first, red.material);
    let (_, _, second) = scene_intersect(&orig, &dir, &vec![blue, red]).unwrap();
    assert_eq!(second, blue.material);
}

#[test]
fn empty_scene_has_no_hit() {
    let orig = units(0, 0, 0);
    let dir = units(0, 0, -1);
    assert_eq!(scene_intersect(&orig, &dir, &vec![]), None);
}

#[test]
fn lights_are_plain_data() {
    let light = Light { position: units(1, 2, 3), intensity: 2 * SCALE };
    assert_eq!(light.position, units(1, 2, 3));
    assert_eq!(light.intensity, 2 * SCALE);
}
