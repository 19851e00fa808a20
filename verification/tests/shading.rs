use tinyray::fx::SCALE;
use tinyray::scene::{Albedo, Light, Material, Sphere};
use tinyray::shade::{background, cast_ray, cast_ray_limited};
use tinyray::vec3::{Pixel, Vec3};

fn units(x: i64, y: i64, z: i64) -> Vec3 {
    Vec3 { x: x * SCALE, y: y * SCALE, z: z * SCALE }
}

fn white_matte(exponent: u32) -> Material {
    Material {
        diffuse_color: units(1, 1, 1),
        albedo: Albedo { diffuse: SCALE, specular: 0, reflect: 0, refract: 0 },
        specular_exponent: exponent,
        refractive_index: SCALE,
    }
}

/// A diffuse unit sphere ten units down the axis, its front face at
/// (0, 0, -9), which the test rays hit head on.
fn front_sphere() -> Sphere {
    Sphere { center: units(0, 0, -10), radius: SCALE, material: white_matte(1) }
}

#[test]
fn missing_everything_gives_background_at_any_depth() {
    let spheres = vec![front_sphere()];
    let lights = vec![Light { position: units(0, 10, 0), intensity: SCALE }];
    let orig = units(0, 0, 0);
    let away = units(0, 0, 1);
    assert_eq!(cast_ray(0, &orig, &away, &spheres, &lights), background());
    assert_eq!(cast_ray(2, &orig, &away, &spheres, &lights), background());
    assert_eq!(cast_ray_limited(9, 5, &orig, &away, &spheres, &lights), background());
}

#[test]
fn depth_past_budget_is_background_even_facing_a_sphere() {
    let spheres = vec![front_sphere()];
    let lights = vec![Light { position: units(0, 0, 0), intensity: SCALE }];
    let orig = units(0, 0, 0);
    let dir = units(0, 0, -1);
    // the default budget is 2: depth 3 answers the background at once
    assert_eq!(cast_ray(3, &orig, &dir, &spheres, &lights), background());
    assert_ne!(cast_ray(0, &orig, &dir, &spheres, &lights), background());
}

#[test]
fn background_color_bytes() {
    assert_eq!(background(), Pixel { r: 13107, g: 45875, b: 52429 });
}

/// A light up and behind the hit point, with clear line of sight: its
/// direction from the hit (0, 0, -9) is (0, 4, 3) / 5, so the diffuse
/// cosine is 3/5 of a unit, truncated to 39321 steps.
fn clear_light() -> Light {
    Light { position: units(0, 4, -6), intensity: SCALE }
}

#[test]
fn clear_light_contributes_cosine_times_intensity() {
    let spheres = vec![front_sphere()];
    let lights = vec![clear_light()];
    let orig = units(0, 0, 0);
    let dir = units(0, 0, -1);
    let color = cast_ray(0, &orig, &dir, &spheres, &lights);
    // dli == intensity * max(0, cos) == 39321; the white diffuse color
    // times dli * albedo.diffuse leaves exactly that in each channel
    assert_eq!(color, Pixel { r: 39321, g: 39321, b: 39321 });
}

#[test]
fn occluded_light_contributes_nothing() {
    let blocker = Sphere {
        center: units(0, 2, -7).sub(&Vec3 { x: 0, y: 0, z: SCALE / 2 }),
        radius: SCALE,
        material: white_matte(1),
    };
    let spheres_clear = vec![front_sphere()];
    let spheres_blocked = vec![front_sphere(), blocker];
    let lights = vec![clear_light()];
    let no_lights: Vec<Light> = vec![];
    let orig = units(0, 0, 0);
    let dir = units(0, 0, -1);

    let lit = cast_ray(0, &orig, &dir, &spheres_clear, &lights);
    let blocked = cast_ray(0, &orig, &dir, &spheres_blocked, &lights);
    let dark = cast_ray(0, &orig, &dir, &spheres_clear, &no_lights);

    // the blocker stands on the segment from the hit to the light, so the
    // light is occluded and the pixel matches a scene with no light at all
    assert_eq!(dark, Pixel { r: 0, g: 0, b: 0 });
    assert_eq!(blocked, dark);
    assert_ne!(lit, dark);
}

#[test]
fn specular_term_follows_power_law() {
    let mut material = white_matte(2);
    material.albedo = Albedo { diffuse: 0, specular: SCALE, reflect: 0, refract: 0 };
    let spheres = vec![Sphere { center: units(0, 0, -10), radius: SCALE, material }];
    let lights = vec![clear_light()];
    let orig = units(0, 0, 0);
    let dir = units(0, 0, -1);
    let color = cast_ray(0, &orig, &dir, &spheres, &lights);
    // the mirrored light direction dotted with the view ray is 39321;
    // squared in fixed point that is 23592, the sole term of each channel
    assert_eq!(color, Pixel { r: 23592, g: 23592, b: 23592 });
}

#[test]
fn diffuse_scene_ignores_recursion_budget() {
    let spheres = vec![front_sphere()];
    let lights = vec![clear_light()];
    let orig = units(0, 0, 0);
    let dir = units(0, 0, -1);
    let shallow = cast_ray_limited(1, 0, &orig, &dir, &spheres, &lights);
    let deep = cast_ray_limited(7, 0, &orig, &dir, &spheres, &lights);
    assert_eq!(shallow, deep);
}

#[test]
fn mirror_sphere_sees_the_background() {
    // a perfect mirror facing the camera with nothing to reflect shows
    // the background color scaled by its reflectance weight
    let mirror = Material {
        diffuse_color: units(1, 1, 1),
        albedo: Albedo { diffuse: 0, specular: 0, reflect: SCALE, refract: 0 },
        specular_exponent: 1,
        refractive_index: SCALE,
    };
    let spheres = vec![Sphere { center: units(0, 0, -10), radius: SCALE, material: mirror }];
    let lights: Vec<Light> = vec![];
    let orig = units(0, 0, 0);
    let dir = units(0, 0, -1);
    let color = cast_ray(0, &orig, &dir, &spheres, &lights);
    // the reflected ray leaves back along the axis and misses everything
    assert_eq!(color, background());
}
