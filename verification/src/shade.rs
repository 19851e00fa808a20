//! The shading engine: recursive ray casting with Phong lighting,
//! shadow occlusion, mirror reflection and Snell refraction.
//!
//! `spec_cast_ray` states the color of a ray exactly; `cast_ray` computes
//! it.  Recursion is bounded by a depth budget alone: past the budget a ray
//! answers the fixed background color at once.

use vstd::prelude::*;

use crate::fx::{add_fx, fx_add, fx_max0, fx_mul, fx_pow, max0_fx, mul_fx, pow_fx, SCALE};
use crate::scene::{
    lights_wf, scene_intersect, spec_scene_intersect, spheres_wf, Light, Sphere,
};
use crate::vec3::{
    spec_add, spec_dot, spec_norm, spec_normalize, spec_reflect, spec_refract, spec_scale,
    spec_sub, Pixel, Vec3,
};

verus! {

/// The default recursion budget: secondary rays are followed while
/// `depth` does not exceed it.
pub const CAST_RAY_DEPTH: usize = 2;

/// The bias, in fixed-point steps, by which a secondary ray's origin is
/// pushed off its surface along the normal so that it does not at once
/// re-intersect that surface.
pub const EPS: i64 = 66;

/// The color of a ray that hits nothing.
pub open spec fn spec_background() -> Pixel {
    Pixel { r: 13107, g: 45875, b: 52429 }
}

pub fn background() -> (p: Pixel)
    ensures
        p == spec_background(),
{
    Pixel { r: 13107, g: 45875, b: 52429 }
}

/// The color white, the tint of specular highlights.
pub open spec fn spec_white() -> Vec3 {
    Vec3 { x: SCALE, y: SCALE, z: SCALE }
}

fn white() -> (v: Vec3)
    ensures
        v == spec_white(),
{
    Vec3 { x: SCALE, y: SCALE, z: SCALE }
}

/// The unit direction from the hit point toward a light.
pub open spec fn spec_light_dir(light: Light, hit: Vec3) -> Vec3 {
    spec_normalize(spec_sub(light.position, hit))
}

/// Where a shadow ray toward the light leaves from: the hit point biased
/// along the normal, on the side the light shines from.
pub open spec fn spec_shadow_orig(
    light: Light,
    hit: Vec3,
    normal: Vec3,
    hit_inside: Vec3,
    hit_outside: Vec3,
) -> Vec3 {
    if spec_dot(spec_light_dir(light, hit), normal) < 0 {
        hit_inside
    } else {
        hit_outside
    }
}

/// Whether the light is occluded at the hit point: its shadow ray strikes
/// some surface strictly nearer than the light itself stands.
pub open spec fn spec_light_occluded(
    light: Light,
    spheres: Seq<Sphere>,
    hit: Vec3,
    normal: Vec3,
    hit_inside: Vec3,
    hit_outside: Vec3,
) -> bool {
    let light_vec = spec_sub(light.position, hit);
    let so = spec_shadow_orig(light, hit, normal, hit_inside, hit_outside);
    match spec_scene_intersect(so, spec_light_dir(light, hit), spheres) {
        Some(sh) => spec_norm(light_vec) > spec_norm(spec_sub(sh.0, so)),
        None => false,
    }
}

/// A visible light's diffuse contribution: `intensity * max(0, cos)` of
/// the angle its direction makes with the surface normal.
pub open spec fn spec_light_diffuse(light: Light, hit: Vec3, normal: Vec3) -> int {
    fx_mul(light.intensity as int, fx_max0(spec_dot(spec_light_dir(light, hit), normal)))
}

/// A visible light's specular contribution: its mirrored direction dotted
/// with the view ray, floored at zero, raised to the shininess exponent,
/// times the intensity.
pub open spec fn spec_light_specular(
    light: Light,
    hit: Vec3,
    normal: Vec3,
    dir: Vec3,
    exp: nat,
) -> int {
    fx_mul(
        light.intensity as int,
        fx_pow(fx_max0(spec_dot(spec_reflect(spec_light_dir(light, hit), normal), dir)), exp),
    )
}

/// The diffuse and specular intensities accumulated over the first `n`
/// lights, in order.  An occluded light contributes nothing; a visible one
/// adds its diffuse and specular terms to the running sums.
pub open spec fn spec_light_pass(
    lights: Seq<Light>,
    n: int,
    spheres: Seq<Sphere>,
    hit: Vec3,
    normal: Vec3,
    dir: Vec3,
    exp: nat,
    hit_inside: Vec3,
    hit_outside: Vec3,
) -> (int, int)
    decreases n,
{
    if n <= 0 {
        (0, 0)
    } else {
        let prev = spec_light_pass(
            lights,
            n - 1,
            spheres,
            hit,
            normal,
            dir,
            exp,
            hit_inside,
            hit_outside,
        );
        let light = lights[n - 1];
        if spec_light_occluded(light, spheres, hit, normal, hit_inside, hit_outside) {
            prev
        } else {
            (
                fx_add(prev.0, spec_light_diffuse(light, hit, normal)),
                fx_add(prev.1, spec_light_specular(light, hit, normal, dir, exp)),
            )
        }
    }
}

/// The color a ray resolves to, with `limit - depth` levels of secondary
/// rays still allowed.  Past the budget, or when the scene is missed, it
/// is the background color; at a hit it is the Phong sum of the diffuse,
/// specular, reflected and refracted terms, each weighted by its albedo
/// component.
pub open spec fn spec_cast_ray(
    limit: int,
    depth: int,
    orig: Vec3,
    dir: Vec3,
    spheres: Seq<Sphere>,
    lights: Seq<Light>,
) -> Pixel
    decreases limit - depth + 1,
{
    if depth > limit {
        spec_background()
    } else {
        match spec_scene_intersect(orig, dir, spheres) {
            None => spec_background(),
            Some(h) => {
                let hit = h.0;
                let normal = h.1;
                let material = h.2;
                let perturb = spec_scale(normal, EPS as int);
                let hit_outside = spec_add(hit, perturb);
                let hit_inside = spec_sub(hit, perturb);
                let reflect_dir = spec_reflect(dir, normal);
                let reflect_orig = if spec_dot(reflect_dir, normal) < 0 {
                    hit_inside
                } else {
                    hit_outside
                };
                let reflect_color = spec_cast_ray(
                    limit,
                    depth + 1,
                    reflect_orig,
                    reflect_dir,
                    spheres,
                    lights,
                ).spec_to_vec3();
                let refract_dir = spec_refract(dir, normal, material.refractive_index as int);
                let refract_orig = if spec_dot(refract_dir, normal) < 0 {
                    hit_inside
                } else {
                    hit_outside
                };
                let refract_color = spec_cast_ray(
                    limit,
                    depth + 1,
                    refract_orig,
                    refract_dir,
                    spheres,
                    lights,
                ).spec_to_vec3();
                let pass = spec_light_pass(
                    lights,
                    lights.len() as int,
                    spheres,
                    hit,
                    normal,
                    dir,
                    material.specular_exponent as nat,
                    hit_inside,
                    hit_outside,
                );
                spec_add(
                    spec_add(
                        spec_add(
                            spec_scale(
                                material.diffuse_color,
                                fx_mul(pass.0, material.albedo.diffuse as int),
                            ),
                            spec_scale(spec_white(), fx_mul(pass.1, material.albedo.specular as int)),
                        ),
                        spec_scale(reflect_color, material.albedo.reflect as int),
                    ),
                    spec_scale(refract_color, material.albedo.refract as int),
                ).spec_to_pixel()
            },
        }
    }
}

/// The accumulated diffuse and specular intensities over all lights.
fn light_pass(
    spheres: &Vec<Sphere>,
    lights: &Vec<Light>,
    hit: &Vec3,
    normal: &Vec3,
    dir: &Vec3,
    exp: u32,
    hit_inside: &Vec3,
    hit_outside: &Vec3,
) -> (r: (i64, i64))
    requires
        spheres_wf(spheres@),
        lights_wf(lights@),
        dir.wf(),
        hit.wf(),
        normal.wf(),
        hit_inside.wf(),
        hit_outside.wf(),
    ensures
        r.0 as int == spec_light_pass(
            lights@,
            lights@.len() as int,
            spheres@,
            *hit,
            *normal,
            *dir,
            exp as nat,
            *hit_inside,
            *hit_outside,
        ).0,
        r.1 as int == spec_light_pass(
            lights@,
            lights@.len() as int,
            spheres@,
            *hit,
            *normal,
            *dir,
            exp as nat,
            *hit_inside,
            *hit_outside,
        ).1,
{
    let mut dli: i64 = 0;
    let mut sli: i64 = 0;
    let mut li: usize = 0;
    while li < lights.len()
        invariant
            li <= lights.len(),
            spheres_wf(spheres@),
            lights_wf(lights@),
            dir.wf(),
            hit.wf(),
            normal.wf(),
            hit_inside.wf(),
            hit_outside.wf(),
            dli as int == spec_light_pass(
                lights@,
                li as int,
                spheres@,
                *hit,
                *normal,
                *dir,
                exp as nat,
                *hit_inside,
                *hit_outside,
            ).0,
            sli as int == spec_light_pass(
                lights@,
                li as int,
                spheres@,
                *hit,
                *normal,
                *dir,
                exp as nat,
                *hit_inside,
                *hit_outside,
            ).1,
        decreases lights.len() - li,
    {
        let light = &lights[li];
        let light_vec = light.position.sub(hit);
        let light_dir = light_vec.normalize();
        let lnp = light_dir.dot(normal);
        let shadow_orig = if lnp < 0 {
            *hit_inside
        } else {
            *hit_outside
        };
        let mut occluded = false;
        match scene_intersect(&shadow_orig, &light_dir, spheres) {
            Some((shadow_hit, _, _)) => {
                if light_vec.norm() > shadow_hit.sub(&shadow_orig).norm() {
                    occluded = true;
                }
            },
            None => {},
        }
        if !occluded {
            dli = add_fx(dli, mul_fx(light.intensity, max0_fx(lnp)));
            sli = add_fx(
                sli,
                mul_fx(light.intensity, pow_fx(max0_fx(light_dir.reflect(normal).dot(dir)), exp)),
            );
        }
        li = li + 1;
    }
    (dli, sli)
}

/// Ray casting under an explicit recursion budget.
#[verifier::rlimit(60)]
pub fn cast_ray_limited(
    limit: usize,
    depth: usize,
    orig: &Vec3,
    dir: &Vec3,
    spheres: &Vec<Sphere>,
    lights: &Vec<Light>,
) -> (r: Pixel)
    requires
        orig.wf(),
        dir.wf(),
        spheres_wf(spheres@),
        lights_wf(lights@),
        limit < usize::MAX,
    ensures
        r == spec_cast_ray(limit as int, depth as int, *orig, *dir, spheres@, lights@),
        r.wf(),
    decreases limit - depth + 1,
{
    if depth > limit {
        background()
    } else {
        match scene_intersect(orig, dir, spheres) {
            None => background(),
            Some((hit, normal, material)) => {
                let perturb = normal.mul(EPS);
                let hit_outside = hit.add(&perturb);
                let hit_inside = hit.sub(&perturb);
                let reflect_color = {
                    let reflect_dir = dir.reflect(&normal);
                    let reflect_orig = if reflect_dir.dot(&normal) < 0 {
                        hit_inside
                    } else {
                        hit_outside
                    };
                    cast_ray_limited(limit, depth + 1, &reflect_orig, &reflect_dir, spheres, lights)
                        .to_vec3()
                };
                let refract_color = {
                    let refract_dir = dir.refract(normal, material.refractive_index);
                    let refract_orig = if refract_dir.dot(&normal) < 0 {
                        hit_inside
                    } else {
                        hit_outside
                    };
                    cast_ray_limited(limit, depth + 1, &refract_orig, &refract_dir, spheres, lights)
                        .to_vec3()
                };
                let (dli, sli) = light_pass(
                    spheres,
                    lights,
                    &hit,
                    &normal,
                    dir,
                    material.specular_exponent,
                    &hit_inside,
                    &hit_outside,
                );
                material
                    .diffuse_color
                    .mul(mul_fx(dli, material.albedo.diffuse))
                    .add(&white().mul(mul_fx(sli, material.albedo.specular)))
                    .add(&reflect_color.mul(material.albedo.reflect))
                    .add(&refract_color.mul(material.albedo.refract))
                    .to_pixel()
            },
        }
    }
}

/// Terminal state: past the depth budget a ray answers exactly the
/// background color, with no further recursion.
pub proof fn lemma_depth_exhausted(
    limit: int,
    depth: int,
    orig: Vec3,
    dir: Vec3,
    spheres: Seq<Sphere>,
    lights: Seq<Light>,
)
    requires
        depth > limit,
    ensures
        spec_cast_ray(limit, depth, orig, dir, spheres, lights) == spec_background(),
{
}

/// A ray that misses every sphere answers the background color unchanged,
/// whatever the depth and the remaining budget.
pub proof fn lemma_miss_gives_background(
    limit: int,
    depth: int,
    orig: Vec3,
    dir: Vec3,
    spheres: Seq<Sphere>,
    lights: Seq<Light>,
)
    requires
        spec_scene_intersect(orig, dir, spheres) is None,
    ensures
        spec_cast_ray(limit, depth, orig, dir, spheres, lights) == spec_background(),
{
}

/// Shadow law: an occluded light leaves both running sums unchanged, and a
/// light with clear line of sight adds `intensity * max(0, cos)` to the
/// diffuse sum and its power-law term to the specular sum.
pub proof fn lemma_shadow_occlusion(
    lights: Seq<Light>,
    n: int,
    spheres: Seq<Sphere>,
    hit: Vec3,
    normal: Vec3,
    dir: Vec3,
    exp: nat,
    hit_inside: Vec3,
    hit_outside: Vec3,
)
    requires
        0 < n <= lights.len(),
    ensures
        spec_light_occluded(lights[n - 1], spheres, hit, normal, hit_inside, hit_outside)
            ==> spec_light_pass(lights, n, spheres, hit, normal, dir, exp, hit_inside, hit_outside)
            == spec_light_pass(
            lights,
            n - 1,
            spheres,
            hit,
            normal,
            dir,
            exp,
            hit_inside,
            hit_outside,
        ),
        !spec_light_occluded(lights[n - 1], spheres, hit, normal, hit_inside, hit_outside) ==> (
        spec_light_pass(lights, n, spheres, hit, normal, dir, exp, hit_inside, hit_outside).0
            == fx_add(
            spec_light_pass(
                lights,
                n - 1,
                spheres,
                hit,
                normal,
                dir,
                exp,
                hit_inside,
                hit_outside,
            ).0,
            spec_light_diffuse(lights[n - 1], hit, normal),
        ) && spec_light_pass(lights, n, spheres, hit, normal, dir, exp, hit_inside, hit_outside).1
            == fx_add(
            spec_light_pass(
                lights,
                n - 1,
                spheres,
                hit,
                normal,
                dir,
                exp,
                hit_inside,
                hit_outside,
            ).1,
            spec_light_specular(lights[n - 1], hit, normal, dir, exp),
        )),
{
}

/// A perfectly diffuse scene: when every material's reflectance and
/// refractance weights are zero, the recursive reflection and refraction
/// terms are weighted away, so the color of a ray does not depend on the
/// recursion budget.
pub proof fn lemma_diffuse_depth_independent(
    l1: int,
    l2: int,
    depth: int,
    orig: Vec3,
    dir: Vec3,
    spheres: Seq<Sphere>,
    lights: Seq<Light>,
)
    requires
        depth <= l1,
        depth <= l2,
        forall|i: int|
            0 <= i < spheres.len() ==> (#[trigger] spheres[i]).material.albedo.reflect == 0
                && spheres[i].material.albedo.refract == 0,
    ensures
        spec_cast_ray(l1, depth, orig, dir, spheres, lights) == spec_cast_ray(
            l2,
            depth,
            orig,
            dir,
            spheres,
            lights,
        ),
{
    match spec_scene_intersect(orig, dir, spheres) {
        None => {
        },
        Some(h) => {
            crate::scene::lemma_best_hit_props(spheres, orig, dir, spheres.len() as int);
            let material = h.2;
            assert(material.albedo.reflect == 0 && material.albedo.refract == 0);
        },
    }
}

/// Ray casting under the default recursion budget.
pub fn cast_ray(
    depth: usize,
    orig: &Vec3,
    dir: &Vec3,
    spheres: &Vec<Sphere>,
    lights: &Vec<Light>,
) -> (r: Pixel)
    requires
        orig.wf(),
        dir.wf(),
        spheres_wf(spheres@),
        lights_wf(lights@),
    ensures
        r == spec_cast_ray(
            CAST_RAY_DEPTH as int,
            depth as int,
            *orig,
            *dir,
            spheres@,
            lights@,
        ),
        r.wf(),
{
    cast_ray_limited(CAST_RAY_DEPTH, depth, orig, dir, spheres, lights)
}

} // verus!
