//! The camera and raster driver.
//!
//! `render` enumerates one ray per pixel in row-major order from a single
//! eye at the origin, asks the shading engine for each color, and collects
//! the framebuffer.  `render_gradient` is the background-only raster whose
//! red and green channels ramp with the pixel coordinates; it exercises the
//! output path without any scene.

use vstd::prelude::*;

use crate::fx::{clip, SCALE};
use crate::scene::{lights_wf, spheres_wf, Light, Sphere};
use crate::shade::{cast_ray, spec_cast_ray, CAST_RAY_DEPTH};
use crate::vec3::{spec_normalize, v3, Pixel, Vec3};

verus! {

/// The eye: all camera rays originate here.
pub open spec fn spec_origin() -> Vec3 {
    Vec3 { x: 0, y: 0, z: 0 }
}

/// The camera ray direction for pixel index `i` of a `w` by `h` raster:
/// centered pixel coordinates in fixed-point steps (the half-step offset
/// makes `2*px + 1 - w` halves of a step), a fixed depth `z` shared by
/// every pixel, normalized.
pub open spec fn spec_pixel_dir(i: int, w: int, h: int, z: int) -> Vec3 {
    let px = i % w;
    let py = i / w;
    spec_normalize(
        v3(clip(32768 * (2 * px + 1 - w)), clip(32768 * (h - 2 * py - 1)), clip(z)),
    )
}

/// The color of pixel `i`: its camera ray cast from the origin with a
/// fresh depth budget.
pub open spec fn spec_render_pixel(
    i: int,
    w: int,
    h: int,
    z: int,
    spheres: Seq<Sphere>,
    lights: Seq<Light>,
) -> Pixel {
    spec_cast_ray(
        CAST_RAY_DEPTH as int,
        0,
        spec_origin(),
        spec_pixel_dir(i, w, h, z),
        spheres,
        lights,
    )
}

/// The framebuffer of a full render: `width * height` colors in row-major
/// order, top row first.  `dir_z` is the common fixed-point z component of
/// the camera rays, derived by the caller from the field of view; it is
/// negative for a camera looking down the negative z axis.
pub fn render(
    spheres: &Vec<Sphere>,
    lights: &Vec<Light>,
    width: usize,
    height: usize,
    dir_z: i64,
) -> (fb: Vec<Pixel>)
    requires
        spheres_wf(spheres@),
        lights_wf(lights@),
        width <= 65536,
        height <= 65536,
        width * height <= usize::MAX,
    ensures
        fb@.len() == width * height,
        forall|i: int|
            0 <= i < fb@.len() ==> fb@[i] == spec_render_pixel(
                i,
                width as int,
                height as int,
                dir_z as int,
                spheres@,
                lights@,
            ),
{
    let total = width * height;
    let origin = Vec3 { x: 0, y: 0, z: 0 };
    let mut fb: Vec<Pixel> = Vec::new();
    let mut i: usize = 0;
    while i < total
        invariant
            i <= total,
            total == width * height,
            width <= 65536,
            height <= 65536,
            origin == spec_origin(),
            spheres_wf(spheres@),
            lights_wf(lights@),
            fb@.len() == i,
            forall|j: int|
                0 <= j < i as int ==> fb@[j] == spec_render_pixel(
                    j,
                    width as int,
                    height as int,
                    dir_z as int,
                    spheres@,
                    lights@,
                ),
        decreases total - i,
    {
        assert(width > 0) by {
            if width == 0 {
                assert(total == 0);
            }
        }
        let px = i % width;
        let py = i / width;
        proof {
            vstd::arithmetic::div_mod::lemma_mod_division_less_than_divisor(i as int, width as int);
            vstd::arithmetic::div_mod::lemma_multiply_divide_lt(i as int, width as int, height as int);
        }
        let x: i64 = 32768 * (2 * (px as i64) + 1 - width as i64);
        let y: i64 = 32768 * (height as i64 - 2 * (py as i64) - 1);
        let dir = Vec3::new(x, y, dir_z).normalize();
        let color = cast_ray(0, &origin, &dir, spheres, lights);
        fb.push(color);
        i = i + 1;
    }
    fb
}

/// The background-only gradient pixel: red ramps with the column, green
/// with the row, blue stays zero.
pub open spec fn spec_gradient_pixel(i: int, w: int, h: int) -> Pixel {
    let px = i % w;
    let py = i / w;
    Pixel {
        r: ((px * (SCALE as int)) / w) as i64,
        g: ((py * (SCALE as int)) / h) as i64,
        b: 0,
    }
}

/// The flat two-gradient framebuffer, with no scene at all.
pub fn render_gradient(width: usize, height: usize) -> (fb: Vec<Pixel>)
    requires
        0 < width <= 65536,
        0 < height <= 65536,
        width * height <= usize::MAX,
    ensures
        fb@.len() == width * height,
        forall|i: int|
            0 <= i < fb@.len() ==> fb@[i] == spec_gradient_pixel(i, width as int, height as int),
{
    let total = width * height;
    let mut fb: Vec<Pixel> = Vec::new();
    let mut i: usize = 0;
    while i < total
        invariant
            i <= total,
            total == width * height,
            0 < width <= 65536,
            0 < height <= 65536,
            fb@.len() == i,
            forall|j: int|
                0 <= j < i as int ==> fb@[j] == spec_gradient_pixel(
                    j,
                    width as int,
                    height as int,
                ),
        decreases total - i,
    {
        let px = i % width;
        let py = i / width;
        proof {
            vstd::arithmetic::div_mod::lemma_mod_division_less_than_divisor(i as int, width as int);
            vstd::arithmetic::div_mod::lemma_multiply_divide_lt(i as int, width as int, height as int);
        }
        let r = (((px as u64) * (SCALE as u64)) / (width as u64)) as i64;
        let g = (((py as u64) * (SCALE as u64)) / (height as u64)) as i64;
        proof {
            assert((px as int) * (SCALE as int) < 0x1_0000_0000_0000 && (py as int) * (
            SCALE as int) < 0x1_0000_0000_0000) by (nonlinear_arith)
                requires
                    0 <= px as int,
                    (px as int) < 65536,
                    0 <= py as int,
                    py as int <= 65536,
                    SCALE as int == 65536,
            ;
            assert((px as int) * (SCALE as int) / (width as int) <= (px as int) * (SCALE as int))
                by (nonlinear_arith)
                requires
                    0 < width as int,
                    0 <= (px as int) * (SCALE as int),
            ;
            assert((py as int) * (SCALE as int) / (height as int) <= (py as int) * (SCALE as int))
                by (nonlinear_arith)
                requires
                    0 < height as int,
                    0 <= (py as int) * (SCALE as int),
            ;
        }
        fb.push(Pixel { r, g, b: 0 });
        i = i + 1;
    }
    fb
}

} // verus!
