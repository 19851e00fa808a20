use tinyray::fx::SCALE;
use tinyray::ppm::{channel_byte, dec_bytes, ppm_image};
use tinyray::render::{render, render_gradient};
use tinyray::scene::{Albedo, Light, Material, Sphere};
use tinyray::vec3::{Pixel, Vec3};

#[test]
fn channel_bytes_truncate_and_saturate() {
    // 1.0 maps to 255, and values above saturate rather than wrap
    assert_eq!(channel_byte(SCALE), 255);
    assert_eq!(channel_byte(2 * SCALE), 255);
    // negative channels floor at zero
    assert_eq!(channel_byte(-5), 0);
    // 0.5 * 255 is 127.5: truncation, not rounding
    assert_eq!(channel_byte(SCALE / 2), 127);
    assert_eq!(channel_byte(0), 0);
}

#[test]
fn decimal_bytes() {
    assert_eq!(dec_bytes(0), b"0".to_vec());
    assert_eq!(dec_bytes(7), b"7".to_vec());
    assert_eq!(dec_bytes(255), b"255".to_vec());
    assert_eq!(dec_bytes(1024), b"1024".to_vec());
}

#[test]
fn tiny_image_layout() {
    let fb = vec![Pixel { r: SCALE, g: 0, b: SCALE / 2 }];
    let out = ppm_image(1, 1, &fb);
    let mut expected = b"P6\n1 1\n255\n".to_vec();
    expected.extend_from_slice(&[255, 0, 127]);
    assert_eq!(out, expected);
}

#[test]
fn gradient_image_end_to_end() {
    let width = 1024;
    let height = 768;
    let fb = render_gradient(width, height);
    let out = ppm_image(width, height, &fb);

    let header: &[u8] = b"P6\n1024 768\n255\n";
    assert_eq!(&out[..header.len()], header);
    assert_eq!(out.len(), header.len() + 3 * 1024 * 768);

    // the top-left pixel is black
    assert_eq!(&out[header.len()..header.len() + 3], &[0u8, 0, 0][..]);
    // the bottom-right pixel saturates the two ramps, blue stays zero
    let last = header.len() + 3 * (767 * 1024 + 1023);
    assert_eq!(&out[last..last + 3], &[254u8, 254, 0][..]);
}

#[test]
fn gradient_ramps_monotonically() {
    let width = 64;
    let height = 48;
    let fb = render_gradient(width, height);
    assert_eq!(fb.len(), width * height);
    for x in 1..width {
        assert!(fb[x].r >= fb[x - 1].r);
        assert_eq!(fb[x].b, 0);
    }
    for y in 1..height {
        assert!(fb[y * width].g >= fb[(y - 1) * width].g);
    }
}

#[test]
fn centered_sphere_silhouette_matches_projected_disk() {
    // a lone matte sphere, no lights: hit pixels are black, the rest show
    // the background; on the center row the silhouette must span exactly
    // the analytic projected disk radius
    let width: usize = 151;
    let height: usize = 101;
    let z_units: i64 = 200;
    let center_z: i64 = 16;
    let radius_units: i64 = 2;
    let material = Material {
        diffuse_color: Vec3 { x: SCALE, y: SCALE, z: SCALE },
        albedo: Albedo { diffuse: SCALE, specular: 0, reflect: 0, refract: 0 },
        specular_exponent: 1,
        refractive_index: SCALE,
    };
    let spheres = vec![Sphere {
        center: Vec3 { x: 0, y: 0, z: -center_z * SCALE },
        radius: radius_units * SCALE,
        material,
    }];
    let lights: Vec<Light> = vec![];
    let fb = render(&spheres, &lights, width, height, -z_units * SCALE);
    assert_eq!(fb.len(), width * height);

    // the analytic projected disk radius on the image plane, in pixels
    let r = radius_units as f64;
    let cz = center_z as f64;
    let z0 = z_units as f64;
    let projected = r * z0 / (cz * cz - r * r).sqrt();
    assert_eq!(projected.floor() as i64, 25);

    let black = Pixel { r: 0, g: 0, b: 0 };
    let background = Pixel { r: 13107, g: 45875, b: 52429 };
    let row = (height / 2) * width;
    for px in 0..width {
        let dx = px as i64 - (width as i64) / 2;
        let pixel = fb[row + px];
        if dx.abs() <= 25 {
            assert_eq!(pixel, black, "pixel {} should be inside the silhouette", px);
        } else {
            assert_eq!(pixel, background, "pixel {} should show the background", px);
        }
    }
}

#[test]
fn render_matches_per_pixel_cast() {
    // the driver stores, per pixel, exactly what a single cast of that
    // pixel's ray answers
    let width: usize = 3;
    let height: usize = 3;
    let dir_z: i64 = -4 * SCALE;
    let material = Material {
        diffuse_color: Vec3 { x: SCALE / 2, y: SCALE / 4, z: SCALE / 8 },
        albedo: Albedo { diffuse: SCALE, specular: 0, reflect: 0, refract: 0 },
        specular_exponent: 1,
        refractive_index: SCALE,
    };
    let spheres = vec![Sphere {
        center: Vec3 { x: 0, y: 0, z: -10 * SCALE },
        radius: 2 * SCALE,
        material,
    }];
    let lights = vec![Light { position: Vec3 { x: 0, y: 0, z: 0 }, intensity: SCALE }];
    let fb = render(&spheres, &lights, width, height, dir_z);
    let origin = Vec3 { x: 0, y: 0, z: 0 };
    for i in 0..(width * height) {
        let px = (i % width) as i64;
        let py = (i / width) as i64;
        let x = 32768 * (2 * px + 1 - width as i64);
        let y = 32768 * (height as i64 - 2 * py - 1);
        let dir = Vec3::new(x, y, dir_z).normalize();
        let expected = tinyray::shade::cast_ray(0, &origin, &dir, &spheres, &lights);
        assert_eq!(fb[i], expected);
    }
}
