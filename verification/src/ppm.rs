//! Binary pixmap assembly.
//!
//! The output image is the ASCII header `P6\n<width> <height>\n255\n`
//! followed by one byte per channel for every pixel, row-major.  A channel
//! is converted by truncation -- `floor(value * 255)` in fixed point --
//! with the byte saturating at its ends rather than wrapping, as a native
//! float-to-byte narrowing would.

use vstd::prelude::*;

use crate::fx::SCALE;
use crate::vec3::Pixel;

verus! {

/// The decimal digits of `n`, most significant first.
pub open spec fn dec_digits(n: nat) -> Seq<u8>
    decreases n,
{
    if n < 10 {
        seq![(48 + n) as u8]
    } else {
        dec_digits(n / 10) + seq![(48 + n % 10) as u8]
    }
}

/// The decimal digits of `n` as bytes.
pub fn dec_bytes(n: usize) -> (v: Vec<u8>)
    ensures
        v@ == dec_digits(n as nat),
    decreases n,
{
    if n < 10 {
        let mut v: Vec<u8> = Vec::new();
        v.push(48 + n as u8);
        proof {
            assert(v@ =~= dec_digits(n as nat));
        }
        v
    } else {
        let mut v = dec_bytes(n / 10);
        v.push(48 + (n % 10) as u8);
        proof {
            assert(v@ =~= dec_digits(n as nat));
        }
        v
    }
}

/// The header bytes: `P6`, newline, the two dimensions in decimal
/// separated by a space, newline, `255`, newline.
pub open spec fn spec_ppm_header(w: nat, h: nat) -> Seq<u8> {
    seq![80u8, 54u8, 10u8] + dec_digits(w) + seq![32u8] + dec_digits(h) + seq![10u8]
        + seq![50u8, 53u8, 53u8, 10u8]
}

/// A channel as an output byte: negative values floor at zero, values of
/// one or more saturate at 255, between them truncation of `v * 255`.
pub open spec fn byte_of(v: int) -> u8 {
    if v < 0 {
        0u8
    } else if (v * 255) / (SCALE as int) > 255 {
        255u8
    } else {
        ((v * 255) / (SCALE as int)) as u8
    }
}

pub fn channel_byte(v: i64) -> (b: u8)
    ensures
        b == byte_of(v as int),
{
    if v < 0 {
        0
    } else {
        proof {
            assert((v as int) * 255 < 0x1_0000_0000_0000_0000_0000) by (nonlinear_arith)
                requires
                    0 <= v as int,
                    (v as int) < 0x8000_0000_0000_0000,
            ;
        }
        let q: u128 = (v as u128) * 255 / 65536;
        if q > 255 {
            255
        } else {
            q as u8
        }
    }
}

/// The three bytes of a pixel: red, green, blue.
pub open spec fn spec_pixel_bytes(p: Pixel) -> Seq<u8> {
    seq![byte_of(p.r as int), byte_of(p.g as int), byte_of(p.b as int)]
}

/// The bytes of the first `n` pixels of a framebuffer, in order.
pub open spec fn spec_pixels_prefix(fb: Seq<Pixel>, n: int) -> Seq<u8>
    decreases n,
{
    if n <= 0 {
        Seq::empty()
    } else {
        spec_pixels_prefix(fb, n - 1) + spec_pixel_bytes(fb[n - 1])
    }
}

/// The whole image: header, then every pixel's bytes.
pub open spec fn spec_ppm_image(w: nat, h: nat, fb: Seq<Pixel>) -> Seq<u8> {
    spec_ppm_header(w, h) + spec_pixels_prefix(fb, fb.len() as int)
}

/// Three bytes per pixel, no more and no fewer.
pub proof fn lemma_pixels_prefix_len(fb: Seq<Pixel>, n: int)
    requires
        0 <= n <= fb.len(),
    ensures
        spec_pixels_prefix(fb, n).len() == 3 * n,
    decreases n,
{
    if n > 0 {
        lemma_pixels_prefix_len(fb, n - 1);
    }
}

/// Assembles the image bytes for a framebuffer of `width * height` pixels.
pub fn ppm_image(width: usize, height: usize, fb: &Vec<Pixel>) -> (out: Vec<u8>)
    requires
        fb@.len() == width * height,
    ensures
        out@ == spec_ppm_image(width as nat, height as nat, fb@),
        out@.len() == spec_ppm_header(width as nat, height as nat).len() + 3 * fb@.len(),
{
    proof {
        lemma_pixels_prefix_len(fb@, fb@.len() as int);
    }
    let mut out: Vec<u8> = Vec::new();
    out.push(80);
    out.push(54);
    out.push(10);
    let wd = dec_bytes(width);
    let mut k: usize = 0;
    while k < wd.len()
        invariant
            k <= wd.len(),
            wd@ == dec_digits(width as nat),
            out@ == seq![80u8, 54u8, 10u8] + dec_digits(width as nat).take(k as int),
        decreases wd.len() - k,
    {
        out.push(wd[k]);
        proof {
            assert(out@ =~= seq![80u8, 54u8, 10u8] + dec_digits(width as nat).take(
                k as int + 1,
            ));
        }
        k = k + 1;
    }
    proof {
        assert(dec_digits(width as nat).take(wd@.len() as int) =~= dec_digits(width as nat));
    }
    out.push(32);
    let hd = dec_bytes(height);
    let ghost pre: Seq<u8> = seq![80u8, 54u8, 10u8] + dec_digits(width as nat) + seq![32u8];
    proof {
        assert(out@ =~= pre);
    }
    let mut k2: usize = 0;
    while k2 < hd.len()
        invariant
            k2 <= hd.len(),
            hd@ == dec_digits(height as nat),
            pre == seq![80u8, 54u8, 10u8] + dec_digits(width as nat) + seq![32u8],
            out@ == pre + dec_digits(height as nat).take(k2 as int),
        decreases hd.len() - k2,
    {
        out.push(hd[k2]);
        proof {
            assert(out@ =~= pre + dec_digits(height as nat).take(k2 as int + 1));
        }
        k2 = k2 + 1;
    }
    proof {
        assert(dec_digits(height as nat).take(hd@.len() as int) =~= dec_digits(height as nat));
    }
    out.push(10);
    out.push(50);
    out.push(53);
    out.push(53);
    out.push(10);
    let ghost header: Seq<u8> = spec_ppm_header(width as nat, height as nat);
    proof {
        assert(out@ =~= header);
    }
    let mut i: usize = 0;
    while i < fb.len()
        invariant
            i <= fb@.len(),
            header == spec_ppm_header(width as nat, height as nat),
            out@ == header + spec_pixels_prefix(fb@, i as int),
        decreases fb@.len() - i,
    {
        let p = fb[i];
        out.push(channel_byte(p.r));
        out.push(channel_byte(p.g));
        out.push(channel_byte(p.b));
        proof {
            assert(out@ =~= header + spec_pixels_prefix(fb@, i as int + 1));
        }
        i = i + 1;
    }
    proof {
        assert(header + spec_pixels_prefix(fb@, fb@.len() as int) =~= spec_ppm_image(
            width as nat,
            height as nat,
            fb@,
        ));
    }
    out
}

} // verus!
