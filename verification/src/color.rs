//! RGB colors, gamma correction and pixel-format quantization.
//!
//! A pixel is written as three space-separated decimal integers in
//! `[0, 255]`, each `floor(256 * clamp(sqrt(channel / samples), 0, 0.999))`;
//! the square root applies gamma-2 correction.

use vstd::prelude::*;

verus! {

use crate::fx::Fx;
use crate::fx::SCALE;
use crate::fx::fx_mul;
use crate::fx::fx_div;
use crate::fx::fx_sqrt;
use crate::fx::fdiv;
use crate::fx::fits_i64;
use crate::vector3::Vector3;

#[derive(Clone, Copy, PartialEq, Eq, Structural, Debug)]
pub struct Color {
    pub red: Fx,
    pub green: Fx,
    pub blue: Fx,
}

/// Every channel within `[0, 1]`: the range of an albedo.
pub open spec fn color_unit(c: Color) -> bool {
    0 <= c.red.raw <= SCALE && 0 <= c.green.raw <= SCALE && 0 <= c.blue.raw <= SCALE
}

/// The decimal digits of a non-negative number, as ASCII bytes.
pub open spec fn dec_digits(n: int) -> Seq<u8>
    decreases n,
{
    if n < 10 {
        seq![(48 + if n >= 0 { n } else { 0 }) as u8]
    } else {
        dec_digits(n / 10).push((48 + n % 10) as u8)
    }
}

/// Append the decimal digits of `n` to `out`.
pub fn push_dec(out: &mut Vec<u8>, n: u32)
    ensures
        final (out)@ == old(out)@ + dec_digits(n as int),
    decreases n,
{
    if n < 10 {
        out.push(48 + n as u8);
        proof {
            assert(final (out)@ =~= old(out)@ + dec_digits(n as int));
        }
    } else {
        push_dec(out, n / 10);
        out.push(48 + (n % 10) as u8);
        proof {
            assert(final (out)@ =~= old(out)@ + dec_digits(n as int));
        }
    }
}

/// One quantized channel: `floor(256 * clamp(sqrt(channel / samples), 0, 0.999))`,
/// over raw values.  A negative accumulated channel quantizes to zero.
pub open spec fn quantize_spec(c: int, spp: int) -> int {
    let scaled = fx_div(c, spp);
    if scaled < 0 {
        0
    } else {
        let root = fx_sqrt(scaled);
        let clamped = if root > (SCALE as int) - 10 {
            (SCALE as int) - 10
        } else {
            root
        };
        fdiv(256 * clamped, SCALE as int)
    }
}

/// The bytes of one pixel line: three quantized channels, space separated.
pub open spec fn pixel_line_spec(red: int, green: int, blue: int, spp: int) -> Seq<u8> {
    dec_digits(quantize_spec(red, spp)) + seq![32u8] + dec_digits(quantize_spec(green, spp))
        + seq![32u8] + dec_digits(quantize_spec(blue, spp)) + seq![10u8]
}

/// Quantization always lands in `[0, 255]`.
pub proof fn lemma_quantize_range(c: int, spp: int)
    requires
        spp != 0,
    ensures
        0 <= quantize_spec(c, spp) <= 255,
{
    let scaled = fx_div(c, spp);
    if scaled >= 0 {
        let root = fx_sqrt(scaled);
        crate::fx::lemma_sqrt_floor_props(scaled * (SCALE as int));
        let clamped = if root > (SCALE as int) - 10 {
            (SCALE as int) - 10
        } else {
            root
        };
        assert(0 <= clamped <= 9990);
        crate::fx::lemma_fdiv_mono(0, 256 * clamped, SCALE as int);
        crate::fx::lemma_fdiv_mono(256 * clamped, 256 * 9990int, SCALE as int);
        assert(fdiv(0, 10000int) == 0) by (nonlinear_arith);
        assert(fdiv(256 * 9990int, 10000int) == 255) by (nonlinear_arith);
    }
}

impl Color {
    pub fn new(r: Fx, g: Fx, b: Fx) -> (c: Color)
        ensures
            c.red == r,
            c.green == g,
            c.blue == b,
    {
        Color { red: r, green: g, blue: b }
    }

    /// Interpret the components of a vector as a color.
    pub fn from_vector(v: Vector3) -> (c: Color)
        ensures
            c.red == v.x,
            c.green == v.y,
            c.blue == v.z,
    {
        Color { red: v.x, green: v.y, blue: v.z }
    }

    pub fn red(&self) -> (r: Fx)
        ensures
            r == self.red,
    {
        self.red
    }

    pub fn green(&self) -> (r: Fx)
        ensures
            r == self.green,
    {
        self.green
    }

    pub fn blue(&self) -> (r: Fx)
        ensures
            r == self.blue,
    {
        self.blue
    }

    pub fn add(self, right: Color) -> (r: Color)
        requires
            fits_i64(self.red.raw + right.red.raw),
            fits_i64(self.green.raw + right.green.raw),
            fits_i64(self.blue.raw + right.blue.raw),
        ensures
            r.red.raw == self.red.raw + right.red.raw,
            r.green.raw == self.green.raw + right.green.raw,
            r.blue.raw == self.blue.raw + right.blue.raw,
    {
        Color {
            red: self.red.add(right.red),
            green: self.green.add(right.green),
            blue: self.blue.add(right.blue),
        }
    }

    /// Scale every channel by the scalar `s`.
    pub fn mul(self, s: Fx) -> (r: Color)
        requires
            fits_i64(fx_mul(self.red.raw as int, s.raw as int)),
            fits_i64(fx_mul(self.green.raw as int, s.raw as int)),
            fits_i64(fx_mul(self.blue.raw as int, s.raw as int)),
        ensures
            r.red.raw == fx_mul(self.red.raw as int, s.raw as int),
            r.green.raw == fx_mul(self.green.raw as int, s.raw as int),
            r.blue.raw == fx_mul(self.blue.raw as int, s.raw as int),
    {
        Color { red: self.red.mul(s), green: self.green.mul(s), blue: self.blue.mul(s) }
    }

    /// Filter one color by another, channel by channel.
    pub fn mul_color(self, rhs: Color) -> (r: Color)
        requires
            fits_i64(fx_mul(self.red.raw as int, rhs.red.raw as int)),
            fits_i64(fx_mul(self.green.raw as int, rhs.green.raw as int)),
            fits_i64(fx_mul(self.blue.raw as int, rhs.blue.raw as int)),
        ensures
            r.red.raw == fx_mul(self.red.raw as int, rhs.red.raw as int),
            r.green.raw == fx_mul(self.green.raw as int, rhs.green.raw as int),
            r.blue.raw == fx_mul(self.blue.raw as int, rhs.blue.raw as int),
    {
        Color {
            red: self.red.mul(rhs.red),
            green: self.green.mul(rhs.green),
            blue: self.blue.mul(rhs.blue),
        }
    }

    /// The bytes of this pixel's output line, averaged over
    /// `samples_per_pixel` samples and gamma corrected.
    pub fn write(&self, samples_per_pixel: Fx) -> (line: Vec<u8>)
        requires
            samples_per_pixel.raw > 0,
            fits_i64(fx_div(self.red.raw as int, samples_per_pixel.raw as int)),
            fits_i64(fx_div(self.green.raw as int, samples_per_pixel.raw as int)),
            fits_i64(fx_div(self.blue.raw as int, samples_per_pixel.raw as int)),
        ensures
            line@ == pixel_line_spec(
                self.red.raw as int,
                self.green.raw as int,
                self.blue.raw as int,
                samples_per_pixel.raw as int,
            ),
    {
        let mut out: Vec<u8> = Vec::new();
        let r = quantize_channel(self.red, samples_per_pixel);
        let g = quantize_channel(self.green, samples_per_pixel);
        let b = quantize_channel(self.blue, samples_per_pixel);
        push_dec(&mut out, r);
        out.push(32u8);
        push_dec(&mut out, g);
        out.push(32u8);
        push_dec(&mut out, b);
        out.push(10u8);
        proof {
            assert(out@ =~= pixel_line_spec(
                self.red.raw as int,
                self.green.raw as int,
                self.blue.raw as int,
                samples_per_pixel.raw as int,
            ));
        }
        out
    }
}

/// One channel of the pixel format: average, gamma correct, clamp, scale.
pub fn quantize_channel(c: Fx, spp: Fx) -> (r: u32)
    requires
        spp.raw > 0,
        fits_i64(fx_div(c.raw as int, spp.raw as int)),
    ensures
        r == quantize_spec(c.raw as int, spp.raw as int),
        r <= 255,
{
    proof {
        lemma_quantize_range(c.raw as int, spp.raw as int);
    }
    let scaled = c.div(spp);
    if scaled.raw < 0 {
        return 0u32;
    }
    let root = scaled.sqrt();
    let clamped: i64 = if root.raw > SCALE - 10 {
        SCALE - 10
    } else {
        root.raw
    };
    proof {
        crate::fx::lemma_sqrt_floor_props(scaled.raw * (SCALE as int));
    }
    let wide: i128 = 256i128 * (clamped as i128);
    let q = crate::fx::flrdiv128(wide, SCALE as i128);
    q as u32
}

} // verus!
