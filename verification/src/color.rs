//! Radiance-to-pixel encoding: average the accumulated samples, apply
//! gamma-2 encoding, clamp, and quantize each channel to a byte. The
//! caller owns the actual emission of the pixel stream.

use vstd::prelude::*;

verus! {

use crate::fx::SCALE;
use crate::fx::div_fx;
use crate::fx::isqrt;
use crate::fx::lemma_isqrt_bounds;
use crate::fx::mul_fx;
use crate::fx::s_div;
use crate::fx::s_mul;
use crate::fx::s_sqrt;
use crate::fx::sqrt_fx;
use crate::interval::Interval;
use crate::interval::i_clamp;
use crate::vec3::Vec3;

/// The channel ceiling before quantization: 0.999 in raw units.
pub const COLOR_MAX: i64 = 65470;

/// Gamma-2 display encoding of a linear channel.
pub open spec fn gamma_val(x: int) -> int {
    s_sqrt(x)
}

/// Gamma-2 display encoding of a nonnegative linear channel.
pub fn linear_to_gamma(linear_component: i64) -> (r: i64)
    requires
        linear_component >= 0,
    ensures
        r as int == gamma_val(linear_component as int),
        r >= 0,
{
    sqrt_fx(linear_component)
}

/// One channel: scale by the per-sample weight, clamp to
/// `[0, COLOR_MAX]`, gamma-encode, and take the byte `floor(256 * v)`.
pub open spec fn encode_channel(c: int, scale: int) -> int {
    let cl = i_clamp(Interval { min: 0, max: COLOR_MAX }, s_mul(c, scale));
    gamma_val(cl) / 256
}

/// The encoded pixel for an accumulated color and its sample count.
pub open spec fn spec_write_color(pixel_color: Vec3, samples_per_pixel: int) -> (int, int, int) {
    let scale = s_div(SCALE as int, samples_per_pixel * SCALE as int);
    (
        encode_channel(pixel_color.x as int, scale),
        encode_channel(pixel_color.y as int, scale),
        encode_channel(pixel_color.z as int, scale),
    )
}

fn encode_channel_fx(c: i64, scale: i64) -> (r: u8)
    ensures
        r as int == encode_channel(c as int, scale as int),
{
    let scaled = mul_fx(c, scale);
    let intensity = Interval::new(0, COLOR_MAX);
    let cl = intensity.clamp(scaled);
    let g = linear_to_gamma(cl);
    proof {
        lemma_isqrt_bounds((cl as int) * (SCALE as int));
        if g >= 65536 {
            assert((g as int) * (g as int) > (cl as int) * (SCALE as int)) by (nonlinear_arith)
                requires
                    g >= 65536,
                    cl <= 65470,
            ;
        }
    }
    ((g as u64) / 256) as u8
}

/// Encode one pixel: the byte triple is handed back for the caller,
/// which owns the output stream, to emit.
pub fn write_color(pixel_color: Vec3, samples_per_pixel: i64) -> (rgb: (u8, u8, u8))
    requires
        1 <= samples_per_pixel <= 65536,
    ensures
        (rgb.0 as int, rgb.1 as int, rgb.2 as int) == spec_write_color(
            pixel_color,
            samples_per_pixel as int,
        ),
{
    let spp_fx = samples_per_pixel * SCALE;
    let scale = div_fx(SCALE, spp_fx);
    (
        encode_channel_fx(pixel_color.x, scale),
        encode_channel_fx(pixel_color.y, scale),
        encode_channel_fx(pixel_color.z, scale),
    )
}

} // verus!
