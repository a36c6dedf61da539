//! Resolving an accumulated pixel colour into output bytes: average over
//! the samples, apply gamma-2 correction, clamp, and quantize.
//!
//! Serializing the bytes into an image stream is the caller's business; the
//! engine's obligation ends at delivering clamped, gamma-corrected values.

use crate::fixed::{
    clamp, div_fp, fp_clamp, fp_div, fp_mul, fp_sqrt, mul_fp, sqrt_fp, SCALE,
};
use crate::vec3::Vec3;
use vstd::prelude::*;

verus! {

/// The largest channel value that quantization accepts: just under one, so
/// that a full-intensity channel still maps to the top byte and no channel
/// overflows it.
pub const CHANNEL_MAX: i64 = 65470;

/// One output channel: average the accumulated value over the samples,
/// take the square root for gamma-2 correction, clamp into
/// `[0, CHANNEL_MAX]`, and scale by 256 into a byte.
pub open spec fn channel_spec(c: int, samples: int) -> int {
    let scale = fp_div(SCALE as int, samples * (SCALE as int));
    let averaged = fp_mul(scale, c);
    let gamma = fp_sqrt(averaged);
    let clamped = fp_clamp(gamma, 0, CHANNEL_MAX as int);
    (256 * clamped) / (SCALE as int)
}

/// Resolve one accumulated channel into its output byte.
fn resolve_channel(c: i64, samples_per_pixel: usize) -> (b: u8)
    requires
        c >= 0,
        0 < samples_per_pixel <= 0x100000000,
    ensures
        b == channel_spec(c as int, samples_per_pixel as int),
{
    let samples_scaled = (samples_per_pixel as i64) * SCALE;
    let scale = div_fp(SCALE, samples_scaled);
    proof {
        crate::fixed::lemma_fp_div_nonneg(SCALE as int, samples_scaled as int);
        crate::fixed::lemma_fp_mul_nonneg(scale as int, c as int);
    }
    let averaged = mul_fp(scale, c);
    let gamma = sqrt_fp(averaged);
    let clamped = clamp(gamma, 0, CHANNEL_MAX);
    ((clamped as u64 * 256) / 65536) as u8
}

impl Vec3 {
    /// Resolve this accumulated colour into the three output bytes, ready
    /// for the external encoder: averaged over `samples_per_pixel`
    /// samples, gamma-corrected, clamped and quantized, channel by
    /// channel.
    pub fn write_colour(&self, samples_per_pixel: usize) -> (rgb: (u8, u8, u8))
        requires
            self.x >= 0,
            self.y >= 0,
            self.z >= 0,
            0 < samples_per_pixel <= 0x100000000,
        ensures
            rgb.0 == channel_spec(self.x as int, samples_per_pixel as int),
            rgb.1 == channel_spec(self.y as int, samples_per_pixel as int),
            rgb.2 == channel_spec(self.z as int, samples_per_pixel as int),
    {
        (
            resolve_channel(self.x, samples_per_pixel),
            resolve_channel(self.y, samples_per_pixel),
            resolve_channel(self.z, samples_per_pixel),
        )
    }
}

} // verus!
