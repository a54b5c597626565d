//! Packed RGBA pixels.
//!
//! A pixel is one `u32` holding red in the lowest byte, then green, blue and
//! alpha in the highest byte.

use vstd::prelude::*;

verus! {

/// Largest value of one colour channel.
pub const CHANNEL_MAX: u32 = 255;

/// A colour as three channels, each meant to lie in `0..=255`.
#[derive(Debug, Clone, Copy, PartialEq, Eq, Structural)]
pub struct RGB {
    pub r: i32,
    pub g: i32,
    pub b: i32,
}

impl RGB {
    /// All three channels lie in `0..=255`.
    pub open spec fn in_range(&self) -> bool {
        &&& 0 <= self.r <= 255
        &&& 0 <= self.g <= 255
        &&& 0 <= self.b <= 255
    }
}

/// The pixel that holds `r` in bits 0..8, `g` in bits 8..16, `b` in bits
/// 16..24 and `a` in bits 24..32. Channels above 255 spill into the bytes
/// above them; what is shifted past bit 31 is lost.
pub open spec fn packed(r: u32, g: u32, b: u32, a: u32) -> u32 {
    (a << 24) | (b << 16) | (g << 8) | r
}

/// The channel of `background` at `index`, or `fallback` where the list is
/// too short to hold it.
pub open spec fn channel_or(background: Seq<i32>, index: int, fallback: i32) -> i32 {
    if 0 <= index < background.len() {
        background[index]
    } else {
        fallback
    }
}

/// The pixel painted where nothing was drawn: an empty list gives 0, any
/// other list gives its channels packed, with green and blue defaulting to 0
/// and alpha to 255. Each channel is taken modulo 2^32 before it is packed.
pub open spec fn background_pixel(background: Seq<i32>) -> u32 {
    if background.len() == 0 {
        0
    } else {
        packed(
            background[0] as u32,
            channel_or(background, 1, 0) as u32,
            channel_or(background, 2, 0) as u32,
            channel_or(background, 3, 255) as u32,
        )
    }
}

/// The fully opaque pixel of `rgb`.
pub open spec fn opaque_pixel(rgb: RGB) -> u32 {
    packed(rgb.r as u32, rgb.g as u32, rgb.b as u32, CHANNEL_MAX)
}

/// With every channel at most 255 the packed pixel is the base-256 number
/// with digits `r`, `g`, `b`, `a` from the lowest, and each channel can be
/// read back from its byte.
pub proof fn lemma_packed_bytes(r: u32, g: u32, b: u32, a: u32)
    requires
        r <= 255,
        g <= 255,
        b <= 255,
        a <= 255,
    ensures
        packed(r, g, b, a) == r + 256 * g + 65536 * b + 16777216 * a,
        packed(r, g, b, a) & 0xff == r,
        (packed(r, g, b, a) >> 8) & 0xff == g,
        (packed(r, g, b, a) >> 16) & 0xff == b,
        (packed(r, g, b, a) >> 24) & 0xff == a,
{
    let p: u32 = (a << 24) | (b << 16) | (g << 8) | r;
    assert(p == r + 256 * g + 65536 * b + 16777216 * a) by (bit_vector)
        requires
            p == (a << 24) | (b << 16) | (g << 8) | r,
            r <= 255,
            g <= 255,
            b <= 255,
            a <= 255,
    ;
    assert(p & 0xff == r && (p >> 8) & 0xff == g && (p >> 16) & 0xff == b && (p >> 24) & 0xff
        == a) by (bit_vector)
        requires
            p == (a << 24) | (b << 16) | (g << 8) | r,
            r <= 255,
            g <= 255,
            b <= 255,
            a <= 255,
    ;
}

/// An in-range colour packs to `r + 256 g + 65536 b` under an alpha of 255,
/// so the opaque pixel is never 0.
pub proof fn lemma_opaque_pixel_in_range(rgb: RGB)
    requires
        rgb.in_range(),
    ensures
        opaque_pixel(rgb) == rgb.r + 256 * rgb.g + 65536 * rgb.b + 16777216 * 255,
        opaque_pixel(rgb) >= 0xff00_0000u32,
{
    lemma_packed_bytes(rgb.r as u32, rgb.g as u32, rgb.b as u32, 255);
}

/// Packs four channels into one pixel.
pub fn pack_rgba(r: u32, g: u32, b: u32, a: u32) -> (pixel: u32)
    ensures
        pixel == packed(r, g, b, a),
{
    (a << 24) | (b << 16) | (g << 8) | r
}

/// The flat colour of a preview render: `rgb` under full opacity.
pub fn get_low_quality_point(rgb: &RGB) -> (pixel: u32)
    ensures
        pixel == opaque_pixel(*rgb),
{
    pack_rgba(
        #[verifier::truncate] (rgb.r as u32),
        #[verifier::truncate] (rgb.g as u32),
        #[verifier::truncate] (rgb.b as u32),
        CHANNEL_MAX,
    )
}

/// Reads one channel of a background list, with `fallback` for a channel the
/// list does not reach.
pub fn background_channel(background: &Vec<i32>, index: usize, fallback: i32) -> (channel: i32)
    ensures
        channel == channel_or(background@, index as int, fallback),
{
    if index < background.len() {
        background[index]
    } else {
        fallback
    }
}

/// Packs the background list into the pixel that fills every empty bin.
pub fn background_color(background: &Vec<i32>) -> (pixel: u32)
    ensures
        pixel == background_pixel(background@),
{
    if background.len() == 0 {
        0
    } else {
        let r: i32 = background[0];
        let g: i32 = background_channel(background, 1, 0);
        let b: i32 = background_channel(background, 2, 0);
        let a: i32 = background_channel(background, 3, 255);
        pack_rgba(
            #[verifier::truncate] (r as u32),
            #[verifier::truncate] (g as u32),
            #[verifier::truncate] (b as u32),
            #[verifier::truncate] (a as u32),
        )
    }
}

} // verus!
