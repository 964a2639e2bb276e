//! Packed RGBA8888 pixels: one `u32` per pixel, channel order R, G, B, A
//! from least to most significant byte.

use vstd::prelude::*;

verus! {

/// Red channel of a packed pixel (least significant byte).
pub open spec fn chan_r(p: u32) -> u32 {
    p & 0xff
}

/// Green channel of a packed pixel.
pub open spec fn chan_g(p: u32) -> u32 {
    (p >> 8) & 0xff
}

/// Blue channel of a packed pixel.
pub open spec fn chan_b(p: u32) -> u32 {
    (p >> 16) & 0xff
}

/// Alpha channel of a packed pixel (most significant byte).
pub open spec fn chan_a(p: u32) -> u32 {
    (p >> 24) & 0xff
}

/// Packs four 8-bit channels into one pixel word.
pub open spec fn pack_px(r: u32, g: u32, b: u32, a: u32) -> u32 {
    (r | (g << 8)) | ((b << 16) | (a << 24))
}

/// Every extracted channel is an 8-bit value.
pub proof fn lemma_chan_bounds(p: u32)
    ensures
        chan_r(p) <= 255,
        chan_g(p) <= 255,
        chan_b(p) <= 255,
        chan_a(p) <= 255,
{
    assert(p & 0xff <= 255) by (bit_vector);
    assert((p >> 8) & 0xff <= 255) by (bit_vector);
    assert((p >> 16) & 0xff <= 255) by (bit_vector);
    assert((p >> 24) & 0xff <= 255) by (bit_vector);
}

/// Packing four in-range channels and reading them back is the identity.
pub proof fn lemma_pack_chan(r: u32, g: u32, b: u32, a: u32)
    requires
        r <= 255,
        g <= 255,
        b <= 255,
        a <= 255,
    ensures
        chan_r(pack_px(r, g, b, a)) == r,
        chan_g(pack_px(r, g, b, a)) == g,
        chan_b(pack_px(r, g, b, a)) == b,
        chan_a(pack_px(r, g, b, a)) == a,
{
    assert(r <= 255 && g <= 255 && b <= 255 && a <= 255 ==> ((r | (g << 8)) | ((b << 16) | (
    a << 24))) & 0xff == r) by (bit_vector);
    assert(r <= 255 && g <= 255 && b <= 255 && a <= 255 ==> (((r | (g << 8)) | ((b << 16) | (
    a << 24))) >> 8) & 0xff == g) by (bit_vector);
    assert(r <= 255 && g <= 255 && b <= 255 && a <= 255 ==> (((r | (g << 8)) | ((b << 16) | (
    a << 24))) >> 16) & 0xff == b) by (bit_vector);
    assert(r <= 255 && g <= 255 && b <= 255 && a <= 255 ==> (((r | (g << 8)) | ((b << 16) | (
    a << 24))) >> 24) & 0xff == a) by (bit_vector);
}

/// Re-packing the channels of a pixel yields the pixel itself.
pub proof fn lemma_chan_pack(p: u32)
    ensures
        pack_px(chan_r(p), chan_g(p), chan_b(p), chan_a(p)) == p,
{
    assert((((p & 0xff) | (((p >> 8) & 0xff) << 8)) | ((((p >> 16) & 0xff) << 16) | (((p >> 24)
    & 0xff) << 24))) == p) by (bit_vector);
}

/// Extracts the red channel of a packed pixel.
pub fn red_of(p: u32) -> (r: u32)
    ensures
        r == chan_r(p),
        r <= 255,
{
    proof {
        lemma_chan_bounds(p);
    }
    p & 0xff
}

/// Extracts the green channel of a packed pixel.
pub fn green_of(p: u32) -> (r: u32)
    ensures
        r == chan_g(p),
        r <= 255,
{
    proof {
        lemma_chan_bounds(p);
    }
    (p >> 8) & 0xff
}

/// Extracts the blue channel of a packed pixel.
pub fn blue_of(p: u32) -> (r: u32)
    ensures
        r == chan_b(p),
        r <= 255,
{
    proof {
        lemma_chan_bounds(p);
    }
    (p >> 16) & 0xff
}

/// Extracts the alpha channel of a packed pixel.
pub fn alpha_of(p: u32) -> (r: u32)
    ensures
        r == chan_a(p),
        r <= 255,
{
    proof {
        lemma_chan_bounds(p);
    }
    (p >> 24) & 0xff
}

/// Packs four 8-bit channels into one pixel word.
pub fn pack(r: u32, g: u32, b: u32, a: u32) -> (p: u32)
    requires
        r <= 255,
        g <= 255,
        b <= 255,
        a <= 255,
    ensures
        p == pack_px(r, g, b, a),
{
    (r | (g << 8)) | ((b << 16) | (a << 24))
}

} // verus!
