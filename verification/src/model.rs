//! The spec-level model of the three-pass upscaler.
//!
//! `scale_spec` pins down, pixel for pixel, the buffer that `scale` returns:
//! pass one is a pointwise map over the source, passes two and three are
//! folds that thread the evolving target buffer through one block (or one
//! pixel) at a time, in the documented order, so that every read of a value
//! written earlier in the same pass is part of the model.

use vstd::prelude::*;

use crate::kernel::{clampi, const16, kernel_px, lemma_kernel_uniform};

verus! {

/// First-pass interpolation coefficient (-0.129633, scaled by 10^6).
pub const W_A1: i64 = -129_633;

/// Second first-pass coefficient (0.129633 + 0.5, scaled by 10^6).
pub const W_B1: i64 = 629_633;

/// Second-pass interpolation coefficient (-0.175068, scaled by 10^6).
pub const W_A2: i64 = -175_068;

/// Second second-pass coefficient (0.175068 + 0.5, scaled by 10^6).
pub const W_B2: i64 = 675_068;

/// Edge weights of the diagonal seed pass.
pub open spec fn wp_seed() -> Seq<int> {
    seq![2, 1, -1, 4, -1, 1]
}

/// Edge weights of the cross fill pass.
pub open spec fn wp_cross() -> Seq<int> {
    seq![2, 0, 0, 0, 0, 0]
}

/// Edge weights of the global refinement pass.
pub open spec fn wp_refine() -> Seq<int> {
    seq![2, 1, -1, 40, -1, 1]
}

/// The sample of a `w` by `h` buffer at `(x, y)`, with both coordinates
/// clamped to the valid rectangle (never wrapped, never extrapolated).
pub open spec fn sample_at(buf: Seq<u32>, w: int, h: int, x: int, y: int) -> u32 {
    buf[clampi(y, 0, h - 1) * w + clampi(x, 0, w - 1)]
}

/// Axis-aligned 4x4 neighborhood: cell (i, j), stored at index 4i+j, holds
/// the clamped sample at `(x0 + i, y0 + j)`.
pub open spec fn gather_axis(buf: Seq<u32>, w: int, h: int, x0: int, y0: int) -> Seq<u32> {
    Seq::new(16, |k: int| sample_at(buf, w, h, x0 + k / 4, y0 + k % 4))
}

/// 45-degree rotated 4x4 neighborhood around `(x, y)`: cell (i, j) holds the
/// clamped sample at `(x + (i-1) + (j-1), y + (i-1) - (j-1))`.
pub open spec fn gather_rot(buf: Seq<u32>, w: int, h: int, x: int, y: int) -> Seq<u32> {
    Seq::new(
        16,
        |k: int| sample_at(buf, w, h, x + (k / 4 - 1) + (k % 4 - 1), y + (k / 4 - 1) - (k % 4 - 1)),
    )
}

/// One pixel of the first pass.  At odd-odd positions the diagonal seed is
/// interpolated from the source neighborhood of the block; the other three
/// sub-pixels of each 2x2 block copy the source pixel of the block.
pub open spec fn pass1_px(data: Seq<u32>, w: int, h: int, x: int, y: int) -> u32 {
    if x % 2 == 1 && y % 2 == 1 {
        kernel_px(
            gather_axis(data, w, h, x / 2 - 1, y / 2 - 1),
            wp_seed(),
            W_A1 as int,
            W_B1 as int,
        )
    } else {
        data[(y / 2) * w + x / 2]
    }
}

/// The whole target buffer after the first pass.
pub open spec fn pass1_out(data: Seq<u32>, w: int, h: int) -> Seq<u32> {
    Seq::new((4 * w * h) as nat, |i: int| pass1_px(data, w, h, i % (2 * w), i / (2 * w)))
}

/// One block of the cross fill pass, applied to the evolving target buffer:
/// first the top-right sub-pixel is rewritten from the rotated neighborhood,
/// then the bottom-left sub-pixel from the shifted rotated neighborhood of
/// the buffer that already holds the first write.
pub open spec fn pass2_block(buf: Seq<u32>, w: int, h: int, x: int, y: int) -> Seq<u32> {
    let b1 = buf.update(
        y * (2 * w) + x + 1,
        kernel_px(gather_rot(buf, 2 * w, 2 * h, x, y), wp_cross(), W_A2 as int, W_B2 as int),
    );
    b1.update(
        (y + 1) * (2 * w) + x,
        kernel_px(gather_rot(b1, 2 * w, 2 * h, x - 1, y + 1), wp_cross(), W_A2 as int, W_B2 as int),
    )
}

/// The target buffer after the first `k` blocks of the cross fill pass, in
/// raster order of block origins.
pub open spec fn pass2_upto(data: Seq<u32>, w: int, h: int, k: int) -> Seq<u32>
    decreases k,
{
    if k <= 0 {
        pass1_out(data, w, h)
    } else {
        pass2_block(pass2_upto(data, w, h, k - 1), w, h, 2 * ((k - 1) % w), 2 * ((k - 1) / w))
    }
}

/// One pixel of the refinement pass: the pixel at index `i` is rewritten
/// from the axis-aligned neighborhood of the current buffer.
pub open spec fn pass3_step(buf: Seq<u32>, w: int, h: int, i: int) -> Seq<u32> {
    buf.update(
        i,
        kernel_px(
            gather_axis(buf, 2 * w, 2 * h, i % (2 * w) - 2, i / (2 * w) - 2),
            wp_refine(),
            W_A1 as int,
            W_B1 as int,
        ),
    )
}

/// The target buffer after the first `n` pixels of the refinement pass,
/// which walks the buffer in strictly decreasing raster order.
pub open spec fn pass3_upto(data: Seq<u32>, w: int, h: int, n: int) -> Seq<u32>
    decreases n,
{
    if n <= 0 {
        pass2_upto(data, w, h, w * h)
    } else {
        pass3_step(pass3_upto(data, w, h, n - 1), w, h, 4 * w * h - n)
    }
}

/// The upscaled buffer: all three passes, in order, over the whole target.
pub open spec fn scale_spec(data: Seq<u32>, w: int, h: int) -> Seq<u32> {
    pass3_upto(data, w, h, 4 * w * h)
}

/// Every pixel of the buffer holds the color `c`.
pub open spec fn uniform(buf: Seq<u32>, c: u32) -> bool {
    forall|i: int| 0 <= i < buf.len() ==> buf[i] == c
}

/// A clamped sample of a uniform buffer is the uniform color.
proof fn lemma_sample_uniform(buf: Seq<u32>, w: int, h: int, c: u32, x: int, y: int)
    requires
        w >= 1,
        h >= 1,
        buf.len() == w * h,
        uniform(buf, c),
    ensures
        sample_at(buf, w, h, x, y) == c,
{
    let cy = clampi(y, 0, h - 1);
    let cx = clampi(x, 0, w - 1);
    assert(0 <= cy * w + cx < w * h) by (nonlinear_arith)
        requires
            0 <= cy <= h - 1,
            0 <= cx <= w - 1,
            w >= 1,
            h >= 1,
    ;
}

/// Both gather patterns over a uniform buffer yield the uniform matrix.
proof fn lemma_gather_uniform(buf: Seq<u32>, w: int, h: int, c: u32, x: int, y: int)
    requires
        w >= 1,
        h >= 1,
        buf.len() == w * h,
        uniform(buf, c),
    ensures
        gather_axis(buf, w, h, x, y) == const16::<u32>(c),
        gather_rot(buf, w, h, x, y) == const16::<u32>(c),
{
    assert forall|k: int| 0 <= k < 16 implies gather_axis(buf, w, h, x, y)[k] == c by {
        lemma_sample_uniform(buf, w, h, c, x + k / 4, y + k % 4);
    }
    assert forall|k: int| 0 <= k < 16 implies gather_rot(buf, w, h, x, y)[k] == c by {
        lemma_sample_uniform(buf, w, h, c, x + (k / 4 - 1) + (k % 4 - 1), y + (k / 4 - 1) - (k % 4
            - 1));
    }
    assert(gather_axis(buf, w, h, x, y) =~= const16::<u32>(c));
    assert(gather_rot(buf, w, h, x, y) =~= const16::<u32>(c));
}

/// After the seed pass over a uniform source, the target is uniform.
proof fn lemma_pass1_uniform(data: Seq<u32>, w: int, h: int, c: u32)
    requires
        w >= 1,
        h >= 1,
        data.len() == w * h,
        uniform(data, c),
    ensures
        pass1_out(data, w, h).len() == 4 * w * h,
        uniform(pass1_out(data, w, h), c),
{
    assert forall|i: int| 0 <= i < 4 * w * h implies pass1_out(data, w, h)[i] == c by {
        let x = i % (2 * w);
        let y = i / (2 * w);
        assert(0 <= x < 2 * w && 0 <= y < 2 * h) by (nonlinear_arith)
            requires
                0 <= i < 4 * w * h,
                w >= 1,
                h >= 1,
                x == i % (2 * w),
                y == i / (2 * w),
        ;
        if x % 2 == 1 && y % 2 == 1 {
            lemma_gather_uniform(data, w, h, c, x / 2 - 1, y / 2 - 1);
            lemma_kernel_uniform(c, wp_seed(), W_A1 as int, W_B1 as int);
        } else {
            assert(0 <= (y / 2) * w + x / 2 < w * h) by (nonlinear_arith)
                requires
                    0 <= x < 2 * w,
                    0 <= y < 2 * h,
                    w >= 1,
                    h >= 1,
            ;
        }
    }
}

/// The cross fill pass keeps a uniform target uniform, block by block.
#[verifier::rlimit(80)]
proof fn lemma_pass2_uniform(data: Seq<u32>, w: int, h: int, c: u32, k: int)
    requires
        w >= 1,
        h >= 1,
        data.len() == w * h,
        uniform(data, c),
        k <= w * h,
    ensures
        pass2_upto(data, w, h, k).len() == 4 * w * h,
        uniform(pass2_upto(data, w, h, k), c),
    decreases k,
{
    if k <= 0 {
        lemma_pass1_uniform(data, w, h, c);
    } else {
        lemma_pass2_uniform(data, w, h, c, k - 1);
        let buf = pass2_upto(data, w, h, k - 1);
        let x = 2 * ((k - 1) % w);
        let y = 2 * ((k - 1) / w);
        assert(0 <= x <= 2 * w - 2 && 0 <= y <= 2 * h - 2) by (nonlinear_arith)
            requires
                0 < k <= w * h,
                w >= 1,
                h >= 1,
                x == 2 * ((k - 1) % w),
                y == 2 * ((k - 1) / w),
        ;
        assert(buf.len() == (2 * w) * (2 * h)) by (nonlinear_arith)
            requires
                buf.len() == 4 * w * h,
        ;
        lemma_gather_uniform(buf, 2 * w, 2 * h, c, x, y);
        lemma_kernel_uniform(c, wp_cross(), W_A2 as int, W_B2 as int);
        let i1 = y * (2 * w) + x + 1;
        assert(0 <= i1 < 4 * w * h) by (nonlinear_arith)
            requires
                0 <= x <= 2 * w - 2,
                0 <= y <= 2 * h - 2,
                w >= 1,
                h >= 1,
                i1 == y * (2 * w) + x + 1,
        ;
        let b1 = buf.update(i1, c);
        assert(uniform(b1, c));
        assert(b1.len() == (2 * w) * (2 * h)) by (nonlinear_arith)
            requires
                b1.len() == 4 * w * h,
        ;
        lemma_gather_uniform(b1, 2 * w, 2 * h, c, x - 1, y + 1);
        let i2 = (y + 1) * (2 * w) + x;
        assert(0 <= i2 < 4 * w * h) by (nonlinear_arith)
            requires
                0 <= x <= 2 * w - 2,
                0 <= y <= 2 * h - 2,
                w >= 1,
                h >= 1,
                i2 == (y + 1) * (2 * w) + x,
        ;
        assert(uniform(b1.update(i2, c), c));
    }
}

/// The refinement pass keeps a uniform target uniform, pixel by pixel.
proof fn lemma_pass3_uniform(data: Seq<u32>, w: int, h: int, c: u32, n: int)
    requires
        w >= 1,
        h >= 1,
        data.len() == w * h,
        uniform(data, c),
        n <= 4 * w * h,
    ensures
        pass3_upto(data, w, h, n).len() == 4 * w * h,
        uniform(pass3_upto(data, w, h, n), c),
    decreases n,
{
    if n <= 0 {
        lemma_pass2_uniform(data, w, h, c, w * h);
    } else {
        lemma_pass3_uniform(data, w, h, c, n - 1);
        let buf = pass3_upto(data, w, h, n - 1);
        let i = 4 * w * h - n;
        assert(buf.len() == (2 * w) * (2 * h)) by (nonlinear_arith)
            requires
                buf.len() == 4 * w * h,
        ;
        lemma_gather_uniform(buf, 2 * w, 2 * h, c, i % (2 * w) - 2, i / (2 * w) - 2);
        lemma_kernel_uniform(c, wp_refine(), W_A1 as int, W_B1 as int);
        assert(uniform(buf.update(i, c), c));
    }
}

/// Law: flat regions stay flat.  For every source buffer of one uniform
/// color, every pixel of the upscaled output is that color: no pass ever
/// introduces ringing on constant input, in any of the four channels.
pub proof fn lemma_scale_uniform(data: Seq<u32>, w: int, h: int, c: u32)
    requires
        w >= 1,
        h >= 1,
        data.len() == w * h,
        uniform(data, c),
    ensures
        scale_spec(data, w, h).len() == 4 * w * h,
        uniform(scale_spec(data, w, h), c),
{
    lemma_pass3_uniform(data, w, h, c, 4 * w * h);
}

/// Law: scaling a single-pixel source produces a 2x2 output whose four
/// pixels all equal the source pixel, channels included: the degenerate
/// fully clamped neighborhood reproduces the pixel exactly.
pub proof fn lemma_scale_single_pixel(data: Seq<u32>)
    requires
        data.len() == 1,
    ensures
        scale_spec(data, 1, 1).len() == 4,
        forall|i: int| 0 <= i < 4 ==> scale_spec(data, 1, 1)[i] == data[0],
{
    lemma_scale_uniform(data, 1, 1, data[0]);
}

} // verus!
