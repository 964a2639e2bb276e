//! The pass orchestrator: three ordered passes over the doubled target
//! buffer, each proved to produce exactly the buffer of the spec-level
//! model in `model`.

use vstd::prelude::*;

use crate::kernel::{kernel_pixel, to_ints};
use crate::model::{
    gather_axis, gather_rot, pass1_out, pass1_px, pass2_block, pass2_upto, pass3_step, pass3_upto,
    scale_spec, wp_cross, wp_refine, wp_seed, W_A1, W_A2, W_B1, W_B2,
};

verus! {

/// Why a scale request was rejected.
#[derive(Clone, Copy, Debug, PartialEq, Eq, Structural)]
pub enum ScaleError {
    /// The source buffer has zero width or zero height.
    EmptyInput,
}

/// Builds the edge weight vector of the diagonal seed pass.
fn wp_seed_x() -> (v: Vec<i64>)
    ensures
        v@.len() == 6,
        to_ints(v@) == wp_seed(),
        forall|k: int| 0 <= k < 6 ==> -64 <= #[trigger] v@[k] <= 64,
{
    let mut v: Vec<i64> = Vec::new();
    v.push(2);
    v.push(1);
    v.push(-1);
    v.push(4);
    v.push(-1);
    v.push(1);
    proof {
        assert(to_ints(v@) =~= wp_seed());
    }
    v
}

/// Builds the edge weight vector of the cross fill pass.
fn wp_cross_x() -> (v: Vec<i64>)
    ensures
        v@.len() == 6,
        to_ints(v@) == wp_cross(),
        forall|k: int| 0 <= k < 6 ==> -64 <= #[trigger] v@[k] <= 64,
{
    let mut v: Vec<i64> = Vec::new();
    v.push(2);
    v.push(0);
    v.push(0);
    v.push(0);
    v.push(0);
    v.push(0);
    proof {
        assert(to_ints(v@) =~= wp_cross());
    }
    v
}

/// Builds the edge weight vector of the global refinement pass.
fn wp_refine_x() -> (v: Vec<i64>)
    ensures
        v@.len() == 6,
        to_ints(v@) == wp_refine(),
        forall|k: int| 0 <= k < 6 ==> -64 <= #[trigger] v@[k] <= 64,
{
    let mut v: Vec<i64> = Vec::new();
    v.push(2);
    v.push(1);
    v.push(-1);
    v.push(40);
    v.push(-1);
    v.push(1);
    proof {
        assert(to_ints(v@) =~= wp_refine());
    }
    v
}

/// Gathers the axis-aligned 4x4 neighborhood with origin `(x0, y0)` from a
/// `w` by `h` buffer, clamping out-of-bounds coordinates to the rectangle.
fn gather_axis_x(buf: &Vec<u32>, w: usize, h: usize, x0: i64, y0: i64) -> (pix: Vec<u32>)
    requires
        1 <= w <= 0x2000_0000,
        1 <= h <= 0x2000_0000,
        w * h <= 0x4000_0000,
        buf@.len() == w * h,
        -0x1_0000_0000 <= x0 <= 0x1_0000_0000,
        -0x1_0000_0000 <= y0 <= 0x1_0000_0000,
    ensures
        pix@ == gather_axis(buf@, w as int, h as int, x0 as int, y0 as int),
        pix@.len() == 16,
{
    let mut pix: Vec<u32> = Vec::new();
    let mut k: usize = 0;
    while k < 16
        invariant
            1 <= w <= 0x2000_0000,
            1 <= h <= 0x2000_0000,
            w * h <= 0x4000_0000,
            buf@.len() == w * h,
            -0x1_0000_0000 <= x0 <= 0x1_0000_0000,
            -0x1_0000_0000 <= y0 <= 0x1_0000_0000,
            k <= 16,
            pix@.len() == k,
            forall|m: int|
                0 <= m < k ==> #[trigger] pix@[m] == gather_axis(
                    buf@,
                    w as int,
                    h as int,
                    x0 as int,
                    y0 as int,
                )[m],
        decreases 16 - k,
    {
        let i = k / 4;
        let j = k % 4;
        let cx = crate::kernel::clamp64(x0 + i as i64, 0, w as i64 - 1);
        let cy = crate::kernel::clamp64(y0 + j as i64, 0, h as i64 - 1);
        proof {
            assert(0 <= cy * (w as int) + cx < w * h) by (nonlinear_arith)
                requires
                    0 <= cy <= h - 1,
                    0 <= cx <= w - 1,
                    w >= 1,
                    h >= 1,
            ;
            assert(cy * (w as int) + cx < 0x4000_0000);
        }
        let idx = (cy as usize) * w + (cx as usize);
        pix.push(buf[idx]);
        k = k + 1;
    }
    proof {
        assert(pix@ =~= gather_axis(buf@, w as int, h as int, x0 as int, y0 as int));
    }
    pix
}

/// Gathers the 45-degree rotated 4x4 neighborhood around `(x, y)` from a
/// `w` by `h` buffer, clamping out-of-bounds coordinates to the rectangle.
fn gather_rot_x(buf: &Vec<u32>, w: usize, h: usize, x: i64, y: i64) -> (pix: Vec<u32>)
    requires
        1 <= w <= 0x2000_0000,
        1 <= h <= 0x2000_0000,
        w * h <= 0x4000_0000,
        buf@.len() == w * h,
        -0x1_0000_0000 <= x <= 0x1_0000_0000,
        -0x1_0000_0000 <= y <= 0x1_0000_0000,
    ensures
        pix@ == gather_rot(buf@, w as int, h as int, x as int, y as int),
        pix@.len() == 16,
{
    let mut pix: Vec<u32> = Vec::new();
    let mut k: usize = 0;
    while k < 16
        invariant
            1 <= w <= 0x2000_0000,
            1 <= h <= 0x2000_0000,
            w * h <= 0x4000_0000,
            buf@.len() == w * h,
            -0x1_0000_0000 <= x <= 0x1_0000_0000,
            -0x1_0000_0000 <= y <= 0x1_0000_0000,
            k <= 16,
            pix@.len() == k,
            forall|m: int|
                0 <= m < k ==> #[trigger] pix@[m] == gather_rot(
                    buf@,
                    w as int,
                    h as int,
                    x as int,
                    y as int,
                )[m],
        decreases 16 - k,
    {
        let i = k / 4;
        let j = k % 4;
        let dx = (i as i64 - 1) + (j as i64 - 1);
        let dy = (i as i64 - 1) - (j as i64 - 1);
        let cx = crate::kernel::clamp64(x + dx, 0, w as i64 - 1);
        let cy = crate::kernel::clamp64(y + dy, 0, h as i64 - 1);
        proof {
            assert(0 <= cy * (w as int) + cx < w * h) by (nonlinear_arith)
                requires
                    0 <= cy <= h - 1,
                    0 <= cx <= w - 1,
                    w >= 1,
                    h >= 1,
            ;
            assert(cy * (w as int) + cx < 0x4000_0000);
        }
        let idx = (cy as usize) * w + (cx as usize);
        pix.push(buf[idx]);
        k = k + 1;
    }
    proof {
        assert(pix@ =~= gather_rot(buf@, w as int, h as int, x as int, y as int));
    }
    pix
}

/// Pass 1 (diagonal seed): builds the whole target buffer in raster order.
/// Three sub-pixels of each 2x2 block copy the source pixel of the block;
/// the bottom-right sub-pixel is interpolated from the source neighborhood.
fn pass1(data: &Vec<u32>, w: usize, h: usize) -> (out: Vec<u32>)
    requires
        1 <= w <= 0x1000_0000,
        1 <= h <= 0x1000_0000,
        w * h <= 0x1000_0000,
        data@.len() == w * h,
    ensures
        out@ == pass1_out(data@, w as int, h as int),
        out@.len() == 4 * w * h,
{
    let wp = wp_seed_x();
    let wh: usize = w * h;
    let total: usize = 4 * wh;
    proof {
        assert(total == 4 * w * h) by (nonlinear_arith)
            requires
                wh == w * h,
                total == 4 * wh,
        ;
    }
    let ow: usize = 2 * w;
    let mut out: Vec<u32> = Vec::new();
    let mut i: usize = 0;
    while i < total
        invariant
            1 <= w <= 0x1000_0000,
            1 <= h <= 0x1000_0000,
            w * h <= 0x1000_0000,
            data@.len() == w * h,
            total == 4 * w * h,
            ow == 2 * w,
            wp@.len() == 6,
            to_ints(wp@) == wp_seed(),
            forall|k: int| 0 <= k < 6 ==> -64 <= #[trigger] wp@[k] <= 64,
            i <= total,
            out@.len() == i,
            forall|j: int|
                0 <= j < i ==> #[trigger] out@[j] == pass1_px(
                    data@,
                    w as int,
                    h as int,
                    j % (2 * w as int),
                    j / (2 * w as int),
                ),
        decreases total - i,
    {
        let x = i % ow;
        let y = i / ow;
        proof {
            assert(y < 2 * h) by (nonlinear_arith)
                requires
                    i < 4 * w * h,
                    ow == 2 * w,
                    w >= 1,
                    h >= 1,
                    y == (i as int) / (ow as int),
            ;
        }
        let px: u32;
        if x % 2 == 1 && y % 2 == 1 {
            let pix = gather_axis_x(data, w, h, (x / 2) as i64 - 1, (y / 2) as i64 - 1);
            px = kernel_pixel(&pix, &wp, W_A1, W_B1);
        } else {
            proof {
                assert((y as int / 2) * (w as int) + (x as int / 2) < w * h) by (nonlinear_arith)
                    requires
                        0 <= x < 2 * w,
                        0 <= y < 2 * h,
                        w >= 1,
                        h >= 1,
                ;
            }
            px = data[(y / 2) * w + (x / 2)];
        }
        out.push(px);
        i = i + 1;
    }
    proof {
        assert(out@ =~= pass1_out(data@, w as int, h as int));
    }
    out
}

/// Pass 2 (cross fill): rewrites the top-right and bottom-left sub-pixels
/// of every 2x2 block, in raster order of blocks, reading each rotated
/// neighborhood from the target buffer as it stands at that moment.
fn pass2(out: &mut Vec<u32>, data: Ghost<Seq<u32>>, w: usize, h: usize)
    requires
        1 <= w <= 0x1000_0000,
        1 <= h <= 0x1000_0000,
        w * h <= 0x1000_0000,
        data@.len() == w * h,
        old(out)@ == pass1_out(data@, w as int, h as int),
        old(out)@.len() == 4 * w * h,
    ensures
        final(out)@ == pass2_upto(data@, w as int, h as int, (w * h) as int),
        final(out)@.len() == 4 * w * h,
{
    let wp = wp_cross_x();
    let n: usize = w * h;
    let ow: usize = 2 * w;
    let mut k: usize = 0;
    proof {
        assert(pass2_upto(data@, w as int, h as int, 0) == pass1_out(data@, w as int, h as int));
    }
    while k < n
        invariant
            1 <= w <= 0x1000_0000,
            1 <= h <= 0x1000_0000,
            w * h <= 0x1000_0000,
            data@.len() == w * h,
            n == w * h,
            ow == 2 * w,
            wp@.len() == 6,
            to_ints(wp@) == wp_cross(),
            forall|j: int| 0 <= j < 6 ==> -64 <= #[trigger] wp@[j] <= 64,
            k <= n,
            out@ == pass2_upto(data@, w as int, h as int, k as int),
            out@.len() == 4 * w * h,
        decreases n - k,
    {
        let bx = k % w;
        let by = k / w;
        proof {
            assert(by < h) by (nonlinear_arith)
                requires
                    k < w * h,
                    w >= 1,
                    h >= 1,
                    by == k as int / w as int,
            ;
            assert(out@.len() == (2 * w) * (2 * h) && (2 * w as int) * (2 * h as int)
                <= 0x4000_0000) by (nonlinear_arith)
                requires
                    out@.len() == 4 * w * h,
                    w * h <= 0x1000_0000,
            ;
        }
        let x = 2 * bx;
        let y = 2 * by;
        let pixa = gather_rot_x(out, ow, 2 * h, x as i64, y as i64);
        let va = kernel_pixel(&pixa, &wp, W_A2, W_B2);
        proof {
            assert((y as int) * (2 * w as int) + x as int + 1 < 4 * w * h) by (nonlinear_arith)
                requires
                    0 <= x <= 2 * w - 2,
                    0 <= y <= 2 * h - 2,
                    w >= 1,
                    h >= 1,
            ;
        }
        let i1 = y * ow + x + 1;
        out[i1] = va;
        proof {
            assert(out@.len() == (2 * w) * (2 * h) && (2 * w as int) * (2 * h as int)
                <= 0x4000_0000) by (nonlinear_arith)
                requires
                    out@.len() == 4 * w * h,
                    w * h <= 0x1000_0000,
            ;
        }
        let pixb = gather_rot_x(out, ow, 2 * h, x as i64 - 1, y as i64 + 1);
        let vb = kernel_pixel(&pixb, &wp, W_A2, W_B2);
        proof {
            assert((y as int + 1) * (2 * w as int) + (x as int) < 4 * w * h) by (nonlinear_arith)
                requires
                    0 <= x <= 2 * w - 2,
                    0 <= y <= 2 * h - 2,
                    w >= 1,
                    h >= 1,
            ;
        }
        let i2 = (y + 1) * ow + x;
        out[i2] = vb;
        proof {
            assert(out@ == pass2_block(
                pass2_upto(data@, w as int, h as int, k as int),
                w as int,
                h as int,
                x as int,
                y as int,
            ));
            assert(x as int == 2 * ((k as int) % (w as int)));
            assert(y as int == 2 * ((k as int) / (w as int)));
        }
        k = k + 1;
    }
}

/// Pass 3 (global refinement): overwrites every pixel of the target buffer
/// in strictly decreasing raster order, reading each axis-aligned
/// neighborhood from the buffer as it stands at that moment, so reads may
/// observe values already rewritten by this pass.
fn pass3(out: &mut Vec<u32>, data: Ghost<Seq<u32>>, w: usize, h: usize)
    requires
        1 <= w <= 0x1000_0000,
        1 <= h <= 0x1000_0000,
        w * h <= 0x1000_0000,
        data@.len() == w * h,
        old(out)@ == pass2_upto(data@, w as int, h as int, (w * h) as int),
        old(out)@.len() == 4 * w * h,
    ensures
        final(out)@ == scale_spec(data@, w as int, h as int),
        final(out)@.len() == 4 * w * h,
{
    let wp = wp_refine_x();
    let wh: usize = w * h;
    let total: usize = 4 * wh;
    proof {
        assert(total == 4 * w * h) by (nonlinear_arith)
            requires
                wh == w * h,
                total == 4 * wh,
        ;
    }
    let ow: usize = 2 * w;
    let mut n: usize = 0;
    proof {
        assert(pass3_upto(data@, w as int, h as int, 0) == pass2_upto(
            data@,
            w as int,
            h as int,
            (w * h) as int,
        ));
    }
    while n < total
        invariant
            1 <= w <= 0x1000_0000,
            1 <= h <= 0x1000_0000,
            w * h <= 0x1000_0000,
            data@.len() == w * h,
            total == 4 * w * h,
            ow == 2 * w,
            wp@.len() == 6,
            to_ints(wp@) == wp_refine(),
            forall|j: int| 0 <= j < 6 ==> -64 <= #[trigger] wp@[j] <= 64,
            n <= total,
            out@ == pass3_upto(data@, w as int, h as int, n as int),
            out@.len() == 4 * w * h,
        decreases total - n,
    {
        let i = total - 1 - n;
        let x = i % ow;
        let y = i / ow;
        proof {
            assert(out@.len() == (2 * w) * (2 * h) && (2 * w as int) * (2 * h as int)
                <= 0x4000_0000) by (nonlinear_arith)
                requires
                    out@.len() == 4 * w * h,
                    w * h <= 0x1000_0000,
            ;
        }
        let pix = gather_axis_x(out, ow, 2 * h, x as i64 - 2, y as i64 - 2);
        let v = kernel_pixel(&pix, &wp, W_A1, W_B1);
        out[i] = v;
        proof {
            assert(out@ == pass3_step(
                pass3_upto(data@, w as int, h as int, n as int),
                w as int,
                h as int,
                i as int,
            ));
            assert(i as int == 4 * (w as int) * (h as int) - (n as int + 1));
        }
        n = n + 1;
    }
}

/// Doubles a `width` by `height` packed RGBA8888 buffer with the
/// edge-directed three-pass filter.  The output buffer holds exactly
/// `2*width` by `2*height` pixels and equals the spec-level model
/// `scale_spec` pixel for pixel; a source with zero width or zero height is
/// rejected.
pub fn scale(data: &Vec<u32>, width: usize, height: usize) -> (r: Result<Vec<u32>, ScaleError>)
    requires
        data@.len() == width * height,
        width <= 0x1000_0000,
        height <= 0x1000_0000,
        width * height <= 0x1000_0000,
    ensures
        r is Err <==> width == 0 || height == 0,
        r is Err ==> r == Result::<Vec<u32>, ScaleError>::Err(ScaleError::EmptyInput),
        r is Ok ==> (r->Ok_0)@ == scale_spec(data@, width as int, height as int),
        r is Ok ==> (r->Ok_0)@.len() == 4 * width * height,
{
    if width == 0 || height == 0 {
        return Err(ScaleError::EmptyInput);
    }
    let mut out = pass1(data, width, height);
    pass2(&mut out, Ghost(data@), width, height);
    pass3(&mut out, Ghost(data@), width, height);
    Ok(out)
}

} // verus!
