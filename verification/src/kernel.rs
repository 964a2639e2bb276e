//! The two pure components of the upscaler: the edge-direction detector and
//! the per-channel interpolator.
//!
//! All arithmetic is exact fixed-point integer arithmetic.  Channel samples
//! are 8-bit values; luma values carry a factor of 10^4 (weights 0.2126,
//! 0.7152, 0.0722 become 2126, 7152, 722); interpolation coefficients carry
//! a factor of 10^6 (the tunable constants 0.129633 and 0.175068 become
//! 129633 and 175068).  Because no intermediate result is ever rounded, each
//! function is a pure, bit-reproducible function of its arguments.

use vstd::prelude::*;

use crate::pixel::{chan_a, chan_b, chan_g, chan_r, lemma_chan_bounds, pack_px};

verus! {

/// Fixed-point scale of the interpolation coefficients.
pub const FP_ONE: i64 = 1_000_000;

/// Absolute difference of two scalars.
pub open spec fn adf(a: int, b: int) -> int {
    if a >= b {
        a - b
    } else {
        b - a
    }
}

/// Clamp `v` into `[lo, hi]`; when the bounds cross, the upper test wins.
pub open spec fn clampi(v: int, lo: int, hi: int) -> int {
    if v > hi {
        hi
    } else if v < lo {
        lo
    } else {
        v
    }
}

/// Minimum of four scalars.
pub open spec fn min4(a: int, b: int, c: int, d: int) -> int {
    let x = if a <= b {
        a
    } else {
        b
    };
    let y = if c <= d {
        c
    } else {
        d
    };
    if x <= y {
        x
    } else {
        y
    }
}

/// Maximum of four scalars.
pub open spec fn max4(a: int, b: int, c: int, d: int) -> int {
    let x = if a >= b {
        a
    } else {
        b
    };
    let y = if c >= d {
        c
    } else {
        d
    };
    if x >= y {
        x
    } else {
        y
    }
}

/// A sequence of machine integers, read as mathematical integers.
pub open spec fn to_ints(s: Seq<i64>) -> Seq<int> {
    s.map_values(|x: i64| x as int)
}

/// Luma of a packed pixel, scaled by 10^4: 0.2126 R + 0.7152 G + 0.0722 B.
pub open spec fn luma(p: u32) -> int {
    2126 * chan_r(p) + 7152 * chan_g(p) + 722 * chan_b(p)
}

/// The luma matrix of a 4x4 pixel neighborhood (cell (i, j) at index 4i+j).
pub open spec fn lum_of(pix: Seq<u32>) -> Seq<int> {
    Seq::new(16, |k: int| luma(pix[k]))
}

/// The red channel matrix of a 4x4 pixel neighborhood.
pub open spec fn chan_seq_r(pix: Seq<u32>) -> Seq<int> {
    Seq::new(16, |k: int| chan_r(pix[k]) as int)
}

/// The green channel matrix of a 4x4 pixel neighborhood.
pub open spec fn chan_seq_g(pix: Seq<u32>) -> Seq<int> {
    Seq::new(16, |k: int| chan_g(pix[k]) as int)
}

/// The blue channel matrix of a 4x4 pixel neighborhood.
pub open spec fn chan_seq_b(pix: Seq<u32>) -> Seq<int> {
    Seq::new(16, |k: int| chan_b(pix[k]) as int)
}

/// The alpha channel matrix of a 4x4 pixel neighborhood.
pub open spec fn chan_seq_a(pix: Seq<u32>) -> Seq<int> {
    Seq::new(16, |k: int| chan_a(pix[k]) as int)
}

/// Weighted sum of the neighbor differences of the first diagonal group.
/// `m` is a 4x4 matrix with cell (i, j) at index 4i+j; `wp` holds the six
/// weight slots.
pub open spec fn dw_slash(m: Seq<int>, wp: Seq<int>) -> int {
    wp[0] * (adf(m[2], m[5]) + adf(m[5], m[8]) + adf(m[7], m[10]) + adf(m[10], m[13])) + wp[1] * (
    adf(m[3], m[6]) + adf(m[9], m[12])) + wp[2] * (adf(m[3], m[9]) + adf(m[6], m[12])) + wp[3]
        * adf(m[6], m[9]) + wp[4] * (adf(m[2], m[8]) + adf(m[7], m[13])) + wp[5] * (adf(
    m[1],
    m[4],
    ) + adf(m[11], m[14]))
}

/// Weighted sum of the neighbor differences of the second diagonal group.
pub open spec fn dw_backslash(m: Seq<int>, wp: Seq<int>) -> int {
    wp[0] * (adf(m[1], m[6]) + adf(m[6], m[11]) + adf(m[4], m[9]) + adf(m[9], m[14])) + wp[1] * (
    adf(m[0], m[5]) + adf(m[10], m[15])) + wp[2] * (adf(m[0], m[10]) + adf(m[5], m[15])) + wp[3]
        * adf(m[5], m[10]) + wp[4] * (adf(m[4], m[14]) + adf(m[1], m[11])) + wp[5] * (adf(
    m[2],
    m[7],
    ) + adf(m[8], m[13]))
}

/// The signed edge-direction decision: positive selects one diagonal
/// orientation, zero or negative the other.
pub open spec fn diag_edge(m: Seq<int>, wp: Seq<int>) -> int {
    dw_slash(m, wp) - dw_backslash(m, wp)
}

/// Ceiling of `v / 10^6` for non-negative `v`.
pub open spec fn ceil_div_fp(v: int) -> int {
    (v + (FP_ONE - 1)) / (FP_ONE as int)
}

/// Interpolated 8-bit channel value for a 4x4 channel matrix `c`, the two
/// fixed-point blend coefficients `wa` and `wb` (scaled by 10^6), and the
/// edge decision `e`.  The blend is clamped into the range spanned by the
/// four center samples (anti-ringing), rounded upward, and clamped to
/// `[0, 255]`.
pub open spec fn interp_chan(c: Seq<int>, wa: int, wb: int, e: int) -> int {
    let cand_a = wa * (c[3] + c[12]) + wb * (c[6] + c[9]);
    let cand_b = wa * (c[0] + c[15]) + wb * (c[5] + c[10]);
    let sel = if e <= 0 {
        cand_a
    } else {
        cand_b
    };
    let lo = min4(c[5], c[9], c[6], c[10]);
    let hi = max4(c[5], c[9], c[6], c[10]);
    clampi(ceil_div_fp(clampi(sel, lo * (FP_ONE as int), hi * (FP_ONE as int))), 0, 255)
}

/// The new packed pixel for a gathered 4x4 pixel neighborhood: one shared
/// edge decision computed from luma, then one interpolation per channel.
#[verifier::opaque]
pub open spec fn kernel_px(pix: Seq<u32>, wp: Seq<int>, wa: int, wb: int) -> u32 {
    let e = diag_edge(lum_of(pix), wp);
    pack_px(
        interp_chan(chan_seq_r(pix), wa, wb, e) as u32,
        interp_chan(chan_seq_g(pix), wa, wb, e) as u32,
        interp_chan(chan_seq_b(pix), wa, wb, e) as u32,
        interp_chan(chan_seq_a(pix), wa, wb, e) as u32,
    )
}

/// A 4x4 matrix whose sixteen cells all hold the same value.
pub open spec fn const16<A>(c: A) -> Seq<A> {
    Seq::new(16, |k: int| c)
}

/// The matrix mirrored along its second axis: cell (i, j) becomes cell
/// (i, 3-j), which exchanges the two diagonal orientations.
pub open spec fn mirror16(m: Seq<int>) -> Seq<int> {
    Seq::new(16, |k: int| m[4 * (k / 4) + 3 - (k % 4)])
}

/// Law: the edge-direction detector is antisymmetric under the relabeling
/// that exchanges the two diagonal orientations.  Mirroring the 4x4 matrix
/// along its second axis maps each neighbor-difference group of one diagonal
/// score onto the corresponding group of the other, so the signed decision
/// is exactly negated.
pub proof fn lemma_diag_edge_antisymmetric(m: Seq<int>, wp: Seq<int>)
    requires
        m.len() == 16,
        wp.len() == 6,
    ensures
        diag_edge(mirror16(m), wp) == -diag_edge(m, wp),
{
    assert(dw_slash(mirror16(m), wp) == dw_backslash(m, wp));
    assert(dw_backslash(mirror16(m), wp) == dw_slash(m, wp));
}

/// Every interpolated channel value lies in `[0, 255]`: the final clamp can
/// never be escaped, whatever the matrix, coefficients and edge decision.
pub proof fn lemma_interp_chan_range(c: Seq<int>, wa: int, wb: int, e: int)
    ensures
        0 <= interp_chan(c, wa, wb, e) <= 255,
{
}

/// On a uniform neighborhood the kernel reproduces the pixel exactly: all
/// differences vanish, so the edge decision is zero, and coefficients that
/// sum to half the fixed-point scale blend two copies of the center value
/// back to the center value.
pub proof fn lemma_kernel_uniform(c: u32, wp: Seq<int>, wa: int, wb: int)
    requires
        wp.len() == 6,
        wa + wb == 500_000,
    ensures
        kernel_px(const16(c), wp, wa, wb) == c,
{
    reveal(kernel_px);
    lemma_chan_bounds(c);
    let lum = lum_of(const16(c));
    assert(diag_edge(lum, wp) == 0) by {
        assert(forall|k: int| 0 <= k < 16 ==> lum[k] == luma(c));
    }
    lemma_interp_uniform(chan_r(c) as int, wa, wb);
    lemma_interp_uniform(chan_g(c) as int, wa, wb);
    lemma_interp_uniform(chan_b(c) as int, wa, wb);
    lemma_interp_uniform(chan_a(c) as int, wa, wb);
    assert(chan_seq_r(const16(c)) =~= const16(chan_r(c) as int));
    assert(chan_seq_g(const16(c)) =~= const16(chan_g(c) as int));
    assert(chan_seq_b(const16(c)) =~= const16(chan_b(c) as int));
    assert(chan_seq_a(const16(c)) =~= const16(chan_a(c) as int));
    crate::pixel::lemma_chan_pack(c);
}

/// Interpolating a uniform channel matrix returns the channel value itself,
/// for any edge decision and any coefficients that sum to half the scale.
pub proof fn lemma_interp_uniform(v: int, wa: int, wb: int)
    requires
        0 <= v <= 255,
        wa + wb == 500_000,
    ensures
        interp_chan(const16(v), wa, wb, 0) == v,
        forall|e: int| interp_chan(const16(v), wa, wb, e) == v,
{
    assert forall|e: int| interp_chan(const16(v), wa, wb, e) == v by {
        let c = const16(v);
        assert(wa * (c[3] + c[12]) + wb * (c[6] + c[9]) == v * 1_000_000) by (nonlinear_arith)
            requires
                c[3] == v && c[12] == v && c[6] == v && c[9] == v,
                wa + wb == 500_000,
        ;
        assert(wa * (c[0] + c[15]) + wb * (c[5] + c[10]) == v * 1_000_000) by (nonlinear_arith)
            requires
                c[0] == v && c[15] == v && c[5] == v && c[10] == v,
                wa + wb == 500_000,
        ;
        assert(clampi(v * 1_000_000, v * 1_000_000, v * 1_000_000) == v * 1_000_000);
        assert((v * 1_000_000 + 999_999) / 1_000_000 == v) by (nonlinear_arith)
            requires
                0 <= v,
        ;
    }
}

/// Clamp an `i32` into `[floor, ceil]`, testing the input against both
/// bounds in turn; when the bounds cross, the upper bound wins.
pub fn clamp(v: i32, floor: i32, ceil: i32) -> (out: i32)
    ensures
        out == clampi(v as int, floor as int, ceil as int),
{
    let mut out = v;
    if v < floor {
        out = floor;
    }
    if v > ceil {
        out = ceil;
    }
    out
}

/// Clamp an `i64` into `[floor, ceil]` in the same way as `clamp`.
pub fn clamp64(v: i64, floor: i64, ceil: i64) -> (out: i64)
    ensures
        out == clampi(v as int, floor as int, ceil as int),
{
    let mut out = v;
    if v < floor {
        out = floor;
    }
    if v > ceil {
        out = ceil;
    }
    out
}

/// Smallest element of a non-empty vector.
pub fn minv(v: &Vec<i64>) -> (m: i64)
    requires
        v@.len() > 0,
    ensures
        forall|i: int| 0 <= i < v@.len() ==> m <= #[trigger] v@[i],
        exists|i: int| 0 <= i < v@.len() && m == v@[i],
{
    let mut m: i64 = v[0];
    let mut k: usize = 1;
    while k < v.len()
        invariant
            1 <= k <= v@.len(),
            forall|i: int| 0 <= i < k ==> m <= #[trigger] v@[i],
            exists|i: int| 0 <= i < k && m == v@[i],
        decreases v@.len() - k,
    {
        if v[k] < m {
            m = v[k];
        }
        k = k + 1;
    }
    m
}

/// Largest element of a non-empty vector.
pub fn maxv(v: &Vec<i64>) -> (m: i64)
    requires
        v@.len() > 0,
    ensures
        forall|i: int| 0 <= i < v@.len() ==> m >= #[trigger] v@[i],
        exists|i: int| 0 <= i < v@.len() && m == v@[i],
{
    let mut m: i64 = v[0];
    let mut k: usize = 1;
    while k < v.len()
        invariant
            1 <= k <= v@.len(),
            forall|i: int| 0 <= i < k ==> m >= #[trigger] v@[i],
            exists|i: int| 0 <= i < k && m == v@[i],
        decreases v@.len() - k,
    {
        if v[k] > m {
            m = v[k];
        }
        k = k + 1;
    }
    m
}

/// Absolute difference of two bounded scalars.
fn adf_x(a: i64, b: i64) -> (r: i64)
    requires
        -0x2000_0000 <= a <= 0x2000_0000,
        -0x2000_0000 <= b <= 0x2000_0000,
    ensures
        r == adf(a as int, b as int),
{
    if a >= b {
        a - b
    } else {
        b - a
    }
}

/// Product of a weight slot and a bounded group sum.
fn mul_w(w: i64, s: i64) -> (r: i64)
    requires
        -64 <= w <= 64,
        -0x400_0000 <= s <= 0x400_0000,
    ensures
        r == w * s,
        -0x1_0000_0000 <= r <= 0x1_0000_0000,
{
    proof {
        assert(-0x1_0000_0000 <= w * s <= 0x1_0000_0000) by (nonlinear_arith)
            requires
                -64 <= w <= 64,
                -0x400_0000 <= s <= 0x400_0000,
        ;
    }
    w * s
}

/// Product of a fixed-point coefficient and a bounded channel sum.
fn mul_c(w: i64, s: i64) -> (r: i64)
    requires
        -2_000_000 <= w <= 2_000_000,
        0 <= s <= 1024,
    ensures
        r == w * s,
        -0x1_0000_0000_0000 <= r <= 0x1_0000_0000_0000,
{
    proof {
        assert(-0x1_0000_0000_0000 <= w * s <= 0x1_0000_0000_0000) by (nonlinear_arith)
            requires
                -2_000_000 <= w <= 2_000_000,
                0 <= s <= 1024,
        ;
    }
    w * s
}

/// The signed edge-direction decision for a 4x4 scalar matrix `mat` (cell
/// (i, j) at index 4i+j) and a six-slot weight vector `wp`.  A result that
/// is zero or negative selects one diagonal interpolation candidate, a
/// positive result the other.
#[verifier::rlimit(60)]
pub fn diagonal_edge(mat: &Vec<i64>, wp: &Vec<i64>) -> (r: i64)
    requires
        mat@.len() == 16,
        wp@.len() == 6,
        forall|k: int| 0 <= k < 16 ==> -0x40_0000 <= #[trigger] mat@[k] <= 0x40_0000,
        forall|k: int| 0 <= k < 6 ==> -64 <= #[trigger] wp@[k] <= 64,
    ensures
        r == diag_edge(to_ints(mat@), to_ints(wp@)),
{
    let s10 = adf_x(mat[2], mat[5]) + adf_x(mat[5], mat[8]) + adf_x(mat[7], mat[10]) + adf_x(
        mat[10],
        mat[13],
    );
    let s11 = adf_x(mat[3], mat[6]) + adf_x(mat[9], mat[12]);
    let s12 = adf_x(mat[3], mat[9]) + adf_x(mat[6], mat[12]);
    let s13 = adf_x(mat[6], mat[9]);
    let s14 = adf_x(mat[2], mat[8]) + adf_x(mat[7], mat[13]);
    let s15 = adf_x(mat[1], mat[4]) + adf_x(mat[11], mat[14]);
    let dw1 = mul_w(wp[0], s10) + mul_w(wp[1], s11) + mul_w(wp[2], s12) + mul_w(wp[3], s13)
        + mul_w(wp[4], s14) + mul_w(wp[5], s15);

    let s20 = adf_x(mat[1], mat[6]) + adf_x(mat[6], mat[11]) + adf_x(mat[4], mat[9]) + adf_x(
        mat[9],
        mat[14],
    );
    let s21 = adf_x(mat[0], mat[5]) + adf_x(mat[10], mat[15]);
    let s22 = adf_x(mat[0], mat[10]) + adf_x(mat[5], mat[15]);
    let s23 = adf_x(mat[5], mat[10]);
    let s24 = adf_x(mat[4], mat[14]) + adf_x(mat[1], mat[11]);
    let s25 = adf_x(mat[2], mat[7]) + adf_x(mat[8], mat[13]);
    let dw2 = mul_w(wp[0], s20) + mul_w(wp[1], s21) + mul_w(wp[2], s22) + mul_w(wp[3], s23)
        + mul_w(wp[4], s24) + mul_w(wp[5], s25);

    dw1 - dw2
}

/// Interpolated channel value for a 4x4 channel matrix `ch` (8-bit samples),
/// fixed-point coefficients `wa`, `wb` and the shared edge decision `edge`.
pub fn interpolate(ch: &Vec<i64>, wa: i64, wb: i64, edge: i64) -> (r: u32)
    requires
        ch@.len() == 16,
        forall|k: int| 0 <= k < 16 ==> 0 <= #[trigger] ch@[k] <= 255,
        -2_000_000 <= wa <= 2_000_000,
        -2_000_000 <= wb <= 2_000_000,
    ensures
        r == interp_chan(to_ints(ch@), wa as int, wb as int, edge as int),
        r <= 255,
{
    let cand_a = mul_c(wa, ch[3] + ch[12]) + mul_c(wb, ch[6] + ch[9]);
    let cand_b = mul_c(wa, ch[0] + ch[15]) + mul_c(wb, ch[5] + ch[10]);
    let sel = if edge <= 0 {
        cand_a
    } else {
        cand_b
    };
    let lo_a = if ch[5] <= ch[9] {
        ch[5]
    } else {
        ch[9]
    };
    let lo_b = if ch[6] <= ch[10] {
        ch[6]
    } else {
        ch[10]
    };
    let lo = if lo_a <= lo_b {
        lo_a
    } else {
        lo_b
    };
    let hi_a = if ch[5] >= ch[9] {
        ch[5]
    } else {
        ch[9]
    };
    let hi_b = if ch[6] >= ch[10] {
        ch[6]
    } else {
        ch[10]
    };
    let hi = if hi_a >= hi_b {
        hi_a
    } else {
        hi_b
    };
    let v = clamp64(sel, lo * 1_000_000, hi * 1_000_000);
    let cd = ((v as u64 + 999_999) / 1_000_000) as i64;
    let ci = clamp64(cd, 0, 255);
    ci as u32
}

/// The upscaled pixel for one gathered 4x4 neighborhood: the edge decision
/// is computed once from luma and shared by the four channel interpolations.
pub fn kernel_pixel(pix: &Vec<u32>, wp: &Vec<i64>, wa: i64, wb: i64) -> (r: u32)
    requires
        pix@.len() == 16,
        wp@.len() == 6,
        forall|k: int| 0 <= k < 6 ==> -64 <= #[trigger] wp@[k] <= 64,
        -2_000_000 <= wa <= 2_000_000,
        -2_000_000 <= wb <= 2_000_000,
    ensures
        r == kernel_px(pix@, to_ints(wp@), wa as int, wb as int),
{
    let mut lum: Vec<i64> = Vec::new();
    let mut chr: Vec<i64> = Vec::new();
    let mut chg: Vec<i64> = Vec::new();
    let mut chb: Vec<i64> = Vec::new();
    let mut cha: Vec<i64> = Vec::new();
    let mut k: usize = 0;
    while k < 16
        invariant
            pix@.len() == 16,
            k <= 16,
            lum@.len() == k,
            chr@.len() == k,
            chg@.len() == k,
            chb@.len() == k,
            cha@.len() == k,
            forall|j: int| 0 <= j < k ==> #[trigger] lum@[j] == luma(pix@[j]),
            forall|j: int| 0 <= j < k ==> 0 <= #[trigger] lum@[j] <= 0x40_0000,
            forall|j: int| 0 <= j < k ==> #[trigger] chr@[j] == chan_r(pix@[j]),
            forall|j: int| 0 <= j < k ==> #[trigger] chg@[j] == chan_g(pix@[j]),
            forall|j: int| 0 <= j < k ==> #[trigger] chb@[j] == chan_b(pix@[j]),
            forall|j: int| 0 <= j < k ==> #[trigger] cha@[j] == chan_a(pix@[j]),
            forall|j: int| 0 <= j < k ==> 0 <= #[trigger] chr@[j] <= 255,
            forall|j: int| 0 <= j < k ==> 0 <= #[trigger] chg@[j] <= 255,
            forall|j: int| 0 <= j < k ==> 0 <= #[trigger] chb@[j] <= 255,
            forall|j: int| 0 <= j < k ==> 0 <= #[trigger] cha@[j] <= 255,
        decreases 16 - k,
    {
        let p = pix[k];
        let r = crate::pixel::red_of(p);
        let g = crate::pixel::green_of(p);
        let b = crate::pixel::blue_of(p);
        let a = crate::pixel::alpha_of(p);
        lum.push(2126 * (r as i64) + 7152 * (g as i64) + 722 * (b as i64));
        chr.push(r as i64);
        chg.push(g as i64);
        chb.push(b as i64);
        cha.push(a as i64);
        k = k + 1;
    }
    let edge = diagonal_edge(&lum, wp);
    proof {
        reveal(kernel_px);
        assert(to_ints(lum@) =~= lum_of(pix@));
        assert(to_ints(chr@) =~= chan_seq_r(pix@));
        assert(to_ints(chg@) =~= chan_seq_g(pix@));
        assert(to_ints(chb@) =~= chan_seq_b(pix@));
        assert(to_ints(cha@) =~= chan_seq_a(pix@));
    }
    let rr = interpolate(&chr, wa, wb, edge);
    let gg = interpolate(&chg, wa, wb, edge);
    let bb = interpolate(&chb, wa, wb, edge);
    let aa = interpolate(&cha, wa, wb, edge);
    proof {
        lemma_interp_chan_range(chan_seq_r(pix@), wa as int, wb as int, edge as int);
        lemma_interp_chan_range(chan_seq_g(pix@), wa as int, wb as int, edge as int);
        lemma_interp_chan_range(chan_seq_b(pix@), wa as int, wb as int, edge as int);
        lemma_interp_chan_range(chan_seq_a(pix@), wa as int, wb as int, edge as int);
    }
    crate::pixel::pack(rr, gg, bb, aa)
}

} // verus!
