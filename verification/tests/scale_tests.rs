use cabal_extract::kernel::{clamp, clamp64, diagonal_edge, interpolate, minv, maxv};
use cabal_extract::pixel::{alpha_of, blue_of, green_of, pack, red_of};
use cabal_extract::scale::{scale, ScaleError};

fn uniform_buffer(c: u32, n: usize) -> Vec<u32> {
    let mut v = Vec::new();
    for _ in 0..n {
        v.push(c);
    }
    v
}

#[test]
fn channels_round_trip() {
    let p = pack(0x12, 0x34, 0x56, 0x78);
    assert_eq!(p, 0x78563412);
    assert_eq!(red_of(p), 0x12);
    assert_eq!(green_of(p), 0x34);
    assert_eq!(blue_of(p), 0x56);
    assert_eq!(alpha_of(p), 0x78);
}

#[test]
fn clamp_matches_reference_behaviour() {
    assert_eq!(clamp(5, 0, 255), 5);
    assert_eq!(clamp(-3, 0, 255), 0);
    assert_eq!(clamp(300, 0, 255), 255);
    // when the bounds cross, the upper test wins
    assert_eq!(clamp(5, 10, 3), 3);
    assert_eq!(clamp(2, 10, 3), 10);
    assert_eq!(clamp64(-7, -5, 12), -5);
    assert_eq!(clamp64(40, -5, 12), 12);
}

#[test]
fn minv_maxv_pick_extremes() {
    let v: Vec<i64> = vec![4, -2, 9, 9, 0];
    assert_eq!(minv(&v), -2);
    assert_eq!(maxv(&v), 9);
    let single: Vec<i64> = vec![7];
    assert_eq!(minv(&single), 7);
    assert_eq!(maxv(&single), 7);
}

#[test]
fn diagonal_edge_zero_on_flat_matrix() {
    let mat: Vec<i64> = vec![1000; 16];
    let wp: Vec<i64> = vec![2, 1, -1, 4, -1, 1];
    assert_eq!(diagonal_edge(&mat, &wp), 0);
}

#[test]
fn diagonal_edge_antisymmetric_under_mirror() {
    // mirroring the matrix along its second axis negates the decision
    let mat: Vec<i64> = vec![
        10, 250, 3, 77, 199, 0, 255, 41, 86, 13, 220, 5, 64, 128, 9, 180,
    ];
    let mut mirrored: Vec<i64> = Vec::new();
    for i in 0..4 {
        for j in 0..4 {
            mirrored.push(mat[4 * i + (3 - j)]);
        }
    }
    for wp in [
        vec![2i64, 1, -1, 4, -1, 1],
        vec![2i64, 0, 0, 0, 0, 0],
        vec![2i64, 1, -1, 40, -1, 1],
    ] {
        let d = diagonal_edge(&mat, &wp);
        let dm = diagonal_edge(&mirrored, &wp);
        assert_eq!(dm, -d);
    }
}

#[test]
fn diagonal_edge_exact_value() {
    // cell (i, j) holds (4i+j)^2; the two weighted scores are 360 and 600
    let mut mat: Vec<i64> = Vec::new();
    for k in 0..16i64 {
        mat.push(k * k);
    }
    let wp: Vec<i64> = vec![2, 1, -1, 4, -1, 1];
    assert_eq!(diagonal_edge(&mat, &wp), -240);
}

#[test]
fn interpolate_exact_values() {
    let mut ch: Vec<i64> = Vec::new();
    for k in 0..16i64 {
        ch.push(k * k);
    }
    // edge <= 0 blends cells (0,3),(3,0),(1,2),(2,1); the other sign blends
    // the main-diagonal cells; both are clamped by the four center samples
    assert_eq!(interpolate(&ch, -129_633, 629_633, -1), 54);
    assert_eq!(interpolate(&ch, -129_633, 629_633, 1), 50);
}

#[test]
fn interpolate_blends_uniform_matrix_to_itself() {
    let ch: Vec<i64> = vec![200; 16];
    assert_eq!(interpolate(&ch, -129_633, 629_633, 0), 200);
    assert_eq!(interpolate(&ch, -175_068, 675_068, 123), 200);
}

#[test]
fn interpolate_clamps_into_byte_range() {
    // extreme adjacent samples: the result stays within [0, 255]
    let mut ch: Vec<i64> = Vec::new();
    for k in 0..16 {
        ch.push(if k % 2 == 0 { 0 } else { 255 });
    }
    let r = interpolate(&ch, -129_633, 629_633, -1);
    assert!(r <= 255);
    let r2 = interpolate(&ch, -129_633, 629_633, 1);
    assert!(r2 <= 255);
}

#[test]
fn scale_rejects_empty_dimensions() {
    let empty: Vec<u32> = Vec::new();
    assert_eq!(scale(&empty, 0, 0), Err(ScaleError::EmptyInput));
    assert_eq!(scale(&empty, 0, 7), Err(ScaleError::EmptyInput));
    assert_eq!(scale(&empty, 7, 0), Err(ScaleError::EmptyInput));
}

#[test]
fn scale_output_has_doubled_dimensions() {
    for (w, h) in [(1usize, 1usize), (2, 2), (3, 1), (1, 4), (5, 3)] {
        let data = uniform_buffer(0x0a0b0c0d, w * h);
        let out = scale(&data, w, h).unwrap();
        assert_eq!(out.len(), 4 * w * h);
    }
}

#[test]
fn scale_keeps_uniform_color_uniform() {
    // flat-region invariant, exercised on all four channels at once
    let c = 0x7fc81132u32;
    let data = uniform_buffer(c, 6);
    let out = scale(&data, 3, 2).unwrap();
    assert_eq!(out.len(), 24);
    for px in out {
        assert_eq!(px, c);
    }
}

#[test]
fn scale_single_pixel_copies_all_channels() {
    let data = vec![0xDEADBEEFu32];
    let out = scale(&data, 1, 1).unwrap();
    assert_eq!(out, vec![0xDEADBEEF, 0xDEADBEEF, 0xDEADBEEF, 0xDEADBEEF]);
}

#[test]
fn scale_channel_extremes_stay_in_byte_range() {
    let data = vec![0x00000000u32, 0xFFFFFFFF, 0xFFFFFFFF, 0x00000000];
    let out = scale(&data, 2, 2).unwrap();
    assert_eq!(out.len(), 16);
    for px in out {
        // every channel of a packed pixel is one byte; nothing overflowed
        assert!(red_of(px) <= 255);
        assert!(green_of(px) <= 255);
        assert!(blue_of(px) <= 255);
        assert!(alpha_of(px) <= 255);
    }
}

#[test]
fn scale_two_by_two_golden_output() {
    // red, green / blue, white with full alpha; the exact 4x4 result is
    // pinned as a regression oracle for the fixed-point kernel
    let data = vec![0xFF0000FFu32, 0xFF00FF00, 0xFFFF0000, 0xFFFFFFFF];
    let out = scale(&data, 2, 2).unwrap();
    let expected: Vec<u32> = vec![
        0xff0000ff, 0xff150ebf, 0xff11a810, 0xff0cff0e,
        0xff3000df, 0xff50088a, 0xff30d100, 0xff4bff72,
        0xffd2002d, 0xffd13000, 0xffadd870, 0xffadffb1,
        0xffff0000, 0xfff23818, 0xffffd1f2, 0xffffffff,
    ];
    assert_eq!(out, expected);
}

#[test]
fn scale_two_by_one_golden_output() {
    let data = vec![0x00000000u32, 0xFFFFFFFF];
    let out = scale(&data, 2, 1).unwrap();
    let expected: Vec<u32> = vec![
        0x00000000, 0x0e0e0e0e, 0xa8a8a8a8, 0xffffffff,
        0x00000000, 0x08080808, 0xd1d1d1d1, 0xffffffff,
    ];
    assert_eq!(out, expected);
}
