//! ANSI colour palettes: the 16 base colours, the 6×6×6 colour cube and the
//! grayscale ramp of the 256-colour table.

use vstd::prelude::*;

verus! {

/// The 16 base ANSI colours (normal 0–7, bright 8–15) as `[R, G, B]`.
pub open spec fn ansi_16(k: int) -> [u8; 3] {
    if k == 0 { [0, 0, 0] }
    else if k == 1 { [170, 0, 0] }
    else if k == 2 { [0, 170, 0] }
    else if k == 3 { [170, 170, 0] }
    else if k == 4 { [0, 0, 170] }
    else if k == 5 { [170, 0, 170] }
    else if k == 6 { [0, 170, 170] }
    else if k == 7 { [170, 170, 170] }
    else if k == 8 { [85, 85, 85] }
    else if k == 9 { [255, 85, 85] }
    else if k == 10 { [85, 255, 85] }
    else if k == 11 { [255, 255, 85] }
    else if k == 12 { [85, 85, 255] }
    else if k == 13 { [255, 85, 255] }
    else if k == 14 { [85, 255, 255] }
    else { [255, 255, 255] }
}

/// Intensity of one axis of the 6×6×6 colour cube (`v` in `0..6`).
pub open spec fn cube_level(v: int) -> u8 {
    if v == 0 { 0 } else { (55 + v * 40) as u8 }
}

/// The colour of entry `n` of the 256-colour table. Entries 0–15 are the
/// base colours, 16–231 the colour cube, 232–255 the grayscale ramp. Larger
/// indices continue the ramp with the byte arithmetic wrapping modulo 256.
pub open spec fn ansi_256(n: int) -> [u8; 3] {
    if n < 16 {
        ansi_16(n)
    } else if n < 232 {
        let m = n - 16;
        [cube_level(m / 36), cube_level((m % 36) / 6), cube_level(m % 6)]
    } else {
        let v = ((8 + 10 * (n - 232)) % 256) as u8;
        [v, v, v]
    }
}

/// Base colour `k` (`k < 16`) of the ANSI palette.
pub fn ansi_16_color(k: usize) -> (rgb: [u8; 3])
    requires
        k < 16,
    ensures
        rgb == ansi_16(k as int),
{
    match k {
        0 => [0, 0, 0],
        1 => [170, 0, 0],
        2 => [0, 170, 0],
        3 => [170, 170, 0],
        4 => [0, 0, 170],
        5 => [170, 0, 170],
        6 => [0, 170, 170],
        7 => [170, 170, 170],
        8 => [85, 85, 85],
        9 => [255, 85, 85],
        10 => [85, 255, 85],
        11 => [255, 255, 85],
        12 => [85, 85, 255],
        13 => [255, 85, 255],
        14 => [85, 255, 255],
        _ => [255, 255, 255],
    }
}

proof fn lemma_gray_wraps(k: int)
    requires
        k >= 0,
    ensures
        (8 + 10 * (k % 256)) % 256 == (8 + 10 * k) % 256,
{
    let q = k / 256;
    let r = k % 256;
    assert(k == 256 * q + r) by (nonlinear_arith)
        requires
            q == k / 256,
            r == k % 256,
    ;
    assert(8 + 10 * k == (8 + 10 * r) + 256 * (10 * q)) by (nonlinear_arith)
        requires
            k == 256 * q + r,
    ;
    vstd::arithmetic::div_mod::lemma_mod_multiples_vanish(10 * q, 8 + 10 * r, 256);
}

/// Converts an index of the 256-colour table to RGB.
pub fn ansi_256_color(n: usize) -> (rgb: [u8; 3])
    ensures
        rgb == ansi_256(n as int),
{
    if n < 16 {
        ansi_16_color(n)
    } else if n < 232 {
        let m = n - 16;
        let r = m / 36;
        let g = (m % 36) / 6;
        let b = m % 6;
        [cube_byte(r), cube_byte(g), cube_byte(b)]
    } else {
        let k: usize = (n - 232) % 256;
        proof {
            lemma_gray_wraps(n - 232);
        }
        let v: u8 = ((8 + k * 10) % 256) as u8;
        [v, v, v]
    }
}

fn cube_byte(v: usize) -> (b: u8)
    requires
        v < 6,
    ensures
        b == cube_level(v as int),
{
    if v == 0 {
        0
    } else {
        55 + (v as u8) * 40
    }
}

} // verus!
