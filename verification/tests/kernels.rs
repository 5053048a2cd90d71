use paper_experiments::doubles::{nearest_double, settled_byte, stored_byte, LIMIT, UNIT};
use paper_experiments::pixel::{
    C_0_08131, C_0_114, C_0_16874, C_0_299, C_0_33126, C_0_34414, C_0_41869, C_0_5, C_0_587,
    C_0_71414, C_128, C_1_402, C_1_772,
};
use paper_experiments::rgba_to_yuv::bgr_to_yuv;
use paper_experiments::yuv_to_rgba::yuv_to_bgr;

/// The forward formula evaluated in double precision and cut to a byte.
fn forward_in_doubles(b: u8, g: u8, r: u8) -> (u8, u8, u8) {
    let (b, g, r) = (b as f64, g as f64, r as f64);
    let y = 0.299 * r + 0.587 * g + 0.114 * b;
    let u = -0.16874 * r - 0.33126 * g + 0.5 * b + 128.0;
    let v = 0.5 * r - 0.41869 * g - 0.08131 * b + 128.0;
    (y as u8, u as u8, v as u8)
}

/// The inverse formula evaluated in double precision and cut to a byte.
fn inverse_in_doubles(y: u8, u: u8, v: u8) -> (u8, u8, u8) {
    let y: f64 = y as f64;
    let u: f64 = ((u as i16) - 128) as f64;
    let v: f64 = ((v as i16) - 128) as f64;
    let r = (y + v * 1.40200) as u8;
    let g = (y + u * -0.34414 + v * -0.71414) as u8;
    let b = (y + u * 1.77200) as u8;
    (b, g, r)
}

/// Compares the forward kernel with the double-precision evaluation for every
/// pixel whose red lies in `reds`.
fn check_forward(reds: std::ops::Range<u32>) {
    for r in reds {
        for g in 0..=255u32 {
            for b in 0..=255u32 {
                assert_eq!(
                    bgr_to_yuv(b as u8, g as u8, r as u8),
                    forward_in_doubles(b as u8, g as u8, r as u8)
                );
            }
        }
    }
}

/// Compares the inverse kernel with the double-precision evaluation for every
/// sample whose blue-difference chroma lies in `us`.
fn check_inverse(us: std::ops::Range<u32>) {
    for u in us {
        for v in 0..=255u32 {
            for y in 0..=255u32 {
                assert_eq!(
                    yuv_to_bgr(y as u8, u as u8, v as u8),
                    inverse_in_doubles(y as u8, u as u8, v as u8)
                );
            }
        }
    }
}

#[test]
fn forward_kernel_on_primaries() {
    assert_eq!(bgr_to_yuv(0, 0, 255), (76, 84, 255));
    assert_eq!(bgr_to_yuv(0, 255, 0), (149, 43, 21));
    assert_eq!(bgr_to_yuv(255, 0, 0), (29, 255, 107));
}

#[test]
fn forward_kernel_on_greys() {
    assert_eq!(bgr_to_yuv(0, 0, 0), (0, 128, 128));
    // The three products of 128 add up to a double a little short of 128.
    assert_eq!(bgr_to_yuv(128, 128, 128), (127, 128, 128));
    assert_eq!(bgr_to_yuv(127, 127, 127), (126, 128, 128));
    assert_eq!(bgr_to_yuv(100, 100, 100), (100, 128, 128));
    assert_eq!(bgr_to_yuv(255, 255, 255), (255, 128, 128));
}

#[test]
fn forward_kernel_on_a_mixed_colour() {
    // 0.299 * 90 + 0.587 * 200 + 0.114 * 10 = 145.45
    // -0.16874 * 90 - 0.33126 * 200 + 0.5 * 10 + 128 = 51.5614
    // 0.5 * 90 - 0.41869 * 200 - 0.08131 * 10 + 128 = 88.4489
    assert_eq!(bgr_to_yuv(10, 200, 90), (145, 51, 88));
}

#[test]
fn inverse_kernel_on_grey_is_grey() {
    for y in 0..=255u8 {
        assert_eq!(yuv_to_bgr(y, 128, 128), (y, y, y));
    }
}

#[test]
fn more_luma_never_gives_less_of_a_channel() {
    for u in (0..=255u8).step_by(5) {
        for v in (0..=255u8).step_by(3) {
            let mut before = yuv_to_bgr(0, u, v);
            for y in 1..=255u8 {
                let now = yuv_to_bgr(y, u, v);
                assert!(before.0 <= now.0 && before.1 <= now.1 && before.2 <= now.2);
                before = now;
            }
        }
    }
}

#[test]
fn more_of_a_channel_never_gives_less_luma() {
    for g in (0..=255u8).step_by(5) {
        for b in (0..=255u8).step_by(3) {
            for r in 1..=255u8 {
                assert!(bgr_to_yuv(b, g, r - 1).0 <= bgr_to_yuv(b, g, r).0);
                assert!(bgr_to_yuv(r - 1, g, b).0 <= bgr_to_yuv(r, g, b).0);
                assert!(bgr_to_yuv(b, r - 1, g).0 <= bgr_to_yuv(b, r, g).0);
            }
        }
    }
}

#[test]
fn inverse_kernel_truncates() {
    // red: 76 + 1.402 * 127 = 254.054; green: 76 + 0.34414 * 44 - 0.71414 * 127 < 0;
    // blue: 76 - 1.772 * 44 < 0
    assert_eq!(yuv_to_bgr(76, 84, 255), (0, 0, 254));
    // blue: 200 - 1.772 * 38 = 132.664; green: 200 + 13.07732 - 22.85248 = 190.22484;
    // red: 200 + 1.402 * 32 = 244.864
    assert_eq!(yuv_to_bgr(200, 90, 160), (132, 190, 244));
}

#[test]
fn inverse_kernel_holds_to_the_range_of_a_byte() {
    // blue: 255 + 1.772 * 127 = 480.044; red: 255 + 1.402 * 127 = 433.054
    assert_eq!(yuv_to_bgr(255, 255, 255), (255, 120, 255));
    // blue: -226.816; green: 0 + 44.04992 + 91.40992 = 135.45984; red: -179.456
    assert_eq!(yuv_to_bgr(0, 0, 0), (0, 135, 0));
}

#[test]
fn a_whole_value_may_be_stored_as_one_less() {
    // Exact green is 94 + 34.414 - 71.414 = 57; the sum of doubles falls short
    // of 57.
    assert_eq!(yuv_to_bgr(94, 28, 228), (0, 56, 234));
    assert_eq!(yuv_to_bgr(93, 28, 228), (0, 56, 233));
    // Exact luma is 0.587 * 72 + 0.114 * 24 = 45; the sum of doubles falls short
    // of 45.
    assert_eq!(bgr_to_yuv(24, 72, 0).0, 44);
    // Exact luma is 255, and so is the sum of doubles.
    assert_eq!(bgr_to_yuv(255, 255, 255).0, 255);
}

#[test]
fn the_nearest_double_is_the_one_that_conversion_gives() {
    let mut state: u64 = 0x9e37_79b9_7f4a_7c15;
    let mut next = || {
        state ^= state << 13;
        state ^= state >> 7;
        state ^= state << 17;
        state
    };
    for _ in 0..200_000 {
        let wide = ((next() as i128) << 4) | (next() as i128 & 15);
        for shift in [1, 4, 9, 13, 14, 15, 16, 20, 40] {
            let n = wide >> shift;
            assert!(n < LIMIT);
            assert_eq!(nearest_double(n), (n as f64) as i128);
            assert_eq!(nearest_double(-n), ((-n) as f64) as i128);
        }
    }
}

#[test]
fn the_coefficients_are_the_doubles_of_their_decimals() {
    // Scaling a double by a power of two changes nothing but its exponent.
    let unit = UNIT as f64;
    assert_eq!(unit, 2f64.powi(56));
    for (parts, double) in [
        (C_0_299, 0.299),
        (C_0_587, 0.587),
        (C_0_114, 0.114),
        (C_0_16874, 0.16874),
        (C_0_33126, 0.33126),
        (C_0_5, 0.5),
        (C_0_41869, 0.41869),
        (C_0_08131, 0.08131),
        (C_1_402, 1.402),
        (C_0_34414, 0.34414),
        (C_0_71414, 0.71414),
        (C_1_772, 1.772),
        (C_128, 128.0),
    ] {
        assert_eq!(parts as f64, double * unit);
        assert_eq!((double * unit) as i128, parts);
    }
}

#[test]
fn the_nearest_double_at_ties_has_an_even_significand() {
    let two_53: i128 = 1 << 53;
    assert_eq!(nearest_double(two_53 - 1), two_53 - 1);
    assert_eq!(nearest_double(two_53), two_53);
    assert_eq!(nearest_double(two_53 + 1), two_53);
    assert_eq!(nearest_double(two_53 + 2), two_53 + 2);
    assert_eq!(nearest_double(two_53 + 3), two_53 + 4);
    assert_eq!(nearest_double(-(two_53 + 3)), -(two_53 + 4));
    let two_54: i128 = 1 << 54;
    assert_eq!(nearest_double(two_54 + 1), two_54);
    assert_eq!(nearest_double(two_54 + 2), two_54);
    assert_eq!(nearest_double(two_54 + 3), two_54 + 4);
    assert_eq!(nearest_double(two_54 + 6), two_54 + 8);
    assert_eq!(nearest_double(two_54 - 1), two_54);
    assert_eq!(nearest_double(0), 0);
    assert_eq!(nearest_double(LIMIT - 1), LIMIT);
    assert_eq!(nearest_double(1 - LIMIT), -LIMIT);
}

#[test]
fn a_double_is_stored_truncated_and_held_to_range() {
    assert_eq!(stored_byte(0), 0);
    assert_eq!(stored_byte(UNIT - 1), 0);
    assert_eq!(stored_byte(UNIT), 1);
    assert_eq!(stored_byte(-1), 0);
    assert_eq!(stored_byte(-5 * UNIT), 0);
    assert_eq!(stored_byte(256 * UNIT - 1), 255);
    assert_eq!(stored_byte(256 * UNIT), 255);
    assert_eq!(stored_byte(i128::MAX), 255);
    assert_eq!(stored_byte(i128::MIN), 0);
}

#[test]
fn an_exact_value_is_settled_unless_it_is_a_whole_byte_above_zero() {
    assert_eq!(settled_byte(0, 1000), Some(0));
    assert_eq!(settled_byte(-1, 1000), Some(0));
    assert_eq!(settled_byte(i32::MIN, 1000), Some(0));
    assert_eq!(settled_byte(999, 1000), Some(0));
    assert_eq!(settled_byte(1000, 1000), None);
    assert_eq!(settled_byte(1001, 1000), Some(1));
    assert_eq!(settled_byte(255_000, 1000), None);
    assert_eq!(settled_byte(255_999, 1000), Some(255));
    assert_eq!(settled_byte(256_000, 1000), Some(255));
    assert_eq!(settled_byte(i32::MAX, 1000), Some(255));
    assert_eq!(settled_byte(12_800_000, 100_000), None);
    assert_eq!(settled_byte(12_800_001, 100_000), Some(128));
}

#[test]
fn forward_kernel_against_doubles_first_quarter() {
    check_forward(0..64);
}

#[test]
fn forward_kernel_against_doubles_second_quarter() {
    check_forward(64..128);
}

#[test]
fn forward_kernel_against_doubles_third_quarter() {
    check_forward(128..192);
}

#[test]
fn forward_kernel_against_doubles_fourth_quarter() {
    check_forward(192..256);
}

#[test]
fn inverse_kernel_against_doubles_first_quarter() {
    check_inverse(0..64);
}

#[test]
fn inverse_kernel_against_doubles_second_quarter() {
    check_inverse(64..128);
}

#[test]
fn inverse_kernel_against_doubles_third_quarter() {
    check_inverse(128..192);
}

#[test]
fn inverse_kernel_against_doubles_fourth_quarter() {
    check_inverse(192..256);
}
