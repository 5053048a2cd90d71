//! The colour transform between a pixel and its samples.
//!
//! Every channel is worked out as double-precision arithmetic works it out:
//! each product and each sum, taken from left to right, is rounded to the
//! nearest double, and the result is truncated to a byte when it is stored.
//! The coefficients are the doubles nearest to their decimals.
//!
//! Beside each channel stands its exact value, a decimal fraction with a
//! thousand or a hundred thousand parts to the unit. The double is never
//! further from it than rounding can take it, so the stored byte is the byte of
//! the exact value wherever that value is no whole number, and may be one less
//! where it is.

use crate::doubles::{
    close, lemma_nearest_close, lemma_nearest_keeps_order, lemma_nearest_keeps_sign,
    lemma_stored_near, lemma_whole_is_double, nearest,
    nearest_double, nearest_to, settled, settled_byte, spacing, stored, stored_byte, sum,
    to_byte, UNIT,
};
use vstd::prelude::*;

verus! {

/// The double nearest to 0.299, in parts.
pub const C_0_299: i128 = 21_545_220_617_340_452;

/// The double nearest to 0.587, in parts.
pub const C_0_587: i128 = 42_297_807_700_263_696;

/// The double nearest to 0.114, in parts.
pub const C_0_114: i128 = 8_214_565_720_323_785;

/// The double nearest to 0.16874, in parts.
pub const C_0_16874: i128 = 12_158_998_417_959_960;

/// The double nearest to 0.33126, in parts.
pub const C_0_33126: i128 = 23_869_798_601_004_008;

/// The double 0.5, in parts.
pub const C_0_5: i128 = 36_028_797_018_963_968;

/// The double nearest to 0.41869, in parts.
pub const C_0_41869: i128 = 30_169_794_047_740_048;

/// The double nearest to 0.08131, in parts.
pub const C_0_08131: i128 = 5_859_002_971_223_920;

/// The double nearest to 1.402, in parts.
pub const C_1_402: i128 = 101_024_746_841_174_960;

/// The double nearest to 0.34414, in parts.
pub const C_0_34414: i128 = 24_797_900_412_212_520;

/// The double nearest to 0.71414, in parts.
pub const C_0_71414: i128 = 51_459_210_206_245_856;

/// The double nearest to 1.772, in parts.
pub const C_1_772: i128 = 127_686_056_635_208_304;

/// The double 128, in parts.
pub const C_128: i128 = 9_223_372_036_854_775_808;

/// Each coefficient is the double nearest to its decimal.
pub proof fn lemma_coefficients()
    ensures
        nearest_to(C_0_299 as int, 299, 1000),
        nearest_to(C_0_587 as int, 587, 1000),
        nearest_to(C_0_114 as int, 114, 1000),
        nearest_to(C_0_16874 as int, 16_874, 100_000),
        nearest_to(C_0_33126 as int, 33_126, 100_000),
        nearest_to(C_0_5 as int, 5, 10),
        nearest_to(C_0_41869 as int, 41_869, 100_000),
        nearest_to(C_0_08131 as int, 8_131, 100_000),
        nearest_to(C_1_402 as int, 1402, 1000),
        nearest_to(C_0_34414 as int, 34_414, 100_000),
        nearest_to(C_0_71414 as int, 71_414, 100_000),
        nearest_to(C_1_772 as int, 1772, 1000),
        nearest_to(C_128 as int, 128, 1),
{
    reveal_with_fuel(spacing, 12);
    assert(spacing(C_0_299 as nat) == 4);
    assert(spacing(C_0_587 as nat) == 8);
    assert(spacing(C_0_114 as nat) == 1);
    assert(spacing(C_0_16874 as nat) == 2);
    assert(spacing(C_0_33126 as nat) == 4);
    assert(spacing(C_0_5 as nat) == 8);
    assert(spacing(C_0_41869 as nat) == 4);
    assert(spacing(C_0_08131 as nat) == 1);
    assert(spacing(C_1_402 as nat) == 16);
    assert(spacing(C_0_34414 as nat) == 4);
    assert(spacing(C_0_71414 as nat) == 8);
    assert(spacing(C_1_772 as nat) == 16);
    assert(spacing(C_128 as nat) == 2048);
}

/// `0.299 x` as a double.
pub open spec fn times_0_299(x: int) -> int {
    nearest(C_0_299 * x)
}

/// `0.587 x` as a double.
pub open spec fn times_0_587(x: int) -> int {
    nearest(C_0_587 * x)
}

/// `0.114 x` as a double.
pub open spec fn times_0_114(x: int) -> int {
    nearest(C_0_114 * x)
}

/// `0.16874 x` as a double.
pub open spec fn times_0_16874(x: int) -> int {
    nearest(C_0_16874 * x)
}

/// `0.33126 x` as a double.
pub open spec fn times_0_33126(x: int) -> int {
    nearest(C_0_33126 * x)
}

/// `0.5 x` as a double.
pub open spec fn times_0_5(x: int) -> int {
    nearest(C_0_5 * x)
}

/// `0.41869 x` as a double.
pub open spec fn times_0_41869(x: int) -> int {
    nearest(C_0_41869 * x)
}

/// `0.08131 x` as a double.
pub open spec fn times_0_08131(x: int) -> int {
    nearest(C_0_08131 * x)
}

/// `1.402 x` as a double.
pub open spec fn times_1_402(x: int) -> int {
    nearest(C_1_402 * x)
}

/// `0.34414 x` as a double.
pub open spec fn times_0_34414(x: int) -> int {
    nearest(C_0_34414 * x)
}

/// `0.71414 x` as a double.
pub open spec fn times_0_71414(x: int) -> int {
    nearest(C_0_71414 * x)
}

/// `1.772 x` as a double.
pub open spec fn times_1_772(x: int) -> int {
    nearest(C_1_772 * x)
}

/// The whole number `x` as a double.
pub open spec fn whole(x: int) -> int {
    UNIT * x
}

/// Luma of a pixel as a double: `0.299 r + 0.587 g + 0.114 b`.
pub open spec fn luma_double(b: int, g: int, r: int) -> int {
    sum(sum(times_0_299(r), times_0_587(g)), times_0_114(b))
}

/// Blue-difference chroma of a pixel as a double:
/// `-0.16874 r - 0.33126 g + 0.5 b + 128`.
pub open spec fn chroma_blue_double(b: int, g: int, r: int) -> int {
    sum(sum(sum(-times_0_16874(r), -times_0_33126(g)), times_0_5(b)), whole(128))
}

/// Red-difference chroma of a pixel as a double:
/// `0.5 r - 0.41869 g - 0.08131 b + 128`.
pub open spec fn chroma_red_double(b: int, g: int, r: int) -> int {
    sum(sum(sum(times_0_5(r), -times_0_41869(g)), -times_0_08131(b)), whole(128))
}

/// Red of a sample as a double: `y + 1.402 (v - 128)`. Luma carries no offset.
pub open spec fn red_double(y: int, v: int) -> int {
    sum(whole(y), times_1_402(v - 128))
}

/// Green of a sample as a double: `y - 0.34414 (u - 128) - 0.71414 (v - 128)`.
pub open spec fn green_double(y: int, u: int, v: int) -> int {
    sum(sum(whole(y), -times_0_34414(u - 128)), -times_0_71414(v - 128))
}

/// Blue of a sample as a double: `y + 1.772 (u - 128)`.
pub open spec fn blue_double(y: int, u: int) -> int {
    sum(whole(y), times_1_772(u - 128))
}

/// Luma of a pixel, as it is stored.
pub open spec fn luma(b: int, g: int, r: int) -> int {
    stored(luma_double(b, g, r))
}

/// Blue-difference chroma of a pixel, as it is stored.
pub open spec fn chroma_blue(b: int, g: int, r: int) -> int {
    stored(chroma_blue_double(b, g, r))
}

/// Red-difference chroma of a pixel, as it is stored.
pub open spec fn chroma_red(b: int, g: int, r: int) -> int {
    stored(chroma_red_double(b, g, r))
}

/// Red of a sample, as it is stored.
pub open spec fn red(y: int, v: int) -> int {
    stored(red_double(y, v))
}

/// Green of a sample, as it is stored.
pub open spec fn green(y: int, u: int, v: int) -> int {
    stored(green_double(y, u, v))
}

/// Blue of a sample, as it is stored.
pub open spec fn blue(y: int, u: int) -> int {
    stored(blue_double(y, u))
}

/// Exact luma of a pixel, in thousandths.
pub open spec fn luma_exact(b: int, g: int, r: int) -> int {
    299 * r + 587 * g + 114 * b
}

/// Exact blue-difference chroma of a pixel, in hundred-thousandths.
pub open spec fn chroma_blue_exact(b: int, g: int, r: int) -> int {
    12_800_000 - 16_874 * r - 33_126 * g + 50_000 * b
}

/// Exact red-difference chroma of a pixel, in hundred-thousandths.
pub open spec fn chroma_red_exact(b: int, g: int, r: int) -> int {
    12_800_000 + 50_000 * r - 41_869 * g - 8_131 * b
}

/// Exact red of a sample, in thousandths.
pub open spec fn red_exact(y: int, v: int) -> int {
    1000 * y + 1402 * (v - 128)
}

/// Exact green of a sample, in hundred-thousandths.
pub open spec fn green_exact(y: int, u: int, v: int) -> int {
    100_000 * y - 34_414 * (u - 128) - 71_414 * (v - 128)
}

/// Exact blue of a sample, in thousandths.
pub open spec fn blue_exact(y: int, u: int) -> int {
    1000 * y + 1772 * (u - 128)
}

/// The three doubles of a pixel are close to their exact values.
pub proof fn lemma_samples_close(b: int, g: int, r: int)
    requires
        0 <= b <= 255,
        0 <= g <= 255,
        0 <= r <= 255,
    ensures
        close(luma_double(b, g, r), luma_exact(b, g, r), 1000),
        close(chroma_blue_double(b, g, r), chroma_blue_exact(b, g, r), 100_000),
        close(chroma_red_double(b, g, r), chroma_red_exact(b, g, r), 100_000),
{
    lemma_nearest_close(C_0_299 * r);
    lemma_nearest_close(C_0_587 * g);
    lemma_nearest_close(C_0_114 * b);
    lemma_nearest_close(times_0_299(r) + times_0_587(g));
    lemma_nearest_close(sum(times_0_299(r), times_0_587(g)) + times_0_114(b));

    lemma_nearest_close(C_0_16874 * r);
    lemma_nearest_close(C_0_33126 * g);
    lemma_nearest_close(C_0_5 * b);
    lemma_nearest_close(-times_0_16874(r) + -times_0_33126(g));
    lemma_nearest_close(sum(-times_0_16874(r), -times_0_33126(g)) + times_0_5(b));
    lemma_nearest_close(
        sum(sum(-times_0_16874(r), -times_0_33126(g)), times_0_5(b)) + whole(128),
    );

    lemma_nearest_close(C_0_5 * r);
    lemma_nearest_close(C_0_41869 * g);
    lemma_nearest_close(C_0_08131 * b);
    lemma_nearest_close(times_0_5(r) + -times_0_41869(g));
    lemma_nearest_close(sum(times_0_5(r), -times_0_41869(g)) + -times_0_08131(b));
    lemma_nearest_close(
        sum(sum(times_0_5(r), -times_0_41869(g)), -times_0_08131(b)) + whole(128),
    );
}

/// The three doubles of a sample are close to their exact values.
pub proof fn lemma_channels_close(y: int, u: int, v: int)
    requires
        0 <= y <= 255,
        0 <= u <= 255,
        0 <= v <= 255,
    ensures
        close(red_double(y, v), red_exact(y, v), 1000),
        close(green_double(y, u, v), green_exact(y, u, v), 100_000),
        close(blue_double(y, u), blue_exact(y, u), 1000),
{
    lemma_nearest_close(C_1_402 * (v - 128));
    lemma_nearest_close(whole(y) + times_1_402(v - 128));

    lemma_nearest_close(C_0_34414 * (u - 128));
    lemma_nearest_close(C_0_71414 * (v - 128));
    lemma_nearest_close(whole(y) + -times_0_34414(u - 128));
    lemma_nearest_close(sum(whole(y), -times_0_34414(u - 128)) + -times_0_71414(v - 128));

    lemma_nearest_close(C_1_772 * (u - 128));
    lemma_nearest_close(whole(y) + times_1_772(u - 128));
}

/// Each sample of a pixel is the byte of its exact value, or one less where
/// that value is a whole number and the double falls short of it.
pub proof fn lemma_samples_near(b: int, g: int, r: int)
    requires
        0 <= b <= 255,
        0 <= g <= 255,
        0 <= r <= 255,
    ensures
        to_byte(luma_exact(b, g, r), 1000) - 1 <= luma(b, g, r) <= to_byte(
            luma_exact(b, g, r),
            1000,
        ),
        settled(luma_exact(b, g, r), 1000) ==> luma(b, g, r) == to_byte(luma_exact(b, g, r), 1000),
        to_byte(chroma_blue_exact(b, g, r), 100_000) - 1 <= chroma_blue(b, g, r) <= to_byte(
            chroma_blue_exact(b, g, r),
            100_000,
        ),
        settled(chroma_blue_exact(b, g, r), 100_000) ==> chroma_blue(b, g, r) == to_byte(
            chroma_blue_exact(b, g, r),
            100_000,
        ),
        to_byte(chroma_red_exact(b, g, r), 100_000) - 1 <= chroma_red(b, g, r) <= to_byte(
            chroma_red_exact(b, g, r),
            100_000,
        ),
        settled(chroma_red_exact(b, g, r), 100_000) ==> chroma_red(b, g, r) == to_byte(
            chroma_red_exact(b, g, r),
            100_000,
        ),
{
    lemma_samples_close(b, g, r);
    lemma_stored_near(luma_double(b, g, r), luma_exact(b, g, r), 1000);
    lemma_stored_near(chroma_blue_double(b, g, r), chroma_blue_exact(b, g, r), 100_000);
    lemma_stored_near(chroma_red_double(b, g, r), chroma_red_exact(b, g, r), 100_000);
}

/// Each channel of a sample is the byte of its exact value, or one less where
/// that value is a whole number and the double falls short of it.
pub proof fn lemma_channels_near(y: int, u: int, v: int)
    requires
        0 <= y <= 255,
        0 <= u <= 255,
        0 <= v <= 255,
    ensures
        to_byte(red_exact(y, v), 1000) - 1 <= red(y, v) <= to_byte(red_exact(y, v), 1000),
        settled(red_exact(y, v), 1000) ==> red(y, v) == to_byte(red_exact(y, v), 1000),
        to_byte(green_exact(y, u, v), 100_000) - 1 <= green(y, u, v) <= to_byte(
            green_exact(y, u, v),
            100_000,
        ),
        settled(green_exact(y, u, v), 100_000) ==> green(y, u, v) == to_byte(
            green_exact(y, u, v),
            100_000,
        ),
        to_byte(blue_exact(y, u), 1000) - 1 <= blue(y, u) <= to_byte(blue_exact(y, u), 1000),
        settled(blue_exact(y, u), 1000) ==> blue(y, u) == to_byte(blue_exact(y, u), 1000),
{
    lemma_channels_close(y, u, v);
    lemma_stored_near(red_double(y, v), red_exact(y, v), 1000);
    lemma_stored_near(green_double(y, u, v), green_exact(y, u, v), 100_000);
    lemma_stored_near(blue_double(y, u), blue_exact(y, u), 1000);
}

/// A sample without colour makes a grey pixel: with both chroma values in the
/// middle of the range, each channel is the luma.
pub proof fn lemma_neutral_chroma_gives_grey(y: int)
    requires
        0 <= y <= 255,
    ensures
        blue(y, 128) == y,
        green(y, 128, 128) == y,
        red(y, 128) == y,
{
    lemma_whole_is_double(0);
    lemma_whole_is_double(y);
}

/// More luma never gives less of a channel.
pub proof fn lemma_channels_grow_with_luma(y1: int, y2: int, u: int, v: int)
    requires
        y1 <= y2,
    ensures
        blue(y1, u) <= blue(y2, u),
        green(y1, u, v) <= green(y2, u, v),
        red(y1, v) <= red(y2, v),
{
    lemma_nearest_keeps_order(whole(y1) + times_1_772(u - 128), whole(y2) + times_1_772(u - 128));
    lemma_nearest_keeps_order(whole(y1) + times_1_402(v - 128), whole(y2) + times_1_402(v - 128));
    lemma_nearest_keeps_order(
        whole(y1) + -times_0_34414(u - 128),
        whole(y2) + -times_0_34414(u - 128),
    );
    lemma_nearest_keeps_order(
        sum(whole(y1), -times_0_34414(u - 128)) + -times_0_71414(v - 128),
        sum(whole(y2), -times_0_34414(u - 128)) + -times_0_71414(v - 128),
    );
}

/// More of blue, green or red never gives less luma.
pub proof fn lemma_luma_grows(b1: int, g1: int, r1: int, b2: int, g2: int, r2: int)
    requires
        b1 <= b2,
        g1 <= g2,
        r1 <= r2,
    ensures
        luma(b1, g1, r1) <= luma(b2, g2, r2),
{
    lemma_nearest_keeps_order(C_0_299 * r1, C_0_299 * r2);
    lemma_nearest_keeps_order(C_0_587 * g1, C_0_587 * g2);
    lemma_nearest_keeps_order(C_0_114 * b1, C_0_114 * b2);
    lemma_nearest_keeps_order(
        times_0_299(r1) + times_0_587(g1),
        times_0_299(r2) + times_0_587(g2),
    );
    lemma_nearest_keeps_order(
        sum(times_0_299(r1), times_0_587(g1)) + times_0_114(b1),
        sum(times_0_299(r2), times_0_587(g2)) + times_0_114(b2),
    );
}

/// The samples of a pixel lie within the range of a byte as they are: nothing
/// is cut on the way from a pixel to its luma and chroma.
pub proof fn lemma_samples_in_range(b: int, g: int, r: int)
    requires
        0 <= b <= 255,
        0 <= g <= 255,
        0 <= r <= 255,
    ensures
        0 <= luma_double(b, g, r) < whole(256),
        0 <= chroma_blue_double(b, g, r) < whole(256),
        0 <= chroma_red_double(b, g, r) < whole(256),
{
    lemma_samples_close(b, g, r);
    lemma_nearest_keeps_sign(C_0_299 * r);
    lemma_nearest_keeps_sign(C_0_587 * g);
    lemma_nearest_keeps_sign(C_0_114 * b);
    lemma_nearest_keeps_sign(times_0_299(r) + times_0_587(g));
    lemma_nearest_keeps_sign(sum(times_0_299(r), times_0_587(g)) + times_0_114(b));
}

/// The product of a coefficient and a byte or a byte less 128, as a double.
fn times(coefficient: i128, x: i32) -> (double: i128)
    requires
        0 <= coefficient < 0x200_0000_0000_0000,
        -256 < x < 256,
    ensures
        double == nearest(coefficient * x),
        -0x4_0000_0000_0000_0000 < double < 0x4_0000_0000_0000_0000,
{
    assert(-0x200_0000_0000_0000 * 256 < coefficient * x < 0x200_0000_0000_0000 * 256)
        by (nonlinear_arith)
        requires
            0 <= coefficient < 0x200_0000_0000_0000,
            -256 < x < 256,
    ;
    proof {
        lemma_nearest_close(coefficient * x);
    }
    nearest_double(coefficient * (x as i128))
}

/// The sum of two doubles, as a double.
fn plus(a: i128, b: i128) -> (double: i128)
    requires
        -0x1_0000_0000_0000_0000_0 < a + b < 0x1_0000_0000_0000_0000_0,
    ensures
        double == sum(a as int, b as int),
        a + b - 0x8000 <= double <= a + b + 0x8000,
{
    proof {
        lemma_nearest_close(a + b);
    }
    nearest_double(a + b)
}

/// Computes the luma of a pixel.
pub fn luma_of(b: u8, g: u8, r: u8) -> (y: u8)
    ensures
        y == luma(b as int, g as int, r as int),
{
    proof {
        lemma_samples_near(b as int, g as int, r as int);
    }
    match settled_byte(299 * (r as i32) + 587 * (g as i32) + 114 * (b as i32), 1000) {
        Some(y) => y,
        None => stored_byte(
            plus(
                plus(times(C_0_299, r as i32), times(C_0_587, g as i32)),
                times(C_0_114, b as i32),
            ),
        ),
    }
}

/// Computes the blue-difference chroma of a pixel.
pub fn chroma_blue_of(b: u8, g: u8, r: u8) -> (u: u8)
    ensures
        u == chroma_blue(b as int, g as int, r as int),
{
    proof {
        lemma_samples_near(b as int, g as int, r as int);
    }
    match settled_byte(
        12_800_000 - 16_874 * (r as i32) - 33_126 * (g as i32) + 50_000 * (b as i32),
        100_000,
    ) {
        Some(u) => u,
        None => stored_byte(
            plus(
                plus(
                    plus(-times(C_0_16874, r as i32), -times(C_0_33126, g as i32)),
                    times(C_0_5, b as i32),
                ),
                C_128,
            ),
        ),
    }
}

/// Computes the red-difference chroma of a pixel.
pub fn chroma_red_of(b: u8, g: u8, r: u8) -> (v: u8)
    ensures
        v == chroma_red(b as int, g as int, r as int),
{
    proof {
        lemma_samples_near(b as int, g as int, r as int);
    }
    match settled_byte(
        12_800_000 + 50_000 * (r as i32) - 41_869 * (g as i32) - 8_131 * (b as i32),
        100_000,
    ) {
        Some(v) => v,
        None => stored_byte(
            plus(
                plus(
                    plus(times(C_0_5, r as i32), -times(C_0_41869, g as i32)),
                    -times(C_0_08131, b as i32),
                ),
                C_128,
            ),
        ),
    }
}

/// Computes the red of a sample.
pub fn red_of(y: u8, v: u8) -> (r: u8)
    ensures
        r == red(y as int, v as int),
{
    proof {
        lemma_channels_near(y as int, 0, v as int);
    }
    match settled_byte(1000 * (y as i32) + 1402 * (v as i32 - 128), 1000) {
        Some(r) => r,
        None => stored_byte(plus(UNIT * (y as i128), times(C_1_402, v as i32 - 128))),
    }
}

/// Computes the green of a sample.
pub fn green_of(y: u8, u: u8, v: u8) -> (g: u8)
    ensures
        g == green(y as int, u as int, v as int),
{
    proof {
        lemma_channels_near(y as int, u as int, v as int);
    }
    match settled_byte(
        100_000 * (y as i32) - 34_414 * (u as i32 - 128) - 71_414 * (v as i32 - 128),
        100_000,
    ) {
        Some(g) => g,
        None => stored_byte(
            plus(
                plus(UNIT * (y as i128), -times(C_0_34414, u as i32 - 128)),
                -times(C_0_71414, v as i32 - 128),
            ),
        ),
    }
}

/// Computes the blue of a sample.
pub fn blue_of(y: u8, u: u8) -> (b: u8)
    ensures
        b == blue(y as int, u as int),
{
    proof {
        lemma_channels_near(y as int, u as int, 0);
    }
    match settled_byte(1000 * (y as i32) + 1772 * (u as i32 - 128), 1000) {
        Some(b) => b,
        None => stored_byte(plus(UNIT * (y as i128), times(C_1_772, u as i32 - 128))),
    }
}

} // verus!
