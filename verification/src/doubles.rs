//! Sums and products as double-precision arithmetic gives them, worked out on
//! whole numbers.
//!
//! A value is held as a whole number of parts, with 2^56 parts to the unit.
//! The values met here are bytes, a handful of coefficients that are doubles
//! between 1/16 and 2, and what sums and products make of them. Each of these is
//! a whole number of parts, and the double nearest to it is found by rounding
//! to 53 significant bits, a tie going to the even neighbour.

use vstd::arithmetic::div_mod::{
    lemma_div_denominator, lemma_div_is_ordered, lemma_fundamental_div_mod,
    lemma_mod_multiples_basic,
};
use vstd::arithmetic::power2::{lemma2_to64, lemma2_to64_rest, lemma_pow2_unfold, pow2};
use vstd::prelude::*;

verus! {

/// The number of parts in the unit: 2^56.
pub const UNIT: i128 = 0x100_0000_0000_0000;

/// The first whole number that needs more than 53 bits: 2^53.
pub const SIGNIFICAND: i128 = 0x20_0000_0000_0000;

/// The largest magnitude, in parts, that the arithmetic of this crate rounds:
/// 2^68, well above 255 times a coefficient below 2 with 128 units added.
pub const LIMIT: i128 = 0x1_0000_0000_0000_0000_0;

/// The distance between neighbouring doubles at the magnitude of `n` parts.
pub open spec fn spacing(n: nat) -> nat
    decreases n,
{
    if n < SIGNIFICAND {
        1
    } else {
        2 * spacing(n / 2)
    }
}

/// The double nearest to `n` parts, for `n` not negative. Of two doubles
/// equally near, the one with the even significand is taken.
pub open spec fn nearest_above_zero(n: nat) -> nat {
    let step = spacing(n);
    let below = n / step;
    let rest = n % step;
    if 2 * rest > step || (2 * rest == step && below % 2 == 1) {
        (below + 1) * step
    } else {
        below * step
    }
}

/// The double nearest to `n` parts.
#[verifier::opaque]
pub open spec fn nearest(n: int) -> int {
    if n < 0 {
        -(nearest_above_zero((-n) as nat) as int)
    } else {
        nearest_above_zero(n as nat) as int
    }
}

/// The sum of the doubles `a` and `b`, as a double.
pub open spec fn sum(a: int, b: int) -> int {
    nearest(a + b)
}

/// The byte stored for a double of `n` parts: the double is truncated toward
/// zero, and what lies below 0 or above 255 is stored as 0 or as 255.
pub open spec fn stored(n: int) -> int {
    if n <= 0 {
        0
    } else if n / (UNIT as int) > 255 {
        255
    } else {
        n / (UNIT as int)
    }
}

/// `c` parts is the double nearest to the exact quotient `n / scale`: it is a
/// double, and the quotient lies nearer to it than half the distance to its
/// neighbours.
pub open spec fn nearest_to(c: int, n: int, scale: int) -> bool {
    &&& 0 <= c
    &&& c % (spacing(c as nat) as int) == 0
    &&& 2 * (scale * c - n * UNIT) < scale * spacing(c as nat)
    &&& 2 * (n * UNIT - scale * c) < scale * spacing(c as nat)
}

/// The spacing is at least one part, leaves fewer than 2^53 steps below the
/// value, and from 2^53 parts on is no more than the value over 2^52.
pub proof fn lemma_spacing(n: nat)
    ensures
        spacing(n) >= 1,
        n < 0x20_0000_0000_0000 * spacing(n),
        n >= 0x20_0000_0000_0000 ==> 0x10_0000_0000_0000 * spacing(n) <= n,
    decreases n,
{
    if n >= SIGNIFICAND {
        let half = n / 2;
        lemma_spacing(half);
        assert(spacing(n) == 2 * spacing(half));
        if half < SIGNIFICAND {
            assert(spacing(half) == 1);
        }
    }
}

/// Rounding to the nearest double moves a value by half the spacing at most.
pub proof fn lemma_nearest_within_half_spacing(n: int)
    ensures
        ({
            let magnitude = if n < 0 {
                (-n) as nat
            } else {
                n as nat
            };
            &&& 2 * (nearest(n) - n) <= spacing(magnitude)
            &&& 2 * (n - nearest(n)) <= spacing(magnitude)
        }),
{
    let magnitude = if n < 0 {
        (-n) as nat
    } else {
        n as nat
    };
    reveal(nearest);
    let step = spacing(magnitude);
    lemma_spacing(magnitude);
    lemma_fundamental_div_mod(magnitude as int, step as int);
    let below = magnitude / step;
    assert((below + 1) * step == below * step + step) by (nonlinear_arith);
    assert(step * below == below * step) by (nonlinear_arith);
}

/// Within the magnitudes that this crate rounds, rounding to the nearest
/// double moves a value by 2^15 parts at most, which is less than a
/// millionth of a millionth of the unit.
pub proof fn lemma_nearest_close(n: int)
    requires
        -LIMIT < n < LIMIT,
    ensures
        n - 0x8000 <= nearest(n) <= n + 0x8000,
{
    let magnitude = if n < 0 {
        (-n) as nat
    } else {
        n as nat
    };
    lemma_spacing(magnitude);
    lemma_nearest_within_half_spacing(n);
}

/// Rounding to the nearest double does not change the sign of a value.
pub proof fn lemma_nearest_keeps_sign(n: int)
    ensures
        n >= 0 ==> nearest(n) >= 0,
        n <= 0 ==> nearest(n) <= 0,
{
    reveal(nearest);
    if n == 0 {
        assert(spacing(0) == 1);
        assert(nearest_above_zero(0) == 0);
    }
}

/// The spacing of doubles does not shrink as the magnitude grows, and where it
/// grows it doubles at least.
pub proof fn lemma_spacing_grows(a: nat, b: nat)
    requires
        a <= b,
    ensures
        spacing(a) <= spacing(b),
        spacing(a) < spacing(b) ==> 2 * spacing(a) <= spacing(b),
    decreases b,
{
    if b >= SIGNIFICAND {
        lemma_spacing(b / 2);
        if a >= SIGNIFICAND {
            lemma_spacing_grows(a / 2, b / 2);
        }
    }
}

/// Among values that are not negative, rounding to the nearest double keeps
/// the order.
proof fn lemma_nearest_above_zero_keeps_order(a: nat, b: nat)
    requires
        a <= b,
    ensures
        nearest_above_zero(a) <= nearest_above_zero(b),
{
    let step_a = spacing(a);
    let step_b = spacing(b);
    let below_a = a / step_a;
    let below_b = b / step_b;
    lemma_spacing(a);
    lemma_spacing(b);
    lemma_spacing_grows(a, b);
    lemma_fundamental_div_mod(a as int, step_a as int);
    lemma_fundamental_div_mod(b as int, step_b as int);
    assert((below_a + 1) * step_a == below_a * step_a + step_a) by (nonlinear_arith);
    assert((below_b + 1) * step_b == below_b * step_b + step_b) by (nonlinear_arith);
    assert(step_a * below_a == below_a * step_a) by (nonlinear_arith);
    assert(step_b * below_b == below_b * step_b) by (nonlinear_arith);
    if step_a == step_b {
        lemma_div_is_ordered(a as int, b as int, step_a as int);
        if below_a < below_b {
            assert((below_a + 1) * step_a <= below_b * step_a) by (nonlinear_arith)
                requires
                    below_a + 1 <= below_b,
                    0 <= step_a,
            ;
        }
    } else {
        assert(below_a < 0x20_0000_0000_0000) by (nonlinear_arith)
            requires
                below_a * step_a <= a,
                a < 0x20_0000_0000_0000 * step_a,
                step_a >= 1,
        ;
        assert((below_a + 1) * step_a <= 0x20_0000_0000_0000 * step_a) by (nonlinear_arith)
            requires
                below_a + 1 <= 0x20_0000_0000_0000,
                0 <= step_a,
        ;
        assert(below_b >= 0x10_0000_0000_0000) by (nonlinear_arith)
            requires
                0x10_0000_0000_0000 * step_b <= b,
                b < below_b * step_b + step_b,
                step_b >= 1,
        ;
        assert(below_b * step_b >= 0x10_0000_0000_0000 * step_b) by (nonlinear_arith)
            requires
                below_b >= 0x10_0000_0000_0000,
                0 <= step_b,
        ;
    }
}

/// Rounding to the nearest double keeps the order of values.
pub proof fn lemma_nearest_keeps_order(a: int, b: int)
    requires
        a <= b,
    ensures
        nearest(a) <= nearest(b),
{
    reveal(nearest);
    if a >= 0 {
        lemma_nearest_above_zero_keeps_order(a as nat, b as nat);
    } else if b < 0 {
        lemma_nearest_above_zero_keeps_order((-b) as nat, (-a) as nat);
    }
}

/// A value that is a whole number of steps of the spacing at its magnitude is a
/// double.
proof fn lemma_multiple_is_double(n: nat)
    requires
        n % spacing(n) == 0,
    ensures
        nearest(n as int) == n,
        nearest(-(n as int)) == -(n as int),
{
    reveal(nearest);
    lemma_spacing(n);
    lemma_fundamental_div_mod(n as int, spacing(n) as int);
    let below = n / spacing(n);
    assert(spacing(n) * below == below * spacing(n)) by (nonlinear_arith);
    if n == 0 {
        assert(spacing(0) == 1);
    }
}

/// Twice a whole number of steps is a whole number of steps at its own
/// magnitude.
proof fn lemma_twice_is_multiple(n: nat)
    requires
        n % spacing(n) == 0,
    ensures
        (2 * n) % spacing(2 * n) == 0,
{
    lemma_spacing(n);
    if 2 * n >= SIGNIFICAND {
        let step = spacing(n);
        assert((2 * n) / 2 == n);
        assert(spacing(2 * n) == 2 * step);
        lemma_fundamental_div_mod(n as int, step as int);
        let below = n / step;
        assert(2 * n == below * (2 * step)) by (nonlinear_arith)
            requires
                n == step * below,
        ;
        lemma_mod_multiples_basic(below as int, (2 * step) as int);
    } else {
        assert(spacing(2 * n) == 1);
    }
}

/// A whole number below 2^53, doubled any number of times, is a whole number
/// of steps at its magnitude.
proof fn lemma_shifted_is_multiple(x: nat, k: nat)
    requires
        x < SIGNIFICAND,
    ensures
        (x * pow2(k)) % spacing(x * pow2(k)) == 0,
    decreases k,
{
    if k == 0 {
        assert(pow2(0) == 1) by {
            lemma2_to64();
        }
        assert(x * pow2(0) == x) by (nonlinear_arith)
            requires
                pow2(0) == 1,
        ;
        assert(spacing(x) == 1);
    } else {
        lemma_pow2_unfold(k);
        lemma_shifted_is_multiple(x, (k - 1) as nat);
        assert(x * pow2(k) == 2 * (x * pow2((k - 1) as nat))) by (nonlinear_arith)
            requires
                pow2(k) == 2 * pow2((k - 1) as nat),
        ;
        lemma_twice_is_multiple(x * pow2((k - 1) as nat));
    }
}

/// A whole number of units is a double, as long as the whole number itself
/// has no more than 53 bits. Every byte is such a number.
pub proof fn lemma_whole_is_double(x: int)
    requires
        -SIGNIFICAND < x < SIGNIFICAND,
    ensures
        nearest(UNIT * x) == UNIT * x,
{
    lemma2_to64_rest();
    let magnitude: nat = if x < 0 {
        (-x) as nat
    } else {
        x as nat
    };
    lemma_shifted_is_multiple(magnitude, 56);
    assert(magnitude * pow2(56) == UNIT * magnitude) by (nonlinear_arith)
        requires
            pow2(56) == 0x100_0000_0000_0000,
    ;
    lemma_multiple_is_double((UNIT * magnitude) as nat);
}

/// Computes the double nearest to `n` parts.
pub fn nearest_double(n: i128) -> (double: i128)
    requires
        -LIMIT < n < LIMIT,
    ensures
        double == nearest(n as int),
{
    let magnitude: i128 = if n < 0 {
        -n
    } else {
        n
    };
    let mut step: i128 = 1;
    let mut reduced: i128 = magnitude;
    while reduced >= SIGNIFICAND
        invariant
            0 <= reduced <= magnitude < LIMIT,
            1 <= step,
            step * reduced <= magnitude,
            reduced == magnitude / step,
            spacing(magnitude as nat) == step * spacing(reduced as nat),
        decreases reduced,
    {
        proof {
            lemma_div_denominator(magnitude as int, step as int, 2);
            assert(step * 0x20_0000_0000_0000 <= step * reduced) by (nonlinear_arith)
                requires
                    0x20_0000_0000_0000 <= reduced,
                    1 <= step,
            ;
            assert(step * 2 * (reduced / 2) <= step * reduced) by (nonlinear_arith)
                requires
                    0 <= reduced,
                    1 <= step,
            ;
            assert(step * (2 * spacing((reduced / 2) as nat)) == (step * 2) * spacing(
                (reduced / 2) as nat,
            )) by (nonlinear_arith);
        }
        reduced = reduced / 2;
        step = step * 2;
    }
    assert(spacing(reduced as nat) == 1);
    assert(spacing(magnitude as nat) == step) by (nonlinear_arith)
        requires
            spacing(magnitude as nat) == step * spacing(reduced as nat),
            spacing(reduced as nat) == 1,
    ;
    let below: i128 = magnitude / step;
    let rest: i128 = magnitude % step;
    proof {
        lemma_fundamental_div_mod(magnitude as int, step as int);
        lemma_spacing(magnitude as nat);
        assert((below + 1) * step == below * step + step) by (nonlinear_arith);
        assert(step * below == below * step) by (nonlinear_arith);
    }
    let rounded: i128 = if 2 * rest > step || (2 * rest == step && below % 2 == 1) {
        (below + 1) * step
    } else {
        below * step
    };
    assert(rounded == nearest_above_zero(magnitude as nat));
    proof {
        reveal(nearest);
    }
    if n < 0 {
        -rounded
    } else {
        rounded
    }
}

/// The byte of the exact quotient `n / scale`: the quotient truncated toward
/// zero, with what lies below 0 or above 255 taken as 0 or as 255.
pub open spec fn to_byte(n: int, scale: int) -> int {
    if n <= 0 {
        0
    } else if n / scale > 255 {
        255
    } else {
        n / scale
    }
}

/// The double of `double` parts lies within one part in `scale` of the exact
/// quotient `n / scale`.
pub open spec fn close(double: int, n: int, scale: int) -> bool {
    -UNIT < scale * double - n * UNIT < UNIT
}

/// The exact quotient `n / scale` is no whole number from 1 to 255, so that no
/// double close to it is stored as another byte than the quotient itself.
pub open spec fn settled(n: int, scale: int) -> bool {
    n <= 0 || n >= 256 * scale || n % scale != 0
}

/// A double close to an exact quotient is stored as the byte of the quotient,
/// or as one less where the quotient is a whole number and the double falls
/// short of it.
pub proof fn lemma_stored_near(double: int, n: int, scale: int)
    requires
        scale == 1000 || scale == 100_000,
        close(double, n, scale),
    ensures
        to_byte(n, scale) - 1 <= stored(double) <= to_byte(n, scale),
        settled(n, scale) ==> stored(double) == to_byte(n, scale),
{
}

/// Computes the byte stored for a double.
pub fn stored_byte(double: i128) -> (byte: u8)
    ensures
        byte == stored(double as int),
{
    if double <= 0 {
        0
    } else {
        let whole: i128 = double / UNIT;
        if whole > 255 {
            255
        } else {
            whole as u8
        }
    }
}

/// The byte of an exact quotient, where it is settled that every double close
/// to the quotient is stored as that byte.
pub fn settled_byte(n: i32, scale: i32) -> (byte: Option<u8>)
    requires
        scale > 0,
        256 * scale <= i32::MAX,
    ensures
        byte is Some <==> settled(n as int, scale as int),
        byte matches Some(b) ==> b == to_byte(n as int, scale as int),
{
    if n <= 0 {
        Some(0)
    } else if n >= 256 * scale {
        assert(n as int / scale as int >= 256) by (nonlinear_arith)
            requires
                n >= 256 * scale,
                scale > 0,
        ;
        Some(255)
    } else if n % scale != 0 {
        assert(0 <= n as int / scale as int <= 255) by (nonlinear_arith)
            requires
                0 < n < 256 * scale,
                scale > 0,
        ;
        Some((n / scale) as u8)
    } else {
        None
    }
}

} // verus!
