//! The logical extent: the size of a mode divided by the UI scale.
//!
//! Applications and the display divide in binary64 and then round to a whole number, and both
//! sides must come to the same extent. So the quotient is rounded here exactly as they round
//! it: first to the 53 significant bits that binary64 holds, and only then to a whole number.

use crate::geometry::Size;
use crate::ui_scale::{law_scales_compare_as_their_bits, value, UiScale, FRACTION_BITS};
use vstd::arithmetic::div_mod::{
    lemma_fundamental_div_mod, lemma_fundamental_div_mod_converse,
};
use vstd::arithmetic::logarithm::{lemma_log0, lemma_log_nonnegative, lemma_log_s, log};
use vstd::arithmetic::power2::{
    lemma2_to64, lemma2_to64_rest, lemma_pow2_adds, lemma_pow2_pos, lemma_pow2_strictly_increases,
    lemma_pow2_unfold, pow2,
};
use vstd::prelude::*;

verus! {

/// The bit pattern of 2.0.
const TWO: u64 = 0x4000_0000_0000_0000;

/// `n / d` rounded to a whole number; a half goes to the even neighbour.
pub open spec fn nearest_even(n: int, d: int) -> int {
    let low = n / d;
    let rest = n % d;
    if 2 * rest < d || (2 * rest == d && low % 2 == 0) {
        low
    } else {
        low + 1
    }
}

/// `n / d` as binary64 holds it, for a quotient of at least a quarter: rounded to 53
/// significant bits, and counted in steps of `2^-54`.
pub open spec fn held_quotient(n: int, d: int) -> int {
    let last_bit = pow2((log(2, n * pow2(54) / d) - 52) as nat) as int;
    nearest_even(n * pow2(54), d * last_bit) * last_bit
}

/// A count of `2^-54` steps rounded to a whole number; a half goes up.
pub open spec fn to_whole(steps: int) -> int {
    (steps + pow2(53)) / (pow2(54) as int)
}

/// `pixels` divided by `scale`, for a whole number of pixels above zero.
pub open spec fn scaled_down(pixels: int, scale: UiScale) -> int {
    to_whole(held_quotient(pixels * pow2(1074), value(scale.bits)))
}

/// One axis of the logical extent. Rounding is the same on both sides of zero.
pub open spec fn logical_axis(pixels: int, scale: UiScale) -> int {
    if pixels == 0 {
        0
    } else if pixels > 0 {
        scaled_down(pixels, scale)
    } else {
        -scaled_down(-pixels, scale)
    }
}

/// The logical extent of a mode of `size` at `scale`.
pub open spec fn logical_of(size: Size, scale: UiScale) -> Size {
    Size { w: logical_axis(size.w as int, scale) as i32, h: logical_axis(size.h as int, scale) as i32 }
}

proof fn lemma_log2(x: int)
    requires
        x >= 1,
    ensures
        log(2, x) >= 0,
        pow2(log(2, x) as nat) <= x < pow2((log(2, x) + 1) as nat),
    decreases x,
{
    lemma_log_nonnegative(2, x);
    lemma2_to64();
    if x < 2 {
        lemma_log0(2, x);
    } else {
        lemma_log2(x / 2);
        lemma_log_s(2, x);
        lemma_pow2_unfold(log(2, x) as nat);
        lemma_pow2_unfold((log(2, x) + 1) as nat);
    }
}

proof fn lemma_log2_is(x: int, e: nat)
    requires
        pow2(e) <= x < pow2(e + 1),
    ensures
        log(2, x) == e,
{
    lemma_pow2_pos(e);
    lemma_log2(x);
    let l = log(2, x) as nat;
    if l < e {
        if l + 1 < e {
            lemma_pow2_strictly_increases(l + 1, e);
        }
    }
    if l > e {
        if l > e + 1 {
            lemma_pow2_strictly_increases(e + 1, l);
        }
    }
}

/// What `nearest_even` gives just below, and up to, a whole number.
proof fn lemma_nearest_even(n: int, d: int, k: int)
    requires
        d > 0,
    ensures
        n >= k * d ==> nearest_even(n, d) >= k,
        n <= k * d ==> nearest_even(n, d) <= k,
        n < k * d && k % 2 == 0 ==> (nearest_even(n, d) == k <==> 2 * (k * d - n) <= d),
{
    let low = n / d;
    let rest = n % d;
    lemma_fundamental_div_mod(n, d);
    assert(0 <= rest < d) by (nonlinear_arith)
        requires
            rest == n % d,
            d > 0,
    ;
    assert(n == low * d + rest) by (nonlinear_arith)
        requires
            n == d * low + rest,
    ;
    if n >= k * d {
        assert(low >= k) by (nonlinear_arith)
            requires
                low * d + rest >= k * d,
                rest < d,
                d > 0,
        ;
    }
    if n <= k * d {
        assert(low <= k) by (nonlinear_arith)
            requires
                low * d + rest <= k * d,
                0 <= rest,
                d > 0,
        ;
        if low == k {
            assert(rest == 0);
        }
    }
    if n < k * d && k % 2 == 0 {
        assert(low <= k - 1) by (nonlinear_arith)
            requires
                low * d + rest < k * d,
                0 <= rest,
                d > 0,
        ;
        if low == k - 1 {
            assert(k * d - n == d - rest) by (nonlinear_arith)
                requires
                    n == low * d + rest,
                    low == k - 1,
            ;
        } else {
            assert(k * d - n > d) by (nonlinear_arith)
                requires
                    n == low * d + rest,
                    low <= k - 2,
                    rest < d,
                    d > 0,
            ;
        }
    }
}

/// The whole number next to a quotient. `t` is where the exact quotient rounds to; holding
/// the quotient in 53 bits moves it on to `t + 1` when the quotient is within half of the last
/// bit below `t` and a half.
proof fn lemma_held_quotient(n: int, d: int, t: int, e: nat)
    requires
        0 < d,
        d <= 4 * n,
        n <= pow2(31) * d,
        (2 * t - 1) * d <= 2 * n < (2 * t + 1) * d,
        t >= 1 ==> pow2(e) <= t < pow2(e + 1),
        t == 0 ==> e == 0,
    ensures
        to_whole(held_quotient(n, d)) == (if t >= 1 && pow2(52) * ((2 * t + 1) * d - 2 * n)
            <= d * pow2(e) || t == 0 && pow2(54) * ((2 * t + 1) * d - 2 * n) <= d {
            t + 1
        } else {
            t
        }),
{
    lemma2_to64();
    lemma2_to64_rest();
    let unit = pow2(54) as int;
    let whole = n * unit / d;
    lemma_fundamental_div_mod(n * unit, d);
    let rest = (n * unit) % d;
    assert(0 <= rest < d) by (nonlinear_arith)
        requires
            rest == (n * unit) % d,
            d > 0,
    ;
    assert(n * unit == whole * d + rest) by (nonlinear_arith)
        requires
            n * unit == d * whole + rest,
    ;
    // The quotient stands between a quarter and 2^31.
    assert(unit == 4 * pow2(52));
    assert(pow2(52) <= whole) by (nonlinear_arith)
        requires
            n * unit == whole * d + rest,
            rest < d,
            d <= 4 * n,
            unit == 4 * pow2(52),
            0 < d,
            0 < pow2(52),
    ;
    lemma_pow2_adds(31, 54);
    assert(whole <= pow2(85)) by (nonlinear_arith)
        requires
            n * unit == whole * d + rest,
            0 <= rest,
            n <= pow2(31) * d,
            unit == pow2(54),
            pow2(31) * pow2(54) == pow2(85),
            0 < d,
    ;
    lemma_log2(whole);
    let l = log(2, whole);
    if l < 52 {
        if l < 51 {
            lemma_pow2_strictly_increases((l + 1) as nat, 52);
        }
        assert(false);
    }
    if l > 85 {
        lemma_pow2_strictly_increases(85, l as nat);
        assert(false);
    }
    let last_bit = pow2((l - 52) as nat) as int;
    lemma_pow2_pos((l - 52) as nat);
    let big = n * unit;
    let held = nearest_even(big, d * last_bit);
    assert(held_quotient(n, d) == held * last_bit);
    // Halves of whole numbers are held exactly.
    let per_half = pow2((105 - l) as nat) as int;
    lemma_pow2_adds((105 - l) as nat, (l - 52) as nat);
    assert(per_half * last_bit == pow2(53));
    lemma_pow2_unfold((105 - l) as nat);
    assert(per_half % 2 == 0);
    let below = (2 * t - 1) * per_half;
    let above = (2 * t + 1) * per_half;
    assert(above % 2 == 0) by {
        let half = pow2((104 - l) as nat) as int;
        assert(above == 2 * ((2 * t + 1) * half)) by (nonlinear_arith)
            requires
                above == (2 * t + 1) * per_half,
                per_half == 2 * half,
        ;
    }
    assert(d * last_bit > 0) by (nonlinear_arith)
        requires
            d > 0,
            last_bit > 0,
    ;
    assert(below * (d * last_bit) == (2 * t - 1) * d * pow2(53)) by (nonlinear_arith)
        requires
            below == (2 * t - 1) * per_half,
            per_half * last_bit == pow2(53),
    ;
    assert(above * (d * last_bit) == (2 * t + 1) * d * pow2(53)) by (nonlinear_arith)
        requires
            above == (2 * t + 1) * per_half,
            per_half * last_bit == pow2(53),
    ;
    assert(big == 2 * n * pow2(53)) by (nonlinear_arith)
        requires
            big == n * unit,
            unit == 2 * pow2(53),
    ;
    assert(below * (d * last_bit) <= big) by (nonlinear_arith)
        requires
            below * (d * last_bit) == (2 * t - 1) * d * pow2(53),
            big == 2 * n * pow2(53),
            (2 * t - 1) * d <= 2 * n,
            0 < pow2(53),
    ;
    let gap = (2 * t + 1) * d - 2 * n;
    assert(above * (d * last_bit) - big == gap * pow2(53)) by (nonlinear_arith)
        requires
            above * (d * last_bit) == (2 * t + 1) * d * pow2(53),
            big == 2 * n * pow2(53),
            gap == (2 * t + 1) * d - 2 * n,
    ;
    assert(gap * pow2(53) > 0) by (nonlinear_arith)
        requires
            gap > 0,
            0 < pow2(53),
    ;
    lemma_nearest_even(big, d * last_bit, below);
    lemma_nearest_even(big, d * last_bit, above);
    assert(below <= held <= above);
    assert((2 * t - 1) * pow2(53) <= held * last_bit) by (nonlinear_arith)
        requires
            below == (2 * t - 1) * per_half,
            below <= held,
            per_half * last_bit == pow2(53),
            last_bit > 0,
    ;
    assert(above * last_bit == (2 * t + 1) * pow2(53)) by (nonlinear_arith)
        requires
            above == (2 * t + 1) * per_half,
            per_half * last_bit == pow2(53),
    ;
    assert(held < above ==> held * last_bit < above * last_bit) by (nonlinear_arith)
        requires
            last_bit > 0,
    ;
    assert(to_whole(held * last_bit) == (if held == above {
        t + 1
    } else {
        t
    }));
    // Only a quotient of at least `t` can be that close, and then its last bit is that of `t`.
    let moved = 2 * (gap * pow2(53)) <= d * last_bit;
    assert(held == above <==> moved);
    assert(2 * (gap * pow2(53)) == pow2(54) * gap) by (nonlinear_arith)
        requires
            pow2(54) == 2 * pow2(53),
    ;
    if t == 0 {
        assert((2 * t + 1) * d == d) by (nonlinear_arith)
            requires
                t == 0,
        ;
        assert(2 * n * pow2(53) < d * pow2(53)) by (nonlinear_arith)
            requires
                2 * n < d,
                0 < pow2(53),
        ;
        assert(whole < pow2(53)) by (nonlinear_arith)
            requires
                2 * n * pow2(53) < d * pow2(53),
                2 * n * pow2(53) == whole * d + rest,
                0 <= rest,
                0 < d,
        ;
        lemma_log2_is(whole, 52);
        assert(last_bit == 1);
        assert(d * last_bit == d) by (nonlinear_arith)
            requires
                last_bit == 1,
        ;
    } else {
        let p = pow2(e) as int;
        lemma_pow2_pos(e);
        if n >= t * d {
            lemma_pow2_adds(e, 54);
            lemma_pow2_adds(e + 1, 54);
            assert(whole >= pow2(e) * pow2(54)) by (nonlinear_arith)
                requires
                    n * unit == whole * d + rest,
                    rest < d,
                    n >= t * d,
                    t >= pow2(e),
                    unit == pow2(54),
                    0 < d,
                    0 < pow2(54),
                    0 < pow2(e),
            ;
            assert(whole < pow2(e + 1) * pow2(54)) by (nonlinear_arith)
                requires
                    n * unit == whole * d + rest,
                    0 <= rest,
                    2 * n < (2 * t + 1) * d,
                    t + 1 <= pow2(e + 1),
                    unit == pow2(54),
                    0 < d,
                    0 < pow2(54),
            ;
            lemma_log2_is(whole, e + 54);
            lemma_pow2_adds(e, 2);
            assert(last_bit == 4 * p);
            assert(d * last_bit == 4 * (d * p)) by (nonlinear_arith)
                requires
                    last_bit == 4 * p,
            ;
            assert(pow2(54) * gap == 4 * (pow2(52) * gap)) by (nonlinear_arith)
                requires
                    pow2(54) == 4 * pow2(52),
            ;
        } else {
            assert(gap > d) by (nonlinear_arith)
                requires
                    gap == (2 * t + 1) * d - 2 * n,
                    n < t * d,
            ;
            lemma_pow2_strictly_increases((l - 52) as nat, 52);
            assert(pow2(54) * gap > d * last_bit) by (nonlinear_arith)
                requires
                    gap > d,
                    last_bit < pow2(52),
                    pow2(54) == 4 * pow2(52),
                    d > 0,
                    0 < last_bit,
            ;
            if e >= 52 {
                if e > 52 {
                    lemma_pow2_strictly_increases(52, e);
                }
                assert(2 * t - 1 > 2 * pow2(31));
                assert(false) by (nonlinear_arith)
                    requires
                        (2 * t - 1) * d <= 2 * n,
                        n <= pow2(31) * d,
                        2 * t - 1 > 2 * pow2(31),
                        d > 0,
                ;
            }
            lemma_pow2_strictly_increases(e, 52);
            assert(pow2(52) * gap > d * p) by (nonlinear_arith)
                requires
                    gap > d,
                    p < pow2(52),
                    d > 0,
                    0 < p,
            ;
        }
    }
}

/// A factor common to both sides of a quotient makes no difference.
proof fn lemma_common_factor(n: int, d: int, c: int)
    requires
        0 <= n,
        0 < d,
        0 < c,
    ensures
        held_quotient(n * c, d * c) == held_quotient(n, d),
{
    let unit = pow2(54) as int;
    assert(n * c * unit == n * unit * c) by (nonlinear_arith);
    lemma_scaled_division(n * unit, d, c);
    let last_bit = pow2((log(2, n * unit / d) - 52) as nat) as int;
    lemma_pow2_pos((log(2, n * unit / d) - 52) as nat);
    assert(d * c * last_bit == d * last_bit * c) by (nonlinear_arith);
    assert(d * last_bit > 0) by (nonlinear_arith)
        requires
            d > 0,
            last_bit > 0,
    ;
    lemma_scaled_division(n * unit, d * last_bit, c);
    let rest = (n * unit) % (d * last_bit);
    let whole = d * last_bit;
    assert(2 * (rest * c) < whole * c <==> 2 * rest < whole) by (nonlinear_arith)
        requires
            c > 0,
    ;
    assert(2 * (rest * c) == whole * c <==> 2 * rest == whole) by (nonlinear_arith)
        requires
            c > 0,
    ;
}

proof fn lemma_scaled_division(n: int, d: int, c: int)
    requires
        0 < d,
        0 < c,
    ensures
        (n * c) / (d * c) == n / d,
        (n * c) % (d * c) == (n % d) * c,
{
    let low = n / d;
    let rest = n % d;
    lemma_fundamental_div_mod(n, d);
    assert(0 <= rest < d) by (nonlinear_arith)
        requires
            rest == n % d,
            d > 0,
    ;
    assert(0 <= rest * c < d * c) by (nonlinear_arith)
        requires
            0 <= rest < d,
            0 < c,
    ;
    assert(n * c == low * (d * c) + rest * c) by (nonlinear_arith)
        requires
            n == d * low + rest,
    ;
    lemma_fundamental_div_mod_converse(n * c, d * c, low, rest * c);
}

/// A scale is its 53 significant bits over a power of two.
proof fn lemma_scale_parts(scale: UiScale)
    requires
        scale.in_range(),
    ensures
        scale.bits < TWO ==> value(scale.bits) == (FRACTION_BITS + scale.bits % FRACTION_BITS)
            * pow2(1022),
        scale.bits >= TWO ==> value(scale.bits) == (FRACTION_BITS + scale.bits % FRACTION_BITS)
            * pow2(1023),
        scale.bits >= TWO ==> scale.bits % FRACTION_BITS <= FRACTION_BITS / 2,
{
    let bits = scale.bits as int;
    let unit = FRACTION_BITS as int;
    if scale.bits < TWO {
        assert(bits / unit == 1023);
    } else {
        assert(bits / unit == 1024);
    }
}

/// `pixels` divided by `scale`.
fn scale_down(pixels: u32, scale: UiScale) -> (logical: u32)
    requires
        0 < pixels <= 0x8000_0000,
        scale.in_range(),
    ensures
        logical == scaled_down(pixels as int, scale),
        logical <= pixels,
{
    // The scale is `bits / 2^52`, or `bits / 2^51` from 2.0 on.
    let bits: u128 = (FRACTION_BITS + scale.bits % FRACTION_BITS) as u128;
    let twice: u128 = if scale.bits < TWO {
        pixels as u128 * 0x0020_0000_0000_0000
    } else {
        pixels as u128 * 0x0010_0000_0000_0000
    };
    let t: u128 = (twice + bits) / (2 * bits);
    let ghost rest = (twice + bits) % (2 * bits);
    let ghost (b, n) = (bits as int, twice as int / 2);
    proof {
        lemma_fundamental_div_mod(twice + bits, 2 * b);
        assert(t * (2 * b) == (2 * t) * b) by (nonlinear_arith);
        assert((2 * t + 1) * b == (2 * t) * b + b) by (nonlinear_arith);
        assert((2 * t - 1) * b == (2 * t) * b - b) by (nonlinear_arith);
        assert(2 * b * t == t * (2 * b)) by (nonlinear_arith);
        assert((2 * t - 1) * b <= twice < (2 * t + 1) * b);
        assert(twice <= 2 * (pixels * b)) by (nonlinear_arith)
            requires
                twice <= pixels * 0x0020_0000_0000_0000,
                b >= 0x0010_0000_0000_0000,
                pixels > 0,
        ;
        assert(t <= pixels) by (nonlinear_arith)
            requires
                (2 * t - 1) * b <= twice,
                twice <= 2 * (pixels * b),
                b > 0,
        ;
        assert((2 * t + 1) * b <= 0x1_0000_0001 * 0x0020_0000_0000_0000) by (nonlinear_arith)
            requires
                t <= 0x8000_0000,
                b <= 0x0020_0000_0000_0000,
                0 <= t,
                0 <= b,
        ;
    }
    let gap: u128 = (2 * t + 1) * bits - twice;
    let mut p: u128 = 1;
    let ghost mut e: nat = 0;
    proof {
        lemma2_to64();
        lemma2_to64_rest();
    }
    while 2 * p <= t
        invariant
            t <= 0x8000_0000,
            1 <= p <= 0x8000_0000,
            p == pow2(e),
            t >= 1 ==> p <= t,
            t == 0 ==> e == 0,
        decreases t - p,
    {
        p = 2 * p;
        proof {
            lemma_pow2_unfold(e + 1);
            e = e + 1;
        }
    }
    proof {
        lemma_pow2_unfold(e + 1);
        assert(bits * p <= 0x0020_0000_0000_0000 * 0x8000_0000) by (nonlinear_arith)
            requires
                0 <= bits <= 0x0020_0000_0000_0000,
                0 <= p <= 0x8000_0000,
        ;
        lemma_scale_parts(scale);
        assert(n <= pow2(31) * b) by (nonlinear_arith)
            requires
                2 * n <= 2 * (pixels * b),
                pixels <= pow2(31),
                0 < b,
        ;
        lemma_held_quotient(n, b, t as int, e);
        lemma_pow2_pos(1022);
        lemma_pow2_pos(1023);
        lemma_pow2_adds(52, 1022);
        lemma_pow2_adds(51, 1023);
        if scale.bits < TWO {
            assert(pixels * pow2(1074) == n * pow2(1022)) by (nonlinear_arith)
                requires
                    n == pixels * pow2(52),
                    pow2(52) * pow2(1022) == pow2(1074),
            ;
            lemma_common_factor(n, b, pow2(1022) as int);
        } else {
            assert(pixels * pow2(1074) == n * pow2(1023)) by (nonlinear_arith)
                requires
                    n == pixels * pow2(51),
                    pow2(51) * pow2(1023) == pow2(1074),
            ;
            lemma_common_factor(n, b, pow2(1023) as int);
        }
    }
    let moved = if t >= 1 {
        0x0010_0000_0000_0000 * gap <= bits * p
    } else {
        0x0040_0000_0000_0000 * gap <= bits
    };
    if moved {
        proof {
            if t == pixels {
                assert((2 * t + 1) * b == 2 * (pixels * b) + b) by (nonlinear_arith)
                    requires
                        t == pixels,
                ;
                assert(gap >= b);
                assert(bits * p < 0x0010_0000_0000_0000 * gap) by (nonlinear_arith)
                    requires
                        gap >= bits,
                        0 < bits,
                        p <= 0x8000_0000,
                ;
            }
        }
        (t + 1) as u32
    } else {
        t as u32
    }
}

/// At a scale of 1.0 the logical extent is the mode itself.
pub proof fn law_scale_one_keeps_the_size(size: Size, scale: UiScale)
    requires
        scale.is_one(),
    ensures
        logical_of(size, scale) == size,
{
    if size.w != 0 {
        lemma_scaled_down_by_one(if size.w > 0 { size.w as int } else { -size.w }, scale);
    }
    if size.h != 0 {
        lemma_scaled_down_by_one(if size.h > 0 { size.h as int } else { -size.h }, scale);
    }
}

proof fn lemma_scaled_down_by_one(pixels: int, scale: UiScale)
    requires
        scale.is_one(),
        0 < pixels <= 0x8000_0000,
    ensures
        scaled_down(pixels, scale) == pixels,
{
    lemma2_to64();
    lemma2_to64_rest();
    lemma_scale_parts(scale);
    lemma_pow2_pos(1022);
    lemma_pow2_pos(1074);
    lemma_pow2_adds(52, 1022);
    assert(pow2(52) * pow2(1022) == 1 * pow2(1074));
    lemma_common_factor(pixels, 1, pow2(1074) as int);
    lemma_log2(pixels);
    let e = log(2, pixels) as nat;
    if e >= 52 {
        if e > 52 {
            lemma_pow2_strictly_increases(52, e);
        }
    } else {
        lemma_pow2_strictly_increases(e, 52);
    }
    lemma_held_quotient(pixels, 1, pixels, e);
}

/// A mode's logical extent is never larger than the mode: the desktop is enlarged by the
/// scale, never shrunk.
pub proof fn law_the_extent_is_no_larger_than_the_mode(pixels: int, scale: UiScale)
    requires
        scale.in_range(),
        0 <= pixels <= 0x8000_0000,
    ensures
        0 <= logical_axis(pixels, scale) <= pixels,
{
    if pixels > 0 {
        lemma2_to64();
        lemma2_to64_rest();
        lemma_pow2_pos(1074);
        law_scales_compare_as_their_bits(scale, scale);
        let d = value(scale.bits);
        let n = pixels * pow2(1074);
        let t = (2 * n + d) / (2 * d);
        let rest = (2 * n + d) % (2 * d);
        lemma_fundamental_div_mod(2 * n + d, 2 * d);
        assert(pow2(1074) <= n <= pixels * d) by (nonlinear_arith)
            requires
                n == pixels * pow2(1074),
                0 < pow2(1074) <= d,
                0 < pixels,
        ;
        assert(2 * d * t == (2 * t) * d) by (nonlinear_arith);
        assert((2 * t + 1) * d == (2 * t) * d + d) by (nonlinear_arith);
        assert((2 * t - 1) * d == (2 * t) * d - d) by (nonlinear_arith);
        assert(0 <= t <= pixels) by (nonlinear_arith)
            requires
                (2 * t - 1) * d <= 2 * n < (2 * t + 1) * d,
                0 < n <= pixels * d,
                0 < d,
        ;
        assert(n <= pow2(31) * d) by (nonlinear_arith)
            requires
                n <= pixels * d,
                pixels <= pow2(31),
                0 < d,
        ;
        let e = if t >= 1 {
            log(2, t) as nat
        } else {
            0
        };
        if t >= 1 {
            lemma_log2(t);
        }
        lemma_held_quotient(n, d, t, e);
        if t == pixels {
            assert((2 * t) * d == 2 * (pixels * d)) by (nonlinear_arith)
                requires
                    t == pixels,
            ;
            assert(pow2(e) < pow2(52)) by {
                if e >= 52 {
                    if e > 52 {
                        lemma_pow2_strictly_increases(52, e);
                    }
                }
            }
            let gap = (2 * t + 1) * d - 2 * n;
            assert(pow2(52) * gap > d * pow2(e)) by (nonlinear_arith)
                requires
                    gap >= d,
                    pow2(e) < pow2(52),
                    0 < d,
            ;
        }
    }
}

impl Size {
    /// The logical extent of a mode of this size at `scale`.
    pub fn to_logical(self, scale: UiScale) -> (logical: Size)
        requires
            scale.in_range(),
        ensures
            logical == logical_of(self, scale),
    {
        Size { w: axis_to_logical(self.w, scale), h: axis_to_logical(self.h, scale) }
    }
}

fn axis_to_logical(pixels: i32, scale: UiScale) -> (logical: i32)
    requires
        scale.in_range(),
    ensures
        logical == logical_axis(pixels as int, scale),
{
    if pixels == 0 {
        0
    } else if pixels > 0 {
        scale_down(pixels as u32, scale) as i32
    } else {
        let size: u32 = (-(pixels as i64)) as u32;
        let logical: u32 = scale_down(size, scale);
        (-(logical as i64)) as i32
    }
}

/// One axis of the extent is the whole number next to the number of pixels divided by the
/// scale. A half goes up, and so does a quotient so close below a half that a binary64 number
/// cannot hold the difference: closer than one part in two million.
pub proof fn law_the_extent_is_the_nearest_whole_number(pixels: int, scale: UiScale)
    requires
        scale.in_range(),
        0 < pixels <= 0x8000_0000,
    ensures
        ({
            let whole = logical_axis(pixels, scale);
            let (n, d) = (pixels * pow2(1074), value(scale.bits));
            &&& 2 * n < (2 * whole + 1) * d
            &&& 0x20_0000 * ((2 * whole - 1) * d) <= 0x20_0000 * (2 * n) + d
        }),
{
    lemma2_to64();
    lemma2_to64_rest();
    lemma_pow2_pos(1074);
    law_scales_compare_as_their_bits(scale, scale);
    let d = value(scale.bits);
    let n = pixels * pow2(1074);
    let t = (2 * n + d) / (2 * d);
    lemma_fundamental_div_mod(2 * n + d, 2 * d);
    assert(pow2(1074) <= n <= pixels * d) by (nonlinear_arith)
        requires
            n == pixels * pow2(1074),
            0 < pow2(1074) <= d,
            0 < pixels,
    ;
    assert(2 * d * t == (2 * t) * d) by (nonlinear_arith);
    assert((2 * t + 1) * d == (2 * t) * d + d) by (nonlinear_arith);
    assert((2 * t - 1) * d == (2 * t) * d - d) by (nonlinear_arith);
    assert((2 * (t + 1) + 1) * d == (2 * t) * d + 3 * d) by (nonlinear_arith);
    assert((2 * (t + 1) - 1) * d == (2 * t) * d + d) by (nonlinear_arith);
    assert(0 <= t <= pixels) by (nonlinear_arith)
        requires
            (2 * t - 1) * d <= 2 * n < (2 * t + 1) * d,
            0 < n <= pixels * d,
            0 < d,
    ;
    assert(n <= pow2(31) * d) by (nonlinear_arith)
        requires
            n <= pixels * d,
            pixels <= pow2(31),
            0 < d,
    ;
    let e = if t >= 1 {
        log(2, t) as nat
    } else {
        0
    };
    if t >= 1 {
        lemma_log2(t);
    }
    lemma_held_quotient(n, d, t, e);
    let gap = (2 * t + 1) * d - 2 * n;
    if logical_axis(pixels, scale) == t + 1 {
        if t >= 1 {
            assert(0x20_0000 * gap <= d) by (nonlinear_arith)
                requires
                    pow2(52) * gap <= d * pow2(e),
                    pow2(e) <= t,
                    t <= 0x8000_0000,
                    pow2(52) == 0x20_0000 * 0x8000_0000,
                    0 < d,
            ;
        } else {
            assert(0x20_0000 * gap <= d) by (nonlinear_arith)
                requires
                    pow2(54) * gap <= d,
                    pow2(54) >= 0x20_0000,
                    0 < gap,
            ;
        }
    }
}

/// The two axes of an extent are found apart from each other, each in the same way on both
/// sides of zero.
pub proof fn law_each_axis_of_the_extent_is_its_own(size: Size, scale: UiScale)
    requires
        scale.in_range(),
    ensures
        logical_of(size, scale).w == logical_axis(size.w as int, scale),
        logical_of(size, scale).h == logical_axis(size.h as int, scale),
        logical_axis(0, scale) == 0,
        logical_axis(-size.w, scale) == -logical_axis(size.w as int, scale),
        logical_axis(-size.h, scale) == -logical_axis(size.h as int, scale),
{
    let w = if size.w >= 0 {
        size.w as int
    } else {
        -size.w
    };
    let h = if size.h >= 0 {
        size.h as int
    } else {
        -size.h
    };
    law_the_extent_is_no_larger_than_the_mode(w, scale);
    law_the_extent_is_no_larger_than_the_mode(h, scale);
}

/// How close below a half is too close. `t` is where the exact quotient goes, a half going up,
/// and `2^e` is the largest power of two up to `t`. The extent is the next whole number instead
/// exactly when less than `2^(e - 53)` of a half is missing, since binary64 then holds the half.
pub proof fn law_a_quotient_too_close_to_a_half_goes_up(
    pixels: int,
    scale: UiScale,
    t: int,
    e: nat,
)
    requires
        scale.in_range(),
        0 < pixels <= 0x8000_0000,
        (2 * t - 1) * value(scale.bits) <= 2 * (pixels * pow2(1074)) < (2 * t + 1) * value(
            scale.bits,
        ),
        t >= 1,
        pow2(e) <= t < pow2(e + 1),
    ensures
        ({
            let (n, d) = (pixels * pow2(1074), value(scale.bits));
            let missing = (2 * t + 1) * d - 2 * n;
            &&& pow2(52) * missing <= d * pow2(e) ==> logical_axis(pixels, scale) == t + 1
            &&& pow2(52) * missing > d * pow2(e) ==> logical_axis(pixels, scale) == t
        }),
{
    lemma2_to64();
    lemma2_to64_rest();
    lemma_pow2_pos(1074);
    law_scales_compare_as_their_bits(scale, scale);
    let d = value(scale.bits);
    let n = pixels * pow2(1074);
    assert(pow2(1074) <= n <= pixels * d) by (nonlinear_arith)
        requires
            n == pixels * pow2(1074),
            0 < pow2(1074) <= d,
            0 < pixels,
    ;
    assert(n <= pow2(31) * d) by (nonlinear_arith)
        requires
            n <= pixels * d,
            pixels <= pow2(31),
            0 < d,
    ;
    lemma_held_quotient(n, d, t, e);
}

/// The number a scale stands for: one and its fraction below 2.0, and twice that from 2.0 on, in
/// steps of `2^-1074`.
pub proof fn law_a_scale_is_one_and_its_fraction(scale: UiScale)
    requires
        scale.in_range(),
    ensures
        ({
            let significant = 0x10_0000_0000_0000 + scale.bits % 0x10_0000_0000_0000;
            &&& scale.bits < 0x4000_0000_0000_0000 ==> value(scale.bits) == significant * pow2(
                1022,
            )
            &&& scale.bits >= 0x4000_0000_0000_0000 ==> value(scale.bits) == significant * pow2(
                1023,
            )
        }),
{
    lemma_scale_parts(scale);
}

} // verus!
