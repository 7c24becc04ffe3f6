//! The UI scale: how much larger than its pixels the desktop appears.
//!
//! A scale travels as the bit pattern of an IEEE 754 binary64 number, which is what the
//! display protocols carry. The smallest step between two such numbers is `2^-1074`, so the
//! value of every finite one is a whole number of those steps, and that is how the contracts
//! here speak of it.

use vstd::arithmetic::power2::{
    lemma2_to64, lemma2_to64_rest, lemma_pow2_adds, lemma_pow2_pos, lemma_pow2_strictly_increases,
    lemma_pow2_unfold, pow2,
};
use vstd::prelude::*;

verus! {

/// The bit pattern of 1.0, the smallest UI scale.
pub const UI_SCALE_MIN: u64 = 0x3ff0_0000_0000_0000;

/// The bit pattern of 3.0, the largest UI scale.
pub const UI_SCALE_MAX: u64 = 0x4008_0000_0000_0000;

/// The bits that hold the exponent and the fraction; above them stands the sign.
pub const MAGNITUDE_BITS: u64 = 0x8000_0000_0000_0000;

/// The magnitude pattern of infinity. At and above it there is no number.
pub const NOT_FINITE: u64 = 0x7ff0_0000_0000_0000;

/// The step of the fraction's first bit.
pub const FRACTION_BITS: u64 = 0x0010_0000_0000_0000;

/// The number of `2^-1074` steps in the magnitude pattern `m`.
pub open spec fn steps(m: int) -> int {
    let exponent = m / (FRACTION_BITS as int);
    let fraction = m % (FRACTION_BITS as int);
    if exponent == 0 {
        fraction
    } else {
        (FRACTION_BITS + fraction) * (pow2((exponent - 1) as nat) as int)
    }
}

/// `bits` is a number, not an infinity or a NaN.
pub open spec fn is_finite(bits: u64) -> bool {
    bits % MAGNITUDE_BITS < NOT_FINITE
}

/// The value of a finite pattern, in steps of `2^-1074`.
pub open spec fn value(bits: u64) -> int {
    let magnitude = steps((bits % MAGNITUDE_BITS) as int);
    if bits < MAGNITUDE_BITS {
        magnitude
    } else {
        -magnitude
    }
}

/// A UI scale between 1.0 and 3.0.
#[derive(Debug, Clone, Copy, PartialEq, Eq, Structural)]
pub struct UiScale {
    pub bits: u64,
}

/// A requested number brought between 1.0 and 3.0.
pub open spec fn clamped(bits: u64) -> UiScale {
    UiScale {
        bits: if value(bits) < pow2(1074) {
            UI_SCALE_MIN
        } else if value(bits) > 3 * pow2(1074) {
            UI_SCALE_MAX
        } else {
            bits
        },
    }
}

impl UiScale {
    pub open spec fn in_range(self) -> bool {
        UI_SCALE_MIN <= self.bits <= UI_SCALE_MAX
    }

    pub open spec fn is_one(self) -> bool {
        self.bits == UI_SCALE_MIN
    }

    /// The scale at which nothing is enlarged.
    pub fn one() -> (s: UiScale)
        ensures
            s.in_range(),
            s.is_one(),
            value(s.bits) == pow2(1074),
    {
        proof {
            lemma_bounds();
        }
        UiScale { bits: UI_SCALE_MIN }
    }

    /// Clamp a requested scale into `[1.0, 3.0]`. A request that is no number has no scale.
    pub fn clamp(bits: u64) -> (s: Option<UiScale>)
        ensures
            s == (if is_finite(bits) {
                Some(clamped(bits))
            } else {
                None
            }),
            s matches Some(s) ==> s.in_range(),
    {
        let magnitude: u64 = bits % MAGNITUDE_BITS;
        if magnitude >= NOT_FINITE {
            return None;
        }
        proof {
            lemma_bounds();
            lemma_pow2_pos(1074);
            lemma_steps_order(magnitude as int, UI_SCALE_MIN as int);
            lemma_steps_order(UI_SCALE_MIN as int, magnitude as int);
            lemma_steps_order(magnitude as int, UI_SCALE_MAX as int);
            lemma_steps_order(UI_SCALE_MAX as int, magnitude as int);
        }
        if bits >= MAGNITUDE_BITS || magnitude < UI_SCALE_MIN {
            Some(UiScale { bits: UI_SCALE_MIN })
        } else if magnitude > UI_SCALE_MAX {
            Some(UiScale { bits: UI_SCALE_MAX })
        } else {
            Some(UiScale { bits })
        }
    }
}

/// A stored scale stands between 1.0 and 3.0, and two stored scales are the same number
/// exactly when they are the same pattern.
pub proof fn law_scales_compare_as_their_bits(a: UiScale, b: UiScale)
    requires
        a.in_range(),
        b.in_range(),
    ensures
        pow2(1074) <= value(a.bits) <= 3 * pow2(1074),
        value(a.bits) == value(b.bits) <==> a == b,
        value(a.bits) < value(b.bits) <==> a.bits < b.bits,
{
    lemma_bounds();
    lemma_steps_order(UI_SCALE_MIN as int, a.bits as int);
    lemma_steps_order(a.bits as int, UI_SCALE_MAX as int);
    lemma_steps_order(a.bits as int, b.bits as int);
    lemma_steps_order(b.bits as int, a.bits as int);
}

/// The two bounds are 1.0 and 3.0.
proof fn lemma_bounds()
    ensures
        value(UI_SCALE_MIN) == pow2(1074),
        value(UI_SCALE_MAX) == 3 * pow2(1074),
{
    lemma2_to64();
    lemma2_to64_rest();
    lemma_pow2_adds(52, 1022);
    lemma_pow2_adds(51, 1023);
    assert(steps(UI_SCALE_MIN as int) == pow2(52) * pow2(1022));
    assert(steps(UI_SCALE_MAX as int) == (3 * pow2(51)) * pow2(1023));
    assert((3 * pow2(51)) * pow2(1023) == 3 * (pow2(51) * pow2(1023))) by (nonlinear_arith);
}

/// The larger pattern is the larger number.
proof fn lemma_steps_order(a: int, b: int)
    requires
        0 <= a,
        0 <= b,
    ensures
        0 <= steps(a),
        a < b ==> steps(a) < steps(b),
{
    let unit = FRACTION_BITS as int;
    let (ea, fa) = (a / unit, a % unit);
    let (eb, fb) = (b / unit, b % unit);
    if ea > 0 {
        lemma_pow2_pos((ea - 1) as nat);
        let p = pow2((ea - 1) as nat) as int;
        assert(0 <= (unit + fa) * p) by (nonlinear_arith)
            requires
                0 <= fa,
                0 < unit,
                0 < p,
        ;
    }
    if a < b {
        assert(ea <= eb);
        if ea == eb {
            if ea > 0 {
                let p = pow2((ea - 1) as nat) as int;
                assert((unit + fa) * p < (unit + fb) * p) by (nonlinear_arith)
                    requires
                        fa < fb,
                        0 < p,
                ;
            }
        } else {
            lemma_pow2_pos((eb - 1) as nat);
            let q = pow2((eb - 1) as nat) as int;
            assert(unit * q <= (unit + fb) * q) by (nonlinear_arith)
                requires
                    0 <= fb,
                    0 < q,
            ;
            if ea == 0 {
                assert(unit <= unit * q) by (nonlinear_arith)
                    requires
                        0 < q,
                        0 < unit,
                ;
            } else {
                let p = pow2((ea - 1) as nat) as int;
                lemma_pow2_unfold(ea as nat);
                if ea < eb - 1 {
                    lemma_pow2_strictly_increases(ea as nat, (eb - 1) as nat);
                }
                assert(2 * p <= q);
                assert((unit + fa) * p < unit * q) by (nonlinear_arith)
                    requires
                        fa < unit,
                        0 < p,
                        2 * p <= q,
                        0 < unit,
                ;
            }
        }
    }
}

/// A pattern is a number unless all the bits of its exponent are set.
pub proof fn law_a_full_exponent_is_no_number(bits: u64)
    ensures
        is_finite(bits) <==> (bits / 0x10_0000_0000_0000) % 0x800 != 0x7ff,
{
    let m = bits % 0x8000_0000_0000_0000;
    assert((bits / 0x10_0000_0000_0000) % 0x800 == m / 0x10_0000_0000_0000) by (bit_vector)
        requires
            m == bits % 0x8000_0000_0000_0000,
    ;
    assert(m < 0x7ff0_0000_0000_0000 <==> m / 0x10_0000_0000_0000 != 0x7ff) by (bit_vector)
        requires
            m < 0x8000_0000_0000_0000,
    ;
}

/// A request below 1.0, every negative one included, becomes 1.0, one above 3.0 becomes 3.0, and
/// one in between stays what it is, bit for bit.
pub proof fn law_a_request_is_brought_between_one_and_three(bits: u64)
    requires
        is_finite(bits),
    ensures
        bits >= 0x8000_0000_0000_0000 || bits < 0x3ff0_0000_0000_0000 ==> clamped(bits).bits
            == 0x3ff0_0000_0000_0000,
        0x4008_0000_0000_0000 < bits < 0x8000_0000_0000_0000 ==> clamped(bits).bits
            == 0x4008_0000_0000_0000,
        0x3ff0_0000_0000_0000 <= bits <= 0x4008_0000_0000_0000 ==> clamped(bits).bits == bits,
        clamped(bits).in_range(),
{
    let magnitude = (bits % MAGNITUDE_BITS) as int;
    lemma_bounds();
    lemma_pow2_pos(1074);
    lemma_steps_order(magnitude, UI_SCALE_MIN as int);
    lemma_steps_order(UI_SCALE_MIN as int, magnitude);
    lemma_steps_order(magnitude, UI_SCALE_MAX as int);
    lemma_steps_order(UI_SCALE_MAX as int, magnitude);
}

/// A scale is in range between the patterns of 1.0 and 3.0, and the first of them is one.
pub proof fn law_scales_range_from_one_to_three(scale: UiScale)
    ensures
        scale.in_range() <==> 0x3ff0_0000_0000_0000 <= scale.bits <= 0x4008_0000_0000_0000,
        scale.is_one() <==> scale.bits == 0x3ff0_0000_0000_0000,
{
}

} // verus!
