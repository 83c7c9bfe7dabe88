//! Double-precision numbers, held as their IEEE 754 bit patterns.
//!
//! Every finite double is a whole multiple of the smallest positive one, two to the power of
//! minus 1074. That smallest number is the unit here, so that the value of a finite double is an
//! integer number of units and one whole is `one()` units.
use crate::rounding;
use crate::rounding::{LEADING_BIT, SIGNIFICAND_BOUND};
use vstd::arithmetic::div_mod::*;
use vstd::arithmetic::mul::*;
use vstd::arithmetic::power2::*;
use vstd::prelude::*;

verus! {

/// The bit that holds the sign.
pub const SIGN_BIT: u64 = 0x8000_0000_0000_0000;

/// The pattern of positive infinity; patterns above it, sign bit aside, are not numbers.
pub const INFINITY_BITS: u64 = 0x7ff0_0000_0000_0000;

/// What a bit pattern stands for.
pub enum Number {
    NotANumber,
    Infinite { negative: bool },
    Finite { units: int },
}

/// A double-precision number.
#[derive(Debug, Clone, Copy)]
pub struct Double {
    /// The number's IEEE 754 bit pattern.
    pub bits: u64,
}

/// One whole, in units.
pub open spec fn one() -> nat {
    pow2(1074)
}

/// The integer significand of a finite pattern without its sign bit.
pub open spec fn significand(magnitude: nat) -> nat {
    let fraction = magnitude % (LEADING_BIT as nat);
    if magnitude < LEADING_BIT {
        fraction
    } else {
        LEADING_BIT as nat + fraction
    }
}

/// The power of two that the significand of such a pattern is scaled by.
pub open spec fn shift(magnitude: nat) -> nat {
    if magnitude < LEADING_BIT {
        0
    } else {
        (magnitude / (LEADING_BIT as nat) - 1) as nat
    }
}

/// The units of a finite pattern without its sign bit.
pub open spec fn magnitude_units(magnitude: nat) -> nat {
    significand(magnitude) * pow2(shift(magnitude))
}

impl Double {
    /// The pattern without its sign bit.
    pub open spec fn magnitude(self) -> nat {
        self.bits as nat % (SIGN_BIT as nat)
    }
}

impl View for Double {
    type V = Number;

    open spec fn view(&self) -> Number {
        let magnitude = self.magnitude();
        let negative = self.bits >= SIGN_BIT;
        if magnitude > INFINITY_BITS {
            Number::NotANumber
        } else if magnitude == INFINITY_BITS {
            Number::Infinite { negative }
        } else if negative {
            Number::Finite { units: -(magnitude_units(magnitude) as int) }
        } else {
            Number::Finite { units: magnitude_units(magnitude) as int }
        }
    }
}

/// `units` rounded to the nearest whole, halves away from zero, and held to 32 bits.
pub open spec fn whole(units: nat) -> nat {
    let rounded = (2 * units + one()) / (2 * one());
    if rounded > u32::MAX {
        u32::MAX as nat
    } else {
        rounded
    }
}

/// The 32-bit count nearest to a number: halves are rounded away from zero, what is out of range
/// ends at the nearer bound, and what is not a number counts as none.
pub open spec fn count(number: Number) -> nat {
    match number {
        Number::NotANumber => 0,
        Number::Infinite { negative } => if negative {
            0
        } else {
            u32::MAX as nat
        },
        Number::Finite { units } => if units <= 0 {
            0
        } else {
            whole(units as nat)
        },
    }
}

/// The order of the numbers; nothing compares with what is not a number.
pub open spec fn at_most(a: Number, b: Number) -> bool {
    match (a, b) {
        (Number::NotANumber, _) => false,
        (_, Number::NotANumber) => false,
        (Number::Infinite { negative: true }, _) => true,
        (_, Number::Infinite { negative: false }) => true,
        (Number::Finite { units: a }, Number::Finite { units: b }) => a <= b,
        _ => false,
    }
}

pub open spec fn zero() -> Number {
    Number::Finite { units: 0 }
}

/// Whether a number is above zero.
pub open spec fn positive(number: Number) -> bool {
    at_most(zero(), number) && !at_most(number, zero())
}

/// A number held between zero and `max`; what is not a number stays so.
pub open spec fn clamped(number: Number, max: Number) -> Number {
    if number is NotANumber {
        number
    } else if at_most(number, zero()) {
        zero()
    } else if at_most(max, number) {
        max
    } else {
        number
    }
}

/// The difference of a positive number and one between zero and it, in double precision: exact
/// where that has 53 significant bits, and otherwise the nearest number that has.
pub open spec fn difference(a: Number, b: Number) -> Number {
    match (a, b) {
        (Number::Finite { units: a }, Number::Finite { units: b }) => Number::Finite {
            units: rounding::nearest((a - b) as nat) as int,
        },
        (Number::Infinite { .. }, Number::Finite { .. }) => a,
        _ => Number::NotANumber,
    }
}

/// The significand and the shift of a pattern are within their fields.
proof fn lemma_parts(magnitude: nat)
    requires
        magnitude < INFINITY_BITS,
    ensures
        significand(magnitude) < SIGNIFICAND_BOUND,
        shift(magnitude) > 0 ==> significand(magnitude) >= LEADING_BIT,
        shift(magnitude) <= 2045,
        magnitude_units(magnitude) == 0 ==> magnitude == 0,
{
    lemma_pow2_pos(shift(magnitude));
    lemma_mul_nonzero(significand(magnitude) as int, pow2(shift(magnitude)) as int);
}

/// Larger patterns stand for larger numbers.
proof fn lemma_units_increase(a: nat, b: nat)
    requires
        a < b < INFINITY_BITS,
    ensures
        magnitude_units(a) < magnitude_units(b),
        shift(a) <= shift(b),
{
    let (ma, xa) = (significand(a), shift(a));
    let (mb, xb) = (significand(b), shift(b));
    lemma_parts(a);
    lemma_parts(b);
    lemma2_to64();
    lemma_pow2_pos(xa);
    lemma_pow2_pos(xb);
    if xa == xb {
        assert(ma < mb);
        lemma_mul_strict_inequality(ma as int, mb as int, pow2(xa) as int);
    } else {
        lemma_pow2_unfold(xa + 1);
        if xa + 1 < xb {
            lemma_pow2_strictly_increases(xa + 1, xb);
        }
        assert(ma * pow2(xa) < mb * pow2(xb)) by (nonlinear_arith)
            requires
                ma < 2 * LEADING_BIT,
                mb >= LEADING_BIT,
                pow2(xb) >= 2 * pow2(xa),
                pow2(xa) > 0,
        ;
    }
}

/// The size of a finite double has at most 53 significant bits.
pub proof fn lemma_finite_representable(number: Double)
    requires
        number@ is Finite,
    ensures
        rounding::representable(magnitude_units(number.magnitude())),
        number@->units >= 0 ==> number@->units == magnitude_units(number.magnitude()),
{
    lemma_parts(number.magnitude());
}

/// Rounding to whole counts keeps the order of numbers.
pub proof fn lemma_count_ordered(a: Number, b: Number)
    requires
        at_most(a, b),
    ensures
        count(a) <= count(b) <= u32::MAX,
{
    lemma_pow2_pos(1074);
    lemma_whole_of_none();
    if a is Finite && b is Finite && a->units > 0 {
        let (x, y) = (a->units as nat, b->units as nat);
        lemma_div_is_ordered((2 * x + one()) as int, (2 * y + one()) as int, 2 * one() as int);
    }
}

/// A whole number that fits into 32 bits is its own count.
pub proof fn lemma_count_of_whole(n: nat)
    requires
        n <= u32::MAX,
    ensures
        count(Number::Finite { units: (n * one()) as int }) == n,
{
    lemma_pow2_pos(1074);
    let v = n * one();
    assert(2 * v + one() == n * (2 * one()) + one()) by (nonlinear_arith)
        requires
            v == n * one(),
    ;
    lemma_fundamental_div_mod_converse(
        (2 * v + one()) as int,
        2 * one() as int,
        n as int,
        one() as int,
    );
    lemma_mul_nonnegative(n as int, one() as int);
    if n == 0 {
        lemma_mul_basics(one() as int);
    } else {
        lemma_mul_strictly_positive(n as int, one() as int);
    }
}

/// How a whole number is written as a double: its significand is the number scaled by some power
/// of two, and its shift makes up for that power.
pub proof fn law_whole_double(number: Double, n: nat, k: nat)
    requires
        number.bits < INFINITY_BITS,
        significand(number.magnitude()) == n * pow2(k),
        shift(number.magnitude()) + k == 1074,
    ensures
        number@ == (Number::Finite { units: (n * one()) as int }),
{
    let x = shift(number.magnitude());
    lemma_pow2_adds(k, x);
    lemma_mul_is_associative(n as int, pow2(k) as int, pow2(x) as int);
}

/// No units round to no count.
pub proof fn lemma_whole_of_none()
    ensures
        whole(0) == 0,
{
    lemma_pow2_pos(1074);
    lemma_fundamental_div_mod_converse(one() as int, 2 * one() as int, 0, one() as int);
}

/// Rounds `m * 2^x` units to a whole count.
fn whole_count(m: u64, x: u32) -> (rounded: u32)
    requires
        m <= SIGNIFICAND_BOUND,
    ensures
        rounded == whole(m as nat * pow2(x as nat)),
{
    let ghost units = m as nat * pow2(x as nat);
    if m == 0 {
        proof {
            lemma_mul_basics(pow2(x as nat) as int);
            lemma_whole_of_none();
        }
        return 0;
    }
    if x >= 1074 {
        let t: u32 = x - 1074;
        proof {
            lemma_pow2_adds(t as nat, 1074);
            lemma_pow2_pos(1074);
            let v = m * pow2(t as nat);
            assert(units == v * one()) by {
                lemma_mul_is_associative(m as int, pow2(t as nat) as int, one() as int);
            }
            assert(2 * units + one() == v * (2 * one()) + one()) by (nonlinear_arith)
                requires
                    units == v * one(),
            ;
            lemma_fundamental_div_mod_converse(
                (2 * units + one()) as int,
                2 * one() as int,
                v,
                one() as int,
            );
            lemma2_to64();
            if t > 32 {
                lemma_pow2_strictly_increases(32, t as nat);
            }
            if t >= 32 {
                assert(v > u32::MAX) by (nonlinear_arith)
                    requires
                        v == m * pow2(t as nat),
                        m >= 1,
                        pow2(t as nat) >= 0x1_0000_0000,
                ;
            } else {
                lemma_pow2_strictly_increases(t as nat, 32);
                assert(v <= 0x20_0000_0000_0000 * 0x1_0000_0000) by (nonlinear_arith)
                    requires
                        v == m * pow2(t as nat),
                        m <= 0x20_0000_0000_0000,
                        pow2(t as nat) <= 0x1_0000_0000,
                ;
            }
        }
        if t >= 32 {
            return u32::MAX;
        }
        let v: u128 = (m as u128) * rounding::power_of_two(t);
        if v > u32::MAX as u128 {
            u32::MAX
        } else {
            v as u32
        }
    } else {
        let t: u32 = 1074 - x;
        let ghost p = pow2(t as nat);
        proof {
            lemma_pow2_adds(t as nat, x as nat);
            lemma_pow2_pos(t as nat);
            lemma_pow2_pos(x as nat);
            let w = pow2(x as nat);
            assert(2 * units + one() == w * (2 * m + p)) by (nonlinear_arith)
                requires
                    units == m * w,
                    one() == p * w,
            ;
            assert(2 * one() == w * (2 * p)) by (nonlinear_arith)
                requires
                    one() == p * w,
            ;
            lemma_div_multiples_vanish_quotient(w as int, 2 * m + p, 2 * p as int);
        }
        if t >= 55 {
            proof {
                lemma2_to64_rest();
                if t > 55 {
                    lemma_pow2_strictly_increases(55, t as nat);
                }
                lemma_basic_div(2 * m + p, 2 * p as int);
            }
            return 0;
        }
        let p: u128 = rounding::power_of_two(t);
        proof {
            lemma2_to64_rest();
            lemma_pow2_strictly_increases(t as nat, 55);
            lemma_div_nonincreasing(2 * m + p, 2 * p);
        }
        let rounded: u128 = (2 * (m as u128) + p) / (2 * p);
        if rounded > u32::MAX as u128 {
            u32::MAX
        } else {
            rounded as u32
        }
    }
}

impl Double {
    /// The pattern without its sign bit.
    fn magnitude_bits(self) -> (bits: u64)
        ensures
            bits == self.magnitude(),
    {
        self.bits % SIGN_BIT
    }

    /// The significand and the shift of a finite number.
    fn parts(self) -> (parts: (u64, u32))
        requires
            self@ is Finite,
        ensures
            parts.0 == significand(self.magnitude()),
            parts.1 == shift(self.magnitude()),
    {
        let magnitude: u64 = self.magnitude_bits();
        if magnitude < LEADING_BIT {
            (magnitude, 0)
        } else {
            (LEADING_BIT + magnitude % LEADING_BIT, (magnitude / LEADING_BIT - 1) as u32)
        }
    }

    /// Whether the pattern stands for no number.
    pub fn is_nan(self) -> (nan: bool)
        ensures
            nan == (self@ is NotANumber),
    {
        self.magnitude_bits() > INFINITY_BITS
    }

    /// Whether the number is zero or below.
    pub fn at_most_zero(self) -> (r: bool)
        ensures
            r == at_most(self@, zero()),
    {
        let magnitude: u64 = self.magnitude_bits();
        proof {
            if magnitude < INFINITY_BITS {
                lemma_parts(magnitude as nat);
                lemma2_to64();
            }
        }
        magnitude <= INFINITY_BITS && (self.bits >= SIGN_BIT || magnitude == 0)
    }

    /// The number held between zero and `max`.
    pub fn clamp(self, max: Double) -> (r: Double)
        requires
            positive(max@),
        ensures
            r@ == clamped(self@, max@),
    {
        if self.is_nan() {
            return self;
        }
        if self.at_most_zero() {
            let none = Double { bits: 0 };
            assert(none@ == zero()) by {
                assert(none.magnitude() == 0);
                lemma_mul_basics(pow2(0) as int);
            }
            return none;
        }
        proof {
            let (a, b) = (self.magnitude(), max.magnitude());
            if a < b < INFINITY_BITS {
                lemma_units_increase(a, b);
            }
            if b < a < INFINITY_BITS {
                lemma_units_increase(b, a);
            }
        }
        if max.bits <= self.bits {
            max
        } else {
            self
        }
    }

    /// The number rounded to a 32-bit count.
    pub fn count(self) -> (r: u32)
        ensures
            r == count(self@),
    {
        if self.is_nan() || self.at_most_zero() {
            return 0;
        }
        if self.magnitude_bits() == INFINITY_BITS {
            return u32::MAX;
        }
        let (m, x) = self.parts();
        proof {
            lemma_parts(self.magnitude());
        }
        whole_count(m, x)
    }

    /// The difference to `part`, rounded to a 32-bit count.
    pub fn difference_count(self, part: Double) -> (r: u32)
        requires
            positive(self@),
            part@ is NotANumber || (at_most(zero(), part@) && at_most(part@, self@)),
        ensures
            r == count(difference(self@, part@)),
    {
        if part.is_nan() {
            return 0;
        }
        if self.magnitude_bits() == INFINITY_BITS {
            return if part.magnitude_bits() == INFINITY_BITS {
                0
            } else {
                u32::MAX
            };
        }
        let (me, xe) = self.parts();
        let (mr, xr) = part.parts();
        let ghost (e, r) = (magnitude_units(self.magnitude()), magnitude_units(part.magnitude()));
        proof {
            lemma_parts(self.magnitude());
            lemma_parts(part.magnitude());
            if self.magnitude() < part.magnitude() {
                lemma_units_increase(self.magnitude(), part.magnitude());
            }
            if part.magnitude() < self.magnitude() {
                lemma_units_increase(part.magnitude(), self.magnitude());
            }
            assert(r <= e);
            assert(xr <= xe);
        }
        let s: u32 = xe - xr;
        let ghost ps = pow2(s as nat);
        let ghost px = pow2(xr as nat);
        proof {
            lemma_pow2_adds(s as nat, xr as nat);
            lemma_pow2_pos(s as nat);
            lemma_pow2_pos(xr as nat);
            lemma2_to64_rest();
        }
        if s >= 55 {
            proof {
                if s > 55 {
                    lemma_pow2_strictly_increases(55, s as nat);
                }
                assert(4 * r < ps * px) by (nonlinear_arith)
                    requires
                        r == mr * px,
                        mr < 0x20_0000_0000_0000,
                        ps >= 4 * 0x20_0000_0000_0000,
                        px > 0,
                ;
                rounding::lemma_nearest_absorbs(me as nat, xe as nat, r);
            }
            return whole_count(me, xe);
        }
        proof {
            lemma_pow2_strictly_increases(s as nat, 55);
            assert(me * ps < 0x20_0000_0000_0000 * 0x80_0000_0000_0000) by (nonlinear_arith)
                requires
                    me < 0x20_0000_0000_0000,
                    0 < ps < 0x80_0000_0000_0000,
            ;
            assert(e == (me * ps) * px) by {
                lemma_mul_is_associative(me as int, ps as int, px as int);
            }
            assert(mr <= me * ps) by (nonlinear_arith)
                requires
                    mr * px <= (me * ps) * px,
                    px > 0,
            ;
        }
        let d: u128 = (me as u128) * rounding::power_of_two(s) - mr as u128;
        let (m, k) = rounding::round_significand(d);
        proof {
            assert(d * px == e - r) by (nonlinear_arith)
                requires
                    d == me * ps - mr,
                    e == (me * ps) * px,
                    r == mr * px,
            ;
            rounding::lemma_nearest_scaled(d as nat, xr as nat);
            lemma_pow2_adds(k as nat, xr as nat);
            lemma_whole_of_none();
            lemma_mul_is_associative(m as int, pow2(k as nat) as int, px as int);
        }
        whole_count(m, k + xr)
    }
}

} // verus!
