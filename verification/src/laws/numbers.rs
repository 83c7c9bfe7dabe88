//! Laws of double-precision numbers: what the bit patterns stand for, and how the numbers are
//! compared, clamped, subtracted and rounded.
use crate::double;
use crate::double::{Double, Number};
use crate::rounding;
use vstd::arithmetic::div_mod::*;
use vstd::arithmetic::mul::*;
use vstd::arithmetic::power2::*;
use vstd::prelude::*;

verus! {

/// The sign bit negates a number.
pub proof fn law_sign_bit_negates(bits: u64)
    requires
        bits < 0x8000_0000_0000_0000,
    ensures
        (Double { bits: (bits + 0x8000_0000_0000_0000) as u64 })@ == match (Double { bits })@ {
            Number::NotANumber => Number::NotANumber,
            Number::Infinite { negative } => Number::Infinite { negative: !negative },
            Number::Finite { units } => Number::Finite { units: -units },
        },
{
    let negated = Double { bits: (bits + 0x8000_0000_0000_0000) as u64 };
    assert(negated.bits == bits + 0x8000_0000_0000_0000);
    assert(negated.magnitude() == bits);
    assert((Double { bits }).magnitude() == bits);
}

/// The first patterns count the units up from zero.
pub proof fn law_small_patterns_count_units(bits: u64)
    requires
        bits < 0x20_0000_0000_0000,
    ensures
        (Double { bits })@ == (Number::Finite { units: bits as int }),
{
    lemma2_to64();
    let magnitude = (Double { bits }).magnitude();
    assert(magnitude == bits);
    assert(double::significand(magnitude) == bits);
    assert(double::shift(magnitude) == 0);
    lemma_mul_basics(bits as int);
}

/// A step of the exponent field doubles a number.
pub proof fn law_exponent_step_doubles(bits: u64)
    requires
        0x10_0000_0000_0000 <= bits,
        bits + 0x10_0000_0000_0000 < 0x7ff0_0000_0000_0000,
    ensures
        (Double { bits })@ matches Number::Finite { units } && (Double {
            bits: (bits + 0x10_0000_0000_0000) as u64,
        })@ == (Number::Finite { units: 2 * units }),
{
    let next = Double { bits: (bits + 0x10_0000_0000_0000) as u64 };
    let (a, b) = ((Double { bits }).magnitude(), next.magnitude());
    assert(a == bits && b == bits + 0x10_0000_0000_0000);
    let m = double::significand(a);
    let x = double::shift(a);
    assert(double::significand(b) == m);
    assert(double::shift(b) == x + 1);
    lemma_pow2_unfold(x + 1);
    let p = pow2(x);
    assert(m * (2 * p) == 2 * (m * p)) by (nonlinear_arith);
}

/// The patterns of infinity and of what is not a number lie above those of the finite numbers.
pub proof fn law_largest_patterns_are_not_finite(bits: u64)
    requires
        bits < 0x8000_0000_0000_0000,
    ensures
        (Double { bits })@ is Finite <==> bits < 0x7ff0_0000_0000_0000,
        (Double { bits })@ == (Number::Infinite { negative: false }) <==> bits
            == 0x7ff0_0000_0000_0000,
        (Double { bits })@ is NotANumber <==> bits > 0x7ff0_0000_0000_0000,
{
    assert((Double { bits }).magnitude() == bits);
}

/// Finite numbers are ordered by their units, between the infinities, and what is not a number is
/// not ordered at all.
pub proof fn law_order(a: Number, b: Number)
    ensures
        a is Finite && b is Finite ==> (double::at_most(a, b) <==> a->units <= b->units),
        a is NotANumber || b is NotANumber ==> !double::at_most(a, b),
        b == (Number::Infinite { negative: false }) && !(a is NotANumber) ==> double::at_most(a, b),
        a == (Number::Infinite { negative: true }) && !(b is NotANumber) ==> double::at_most(a, b),
        a == (Number::Infinite { negative: false }) && b is Finite ==> !double::at_most(a, b),
        b == (Number::Infinite { negative: true }) && a is Finite ==> !double::at_most(a, b),
        a == (Number::Infinite { negative: false }) && b == (Number::Infinite { negative: true })
            ==> !double::at_most(a, b),
        double::zero() == (Number::Finite { units: 0 }),
        double::positive(a) <==> (a == (Number::Infinite { negative: false }) || (a is Finite
            && a->units > 0)),
{
}

/// Whether `n` is the whole number nearest to `units`, of which a whole has two to the 1074th:
/// halves go up, and no number goes beyond the largest of 32 bits.
pub open spec fn is_nearest_whole(n: int, units: int) -> bool {
    &&& 0 <= n <= 0xffff_ffff
    &&& n < 0xffff_ffff ==> 2 * units < (2 * n + 1) * pow2(1074)
    &&& n > 0 ==> (2 * n - 1) * pow2(1074) <= 2 * units
}

/// There is one nearest whole number.
pub proof fn law_nearest_whole_is_unique(a: int, b: int, units: int)
    requires
        is_nearest_whole(a, units),
        is_nearest_whole(b, units),
    ensures
        a == b,
{
    let one = pow2(1074) as int;
    lemma_pow2_pos(1074);
    if a < b {
        assert((2 * a + 1) * one <= (2 * b - 1) * one) by (nonlinear_arith)
            requires
                2 * a + 1 <= 2 * b - 1,
                one > 0,
        ;
    }
    if b < a {
        assert((2 * b + 1) * one <= (2 * a - 1) * one) by (nonlinear_arith)
            requires
                2 * b + 1 <= 2 * a - 1,
                one > 0,
        ;
    }
}

/// A number is counted as the nearest whole one: a positive finite number rounds, zero and what is
/// below count as none, as does what is not a number, and infinity as the most.
pub proof fn law_count(number: Number)
    ensures
        number is Finite && number->units > 0 ==> is_nearest_whole(
            double::count(number) as int,
            number->units,
        ),
        number is Finite && number->units <= 0 ==> double::count(number) == 0,
        number is NotANumber ==> double::count(number) == 0,
        number == (Number::Infinite { negative: true }) ==> double::count(number) == 0,
        number == (Number::Infinite { negative: false }) ==> double::count(number) == 0xffff_ffff,
{
    if number is Finite && number->units > 0 {
        let one = pow2(1074) as int;
        let units = number->units;
        let r = (2 * units + one) / (2 * one);
        lemma_pow2_pos(1074);
        lemma_fundamental_div_mod(2 * units + one, 2 * one);
        lemma_mod_bound(2 * units + one, 2 * one);
        lemma_div_pos_is_pos(2 * units + one, 2 * one);
        assert((2 * r - 1) * one <= 2 * units < (2 * r + 1) * one) by (nonlinear_arith)
            requires
                2 * one * r <= 2 * units + one < 2 * one * r + 2 * one,
        ;
        if r > 0xffff_ffff {
            assert((2 * 0xffff_ffff - 1) * one <= (2 * r - 1) * one) by (nonlinear_arith)
                requires
                    2 * 0xffff_ffff - 1 <= 2 * r - 1,
                    one > 0,
            ;
        }
    }
}

/// Clamping keeps what lies between zero and the bound, raises what is below to zero, lowers what
/// is above to the bound, and leaves what is not a number.
pub proof fn law_clamped(number: Number, max: Number)
    requires
        max == (Number::Infinite { negative: false }) || (max is Finite && max->units > 0),
    ensures
        number is NotANumber ==> double::clamped(number, max) == number,
        number is Finite && max is Finite ==> double::clamped(number, max) == (Number::Finite {
            units: if number->units < 0 {
                0
            } else if number->units > max->units {
                max->units
            } else {
                number->units
            },
        }),
        number is Finite && max is Infinite ==> double::clamped(number, max) == (Number::Finite {
            units: if number->units < 0 {
                0
            } else {
                number->units
            },
        }),
        number == (Number::Infinite { negative: false }) ==> double::clamped(number, max) == max,
        number == (Number::Infinite { negative: true }) ==> double::clamped(number, max) == (
        Number::Finite { units: 0 }),
{
}

/// Whether `v` is the size of some double, exponents aside: a number of at most 53 significant
/// bits.
pub open spec fn has_53_bits(v: int) -> bool {
    exists|m: int, k: nat| 0 <= m < 0x20_0000_0000_0000 && v == #[trigger] (m * pow2(k))
}

/// Whether `r` is `d` rounded to 53 significant bits: no other such number is nearer, and of two
/// equally near ones it is the one with the even significand.
pub open spec fn rounds_to(d: int, r: int) -> bool {
    &&& has_53_bits(r)
    &&& forall|x: int| #[trigger]
        has_53_bits(x) ==> distance(r, d) <= distance(x, d) && (x != r && distance(x, d)
            == distance(r, d) ==> is_even_neighbour(r, x))
}

pub open spec fn distance(a: int, b: int) -> int {
    if a < b {
        b - a
    } else {
        a - b
    }
}

/// Whether `r` has an even significand at the spacing at which `x` is the next number.
pub open spec fn is_even_neighbour(r: int, x: int) -> bool {
    exists|m: int, k: nat|
        m % 2 == 0 && r == #[trigger] (m * pow2(k)) && distance(r, x) == pow2(k)
}

/// Rounding to 53 significant bits gives the nearest such number, and the even one of two.
pub proof fn law_nearest(d: nat)
    ensures
        rounds_to(d as int, rounding::nearest(d) as int),
{
    let r = rounding::nearest(d);
    assert(rounding::representable(0)) by {
        lemma_mul_basics(pow2(0) as int);
        assert(0 == 0 * pow2(0));
    }
    rounding::lemma_nearest(d, 0);
    lemma_representable_has_53_bits(r);
    assert forall|x: int| #[trigger] has_53_bits(x) implies distance(r as int, d as int)
        <= distance(x, d as int) && (x != r && distance(x, d as int) == distance(
        r as int,
        d as int,
    ) ==> is_even_neighbour(r as int, x)) by {
        lemma_53_bits_is_representable(x);
        rounding::lemma_nearest(d, x as nat);
        if x != r && distance(x, d as int) == distance(r as int, d as int) {
            lemma_tie(d, x as nat);
        }
    }
}

proof fn lemma_representable_has_53_bits(v: nat)
    requires
        rounding::representable(v),
    ensures
        has_53_bits(v as int),
{
    let (m, k) = choose|m: nat, k: nat|
        m < rounding::SIGNIFICAND_BOUND && v == #[trigger] (m * pow2(k));
    assert(v as int == (m as int) * pow2(k));
}

proof fn lemma_53_bits_is_representable(v: int)
    requires
        has_53_bits(v),
    ensures
        v >= 0,
        rounding::representable(v as nat),
{
    let (m, k) = choose|m: int, k: nat|
        0 <= m < 0x20_0000_0000_0000 && v == #[trigger] (m * pow2(k));
    lemma_mul_nonnegative(m, pow2(k) as int);
    assert(v as nat == (m as nat) * pow2(k));
}

proof fn lemma_tie(d: nat, x: nat)
    requires
        rounding::representable(x),
        x != rounding::nearest(d),
        distance(x as int, d as int) == distance(rounding::nearest(d) as int, d as int),
    ensures
        is_even_neighbour(rounding::nearest(d) as int, x as int),
{
    let r = rounding::nearest(d) as int;
    let k = rounding::spacing(d);
    let p = pow2(k);
    let q = d / p;
    rounding::lemma_nearest_error(d);
    rounding::lemma_grid(d, x);
    let m: int = if rounding::rounds_up(q, d % p, p) {
        (q + 1) as int
    } else {
        q as int
    };
    assert(r == m * p);
    assert(m % 2 == 0 && distance(r, x as int) == p);
}

/// The difference of finite numbers is the exact one rounded to 53 significant bits; an infinite
/// number less a finite one stays infinite; and no other difference is a number.
pub proof fn law_difference(a: Number, b: Number)
    ensures
        a is Finite && b is Finite && b->units <= a->units ==> (double::difference(
            a,
            b,
        ) matches Number::Finite { units } && rounds_to(a->units - b->units, units)),
        a is Infinite && b is Finite ==> double::difference(a, b) == a,
        b is Infinite || a is NotANumber || b is NotANumber ==> double::difference(
            a,
            b,
        ) is NotANumber,
{
    if a is Finite && b is Finite && b->units <= a->units {
        law_nearest((a->units - b->units) as nat);
    }
}

} // verus!
