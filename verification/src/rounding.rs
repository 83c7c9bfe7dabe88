//! Rounding of non-negative integers to a bounded number of significant bits.
use vstd::arithmetic::div_mod::*;
use vstd::arithmetic::mul::*;
use vstd::arithmetic::power2::*;
use vstd::prelude::*;

verus! {

/// The weight of the leading significand bit of a normal number: two to the 52nd.
pub const LEADING_BIT: u64 = 0x10_0000_0000_0000;

/// Significands stay below this bound: two to the 53rd.
pub const SIGNIFICAND_BOUND: u64 = 0x20_0000_0000_0000;

/// The exponent of the spacing between the numbers of 53 significant bits around `d`: the
/// least `k` for which `d / 2^k` is below `SIGNIFICAND_BOUND`.
pub open spec fn spacing(d: nat) -> nat
    decreases d,
{
    if d < SIGNIFICAND_BOUND {
        0
    } else {
        spacing(d / 2) + 1
    }
}

/// Whether a quotient `q` with remainder `r` over the divisor `p` is rounded up, when ties go
/// to the even neighbour.
pub open spec fn rounds_up(q: nat, r: nat, p: nat) -> bool {
    2 * r > p || (2 * r == p && q % 2 == 1)
}

/// `d` rounded to 53 significant bits, to the nearest such number and to the one with the even
/// significand where two are equally near.
pub open spec fn nearest(d: nat) -> nat {
    let p = pow2(spacing(d));
    let q = d / p;
    if rounds_up(q, d % p, p) {
        (q + 1) * p
    } else {
        q * p
    }
}

/// Whether `v` has at most 53 significant bits.
pub open spec fn representable(v: nat) -> bool {
    exists|m: nat, k: nat| m < SIGNIFICAND_BOUND && v == #[trigger] (m * pow2(k))
}

/// The spacing brackets the number it belongs to.
pub proof fn lemma_spacing_bounds(d: nat)
    ensures
        d < SIGNIFICAND_BOUND * pow2(spacing(d)),
        spacing(d) > 0 ==> LEADING_BIT * pow2(spacing(d)) <= d,
    decreases d,
{
    lemma2_to64();
    if d >= SIGNIFICAND_BOUND {
        lemma_spacing_bounds(d / 2);
        lemma_pow2_unfold(spacing(d));
    }
}

/// The spacing is the only exponent with those brackets.
pub proof fn lemma_spacing_unique(d: nat, k: nat)
    requires
        d < SIGNIFICAND_BOUND * pow2(k),
        k > 0 ==> LEADING_BIT * pow2(k) <= d,
    ensures
        spacing(d) == k,
    decreases d,
{
    lemma2_to64();
    if k == 0 {
    } else {
        lemma_pow2_unfold(k);
        lemma_pow2_pos((k - 1) as nat);
        assert(d >= SIGNIFICAND_BOUND) by (nonlinear_arith)
            requires
                LEADING_BIT * pow2(k) <= d,
                pow2(k) == 2 * pow2((k - 1) as nat),
                pow2((k - 1) as nat) >= 1,
                LEADING_BIT == 0x10_0000_0000_0000,
                SIGNIFICAND_BOUND == 0x20_0000_0000_0000,
        ;
        lemma_spacing_unique(d / 2, (k - 1) as nat);
    }
}

/// `nearest` lies on the grid of the spacing and is off by at most half of it.
pub proof fn lemma_nearest_error(d: nat)
    ensures
        ({
            let p = pow2(spacing(d));
            let below = d - d % p;
            &&& p > 0
            &&& below <= d < below + p
            &&& below == p * (d / p)
            &&& nearest(d) == below || nearest(d) == below + p
            &&& 2 * (nearest(d) - d) <= p
            &&& 2 * (d - nearest(d)) <= p
        }),
{
    let p = pow2(spacing(d));
    lemma_pow2_pos(spacing(d));
    lemma_fundamental_div_mod(d as int, p as int);
    lemma_mod_bound(d as int, p as int);
    lemma_mul_is_commutative(d as int / p as int, p as int);
    lemma_mul_is_distributive_add_other_way(p as int, d as int / p as int, 1);
}

/// `nearest(d)` is representable, and no representable number is nearer to `d`.
pub proof fn lemma_nearest(d: nat, x: nat)
    requires
        representable(x),
    ensures
        representable(nearest(d)),
        x <= d ==> nearest(d) - d <= d - x && d - nearest(d) <= d - x,
        d <= x ==> nearest(d) - d <= x - d && d - nearest(d) <= x - d,
{
    lemma_nearest_representable(d);
    lemma_nearest_error(d);
    lemma_grid(d, x);
}

/// No representable number lies strictly between two neighbours on the grid of `d`.
pub proof fn lemma_grid(d: nat, x: nat)
    requires
        representable(x),
    ensures
        ({
            let p = pow2(spacing(d));
            let below = d - d % p;
            !(below < x < below + p)
        }),
{
    lemma_nearest_error(d);
    let p = pow2(spacing(d));
    let below = (d - d % p) as nat;
    if below < x < below + p {
        lemma_representable_on_grid(d, x);
        let c = choose|c: nat| x == #[trigger] (c * p);
        let q = d / p;
        assert(q < c && c < q + 1) by (nonlinear_arith)
            requires
                p * q < c * p,
                c * p < p * q + p,
                p > 0,
        ;
    }
}

/// A representable number is its own rounding.
pub proof fn lemma_nearest_exact(d: nat)
    requires
        representable(d),
    ensures
        nearest(d) == d,
{
    lemma_nearest(d, d);
}

/// Rounding keeps the order of numbers.
pub proof fn lemma_nearest_ordered(a: nat, b: nat)
    requires
        a <= b,
    ensures
        nearest(a) <= nearest(b),
{
    lemma_nearest_representable(a);
    lemma_nearest_representable(b);
    lemma_nearest(a, nearest(b));
    lemma_nearest(b, nearest(a));
}

/// A representable number that is not below the grid of `d` lies on that grid.
proof fn lemma_representable_on_grid(d: nat, x: nat)
    requires
        representable(x),
        d - d % pow2(spacing(d)) <= x,
    ensures
        exists|c: nat| x == #[trigger] (c * pow2(spacing(d))),
{
    let k = spacing(d);
    let p = pow2(k);
    let (m, j) = choose|m: nat, j: nat| m < SIGNIFICAND_BOUND && x == #[trigger] (m * pow2(j));
    lemma2_to64();
    if j >= k {
        lemma_pow2_adds((j - k) as nat, k);
        lemma_mul_is_associative(m as int, pow2((j - k) as nat) as int, p as int);
        let c: nat = m * pow2((j - k) as nat);
        assert(x == c * p);
    } else {
        lemma_spacing_bounds(d);
        lemma_nearest_error(d);
        let q = d / p;
        assert(q >= LEADING_BIT) by (nonlinear_arith)
            requires
                LEADING_BIT * p <= d,
                d < p * q + p,
                p > 0,
        ;
        assert(LEADING_BIT * p <= p * q) by (nonlinear_arith)
            requires
                q >= LEADING_BIT,
        ;
        lemma_pow2_unfold(k);
        lemma_pow2_pos((k - 1) as nat);
        let h = pow2((k - 1) as nat);
        if j < k - 1 {
            lemma_pow2_strictly_increases(j, (k - 1) as nat);
        }
        assert(m * pow2(j) < SIGNIFICAND_BOUND * h) by (nonlinear_arith)
            requires
                m < SIGNIFICAND_BOUND,
                pow2(j) <= h,
                h > 0,
        ;
        assert(false);
    }
}

/// The result of rounding is representable.
proof fn lemma_nearest_representable(d: nat)
    ensures
        representable(nearest(d)),
{
    let k = spacing(d);
    let p = pow2(k);
    let q = d / p;
    lemma_spacing_bounds(d);
    lemma_nearest_error(d);
    assert(q < SIGNIFICAND_BOUND) by (nonlinear_arith)
        requires
            d < SIGNIFICAND_BOUND * p,
            p * q <= d,
            p > 0,
    ;
    if rounds_up(q, d % p, p) {
        if q + 1 == SIGNIFICAND_BOUND {
            lemma_pow2_unfold(k + 1);
            let m: nat = LEADING_BIT as nat;
            assert(nearest(d) == m * pow2(k + 1)) by (nonlinear_arith)
                requires
                    nearest(d) == (q + 1) * p,
                    q + 1 == 2 * m,
                    pow2(k + 1) == 2 * p,
            ;
        } else {
            let m: nat = q + 1;
            assert(nearest(d) == m * pow2(k));
        }
    } else {
        assert(nearest(d) == q * pow2(k));
    }
}

/// Doubling commutes with rounding.
proof fn lemma_nearest_doubled(n: nat)
    ensures
        nearest(2 * n) == 2 * nearest(n),
{
    lemma2_to64();
    let k = spacing(n);
    let p = pow2(k);
    let q = n / p;
    lemma_spacing_bounds(n);
    lemma_nearest_error(n);
    if 2 * n < SIGNIFICAND_BOUND {
        assert(nearest(n) == n);
        assert(nearest(2 * n) == 2 * n) by {
            lemma_nearest_error(2 * n);
        }
    } else {
        assert((2 * n) / 2 == n);
        assert(spacing(2 * n) == k + 1);
        lemma_pow2_unfold(k + 1);
        lemma_div_multiples_vanish_quotient(2, n as int, p as int);
        lemma_truncate_middle(n as int, 2, p as int);
        assert((q + 1) * (2 * p) == 2 * ((q + 1) * p)) by (nonlinear_arith);
        assert(q * (2 * p) == 2 * (q * p)) by (nonlinear_arith);
    }
}

/// Scaling by a power of two commutes with rounding.
pub proof fn lemma_nearest_scaled(n: nat, x: nat)
    ensures
        nearest(n * pow2(x)) == nearest(n) * pow2(x),
    decreases x,
{
    lemma2_to64();
    if x == 0 {
        lemma_mul_basics(n as int);
        lemma_mul_basics(nearest(n) as int);
    } else {
        let h = pow2((x - 1) as nat);
        lemma_nearest_scaled(n, (x - 1) as nat);
        lemma_pow2_unfold(x);
        lemma_nearest_doubled(n * h);
        assert(n * (2 * h) == 2 * (n * h)) by (nonlinear_arith);
        assert(nearest(n) * (2 * h) == 2 * (nearest(n) * h)) by (nonlinear_arith);
    }
}

/// Taking less than a quarter of its spacing from a number of 53 significant bits does not
/// change the number after rounding.
pub proof fn lemma_nearest_absorbs(m: nat, x: nat, r: nat)
    requires
        LEADING_BIT <= m < SIGNIFICAND_BOUND,
        x > 0,
        4 * r < pow2(x),
    ensures
        r <= m * pow2(x),
        nearest((m * pow2(x) - r) as nat) == m * pow2(x),
{
    let p = pow2(x);
    let h = pow2((x - 1) as nat);
    lemma_pow2_unfold(x);
    let e = m * p;
    assert(e >= LEADING_BIT * p && e < SIGNIFICAND_BOUND * p) by (nonlinear_arith)
        requires
            LEADING_BIT <= m < SIGNIFICAND_BOUND,
            e == m * p,
            p > 0,
    ;
    let d = (e - r) as nat;
    if r == 0 {
        assert(representable(d));
        lemma_nearest_exact(d);
    } else if m > LEADING_BIT {
        assert(e >= LEADING_BIT * p + p) by (nonlinear_arith)
            requires
                m >= LEADING_BIT + 1,
                e == m * p,
                p > 0,
        ;
        lemma_spacing_unique(d, x);
        assert(d == (m - 1) * p + (p - r)) by (nonlinear_arith)
            requires
                d == m * p - r,
        ;
        lemma_fundamental_div_mod_converse(d as int, p as int, m - 1, p - r);
    } else {
        let k: nat = (x - 1) as nat;
        assert(e == SIGNIFICAND_BOUND * h) by (nonlinear_arith)
            requires
                e == m * p,
                p == 2 * h,
                m == LEADING_BIT,
                SIGNIFICAND_BOUND == 2 * LEADING_BIT,
        ;
        lemma_spacing_unique(d, k);
        let q = (SIGNIFICAND_BOUND - 1) as nat;
        lemma_fundamental_div_mod_converse(d as int, h as int, q as int, h - r);
    }
}

/// Two to the power of `exponent`.
pub fn power_of_two(exponent: u32) -> (power: u128)
    requires
        exponent < 128,
    ensures
        power == pow2(exponent as nat),
        power > 0,
{
    let mut power: u128 = 1;
    let mut done: u32 = 0;
    proof {
        lemma2_to64();
    }
    while done < exponent
        invariant
            done <= exponent < 128,
            power == pow2(done as nat),
        decreases exponent - done,
    {
        proof {
            lemma_pow2_unfold((done + 1) as nat);
            lemma_pow2_127();
            if done < 126 {
                lemma_pow2_strictly_increases((done + 1) as nat, 127);
            }
        }
        power = power * 2;
        done = done + 1;
    }
    proof {
        lemma_pow2_pos(exponent as nat);
    }
    power
}

proof fn lemma_pow2_127()
    ensures
        pow2(75) == 0x800_0000_0000_0000_0000,
        pow2(127) == 0x8000_0000_0000_0000_0000_0000_0000_0000,
{
    lemma2_to64();
    lemma2_to64_rest();
    lemma_pow2_adds(64, 11);
    lemma_pow2_adds(64, 63);
}

/// Rounds `d` to 53 significant bits: the significand and the exponent of `nearest(d)`.
pub fn round_significand(d: u128) -> (parts: (u64, u32))
    ensures
        parts.0 * pow2(parts.1 as nat) == nearest(d as nat),
        parts.0 <= SIGNIFICAND_BOUND,
        parts.1 == spacing(d as nat),
        parts.1 <= 75,
{
    let mut q: u128 = d;
    let mut k: u32 = 0;
    proof {
        lemma2_to64();
        lemma_spacing_bounds(d as nat);
        lemma_pow2_127();
        if spacing(d as nat) > 75 {
            let p = pow2(spacing(d as nat));
            lemma_pow2_unfold(76);
            if spacing(d as nat) > 76 {
                lemma_pow2_strictly_increases(76, spacing(d as nat));
            }
            assert(LEADING_BIT * p > u128::MAX) by (nonlinear_arith)
                requires
                    LEADING_BIT == 0x10_0000_0000_0000,
                    p >= 2 * 0x800_0000_0000_0000_0000,
            ;
        }
        lemma_div_basics(d as int);
    }
    while q >= SIGNIFICAND_BOUND as u128
        invariant
            q == d as nat / pow2(k as nat),
            k + spacing(q as nat) == spacing(d as nat),
            spacing(d as nat) <= 75,
        decreases q,
    {
        proof {
            lemma_pow2_unfold((k + 1) as nat);
            lemma_pow2_pos(k as nat);
            lemma_div_denominator(d as int, pow2(k as nat) as int, 2);
        }
        q = q / 2;
        k = k + 1;
    }
    let p: u128 = power_of_two(k);
    let r: u128 = d % p;
    proof {
        lemma_nearest_error(d as nat);
        lemma_mod_bound(d as int, p as int);
        lemma_pow2_127();
        if k < 75 {
            lemma_pow2_strictly_increases(k as nat, 75);
        }
    }
    let significand: u64 = q as u64;
    if 2 * r > p || (2 * r == p && q % 2 == 1) {
        (significand + 1, k)
    } else {
        (significand, k)
    }
}

} // verus!
