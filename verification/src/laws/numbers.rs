//! How numbers are compared, rounded and held to a range.

use vstd::prelude::*;

use crate::number::Real;

verus! {

/// Whole numbers are ordered as integers are.
pub proof fn whole_numbers_are_ordered(a: Real, b: Real, n: int, m: int)
    requires
        a.is_integer(n),
        b.is_integer(m),
    ensures
        a.below(b) <==> n < m,
{
    let x = if n < 0 {
        (-n) as nat
    } else {
        n as nat
    };
    let y = if m < 0 {
        (-m) as nat
    } else {
        m as nat
    };
    if x < y {
        lemma_magnitudes(a, b, x, y);
    } else if y < x {
        lemma_magnitudes(b, a, y, x);
    } else {
        lemma_same_magnitude(a, b, x);
        lemma_same_magnitude(b, a, x);
    }
    crate::number::integer_is_zero(a, n);
    crate::number::integer_is_zero(b, m);
}

proof fn lemma_magnitudes(a: Real, b: Real, x: nat, y: nat)
    requires
        a.has_magnitude(x, 1075),
        b.has_magnitude(y, 1075),
        x < y,
    ensures
        a.magnitude() < b.magnitude(),
{
    let i = (1075 - a.exponent()) as nat;
    let j = (1075 - b.exponent()) as nat;
    let p = vstd::arithmetic::power2::pow2(i);
    let q = vstd::arithmetic::power2::pow2(j);
    vstd::arithmetic::power2::lemma_pow2_pos(i);
    vstd::arithmetic::power2::lemma_pow2_pos(j);
    if a.exponent() > b.exponent() {
        // the larger exponent would make the larger significand overflow
        vstd::arithmetic::power2::lemma_pow2_strictly_increases(i, j);
        vstd::arithmetic::power2::lemma_pow2_unfold(i + 1);
        if i + 1 < j {
            vstd::arithmetic::power2::lemma_pow2_strictly_increases(i + 1, j);
        }
        assert(y * q >= (x + 1) * q) by (nonlinear_arith)
            requires
                y >= x + 1,
                q > 0,
        ;
        assert((x + 1) * q >= (x + 1) * (2 * p)) by (nonlinear_arith)
            requires
                q >= 2 * p,
        ;
        assert((x + 1) * (2 * p) == 2 * (x * p) + 2 * p) by (nonlinear_arith);
        assert(false);
    } else if a.exponent() == b.exponent() {
        assert(x * p < y * p) by (nonlinear_arith)
            requires
                x < y,
                p > 0,
        ;
    }
}

proof fn lemma_same_magnitude(a: Real, b: Real, x: nat)
    requires
        a.has_magnitude(x, 1075),
        b.has_magnitude(x, 1075),
    ensures
        a.magnitude() <= b.magnitude(),
{
    let i = (1075 - a.exponent()) as nat;
    let j = (1075 - b.exponent()) as nat;
    let p = vstd::arithmetic::power2::pow2(i);
    let q = vstd::arithmetic::power2::pow2(j);
    vstd::arithmetic::power2::lemma_pow2_pos(i);
    vstd::arithmetic::power2::lemma_pow2_pos(j);
    if a.exponent() > b.exponent() {
        vstd::arithmetic::power2::lemma_pow2_unfold(i + 1);
        if i + 1 < j {
            vstd::arithmetic::power2::lemma_pow2_strictly_increases(i + 1, j);
        }
        assert(x * q >= 2 * (x * p)) by (nonlinear_arith)
            requires
                q >= 2 * p,
        ;
        assert(false);
    }
}

/// A whole number is its own whole part, and nothing below zero is left of a
/// negative one in a word.
pub proof fn a_whole_number_has_no_fraction(r: Real, n: int)
    requires
        r.is_integer(n),
        0 <= n,
    ensures
        n <= 0xffff ==> r.word() == n,
        n > 0xffff ==> r.word() == 0xffff,
{
    let k = (1075 - r.exponent()) as nat;
    vstd::arithmetic::power2::lemma_pow2_pos(k);
    let p = vstd::arithmetic::power2::pow2(k);
    if k == 0 {
        vstd::arithmetic::power2::lemma2_to64();
        assert(n * vstd::arithmetic::power2::pow2(0) == n);
        assert(r.significand() * 1 == r.significand());
    } else {
        vstd::arithmetic::div_mod::lemma_fundamental_div_mod_converse((n * p) as int, p as int, n, 0);
    }
}

/// A whole number within a range is held to it unchanged; one beyond it becomes
/// the bound that it lies beyond.
pub proof fn a_whole_number_is_held_to_its_range(r: Real, n: int, low: int, high: int)
    requires
        r.is_integer(n),
        -0x2_0000_0000 <= n <= 0x2_0000_0000,
        low <= high,
    ensures
        low <= n <= high ==> r.saturated(low, high) == n,
        n < low ==> r.saturated(low, high) == low,
        n > high ==> r.saturated(low, high) == high,
{
    crate::number::integer_is_rounded_to_itself(r, n);
}

/// Whatever a number is, it is held between the bounds, and a NaN becomes zero.
pub proof fn a_range_is_kept(r: Real, low: int, high: int)
    requires
        low <= 0 <= high,
    ensures
        low <= r.saturated(low, high) <= high,
        r.nan() ==> r.saturated(low, high) == 0,
        r.bits == 0x7ff0_0000_0000_0000 ==> r.saturated(low, high) == high,
        r.bits == 0xfff0_0000_0000_0000 ==> r.saturated(low, high) == low,
{
}

/// Rounding goes to the nearest integer: what is lost, or added, is at most a
/// half, and an exact half goes away from zero.
pub proof fn rounding_is_to_the_nearest(r: Real)
    requires
        r.finite(),
        r.exponent() < 1075,
    ensures
        ({
            let one = vstd::arithmetic::power2::pow2((1075 - r.exponent()) as nat);
            &&& 2 * (r.rounded_magnitude() * one) <= 2 * r.significand() + one
            &&& 2 * r.significand() < 2 * (r.rounded_magnitude() * one) + one
        }),
        r.negative() ==> r.rounded() == -r.rounded_magnitude(),
        !r.negative() ==> r.rounded() == r.rounded_magnitude(),
{
    let k = (1075 - r.exponent()) as nat;
    let one = vstd::arithmetic::power2::pow2(k) as int;
    vstd::arithmetic::power2::lemma_pow2_pos(k);
    vstd::arithmetic::power2::lemma_pow2_unfold(k + 1);
    let m = r.significand() as int;
    let q = r.rounded_magnitude() as int;
    vstd::arithmetic::div_mod::lemma_fundamental_div_mod(2 * m + one, 2 * one);
    vstd::arithmetic::div_mod::lemma_mod_bound(2 * m + one, 2 * one);
    assert((2 * one) * q == 2 * (q * one)) by (nonlinear_arith);
}

/// A power of two up to 2^52 is the number whose exponent field is higher by the
/// power than that of one, with nothing in the field of the fraction.
pub proof fn a_power_of_two_is_encoded(r: Real, k: nat)
    requires
        k <= 52,
        r.bits == (1023 + k) * 0x10_0000_0000_0000,
    ensures
        r.is_integer(vstd::arithmetic::power2::pow2(k) as int),
        !r.nan(),
        r.finite(),
        !r.zero(),
{
    let h = 0x10_0000_0000_0000;
    assert(r.bits < 0x8000_0000_0000_0000);
    vstd::arithmetic::div_mod::lemma_fundamental_div_mod_converse(r.bits as int, h, (1023 + k) as int, 0);
    assert(r.significand() == h);
    assert(r.exponent() == 1023 + k);
    vstd::arithmetic::power2::lemma_pow2_adds(k, (52 - k) as nat);
    vstd::arithmetic::power2::lemma_pow2_pos(k);
    assert(vstd::arithmetic::power2::pow2(52) == h) by {
        vstd::arithmetic::power2::lemma2_to64_rest();
    }
    assert((1075 - r.exponent()) as nat == (52 - k) as nat);
}

/// Zero is neither above nor below itself, whatever its sign, and no NaN is above
/// or below anything.
pub proof fn zeros_and_nans_are_not_apart(a: Real, b: Real)
    ensures
        a.bits == 0 && b.bits == 0x8000_0000_0000_0000 ==> !a.below(b) && !b.below(a) && a.zero() && b.zero(),
        a.nan() ==> !a.below(b) && !b.below(a),
        a.bits == 0x7ff0_0000_0000_0000 && b.finite() ==> b.below(a),
        a.bits == 0xfff0_0000_0000_0000 && b.finite() ==> a.below(b),
        a.bits == 0x7ff0_0000_0000_0000 ==> !a.finite() && !a.nan(),
        a.bits == 0x7ff8_0000_0000_0000 ==> a.nan(),
{
}

/// What a word leaves out of a number in its range is the fraction alone.
pub proof fn a_fraction_is_dropped(r: Real)
    requires
        r.finite(),
        !r.negative(),
        r.exponent() < 1075,
        r.word() < 0xffff,
    ensures
        ({
            let one = vstd::arithmetic::power2::pow2((1075 - r.exponent()) as nat);
            r.word() * one <= r.significand() < (r.word() + 1) * one
        }),
{
    let k = (1075 - r.exponent()) as nat;
    let one = vstd::arithmetic::power2::pow2(k) as int;
    vstd::arithmetic::power2::lemma_pow2_pos(k);
    let m = r.significand() as int;
    vstd::arithmetic::div_mod::lemma_fundamental_div_mod(m, one);
    vstd::arithmetic::div_mod::lemma_mod_bound(m, one);
    let q = r.whole_magnitude() as int;
    assert(one * q == q * one) by (nonlinear_arith);
    assert((q + 1) * one == q * one + one) by (nonlinear_arith);
}

proof fn lemma_nearest_even(m: nat, k: nat)
    ensures
        ({
            let p = vstd::arithmetic::power2::pow2(k);
            let q = crate::number::nearest_even(m, k);
            &&& 2 * (q * p) <= 2 * m + p
            &&& 2 * m <= 2 * (q * p) + p
            &&& (2 * (q * p) == 2 * m + p || 2 * m == 2 * (q * p) + p) ==> q % 2 == 0
        }),
{
    let p = vstd::arithmetic::power2::pow2(k) as int;
    vstd::arithmetic::power2::lemma_pow2_pos(k);
    vstd::arithmetic::div_mod::lemma_fundamental_div_mod(m as int, p);
    vstd::arithmetic::div_mod::lemma_mod_bound(m as int, p);
    let q = m as int / p;
    assert(p * q == q * p) by (nonlinear_arith);
    assert((q + 1) * p == q * p + p) by (nonlinear_arith);
}

/// Narrowing to a single goes to the nearest one, and an exact half to the even
/// one: for a number in the range of the normal singles, what is lost or added is
/// at most a half of the last place that is kept.
pub proof fn narrowing_is_to_the_nearest(r: Real)
    requires
        r.finite(),
        !r.negative(),
        897 <= r.exponent(),
        crate::number::magnitude32(r.narrowed()) < 0x7f80_0000,
    ensures
        ({
            let b = r.narrowed();
            let e = (r.exponent() - 896) as nat;
            let kept = crate::number::significand32(b) * (if crate::number::exponent32(b) == e {
                0x2000_0000nat
            } else {
                0x4000_0000nat
            });
            &&& crate::number::exponent32(b) == e || crate::number::exponent32(b) == e + 1
            &&& kept <= r.significand() + 0x1000_0000
            &&& r.significand() <= kept + 0x1000_0000
            &&& (kept == r.significand() + 0x1000_0000 || r.significand() == kept + 0x1000_0000)
                ==> crate::number::significand32(b) % 2 == 0
        }),
{
    let m = r.significand();
    let e = (r.exponent() - 896) as nat;
    vstd::arithmetic::power2::lemma2_to64();
    lemma_nearest_even(m, 29);
    let q = crate::number::nearest_even(m, 29);
    assert(vstd::arithmetic::power2::pow2(29) == 0x2000_0000);
    assert(0x10_0000_0000_0000 <= m < 0x20_0000_0000_0000);
    assert(0x80_0000 <= q <= 0x100_0000);
    let bits = (e - 1) * 0x80_0000 + q;
    assert(r.nearest32() == bits);
    let b = r.narrowed();
    assert(b == bits);
    if q < 0x100_0000 {
        vstd::arithmetic::div_mod::lemma_fundamental_div_mod_converse(bits as int, 0x80_0000, e as int, q - 0x80_0000);
    } else {
        vstd::arithmetic::div_mod::lemma_fundamental_div_mod_converse(bits as int, 0x80_0000, e as int + 1, 0);
    }
}

} // verus!
