//! Measured values: IEEE 754 binary64 numbers held as their bit patterns.

use vstd::prelude::*;

verus! {

/// A binary64 number. `bits` is its interchange encoding: the sign in the top
/// bit, then eleven exponent bits, then the fraction.
#[derive(Clone, Copy, PartialEq, Eq, Structural, Debug)]
pub struct Real {
    pub bits: u64,
}

/// The encodings from here on carry a sign.
pub const SIGN: u64 = 0x8000_0000_0000_0000;

/// The encoding of positive infinity.
pub const INFINITY: u64 = 0x7ff0_0000_0000_0000;

impl Real {
    /// The encoding without its sign.
    pub open spec fn magnitude(self) -> u64 {
        if self.bits >= SIGN {
            (self.bits - SIGN) as u64
        } else {
            self.bits
        }
    }

    pub open spec fn nan(self) -> bool {
        self.magnitude() > INFINITY
    }

    pub open spec fn finite(self) -> bool {
        self.magnitude() < INFINITY
    }

    pub open spec fn zero(self) -> bool {
        self.magnitude() == 0
    }

    /// A number's place on the number line: encodings of one sign are ordered
    /// as their magnitudes, and the two zeros share a place.
    pub open spec fn place(self) -> int {
        if self.bits >= SIGN {
            -(self.magnitude() as int)
        } else {
            self.magnitude() as int
        }
    }

    /// `self < other`; no NaN is less than, or greater than, anything.
    pub open spec fn below(self, other: Real) -> bool {
        &&& !self.nan()
        &&& !other.nan()
        &&& self.place() < other.place()
    }

    fn magnitude_bits(&self) -> (r: u64)
        ensures
            r == self.magnitude(),
    {
        if self.bits >= SIGN {
            self.bits - SIGN
        } else {
            self.bits
        }
    }

    pub fn is_nan(&self) -> (r: bool)
        ensures
            r == self.nan(),
    {
        self.magnitude_bits() > INFINITY
    }

    pub fn is_finite(&self) -> (r: bool)
        ensures
            r == self.finite(),
    {
        self.magnitude_bits() < INFINITY
    }

    pub fn is_zero(&self) -> (r: bool)
        ensures
            r == self.zero(),
    {
        self.magnitude_bits() == 0
    }

    /// Whether `self < other`.
    pub fn less(&self, other: &Real) -> (r: bool)
        ensures
            r == self.below(*other),
    {
        if self.is_nan() || other.is_nan() {
            return false;
        }
        let a: u64 = self.magnitude_bits();
        let b: u64 = other.magnitude_bits();
        if self.bits >= SIGN {
            if other.bits >= SIGN {
                b < a
            } else {
                a > 0 || b > 0
            }
        } else if other.bits >= SIGN {
            false
        } else {
            a < b
        }
    }
}

/// `<` is a strict order: nothing is below itself, and it is transitive.
pub proof fn below_is_a_strict_order(a: Real, b: Real, c: Real)
    ensures
        !a.below(a),
        a.below(b) && b.below(c) ==> a.below(c),
        !a.nan() && !b.nan() ==> a.below(b) || b.below(a) || a.place() == b.place(),
{
}

// ---- values of encodings ----

/// The smallest significand of a normal number.
pub const HIDDEN: u64 = 0x10_0000_0000_0000;

impl Real {
    pub open spec fn negative(self) -> bool {
        self.bits >= SIGN
    }

    /// The significand of a finite number, as an integer.
    pub open spec fn significand(self) -> nat {
        if self.magnitude() < HIDDEN {
            self.magnitude() as nat
        } else {
            (HIDDEN + self.magnitude() % HIDDEN) as nat
        }
    }

    /// The exponent of a finite number: its magnitude is
    /// `significand * 2^(exponent - 1075)`.
    pub open spec fn exponent(self) -> nat {
        if self.magnitude() < HIDDEN {
            1
        } else {
            (self.magnitude() / HIDDEN) as nat
        }
    }

    /// The magnitude of this finite number is `m * 2^(e - 1075)`.
    pub open spec fn has_magnitude(self, m: nat, e: nat) -> bool {
        &&& self.finite()
        &&& self.exponent() <= e
        &&& self.significand() == m * vstd::arithmetic::power2::pow2((e - self.exponent()) as nat)
    }

    /// This number is the integer `n`.
    pub open spec fn is_integer(self, n: int) -> bool {
        if n < 0 {
            self.negative() && self.has_magnitude((-n) as nat, 1075)
        } else {
            !self.negative() && self.has_magnitude(n as nat, 1075)
        }
    }

    /// The magnitude of a finite number, rounded to an integer, halves upwards.
    pub open spec fn rounded_magnitude(self) -> nat {
        if self.exponent() >= 1075 {
            self.significand() * vstd::arithmetic::power2::pow2((self.exponent() - 1075) as nat)
        } else {
            let k = (1075 - self.exponent()) as nat;
            (2 * self.significand() + vstd::arithmetic::power2::pow2(k)) / vstd::arithmetic::power2::pow2(k + 1)
        }
    }

    /// The magnitude of a finite number without its fraction.
    pub open spec fn whole_magnitude(self) -> nat {
        if self.exponent() >= 1075 {
            self.significand() * vstd::arithmetic::power2::pow2((self.exponent() - 1075) as nat)
        } else {
            self.significand() / vstd::arithmetic::power2::pow2((1075 - self.exponent()) as nat)
        }
    }

    /// The number without its fraction, held to the range of a register word;
    /// a NaN becomes 0.
    pub open spec fn word(self) -> u16 {
        if self.nan() || self.negative() {
            0
        } else if !self.finite() || self.whole_magnitude() > 0xffff {
            0xffff
        } else {
            self.whole_magnitude() as u16
        }
    }

    /// A finite number rounded to an integer, halves away from zero.
    pub open spec fn rounded(self) -> int {
        if self.negative() {
            -(self.rounded_magnitude() as int)
        } else {
            self.rounded_magnitude() as int
        }
    }

    /// The number rounded to an integer and held between `low` and `high`; a
    /// NaN becomes 0.
    pub open spec fn saturated(self, low: int, high: int) -> int {
        if self.nan() {
            0
        } else if !self.finite() {
            if self.negative() {
                low
            } else {
                high
            }
        } else if self.rounded() < low {
            low
        } else if self.rounded() > high {
            high
        } else {
            self.rounded()
        }
    }
}

fn power(k: u64) -> (r: u64)
    requires
        k <= 60,
    ensures
        r == vstd::arithmetic::power2::pow2(k as nat),
        r >= 1,
        r <= 0x1000_0000_0000_0000,
{
    let mut r: u64 = 1;
    let mut i: u64 = 0;
    proof {
        vstd::arithmetic::power2::lemma2_to64();
        vstd::arithmetic::power2::lemma2_to64_rest();
    }
    while i < k
        invariant
            i <= k <= 60,
            r == vstd::arithmetic::power2::pow2(i as nat),
            vstd::arithmetic::power2::pow2(60) == 0x1000_0000_0000_0000,
        decreases k - i,
    {
        proof {
            vstd::arithmetic::power2::lemma_pow2_unfold((i + 1) as nat);
            if i + 1 < 60 {
                vstd::arithmetic::power2::lemma_pow2_strictly_increases((i + 1) as nat, 60);
            }
        }
        r = r * 2;
        i = i + 1;
    }
    proof {
        vstd::arithmetic::power2::lemma_pow2_pos(k as nat);
        if k < 60 {
            vstd::arithmetic::power2::lemma_pow2_strictly_increases(k as nat, 60);
        }
    }
    r
}

/// The number of magnitude `m * 2^(e - 1075)`.
fn normal(negative: bool, m: u64, e: u64) -> (r: Real)
    requires
        0 < m < 2 * HIDDEN,
        52 < e <= 2046,
    ensures
        r.negative() == negative,
        r.has_magnitude(m as nat, e as nat),
        r.significand() >= HIDDEN,
{
    let mut s: u64 = m;
    let mut x: u64 = e;
    proof {
        vstd::arithmetic::power2::lemma2_to64();
        vstd::arithmetic::power2::lemma2_to64_rest();
    }
    let ghost mut j: nat = 0;
    while s < HIDDEN
        invariant
            0 < m < 2 * HIDDEN,
            52 < e <= 2046,
            0 < s < 2 * HIDDEN,
            x + j == e,
            s == m * vstd::arithmetic::power2::pow2(j),
            j <= 52,
            vstd::arithmetic::power2::pow2(52) == HIDDEN,
        decreases 2 * HIDDEN - s,
    {
        proof {
            vstd::arithmetic::power2::lemma_pow2_unfold(j + 1);
            assert(m * (2 * vstd::arithmetic::power2::pow2(j)) == 2 * (m * vstd::arithmetic::power2::pow2(j))) by (nonlinear_arith);
            if j == 52 {
                assert(m * HIDDEN >= HIDDEN) by (nonlinear_arith)
                    requires
                        m > 0,
                ;
            }
            j = j + 1;
        }
        s = s * 2;
        x = x - 1;
    }
    let magnitude: u64 = x * HIDDEN + (s - HIDDEN);
    proof {
        assert(magnitude / HIDDEN == x && magnitude % HIDDEN == s - HIDDEN);
        assert(magnitude < INFINITY);
    }
    let r = Real {
        bits: if negative {
            SIGN + magnitude
        } else {
            magnitude
        },
    };
    r
}

impl Real {
    /// An integer, exactly.
    pub fn from_integer(n: i64) -> (r: Real)
        requires
            -0x1_0000_0000 <= n <= 0x1_0000_0000,
        ensures
            r.is_integer(n as int),
    {
        if n == 0 {
            Real { bits: 0 }
        } else if n < 0 {
            normal(true, (-n) as u64, 1075)
        } else {
            normal(false, n as u64, 1075)
        }
    }

    fn significand_bits(&self) -> (r: u64)
        requires
            self.finite(),
        ensures
            r == self.significand(),
            r < 2 * HIDDEN,
    {
        let m: u64 = self.magnitude_bits();
        if m < HIDDEN {
            m
        } else {
            HIDDEN + m % HIDDEN
        }
    }

    fn exponent_bits(&self) -> (r: u64)
        requires
            self.finite(),
        ensures
            r == self.exponent(),
            1 <= r <= 2046,
    {
        let m: u64 = self.magnitude_bits();
        if m < HIDDEN {
            1
        } else {
            m / HIDDEN
        }
    }

    /// The magnitude without its fraction, or the bound 2^33 where that is less.
    fn bounded_whole(&self) -> (r: u64)
        requires
            self.finite(),
        ensures
            r == (if self.whole_magnitude() < 0x2_0000_0000 {
                self.whole_magnitude() as int
            } else {
                0x2_0000_0000
            }),
    {
        let m: u64 = self.significand_bits();
        let e: u64 = self.exponent_bits();
        proof {
            vstd::arithmetic::power2::lemma2_to64();
            vstd::arithmetic::power2::lemma2_to64_rest();
        }
        if e >= 1075 {
            proof {
                let p = vstd::arithmetic::power2::pow2((e - 1075) as nat);
                vstd::arithmetic::power2::lemma_pow2_pos((e - 1075) as nat);
                assert(m * p >= m) by (nonlinear_arith)
                    requires
                        p >= 1,
                ;
            }
            return 0x2_0000_0000;
        }
        let k: u64 = 1075 - e;
        if k >= 53 {
            proof {
                if k > 53 {
                    vstd::arithmetic::power2::lemma_pow2_strictly_increases(53, k as nat);
                }
                lemma_small_quotient(m as int, vstd::arithmetic::power2::pow2(k as nat) as int);
            }
            return 0;
        }
        let q: u64 = m / power(k);
        if q < 0x2_0000_0000 {
            q
        } else {
            0x2_0000_0000
        }
    }

    /// The number without its fraction, held to the range of a register word;
    /// a NaN becomes 0.
    pub fn to_word(&self) -> (r: u16)
        ensures
            r == self.word(),
    {
        if self.is_nan() || self.bits >= SIGN {
            return 0;
        }
        if !self.is_finite() {
            return 0xffff;
        }
        let q: u64 = self.bounded_whole();
        if q > 0xffff {
            0xffff
        } else {
            q as u16
        }
    }

    /// The rounded magnitude, or the bound 2^33 where that is less.
    fn bounded_magnitude(&self) -> (r: u64)
        requires
            self.finite(),
        ensures
            r == (if self.rounded_magnitude() < 0x2_0000_0000 {
                self.rounded_magnitude() as int
            } else {
                0x2_0000_0000
            }),
    {
        let m: u64 = self.significand_bits();
        let e: u64 = self.exponent_bits();
        proof {
            vstd::arithmetic::power2::lemma2_to64();
            vstd::arithmetic::power2::lemma2_to64_rest();
        }
        if e >= 1075 {
            proof {
                let p = vstd::arithmetic::power2::pow2((e - 1075) as nat);
                vstd::arithmetic::power2::lemma_pow2_pos((e - 1075) as nat);
                assert(m * p >= m) by (nonlinear_arith)
                    requires
                        p >= 1,
                ;
            }
            return 0x2_0000_0000;
        }
        let k: u64 = 1075 - e;
        if k >= 54 {
            proof {
                vstd::arithmetic::power2::lemma_pow2_unfold((k + 1) as nat);
                if k > 54 {
                    vstd::arithmetic::power2::lemma_pow2_strictly_increases(54, k as nat);
                }
                lemma_small_quotient(2 * m + vstd::arithmetic::power2::pow2(k as nat), vstd::arithmetic::power2::pow2((k + 1) as nat) as int);
            }
            return 0;
        }
        let p: u64 = power(k);
        proof {
            vstd::arithmetic::power2::lemma_pow2_unfold((k + 1) as nat);
        }
        let q: u64 = (2 * m + p) / (2 * p);
        if q < 0x2_0000_0000 {
            q
        } else {
            0x2_0000_0000
        }
    }

    /// The number rounded to an integer, halves away from zero, and held
    /// between `low` and `high`; a NaN becomes 0.
    pub fn saturate(&self, low: i64, high: i64) -> (r: i64)
        requires
            -0x2_0000_0000 <= low <= 0 <= high <= 0x2_0000_0000,
        ensures
            r == self.saturated(low as int, high as int),
    {
        if self.is_nan() {
            return 0;
        }
        let negative = self.bits >= SIGN;
        if !self.is_finite() {
            return if negative {
                low
            } else {
                high
            };
        }
        let q: i64 = self.bounded_magnitude() as i64;
        let n: i64 = if negative {
            -q
        } else {
            q
        };
        if n < low {
            low
        } else if n > high {
            high
        } else {
            n
        }
    }
}

proof fn lemma_small_quotient(a: int, b: int)
    requires
        0 <= a < b,
    ensures
        a / b == 0,
{
    vstd::arithmetic::div_mod::lemma_basic_div(a, b);
}

// ---- single precision ----

/// The encodings of binary32 numbers from here on carry a sign.
pub const SIGN32: u32 = 0x8000_0000;

/// The binary32 encoding of positive infinity.
pub const INFINITY32: u32 = 0x7f80_0000;

/// The smallest significand of a normal binary32 number.
pub const HIDDEN32: u32 = 0x80_0000;

/// A binary32 encoding without its sign.
pub open spec fn magnitude32(b: u32) -> u32 {
    if b >= SIGN32 {
        (b - SIGN32) as u32
    } else {
        b
    }
}

/// The significand of a finite binary32 number, as an integer.
pub open spec fn significand32(b: u32) -> nat {
    if magnitude32(b) < HIDDEN32 {
        magnitude32(b) as nat
    } else {
        (HIDDEN32 + magnitude32(b) % HIDDEN32) as nat
    }
}

/// The exponent of a finite binary32 number: its magnitude is
/// `significand * 2^(exponent - 150)`.
pub open spec fn exponent32(b: u32) -> nat {
    if magnitude32(b) < HIDDEN32 {
        1
    } else {
        (magnitude32(b) / HIDDEN32) as nat
    }
}

/// `r` is the binary32 number encoded by `b`.
pub open spec fn widens(b: u32, r: Real) -> bool {
    &&& r.negative() == (b >= SIGN32)
    &&& if magnitude32(b) > INFINITY32 {
        r.nan()
    } else if magnitude32(b) == INFINITY32 {
        r.magnitude() == INFINITY
    } else {
        r.has_magnitude(significand32(b), (exponent32(b) + 925) as nat)
    }
}

/// `m / 2^k` rounded to an integer, halves to the even one.
pub open spec fn nearest_even(m: nat, k: nat) -> nat {
    let p = vstd::arithmetic::power2::pow2(k);
    let q = m / p;
    let rest = m % p;
    if 2 * rest > p || (2 * rest == p && q % 2 == 1) {
        q + 1
    } else {
        q
    }
}

impl Real {
    /// The binary32 magnitude nearest to this finite number: the significand
    /// loses the bits that do not fit, and where the rounding overflows it, or
    /// the range, the next encoding up is the right one.
    pub open spec fn nearest32(self) -> nat {
        let e = self.exponent() - 896;
        let bits = if e >= 1 {
            (e - 1) * HIDDEN32 + nearest_even(self.significand(), 29)
        } else {
            nearest_even(self.significand(), (30 - e) as nat) as int
        };
        if bits > INFINITY32 {
            INFINITY32 as nat
        } else {
            bits as nat
        }
    }

    /// The encoding of the binary32 number nearest to this number; every NaN
    /// becomes the quiet one of its sign.
    pub open spec fn narrowed(self) -> u32 {
        let magnitude = if self.nan() {
            0x7fc0_0000
        } else if !self.finite() {
            INFINITY32 as int
        } else {
            self.nearest32() as int
        };
        if self.negative() {
            (SIGN32 + magnitude) as u32
        } else {
            magnitude as u32
        }
    }

    /// The number encoded by `b` in binary32.
    pub fn from_single(b: u32) -> (r: Real)
        ensures
            widens(b, r),
    {
        let negative = b >= SIGN32;
        let m: u32 = if negative {
            b - SIGN32
        } else {
            b
        };
        if m >= INFINITY32 {
            let magnitude: u64 = if m == INFINITY32 {
                INFINITY
            } else {
                0x7ff8_0000_0000_0000
            };
            return Real {
                bits: if negative {
                    SIGN + magnitude
                } else {
                    magnitude
                },
            };
        }
        if m == 0 {
            proof {
                let p = vstd::arithmetic::power2::pow2(925);
                assert(0 * p == 0) by (nonlinear_arith);
            }
            return Real {
                bits: if negative {
                    SIGN
                } else {
                    0
                },
            };
        }
        if m < HIDDEN32 {
            normal(negative, m as u64, 926)
        } else {
            let e: u32 = m / HIDDEN32;
            normal(negative, (HIDDEN32 + m % HIDDEN32) as u64, e as u64 + 925)
        }
    }

    /// The encoding of the nearest binary32 number.
    pub fn to_single(&self) -> (r: u32)
        ensures
            r == self.narrowed(),
    {
        let negative = self.bits >= SIGN;
        let magnitude: u32 = if self.is_nan() {
            0x7fc0_0000
        } else if !self.is_finite() {
            INFINITY32
        } else {
            let m: u64 = self.significand_bits();
            let e: u64 = self.exponent_bits();
            let bits: u64 = if e >= 897 {
                let q: u64 = round_even(m, 29);
                (e - 897) * 0x80_0000 + q
            } else {
                round_even(m, 926 - e)
            };
            if bits > 0x7f80_0000 {
                INFINITY32
            } else {
                bits as u32
            }
        };
        if negative {
            SIGN32 + magnitude
        } else {
            magnitude
        }
    }
}

/// `m / 2^k` rounded to an integer, halves to the even one.
fn round_even(m: u64, k: u64) -> (r: u64)
    requires
        m < 2 * HIDDEN,
        1 <= k,
    ensures
        r == nearest_even(m as nat, k as nat),
        r <= 2 * HIDDEN,
{
    proof {
        vstd::arithmetic::power2::lemma2_to64();
        vstd::arithmetic::power2::lemma2_to64_rest();
    }
    if k >= 55 {
        proof {
            if k > 55 {
                vstd::arithmetic::power2::lemma_pow2_strictly_increases(55, k as nat);
            }
            lemma_small_quotient(m as int, vstd::arithmetic::power2::pow2(k as nat) as int);
            vstd::arithmetic::div_mod::lemma_small_mod(m as nat, vstd::arithmetic::power2::pow2(k as nat));
        }
        return 0;
    }
    let p: u64 = power(k);
    let q: u64 = m / p;
    let rest: u64 = m % p;
    proof {
        assert(m as nat / p as nat <= m) by (nonlinear_arith)
            requires
                p >= 1,
        ;
    }
    if 2 * rest > p || (2 * rest == p && q % 2 == 1) {
        q + 1
    } else {
        q
    }
}

// ---- round trips ----

/// Rounding gives an integer back.
pub proof fn integer_is_rounded_to_itself(r: Real, n: int)
    requires
        r.is_integer(n),
        -0x2_0000_0000 <= n <= 0x2_0000_0000,
    ensures
        r.rounded() == n,
{
    let m = if n < 0 {
        (-n) as nat
    } else {
        n as nat
    };
    let k = (1075 - r.exponent()) as nat;
    vstd::arithmetic::power2::lemma_pow2_pos(k);
    vstd::arithmetic::power2::lemma_pow2_unfold(k + 1);
    let p = vstd::arithmetic::power2::pow2(k);
    if k == 0 {
        vstd::arithmetic::power2::lemma2_to64();
        assert(m * vstd::arithmetic::power2::pow2(0) == m);
    } else {
        assert(2 * (m * p) + p == (2 * m + 1) * p) by (nonlinear_arith);
        assert(((2 * m + 1) * p) / ((2 * p) as nat) == m) by {
            assert((2 * m + 1) * p == m * (2 * p) + p) by (nonlinear_arith);
            vstd::arithmetic::div_mod::lemma_fundamental_div_mod_converse(
                ((2 * m + 1) * p) as int,
                (2 * p) as int,
                m as int,
                p as int,
            );
        }
    }
}

/// An integer is zero as a number where it is zero.
pub proof fn integer_is_zero(r: Real, n: int)
    requires
        r.is_integer(n),
    ensures
        r.zero() <==> n == 0,
{
    let m = if n < 0 {
        (-n) as nat
    } else {
        n as nat
    };
    let p = vstd::arithmetic::power2::pow2((1075 - r.exponent()) as nat);
    vstd::arithmetic::power2::lemma_pow2_pos((1075 - r.exponent()) as nat);
    if n == 0 {
        assert(0 * p == 0) by (nonlinear_arith);
    } else {
        assert(m * p > 0) by (nonlinear_arith)
            requires
                m > 0,
                p > 0,
        ;
    }
}

proof fn lemma_exact_even(m: nat, k: nat)
    ensures
        nearest_even(m * vstd::arithmetic::power2::pow2(k), k) == m,
{
    vstd::arithmetic::power2::lemma_pow2_pos(k);
    let p = vstd::arithmetic::power2::pow2(k) as int;
    vstd::arithmetic::div_mod::lemma_fundamental_div_mod_converse((m * vstd::arithmetic::power2::pow2(k)) as int, p, m as int, 0);
}

/// A binary32 number that is not a NaN comes back from binary64 unchanged.
pub proof fn single_is_narrowed_to_itself(b: u32, r: Real)
    requires
        widens(b, r),
        magnitude32(b) <= INFINITY32,
    ensures
        r.narrowed() == b,
{
    let m = significand32(b);
    let e = exponent32(b);
    if magnitude32(b) < INFINITY32 {
        let j = (e + 925 - r.exponent()) as nat;
        let p = vstd::arithmetic::power2::pow2(j);
        vstd::arithmetic::power2::lemma2_to64();
        vstd::arithmetic::power2::lemma2_to64_rest();
        vstd::arithmetic::power2::lemma_pow2_pos(j);
        if m == 0 {
            assert(0 * p == 0);
            vstd::arithmetic::power2::lemma_pow2_pos(30);
            lemma_zero_is_narrowed(r);
        } else if r.magnitude() < HIDDEN {
            // a subnormal binary64 number lies below every binary32 number
            assert(r.exponent() == 1);
            if j > 53 {
                vstd::arithmetic::power2::lemma_pow2_strictly_increases(53, j);
            }
            assert(m * p >= p) by (nonlinear_arith)
                requires
                    m >= 1,
            ;
            assert(false);
        } else if magnitude32(b) >= HIDDEN32 {
            lemma_shift(m, j);
            assert(j == 29);
            lemma_exact_even(m, 29);
        } else {
            if j <= 29 {
                if j < 29 {
                    vstd::arithmetic::power2::lemma_pow2_strictly_increases(j, 29);
                }
                assert(m * p < 0x80_0000 * 0x2000_0000) by (nonlinear_arith)
                    requires
                        m < 0x80_0000,
                        0 < p <= 0x2000_0000,
                ;
                assert(false);
            }
            assert(30 - (r.exponent() - 896) == j);
            lemma_exact_even(m, j);
        }
    }
}

proof fn lemma_zero_is_narrowed(r: Real)
    requires
        r.finite(),
        r.significand() == 0,
    ensures
        r.nearest32() == 0,
{
    let k = (30 - (1 - 896)) as nat;
    vstd::arithmetic::power2::lemma_pow2_pos(k);
    lemma_small_quotient(0, vstd::arithmetic::power2::pow2(k) as int);
    vstd::arithmetic::div_mod::lemma_small_mod(0, vstd::arithmetic::power2::pow2(k));
}

/// A significand of 24 bits reaches 53 bits by a shift of 29.
proof fn lemma_shift(m: nat, j: nat)
    requires
        0x80_0000 <= m < 0x100_0000,
        0x10_0000_0000_0000 <= m * vstd::arithmetic::power2::pow2(j) < 0x20_0000_0000_0000,
    ensures
        j == 29,
{
    vstd::arithmetic::power2::lemma2_to64();
    vstd::arithmetic::power2::lemma2_to64_rest();
    let p = vstd::arithmetic::power2::pow2(j);
    if j < 29 {
        vstd::arithmetic::power2::lemma_pow2_strictly_increases(j, 29);
        vstd::arithmetic::power2::lemma_pow2_unfold(29);
        if j < 28 {
            vstd::arithmetic::power2::lemma_pow2_strictly_increases(j, 28);
        }
        assert(m * p < 0x100_0000 * 0x1000_0000) by (nonlinear_arith)
            requires
                m < 0x100_0000,
                0 <= p <= 0x1000_0000,
        ;
    }
    if j > 29 {
        if j > 30 {
            vstd::arithmetic::power2::lemma_pow2_strictly_increases(30, j);
        }
        assert(m * p >= 0x80_0000 * 0x4000_0000) by (nonlinear_arith)
            requires
                m >= 0x80_0000,
                p >= 0x4000_0000,
        ;
    }
}

} // verus!
