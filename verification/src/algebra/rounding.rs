//! The value of a scalar, and the whole numbers next to it.
//!
//! A pattern whose exponent bits are not all set is finite and stands for
//! `± significand × 2^exponent`, both of them integers: with exponent bits
//! `e` and fraction bits `f`, the significand is `2^23 + f` and the exponent
//! `e - 150`, but for `e = 0`, where they are `f` and `-149`.

use crate::algebra::scalar::Scalar;
use crate::algebra::scalar::INFINITE;
use crate::algebra::scalar::SIGN;
use vstd::arithmetic::div_mod::lemma_basic_div;
use vstd::arithmetic::div_mod::lemma_fundamental_div_mod_converse;
use vstd::arithmetic::power2::lemma2_to64;
use vstd::arithmetic::power2::lemma_pow2_pos;
use vstd::arithmetic::power2::lemma_pow2_strictly_increases;
use vstd::arithmetic::power2::lemma_pow2_unfold;
use vstd::arithmetic::power2::pow2;
use vstd::prelude::*;

verus! {

/// Two to the twenty-third: the weight of the bit that leads a significand.
pub const LEADING: u32 = 0x80_0000;

/// Two to the thirty-second, past which whole numbers are not told apart
/// here.
const WIDE: i64 = 0x1_0000_0000;

/// `n` held between `low` and `high`.
pub open spec fn confine(n: int, low: int, high: int) -> int {
    if n < low {
        low
    } else if n > high {
        high
    } else {
        n
    }
}

impl Scalar {
    /// Whether the pattern is a number other than an infinity.
    pub open spec fn is_finite(self) -> bool {
        self.magnitude() < INFINITE
    }

    /// The significand of a finite scalar.
    pub open spec fn significand(self) -> int {
        if self.magnitude() / (LEADING as int) == 0 {
            self.magnitude() % (LEADING as int)
        } else {
            LEADING + self.magnitude() % (LEADING as int)
        }
    }

    /// The exponent of a finite scalar.
    pub open spec fn exponent(self) -> int {
        if self.magnitude() / (LEADING as int) == 0 {
            -149
        } else {
            self.magnitude() / (LEADING as int) - 150
        }
    }

    /// The significand with the sign of the scalar.
    pub open spec fn numerator(self) -> int {
        if self.negative() {
            -self.significand()
        } else {
            self.significand()
        }
    }

    /// The value of a finite scalar counted in units of two to the minus
    /// hundred and forty-nine, the step between the smallest numbers: a whole
    /// number for every finite scalar.
    pub open spec fn scaled(self) -> int {
        self.numerator() * pow2((self.exponent() + 149) as nat)
    }

    /// The greatest whole number that is not above a finite scalar.
    pub open spec fn floor_of(self) -> int {
        if self.exponent() >= 0 {
            self.numerator() * pow2(self.exponent() as nat)
        } else {
            self.numerator() / (pow2((-self.exponent()) as nat) as int)
        }
    }

    /// The least whole number that is not below a finite scalar.
    pub open spec fn ceil_of(self) -> int {
        -self.spec_negated().floor_of()
    }

    /// The number that a conversion to `i32` gives for a scalar whose whole
    /// part, if it is finite, is `whole`: the nearest that an `i32` holds,
    /// the least or the greatest `i32` for an infinity by its sign, and zero
    /// for what is not a number.
    pub open spec fn converted(self, whole: int) -> int {
        if self.is_nan() {
            0
        } else if !self.is_finite() {
            if self.negative() {
                i32::MIN as int
            } else {
                i32::MAX as int
            }
        } else {
            confine(whole, i32::MIN as int, i32::MAX as int)
        }
    }

    /// The scalar rounded down to a whole number, as an `i32`.
    pub open spec fn spec_floor(self) -> int {
        self.converted(self.floor_of())
    }

    /// The scalar rounded up to a whole number, as an `i32`.
    pub open spec fn spec_ceil(self) -> int {
        self.converted(self.ceil_of())
    }

    /// The floor of a finite scalar, held within two to the thirty-second
    /// either way.
    fn descend(self) -> (r: i64)
        requires
            self.is_finite(),
        ensures
            r == confine(self.floor_of(), -WIDE as int, WIDE as int),
    {
        let magnitude: u32 = self.bits % SIGN;
        let negative: bool = self.bits >= SIGN;
        let field: u32 = magnitude / LEADING;
        let fraction: u32 = magnitude % LEADING;
        let significand: u64 = if field == 0 {
            fraction as u64
        } else {
            (LEADING + fraction) as u64
        };
        proof {
            lemma2_to64();
        }
        if field < 127 {
            proof {
                let k = (-self.exponent()) as nat;
                assert(24 <= k);
                if 24 < k {
                    lemma_pow2_strictly_increases(24, k);
                }
                let d = pow2(k) as int;
                assert(significand < d);
                if negative && significand != 0 {
                    lemma_fundamental_div_mod_converse(-(significand as int), d, -1, d - significand);
                } else {
                    lemma_basic_div(significand as int, d);
                }
            }
            if negative && significand != 0 {
                -1
            } else {
                0
            }
        } else if field < 150 {
            let power: u64 = double(150 - field);
            let quotient: u64 = significand / power;
            let rest: u64 = significand % power;
            proof {
                let d = power as int;
                vstd::arithmetic::div_mod::lemma_fundamental_div_mod(significand as int, d);
                assert(-(significand as int) == (-(quotient as int) - 1) * d + (d - rest)) by (nonlinear_arith)
                    requires
                        significand == d * quotient + rest,
                ;
                assert(-(significand as int) == (-(quotient as int)) * d + (0 - rest)) by (nonlinear_arith)
                    requires
                        significand == d * quotient + rest,
                ;
                if negative {
                    if rest != 0 {
                        lemma_fundamental_div_mod_converse(
                            -(significand as int),
                            d,
                            -(quotient as int) - 1,
                            d - rest,
                        );
                    } else {
                        lemma_fundamental_div_mod_converse(
                            -(significand as int),
                            d,
                            -(quotient as int),
                            0,
                        );
                    }
                }
            }
            if negative {
                if rest != 0 {
                    -(quotient as i64) - 1
                } else {
                    -(quotient as i64)
                }
            } else {
                quotient as i64
            }
        } else if field < 159 {
            let power: u64 = double(field - 150);
            proof {
                let k = (field - 150) as nat;
                if k < 8 {
                    lemma_pow2_strictly_increases(k, 8);
                }
                assert(significand * power <= 0x100_0000 * 0x100) by (nonlinear_arith)
                    requires
                        0 <= significand < 0x100_0000,
                        0 <= power <= 0x100,
                ;
                assert(significand * power < 0x1_0000_0000) by (nonlinear_arith)
                    requires
                        0 <= significand < 0x100_0000,
                        0 <= power <= 0x100,
                ;
                assert((-(significand as int)) * power == -(significand * power)) by (nonlinear_arith);
            }
            let whole: u64 = significand * power;
            if negative {
                -(whole as i64)
            } else {
                whole as i64
            }
        } else {
            proof {
                let k = (field - 150) as nat;
                if 9 < k {
                    lemma_pow2_strictly_increases(9, k);
                }
                let d = pow2(k) as int;
                assert(significand * d >= 0x80_0000 * 0x200) by (nonlinear_arith)
                    requires
                        significand >= 0x80_0000,
                        d >= 0x200,
                ;
                assert((-(significand as int)) * d == -(significand * d)) by (nonlinear_arith);
            }
            if negative {
                -WIDE
            } else {
                WIDE
            }
        }
    }

    /// The `i32` nearest to a whole number held within two to the
    /// thirty-second either way.
    fn narrow(whole: i64) -> (r: i32)
        requires
            -WIDE <= whole <= WIDE,
        ensures
            r == confine(whole as int, i32::MIN as int, i32::MAX as int),
    {
        if whole < i32::MIN as i64 {
            i32::MIN
        } else if whole > i32::MAX as i64 {
            i32::MAX
        } else {
            whole as i32
        }
    }

    /// The scalar rounded down to a whole number and converted to `i32`: the
    /// greatest whole number not above it, or the nearest `i32` where that is
    /// out of range; zero for what is not a number.
    pub fn floor(self) -> (r: i32)
        ensures
            r == self.spec_floor(),
    {
        if self.nan() {
            0
        } else if self.bits % SIGN == INFINITE {
            if self.bits >= SIGN {
                i32::MIN
            } else {
                i32::MAX
            }
        } else {
            Scalar::narrow(self.descend())
        }
    }

    /// The scalar rounded up to a whole number and converted to `i32`: the
    /// least whole number not below it, or the nearest `i32` where that is out
    /// of range; zero for what is not a number.
    pub fn ceil(self) -> (r: i32)
        ensures
            r == self.spec_ceil(),
    {
        if self.nan() {
            0
        } else if self.bits % SIGN == INFINITE {
            if self.bits >= SIGN {
                i32::MIN
            } else {
                i32::MAX
            }
        } else {
            Scalar::narrow(-self.negated().descend())
        }
    }
}

/// Two to the power `k`.
fn double(k: u32) -> (p: u64)
    requires
        k <= 32,
    ensures
        p == pow2(k as nat),
        1 <= p <= 0x1_0000_0000,
{
    let mut p: u64 = 1;
    let mut i: u32 = 0;
    proof {
        lemma2_to64();
    }
    while i < k
        invariant
            i <= k <= 32,
            p == pow2(i as nat),
            1 <= p,
            p <= pow2(32),
            pow2(32) == 0x1_0000_0000,
        decreases k - i,
    {
        proof {
            lemma_pow2_unfold((i + 1) as nat);
            if i + 1 < 32 {
                lemma_pow2_strictly_increases((i + 1) as nat, 32);
            }
        }
        p = p * 2;
        i = i + 1;
    }
    p
}

/// The absolute value of a finite scalar, in the units of `scaled`, lies in
/// the band of its exponent bits, and within a band it grows with the
/// fraction bits.
proof fn band(s: Scalar)
    requires
        s.is_finite(),
    ensures
        s.magnitude() / (LEADING as int) == 0 ==> s.significand() * pow2(
            (s.exponent() + 149) as nat,
        ) == s.magnitude(),
        s.magnitude() / (LEADING as int) >= 1 ==> pow2(
            (s.magnitude() / (LEADING as int) + 22) as nat,
        ) <= s.significand() * pow2((s.exponent() + 149) as nat) < pow2(
            (s.magnitude() / (LEADING as int) + 23) as nat,
        ),
{
    let field = s.magnitude() / (LEADING as int);
    lemma2_to64();
    if field >= 1 {
        let p = pow2((field - 1) as nat) as int;
        lemma_pow2_pos((field - 1) as nat);
        vstd::arithmetic::power2::lemma_pow2_adds(23, (field - 1) as nat);
        vstd::arithmetic::power2::lemma_pow2_adds(24, (field - 1) as nat);
        let n = s.significand();
        assert(0x80_0000 * p <= n * p < 0x100_0000 * p) by (nonlinear_arith)
            requires
                0x80_0000 <= n < 0x100_0000,
                p > 0,
        ;
    } else {
        assert(s.magnitude() < LEADING);
        assert(s.significand() == s.magnitude());
        assert(pow2(0) == 1);
        assert(s.significand() * 1 == s.significand());
    }
}

/// Of two finite scalars that are not negative, the one with the smaller
/// pattern has the smaller value.
proof fn magnitude_orders(a: Scalar, b: Scalar)
    requires
        a.is_finite(),
        b.is_finite(),
        a.magnitude() < b.magnitude(),
    ensures
        a.significand() * pow2((a.exponent() + 149) as nat) < b.significand() * pow2(
            (b.exponent() + 149) as nat,
        ),
{
    let fa = a.magnitude() / (LEADING as int);
    let fb = b.magnitude() / (LEADING as int);
    lemma2_to64();
    band(a);
    band(b);
    if fa == fb {
        if fa >= 1 {
            let p = pow2((fa - 1) as nat) as int;
            lemma_pow2_pos((fa - 1) as nat);
            let (m, n) = (a.significand(), b.significand());
            assert(m * p < n * p) by (nonlinear_arith)
                requires
                    m < n,
                    p > 0,
            ;
        }
    } else {
        assert(fa < fb);
        if fa >= 1 {
            if fa + 23 < fb + 22 {
                lemma_pow2_strictly_increases((fa + 23) as nat, (fb + 22) as nat);
            }
        } else {
            if 23 < fb + 22 {
                lemma_pow2_strictly_increases(23, (fb + 22) as nat);
            }
        }
    }
}

/// The order of the ranks is the order of the values: of two finite scalars
/// the one of smaller rank stands for the smaller number, and two of equal
/// rank stand for the same number.
pub proof fn rank_orders_values(a: Scalar, b: Scalar)
    requires
        a.is_finite(),
        b.is_finite(),
    ensures
        (a.rank() < b.rank()) == (a.scaled() < b.scaled()),
        (a.rank() == b.rank()) == (a.scaled() == b.scaled()),
{
    let va = a.significand() * pow2((a.exponent() + 149) as nat);
    let vb = b.significand() * pow2((b.exponent() + 149) as nat);
    if a.magnitude() < b.magnitude() {
        magnitude_orders(a, b);
    } else if b.magnitude() < a.magnitude() {
        magnitude_orders(b, a);
    } else {
        assert(a.significand() == b.significand() && a.exponent() == b.exponent());
    }
    band(a);
    band(b);
    lemma2_to64();
    if a.magnitude() / (LEADING as int) >= 1 {
        lemma_pow2_pos((a.magnitude() / (LEADING as int) + 22) as nat);
    }
    if b.magnitude() / (LEADING as int) >= 1 {
        lemma_pow2_pos((b.magnitude() / (LEADING as int) + 22) as nat);
    }
    assert(va >= 0 && vb >= 0);
    assert((a.magnitude() == 0) == (va == 0));
    assert((b.magnitude() == 0) == (vb == 0));
    assert((-a.significand()) * pow2((a.exponent() + 149) as nat) == -va) by (nonlinear_arith)
        requires
            va == a.significand() * pow2((a.exponent() + 149) as nat),
    ;
    assert((-b.significand()) * pow2((b.exponent() + 149) as nat) == -vb) by (nonlinear_arith)
        requires
            vb == b.significand() * pow2((b.exponent() + 149) as nat),
    ;
}

/// The floor of a finite scalar is the floor of its value: the whole part of
/// its scaled value over two to the hundred and forty-ninth.
pub proof fn floor_by_scale(s: Scalar)
    requires
        s.is_finite(),
    ensures
        s.floor_of() == s.scaled() / (pow2(149) as int),
{
    let n = s.numerator();
    let e = s.exponent();
    let whole = pow2(149) as int;
    lemma_pow2_pos(149);
    if e >= 0 {
        let p = pow2(e as nat) as int;
        vstd::arithmetic::power2::lemma_pow2_adds(e as nat, 149);
        assert(n * (p * whole) == (n * p) * whole + 0) by (nonlinear_arith);
        lemma_fundamental_div_mod_converse(s.scaled(), whole, n * p, 0);
    } else {
        let k = (-e) as nat;
        let d = pow2(k) as int;
        let q = pow2((149 - k) as nat) as int;
        lemma_pow2_pos(k);
        lemma_pow2_pos((149 - k) as nat);
        vstd::arithmetic::power2::lemma_pow2_adds(k, (149 - k) as nat);
        let f = n / d;
        let r = n % d;
        vstd::arithmetic::div_mod::lemma_fundamental_div_mod(n, d);
        vstd::arithmetic::div_mod::lemma_mod_bound(n, d);
        assert(n * q == f * (d * q) + r * q) by (nonlinear_arith)
            requires
                n == d * f + r,
        ;
        assert(0 <= r * q < d * q) by (nonlinear_arith)
            requires
                0 <= r < d,
                0 < q,
        ;
        lemma_fundamental_div_mod_converse(n * q, d * q, f, r * q);
    }
}

/// Rounding to whole numbers keeps the order: of two numbers, the one that
/// is not the greater has the floor and the ceiling that are not the greater.
pub proof fn whole_numbers_keep_order(a: Scalar, b: Scalar)
    requires
        !a.is_nan(),
        !b.is_nan(),
        a.rank() <= b.rank(),
    ensures
        a.spec_floor() <= b.spec_floor(),
        a.spec_ceil() <= b.spec_ceil(),
{
    if a.is_finite() && b.is_finite() {
        lemma_pow2_pos(149);
        rank_orders_values(a, b);
        floor_by_scale(a);
        floor_by_scale(b);
        vstd::arithmetic::div_mod::lemma_div_is_ordered(a.scaled(), b.scaled(), pow2(149) as int);
        let (na, nb) = (a.spec_negated(), b.spec_negated());
        rank_orders_values(nb, na);
        floor_by_scale(na);
        floor_by_scale(nb);
        vstd::arithmetic::div_mod::lemma_div_is_ordered(nb.scaled(), na.scaled(), pow2(149) as int);
    }
}

/// The floor of a finite scalar is the whole number `n` with
/// `n <= value < n + 1`, the value being `numerator × 2^exponent`.
pub proof fn floor_is_greatest_below(s: Scalar)
    requires
        s.is_finite(),
    ensures
        s.exponent() >= 0 ==> s.floor_of() == s.numerator() * pow2(s.exponent() as nat),
        s.exponent() < 0 ==> s.floor_of() * pow2((-s.exponent()) as nat) <= s.numerator()
            < (s.floor_of() + 1) * pow2((-s.exponent()) as nat),
{
    if s.exponent() < 0 {
        let d = pow2((-s.exponent()) as nat) as int;
        lemma_pow2_pos((-s.exponent()) as nat);
        vstd::arithmetic::div_mod::lemma_fundamental_div_mod(s.numerator(), d);
        vstd::arithmetic::div_mod::lemma_mod_bound(s.numerator(), d);
        assert((s.floor_of() + 1) * d == s.floor_of() * d + d) by (nonlinear_arith);
        assert(d * s.floor_of() == s.floor_of() * d) by (nonlinear_arith);
    }
}

} // verus!
