//! Numbers as IEEE-754 double bit patterns, read with integer arithmetic only.
use vstd::arithmetic::div_mod::{lemma_div_multiples_vanish, lemma_mod_multiples_basic, lemma_mul_mod_noop_left};
use vstd::arithmetic::mul::{lemma_mul_is_associative, lemma_mul_inequality};
use vstd::arithmetic::power2::{lemma2_to64, lemma2_to64_rest, lemma_pow2_adds, lemma_pow2_pos, lemma_pow2_strictly_increases, pow2};
use vstd::bits::{lemma_u64_shl_is_mul, lemma_u64_shr_is_div};
use vstd::prelude::*;

verus! {

/// 2 to the power 52: the weight of the implicit leading bit of a significand.
pub const IMPLICIT_BIT: u64 = 0x10_0000_0000_0000;

/// The sign bit of a double.
pub const SIGN_BIT: u64 = 0x8000_0000_0000_0000;

/// 2 to the power 53 minus 1: the largest safe integer.
pub const MAX_SAFE: u64 = 0x1f_ffff_ffff_ffff;

/// 2 to the power 32 minus 1: the longest array.
pub const MAX_ARRAY_LEN: u64 = 0xffff_ffff;

/// A double, held as its bit pattern.
#[derive(Clone, Copy, Debug, PartialEq, Eq, Structural)]
pub struct Num {
    pub bits: u64,
}

impl Num {
    /// True when the sign bit is set.
    pub open spec fn negative(self) -> bool {
        self.bits >= SIGN_BIT
    }

    /// The biased exponent field.
    pub open spec fn exponent(self) -> nat {
        ((self.bits as nat) / (IMPLICIT_BIT as nat)) % 2048
    }

    /// The fraction field.
    pub open spec fn fraction(self) -> nat {
        (self.bits as nat) % (IMPLICIT_BIT as nat)
    }

    pub open spec fn nan(self) -> bool {
        self.exponent() == 2047 && self.fraction() != 0
    }

    pub open spec fn finite(self) -> bool {
        self.exponent() != 2047
    }

    /// True of both zeros.
    pub open spec fn zero(self) -> bool {
        self.exponent() == 0 && self.fraction() == 0
    }

    /// The integer part of the absolute value of a finite number.
    pub open spec fn magnitude(self) -> nat {
        let e = self.exponent();
        if e < 1023 {
            0
        } else if e < 1075 {
            (IMPLICIT_BIT as nat + self.fraction()) / pow2((1075 - e) as nat)
        } else {
            (IMPLICIT_BIT as nat + self.fraction()) * pow2((e - 1075) as nat)
        }
    }

    /// A finite number rounded toward zero.
    pub open spec fn truncated(self) -> int {
        if self.negative() {
            -(self.magnitude() as int)
        } else {
            self.magnitude() as int
        }
    }

    /// `self > 0`.
    pub open spec fn positive(self) -> bool {
        !self.nan() && !self.zero() && !self.negative()
    }

    /// `self >= 0`.
    pub open spec fn at_least_zero(self) -> bool {
        !self.nan() && (self.zero() || !self.negative())
    }

    /// `self == other` of the language: no NaN equals anything, the zeros are equal.
    pub open spec fn eq_number(self, other: Num) -> bool {
        !self.nan() && !other.nan() && (self.bits == other.bits || (self.zero() && other.zero()))
    }

    /// The SameValue relation: all NaNs are one value, the zeros are two.
    pub open spec fn same_number(self, other: Num) -> bool {
        (self.nan() && other.nan()) || self.bits == other.bits
    }

    fn exponent_field(self) -> (r: u64)
        ensures
            r as nat == self.exponent(),
    {
        (self.bits / IMPLICIT_BIT) % 2048
    }

    fn fraction_field(self) -> (r: u64)
        ensures
            r as nat == self.fraction(),
            r < IMPLICIT_BIT,
    {
        self.bits % IMPLICIT_BIT
    }

    pub fn is_nan(self) -> (r: bool)
        ensures
            r == self.nan(),
    {
        self.exponent_field() == 2047 && self.fraction_field() != 0
    }

    pub fn is_finite(self) -> (r: bool)
        ensures
            r == self.finite(),
    {
        self.exponent_field() != 2047
    }

    pub fn is_zero(self) -> (r: bool)
        ensures
            r == self.zero(),
    {
        self.exponent_field() == 0 && self.fraction_field() == 0
    }

    pub fn is_negative(self) -> (r: bool)
        ensures
            r == self.negative(),
    {
        self.bits >= SIGN_BIT
    }

    pub fn is_positive(self) -> (r: bool)
        ensures
            r == self.positive(),
    {
        !self.is_nan() && !self.is_zero() && !self.is_negative()
    }

    pub fn is_at_least_zero(self) -> (r: bool)
        ensures
            r == self.at_least_zero(),
    {
        !self.is_nan() && (self.is_zero() || !self.is_negative())
    }

    pub fn equals(self, other: Num) -> (r: bool)
        ensures
            r == self.eq_number(other),
    {
        !self.is_nan() && !other.is_nan() && (self.bits == other.bits || (self.is_zero()
            && other.is_zero()))
    }

    pub fn same_value(self, other: Num) -> (r: bool)
        ensures
            r == self.same_number(other),
    {
        (self.is_nan() && other.is_nan()) || self.bits == other.bits
    }

    /// The integer part of the absolute value, capped at `u64::MAX`.
    pub fn whole(self) -> (r: u64)
        requires
            self.finite(),
        ensures
            r as nat == if self.magnitude() <= u64::MAX {
                self.magnitude()
            } else {
                u64::MAX as nat
            },
    {
        let e: u64 = self.exponent_field();
        let s: u64 = IMPLICIT_BIT + self.fraction_field();
        proof {
            lemma2_to64();
        }
        if e < 1023 {
            0
        } else if e < 1075 {
            proof {
                lemma_u64_shr_is_div(s, (1075 - e) as u64);
                assert(s as int / pow2((1075 - e) as nat) as int <= s as int) by {
                    lemma_pow2_pos((1075 - e) as nat);
                    vstd::arithmetic::div_mod::lemma_div_is_ordered_by_denominator(
                        s as int,
                        1,
                        pow2((1075 - e) as nat) as int,
                    );
                }
            }
            s >> (1075 - e)
        } else if e <= 1086 {
            let k: u64 = e - 1075;
            proof {
                lemma_pow2_at_most_11(k as nat);
                assert(s as nat * pow2(k as nat) <= 0x1f_ffff_ffff_ffff * 0x800) by {
                    lemma_mul_inequality(s as int, 0x1f_ffff_ffff_ffff, pow2(k as nat) as int);
                    lemma_mul_inequality(pow2(k as nat) as int, 0x800, 0x1f_ffff_ffff_ffff);
                    vstd::arithmetic::mul::lemma_mul_is_commutative(
                        pow2(k as nat) as int,
                        0x1f_ffff_ffff_ffff,
                    );
                }
                lemma_u64_shl_is_mul(s, k);
            }
            s << k
        } else {
            proof {
                if e > 1087 {
                    lemma_pow2_strictly_increases(12, (e - 1075) as nat);
                }
                assert(pow2(12) == 0x1000);
                assert(s as nat * pow2((e - 1075) as nat) >= 0x10_0000_0000_0000 * 0x1000) by {
                    lemma_mul_inequality(0x1000, pow2((e - 1075) as nat) as int, s as int);
                    vstd::arithmetic::mul::lemma_mul_is_commutative(
                        s as int,
                        pow2((e - 1075) as nat) as int,
                    );
                }
            }
            u64::MAX
        }
    }
}

proof fn lemma_pow2_at_most_11(k: nat)
    requires
        k <= 11,
    ensures
        1 <= pow2(k) <= 0x800,
{
    lemma2_to64();
    lemma_pow2_pos(k);
    if k < 11 {
        lemma_pow2_strictly_increases(k, 11);
    }
}

/// ToLength: NaN and anything not above zero become zero, the rest is rounded down and capped at
/// the largest safe integer.
pub open spec fn length_of(n: Num) -> nat {
    if !n.positive() {
        0
    } else if !n.finite() || n.magnitude() > MAX_SAFE {
        MAX_SAFE as nat
    } else {
        n.magnitude()
    }
}

pub fn to_length(n: Num) -> (r: u64)
    ensures
        r as nat == length_of(n),
        r <= MAX_SAFE,
{
    if !n.is_positive() {
        0
    } else if !n.is_finite() {
        MAX_SAFE
    } else {
        let w: u64 = n.whole();
        if w > MAX_SAFE {
            MAX_SAFE
        } else {
            w
        }
    }
}

/// The error of a length that no array can have.
#[derive(Clone, Copy, Debug, PartialEq, Eq, Structural)]
pub struct InvalidArrayLength;

/// `len > MAX_ARRAY_LEN` for a finite positive `len`.
pub open spec fn exceeds_array_len(len: Num) -> bool {
    len.magnitude() > MAX_ARRAY_LEN || (len.magnitude() == MAX_ARRAY_LEN && has_fraction(len))
}

/// True when a finite number is no integer.
pub open spec fn has_fraction(n: Num) -> bool {
    let e = n.exponent();
    if e < 1023 {
        !n.zero()
    } else if e < 1075 {
        (IMPLICIT_BIT as nat + n.fraction()) % pow2((1075 - e) as nat) != 0
    } else {
        false
    }
}

/// True when `n` is finite and no integer.
pub fn is_fractional(n: Num) -> (r: bool)
    requires
        n.finite(),
    ensures
        r == has_fraction(n),
{
    let e: u64 = n.exponent_field();
    let s: u64 = IMPLICIT_BIT + n.fraction_field();
    if e < 1023 {
        !n.is_zero()
    } else if e < 1075 {
        let k: u64 = 1075 - e;
        proof {
            lemma2_to64();
            lemma_pow2_pos(k as nat);
            lemma2_to64_rest();
            if k < 52 {
                lemma_pow2_strictly_increases(k as nat, 52);
            }
            lemma_u64_shl_is_mul(1, k);
        }
        s % (1u64 << k) != 0
    } else {
        false
    }
}

/// Longer than any array, infinity among that.
pub open spec fn beyond_arrays(len: Num) -> bool {
    len.positive() && (!len.finite() || exceeds_array_len(len))
}

/// The number of elements that an array-like object with this `length` has: zero where the length
/// is not positive, an error where no array is that long.
pub fn array_like_len(len: Num) -> (r: Result<u64, InvalidArrayLength>)
    ensures
        r is Err <==> beyond_arrays(len),
        r matches Ok(n) ==> n as nat == if len.positive() {
            len.magnitude()
        } else {
            0
        },
{
    if !len.is_positive() {
        return Ok(0);
    }
    if !len.is_finite() {
        return Err(InvalidArrayLength);
    }
    let w: u64 = len.whole();
    if w > MAX_ARRAY_LEN || (w == MAX_ARRAY_LEN && is_fractional(len)) {
        return Err(InvalidArrayLength);
    }
    Ok(w)
}

/// ToUint16: a number that is not finite becomes zero, any other is truncated and reduced modulo
/// 65536.
pub fn to_uint16(n: Num) -> (r: u16)
    ensures
        r as int == if n.finite() {
            n.truncated() % 65536
        } else {
            0
        },
{
    if !n.is_finite() {
        return 0;
    }
    proof {
        lemma2_to64();
    }
    let m: u64 = low_bits(n, 16, 65536);
    if m == 0 || !n.is_negative() {
        proof {
            if n.negative() {
                lemma_neg_mod(n.magnitude() as int, 65536);
            }
        }
        m as u16
    } else {
        proof {
            lemma_neg_mod(n.magnitude() as int, 65536);
        }
        (65536 - m) as u16
    }
}

proof fn lemma_neg_mod(a: int, m: int)
    requires
        0 <= a,
        m > 0,
    ensures
        (-a) % m == if a % m == 0 {
            0
        } else {
            m - a % m
        },
{
    vstd::arithmetic::div_mod::lemma_fundamental_div_mod(a, m);
    let q = a / m;
    let r = a % m;
    if r == 0 {
        assert(-a == (-q) * m) by (nonlinear_arith)
            requires
                a == m * q,
        ;
        lemma_mod_multiples_basic(-q, m);
    } else {
        assert(-a == (-q - 1) * m + (m - r)) by (nonlinear_arith)
            requires
                a == m * q + r,
        ;
        vstd::arithmetic::div_mod::lemma_fundamental_div_mod_converse(-a, m, -q - 1, m - r);
    }
}

/// The magnitude of a finite number modulo `modulus`, a power of two of at most 16 bits.
fn low_bits(n: Num, width: u64, modulus: u64) -> (r: u64)
    requires
        n.finite(),
        width <= 16,
        modulus as nat == pow2(width as nat),
    ensures
        r as nat == n.magnitude() % pow2(width as nat),
{
    proof {
        lemma_pow2_pos(width as nat);
    }
    let e: u64 = n.exponent_field();
    if e <= 1086 {
        proof {
            lemma_whole_fits(n);
        }
        n.whole() % modulus
    } else {
        let s: u64 = IMPLICIT_BIT + n.fraction_field();
        let k: u64 = e - 1075;
        if k >= width {
            proof {
                lemma_pow2_adds(width as nat, (k - width) as nat);
                let w = pow2(width as nat) as int;
                let p = pow2((k - width) as nat) as int;
                assert(s as int * (w * p) == (s as int * p) * w) by (nonlinear_arith);
                lemma_mod_multiples_basic(s as int * p, w);
            }
            0
        } else {
            let low: u64 = s % modulus;
            proof {
                lemma2_to64();
                lemma_pow2_pos(k as nat);
                if width < 16 {
                    lemma_pow2_strictly_increases(width as nat, 16);
                }
                lemma_pow2_strictly_increases(k as nat, 16);
                assert(low as nat * pow2(k as nat) < 65536 * 65536) by (nonlinear_arith)
                    requires
                        low < 65536,
                        0 < pow2(k as nat) < 65536,
                ;
                lemma_u64_shl_is_mul(low, k);
                lemma_mul_mod_noop_left(s as int, pow2(k as nat) as int, modulus as int);
            }
            (low << k) % modulus
        }
    }
}

proof fn lemma_whole_fits(n: Num)
    requires
        n.exponent() <= 1086,
    ensures
        n.magnitude() <= u64::MAX,
{
    let e = n.exponent();
    let s = IMPLICIT_BIT as nat + n.fraction();
    if e < 1023 {
    } else if e < 1075 {
        lemma_pow2_pos((1075 - e) as nat);
        vstd::arithmetic::div_mod::lemma_div_is_ordered_by_denominator(
            s as int,
            1,
            pow2((1075 - e) as nat) as int,
        );
    } else {
        let k = (e - 1075) as nat;
        lemma_pow2_at_most_11(k);
        assert(s * pow2(k) <= 0x1f_ffff_ffff_ffff * 0x800) by (nonlinear_arith)
            requires
                s <= 0x1f_ffff_ffff_ffff,
                pow2(k) <= 0x800,
        ;
    }
}

/// The low byte of a number cast to a signed 64-bit integer: NaN gives zero, a number that the
/// integer cannot hold is clamped first.
pub open spec fn byte_of(n: Num) -> int {
    if n.nan() {
        0
    } else if !n.finite() || n.magnitude() >= SIGN_BIT {
        if n.negative() {
            0
        } else {
            255
        }
    } else {
        n.truncated() % 256
    }
}

pub fn to_byte(n: Num) -> (r: u8)
    ensures
        r as int == byte_of(n),
{
    if n.is_nan() {
        return 0;
    }
    if !n.is_finite() || n.whole() >= SIGN_BIT {
        return if n.is_negative() {
            0
        } else {
            255
        };
    }
    let m: u64 = n.whole() % 256;
    proof {
        lemma_neg_mod(n.magnitude() as int, 256);
    }
    if m == 0 || !n.is_negative() {
        m as u8
    } else {
        (256 - m) as u8
    }
}

/// The position of the highest set bit of `n`, zero for `n` below two.
pub open spec fn top_bit(n: nat) -> nat
    decreases n,
{
    if n <= 1 {
        0
    } else {
        1 + top_bit(n / 2)
    }
}

/// The bits of the double that is exactly `n`.
pub open spec fn nat_bits(n: nat) -> nat {
    if n == 0 {
        0
    } else {
        let k = top_bit(n);
        (1022 + k) as nat * (IMPLICIT_BIT as nat) + n * pow2((52 - k) as nat)
    }
}

/// The double that is exactly `n`.
pub open spec fn num_of(n: int) -> Num {
    if n < 0 {
        Num { bits: (SIGN_BIT + nat_bits((-n) as nat)) as u64 }
    } else {
        Num { bits: nat_bits(n as nat) as u64 }
    }
}

proof fn lemma_top_bit(n: nat)
    requires
        n > 0,
    ensures
        pow2(top_bit(n)) <= n < 2 * pow2(top_bit(n)),
    decreases n,
{
    lemma2_to64();
    if n > 1 {
        lemma_top_bit(n / 2);
        let k = top_bit(n / 2);
        lemma_pow2_adds(1, k);
        assert(pow2(1) == 2);
        assert(pow2(1 + k) == 2 * pow2(k));
    }
}

proof fn lemma_top_bit_small(n: nat)
    requires
        0 < n <= MAX_SAFE,
    ensures
        top_bit(n) <= 52,
{
    lemma_top_bit(n);
    lemma2_to64();
    if top_bit(n) > 52 {
        if top_bit(n) > 53 {
            lemma_pow2_strictly_increases(53, top_bit(n));
        }
        lemma2_to64_rest();
        assert(pow2(53) == 0x20_0000_0000_0000);
    }
}

/// The fields of the double of a positive safe integer.
pub proof fn lemma_nat_bits(n: nat)
    requires
        0 < n <= MAX_SAFE,
    ensures
        top_bit(n) <= 52,
        nat_bits(n) == (1023 + top_bit(n)) as nat * (IMPLICIT_BIT as nat) + (n * pow2(
            (52 - top_bit(n)) as nat,
        ) - IMPLICIT_BIT),
        IMPLICIT_BIT <= n * pow2((52 - top_bit(n)) as nat) < 2 * IMPLICIT_BIT,
        nat_bits(n) < 0x7ff0_0000_0000_0000,
        nat_bits(n) / (IMPLICIT_BIT as nat) == 1023 + top_bit(n),
        nat_bits(n) % (IMPLICIT_BIT as nat) == n * pow2((52 - top_bit(n)) as nat) - IMPLICIT_BIT,
{
    lemma_top_bit(n);
    lemma_top_bit_small(n);
    let k = top_bit(n);
    let j = (52 - k) as nat;
    lemma2_to64();
    lemma_pow2_adds(k, j);
    lemma_pow2_pos(j);
    lemma2_to64_rest();
    assert(pow2(52) == IMPLICIT_BIT);
    let a = pow2(k);
    let b = pow2(j);
    assert(a * b <= n * b && n * b < 2 * (a * b)) by (nonlinear_arith)
        requires
            a <= n < 2 * a,
            b > 0,
    ;
    let f = (n * b - IMPLICIT_BIT) as int;
    let q = (1023 + k) as int;
    assert(nat_bits(n) as int == q * IMPLICIT_BIT as int + f);
    vstd::arithmetic::div_mod::lemma_fundamental_div_mod_converse(
        nat_bits(n) as int,
        IMPLICIT_BIT as int,
        q,
        f,
    );
}

/// The double of a safe integer is finite and truncates to that integer.
pub proof fn law_safe_integers_exact(n: int)
    requires
        -(MAX_SAFE as int) <= n <= MAX_SAFE,
    ensures
        num_of(n).finite(),
        !num_of(n).nan(),
        num_of(n).truncated() == n,
        !has_fraction(num_of(n)),
        num_of(n).negative() <==> n < 0,
        num_of(n).zero() <==> n == 0,
{
    let m = if n < 0 {
        (-n) as nat
    } else {
        n as nat
    };
    let x = num_of(n);
    if m == 0 {
        assert(x.bits == 0);
    } else {
        lemma_nat_bits(m);
        let k = top_bit(m);
        let j = (52 - k) as nat;
        let i = IMPLICIT_BIT as nat;
        let base = nat_bits(m);
        if n < 0 {
            assert(x.bits as nat == 2048 * i + base);
            assert((2048 * i + base) / i == 2048 + base / i && (2048 * i + base) % i == base % i) by {
                vstd::arithmetic::div_mod::lemma_fundamental_div_mod(base as int, i as int);
                vstd::arithmetic::div_mod::lemma_fundamental_div_mod_converse(
                    (2048 * i + base) as int,
                    i as int,
                    (2048 + base / i) as int,
                    (base % i) as int,
                );
            }
        } else {
            assert(x.bits as nat == base);
        }
        assert(x.exponent() == 1023 + k);
        assert(x.fraction() == m * pow2(j) - i);
        assert(i + x.fraction() == m * pow2(j));
        lemma_pow2_pos(j);
        if j > 0 {
            assert(1075 - x.exponent() == j);
            lemma_div_multiples_vanish(m as int, pow2(j) as int);
            lemma_mod_multiples_basic(m as int, pow2(j) as int);
            assert(m * pow2(j) == pow2(j) * m) by (nonlinear_arith);
            assert((m * pow2(j)) / pow2(j) == m);
        } else {
            lemma2_to64();
            assert(m * pow2(0) == m) by (nonlinear_arith)
                requires
                    pow2(0) == 1,
            ;
            assert((m * pow2(j)) * pow2(0) == m);
        }
        assert(x.magnitude() == m);
    }
}

impl Num {
    /// The double that is exactly `n`.
    pub fn from_u64(n: u64) -> (r: Num)
        requires
            n <= MAX_SAFE,
        ensures
            r == num_of(n as int),
    {
        if n == 0 {
            return Num { bits: 0 };
        }
        proof {
            lemma_top_bit_small(n as nat);
        }
        let mut k: u64 = 0;
        let mut m: u64 = n;
        while m > 1
            invariant
                1 <= m,
                k + top_bit(m as nat) == top_bit(n as nat),
                top_bit(n as nat) <= 52,
            decreases m,
        {
            m = m / 2;
            k = k + 1;
        }
        proof {
            lemma_nat_bits(n as nat);
            lemma_u64_shl_is_mul(n, (52 - k) as u64);
        }
        Num { bits: (1022 + k) * IMPLICIT_BIT + (n << (52 - k)) }
    }

    /// The double that is exactly `n`.
    pub fn from_i64(n: i64) -> (r: Num)
        requires
            -(MAX_SAFE as int) <= n <= MAX_SAFE,
        ensures
            r == num_of(n as int),
    {
        if n < 0 {
            let p: Num = Num::from_u64((-n) as u64);
            proof {
                lemma_nat_bits((-n) as nat);
            }
            Num { bits: SIGN_BIT + p.bits }
        } else {
            Num::from_u64(n as u64)
        }
    }
}

/// `n < k`.
pub open spec fn below(n: Num, k: nat) -> bool {
    &&& !n.nan()
    &&& if n.negative() {
        !n.zero() || k > 0
    } else {
        n.finite() && n.magnitude() < k
    }
}

/// `n > k`.
pub open spec fn above(n: Num, k: nat) -> bool {
    &&& !n.nan()
    &&& !n.negative()
    &&& (!n.finite() || n.magnitude() > k || (n.magnitude() == k && has_fraction(n)))
}

pub fn is_below(n: Num, k: u64) -> (r: bool)
    requires
        k < u64::MAX,
    ensures
        r == below(n, k as nat),
{
    if n.is_nan() {
        false
    } else if n.is_negative() {
        !n.is_zero() || k > 0
    } else {
        n.is_finite() && n.whole() < k
    }
}

pub fn is_above(n: Num, k: u64) -> (r: bool)
    requires
        k < u64::MAX,
    ensures
        r == above(n, k as nat),
{
    if n.is_nan() || n.is_negative() {
        return false;
    }
    if !n.is_finite() {
        return true;
    }
    let w: u64 = n.whole();
    w > k || (w == k && is_fractional(n))
}

/// 10 to the power 21: from there on numbers are written with an exponent.
pub open spec fn huge(n: Num) -> bool {
    n.finite() && n.magnitude() >= 1_000_000_000_000_000_000_000nat
}

pub fn is_huge(n: Num) -> (r: bool)
    ensures
        r == huge(n),
{
    let e: u64 = n.exponent_field();
    let s: u64 = IMPLICIT_BIT + n.fraction_field();
    proof {
        lemma2_to64();
        lemma_pow2_adds(17, 1);
        lemma_pow2_adds(16, 1);
        let f = s as int;
        if e < 1075 {
            if e >= 1023 {
                lemma_pow2_pos((1075 - e) as nat);
                vstd::arithmetic::div_mod::lemma_div_is_ordered_by_denominator(
                    f,
                    1,
                    pow2((1075 - e) as nat) as int,
                );
            }
        } else if e < 1092 {
            let p = pow2((e - 1075) as nat) as int;
            if e < 1091 {
                lemma_pow2_strictly_increases((e - 1075) as nat, 16);
            }
            assert(f * p <= 0x1f_ffff_ffff_ffff * 65536) by (nonlinear_arith)
                requires
                    0 <= f <= 0x1f_ffff_ffff_ffff,
                    0 <= p <= 65536,
            ;
            assert(n.magnitude() == f * p);
        } else if e > 1092 {
            let p = pow2((e - 1075) as nat) as int;
            if e > 1093 {
                lemma_pow2_strictly_increases(18, (e - 1075) as nat);
            }
            assert(f * p >= 0x10_0000_0000_0000 * 262144) by (nonlinear_arith)
                requires
                    f >= 0x10_0000_0000_0000,
                    p >= 262144,
            ;
            assert(n.magnitude() == f * p);
        } else {
            let p = pow2(17) as int;
            assert(f * p == f * 131072) by (nonlinear_arith)
                requires
                    p == 131072,
            ;
            assert(n.magnitude() == f * p);
        }
    }
    e != 2047 && (e > 1092 || (e == 1092 && s >= 7_629_394_531_250_000))
}

/// The place of a number in their order; both zeros stand in the same place.
pub open spec fn rank(n: Num) -> int {
    if n.negative() {
        SIGN_BIT - n.bits
    } else {
        n.bits as int
    }
}

/// `a > b`; false where either is no number.
pub open spec fn greater(a: Num, b: Num) -> bool {
    !a.nan() && !b.nan() && rank(a) > rank(b)
}

pub fn is_greater(a: Num, b: Num) -> (r: bool)
    ensures
        r == greater(a, b),
{
    if a.is_nan() || b.is_nan() {
        return false;
    }
    let na: bool = a.is_negative();
    let nb: bool = b.is_negative();
    if na && nb {
        a.bits < b.bits
    } else if na {
        false
    } else if nb {
        a.bits > 0 || b.bits > SIGN_BIT
    } else {
        a.bits > b.bits
    }
}

/// A number as a count: zero for what is negative or no number.
pub open spec fn count_of_num(n: Num) -> u64 {
    if n.nan() || n.negative() {
        0
    } else if !n.finite() || n.magnitude() > u64::MAX {
        u64::MAX
    } else {
        n.magnitude() as u64
    }
}

pub fn num_to_count(n: Num) -> (r: u64)
    ensures
        r == count_of_num(n),
{
    if n.is_nan() || n.is_negative() {
        0
    } else if !n.is_finite() {
        u64::MAX
    } else {
        n.whole()
    }
}

} // verus!
