//! Fixed-point and checked integer arithmetic.
//!
//! Decimals are fixed-point numbers with 18 decimal places: a decimal `d`
//! stands for the rational `d.inner / DIV`. Balances share that scale, so that
//! a balance `b` and the decimal with `inner == b` denote the same amount.
//!
//! Multiplication, division and rational construction are delegated to
//! `sp_arithmetic`; addition, subtraction and negation are computed here.
use vstd::prelude::*;

verus! {

/// The accuracy of the fixed-point numbers: one unit is `10^18`.
pub const DIV: u128 = 1_000_000_000_000_000_000u128;

/// The absolute value of an integer.
pub open spec fn abs(x: int) -> int {
    if x < 0 {
        -x
    } else {
        x
    }
}

/// The quotient `n / d` rounded toward zero.
pub open spec fn trunc_quot(n: int, d: int) -> int {
    if (n < 0) == (d < 0) {
        abs(n) / abs(d)
    } else {
        -(abs(n) / abs(d))
    }
}

/// Whether `x` is representable as an `i128`.
pub open spec fn fits_i128(x: int) -> bool {
    i128::MIN <= x <= i128::MAX
}

/// Whether `x` is representable as a `u128`.
pub open spec fn fits_u128(x: int) -> bool {
    0 <= x <= u128::MAX
}

/// `Some(x)` if `x` fits in an `i128`, `None` otherwise.
pub open spec fn opt_i128(x: int) -> Option<i128> {
    if fits_i128(x) {
        Some(x as i128)
    } else {
        None
    }
}

/// `Some(x)` if `x` fits in a `u128`, `None` otherwise.
pub open spec fn opt_u128(x: int) -> Option<u128> {
    if fits_u128(x) {
        Some(x as u128)
    } else {
        None
    }
}

/// Errors of checked arithmetic.
#[derive(Clone, Copy, Debug, PartialEq, Eq, Structural)]
pub enum ArithmeticError {
    /// A result below the representable range.
    Underflow,
    /// A result above the representable range.
    Overflow,
    /// A division by zero.
    DivisionByZero,
}

/// How to round the quotient of an unsigned division.
#[derive(Clone, Copy, Debug, PartialEq, Eq, Structural)]
pub enum Rounding {
    /// Towards infinity.
    Up,
    /// Towards zero.
    Down,
    /// Nearest integer, rounding as `Up` when equidistant.
    NearestPrefUp,
    /// Nearest integer, rounding as `Down` when equidistant.
    NearestPrefDown,
}

/// Whether the floor quotient with remainder `rem` of a division by `c` is
/// rounded up by one under rounding `r`.
pub open spec fn rounds_up(r: Rounding, rem: int, c: int) -> bool {
    match r {
        Rounding::Up => rem > 0,
        Rounding::NearestPrefUp => rem >= c / 2 + c % 2,
        Rounding::NearestPrefDown => rem > c / 2,
        Rounding::Down => false,
    }
}

/// `a * b / c` rounded as `r`, computed over the integers.
pub open spec fn mul_div_rounded(a: int, b: int, c: int, r: Rounding) -> int {
    (a * b) / c + if rounds_up(r, (a * b) % c, c) {
        1int
    } else {
        0int
    }
}

/// `sp_arithmetic::helpers_128bit::multiply_by_rational_with_rounding`: `a * b / c`
/// computed with a 256-bit intermediate product, rounded as `r`; `None` when
/// `c` is zero or the rounded result does not fit in a `u128`.
#[verifier::external_body]
pub(crate) fn multiply_by_rational_with_rounding(a: u128, b: u128, c: u128, r: Rounding) -> (res:
    Option<u128>)
    ensures
        res == (if c == 0 {
            None
        } else {
            opt_u128(mul_div_rounded(a as int, b as int, c as int, r))
        }),
{
    let rounding = match r {
        Rounding::Up => sp_arithmetic::Rounding::Up,
        Rounding::Down => sp_arithmetic::Rounding::Down,
        Rounding::NearestPrefUp => sp_arithmetic::Rounding::NearestPrefUp,
        Rounding::NearestPrefDown => sp_arithmetic::Rounding::NearestPrefDown,
    };
    sp_arithmetic::helpers_128bit::multiply_by_rational_with_rounding(a, b, c, rounding)
}

/// `CheckedMul::checked_mul` of `sp_arithmetic::FixedI128`, on inner values: the
/// product `a * b / DIV` rounded toward zero, `None` if it does not fit.
#[verifier::external_body]
fn fixed_i128_checked_mul(a: i128, b: i128) -> (r: Option<i128>)
    ensures
        r == opt_i128(trunc_quot(a * b, DIV as int)),
{
    let x = sp_arithmetic::FixedI128::from_inner(a);
    let y = sp_arithmetic::FixedI128::from_inner(b);
    sp_arithmetic::traits::CheckedMul::checked_mul(&x, &y).map(|z| z.into_inner())
}

/// `CheckedDiv::checked_div` of `sp_arithmetic::FixedI128`, on inner values: the
/// quotient `a * DIV / b` rounded toward zero, `None` if `b` is zero or it
/// does not fit.
#[verifier::external_body]
fn fixed_i128_checked_div(a: i128, b: i128) -> (r: Option<i128>)
    ensures
        r == (if b == 0 {
            None
        } else {
            opt_i128(trunc_quot(a * DIV, b as int))
        }),
{
    let x = sp_arithmetic::FixedI128::from_inner(a);
    let y = sp_arithmetic::FixedI128::from_inner(b);
    sp_arithmetic::traits::CheckedDiv::checked_div(&x, &y).map(|z| z.into_inner())
}

/// `FixedPointNumber::checked_from_rational` of `sp_arithmetic::FixedI128` with
/// `u64` operands: `n * DIV / d` rounded down, `None` if `d` is zero or it
/// does not fit.
#[verifier::external_body]
fn fixed_i128_checked_from_rational(n: u64, d: u64) -> (r: Option<i128>)
    ensures
        r == (if d == 0 {
            None
        } else {
            opt_i128((n * DIV) / (d as int))
        }),
{
    <sp_arithmetic::FixedI128 as sp_arithmetic::FixedPointNumber>::checked_from_rational(
        n,
        d,
    ).map(|z| z.into_inner())
}

/// `FixedPointNumber::saturating_mul_int` of `sp_arithmetic::FixedI128` with a
/// `u128` operand: `a * n / DIV` rounded toward zero, saturated to `0` when
/// negative and to `u128::MAX` when too large.
#[verifier::external_body]
fn fixed_i128_saturating_mul_int(a: i128, n: u128) -> (r: u128)
    ensures
        r == (if fits_u128(trunc_quot(a * n, DIV as int)) {
            trunc_quot(a * n, DIV as int)
        } else if a < 0 {
            0
        } else {
            u128::MAX as int
        }),
{
    let x = sp_arithmetic::FixedI128::from_inner(a);
    <sp_arithmetic::FixedI128 as sp_arithmetic::FixedPointNumber>::saturating_mul_int(x, n)
}

/// `CheckedMul::checked_mul` of `sp_arithmetic::FixedU128`, on inner values: the
/// product `a * b / DIV` rounded down, `None` if it does not fit.
#[verifier::external_body]
fn fixed_u128_checked_mul(a: u128, b: u128) -> (r: Option<u128>)
    ensures
        r == opt_u128((a * b) / (DIV as int)),
{
    let x = sp_arithmetic::FixedU128::from_inner(a);
    let y = sp_arithmetic::FixedU128::from_inner(b);
    sp_arithmetic::traits::CheckedMul::checked_mul(&x, &y).map(|z| z.into_inner())
}

/// `CheckedDiv::checked_div` of `sp_arithmetic::FixedU128`, on inner values: the
/// quotient `a * DIV / b` rounded down, `None` if `b` is zero or it does not
/// fit.
#[verifier::external_body]
fn fixed_u128_checked_div(a: u128, b: u128) -> (r: Option<u128>)
    ensures
        r == (if b == 0 {
            None
        } else {
            opt_u128((a * DIV) / (b as int))
        }),
{
    let x = sp_arithmetic::FixedU128::from_inner(a);
    let y = sp_arithmetic::FixedU128::from_inner(b);
    sp_arithmetic::traits::CheckedDiv::checked_div(&x, &y).map(|z| z.into_inner())
}

/// A signed fixed-point decimal number with 18 decimal places.
#[derive(Clone, Copy, Debug, PartialEq, Eq, Structural)]
pub struct Decimal {
    /// The underlying integer: the decimal stands for `inner / DIV`.
    pub inner: i128,
}

/// The decimal with inner value `x`, if it fits.
pub open spec fn dec_of(x: int) -> Result<Decimal, ArithmeticError> {
    if fits_i128(x) {
        Ok(Decimal { inner: x as i128 })
    } else {
        Err(ArithmeticError::Overflow)
    }
}

/// The fixed-point product of two decimals on inner values, rounded toward zero.
pub open spec fn dec_mul_spec(a: int, b: int) -> int {
    trunc_quot(a * b, DIV as int)
}

/// The fixed-point quotient of two decimals on inner values, rounded toward zero.
pub open spec fn dec_div_spec(a: int, b: int) -> int {
    trunc_quot(a * DIV, b)
}

/// Dividing a decimal by a positive integer never leaves the range of `i128`.
pub proof fn lemma_div_by_integer_fits(a: i128, k: int)
    requires
        k >= 1,
    ensures
        abs(dec_div_spec(a as int, k * DIV)) <= abs(a as int),
        fits_i128(dec_div_spec(a as int, k * DIV)),
{
    let n = abs(a * DIV);
    assert(n == abs(a as int) * DIV) by (nonlinear_arith)
        requires
            n == abs(a * DIV),
    ;
    assert(abs(k * DIV) == k * DIV) by (nonlinear_arith)
        requires
            k >= 1,
    ;
    vstd::arithmetic::div_mod::lemma_div_is_ordered_by_denominator(n, DIV as int, k * DIV);
    vstd::arithmetic::div_mod::lemma_div_by_multiple(abs(a as int), DIV as int);
    assert(DIV <= k * DIV) by (nonlinear_arith)
        requires
            k >= 1,
    ;
    assert(n / (k * DIV) >= 0) by (nonlinear_arith)
        requires
            n >= 0,
            k >= 1,
    ;
}

impl Decimal {
    /// The decimal `0`.
    pub fn zero() -> (r: Decimal)
        ensures
            r.inner == 0,
    {
        Decimal { inner: 0 }
    }

    /// The decimal `1`.
    pub fn one() -> (r: Decimal)
        ensures
            r.inner == DIV,
    {
        Decimal { inner: 1_000_000_000_000_000_000i128 }
    }

    /// The decimal with the given inner value.
    pub fn from_inner(inner: i128) -> (r: Decimal)
        ensures
            r.inner == inner,
    {
        Decimal { inner }
    }

    /// The decimal equal to the integer `n`.
    pub fn from_integer(n: u64) -> (r: Decimal)
        ensures
            r.inner == n * DIV,
    {
        assert(n * DIV <= u64::MAX * DIV) by (nonlinear_arith);
        Decimal { inner: (n as i128) * 1_000_000_000_000_000_000i128 }
    }

    /// The decimal nearest below `n / d`; `None` if `d` is zero.
    pub fn checked_from_rational(n: u64, d: u64) -> (r: Option<Decimal>)
        ensures
            r == (if d == 0 {
                None
            } else {
                Some(Decimal { inner: ((n * DIV) / (d as int)) as i128 })
            }),
    {
        match fixed_i128_checked_from_rational(n, d) {
            Some(x) => Some(Decimal { inner: x }),
            None => {
                if d != 0 {
                    assert(n * DIV <= u64::MAX * DIV) by (nonlinear_arith);
                    assert((n * DIV) / (d as int) <= n * DIV) by (nonlinear_arith)
                        requires
                            d >= 1,
                            n * DIV >= 0,
                    ;
                }
                None
            },
        }
    }

    /// Whether the decimal is zero.
    pub fn is_zero(self) -> (r: bool)
        ensures
            r == (self.inner == 0),
    {
        self.inner == 0
    }

    /// Whether the decimal is strictly positive.
    pub fn is_positive(self) -> (r: bool)
        ensures
            r == (self.inner > 0),
    {
        self.inner > 0
    }

    /// Checked addition.
    pub fn try_add(self, other: Decimal) -> (r: Result<Decimal, ArithmeticError>)
        ensures
            r == dec_of(self.inner + other.inner),
    {
        match self.inner.checked_add(other.inner) {
            Some(x) => Ok(Decimal { inner: x }),
            None => Err(ArithmeticError::Overflow),
        }
    }

    /// Checked subtraction.
    pub fn try_sub(self, other: Decimal) -> (r: Result<Decimal, ArithmeticError>)
        ensures
            r == (if fits_i128(self.inner - other.inner) {
                Ok(Decimal { inner: (self.inner - other.inner) as i128 })
            } else {
                Err(ArithmeticError::Underflow)
            }),
    {
        match self.inner.checked_sub(other.inner) {
            Some(x) => Ok(Decimal { inner: x }),
            None => Err(ArithmeticError::Underflow),
        }
    }

    /// Checked fixed-point multiplication, rounding toward zero.
    pub fn try_mul(self, other: Decimal) -> (r: Result<Decimal, ArithmeticError>)
        ensures
            r == dec_of(dec_mul_spec(self.inner as int, other.inner as int)),
    {
        match fixed_i128_checked_mul(self.inner, other.inner) {
            Some(x) => Ok(Decimal { inner: x }),
            None => Err(ArithmeticError::Overflow),
        }
    }

    /// Checked fixed-point division, rounding toward zero.
    pub fn try_div(self, other: Decimal) -> (r: Result<Decimal, ArithmeticError>)
        ensures
            r == (if other.inner == 0 {
                Err(ArithmeticError::DivisionByZero)
            } else if fits_i128(dec_div_spec(self.inner as int, other.inner as int)) {
                Ok(Decimal { inner: dec_div_spec(self.inner as int, other.inner as int) as i128 })
            } else {
                Err(ArithmeticError::DivisionByZero)
            }),
    {
        match fixed_i128_checked_div(self.inner, other.inner) {
            Some(x) => Ok(Decimal { inner: x }),
            None => Err(ArithmeticError::DivisionByZero),
        }
    }

    /// Saturating absolute value: `i128::MAX` for the most negative decimal.
    pub fn saturating_abs(self) -> (r: Decimal)
        ensures
            r.inner == (if self.inner == i128::MIN {
                i128::MAX as int
            } else {
                abs(self.inner as int)
            }),
    {
        if self.inner >= 0 {
            self
        } else if self.inner == i128::MIN {
            Decimal { inner: i128::MAX }
        } else {
            Decimal { inner: -self.inner }
        }
    }

    /// Negation.
    pub fn neg(self) -> (r: Decimal)
        requires
            self.inner != i128::MIN,
        ensures
            r.inner == -self.inner,
    {
        Decimal { inner: -self.inner }
    }

    /// Checked negation: fails for the most negative decimal.
    pub fn try_neg(self) -> (r: Result<Decimal, ArithmeticError>)
        ensures
            r == dec_of(-self.inner),
    {
        if self.inner == i128::MIN {
            Err(ArithmeticError::Overflow)
        } else {
            Ok(Decimal { inner: -self.inner })
        }
    }

    /// `self * n` for an integer `n`, rounded toward zero and saturated to the
    /// bounds of `u128`.
    pub fn saturating_mul_int(self, n: u128) -> (r: u128)
        ensures
            r == (if fits_u128(trunc_quot(self.inner * n, DIV as int)) {
                trunc_quot(self.inner * n, DIV as int)
            } else if self.inner < 0 {
                0
            } else {
                u128::MAX as int
            }),
    {
        fixed_i128_saturating_mul_int(self.inner, n)
    }

    /// Clamps the decimal to `[min, max]`; fails when `min > max`.
    pub fn try_clamp(self, min: Decimal, max: Decimal) -> (r: Result<Decimal, ArithmeticError>)
        ensures
            r == (if min.inner > max.inner {
                Err(ArithmeticError::Underflow)
            } else if self.inner < min.inner {
                Ok(min)
            } else if self.inner > max.inner {
                Ok(max)
            } else {
                Ok(self)
            }),
    {
        if min.inner > max.inner {
            Err(ArithmeticError::Underflow)
        } else if self.inner < min.inner {
            Ok(min)
        } else if self.inner > max.inner {
            Ok(max)
        } else {
            Ok(self)
        }
    }

    /// The absolute value of the decimal as a balance of the same scale.
    pub fn into_balance(self) -> (r: u128)
        ensures
            r == abs(self.inner as int),
    {
        if self.inner >= 0 {
            self.inner as u128
        } else if self.inner == i128::MIN {
            170141183460469231731687303715884105728u128
        } else {
            (-self.inner) as u128
        }
    }

    /// The decimal denoting the balance `b`, if it fits.
    pub fn from_balance(b: u128) -> (r: Result<Decimal, ArithmeticError>)
        ensures
            r == dec_of(b as int),
    {
        if b <= i128::MAX as u128 {
            Ok(Decimal { inner: b as i128 })
        } else {
            Err(ArithmeticError::Overflow)
        }
    }
}

/// An unsigned fixed-point decimal number with 18 decimal places.
#[derive(Clone, Copy, Debug, PartialEq, Eq, Structural)]
pub struct UnsignedDecimal {
    /// The underlying integer: the decimal stands for `inner / DIV`.
    pub inner: u128,
}

impl UnsignedDecimal {
    /// The decimal with the given inner value.
    pub fn from_inner(inner: u128) -> (r: UnsignedDecimal)
        ensures
            r.inner == inner,
    {
        UnsignedDecimal { inner }
    }

    /// Checked addition.
    pub fn try_add(self, other: UnsignedDecimal) -> (r: Result<UnsignedDecimal, ArithmeticError>)
        ensures
            r == (if fits_u128(self.inner + other.inner) {
                Ok(UnsignedDecimal { inner: (self.inner + other.inner) as u128 })
            } else {
                Err(ArithmeticError::Overflow)
            }),
    {
        match self.inner.checked_add(other.inner) {
            Some(x) => Ok(UnsignedDecimal { inner: x }),
            None => Err(ArithmeticError::Overflow),
        }
    }

    /// Checked fixed-point multiplication, rounding down.
    pub fn try_mul(self, other: UnsignedDecimal) -> (r: Result<UnsignedDecimal, ArithmeticError>)
        ensures
            r == (if fits_u128((self.inner * other.inner) / (DIV as int)) {
                Ok(UnsignedDecimal { inner: ((self.inner * other.inner) / (DIV as int)) as u128 })
            } else {
                Err(ArithmeticError::Overflow)
            }),
    {
        match fixed_u128_checked_mul(self.inner, other.inner) {
            Some(x) => Ok(UnsignedDecimal { inner: x }),
            None => Err(ArithmeticError::Overflow),
        }
    }

    /// Checked fixed-point division, rounding down.
    pub fn try_div(self, other: UnsignedDecimal) -> (r: Result<UnsignedDecimal, ArithmeticError>)
        ensures
            r == (if other.inner != 0 && fits_u128((self.inner * DIV) / (other.inner as int)) {
                Ok(UnsignedDecimal { inner: ((self.inner * DIV) / (other.inner as int)) as u128 })
            } else {
                Err(ArithmeticError::DivisionByZero)
            }),
    {
        match fixed_u128_checked_div(self.inner, other.inner) {
            Some(x) => Ok(UnsignedDecimal { inner: x }),
            None => Err(ArithmeticError::DivisionByZero),
        }
    }
}

} // verus!
