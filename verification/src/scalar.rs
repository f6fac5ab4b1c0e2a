//! The arithmetic that the engine is built on.
//!
//! Everything in this crate is generic over a [`Scalar`]: a number type with
//! the four field operations, a test for equality, a test for positivity and
//! two ways of making a value (from a count and from a word of random bits).
//! Each operation is a function of its arguments, named by a specification
//! function of the same trait, so that a contract can say exactly which
//! operations were applied to which cells, and in which order.
use vstd::prelude::*;

verus! {

/// A number type that the engine can compute with.
pub trait Scalar: Copy + Sized {
    /// The additive identity.
    spec fn null() -> Self;

    /// The multiplicative identity.
    spec fn unit() -> Self;

    /// The value that stands for the count `n`.
    spec fn count(n: usize) -> Self;

    /// The value in the symmetric unit range that a word of random bits picks.
    spec fn sample(word: u64) -> Self;

    /// The sum of two values.
    spec fn sum(self, rhs: Self) -> Self;

    /// The first value minus the second.
    spec fn diff(self, rhs: Self) -> Self;

    /// The product of two values.
    spec fn prod(self, rhs: Self) -> Self;

    /// The first value over the second.
    spec fn quot(self, rhs: Self) -> Self;

    /// Numeric equality, which need not be identity.
    spec fn same(self, rhs: Self) -> bool;

    /// Whether the value lies strictly above the additive identity.
    spec fn positive(self) -> bool;

    /// The additive identity.
    fn zero() -> (r: Self)
        ensures
            r == Self::null(),
    ;

    /// The multiplicative identity.
    fn one() -> (r: Self)
        ensures
            r == Self::unit(),
    ;

    /// The value that stands for the count `n`.
    fn from_count(n: usize) -> (r: Self)
        ensures
            r == Self::count(n),
    ;

    /// The value in the symmetric unit range that a word of random bits
    /// picks: words drawn uniformly give values drawn uniformly.
    fn from_sample(word: u64) -> (r: Self)
        ensures
            r == Self::sample(word),
    ;

    /// The sum of two values.
    fn plus(self, rhs: Self) -> (r: Self)
        ensures
            r == self.sum(rhs),
    ;

    /// The first value minus the second.
    fn minus(self, rhs: Self) -> (r: Self)
        ensures
            r == self.diff(rhs),
    ;

    /// The product of two values.
    fn times(self, rhs: Self) -> (r: Self)
        ensures
            r == self.prod(rhs),
    ;

    /// The first value over the second.
    fn over(self, rhs: Self) -> (r: Self)
        ensures
            r == self.quot(rhs),
    ;

    /// Whether two values are numerically equal.
    fn equals(self, rhs: Self) -> (r: bool)
        ensures
            r == self.same(rhs),
    ;

    /// Whether the value lies strictly above the additive identity.
    fn is_positive(self) -> (r: bool)
        ensures
            r == self.positive(),
    ;
}

/// The nearest `i64` to `v`.
pub open spec fn clamp(v: int) -> i64 {
    if v > i64::MAX {
        i64::MAX
    } else if v < i64::MIN {
        i64::MIN
    } else {
        v as i64
    }
}

/// The quotient of `a` by `b` rounded toward zero, and zero where `b` is zero.
pub open spec fn truncated_quotient(a: int, b: int) -> int {
    if b == 0 {
        0
    } else if a >= 0 && b > 0 {
        a / b
    } else if a >= 0 {
        -(a / (-b))
    } else if b > 0 {
        -((-a) / b)
    } else {
        (-a) / (-b)
    }
}

/// The nearest `i64` to `v`.
fn narrow(v: i128) -> (r: i64)
    ensures
        r == clamp(v as int),
{
    if v > 9223372036854775807i128 {
        9223372036854775807i64
    } else if v < -9223372036854775808i128 {
        -9223372036854775808i64
    } else {
        v as i64
    }
}

/// Exact integer arithmetic that saturates at the ends of the range.
impl Scalar for i64 {
    open spec fn null() -> i64 {
        0
    }

    open spec fn unit() -> i64 {
        1
    }

    open spec fn count(n: usize) -> i64 {
        clamp(n as int)
    }

    open spec fn sample(word: u64) -> i64 {
        (word % 3 - 1) as i64
    }

    open spec fn sum(self, rhs: i64) -> i64 {
        clamp(self + rhs)
    }

    open spec fn diff(self, rhs: i64) -> i64 {
        clamp(self - rhs)
    }

    open spec fn prod(self, rhs: i64) -> i64 {
        clamp(self * rhs)
    }

    open spec fn quot(self, rhs: i64) -> i64 {
        clamp(truncated_quotient(self as int, rhs as int))
    }

    open spec fn same(self, rhs: i64) -> bool {
        self == rhs
    }

    open spec fn positive(self) -> bool {
        self > 0
    }

    fn zero() -> (r: i64) {
        0i64
    }

    fn one() -> (r: i64) {
        1i64
    }

    fn from_count(n: usize) -> (r: i64) {
        narrow(n as i128)
    }

    fn from_sample(word: u64) -> (r: i64) {
        let third: u64 = word % 3;
        third as i64 - 1
    }

    fn plus(self, rhs: i64) -> (r: i64) {
        narrow(self as i128 + rhs as i128)
    }

    fn minus(self, rhs: i64) -> (r: i64) {
        narrow(self as i128 - rhs as i128)
    }

    fn times(self, rhs: i64) -> (r: i64) {
        let a: i128 = self as i128;
        let b: i128 = rhs as i128;
        assert(-0x8000_0000_0000_0000 * 0x8000_0000_0000_0000 <= a * b <= 0x8000_0000_0000_0000
            * 0x8000_0000_0000_0000) by (nonlinear_arith)
            requires
                -0x8000_0000_0000_0000 <= a < 0x8000_0000_0000_0000,
                -0x8000_0000_0000_0000 <= b < 0x8000_0000_0000_0000,
        ;
        narrow(a * b)
    }

    fn over(self, rhs: i64) -> (r: i64) {
        if rhs == 0 {
            0i64
        } else {
            let a: i128 = self as i128;
            let b: i128 = rhs as i128;
            if a >= 0 && b > 0 {
                narrow(a / b)
            } else if a >= 0 {
                narrow(-(a / (-b)))
            } else if b > 0 {
                narrow(-((-a) / b))
            } else {
                narrow((-a) / (-b))
            }
        }
    }

    fn equals(self, rhs: i64) -> (r: bool) {
        self == rhs
    }

    fn is_positive(self) -> (r: bool) {
        self > 0
    }
}

} // verus!
