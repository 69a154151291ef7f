//! Elements of the quadratic extension of the field.
//!
//! The arithmetic is that of `miden_core::QuadFelt`. It works on the inner values of the two
//! coefficients, which stand for them in Montgomery form: the inner value of an integer `v` is
//! `v * 2^64`, modulo the order of the field. A product may leave an inner value that is not below
//! the order, and both later operations and comparisons see that value as it is. So a [`QuadFelt`]
//! holds the inner values themselves.

use crate::felt::felt;
use crate::felt::lemma_felt_remainder;
use crate::felt::Felt;
use crate::felt::MODULUS;
use miden_core::FieldElement;
use vstd::prelude::*;

verus! {

/// What an integer is multiplied by to give its inner value, 2^64.
pub const INNER_FACTOR: u128 = 0x1_0000_0000_0000_0000;

/// The inverse of 2^64 modulo the order of the field.
pub const INNER_FACTOR_INV: u64 = 0xffff_fffe_0000_0001;

/// The inverse of the order of the field modulo 2^64.
pub const MODULUS_INV: u64 = 0x1_0000_0001;

/// The inner value of the field element that an integer stands for.
pub open spec fn inner_of(v: int) -> int {
    (v * INNER_FACTOR) % (MODULUS as int)
}

/// The field element that an inner value stands for, whether or not it is below the order.
pub open spec fn felt_of_inner(x: int) -> Felt {
    felt(x * INNER_FACTOR_INV)
}

/// The inner value of a sum. The second value is not above the order.
pub open spec fn inner_sum(x: int, y: int) -> int {
    if x + y < MODULUS {
        x + y
    } else {
        x + y - MODULUS
    }
}

/// The inner value of a difference. The order is added once where the difference is negative, and
/// the result is taken modulo 2^64.
pub open spec fn inner_difference(x: int, y: int) -> int {
    if x >= y {
        x - y
    } else {
        (x - y + MODULUS) % (INNER_FACTOR as int)
    }
}

/// The inner value of twice an element. The order is subtracted once where the value does not fit
/// into 64 bits, and the result is taken modulo 2^64.
pub open spec fn inner_double(x: int) -> int {
    if 2 * x < INNER_FACTOR {
        2 * x
    } else {
        (2 * x - MODULUS) % (INNER_FACTOR as int)
    }
}

/// The inner value of a product: the multiple of the order below 2^64 times the order that makes
/// the product of the inner values divisible by 2^64 is subtracted, and the quotient is taken. The
/// order is added where it is negative.
pub open spec fn inner_product(x: int, y: int) -> int {
    let multiple = (x * y * MODULUS_INV) % (INNER_FACTOR as int) * MODULUS;
    let quotient = (x * y - multiple) / (INNER_FACTOR as int);
    if quotient < 0 {
        quotient + MODULUS
    } else {
        quotient
    }
}

/// An element of the quadratic extension, `c0 + c1 * phi` with `phi^2 == phi - 2`, held as the
/// inner values of its coefficients.
#[derive(Clone, Copy, PartialEq, Eq, Structural, Debug)]
pub struct QuadFelt {
    pub inner0: u64,
    pub inner1: u64,
}

/// Whether the sum of two elements can be taken: the inner values of the second are not above the
/// order. The field subtracts them from the order, and that overflows otherwise.
pub open spec fn can_sum(a: QuadFelt, b: QuadFelt) -> bool {
    b.inner0 <= MODULUS && b.inner1 <= MODULUS
}

/// The sum of two elements.
pub open spec fn quad_sum(a: QuadFelt, b: QuadFelt) -> QuadFelt {
    QuadFelt {
        inner0: inner_sum(a.inner0 as int, b.inner0 as int) as u64,
        inner1: inner_sum(a.inner1 as int, b.inner1 as int) as u64,
    }
}

/// The difference of two elements.
pub open spec fn quad_difference(a: QuadFelt, b: QuadFelt) -> QuadFelt {
    QuadFelt {
        inner0: inner_difference(a.inner0 as int, b.inner0 as int) as u64,
        inner1: inner_difference(a.inner1 as int, b.inner1 as int) as u64,
    }
}

/// Whether the product of two elements can be taken: the sums of the coefficients of each can.
pub open spec fn can_multiply(a: QuadFelt, b: QuadFelt) -> bool {
    a.inner1 <= MODULUS && b.inner1 <= MODULUS
}

/// The inner value of the low coefficient of a product: that of `a0 * b0 - 2 * a1 * b1`.
pub open spec fn inner_low(a: (u64, u64), b: (u64, u64)) -> int {
    inner_difference(
        inner_product(a.0 as int, b.0 as int),
        inner_double(inner_product(a.1 as int, b.1 as int)),
    )
}

/// The inner value of the high coefficient of a product: that of
/// `(a0 + a1) * (b0 + b1) - a0 * b0`.
pub open spec fn inner_high(a: (u64, u64), b: (u64, u64)) -> int {
    inner_difference(
        inner_product(inner_sum(a.0 as int, a.1 as int), inner_sum(b.0 as int, b.1 as int)),
        inner_product(a.0 as int, b.0 as int),
    )
}

/// The product of two elements.
pub open spec fn quad_product(a: QuadFelt, b: QuadFelt) -> QuadFelt {
    QuadFelt {
        inner0: inner_low((a.inner0, a.inner1), (b.inner0, b.inner1)) as u64,
        inner1: inner_high((a.inner0, a.inner1), (b.inner0, b.inner1)) as u64,
    }
}

/// The element with the given coefficients.
pub open spec fn quad_felt(c0: Felt, c1: Felt) -> QuadFelt {
    QuadFelt { inner0: inner_of(c0@ as int) as u64, inner1: inner_of(c1@ as int) as u64 }
}

/// `miden_core::Felt::new`, read back with `inner`: the integer times 2^64, modulo the order of the
/// field.
#[verifier::external_body]
fn to_inner(a: u64) -> (r: u64)
    ensures
        r == (a * INNER_FACTOR) % (MODULUS as int),
{
    miden_core::Felt::new(a).inner()
}

/// `miden_core::Felt::from_mont`, read back with `as_int`: the inner value, which may be any 64-bit
/// value, divided by 2^64 modulo the order of the field.
#[verifier::external_body]
fn from_inner(x: u64) -> (r: u64)
    ensures
        r == (x * INNER_FACTOR_INV) % (MODULUS as int),
{
    miden_core::Felt::from_mont(x).as_int()
}

/// `+` of `miden_core::QuadFelt`, on the inner values of the coefficients. It subtracts the inner
/// values of the second element from the order, so these may not be above it: the subtraction would
/// overflow, which is a panic in builds that check for it.
#[verifier::external_body]
fn sum_inner(a: (u64, u64), b: (u64, u64)) -> (r: (u64, u64))
    requires
        b.0 <= MODULUS,
        b.1 <= MODULUS,
    ensures
        r.0 == inner_sum(a.0 as int, b.0 as int),
        r.1 == inner_sum(a.1 as int, b.1 as int),
{
    let (x0, x1) = (miden_core::Felt::from_mont(a.0), miden_core::Felt::from_mont(a.1));
    let (y0, y1) = (miden_core::Felt::from_mont(b.0), miden_core::Felt::from_mont(b.1));
    let z = miden_core::QuadFelt::new(x0, x1) + miden_core::QuadFelt::new(y0, y1);
    (z.base_element(0).inner(), z.base_element(1).inner())
}

/// `-` of `miden_core::QuadFelt`, on the inner values of the coefficients.
#[verifier::external_body]
fn difference_inner(a: (u64, u64), b: (u64, u64)) -> (r: (u64, u64))
    ensures
        r.0 == inner_difference(a.0 as int, b.0 as int),
        r.1 == inner_difference(a.1 as int, b.1 as int),
{
    let (x0, x1) = (miden_core::Felt::from_mont(a.0), miden_core::Felt::from_mont(a.1));
    let (y0, y1) = (miden_core::Felt::from_mont(b.0), miden_core::Felt::from_mont(b.1));
    let z = miden_core::QuadFelt::new(x0, x1) - miden_core::QuadFelt::new(y0, y1);
    (z.base_element(0).inner(), z.base_element(1).inner())
}

/// `*` of `miden_core::QuadFelt`, on the inner values of the coefficients. It takes the sum of the
/// coefficients of each element, so the high ones may not be above the order.
#[verifier::external_body]
fn product_inner(a: (u64, u64), b: (u64, u64)) -> (r: (u64, u64))
    requires
        a.1 <= MODULUS,
        b.1 <= MODULUS,
    ensures
        r.0 == inner_low(a, b),
        r.1 == inner_high(a, b),
{
    let (x0, x1) = (miden_core::Felt::from_mont(a.0), miden_core::Felt::from_mont(a.1));
    let (y0, y1) = (miden_core::Felt::from_mont(b.0), miden_core::Felt::from_mont(b.1));
    let z = miden_core::QuadFelt::new(x0, x1) * miden_core::QuadFelt::new(y0, y1);
    (z.base_element(0).inner(), z.base_element(1).inner())
}

impl QuadFelt {
    /// The element `c0 + c1 * phi`.
    pub fn new(c0: Felt, c1: Felt) -> (r: QuadFelt)
        ensures
            r == quad_felt(c0, c1),
    {
        QuadFelt { inner0: to_inner(c0.as_int()), inner1: to_inner(c1.as_int()) }
    }

    /// The coefficient `c0`, or `c1`.
    pub open spec fn coefficient(&self, i: int) -> Felt {
        felt_of_inner(
            if i == 0 {
                self.inner0 as int
            } else {
                self.inner1 as int
            },
        )
    }

    /// The coefficient `c0` or, for one, `c1`.
    pub fn base_element(&self, i: usize) -> (r: Felt)
        requires
            i < 2,
        ensures
            r == self.coefficient(i as int),
    {
        let x: u64 = if i == 0 {
            self.inner0
        } else {
            self.inner1
        };
        proof {
            lemma_felt_remainder(x * INNER_FACTOR_INV);
        }
        Felt::new(from_inner(x))
    }

    /// The sum of two elements.
    pub fn add(self, rhs: QuadFelt) -> (r: QuadFelt)
        requires
            can_sum(self, rhs),
        ensures
            r == quad_sum(self, rhs),
    {
        let (x, y) = sum_inner((self.inner0, self.inner1), (rhs.inner0, rhs.inner1));
        QuadFelt { inner0: x, inner1: y }
    }

    /// The difference of two elements.
    pub fn sub(self, rhs: QuadFelt) -> (r: QuadFelt)
        ensures
            r == quad_difference(self, rhs),
    {
        let (x, y) = difference_inner((self.inner0, self.inner1), (rhs.inner0, rhs.inner1));
        QuadFelt { inner0: x, inner1: y }
    }

    /// The product of two elements.
    pub fn mul(self, rhs: QuadFelt) -> (r: QuadFelt)
        requires
            can_multiply(self, rhs),
        ensures
            r == quad_product(self, rhs),
    {
        let (x, y) = product_inner((self.inner0, self.inner1), (rhs.inner0, rhs.inner1));
        QuadFelt { inner0: x, inner1: y }
    }
}

} // verus!
