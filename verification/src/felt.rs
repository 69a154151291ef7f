//! Elements of the 64-bit prime field that the trace is made of.
//!
//! A [`Felt`] holds the canonical integer of a field element. The arithmetic itself is that of
//! `miden_core::Felt`; the wrappers below say what each operation returns on canonical integers.

use miden_core::FieldElement;
use vstd::arithmetic::div_mod::lemma_mod_bound;
use vstd::arithmetic::div_mod::lemma_mul_mod_noop_left;
use vstd::arithmetic::div_mod::lemma_mul_mod_noop_right;
use vstd::arithmetic::div_mod::lemma_small_mod;
use vstd::prelude::*;

verus! {

/// The order of the field, 2^64 - 2^32 + 1.
pub const MODULUS: u64 = 0xffff_ffff_0000_0001;

/// An element of the field, held as the integer below the field's order that stands for it.
#[derive(Clone, Copy, PartialEq, Eq, Structural, Debug)]
pub struct Felt {
    value: u64,
}

/// The field element that an integer stands for.
pub closed spec fn felt(i: int) -> Felt {
    Felt { value: (i % (MODULUS as int)) as u64 }
}

impl View for Felt {
    type V = u64;

    closed spec fn view(&self) -> u64 {
        self.value
    }
}

/// The integer of the element that stands for `i` is the remainder of `i`.
pub broadcast proof fn lemma_felt_view(i: int)
    ensures
        (#[trigger] felt(i))@ == i % (MODULUS as int),
        felt(i)@ < MODULUS,
{
    lemma_mod_bound(i, MODULUS as int);
}

/// An integer below the order is the integer of its element.
pub broadcast proof fn lemma_felt_small(i: int)
    requires
        0 <= i < MODULUS,
    ensures
        (#[trigger] felt(i))@ == i,
{
    lemma_felt_view(i);
    lemma_small_mod(i as nat, MODULUS as nat);
}

/// An integer stands for the same element as its remainder.
pub proof fn lemma_felt_remainder(i: int)
    ensures
        felt(i % (MODULUS as int)) == felt(i),
{
    lemma_mod_bound(i, MODULUS as int);
    lemma_small_mod((i % (MODULUS as int)) as nat, MODULUS as nat);
}

/// A canonical element is the one that its integer stands for.
pub proof fn lemma_felt_of_view(a: Felt)
    requires
        a@ < MODULUS,
    ensures
        felt(a@ as int) == a,
{
    lemma_small_mod(a@ as nat, MODULUS as nat);
}

/// Whether `r` is the multiplicative inverse of `a`; zero stands as its own inverse.
pub open spec fn is_inverse(a: Felt, r: Felt) -> bool {
    if a@ == 0 {
        r@ == 0
    } else {
        r@ < MODULUS && (a@ * r@) % (MODULUS as int) == 1
    }
}

/// An element has one inverse at most.
pub proof fn lemma_inverse_unique(a: Felt, r: Felt, s: Felt)
    requires
        is_inverse(a, r),
        is_inverse(a, s),
    ensures
        r == s,
{
    if a@ != 0 {
        let p = MODULUS as int;
        let (x, y, z) = (a@ as int, r@ as int, s@ as int);
        // y == y * (x * z) == (y * x) * z == z, modulo p
        lemma_mul_mod_noop_right(y, x * z, p);
        lemma_mul_mod_noop_left(x * y, z, p);
        assert(y * (x * z) == (x * y) * z) by (nonlinear_arith);
        assert(y * ((x * z) % p) == y);
        assert(((x * y) % p) * z == z);
        lemma_small_mod(y as nat, p as nat);
        lemma_small_mod(z as nat, p as nat);
    }
}

/// The multiplicative inverse of an element, and zero for zero.
pub open spec fn inverse_of(a: Felt) -> Felt {
    choose|r: Felt| is_inverse(a, r)
}

/// The inverse is what [`inverse_of`] names.
pub proof fn lemma_inverse_of(a: Felt, r: Felt)
    requires
        is_inverse(a, r),
    ensures
        r == inverse_of(a),
{
    lemma_inverse_unique(a, r, inverse_of(a));
}

/// `miden_core::Felt::new`, read back with `as_int`: any 64-bit integer is reduced modulo the
/// order of the field.
#[verifier::external_body]
fn reduce(a: u64) -> (r: u64)
    ensures
        r == a % MODULUS,
{
    miden_core::Felt::new(a).as_int()
}

/// `+` of `miden_core::Felt`: the sum modulo the order of the field.
#[verifier::external_body]
fn sum_mod(a: u64, b: u64) -> (r: u64)
    ensures
        r == (a + b) % (MODULUS as int),
{
    (miden_core::Felt::new(a) + miden_core::Felt::new(b)).as_int()
}

/// `-` of `miden_core::Felt`: the difference modulo the order of the field.
#[verifier::external_body]
fn difference_mod(a: u64, b: u64) -> (r: u64)
    ensures
        r == (a - b) % (MODULUS as int),
{
    (miden_core::Felt::new(a) - miden_core::Felt::new(b)).as_int()
}

/// `*` of `miden_core::Felt`: the product modulo the order of the field.
#[verifier::external_body]
fn product_mod(a: u64, b: u64) -> (r: u64)
    ensures
        r == (a * b) % (MODULUS as int),
{
    (miden_core::Felt::new(a) * miden_core::Felt::new(b)).as_int()
}

/// `inv` of `miden_core::Felt`: the multiplicative inverse, and zero for zero.
#[verifier::external_body]
fn inverse_mod(a: u64) -> (r: u64)
    ensures
        r < MODULUS,
        a % MODULUS == 0 ==> r == 0,
        a % MODULUS != 0 ==> (a * r) % (MODULUS as int) == 1,
{
    miden_core::Felt::new(a).inv().as_int()
}

/// `winter_prover::math::batch_inversion` over `miden_core::Felt`: every value is replaced with
/// its multiplicative inverse, and zeros stay zeros.
#[verifier::external_body]
fn inverses_mod(values: &Vec<u64>) -> (r: Vec<u64>)
    ensures
        r@.len() == values@.len(),
        forall|i: int|
            #![trigger r@[i]]
            0 <= i < r@.len() ==> {
                &&& r@[i] < MODULUS
                &&& values@[i] % MODULUS == 0 ==> r@[i] == 0
                &&& values@[i] % MODULUS != 0 ==> (values@[i] * r@[i]) % (MODULUS as int) == 1
            },
{
    let elements: Vec<miden_core::Felt> =
        values.iter().map(|v| miden_core::Felt::new(*v)).collect();
    winter_prover::math::batch_inversion(&elements).iter().map(|e| e.as_int()).collect()
}

impl Felt {
    #[verifier::type_invariant]
    spec fn canonical(self) -> bool {
        self.value < MODULUS
    }

    /// The element that `value` stands for.
    pub fn new(value: u64) -> (r: Felt)
        ensures
            r == felt(value as int),
            value < MODULUS ==> r@ == value,
    {
        proof {
            if value < MODULUS {
                lemma_small_mod(value as nat, MODULUS as nat);
            }
        }
        Felt { value: reduce(value) }
    }

    /// The integer below the order of the field that stands for this element.
    pub fn as_int(self) -> (r: u64)
        ensures
            r == self@,
            r < MODULUS,
            felt(r as int) == self,
    {
        proof {
            use_type_invariant(self);
            lemma_felt_of_view(self);
        }
        self.value
    }

    /// The element zero.
    pub fn zero() -> (r: Felt)
        ensures
            r == felt(0),
            r@ == 0,
    {
        Felt { value: 0 }
    }

    /// The element one.
    pub fn one() -> (r: Felt)
        ensures
            r == felt(1),
            r@ == 1,
    {
        Felt { value: 1 }
    }

    /// One if `b` holds, zero otherwise.
    pub fn from_bool(b: bool) -> (r: Felt)
        ensures
            r == flag(b),
    {
        if b {
            Felt::one()
        } else {
            Felt::zero()
        }
    }

    /// The sum of two elements.
    pub fn add(self, rhs: Felt) -> (r: Felt)
        ensures
            r == felt(self@ + rhs@),
    {
        Felt { value: sum_mod(self.value, rhs.value) }
    }

    /// The difference of two elements.
    pub fn sub(self, rhs: Felt) -> (r: Felt)
        ensures
            r == felt(self@ - rhs@),
    {
        Felt { value: difference_mod(self.value, rhs.value) }
    }

    /// The product of two elements.
    pub fn mul(self, rhs: Felt) -> (r: Felt)
        ensures
            r == felt(self@ * rhs@),
    {
        Felt { value: product_mod(self.value, rhs.value) }
    }

    /// The multiplicative inverse of the element, and zero for zero.
    pub fn inv(self) -> (r: Felt)
        ensures
            is_inverse(self, r),
            r == inverse_of(self),
    {
        proof {
            use_type_invariant(self);
            lemma_small_mod(self.value as nat, MODULUS as nat);
        }
        let r = Felt { value: inverse_mod(self.value) };
        proof {
            lemma_inverse_of(self, r);
        }
        r
    }
}

/// One if `b` holds, zero otherwise.
pub open spec fn flag(b: bool) -> Felt {
    if b {
        felt(1)
    } else {
        felt(0)
    }
}

/// The inverses of all elements of a column; zeros stay zeros.
pub fn invert_all(column: &Vec<Felt>) -> (r: Vec<Felt>)
    ensures
        r@.len() == column@.len(),
        forall|i: int| 0 <= i < r@.len() ==> is_inverse(column@[i], #[trigger] r@[i]),
{
    let mut values: Vec<u64> = Vec::new();
    for i in 0..column.len()
        invariant
            values@.len() == i,
            forall|j: int| 0 <= j < i ==> values@[j] == column@[j]@ && values@[j] < MODULUS,
    {
        values.push(column[i].as_int());
    }
    let inverted = inverses_mod(&values);
    let mut r: Vec<Felt> = Vec::new();
    for i in 0..inverted.len()
        invariant
            inverted@.len() == column@.len(),
            values@.len() == column@.len(),
            r@.len() == i,
            forall|j: int|
                0 <= j < values@.len() ==> values@[j] == column@[j]@ && #[trigger] values@[j]
                    < MODULUS,
            forall|j: int|
                #![trigger inverted@[j]]
                0 <= j < inverted@.len() ==> {
                    &&& inverted@[j] < MODULUS
                    &&& values@[j] % MODULUS == 0 ==> inverted@[j] == 0
                    &&& values@[j] % MODULUS != 0 ==> (values@[j] * inverted@[j]) % (
                    MODULUS as int) == 1
                },
            forall|j: int| 0 <= j < i ==> is_inverse(column@[j], #[trigger] r@[j]),
    {
        let v: u64 = inverted[i];
        let e = Felt::new(v);
        proof {
            assert(values@[i as int] < MODULUS);
            lemma_small_mod(values@[i as int] as nat, MODULUS as nat);
            assert(e@ == v);
        }
        r.push(e);
    }
    r
}

} // verus!
