//! Elements of the quadratic extension, and their inner values.

use miden_core::FieldElement;
use miden_trace::felt::{Felt, MODULUS};
use miden_trace::quad_felt::QuadFelt;

#[test]
fn extension_arithmetic() {
    let a = QuadFelt::new(Felt::new(3), Felt::new(5));
    let b = QuadFelt::new(Felt::new(7), Felt::new(11));
    assert_eq!(a.add(b), QuadFelt::new(Felt::new(10), Felt::new(16)));
    assert_eq!(b.sub(a), QuadFelt::new(Felt::new(4), Felt::new(6)));
    // 21 - 2 * 55 == -89 and 33 + 35 + 55 == 123
    assert_eq!(a.mul(b), QuadFelt::new(Felt::new(MODULUS - 89), Felt::new(123)));
}

#[test]
fn coefficients_come_back() {
    let a = QuadFelt::new(Felt::new(MODULUS - 1), Felt::new(5));
    assert_eq!(a.base_element(0), Felt::new(MODULUS - 1));
    assert_eq!(a.base_element(1), Felt::new(5));
    // the inner value of one is 2^64 modulo the order of the field
    let one = QuadFelt::new(Felt::one(), Felt::zero());
    assert_eq!(one, QuadFelt { inner0: 0xffff_ffff, inner1: 0 });
    // an inner value above the order stands for an element, too
    assert_eq!(QuadFelt { inner0: MODULUS, inner1: u64::MAX }.base_element(0), Felt::zero());
    let above = QuadFelt { inner0: 0xffff_ffff, inner1: MODULUS + 7 };
    let below = QuadFelt { inner0: 0xffff_ffff, inner1: 7 };
    assert_eq!(above.base_element(1), below.base_element(1));
    assert_ne!(above, below);
}

/// A product whose low coefficient, -2 * 9223372039002259457 == 18446744060824649728 in the field,
/// comes out as one more, with an inner value above the order.
fn unreduced() -> QuadFelt {
    let a = QuadFelt::new(Felt::zero(), Felt::one());
    a.mul(QuadFelt::new(Felt::zero(), Felt::new(9223372039002259457)))
}

#[test]
fn products_may_leave_inner_values_above_the_order() {
    let product = unreduced();
    assert_eq!(product.inner0, 18446744069414584323);
    assert!(product.inner0 > MODULUS);
    assert_eq!(product.base_element(0).as_int(), 18446744060824649729);
    assert_eq!(product.base_element(1).as_int(), 9223372039002259457);
}

#[test]
fn later_operations_see_unreduced_values() {
    let product = unreduced();
    let same = QuadFelt::new(product.base_element(0), product.base_element(1));
    assert_ne!(product, same);
    // the difference of the two is zero, but not the element zero
    let zero = QuadFelt::new(Felt::zero(), Felt::zero());
    assert_eq!(product.sub(same), QuadFelt { inner0: MODULUS, inner1: 0 });
    assert_eq!(same.sub(product), zero);
    assert_eq!(product.add(zero), same);
    assert_eq!(product.sub(zero), product);
}

fn outside(a: QuadFelt) -> miden_core::QuadFelt {
    miden_core::QuadFelt::new(
        miden_core::Felt::from_mont(a.inner0),
        miden_core::Felt::from_mont(a.inner1),
    )
}

fn inner(a: miden_core::QuadFelt) -> (u64, u64) {
    (a.base_element(0).inner(), a.base_element(1).inner())
}

fn sum(x: u64, y: u64) -> u64 {
    let s = x as u128 + y as u128;
    (if s < MODULUS as u128 { s } else { s - MODULUS as u128 }) as u64
}

fn difference(x: u64, y: u64) -> u64 {
    if x >= y {
        x - y
    } else {
        (x as i128 - y as i128 + MODULUS as i128).rem_euclid(1 << 64) as u64
    }
}

fn double(x: u64) -> u64 {
    let d = 2 * x as u128;
    (if d < 1 << 64 { d } else { (d - MODULUS as u128) % (1 << 64) }) as u64
}

fn product(x: u64, y: u64) -> u64 {
    let xy = x as u128 * y as u128;
    let multiple = (xy as u64).wrapping_mul(0x1_0000_0001) as u128 * MODULUS as u128;
    if xy >= multiple {
        ((xy - multiple) >> 64) as u64
    } else {
        MODULUS - ((multiple - xy) >> 64) as u64
    }
}

/// Values all over the range, and close to zero, to the order and to 2^64.
fn values() -> Vec<u64> {
    let mut values = Vec::new();
    for i in 0..3 {
        values.extend([i, MODULUS - i, MODULUS + i, u64::MAX - i, 0xffff_fffe + i]);
        values.extend([0x8000_0000_0000_0000 + i, 0x8000_0000_0000_0000 - i]);
    }
    let mut seed: u64 = 1;
    for _ in 0..12 {
        seed = seed.wrapping_mul(6364136223846793005).wrapping_add(1442695040888963407);
        values.push(seed);
    }
    values
}

#[test]
fn inner_values_are_those_of_the_field() {
    let values = values();
    for (i, &a0) in values.iter().enumerate() {
        for (j, &b0) in values.iter().enumerate() {
            let a1 = values[(7 * i + 3 * j + 1) % values.len()];
            let b1 = values[(5 * i + 11 * j + 2) % values.len()];
            let a = QuadFelt { inner0: a0, inner1: a1 };
            let b = QuadFelt { inner0: b0, inner1: b1 };
            let d = a.sub(b);
            assert_eq!((d.inner0, d.inner1), inner(outside(a) - outside(b)));
            assert_eq!((d.inner0, d.inner1), (difference(a0, b0), difference(a1, b1)));
            if b0 <= MODULUS && b1 <= MODULUS {
                let s = a.add(b);
                assert_eq!((s.inner0, s.inner1), inner(outside(a) + outside(b)));
                assert_eq!((s.inner0, s.inner1), (sum(a0, b0), sum(a1, b1)));
            }
            if a1 <= MODULUS && b1 <= MODULUS {
                let p = a.mul(b);
                assert_eq!((p.inner0, p.inner1), inner(outside(a) * outside(b)));
                let low = product(a0, b0);
                assert_eq!(p.inner0, difference(low, double(product(a1, b1))));
                assert_eq!(p.inner1, difference(product(sum(a0, a1), sum(b0, b1)), low));
            }
        }
    }
}
