//! What the inner values of the field stand for.

use crate::felt::felt;
use crate::felt::lemma_felt_of_view;
use crate::felt::lemma_felt_remainder;
use crate::felt::lemma_felt_view;
use crate::felt::Felt;
use crate::felt::MODULUS;
use crate::quad_felt::can_multiply;
use crate::quad_felt::can_sum;
use crate::quad_felt::felt_of_inner;
use crate::quad_felt::inner_difference;
use crate::quad_felt::inner_double;
use crate::quad_felt::inner_of;
use crate::quad_felt::inner_product;
use crate::quad_felt::inner_sum;
use crate::quad_felt::quad_difference;
use crate::quad_felt::quad_felt;
use crate::quad_felt::quad_product;
use crate::quad_felt::quad_sum;
use crate::quad_felt::QuadFelt;
use crate::quad_felt::INNER_FACTOR;
use crate::quad_felt::INNER_FACTOR_INV;
use crate::quad_felt::MODULUS_INV;
use vstd::arithmetic::div_mod::lemma_div_multiples_vanish;
use vstd::arithmetic::div_mod::lemma_fundamental_div_mod;
use vstd::arithmetic::div_mod::lemma_mod_bound;
use vstd::arithmetic::div_mod::lemma_mod_multiples_vanish;
use vstd::arithmetic::div_mod::lemma_small_mod;
use vstd::prelude::*;

verus! {

/// Integers that differ by a multiple of the order stand for the same element.
proof fn lemma_congruent(i: int, j: int, k: int)
    requires
        i == j + k * MODULUS,
    ensures
        felt(i) == felt(j),
{
    lemma_mod_multiples_vanish(k, j, MODULUS as int);
    assert(MODULUS * k + j == i) by (nonlinear_arith)
        requires
            i == j + k * MODULUS,
    ;
    lemma_felt_remainder(i);
    lemma_felt_remainder(j);
}

/// The integer of the element that an inner value stands for, and the multiple of the order that
/// it leaves.
proof fn lemma_value(x: int) -> (k: int)
    ensures
        x * INNER_FACTOR_INV == felt_of_inner(x)@ + k * MODULUS,
        0 <= felt_of_inner(x)@ < MODULUS,
{
    let i = x * INNER_FACTOR_INV;
    lemma_felt_view(i);
    lemma_fundamental_div_mod(i, MODULUS as int);
    assert(MODULUS * (i / (MODULUS as int)) == (i / (MODULUS as int)) * MODULUS)
        by (nonlinear_arith);
    i / (MODULUS as int)
}

/// The integer of an element, and the multiple of the order by which it differs.
proof fn lemma_felt_value(i: int) -> (k: int)
    ensures
        felt(i)@ == i + k * MODULUS,
{
    lemma_felt_view(i);
    lemma_fundamental_div_mod(i, MODULUS as int);
    let q = i / (MODULUS as int);
    assert(MODULUS * q == -((-q) * MODULUS)) by (nonlinear_arith);
    -q
}

/// The inner value of an element stands for that element.
pub proof fn law_inner_value_stands_for_element(v: int)
    ensures
        felt_of_inner(inner_of(v)) == felt(v),
        0 <= inner_of(v) < MODULUS,
{
    let p = MODULUS as int;
    let x = inner_of(v);
    lemma_mod_bound(v * INNER_FACTOR, p);
    lemma_fundamental_div_mod(v * INNER_FACTOR, p);
    let q = (v * INNER_FACTOR) / p;
    assert(x * INNER_FACTOR_INV == v + (0xffff_fffe_ffff_ffff * v - q * INNER_FACTOR_INV) * p)
        by (nonlinear_arith)
        requires
            v * INNER_FACTOR == p * q + x,
            p == MODULUS,
    ;
    lemma_congruent(x * INNER_FACTOR_INV, v, 0xffff_fffe_ffff_ffff * v - q * INNER_FACTOR_INV);
}

/// The sum of inner values fits into 64 bits and stands for the sum of the elements. It is below
/// the order if both are.
pub proof fn law_inner_sum(x: u64, y: u64)
    requires
        y <= MODULUS,
    ensures
        0 <= inner_sum(x as int, y as int) <= u64::MAX,
        x < MODULUS && y < MODULUS ==> inner_sum(x as int, y as int) < MODULUS,
        felt_of_inner(inner_sum(x as int, y as int)) == felt(
            felt_of_inner(x as int)@ + felt_of_inner(y as int)@,
        ),
{
    let (k, l) = (lemma_value(x as int), lemma_value(y as int));
    let s = inner_sum(x as int, y as int);
    let e: int = if s == x + y {
        0
    } else {
        1
    };
    assert(s == x + y - e * MODULUS);
    let (a, b) = (felt_of_inner(x as int)@, felt_of_inner(y as int)@);
    let n = k + l - e * INNER_FACTOR_INV;
    assert(s * INNER_FACTOR_INV == a + b + n * MODULUS) by (nonlinear_arith)
        requires
            s == x + y - e * MODULUS,
            x * INNER_FACTOR_INV == a + k * MODULUS,
            y * INNER_FACTOR_INV == b + l * MODULUS,
            n == k + l - e * INNER_FACTOR_INV,
    ;
    lemma_congruent(s * INNER_FACTOR_INV, a + b, n);
}

/// The difference of inner values fits into 64 bits and stands for the difference of the elements,
/// or for one more where the second value is above the first by more than the order.
pub proof fn law_inner_difference(x: u64, y: u64)
    ensures
        0 <= inner_difference(x as int, y as int) <= u64::MAX,
        x < MODULUS && y <= MODULUS ==> inner_difference(x as int, y as int) < MODULUS,
        felt_of_inner(inner_difference(x as int, y as int)) == felt(
            felt_of_inner(x as int)@ - felt_of_inner(y as int)@ + if x + MODULUS < y {
                1int
            } else {
                0int
            },
        ),
{
    let (k, l) = (lemma_value(x as int), lemma_value(y as int));
    let d = inner_difference(x as int, y as int);
    let e: int = if x >= y {
        0
    } else {
        1
    };
    let w: int = if x + MODULUS < y {
        1
    } else {
        0
    };
    if x < y {
        let i = x - y + MODULUS;
        if w == 1 {
            lemma_mod_multiples_vanish(1, i, INNER_FACTOR as int);
            lemma_small_mod((i + INNER_FACTOR) as nat, INNER_FACTOR as nat);
        } else {
            lemma_small_mod(i as nat, INNER_FACTOR as nat);
        }
    }
    assert(d == x - y + e * MODULUS + w * INNER_FACTOR);
    let (a, b) = (felt_of_inner(x as int)@, felt_of_inner(y as int)@);
    let n = k - l + e * INNER_FACTOR_INV + w * 0xffff_fffe_ffff_ffff;
    assert(d * INNER_FACTOR_INV == a - b + w + n * MODULUS) by (nonlinear_arith)
        requires
            d == x - y + e * MODULUS + w * INNER_FACTOR,
            x * INNER_FACTOR_INV == a + k * MODULUS,
            y * INNER_FACTOR_INV == b + l * MODULUS,
            n == k - l + e * INNER_FACTOR_INV + w * 0xffff_fffe_ffff_ffff,
    ;
    lemma_congruent(d * INNER_FACTOR_INV, a - b + w, n);
}

/// Twice an inner value below the order fits into 64 bits and stands for twice the element. It is
/// below the order only where the order was subtracted.
pub proof fn law_inner_double(x: u64)
    requires
        x < MODULUS,
    ensures
        0 <= inner_double(x as int) <= u64::MAX,
        2 * x <= u64::MAX ==> inner_double(x as int) == 2 * x,
        2 * x > u64::MAX ==> inner_double(x as int) == 2 * x - MODULUS < MODULUS,
        felt_of_inner(inner_double(x as int)) == felt(2 * felt_of_inner(x as int)@),
{
    let k = lemma_value(x as int);
    let d = inner_double(x as int);
    let e: int = if 2 * x < INNER_FACTOR {
        0
    } else {
        1
    };
    if e == 1 {
        lemma_small_mod((2 * x - MODULUS) as nat, INNER_FACTOR as nat);
    }
    assert(d == 2 * x - e * MODULUS);
    let a = felt_of_inner(x as int)@;
    let n = 2 * k - e * INNER_FACTOR_INV;
    assert(d * INNER_FACTOR_INV == 2 * a + n * MODULUS) by (nonlinear_arith)
        requires
            d == 2 * x - e * MODULUS,
            x * INNER_FACTOR_INV == a + k * MODULUS,
            n == 2 * k - e * INNER_FACTOR_INV,
    ;
    lemma_congruent(d * INNER_FACTOR_INV, 2 * a, n);
}

/// The product of inner values fits into 64 bits and stands for the product of the elements. It is
/// below the order if one of the values is not above it.
pub proof fn law_inner_product(x: u64, y: u64)
    ensures
        0 <= inner_product(x as int, y as int) <= u64::MAX,
        x <= MODULUS || y <= MODULUS ==> inner_product(x as int, y as int) < MODULUS,
        felt_of_inner(inner_product(x as int, y as int)) == felt(
            felt_of_inner(x as int)@ * felt_of_inner(y as int)@,
        ),
{
    let (f, p) = (INNER_FACTOR as int, MODULUS as int);
    let xy = x * y;
    let i = xy * MODULUS_INV;
    let w = i / f;
    let rest = i % f;
    lemma_fundamental_div_mod(i, f);
    lemma_mod_bound(i, f);
    let multiple = rest * p;
    let quotient = w * p - 0x1_0000_0000 * xy;
    assert(xy - multiple == quotient * f) by (nonlinear_arith)
        requires
            multiple == rest * p,
            i == xy * MODULUS_INV,
            i == f * w + rest,
            quotient == w * p - 0x1_0000_0000 * xy,
            f == INNER_FACTOR,
            p == MODULUS,
    ;
    lemma_div_multiples_vanish(quotient, f);
    assert(f * quotient == quotient * f) by (nonlinear_arith);
    assert((xy - multiple) / f == quotient);
    let r = inner_product(x as int, y as int);
    let e: int = if quotient < 0 {
        1
    } else {
        0
    };
    assert(r == quotient + e * p);
    assert(quotient > -p) by (nonlinear_arith)
        requires
            xy - multiple == quotient * f,
            multiple == rest * p,
            0 <= rest < f,
            0 <= xy,
            p > 0,
            f > 0,
    ;
    assert(0 <= xy && xy <= u64::MAX * u64::MAX) by (nonlinear_arith)
        requires
            xy == x * y,
    ;
    assert(quotient < f) by (nonlinear_arith)
        requires
            xy - multiple == quotient * f,
            multiple == rest * p,
            0 <= rest,
            0 < p,
            xy <= u64::MAX * u64::MAX,
            f == INNER_FACTOR,
    ;
    if x <= MODULUS || y <= MODULUS {
        assert(xy <= MODULUS * u64::MAX) by (nonlinear_arith)
            requires
                xy == x * y,
                x <= MODULUS || y <= MODULUS,
        ;
        assert(quotient < p) by (nonlinear_arith)
            requires
                xy - multiple == quotient * f,
                multiple == rest * p,
                0 <= rest,
                0 < p,
                p == MODULUS,
                xy <= MODULUS * u64::MAX,
                f == INNER_FACTOR,
        ;
    }
    lemma_product_value(x as int, y as int, r, e * f - rest);
}

proof fn lemma_expanded(a: int, k: int, b: int, l: int, p: int)
    ensures
        (a + k * p) * (b + l * p) == a * b + (a * l + k * b + k * l * p) * p,
{
    let (c, d) = (k * p, l * p);
    assert((a + c) * (b + d) == a * b + a * d + c * b + c * d) by (nonlinear_arith);
    assert(a * d == (a * l) * p) by (nonlinear_arith)
        requires
            d == l * p,
    ;
    assert(c * b == (k * b) * p) by (nonlinear_arith)
        requires
            c == k * p,
    ;
    assert(c * d == (k * l * p) * p) by (nonlinear_arith)
        requires
            c == k * p,
            d == l * p,
    ;
    let (f, g, h) = (a * l, k * b, k * l * p);
    assert((f + g + h) * p == f * p + g * p + h * p) by (nonlinear_arith);
}

proof fn lemma_scaled(a: int, n: int, g: int, v: int, p: int)
    ensures
        ((a + n * p) * v - g * p) * v == a * v * v + (n * v * v - g * v) * p,
{
    let (b, c, d) = (a * v, n * v, g * p);
    assert((a + n * p) * v == b + c * p) by (nonlinear_arith)
        requires
            b == a * v,
            c == n * v,
    ;
    assert((b + c * p - d) * v == b * v + (c * v) * p - d * v) by (nonlinear_arith);
    assert(d * v == (g * v) * p) by (nonlinear_arith)
        requires
            d == g * p,
    ;
    let (e, f) = (c * v, g * v);
    assert((e - f) * p == e * p - f * p) by (nonlinear_arith);
}

/// A value that differs by a multiple of the order from the product of two inner values, once
/// multiplied by 2^64, stands for the product.
proof fn lemma_product_value(x: int, y: int, r: int, n: int)
    requires
        r * INNER_FACTOR == x * y + n * MODULUS,
    ensures
        felt_of_inner(r) == felt(felt_of_inner(x)@ * felt_of_inner(y)@),
{
    let p = MODULUS as int;
    let v = INNER_FACTOR_INV as int;
    let (k, l) = (lemma_value(x), lemma_value(y));
    let (a, b) = (felt_of_inner(x)@ as int, felt_of_inner(y)@ as int);
    let t: int = 0xffff_fffe_ffff_ffff;
    // r is (x * y + n * p) * v - r * t * p
    assert(r == (x * y + n * p) * v - r * t * p) by (nonlinear_arith)
        requires
            r * INNER_FACTOR == x * y + n * p,
            p == MODULUS,
            v == INNER_FACTOR_INV,
            t == 0xffff_fffe_ffff_ffff,
    ;
    let (xv, yv) = (x * v, y * v);
    let (xy, g) = (x * y, r * t);
    let m = n * v * v - g * v;
    lemma_scaled(xy, n, g, v, p);
    assert(xy * v * v == xv * yv) by (nonlinear_arith)
        requires
            xy == x * y,
            xv == x * v,
            yv == y * v,
    ;
    let o = a * l + k * b + k * l * p;
    lemma_expanded(a, k, b, l, p);
    assert((o + m) * p == o * p + m * p) by (nonlinear_arith);
    lemma_congruent(r * v, a * b, o + m);
}

/// Whether the inner values of both coefficients are below the order, as they are in an element
/// that is made of two coefficients.
pub open spec fn reduced(a: QuadFelt) -> bool {
    a.inner0 < MODULUS && a.inner1 < MODULUS
}

/// An element that is made of two coefficients has these coefficients, and is reduced.
pub proof fn law_coefficients(c0: Felt, c1: Felt)
    requires
        c0@ < MODULUS,
        c1@ < MODULUS,
    ensures
        reduced(quad_felt(c0, c1)),
        quad_felt(c0, c1).coefficient(0) == c0,
        quad_felt(c0, c1).coefficient(1) == c1,
{
    law_inner_value_stands_for_element(c0@ as int);
    law_inner_value_stands_for_element(c1@ as int);
    lemma_felt_of_view(c0);
    lemma_felt_of_view(c1);
}

/// The sum of reduced elements can be taken, is reduced, and has the sums of the coefficients.
pub proof fn law_quad_sum(a: QuadFelt, b: QuadFelt)
    requires
        reduced(a),
        reduced(b),
    ensures
        can_sum(a, b),
        reduced(quad_sum(a, b)),
        quad_sum(a, b).coefficient(0) == felt(a.coefficient(0)@ + b.coefficient(0)@),
        quad_sum(a, b).coefficient(1) == felt(a.coefficient(1)@ + b.coefficient(1)@),
{
    law_inner_sum(a.inner0, b.inner0);
    law_inner_sum(a.inner1, b.inner1);
}

/// The difference of reduced elements is reduced, and has the differences of the coefficients.
pub proof fn law_quad_difference(a: QuadFelt, b: QuadFelt)
    requires
        reduced(a),
        reduced(b),
    ensures
        reduced(quad_difference(a, b)),
        quad_difference(a, b).coefficient(0) == felt(a.coefficient(0)@ - b.coefficient(0)@),
        quad_difference(a, b).coefficient(1) == felt(a.coefficient(1)@ - b.coefficient(1)@),
{
    law_inner_difference(a.inner0, b.inner0);
    law_inner_difference(a.inner1, b.inner1);
}

/// Whether the low coefficient of a product comes out as one more than it is: twice the inner value
/// of the product of the high coefficients fits into 64 bits and is above that of the product of
/// the low ones by more than the order.
pub open spec fn one_more(a: QuadFelt, b: QuadFelt) -> bool {
    let low = inner_product(a.inner0 as int, b.inner0 as int);
    let twice = 2 * inner_product(a.inner1 as int, b.inner1 as int);
    low + MODULUS < twice <= u64::MAX
}

/// The product of reduced elements can be taken, and has the coefficients of the product of the
/// polynomials modulo `phi^2 - phi + 2`, but for a low coefficient that comes out as one more; and
/// if and only if it does, the product is not reduced.
pub proof fn law_quad_product(a: QuadFelt, b: QuadFelt)
    requires
        reduced(a),
        reduced(b),
    ensures
        can_multiply(a, b),
        reduced(quad_product(a, b)) <==> !one_more(a, b),
        quad_product(a, b).inner1 < MODULUS,
        ({
            let (a0, a1) = (a.coefficient(0)@, a.coefficient(1)@);
            let (b0, b1) = (b.coefficient(0)@, b.coefficient(1)@);
            &&& quad_product(a, b).coefficient(0) == felt(
                a0 * b0 - 2 * (a1 * b1) + if one_more(a, b) {
                    1int
                } else {
                    0int
                },
            )
            &&& quad_product(a, b).coefficient(1) == felt(a0 * b1 + a1 * b0 + a1 * b1)
        }),
{
    let (a0, a1) = (a.coefficient(0)@ as int, a.coefficient(1)@ as int);
    let (b0, b1) = (b.coefficient(0)@ as int, b.coefficient(1)@ as int);
    law_inner_product(a.inner0, b.inner0);
    law_inner_product(a.inner1, b.inner1);
    let low = inner_product(a.inner0 as int, b.inner0 as int);
    let high = inner_product(a.inner1 as int, b.inner1 as int);
    law_inner_double(high as u64);
    let twice = inner_double(high);
    law_inner_difference(low as u64, twice as u64);
    let w: int = if one_more(a, b) {
        1
    } else {
        0
    };
    assert(w == 1 <==> low + MODULUS < twice);
    assert(w == 1 ==> inner_difference(low, twice) >= MODULUS) by {
        if w == 1 {
            let i = low - twice + MODULUS;
            lemma_mod_multiples_vanish(1, i, INNER_FACTOR as int);
            lemma_small_mod((i + INNER_FACTOR) as nat, INNER_FACTOR as nat);
        }
    }
    assert(w == 0 ==> inner_difference(low, twice) < MODULUS) by {
        if low < twice && w == 0 {
            lemma_small_mod((low - twice + MODULUS) as nat, INNER_FACTOR as nat);
        }
    }
    let k = lemma_felt_value(a0 * b0);
    let l = lemma_felt_value(a1 * b1);
    let m = lemma_felt_value(2 * felt(a1 * b1)@);
    assert(felt(a0 * b0)@ - felt(2 * felt(a1 * b1)@)@ + w == a0 * b0 - 2 * (a1 * b1) + w + (k - 2
        * l - m) * MODULUS) by (nonlinear_arith)
        requires
            felt(a0 * b0)@ == a0 * b0 + k * MODULUS,
            felt(a1 * b1)@ == a1 * b1 + l * MODULUS,
            felt(2 * felt(a1 * b1)@)@ == 2 * felt(a1 * b1)@ + m * MODULUS,
    ;
    lemma_congruent(
        felt(a0 * b0)@ - felt(2 * felt(a1 * b1)@)@ + w,
        a0 * b0 - 2 * (a1 * b1) + w,
        k - 2 * l - m,
    );
    law_inner_sum(a.inner0, a.inner1);
    law_inner_sum(b.inner0, b.inner1);
    let (s, t) = (
        inner_sum(a.inner0 as int, a.inner1 as int),
        inner_sum(b.inner0 as int, b.inner1 as int),
    );
    law_inner_product(s as u64, t as u64);
    let all = inner_product(s, t);
    law_inner_difference(all as u64, low as u64);
    let (x, y) = (felt(a0 + a1)@ as int, felt(b0 + b1)@ as int);
    let e = lemma_felt_value(a0 + a1);
    let f = lemma_felt_value(b0 + b1);
    let g = lemma_felt_value(x * y);
    let (sum_a, sum_b) = (a0 + a1, b0 + b1);
    lemma_expanded(sum_a, e, sum_b, f, MODULUS as int);
    let h = sum_a * f + e * sum_b + e * f * MODULUS;
    assert(x * y == sum_a * sum_b + h * MODULUS);
    assert(sum_a * sum_b == a0 * b0 + a0 * b1 + a1 * b0 + a1 * b1) by (nonlinear_arith)
        requires
            sum_a == a0 + a1,
            sum_b == b0 + b1,
    ;
    assert(h * MODULUS + g * MODULUS - k * MODULUS == (h + g - k) * MODULUS) by (nonlinear_arith);
    lemma_congruent(
        felt(x * y)@ - felt(a0 * b0)@,
        a0 * b1 + a1 * b0 + a1 * b1,
        h + g - k,
    );
}

} // verus!
