use miden_trace::felt::{invert_all, Felt, MODULUS};

#[test]
fn arithmetic_is_modular() {
    let p_minus_one = Felt::new(MODULUS - 1);
    assert_eq!(Felt::new(MODULUS), Felt::zero());
    assert_eq!(p_minus_one.add(Felt::new(2)), Felt::one());
    assert_eq!(Felt::zero().sub(Felt::one()), p_minus_one);
    assert_eq!(p_minus_one.mul(p_minus_one), Felt::one());
    assert_eq!(Felt::new(2).inv().as_int(), 9223372034707292161);
    assert_eq!(Felt::zero().inv(), Felt::zero());
}

#[test]
fn inverting_a_column_keeps_zeros() {
    let column = vec![Felt::zero(), Felt::new(2), Felt::one()];
    let inverted = invert_all(&column);
    assert_eq!(inverted, vec![Felt::zero(), Felt::new(9223372034707292161), Felt::one()]);
}
