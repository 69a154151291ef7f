//! Helper registers as the trace shows them.

use crate::felt::felt;
use crate::felt::inverse_of;
use crate::felt::is_inverse;
use crate::felt::lemma_felt_small;
use crate::felt::Felt;
use crate::processor::OperationHelperRegisters;
use crate::quad_felt::QuadFelt;
use crate::utils::split_u32_into_u16;
use vstd::prelude::*;

verus! {

/// The `i`th 16-bit limb of an element, the least significant one first.
pub open spec fn limb(e: Felt, i: int) -> Felt {
    if i == 0 {
        felt(e@ as int % 0x1_0000)
    } else {
        felt(e@ as int / 0x1_0000)
    }
}

/// The limbs of two 32-bit values, the lower value first, and two more values.
pub open spec fn limbs_and(lo: Felt, hi: Felt, h4: Felt, h5: Felt) -> Seq<Felt> {
    seq![limb(lo, 0), limb(lo, 1), limb(hi, 0), limb(hi, 1), h4, h5]
}

/// A value that shows that the upper 32 bits are not all set: the inverse of their distance from
/// 2^32 - 1, and zero if there is none.
pub open spec fn validity_helper(hi: Felt) -> Felt {
    inverse_of(felt(u32::MAX - hi@))
}

/// One value, and zeros.
pub open spec fn single_helper(h0: Felt) -> Seq<Felt> {
    seq![h0, felt(0), felt(0), felt(0), felt(0), felt(0)]
}

/// Computes the helper registers that the trace shows.
pub struct TraceGenerationHelpers;

fn limbs(e: Felt) -> (r: (Felt, Felt))
    requires
        e@ <= u32::MAX,
    ensures
        r == (limb(e, 0), limb(e, 1)),
{
    let (hi, lo) = split_u32_into_u16(e.as_int());
    (Felt::new(lo as u64), Felt::new(hi as u64))
}

fn validity(hi: Felt) -> (r: Felt)
    requires
        hi@ <= u32::MAX,
    ensures
        r == validity_helper(hi),
        is_inverse(felt(u32::MAX - hi@), r),
{
    Felt::new(u32::MAX as u64).sub(hi).inv()
}

fn with_zeros(h0: Felt) -> (r: [Felt; 6])
    ensures
        r@ == single_helper(h0),
{
    [h0, Felt::zero(), Felt::zero(), Felt::zero(), Felt::zero(), Felt::zero()]
}

impl OperationHelperRegisters for TraceGenerationHelpers {
    /// The inverse of the difference of the elements, and zero if they are equal.
    open spec fn eq_helpers(stack_second: Felt, stack_first: Felt) -> Seq<Felt> {
        single_helper(
            if stack_second == stack_first {
                felt(0)
            } else {
                inverse_of(felt(stack_first@ - stack_second@))
            },
        )
    }

    open spec fn u32split_helpers(hi: Felt, lo: Felt) -> Seq<Felt> {
        limbs_and(lo, hi, validity_helper(hi), felt(0))
    }

    /// The inverse of the element, and zero if it is zero.
    open spec fn eqz_helpers(top: Felt) -> Seq<Felt> {
        single_helper(
            if top == felt(0) {
                felt(0)
            } else {
                inverse_of(top)
            },
        )
    }

    open spec fn expacc_helpers(acc_update_val: Felt) -> Seq<Felt> {
        single_helper(acc_update_val)
    }

    open spec fn fri_ext2fold4_helpers(ev: QuadFelt, es: QuadFelt, x: Felt, x_inv: Felt) -> Seq<
        Felt,
    > {
        seq![
            ev.coefficient(0),
            ev.coefficient(1),
            es.coefficient(0),
            es.coefficient(1),
            x,
            x_inv,
        ]
    }

    open spec fn u32add_helpers(hi: Felt, lo: Felt) -> Seq<Felt> {
        limbs_and(lo, hi, felt(0), felt(0))
    }

    open spec fn u32add3_helpers(hi: Felt, lo: Felt) -> Seq<Felt> {
        limbs_and(lo, hi, felt(0), felt(0))
    }

    open spec fn u32sub_helpers(second_new: Felt) -> Seq<Felt> {
        seq![limb(second_new, 0), limb(second_new, 1), felt(0), felt(0), felt(0), felt(0)]
    }

    open spec fn u32mul_helpers(hi: Felt, lo: Felt) -> Seq<Felt> {
        limbs_and(lo, hi, validity_helper(hi), felt(0))
    }

    open spec fn u32madd_helpers(hi: Felt, lo: Felt) -> Seq<Felt> {
        limbs_and(lo, hi, validity_helper(hi), felt(0))
    }

    open spec fn u32div_helpers(hi: Felt, lo: Felt) -> Seq<Felt> {
        limbs_and(lo, hi, felt(0), felt(0))
    }

    open spec fn u32assert2_helpers(first: Felt, second: Felt) -> Seq<Felt> {
        limbs_and(second, first, felt(0), felt(0))
    }

    open spec fn hperm_helpers(addr: Felt) -> Seq<Felt> {
        single_helper(addr)
    }

    open spec fn merkle_path_helpers(addr: Felt) -> Seq<Felt> {
        single_helper(addr)
    }

    open spec fn horner_eval_helpers(alpha: QuadFelt, k0: Felt, k1: Felt, acc_tmp: QuadFelt) -> Seq<
        Felt,
    > {
        seq![
            alpha.coefficient(0),
            alpha.coefficient(1),
            k0,
            k1,
            acc_tmp.coefficient(0),
            acc_tmp.coefficient(1),
        ]
    }

    fn op_eq_registers(stack_second: Felt, stack_first: Felt) -> (r: [Felt; 6])
        ensures
            is_inverse(felt(stack_first@ - stack_second@), r@[0]),
    {
        broadcast use lemma_felt_small;

        let h0 = if stack_second == stack_first {
            Felt::zero()
        } else {
            stack_first.sub(stack_second).inv()
        };
        with_zeros(h0)
    }

    fn op_u32split_registers(hi: Felt, lo: Felt) -> (r: [Felt; 6])
        ensures
            is_inverse(felt(u32::MAX - hi@), r@[4]),
    {
        let (t0, t1) = limbs(lo);
        let (t2, t3) = limbs(hi);
        [t0, t1, t2, t3, validity(hi), Felt::zero()]
    }

    fn op_eqz_registers(top: Felt) -> (r: [Felt; 6])
        ensures
            is_inverse(top, r@[0]),
    {
        let h0 = if top == Felt::zero() {
            Felt::zero()
        } else {
            top.inv()
        };
        with_zeros(h0)
    }

    fn op_expacc_registers(acc_update_val: Felt) -> [Felt; 6] {
        with_zeros(acc_update_val)
    }

    fn op_fri_ext2fold4_registers(ev: QuadFelt, es: QuadFelt, x: Felt, x_inv: Felt) -> [Felt; 6] {
        [
            ev.base_element(0),
            ev.base_element(1),
            es.base_element(0),
            es.base_element(1),
            x,
            x_inv,
        ]
    }

    fn op_u32add_registers(hi: Felt, lo: Felt) -> [Felt; 6] {
        let (t0, t1) = limbs(lo);
        let (t2, t3) = limbs(hi);
        [t0, t1, t2, t3, Felt::zero(), Felt::zero()]
    }

    fn op_u32add3_registers(hi: Felt, lo: Felt) -> [Felt; 6] {
        let (t0, t1) = limbs(lo);
        let (t2, t3) = limbs(hi);
        [t0, t1, t2, t3, Felt::zero(), Felt::zero()]
    }

    fn op_u32sub_registers(second_new: Felt) -> [Felt; 6] {
        let (t0, t1) = limbs(second_new);
        [t0, t1, Felt::zero(), Felt::zero(), Felt::zero(), Felt::zero()]
    }

    fn op_u32mul_registers(hi: Felt, lo: Felt) -> (r: [Felt; 6])
        ensures
            is_inverse(felt(u32::MAX - hi@), r@[4]),
    {
        let (t0, t1) = limbs(lo);
        let (t2, t3) = limbs(hi);
        [t0, t1, t2, t3, validity(hi), Felt::zero()]
    }

    fn op_u32madd_registers(hi: Felt, lo: Felt) -> (r: [Felt; 6])
        ensures
            is_inverse(felt(u32::MAX - hi@), r@[4]),
    {
        let (t0, t1) = limbs(lo);
        let (t2, t3) = limbs(hi);
        [t0, t1, t2, t3, validity(hi), Felt::zero()]
    }

    fn op_u32div_registers(hi: Felt, lo: Felt) -> [Felt; 6] {
        let (t0, t1) = limbs(lo);
        let (t2, t3) = limbs(hi);
        [t0, t1, t2, t3, Felt::zero(), Felt::zero()]
    }

    fn op_u32assert2_registers(first: Felt, second: Felt) -> [Felt; 6] {
        let (t0, t1) = limbs(second);
        let (t2, t3) = limbs(first);
        [t0, t1, t2, t3, Felt::zero(), Felt::zero()]
    }

    fn op_hperm_registers(addr: Felt) -> [Felt; 6] {
        with_zeros(addr)
    }

    fn op_merkle_path_registers(addr: Felt) -> [Felt; 6] {
        with_zeros(addr)
    }

    fn op_horner_eval_registers(alpha: QuadFelt, k0: Felt, k1: Felt, acc_tmp: QuadFelt) -> [Felt; 6] {
        [
            alpha.base_element(0),
            alpha.base_element(1),
            k0,
            k1,
            acc_tmp.base_element(0),
            acc_tmp.base_element(1),
        ]
    }
}

} // verus!
