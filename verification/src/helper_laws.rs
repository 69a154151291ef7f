//! What the helper registers of operations show, and what operations on 32-bit values ask to be
//! checked.

use crate::felt::felt;
use crate::felt::is_inverse;
use crate::felt::lemma_felt_small;
use crate::felt::lemma_inverse_of;
use crate::felt::Felt;
use crate::felt::MODULUS;
use crate::helpers::limb;
use crate::helpers::TraceGenerationHelpers;
use crate::layout::MIN_STACK_DEPTH;
use crate::parallel::generator::CoreTraceFragmentGenerator;
use crate::parallel::model::GeneratorModel;
use crate::processor::OperationHelperRegisters;
use crate::processor::Processor;
use crate::processor::StackInterface;
use crate::processor::SystemInterface;
use crate::quad_felt::QuadFelt;
use crate::tracer::TracerEvent;
use crate::u32_laws::law_limbs;
use crate::u32_laws::law_u32div;
use crate::u32_ops::halves_check;
use crate::u32_ops::invalid_operands;
use crate::u32_ops::u32add3_outcome;
use crate::u32_ops::u32add_outcome;
use crate::u32_ops::u32and_outcome;
use crate::u32_ops::u32assert2_outcome;
use crate::u32_ops::u32div_check;
use crate::u32_ops::u32div_outcome;
use crate::u32_ops::u32madd_outcome;
use crate::u32_ops::u32mul_outcome;
use crate::u32_ops::u32split_outcome;
use crate::u32_ops::u32sub_check;
use crate::u32_ops::u32sub_outcome;
use crate::u32_ops::u32xor_outcome;
use crate::u32_ops::valid_operands;
use crate::u32_ops::U32Outcome;
use vstd::prelude::*;

verus! {

/// Whether two registers hold the two 16-bit limbs of a value, the lower one first.
pub open spec fn limbs_at(h: Seq<Felt>, i: int, value: int) -> bool {
    &&& h[i]@ < 0x1_0000
    &&& h[i + 1]@ < 0x1_0000
    &&& h[i]@ + 0x1_0000 * h[i + 1]@ == value
}

/// Whether the registers from one on are zero.
pub open spec fn zero_from(h: Seq<Felt>, i: int) -> bool {
    forall|j: int| i <= j < 6 ==> (#[trigger] h[j])@ == 0
}

/// The registers of the operations on 32-bit values show the limbs of the two results, the lower
/// one first. Those of a split, a product and a product with a sum show moreover the inverse of the
/// distance of the upper result from 2^32 - 1; those of a difference show only its own limbs; those
/// of an assertion show the limbs of the second element, then those of the first.
pub proof fn law_u32_registers(hi: Felt, lo: Felt, inverse: Felt)
    requires
        hi@ <= 0xffff_ffff,
        lo@ <= 0xffff_ffff,
        is_inverse(felt(0xffff_ffff - hi@), inverse),
    ensures
        ({
            let split = TraceGenerationHelpers::u32split_helpers(hi, lo);
            let mul = TraceGenerationHelpers::u32mul_helpers(hi, lo);
            let madd = TraceGenerationHelpers::u32madd_helpers(hi, lo);
            let sum = TraceGenerationHelpers::u32add_helpers(hi, lo);
            let add3 = TraceGenerationHelpers::u32add3_helpers(hi, lo);
            let div = TraceGenerationHelpers::u32div_helpers(hi, lo);
            let difference = TraceGenerationHelpers::u32sub_helpers(lo);
            let both = TraceGenerationHelpers::u32assert2_helpers(hi, lo);
            let checked = |h: Seq<Felt>|
                h.len() == 6 && limbs_at(h, 0, lo@ as int) && limbs_at(h, 2, hi@ as int);
            &&& checked(split) && split[4] == inverse && zero_from(split, 5)
            &&& checked(mul) && mul[4] == inverse && zero_from(mul, 5)
            &&& checked(madd) && madd[4] == inverse && zero_from(madd, 5)
            &&& checked(sum) && zero_from(sum, 4)
            &&& checked(add3) && zero_from(add3, 4)
            &&& checked(div) && zero_from(div, 4)
            &&& checked(both) && zero_from(both, 4)
            &&& difference.len() == 6 && limbs_at(difference, 0, lo@ as int) && zero_from(
                difference,
                2,
            )
        }),
{
    law_limbs(hi);
    law_limbs(lo);
    lemma_felt_small(0);
    lemma_inverse_of(felt(0xffff_ffff - hi@), inverse);
}

/// The register of a comparison shows the inverse of the difference of the two elements, or zero if
/// they are equal; that of a comparison with zero the inverse of the element, or zero. All others
/// are zero.
pub proof fn law_comparison_registers(second: Felt, first: Felt, inverse: Felt, top_inverse: Felt)
    requires
        second@ < MODULUS,
        first@ < MODULUS,
        second == felt(second@ as int),
        first == felt(first@ as int),
        is_inverse(felt(first@ - second@), inverse),
        is_inverse(first, top_inverse),
    ensures
        ({
            let eq = TraceGenerationHelpers::eq_helpers(second, first);
            let eqz = TraceGenerationHelpers::eqz_helpers(first);
            &&& eq.len() == 6
            &&& eq[0]@ == inverse@
            &&& second == first ==> eq[0]@ == 0
            &&& zero_from(eq, 1)
            &&& eqz.len() == 6
            &&& eqz[0]@ == top_inverse@
            &&& first@ == 0 ==> eqz[0]@ == 0
            &&& zero_from(eqz, 1)
        }),
{
    lemma_felt_small(0);
    lemma_inverse_of(felt(first@ - second@), inverse);
    lemma_inverse_of(first, top_inverse);
    if second == first {
        assert(felt(first@ - second@)@ == 0);
    }
}

/// The registers of an exponentiation, of a permutation and of a Merkle path show the one value
/// that they are given, first; those of a folding and of a polynomial evaluation show the
/// coefficients and the elements that they are given, in order.
pub proof fn law_plain_registers(a: QuadFelt, b: QuadFelt, x: Felt, y: Felt)
    ensures
        ({
            let expacc = TraceGenerationHelpers::expacc_helpers(x);
            let hperm = TraceGenerationHelpers::hperm_helpers(x);
            let merkle = TraceGenerationHelpers::merkle_path_helpers(x);
            let fri = TraceGenerationHelpers::fri_ext2fold4_helpers(a, b, x, y);
            let horner = TraceGenerationHelpers::horner_eval_helpers(a, x, y, b);
            &&& expacc.len() == 6 && expacc[0] == x && zero_from(expacc, 1)
            &&& hperm.len() == 6 && hperm[0] == x && zero_from(hperm, 1)
            &&& merkle.len() == 6 && merkle[0] == x && zero_from(merkle, 1)
            &&& fri == seq![
                a.coefficient(0),
                a.coefficient(1),
                b.coefficient(0),
                b.coefficient(1),
                x,
                y,
            ]
            &&& horner == seq![
                a.coefficient(0),
                a.coefficient(1),
                x,
                y,
                b.coefficient(0),
                b.coefficient(1),
            ]
        }),
{
    lemma_felt_small(0);
}

/// The registers that an operation on 32-bit values shows belong to its results: the limbs of the
/// element that comes second, then those of the element that comes first. A difference shows the
/// limbs of itself. A division shows that the quotient does not exceed the dividend and that the
/// remainder is less than the divisor.
pub proof fn law_registers_of_results(items: Seq<Felt>, rest: GeneratorModel, op_idx: int, code: Felt)
    requires
        items.len() == MIN_STACK_DEPTH,
        valid_operands(items, 3),
    ensures
        u32add_outcome::<CoreTraceFragmentGenerator>(items, rest) matches U32Outcome::Done(
            after,
            _,
            h,
        ) && limbs_at(h, 0, after[1]@ as int) && limbs_at(h, 2, after[0]@ as int) && zero_from(h, 4),
        u32add3_outcome::<CoreTraceFragmentGenerator>(items, rest) matches U32Outcome::Done(
            after,
            _,
            h,
        ) && limbs_at(h, 0, after[1]@ as int) && limbs_at(h, 2, after[0]@ as int) && zero_from(h, 4),
        u32sub_outcome::<CoreTraceFragmentGenerator>(items, rest, op_idx) matches U32Outcome::Done(
            after,
            _,
            h,
        ) && limbs_at(h, 0, after[1]@ as int) && zero_from(h, 2),
        u32assert2_outcome::<CoreTraceFragmentGenerator>(items, rest, code) matches U32Outcome::Done(
            _,
            _,
            h,
        ) && limbs_at(h, 0, items[1]@ as int) && limbs_at(h, 2, items[0]@ as int) && zero_from(h, 4),
        items[0]@ != 0 ==> (u32div_outcome::<CoreTraceFragmentGenerator>(items, rest) matches
            U32Outcome::Done(after, _, h) && limbs_at(h, 0, items[1]@ - after[1]@) && limbs_at(
            h,
            2,
            items[0]@ - after[0]@ - 1,
        ) && zero_from(h, 4)),
{
    let (a, b, c) = (items[0]@ as int, items[1]@ as int, items[2]@ as int);
    assert(a <= 0xffff_ffff && b <= 0xffff_ffff && c <= 0xffff_ffff);
    assert(valid_operands(items, 2));
    lemma_felt_small(0);
    lemma_limbs_of(b + a);
    lemma_limbs_of(c + b + a);
    lemma_felt_small((b - a) % 0x1_0000_0000);
    law_limbs(felt((b - a) % 0x1_0000_0000));
    law_limbs(items[0]);
    law_limbs(items[1]);
    if a != 0 {
        law_u32div::<CoreTraceFragmentGenerator>(items, rest);
        let (q, r) = (b / a, b % a);
        assert(0 <= q <= b && 0 <= r < a) by (nonlinear_arith)
            requires
                0 < a,
                0 <= b,
                q == b / a,
                r == b % a,
        ;
        lemma_felt_small(b - q);
        lemma_felt_small(a - r - 1);
        lemma_felt_small(q);
        lemma_felt_small(r);
        law_limbs(felt(b - q));
        law_limbs(felt(a - r - 1));
    }
}

proof fn lemma_limbs_of(value: int)
    requires
        0 <= value < MODULUS,
    ensures
        felt(value / 0x1_0000_0000)@ == value / 0x1_0000_0000 <= 0xffff_ffff,
        felt(value % 0x1_0000_0000)@ == value % 0x1_0000_0000 <= 0xffff_ffff,
        ({
            let (hi, lo) = (felt(value / 0x1_0000_0000), felt(value % 0x1_0000_0000));
            &&& limb(hi, 0)@ < 0x1_0000 && limb(hi, 1)@ < 0x1_0000
            &&& limb(hi, 1)@ * 0x1_0000 + limb(hi, 0)@ == hi@
            &&& limb(lo, 0)@ < 0x1_0000 && limb(lo, 1)@ < 0x1_0000
            &&& limb(lo, 1)@ * 0x1_0000 + limb(lo, 0)@ == lo@
        }),
{
    lemma_felt_small(value / 0x1_0000_0000);
    lemma_felt_small(value % 0x1_0000_0000);
    law_limbs(felt(value / 0x1_0000_0000));
    law_limbs(felt(value % 0x1_0000_0000));
}

/// The registers of a product, of a product with a sum and of a split belong to their results,
/// and show the inverse of the distance of the upper one from 2^32 - 1.
pub proof fn law_registers_of_products(
    items: Seq<Felt>,
    rest: GeneratorModel,
    mul_inverse: Felt,
    madd_inverse: Felt,
    split_inverse: Felt,
)
    requires
        items.len() == MIN_STACK_DEPTH,
        valid_operands(items, 3),
        is_inverse(
            felt(0xffff_ffff - (items[0]@ * items[1]@) / 0x1_0000_0000),
            mul_inverse,
        ),
        is_inverse(
            felt(0xffff_ffff - (items[0]@ * items[1]@ + items[2]@) / 0x1_0000_0000),
            madd_inverse,
        ),
        is_inverse(felt(0xffff_ffff - (items[0]@ as int) / 0x1_0000_0000), split_inverse),
    ensures
        u32mul_outcome::<CoreTraceFragmentGenerator>(items, rest) matches U32Outcome::Done(
            after,
            _,
            h,
        ) && limbs_at(h, 0, after[1]@ as int) && limbs_at(h, 2, after[0]@ as int) && h[4]
            == mul_inverse && zero_from(h, 5),
        u32madd_outcome::<CoreTraceFragmentGenerator>(items, rest) matches U32Outcome::Done(
            after,
            _,
            h,
        ) && limbs_at(h, 0, after[1]@ as int) && limbs_at(h, 2, after[0]@ as int) && h[4]
            == madd_inverse && zero_from(h, 5),
        u32split_outcome::<CoreTraceFragmentGenerator>(items, rest) matches U32Outcome::Done(
            after,
            _,
            h,
        ) && limbs_at(h, 0, after[1]@ as int) && limbs_at(h, 2, after[0]@ as int) && h[4]
            == split_inverse && zero_from(h, 5),
{
    let (a, b, c) = (items[0]@ as int, items[1]@ as int, items[2]@ as int);
    assert(a <= 0xffff_ffff && b <= 0xffff_ffff && c <= 0xffff_ffff);
    assert(valid_operands(items, 2));
    assert(a * b == b * a && 0 <= b * a <= 0xffff_ffff * 0xffff_ffff) by (nonlinear_arith)
        requires
            0 <= a <= 0xffff_ffff,
            0 <= b <= 0xffff_ffff,
    ;
    lemma_felt_small(0);
    lemma_limbs_of(b * a);
    lemma_limbs_of(b * a + c);
    lemma_limbs_of(a);
    lemma_inverse_of(felt(0xffff_ffff - (b * a) / 0x1_0000_0000), mul_inverse);
    lemma_inverse_of(felt(0xffff_ffff - (b * a + c) / 0x1_0000_0000), madd_inverse);
    lemma_inverse_of(felt(0xffff_ffff - a / 0x1_0000_0000), split_inverse);
}

/// What is range-checked for an operation: in its clock cycle, the lower 32 bits of its result
/// first, then the upper ones; for a difference, the difference alone; for a division, the distance
/// of the quotient from the dividend, then that of the remainder from the divisor, less one.
pub proof fn law_range_checks(items: Seq<Felt>, rest: GeneratorModel, value: int)
    requires
        items.len() == MIN_STACK_DEPTH,
        valid_operands(items, 2),
        0 <= value < MODULUS,
    ensures
        halves_check::<CoreTraceFragmentGenerator>(rest, value) matches TracerEvent::U32RangeChecks(
            clk,
            lo,
            hi,
        ) && clk == rest.context.system.clk && lo@ <= 0xffff_ffff && lo@ + 0x1_0000_0000 * hi@
            == value,
        u32sub_check::<CoreTraceFragmentGenerator>(items, rest) matches TracerEvent::U32RangeChecks(
            clk,
            lo,
            hi,
        ) && clk == rest.context.system.clk && hi@ == 0 && lo@ == if items[0]@ > items[1]@ {
            items[1]@ - items[0]@ + 0x1_0000_0000
        } else {
            items[1]@ - items[0]@
        },
        items[0]@ != 0 ==> (u32div_check::<CoreTraceFragmentGenerator>(items, rest) matches
            TracerEvent::U32RangeChecks(clk, lo, hi) && u32div_outcome::<
            CoreTraceFragmentGenerator,
        >(items, rest) matches U32Outcome::Done(after, _, _) && clk == rest.context.system.clk
            && lo@ == items[1]@ - after[1]@ && hi@ == items[0]@ - after[0]@ - 1),
{
    let (a, b) = (items[0]@ as int, items[1]@ as int);
    assert(a <= 0xffff_ffff && b <= 0xffff_ffff);
    lemma_limbs_of(value);
    lemma_felt_small(0);
    lemma_felt_small((b - a) % 0x1_0000_0000);
    if a != 0 {
        let (q, r) = (b / a, b % a);
        assert(0 <= q <= b && 0 <= r < a) by (nonlinear_arith)
            requires
                0 < a,
                0 <= b,
                q == b / a,
                r == b % a,
        ;
        lemma_felt_small(b - q);
        lemma_felt_small(a - r - 1);
        lemma_felt_small(q);
        lemma_felt_small(r);
    }
}

/// An operation whose operands are no 32-bit values reports those that are not, the top of the
/// stack first, with the error code zero; a difference with the position of the operation, and an
/// assertion with its own code. A division by zero is reported with its clock cycle, once its
/// operands are 32-bit values.
pub proof fn law_u32_errors(items: Seq<Felt>, rest: GeneratorModel, op_idx: int, code: Felt)
    requires
        items.len() == MIN_STACK_DEPTH,
        0 <= op_idx <= 0xffff_ffff,
    ensures
        ({
            let reported = |n: int| items.take(n).filter(|e: Felt| e@ > 0xffff_ffff);
            let two = items[0]@ <= 0xffff_ffff && items[1]@ <= 0xffff_ffff;
            let three = two && items[2]@ <= 0xffff_ffff;
            let fails = |o: U32Outcome<GeneratorModel>, n: int, c: Felt|
                o == U32Outcome::<GeneratorModel>::NotU32(reported(n), c);
            &&& !two ==> {
                &&& fails(u32add_outcome::<CoreTraceFragmentGenerator>(items, rest), 2, felt(0))
                &&& fails(u32mul_outcome::<CoreTraceFragmentGenerator>(items, rest), 2, felt(0))
                &&& fails(u32div_outcome::<CoreTraceFragmentGenerator>(items, rest), 2, felt(0))
                &&& fails(u32and_outcome::<CoreTraceFragmentGenerator>(items, rest), 2, felt(0))
                &&& fails(u32xor_outcome::<CoreTraceFragmentGenerator>(items, rest), 2, felt(0))
                &&& fails(
                    u32sub_outcome::<CoreTraceFragmentGenerator>(items, rest, op_idx),
                    2,
                    felt(op_idx),
                )
                &&& fails(
                    u32assert2_outcome::<CoreTraceFragmentGenerator>(items, rest, code),
                    2,
                    code,
                )
            }
            &&& !three ==> {
                &&& fails(u32add3_outcome::<CoreTraceFragmentGenerator>(items, rest), 3, felt(0))
                &&& fails(u32madd_outcome::<CoreTraceFragmentGenerator>(items, rest), 3, felt(0))
            }
            &&& two && items[0]@ == 0 ==> u32div_outcome::<CoreTraceFragmentGenerator>(items, rest)
                == U32Outcome::<GeneratorModel>::DivideByZero(rest.context.system.clk)
        }),
{
    lemma_reported_in_order(items, 2);
    lemma_reported_in_order(items, 3);
    assert(valid_operands(items, 2) <==> items[0]@ <= 0xffff_ffff && items[1]@ <= 0xffff_ffff);
    assert(valid_operands(items, 3) <==> items[0]@ <= 0xffff_ffff && items[1]@ <= 0xffff_ffff
        && items[2]@ <= 0xffff_ffff);
}

proof fn lemma_reported_in_order(items: Seq<Felt>, n: int)
    requires
        0 <= n <= items.len(),
    ensures
        invalid_operands(items, n) == items.take(n).filter(|e: Felt| e@ > 0xffff_ffff),
    decreases n,
{
    reveal(Seq::filter);
    if n > 0 {
        lemma_reported_in_order(items, n - 1);
        assert(items.take(n).drop_last() =~= items.take(n - 1));
        assert(items.take(n).last() == items[n - 1]);
    } else {
        assert(items.take(0).len() == 0);
    }
}

/// A bit of a number.
pub open spec fn has_bit(x: u64, i: u64) -> bool {
    (x >> i) & 1 == 1
}

/// A bitwise AND has the bits that both operands have, a bitwise XOR those that just one of them
/// has.
pub proof fn law_bits(items: Seq<Felt>, rest: GeneratorModel, i: u64)
    requires
        items.len() == MIN_STACK_DEPTH,
        valid_operands(items, 2),
        i < 64,
    ensures
        u32and_outcome::<CoreTraceFragmentGenerator>(items, rest) matches U32Outcome::Done(
            after,
            _,
            _,
        ) && (has_bit(after[0]@, i) <==> has_bit(items[0]@, i) && has_bit(items[1]@, i)),
        u32xor_outcome::<CoreTraceFragmentGenerator>(items, rest) matches U32Outcome::Done(
            after,
            _,
            _,
        ) && (has_bit(after[0]@, i) <==> has_bit(items[0]@, i) != has_bit(items[1]@, i)),
{
    let (a, b) = (items[0]@, items[1]@);
    assert(a <= 0xffff_ffff && b <= 0xffff_ffff);
    assert((b & a) <= 0xffff_ffff && (b ^ a) <= 0xffff_ffff) by (bit_vector)
        requires
            a <= 0xffff_ffff,
            b <= 0xffff_ffff,
    ;
    assert((((b & a) >> i) & 1 == 1) == ((a >> i) & 1 == 1 && (b >> i) & 1 == 1)) by (bit_vector)
        requires
            i < 64,
    ;
    assert((((b ^ a) >> i) & 1 == 1) == (((a >> i) & 1 == 1) != ((b >> i) & 1 == 1)))
        by (bit_vector)
        requires
            i < 64,
    ;
    lemma_felt_small((b & a) as int);
    lemma_felt_small((b ^ a) as int);
}

} // verus!
