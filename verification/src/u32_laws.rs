//! What the operations on 32-bit values promise of their results.

use crate::felt::felt;
use crate::felt::lemma_felt_small;
use crate::felt::Felt;
use crate::felt::MODULUS;
use crate::helpers::limb;
use crate::layout::MIN_STACK_DEPTH;
use crate::processor::Processor;
use crate::u32_ops::invalid_operands;
use crate::u32_ops::lemma_invalid_operands;
use crate::u32_ops::u32add3_outcome;
use crate::u32_ops::u32add_outcome;
use crate::u32_ops::u32and_outcome;
use crate::u32_ops::u32assert2_outcome;
use crate::u32_ops::u32div_outcome;
use crate::u32_ops::u32madd_outcome;
use crate::u32_ops::u32mul_outcome;
use crate::u32_ops::u32split_outcome;
use crate::u32_ops::u32sub_outcome;
use crate::u32_ops::u32xor_outcome;
use crate::u32_ops::valid_operands;
use crate::u32_ops::U32Outcome;
use crate::u32_ops::U32_MAX;
use vstd::prelude::*;

verus! {

/// Whether two elements are the upper and the lower 32 bits of a value.
pub open spec fn are_halves(hi: Felt, lo: Felt, value: int) -> bool {
    &&& hi@ <= U32_MAX
    &&& lo@ <= U32_MAX
    &&& hi@ * 0x1_0000_0000 + lo@ == value
}

/// A value below the order of the field is the one that its upper and its lower 32 bits make up,
/// and its upper bits are all set only if its lower bits are all zero.
proof fn lemma_halves(value: int)
    requires
        0 <= value < MODULUS,
    ensures
        are_halves(felt(value / 0x1_0000_0000), felt(value % 0x1_0000_0000), value),
        felt(value / 0x1_0000_0000)@ == U32_MAX ==> felt(value % 0x1_0000_0000)@ == 0,
{
    lemma_felt_small(value / 0x1_0000_0000);
    lemma_felt_small(value % 0x1_0000_0000);
}

/// A product of two 32-bit values, plus a third, is below the order of the field.
proof fn lemma_product_bound(a: int, b: int, c: int)
    requires
        0 <= a <= U32_MAX,
        0 <= b <= U32_MAX,
        0 <= c <= U32_MAX,
    ensures
        0 <= a * b,
        a * b + c < MODULUS,
{
    assert(0 <= a * b <= 0xffff_ffff * 0xffff_ffff) by (nonlinear_arith)
        requires
            0 <= a <= 0xffff_ffff,
            0 <= b <= 0xffff_ffff,
    ;
}

/// U32SPLIT: the two elements make up the element that was split; all others move down by one. The
/// upper bits are all set only if the lower ones are all zero.
pub proof fn law_u32split<P: Processor>(items: Seq<Felt>, rest: P::Rest)
    requires
        items.len() == MIN_STACK_DEPTH,
        items[0]@ < MODULUS,
    ensures
        u32split_outcome::<P>(items, rest) matches U32Outcome::Done(after, _, _) && {
            &&& after.len() == MIN_STACK_DEPTH
            &&& are_halves(after[0], after[1], items[0]@ as int)
            &&& after[0]@ == U32_MAX ==> after[1]@ == 0
            &&& forall|i: int| 2 <= i < MIN_STACK_DEPTH ==> #[trigger] after[i] == items[i - 1]
        },
{
    lemma_halves(items[0]@ as int);
}

/// U32ADD: the two elements make up the sum, the upper one being the carry.
pub proof fn law_u32add<P: Processor>(items: Seq<Felt>, rest: P::Rest)
    requires
        items.len() == MIN_STACK_DEPTH,
        valid_operands(items, 2),
    ensures
        u32add_outcome::<P>(items, rest) matches U32Outcome::Done(after, after_rest, _) && {
            &&& are_halves(after[0], after[1], items[0]@ + items[1]@)
            &&& after[0]@ <= 1
            &&& after.skip(2) == items.skip(2)
            &&& after_rest == rest
        },
{
    assert(items[0]@ <= U32_MAX && items[1]@ <= U32_MAX);
    lemma_halves(items[1]@ + items[0]@);
    assert(u32add_outcome::<P>(items, rest)->Done_0.skip(2) =~= items.skip(2));
}

/// U32ADD3: the two elements make up the sum of the three.
pub proof fn law_u32add3<P: Processor>(items: Seq<Felt>, rest: P::Rest)
    requires
        items.len() == MIN_STACK_DEPTH,
        valid_operands(items, 3),
    ensures
        u32add3_outcome::<P>(items, rest) matches U32Outcome::Done(after, after_rest, _) && {
            &&& are_halves(after[0], after[1], items[0]@ + items[1]@ + items[2]@)
            &&& after[0]@ <= 2
            &&& after.skip(2) == items.skip(3).push(P::popped(rest).0)
            &&& after_rest == P::popped(rest).1
        },
{
    assert(items[0]@ <= U32_MAX && items[1]@ <= U32_MAX && items[2]@ <= U32_MAX);
    lemma_halves(items[2]@ + items[1]@ + items[0]@);
    assert(u32add3_outcome::<P>(items, rest)->Done_0.skip(2) =~= items.skip(3).push(
        P::popped(rest).0,
    ));
}

/// U32SUB: the difference is what is left of the second element, with 2^32 borrowed if and only if
/// the first one exceeds it.
pub proof fn law_u32sub<P: Processor>(items: Seq<Felt>, rest: P::Rest, op_idx: int)
    requires
        items.len() == MIN_STACK_DEPTH,
        valid_operands(items, 2),
    ensures
        u32sub_outcome::<P>(items, rest, op_idx) matches U32Outcome::Done(after, after_rest, _)
            && {
            &&& after[0]@ == (if items[0]@ > items[1]@ {
                1int
            } else {
                0int
            })
            &&& after[1]@ <= U32_MAX
            &&& after[1]@ == items[1]@ - items[0]@ + after[0]@ * 0x1_0000_0000
            &&& after.skip(2) == items.skip(2)
            &&& after_rest == rest
        },
{
    assert(items[0]@ <= U32_MAX && items[1]@ <= U32_MAX);
    let difference = (items[1]@ - items[0]@) % 0x1_0000_0000;
    lemma_felt_small(difference);
    lemma_felt_small(0);
    lemma_felt_small(1);
    assert(u32sub_outcome::<P>(items, rest, op_idx)->Done_0.skip(2) =~= items.skip(2));
}

/// U32MUL: the two elements make up the product.
pub proof fn law_u32mul<P: Processor>(items: Seq<Felt>, rest: P::Rest)
    requires
        items.len() == MIN_STACK_DEPTH,
        valid_operands(items, 2),
    ensures
        u32mul_outcome::<P>(items, rest) matches U32Outcome::Done(after, after_rest, _) && {
            &&& are_halves(after[0], after[1], items[0]@ * items[1]@)
            &&& after[0]@ < U32_MAX
            &&& after.skip(2) == items.skip(2)
            &&& after_rest == rest
        },
{
    let (a, b) = (items[0]@ as int, items[1]@ as int);
    assert(a <= U32_MAX && b <= U32_MAX);
    lemma_product_bound(a, b, 0);
    assert(a * b == b * a && 0 <= b * a <= 0xffff_ffff * 0xffff_ffff) by (nonlinear_arith)
        requires
            0 <= a <= 0xffff_ffff,
            0 <= b <= 0xffff_ffff,
    ;
    lemma_halves(b * a);
    assert(u32mul_outcome::<P>(items, rest)->Done_0.skip(2) =~= items.skip(2));
}

/// U32MADD: the two elements make up the product of the first two plus the third.
pub proof fn law_u32madd<P: Processor>(items: Seq<Felt>, rest: P::Rest)
    requires
        items.len() == MIN_STACK_DEPTH,
        valid_operands(items, 3),
    ensures
        u32madd_outcome::<P>(items, rest) matches U32Outcome::Done(after, after_rest, _) && {
            &&& are_halves(after[0], after[1], items[0]@ * items[1]@ + items[2]@)
            &&& after[0]@ == U32_MAX ==> after[1]@ == 0
            &&& after.skip(2) == items.skip(3).push(P::popped(rest).0)
            &&& after_rest == P::popped(rest).1
        },
{
    let (a, b, c) = (items[0]@ as int, items[1]@ as int, items[2]@ as int);
    assert(a <= U32_MAX && b <= U32_MAX && c <= U32_MAX);
    lemma_product_bound(a, b, c);
    assert(a * b == b * a) by (nonlinear_arith);
    lemma_halves(b * a + c);
    assert(u32madd_outcome::<P>(items, rest)->Done_0.skip(2) =~= items.skip(3).push(
        P::popped(rest).0,
    ));
}

/// U32DIV: the dividend is the quotient times the divisor plus the remainder, which is less than
/// the divisor.
pub proof fn law_u32div<P: Processor>(items: Seq<Felt>, rest: P::Rest)
    requires
        items.len() == MIN_STACK_DEPTH,
        valid_operands(items, 2),
        items[0]@ != 0,
    ensures
        u32div_outcome::<P>(items, rest) matches U32Outcome::Done(after, after_rest, _) && {
            &&& items[1]@ == after[1]@ * items[0]@ + after[0]@
            &&& after[0]@ < items[0]@
            &&& after[1]@ <= items[1]@
            &&& after.skip(2) == items.skip(2)
            &&& after_rest == rest
        },
{
    let (divisor, dividend) = (items[0]@ as int, items[1]@ as int);
    assert(divisor <= U32_MAX && dividend <= U32_MAX);
    let (quotient, remainder) = (dividend / divisor, dividend % divisor);
    assert(dividend == quotient * divisor + remainder && 0 <= remainder < divisor && 0 <= quotient
        <= dividend) by (nonlinear_arith)
        requires
            0 < divisor,
            0 <= dividend,
            quotient == dividend / divisor,
            remainder == dividend % divisor,
    ;
    lemma_felt_small(quotient);
    lemma_felt_small(remainder);
    assert(u32div_outcome::<P>(items, rest)->Done_0.skip(2) =~= items.skip(2));
}

/// U32AND and U32XOR: both results are 32-bit values, and twice the first plus the second is the
/// sum of the operands, as the bits that both operands have are those of the carries.
pub proof fn law_u32bitwise<P: Processor>(items: Seq<Felt>, rest: P::Rest)
    requires
        items.len() == MIN_STACK_DEPTH,
        valid_operands(items, 2),
    ensures
        u32and_outcome::<P>(items, rest) matches U32Outcome::Done(with_and, and_rest, _)
            && u32xor_outcome::<P>(items, rest) matches U32Outcome::Done(with_xor, xor_rest, _) && {
            &&& with_and[0]@ <= U32_MAX
            &&& with_xor[0]@ <= U32_MAX
            &&& 2 * with_and[0]@ + with_xor[0]@ == items[0]@ + items[1]@
            &&& with_and.skip(1) == items.skip(2).push(P::popped(rest).0)
            &&& with_xor.skip(1) == items.skip(2).push(P::popped(rest).0)
            &&& and_rest == P::popped(rest).1
            &&& xor_rest == P::popped(rest).1
        },
{
    let (a, b) = (items[0]@, items[1]@);
    assert(a <= U32_MAX && b <= U32_MAX);
    assert((b & a) <= 0xffff_ffff && (b ^ a) <= 0xffff_ffff && 2 * (b & a) + (b ^ a) == a + b)
        by (bit_vector)
        requires
            a <= 0xffff_ffff,
            b <= 0xffff_ffff,
    ;
    lemma_felt_small((b & a) as int);
    lemma_felt_small((b ^ a) as int);
    assert(u32and_outcome::<P>(items, rest)->Done_0.skip(1) =~= items.skip(2).push(
        P::popped(rest).0,
    ));
    assert(u32xor_outcome::<P>(items, rest)->Done_0.skip(1) =~= items.skip(2).push(
        P::popped(rest).0,
    ));
}

/// U32ASSERT2 succeeds if and only if both elements are 32-bit values, and changes nothing.
pub proof fn law_u32assert2<P: Processor>(items: Seq<Felt>, rest: P::Rest, err_code: Felt)
    ensures
        u32assert2_outcome::<P>(items, rest, err_code) is Done <==> items[0]@ <= U32_MAX
            && items[1]@ <= U32_MAX,
        u32assert2_outcome::<P>(items, rest, err_code) matches U32Outcome::Done(
            after,
            after_rest,
            _,
        ) ==> after == items && after_rest == rest,
{
    assert(valid_operands(items, 2) <==> items[0]@ <= U32_MAX && items[1]@ <= U32_MAX);
}

/// The operands that an operation reports are exactly those that are no 32-bit values, and there
/// is at least one.
pub proof fn law_reported_operands(items: Seq<Felt>, n: int)
    requires
        0 <= n <= items.len(),
        !valid_operands(items, n),
    ensures
        invalid_operands(items, n).len() > 0,
        forall|e: Felt| #[trigger]
            invalid_operands(items, n).contains(e) <==> e@ > U32_MAX && items.take(n).contains(e),
{
    lemma_invalid_operands(items, n);
    lemma_reported(items, n);
}

proof fn lemma_reported(items: Seq<Felt>, n: int)
    requires
        0 <= n <= items.len(),
    ensures
        forall|e: Felt| #[trigger]
            invalid_operands(items, n).contains(e) <==> e@ > U32_MAX && items.take(n).contains(e),
    decreases n,
{
    if n > 0 {
        lemma_reported(items, n - 1);
        let before = invalid_operands(items, n - 1);
        let last = items[n - 1];
        assert(items.take(n) =~= items.take(n - 1).push(last));
        assert forall|e: Felt| #[trigger]
            invalid_operands(items, n).contains(e) <==> e@ > U32_MAX && items.take(n).contains(
                e,
            ) by {
            assert(before.contains(e) <==> e@ > U32_MAX && items.take(n - 1).contains(e));
            vstd::seq_lib::lemma_seq_contains_after_push(items.take(n - 1), last, e);
            vstd::seq_lib::lemma_seq_contains_after_push(before, last, e);
        }
    } else {
        assert(items.take(0) =~= Seq::empty());
    }
}

/// The two limbs of a 32-bit value are 16-bit values that make it up.
pub proof fn law_limbs(e: Felt)
    requires
        e@ <= U32_MAX,
    ensures
        limb(e, 0)@ < 0x1_0000,
        limb(e, 1)@ < 0x1_0000,
        limb(e, 1)@ * 0x1_0000 + limb(e, 0)@ == e@,
{
    lemma_felt_small(e@ as int % 0x1_0000);
    lemma_felt_small(e@ as int / 0x1_0000);
}

} // verus!
