//! Operations on 32-bit values.

use crate::context::RowIndex;
use crate::errors::ExecutionError;
use crate::felt::felt;
use crate::felt::lemma_felt_small;
use crate::felt::Felt;
use crate::processor::OperationHelperRegisters;
use crate::processor::Processor;
use crate::tracer::allows_told;
use crate::tracer::told;
use crate::tracer::Tracer;
use crate::tracer::TracerEvent;
use crate::utils::hi32;
use crate::utils::lo32;
use crate::utils::split_element;
use vstd::prelude::*;

verus! {

/// The greatest 32-bit value.
pub const U32_MAX: u64 = 0xffff_ffff;

/// What an operation does.
#[verifier::ext_equal]
pub enum U32Outcome<R> {
    /// The stack elements and the rest after the operation, and its helper registers.
    Done(Seq<Felt>, R, Seq<Felt>),
    /// Some operands are no 32-bit values; they are reported with a code, and nothing changes.
    NotU32(Seq<Felt>, Felt),
    /// The divisor is zero, which is reported with the clock cycle, and nothing changes.
    DivideByZero(RowIndex),
}

/// Those of the topmost `n` stack elements that are no 32-bit values, the top of the stack first.
pub open spec fn invalid_operands(items: Seq<Felt>, n: int) -> Seq<Felt>
    decreases n,
{
    if n <= 0 {
        Seq::empty()
    } else if items[n - 1]@ > U32_MAX {
        invalid_operands(items, n - 1).push(items[n - 1])
    } else {
        invalid_operands(items, n - 1)
    }
}

/// Whether the topmost `n` stack elements are 32-bit values.
pub open spec fn valid_operands(items: Seq<Felt>, n: int) -> bool {
    forall|i: int| 0 <= i < n ==> (#[trigger] items[i])@ <= U32_MAX
}

/// No operand is invalid if and only if all are valid.
pub proof fn lemma_invalid_operands(items: Seq<Felt>, n: int)
    ensures
        invalid_operands(items, n).len() == 0 <==> valid_operands(items, n),
    decreases n,
{
    if n > 0 {
        lemma_invalid_operands(items, n - 1);
        if valid_operands(items, n) {
            assert(items[n - 1]@ <= U32_MAX);
        }
        if valid_operands(items, n - 1) && items[n - 1]@ <= U32_MAX {
            assert forall|i: int| 0 <= i < n implies (#[trigger] items[i])@ <= U32_MAX by {
                if i == n - 1 {
                }
            }
        }
    }
}

/// The outcome of an operation that needs `n` 32-bit operands.
pub open spec fn checked<R>(items: Seq<Felt>, n: int, code: Felt, done: U32Outcome<R>) -> U32Outcome<
    R,
> {
    if valid_operands(items, n) {
        done
    } else {
        U32Outcome::NotU32(invalid_operands(items, n), code)
    }
}

/// The stack elements and the rest once the topmost element has been removed.
pub open spec fn dropped<P: Processor>(items: Seq<Felt>, rest: P::Rest) -> (Seq<Felt>, P::Rest) {
    let (last, popped) = P::popped(rest);
    (items.drop_first().push(last), popped)
}

/// The stack elements with the upper and the lower 32 bits of a value on top.
pub open spec fn with_halves(items: Seq<Felt>, value: int) -> Seq<Felt> {
    items.update(0, felt(value / 0x1_0000_0000)).update(1, felt(value % 0x1_0000_0000))
}

/// The topmost element is replaced by its upper and its lower 32 bits.
pub open spec fn u32split_outcome<P: Processor>(items: Seq<Felt>, rest: P::Rest) -> U32Outcome<
    P::Rest,
> {
    let (hi, lo) = (hi32(items[0]), lo32(items[0]));
    U32Outcome::Done(
        seq![hi, lo] + items.subrange(1, 15),
        P::pushed(rest, items[15]),
        P::HelperRegisters::u32split_helpers(hi, lo),
    )
}

/// The topmost two elements are replaced by the upper and the lower 32 bits of their sum.
pub open spec fn u32add_outcome<P: Processor>(items: Seq<Felt>, rest: P::Rest) -> U32Outcome<
    P::Rest,
> {
    let sum = items[1]@ + items[0]@;
    checked(
        items,
        2,
        felt(0),
        U32Outcome::Done(
            with_halves(items, sum),
            rest,
            P::HelperRegisters::u32add_helpers(
                felt(sum / 0x1_0000_0000),
                felt(sum % 0x1_0000_0000),
            ),
        ),
    )
}

/// The topmost three elements are replaced by the upper and the lower 32 bits of their sum.
pub open spec fn u32add3_outcome<P: Processor>(items: Seq<Felt>, rest: P::Rest) -> U32Outcome<
    P::Rest,
> {
    let sum = items[2]@ + items[1]@ + items[0]@;
    let (rest_items, popped) = dropped::<P>(items, rest);
    checked(
        items,
        3,
        felt(0),
        U32Outcome::Done(
            with_halves(rest_items, sum),
            popped,
            P::HelperRegisters::u32add3_helpers(
                felt(sum / 0x1_0000_0000),
                felt(sum % 0x1_0000_0000),
            ),
        ),
    )
}

/// The topmost two elements are replaced by a flag that says whether the first exceeds the second,
/// and by the second minus the first modulo 2^32.
pub open spec fn u32sub_outcome<P: Processor>(
    items: Seq<Felt>,
    rest: P::Rest,
    op_idx: int,
) -> U32Outcome<P::Rest> {
    let borrow: int = if items[0]@ > items[1]@ {
        1
    } else {
        0
    };
    let difference = felt((items[1]@ - items[0]@) % 0x1_0000_0000);
    checked(
        items,
        2,
        felt(op_idx % 0x1_0000_0000),
        U32Outcome::Done(
            items.update(0, felt(borrow)).update(1, difference),
            rest,
            P::HelperRegisters::u32sub_helpers(difference),
        ),
    )
}

/// The topmost two elements are replaced by the upper and the lower 32 bits of their product.
pub open spec fn u32mul_outcome<P: Processor>(items: Seq<Felt>, rest: P::Rest) -> U32Outcome<
    P::Rest,
> {
    let product = items[1]@ * items[0]@;
    checked(
        items,
        2,
        felt(0),
        U32Outcome::Done(
            with_halves(items, product),
            rest,
            P::HelperRegisters::u32mul_helpers(
                felt(product / 0x1_0000_0000),
                felt(product % 0x1_0000_0000),
            ),
        ),
    )
}

/// The topmost three elements are replaced by the upper and the lower 32 bits of the product of
/// the first two plus the third.
pub open spec fn u32madd_outcome<P: Processor>(items: Seq<Felt>, rest: P::Rest) -> U32Outcome<
    P::Rest,
> {
    let value = items[1]@ * items[0]@ + items[2]@;
    let (rest_items, popped) = dropped::<P>(items, rest);
    checked(
        items,
        3,
        felt(0),
        U32Outcome::Done(
            with_halves(rest_items, value),
            popped,
            P::HelperRegisters::u32madd_helpers(
                felt(value / 0x1_0000_0000),
                felt(value % 0x1_0000_0000),
            ),
        ),
    )
}

/// The topmost two elements are replaced by the remainder and the quotient of the second divided
/// by the first.
pub open spec fn u32div_outcome<P: Processor>(items: Seq<Felt>, rest: P::Rest) -> U32Outcome<
    P::Rest,
> {
    let (divisor, dividend) = (items[0]@ as int, items[1]@ as int);
    let (quotient, remainder) = (dividend / divisor, dividend % divisor);
    checked(
        items,
        2,
        felt(0),
        if divisor == 0 {
            U32Outcome::DivideByZero(P::clk_of(rest))
        } else {
            U32Outcome::Done(
                items.update(0, felt(remainder)).update(1, felt(quotient)),
                rest,
                P::HelperRegisters::u32div_helpers(
                    felt(divisor - remainder - 1),
                    felt(dividend - quotient),
                ),
            )
        },
    )
}

/// The topmost two elements are replaced by their bitwise AND.
pub open spec fn u32and_outcome<P: Processor>(items: Seq<Felt>, rest: P::Rest) -> U32Outcome<
    P::Rest,
> {
    let (rest_items, popped) = dropped::<P>(items, rest);
    checked(
        items,
        2,
        felt(0),
        U32Outcome::Done(
            rest_items.update(0, felt((items[1]@ & items[0]@) as int)),
            popped,
            Seq::empty(),
        ),
    )
}

/// The topmost two elements are replaced by their bitwise XOR.
pub open spec fn u32xor_outcome<P: Processor>(items: Seq<Felt>, rest: P::Rest) -> U32Outcome<
    P::Rest,
> {
    let (rest_items, popped) = dropped::<P>(items, rest);
    checked(
        items,
        2,
        felt(0),
        U32Outcome::Done(
            rest_items.update(0, felt((items[1]@ ^ items[0]@) as int)),
            popped,
            Seq::empty(),
        ),
    )
}

/// The topmost two elements must be 32-bit values; they stay.
pub open spec fn u32assert2_outcome<P: Processor>(
    items: Seq<Felt>,
    rest: P::Rest,
    err_code: Felt,
) -> U32Outcome<P::Rest> {
    checked(
        items,
        2,
        err_code,
        U32Outcome::Done(items, rest, P::HelperRegisters::u32assert2_helpers(items[0], items[1])),
    )
}

/// The range checks of a value of which the upper and the lower 32 bits are checked.
pub open spec fn halves_check<P: Processor>(rest: P::Rest, value: int) -> TracerEvent {
    TracerEvent::U32RangeChecks(
        P::clk_of(rest),
        felt(value % 0x1_0000_0000),
        felt(value / 0x1_0000_0000),
    )
}

/// The range checks of a subtraction.
pub open spec fn u32sub_check<P: Processor>(items: Seq<Felt>, rest: P::Rest) -> TracerEvent {
    TracerEvent::U32RangeChecks(
        P::clk_of(rest),
        felt((items[1]@ - items[0]@) % 0x1_0000_0000),
        felt(0),
    )
}

/// The range checks of a division, which show that the quotient does not exceed the dividend and
/// that the remainder is less than the divisor.
pub open spec fn u32div_check<P: Processor>(items: Seq<Felt>, rest: P::Rest) -> TracerEvent {
    let (divisor, dividend) = (items[0]@ as int, items[1]@ as int);
    TracerEvent::U32RangeChecks(
        P::clk_of(rest),
        felt(dividend - dividend / divisor),
        felt(divisor - dividend % divisor - 1),
    )
}

/// Whether an operation returned and changed what its outcome says.
pub open spec fn came_about<P: Processor>(
    outcome: U32Outcome<P::Rest>,
    before: P,
    after: P,
    r: Result<[Felt; 6], ExecutionError>,
) -> bool {
    match outcome {
        U32Outcome::Done(items, rest, helpers) => {
            &&& r matches Ok(h) && h@ == helpers
            &&& after.items() == items
            &&& after.rest() == rest
        },
        U32Outcome::NotU32(invalid, code) => {
            &&& r matches Err(ExecutionError::NotU32Values { values, err_code }) && values@
                == invalid && err_code == code
            &&& after.items() == before.items()
            &&& after.rest() == before.rest()
        },
        U32Outcome::DivideByZero(at) => {
            &&& r matches Err(ExecutionError::DivideByZero { clk }) && clk == at
            &&& after.items() == before.items()
            &&& after.rest() == before.rest()
        },
    }
}

/// The same for an operation without helper registers.
pub open spec fn came_about_plain<P: Processor>(
    outcome: U32Outcome<P::Rest>,
    before: P,
    after: P,
    r: Result<(), ExecutionError>,
) -> bool {
    match outcome {
        U32Outcome::Done(items, rest, _) => {
            &&& r is Ok
            &&& after.items() == items
            &&& after.rest() == rest
        },
        U32Outcome::NotU32(invalid, code) => {
            &&& r matches Err(ExecutionError::NotU32Values { values, err_code }) && values@
                == invalid && err_code == code
            &&& after.items() == before.items()
            &&& after.rest() == before.rest()
        },
        U32Outcome::DivideByZero(_) => false,
    }
}

/// Fails unless the topmost `n` stack elements are 32-bit values.
fn require_u32_operands<P: Processor>(processor: &P, n: usize, err_code: Felt) -> (r: Result<
    (),
    ExecutionError,
>)
    requires
        n <= 3,
    ensures
        r is Ok <==> valid_operands(processor.items(), n as int),
        r matches Err(e) ==> {
            &&& e matches ExecutionError::NotU32Values { values, err_code: code }
            &&& values@ == invalid_operands(processor.items(), n as int)
            &&& code == err_code
        },
{
    let mut invalid_values: Vec<Felt> = Vec::new();
    for i in 0..n
        invariant
            n <= 3,
            invalid_values@ == invalid_operands(processor.items(), i as int),
    {
        let operand = processor.get(i);
        if operand.as_int() > U32_MAX {
            invalid_values.push(operand);
        }
    }
    proof {
        lemma_invalid_operands(processor.items(), n as int);
    }
    if invalid_values.len() != 0 {
        return Err(ExecutionError::NotU32Values { values: invalid_values, err_code });
    }
    Ok(())
}

/// Replaces the topmost stack element by its upper and its lower 32 bits.
pub fn op_u32split<P: Processor, T: Tracer>(processor: &mut P, tracer: &mut T) -> (r: Result<
    [Felt; 6],
    ExecutionError,
>)
    requires
        P::can_push(old(processor).rest()),
        ({
            let (items, rest) = (old(processor).items(), old(processor).rest());
            let check = halves_check::<P>(rest, items[0]@ as int);
            &&& T::allows(old(tracer).state(), check)
            &&& allows_told::<T>(T::after(old(tracer).state(), check), P::push_event(items, rest))
        }),
    ensures
        came_about(
            u32split_outcome::<P>(old(processor).items(), old(processor).rest()),
            *old(processor),
            *final(processor),
            r,
        ),
        final(tracer).state() == told::<T>(
            T::after(
                old(tracer).state(),
                halves_check::<P>(old(processor).rest(), old(processor).items()[0]@ as int),
            ),
            P::push_event(old(processor).items(), old(processor).rest()),
        ),
{
    proof {
        processor.lemma_items();
    }
    let ghost items = processor.items();
    let (top_hi, top_lo) = split_element(processor.get(0));
    tracer.record_u32_range_checks(processor.clk(), top_lo, top_hi);

    match processor.increment_size(tracer) {
        Ok(()) => {},
        Err(e) => {
            return Err(e);
        },
    }
    let ghost shifted = processor.items();
    proof {
        processor.lemma_items();
        assert(forall|i: int| 1 <= i < 16 ==> shifted[i] == shifted.drop_first()[i - 1]);
    }
    processor.set(0, top_hi);
    processor.set(1, top_lo);
    assert(processor.items() == seq![top_hi, top_lo] + items.subrange(1, 15));

    Ok(P::HelperRegisters::op_u32split_registers(top_hi, top_lo))
}

/// Replaces the topmost two stack elements by the upper and the lower 32 bits of their sum.
pub fn op_u32add<P: Processor, T: Tracer>(processor: &mut P, tracer: &mut T) -> (r: Result<
    [Felt; 6],
    ExecutionError,
>)
    requires
        valid_operands(old(processor).items(), 2) ==> T::allows(
            old(tracer).state(),
            halves_check::<P>(
                old(processor).rest(),
                old(processor).items()[1]@ + old(processor).items()[0]@,
            ),
        ),
    ensures
        came_about(
            u32add_outcome::<P>(old(processor).items(), old(processor).rest()),
            *old(processor),
            *final(processor),
            r,
        ),
        final(tracer).state() == if valid_operands(old(processor).items(), 2) {
            T::after(
                old(tracer).state(),
                halves_check::<P>(
                    old(processor).rest(),
                    old(processor).items()[1]@ + old(processor).items()[0]@,
                ),
            )
        } else {
            old(tracer).state()
        },
{
    broadcast use lemma_felt_small;

    proof {
        processor.lemma_items();
    }
    require_u32_operands(processor, 2, Felt::zero())?;
    let b = processor.get(0);
    let a = processor.get(1);
    let (sum_hi, sum_lo) = split_element(Felt::new(a.as_int() + b.as_int()));
    tracer.record_u32_range_checks(processor.clk(), sum_lo, sum_hi);

    processor.set(0, sum_hi);
    processor.set(1, sum_lo);

    Ok(P::HelperRegisters::op_u32add_registers(sum_hi, sum_lo))
}

/// Replaces the topmost three stack elements by the upper and the lower 32 bits of their sum.
pub fn op_u32add3<P: Processor, T: Tracer>(processor: &mut P, tracer: &mut T) -> (r: Result<
    [Felt; 6],
    ExecutionError,
>)
    requires
        valid_operands(old(processor).items(), 3) ==> {
            let (items, rest) = (old(processor).items(), old(processor).rest());
            let check = halves_check::<P>(rest, items[2]@ + items[1]@ + items[0]@);
            &&& P::can_pop(rest)
            &&& T::allows(old(tracer).state(), check)
            &&& allows_told::<T>(T::after(old(tracer).state(), check), P::pop_event(items, rest))
        },
    ensures
        came_about(
            u32add3_outcome::<P>(old(processor).items(), old(processor).rest()),
            *old(processor),
            *final(processor),
            r,
        ),
        final(tracer).state() == if valid_operands(old(processor).items(), 3) {
            let items = old(processor).items();
            let check = halves_check::<P>(
                old(processor).rest(),
                items[2]@ + items[1]@ + items[0]@,
            );
            told::<T>(
                T::after(old(tracer).state(), check),
                P::pop_event(items, old(processor).rest()),
            )
        } else {
            old(tracer).state()
        },
{
    broadcast use lemma_felt_small;

    proof {
        processor.lemma_items();
    }
    require_u32_operands(processor, 3, Felt::zero())?;
    let c = processor.get(0);
    let b = processor.get(1);
    let a = processor.get(2);
    assert(processor.items()[2]@ <= U32_MAX);
    let (sum_hi, sum_lo) = split_element(Felt::new(a.as_int() + b.as_int() + c.as_int()));
    tracer.record_u32_range_checks(processor.clk(), sum_lo, sum_hi);

    processor.decrement_size(tracer);
    processor.set(0, sum_hi);
    processor.set(1, sum_lo);

    Ok(P::HelperRegisters::op_u32add3_registers(sum_hi, sum_lo))
}

/// What a subtraction that wraps around leaves in its top bit and in its lower 32 bits.
proof fn lemma_wrapping_difference(a: u64, b: u64, d: u64)
    requires
        a <= U32_MAX,
        b <= U32_MAX,
        d == if b > a {
            a - b + 0x1_0000_0000_0000_0000
        } else {
            a - b
        },
    ensures
        d >> 63 == if b > a {
            1u64
        } else {
            0u64
        },
        d & 0xffff_ffff == (a - b) % 0x1_0000_0000,
{
    if b > a {
        let e = (b - a) as u64;
        assert(d == 0xffff_ffff_ffff_ffff - e + 1);
        assert(d >> 63 == 1 && d & 0xffff_ffff == 0x1_0000_0000 - e) by (bit_vector)
            requires
                1 <= e <= 0xffff_ffff,
                d == 0xffff_ffff_ffff_ffff - e + 1,
        ;
        assert((a - b) % 0x1_0000_0000 == 0x1_0000_0000 - e);
    } else {
        assert(d >> 63 == 0 && d & 0xffff_ffff == d) by (bit_vector)
            requires
                d <= 0xffff_ffff,
        ;
    }
}

/// Replaces the topmost two stack elements by a flag that says whether the first exceeds the
/// second, and by the second minus the first modulo 2^32.
pub fn op_u32sub<P: Processor, T: Tracer>(processor: &mut P, op_idx: usize, tracer: &mut T) -> (r:
    Result<[Felt; 6], ExecutionError>)
    requires
        valid_operands(old(processor).items(), 2) ==> T::allows(
            old(tracer).state(),
            u32sub_check::<P>(old(processor).items(), old(processor).rest()),
        ),
    ensures
        came_about(
            u32sub_outcome::<P>(old(processor).items(), old(processor).rest(), op_idx as int),
            *old(processor),
            *final(processor),
            r,
        ),
        final(tracer).state() == if valid_operands(old(processor).items(), 2) {
            T::after(
                old(tracer).state(),
                u32sub_check::<P>(old(processor).items(), old(processor).rest()),
            )
        } else {
            old(tracer).state()
        },
{
    broadcast use lemma_felt_small;

    proof {
        processor.lemma_items();
    }
    let code: u64 = op_idx as u64 % 0x1_0000_0000;
    require_u32_operands(processor, 2, Felt::new(code))?;
    let first_old = processor.get(0);
    let second_old = processor.get(1);

    let result: u64 = second_old.as_int().wrapping_sub(first_old.as_int());
    proof {
        lemma_wrapping_difference(second_old@, first_old@, result);
    }
    let first_new = Felt::new(result >> 63);
    let second_new = Felt::new(result & 0xffff_ffff);

    tracer.record_u32_range_checks(processor.clk(), second_new, Felt::zero());

    processor.set(0, first_new);
    processor.set(1, second_new);

    Ok(P::HelperRegisters::op_u32sub_registers(second_new))
}

/// The product of two 32-bit values plus a third is less than the order of the field.
proof fn lemma_product_fits(a: int, b: int, c: int)
    by (nonlinear_arith)
    requires
        0 <= a <= 0xffff_ffff,
        0 <= b <= 0xffff_ffff,
        0 <= c <= 0xffff_ffff,
    ensures
        0 <= a * b,
        a * b + c < 0xffff_ffff_0000_0001,
{
}

/// Replaces the topmost two stack elements by the upper and the lower 32 bits of their product.
pub fn op_u32mul<P: Processor, T: Tracer>(processor: &mut P, tracer: &mut T) -> (r: Result<
    [Felt; 6],
    ExecutionError,
>)
    requires
        valid_operands(old(processor).items(), 2) ==> T::allows(
            old(tracer).state(),
            halves_check::<P>(
                old(processor).rest(),
                old(processor).items()[1]@ * old(processor).items()[0]@,
            ),
        ),
    ensures
        came_about(
            u32mul_outcome::<P>(old(processor).items(), old(processor).rest()),
            *old(processor),
            *final(processor),
            r,
        ),
        final(tracer).state() == if valid_operands(old(processor).items(), 2) {
            T::after(
                old(tracer).state(),
                halves_check::<P>(
                    old(processor).rest(),
                    old(processor).items()[1]@ * old(processor).items()[0]@,
                ),
            )
        } else {
            old(tracer).state()
        },
{
    broadcast use lemma_felt_small;

    proof {
        processor.lemma_items();
    }
    require_u32_operands(processor, 2, Felt::zero())?;
    let b = processor.get(0);
    let a = processor.get(1);
    proof {
        lemma_product_fits(a@ as int, b@ as int, 0);
    }
    let (hi, lo) = split_element(Felt::new(a.as_int() * b.as_int()));
    tracer.record_u32_range_checks(processor.clk(), lo, hi);

    processor.set(0, hi);
    processor.set(1, lo);

    Ok(P::HelperRegisters::op_u32mul_registers(hi, lo))
}

/// Replaces the topmost three stack elements by the upper and the lower 32 bits of the product of
/// the first two plus the third.
pub fn op_u32madd<P: Processor, T: Tracer>(processor: &mut P, tracer: &mut T) -> (r: Result<
    [Felt; 6],
    ExecutionError,
>)
    requires
        valid_operands(old(processor).items(), 3) ==> {
            let (items, rest) = (old(processor).items(), old(processor).rest());
            let check = halves_check::<P>(rest, items[1]@ * items[0]@ + items[2]@);
            &&& P::can_pop(rest)
            &&& T::allows(old(tracer).state(), check)
            &&& allows_told::<T>(T::after(old(tracer).state(), check), P::pop_event(items, rest))
        },
    ensures
        came_about(
            u32madd_outcome::<P>(old(processor).items(), old(processor).rest()),
            *old(processor),
            *final(processor),
            r,
        ),
        final(tracer).state() == if valid_operands(old(processor).items(), 3) {
            let items = old(processor).items();
            let check = halves_check::<P>(
                old(processor).rest(),
                items[1]@ * items[0]@ + items[2]@,
            );
            told::<T>(
                T::after(old(tracer).state(), check),
                P::pop_event(items, old(processor).rest()),
            )
        } else {
            old(tracer).state()
        },
{
    broadcast use lemma_felt_small;

    proof {
        processor.lemma_items();
    }
    require_u32_operands(processor, 3, Felt::zero())?;
    let b = processor.get(0);
    let a = processor.get(1);
    let c = processor.get(2);
    proof {
        assert(processor.items()[2]@ <= U32_MAX);
        lemma_product_fits(a@ as int, b@ as int, 0);
        lemma_product_fits(a@ as int, b@ as int, c@ as int);
    }
    let (hi, lo) = split_element(Felt::new(a.as_int() * b.as_int() + c.as_int()));
    tracer.record_u32_range_checks(processor.clk(), lo, hi);

    processor.decrement_size(tracer);
    processor.set(0, hi);
    processor.set(1, lo);

    Ok(P::HelperRegisters::op_u32madd_registers(hi, lo))
}

/// The quotient does not exceed the dividend, the remainder is less than the divisor, and the
/// remainder is what the product of quotient and divisor leaves.
proof fn lemma_quotient(a: int, b: int)
    by (nonlinear_arith)
    requires
        0 <= a,
        0 < b,
    ensures
        0 <= a / b <= a,
        0 <= a % b < b,
        a - (a / b) * b == a % b,
        0 <= (a / b) * b <= a,
{
}

/// Replaces the topmost two stack elements by the remainder and the quotient of the second divided
/// by the first; fails if the first is zero.
pub fn op_u32div<P: Processor, T: Tracer>(processor: &mut P, tracer: &mut T) -> (r: Result<
    [Felt; 6],
    ExecutionError,
>)
    requires
        valid_operands(old(processor).items(), 2) && old(processor).items()[0]@ != 0 ==> T::allows(
            old(tracer).state(),
            u32div_check::<P>(old(processor).items(), old(processor).rest()),
        ),
    ensures
        came_about(
            u32div_outcome::<P>(old(processor).items(), old(processor).rest()),
            *old(processor),
            *final(processor),
            r,
        ),
        final(tracer).state() == if valid_operands(old(processor).items(), 2)
            && old(processor).items()[0]@ != 0 {
            T::after(
                old(tracer).state(),
                u32div_check::<P>(old(processor).items(), old(processor).rest()),
            )
        } else {
            old(tracer).state()
        },
{
    broadcast use lemma_felt_small;

    proof {
        processor.lemma_items();
    }
    require_u32_operands(processor, 2, Felt::zero())?;
    let denominator: u64 = processor.get(0).as_int();
    let numerator: u64 = processor.get(1).as_int();

    if denominator == 0 {
        return Err(ExecutionError::DivideByZero { clk: processor.clk() });
    }
    proof {
        lemma_quotient(numerator as int, denominator as int);
    }
    let quotient: u64 = numerator / denominator;
    let remainder: u64 = numerator - quotient * denominator;

    processor.set(0, Felt::new(remainder));
    processor.set(1, Felt::new(quotient));

    // these range checks help to show that the quotient does not exceed the numerator
    let lo = Felt::new(numerator - quotient);
    // these range checks help to show that the remainder is less than the denominator
    let hi = Felt::new(denominator - remainder - 1);

    tracer.record_u32_range_checks(processor.clk(), lo, hi);
    Ok(P::HelperRegisters::op_u32div_registers(hi, lo))
}

/// Replaces the topmost two stack elements by their bitwise AND.
pub fn op_u32and<P: Processor, T: Tracer>(processor: &mut P, tracer: &mut T) -> (r: Result<
    (),
    ExecutionError,
>)
    requires
        valid_operands(old(processor).items(), 2) ==> {
            let event = TracerEvent::U32And(old(processor).items()[1], old(processor).items()[0]);
            &&& P::can_pop(old(processor).rest())
            &&& T::allows(old(tracer).state(), event)
            &&& allows_told::<T>(
                T::after(old(tracer).state(), event),
                P::pop_event(old(processor).items(), old(processor).rest()),
            )
        },
    ensures
        came_about_plain(
            u32and_outcome::<P>(old(processor).items(), old(processor).rest()),
            *old(processor),
            *final(processor),
            r,
        ),
        final(tracer).state() == if valid_operands(old(processor).items(), 2) {
            let event = TracerEvent::U32And(old(processor).items()[1], old(processor).items()[0]);
            told::<T>(
                T::after(old(tracer).state(), event),
                P::pop_event(old(processor).items(), old(processor).rest()),
            )
        } else {
            old(tracer).state()
        },
{
    proof {
        processor.lemma_items();
    }
    require_u32_operands(processor, 2, Felt::zero())?;
    let b = processor.get(0);
    let a = processor.get(1);
    tracer.record_u32and(a, b);

    let result: u64 = a.as_int() & b.as_int();

    processor.decrement_size(tracer);
    processor.set(0, Felt::new(result));
    Ok(())
}

/// Replaces the topmost two stack elements by their bitwise XOR.
pub fn op_u32xor<P: Processor, T: Tracer>(processor: &mut P, tracer: &mut T) -> (r: Result<
    (),
    ExecutionError,
>)
    requires
        valid_operands(old(processor).items(), 2) ==> {
            let event = TracerEvent::U32Xor(old(processor).items()[1], old(processor).items()[0]);
            &&& P::can_pop(old(processor).rest())
            &&& T::allows(old(tracer).state(), event)
            &&& allows_told::<T>(
                T::after(old(tracer).state(), event),
                P::pop_event(old(processor).items(), old(processor).rest()),
            )
        },
    ensures
        came_about_plain(
            u32xor_outcome::<P>(old(processor).items(), old(processor).rest()),
            *old(processor),
            *final(processor),
            r,
        ),
        final(tracer).state() == if valid_operands(old(processor).items(), 2) {
            let event = TracerEvent::U32Xor(old(processor).items()[1], old(processor).items()[0]);
            told::<T>(
                T::after(old(tracer).state(), event),
                P::pop_event(old(processor).items(), old(processor).rest()),
            )
        } else {
            old(tracer).state()
        },
{
    proof {
        processor.lemma_items();
    }
    require_u32_operands(processor, 2, Felt::zero())?;
    let b = processor.get(0);
    let a = processor.get(1);
    tracer.record_u32xor(a, b);

    let result: u64 = a.as_int() ^ b.as_int();

    processor.decrement_size(tracer);
    processor.set(0, Felt::new(result));
    Ok(())
}

/// Fails with the given code unless the topmost two stack elements are 32-bit values; the stack
/// stays as it is.
pub fn op_u32assert2<P: Processor, T: Tracer>(
    processor: &mut P,
    err_code: Felt,
    tracer: &mut T,
) -> (r: Result<[Felt; 6], ExecutionError>)
    requires
        valid_operands(old(processor).items(), 2) ==> T::allows(
            old(tracer).state(),
            TracerEvent::U32RangeChecks(
                P::clk_of(old(processor).rest()),
                old(processor).items()[0],
                old(processor).items()[1],
            ),
        ),
    ensures
        came_about(
            u32assert2_outcome::<P>(old(processor).items(), old(processor).rest(), err_code),
            *old(processor),
            *final(processor),
            r,
        ),
        final(tracer).state() == if valid_operands(old(processor).items(), 2) {
            T::after(
                old(tracer).state(),
                TracerEvent::U32RangeChecks(
                    P::clk_of(old(processor).rest()),
                    old(processor).items()[0],
                    old(processor).items()[1],
                ),
            )
        } else {
            old(tracer).state()
        },
{
    proof {
        processor.lemma_items();
    }
    require_u32_operands(processor, 2, err_code)?;
    let first = processor.get(0);
    let second = processor.get(1);

    tracer.record_u32_range_checks(processor.clk(), first, second);

    Ok(P::HelperRegisters::op_u32assert2_registers(first, second))
}

} // verus!
