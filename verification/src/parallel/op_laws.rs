//! What the operations of a fragment do to its stack.
//!
//! The stack is read off the state of the generator: the top of the stack is element 15.

use crate::ace::CircuitModel;
use crate::ace_laws::law_circuit_accepted;
use crate::ace_laws::law_instructions_read;
use crate::ace_laws::law_variables_read;
use crate::felt::felt;
use crate::felt::lemma_felt_remainder;
use crate::felt::lemma_felt_view;
use crate::felt::Felt;
use crate::felt::MODULUS;
use crate::helper_laws::has_bit;
use crate::helper_laws::law_bits;
use crate::mast::Operation;
use crate::parallel::circuit::variables_read;
use crate::parallel::circuit::EvalFlow;
use crate::parallel::execution::OpOutcome;
use crate::parallel::generator::lemma_with_items;
use crate::parallel::generator::stripped;
use crate::parallel::generator::top_items;
use crate::parallel::generator::CoreTraceFragmentGenerator;
use crate::parallel::model::GeneratorModel;
use crate::parallel::sync_ops::arithmetic_outcome;
use crate::stack_laws::law_generator_stack;
use crate::trace_state::StackModel;
use crate::tracer::NoopTracer;
use crate::u32_laws::law_u32add;
use crate::u32_laws::law_u32add3;
use crate::u32_laws::law_u32assert2;
use crate::u32_laws::law_u32bitwise;
use crate::u32_laws::law_u32div;
use crate::u32_laws::law_u32madd;
use crate::u32_laws::law_u32mul;
use crate::u32_laws::law_u32split;
use crate::u32_laws::law_u32sub;
use crate::u32_ops::valid_operands;
use vstd::prelude::*;

verus! {

/// An element of the stack, counted from the top.
pub open spec fn element(stack: StackModel, i: int) -> Felt {
    stack.top[15 - i]
}

/// Whether the topmost elements are 32-bit values.
pub open spec fn u32_on_top(stack: StackModel, n: int) -> bool {
    forall|i: int| 0 <= i < n ==> (#[trigger] element(stack, i))@ <= 0xffff_ffff
}

/// Whether two elements are the upper and the lower 32 bits of a value.
pub open spec fn makes_up(hi: Felt, lo: Felt, value: int) -> bool {
    &&& hi@ <= 0xffff_ffff
    &&& lo@ <= 0xffff_ffff
    &&& 0x1_0000_0000 * hi@ + lo@ == value
}

/// Whether the elements from one on are the same, and as many.
pub open spec fn stays_from(before: StackModel, after: StackModel, n: int) -> bool {
    &&& forall|i: int| n <= i < 16 ==> #[trigger] element(after, i) == element(before, i)
    &&& after.depth == before.depth
    &&& after.overflow_addr == before.overflow_addr
}

/// Whether the elements from one on are those that were one below, and there is one fewer, unless
/// there are sixteen; the last one comes from the overflow table.
pub open spec fn shrinks_from(s: GeneratorModel, t: GeneratorModel, n: int) -> bool {
    let (before, after) = (s.context.stack, t.context.stack);
    let recorded = s.context.replay.stack_overflow.overflow_values;
    &&& forall|i: int| n <= i < 15 ==> #[trigger] element(after, i) == element(before, i + 1)
    &&& if before.depth > 16 {
        &&& recorded.len() > 0
        &&& element(after, 15) == recorded[0].0
        &&& after.overflow_addr == recorded[0].1
        &&& after.depth == before.depth - 1
        &&& t.context.replay.stack_overflow.overflow_values == recorded.drop_first()
    } else {
        &&& element(after, 15)@ == 0
        &&& after.overflow_addr@ == 0
        &&& after.depth == 16
        &&& t.context.replay.stack_overflow == s.context.replay.stack_overflow
    }
}

proof fn lemma_operands(s: GeneratorModel, n: int)
    requires
        s.context.stack.top.len() == 16,
        0 <= n <= 16,
    ensures
        valid_operands(top_items(s), n) <==> u32_on_top(s.context.stack, n),
{
    if valid_operands(top_items(s), n) {
        assert forall|i: int| 0 <= i < n implies (#[trigger] element(s.context.stack, i))@
            <= 0xffff_ffff by {
            assert(top_items(s)[i]@ <= 0xffff_ffff);
        }
    }
    if u32_on_top(s.context.stack, n) {
        assert forall|i: int| 0 <= i < n implies (#[trigger] top_items(s)[i])@ <= 0xffff_ffff by {
            assert(element(s.context.stack, i)@ <= 0xffff_ffff);
        }
    }
}

/// The operations on two 32-bit values that leave two: U32ADD leaves the carry and the sum, U32SUB
/// the borrow and the difference of the second element and the first, U32MUL the upper and the
/// lower bits of the product, and U32DIV the remainder and the quotient of the second element
/// divided by the first. They fail unless both elements are 32-bit values, and U32DIV moreover if
/// the first is zero. All other elements stay.
pub proof fn law_two_to_two(s: GeneratorModel, op: Operation)
    requires
        s.context.stack.top.len() == 16,
        op.op_code == 0x40 || op.op_code == 0x42 || op.op_code == 0x44 || op.op_code == 0x46,
    ensures
        ({
            let (a, b) = (element(s.context.stack, 0)@, element(s.context.stack, 1)@);
            match arithmetic_outcome(s, op) {
                OpOutcome::Done(t, helpers) => {
                    let (x, y) = (element(t.context.stack, 0), element(t.context.stack, 1));
                    &&& u32_on_top(s.context.stack, 2)
                    &&& helpers is Some
                    &&& stays_from(s.context.stack, t.context.stack, 2)
                    &&& t.context.replay == s.context.replay
                    &&& t.context.system == s.context.system
                    &&& op.op_code == 0x40 ==> makes_up(x, y, a + b)
                    &&& op.op_code == 0x42 ==> {
                        &&& x@ == if a > b {
                            1int
                        } else {
                            0int
                        }
                        &&& y@ <= 0xffff_ffff
                        &&& b + 0x1_0000_0000 * x@ == a + y@
                    }
                    &&& op.op_code == 0x44 ==> makes_up(x, y, a * b)
                    &&& op.op_code == 0x46 ==> x@ < a && b == y@ * a + x@
                },
                OpOutcome::Failed => !u32_on_top(s.context.stack, 2) || op.op_code == 0x46 && a
                    == 0,
                OpOutcome::Panics => false,
            }
        }),
{
    let (items, rest) = (top_items(s), stripped(s));
    lemma_operands(s, 2);
    if valid_operands(items, 2) {
        law_u32add::<CoreTraceFragmentGenerator>(items, rest);
        law_u32sub::<CoreTraceFragmentGenerator>(items, rest, 0);
        law_u32mul::<CoreTraceFragmentGenerator>(items, rest);
        if items[0]@ != 0 {
            law_u32div::<CoreTraceFragmentGenerator>(items, rest);
        }
        if let OpOutcome::Done(t, _) = arithmetic_outcome(s, op) {
            assert forall|i: int| 2 <= i < 16 implies #[trigger] element(t.context.stack, i)
                == element(s.context.stack, i) by {
                let after = top_items(t);
                assert(after[i] == after.skip(2)[i - 2]);
                assert(items[i] == items.skip(2)[i - 2]);
            }
        }
    }
}

/// The operations on three 32-bit values that leave two: U32ADD3 leaves the upper and the lower bits
/// of their sum, U32MADD those of the product of the first two plus the third. They fail unless all
/// three are 32-bit values. The other elements move up by one.
pub proof fn law_three_to_two(s: GeneratorModel, op: Operation)
    requires
        s.context.stack.top.len() == 16,
        16 <= s.context.stack.depth < usize::MAX,
        op.op_code == 0x4c || op.op_code == 0x4e,
    ensures
        ({
            let (a, b) = (element(s.context.stack, 0)@, element(s.context.stack, 1)@);
            let c = element(s.context.stack, 2)@;
            match arithmetic_outcome(s, op) {
                OpOutcome::Done(t, helpers) => {
                    let (x, y) = (element(t.context.stack, 0), element(t.context.stack, 1));
                    &&& u32_on_top(s.context.stack, 3)
                    &&& helpers is Some
                    &&& shrinks_from(s, t, 2)
                    &&& t.context.system == s.context.system
                    &&& op.op_code == 0x4c ==> makes_up(x, y, a + b + c)
                    &&& op.op_code == 0x4e ==> makes_up(x, y, a * b + c)
                },
                OpOutcome::Failed => !u32_on_top(s.context.stack, 3),
                OpOutcome::Panics => u32_on_top(s.context.stack, 3) && s.context.stack.depth > 16
                    && s.context.replay.stack_overflow.overflow_values.len() == 0,
            }
        }),
{
    let (items, rest) = (top_items(s), stripped(s));
    lemma_operands(s, 3);
    law_generator_stack(rest, felt(0));
    if valid_operands(items, 3) {
        law_u32add3::<CoreTraceFragmentGenerator>(items, rest);
        law_u32madd::<CoreTraceFragmentGenerator>(items, rest);
        if let OpOutcome::Done(t, _) = arithmetic_outcome(s, op) {
            let after = top_items(t);
            assert forall|i: int| 2 <= i < 15 implies #[trigger] element(t.context.stack, i)
                == element(s.context.stack, i + 1) by {
                assert(after[i] == after.skip(2)[i - 2]);
                assert(items[i + 1] == items.skip(3)[i - 2]);
            }
            assert(element(t.context.stack, 15) == after.skip(2)[13]);
        }
    }
}

/// U32AND and U32XOR leave the value that has the bits which both elements have, or which just one
/// of them has, and have no helper registers. They fail unless both are 32-bit values. The other
/// elements move up by one.
pub proof fn law_two_to_one(s: GeneratorModel, op: Operation, i: u64)
    requires
        s.context.stack.top.len() == 16,
        16 <= s.context.stack.depth < usize::MAX,
        op.op_code == 0x26 || op.op_code == 0x27,
        i < 64,
    ensures
        ({
            let (a, b) = (element(s.context.stack, 0)@, element(s.context.stack, 1)@);
            match arithmetic_outcome(s, op) {
                OpOutcome::Done(t, helpers) => {
                    let x = element(t.context.stack, 0)@;
                    &&& u32_on_top(s.context.stack, 2)
                    &&& helpers is None
                    &&& shrinks_from(s, t, 1)
                    &&& t.context.system == s.context.system
                    &&& op.op_code == 0x26 ==> (has_bit(x, i) <==> has_bit(a, i) && has_bit(b, i))
                    &&& op.op_code == 0x27 ==> (has_bit(x, i) <==> has_bit(a, i) != has_bit(b, i))
                },
                OpOutcome::Failed => !u32_on_top(s.context.stack, 2),
                OpOutcome::Panics => u32_on_top(s.context.stack, 2) && s.context.stack.depth > 16
                    && s.context.replay.stack_overflow.overflow_values.len() == 0,
            }
        }),
{
    let (items, rest) = (top_items(s), stripped(s));
    lemma_operands(s, 2);
    law_generator_stack(rest, felt(0));
    if valid_operands(items, 2) {
        law_u32bitwise::<CoreTraceFragmentGenerator>(items, rest);
        law_bits(items, rest, i);
        if let OpOutcome::Done(t, _) = arithmetic_outcome(s, op) {
            let after = top_items(t);
            assert forall|j: int| 1 <= j < 15 implies #[trigger] element(t.context.stack, j)
                == element(s.context.stack, j + 1) by {
                assert(after[j] == after.skip(1)[j - 1]);
                assert(items[j + 1] == items.skip(2)[j - 1]);
            }
            assert(element(t.context.stack, 15) == after.skip(1)[14]);
        }
    }
}

/// U32SPLIT leaves the upper and the lower 32 bits of the top of the stack; the other elements move
/// down by one, and the overflow address becomes the clock cycle.
pub proof fn law_one_to_two(s: GeneratorModel, op: Operation)
    requires
        s.context.stack.top.len() == 16,
        16 <= s.context.stack.depth < usize::MAX,
        element(s.context.stack, 0)@ < MODULUS,
        op.op_code == 0x48,
    ensures
        arithmetic_outcome(s, op) matches OpOutcome::Done(t, helpers) && {
            let (before, after) = (s.context.stack, t.context.stack);
            &&& helpers is Some
            &&& makes_up(element(after, 0), element(after, 1), element(before, 0)@ as int)
            &&& forall|i: int| 2 <= i < 16 ==> #[trigger] element(after, i) == element(before, i - 1)
            &&& after.depth == before.depth + 1
            &&& after.overflow_addr == felt(s.context.system.clk as int)
            &&& t.context.replay == s.context.replay
            &&& t.context.system == s.context.system
        },
{
    let (items, rest) = (top_items(s), stripped(s));
    law_generator_stack(rest, items[15]);
    law_u32split::<CoreTraceFragmentGenerator>(items, rest);
    if let OpOutcome::Done(t, _) = arithmetic_outcome(s, op) {
        assert forall|i: int| 2 <= i < 16 implies #[trigger] element(t.context.stack, i)
            == element(s.context.stack, i - 1) by {
            assert(top_items(t)[i] == items[i - 1]);
        }
    }
}

/// NOOP changes nothing. U32ASSERT2 changes nothing either, and fails unless the two topmost
/// elements are 32-bit values.
pub proof fn law_stack_left_alone(s: GeneratorModel, op: Operation)
    requires
        s.context.stack.top.len() == 16,
        op.op_code == 0 || op.op_code == 0x4a,
    ensures
        match arithmetic_outcome(s, op) {
            OpOutcome::Done(t, helpers) => {
                &&& t == s
                &&& helpers is Some <==> op.op_code == 0x4a
                &&& op.op_code == 0x4a ==> u32_on_top(s.context.stack, 2)
            },
            OpOutcome::Failed => op.op_code == 0x4a && !u32_on_top(s.context.stack, 2),
            OpOutcome::Panics => false,
        },
{
    lemma_operands(s, 2);
    lemma_with_items(s);
    law_u32assert2::<CoreTraceFragmentGenerator>(top_items(s), stripped(s), op.err_code);
}

/// EVALCIRCUIT leaves the stack alone and has no helper registers; it uses up words that were read
/// from memory. An operation of any other code fails.
pub proof fn law_other_operations(s: GeneratorModel, op: Operation)
    requires
        op.op_code == 0x5d || op.op_code != 0 && op.op_code != 0x26 && op.op_code != 0x27
            && op.op_code != 0x40 && op.op_code != 0x42 && op.op_code != 0x44 && op.op_code != 0x46
            && op.op_code != 0x48 && op.op_code != 0x4a && op.op_code != 0x4c && op.op_code != 0x4e,
    ensures
        op.op_code != 0x5d ==> arithmetic_outcome(s, op) is Failed,
        arithmetic_outcome(s, op) matches OpOutcome::Done(t, helpers) ==> {
            &&& helpers is None
            &&& t.context.stack == s.context.stack
            &&& t.context.system == s.context.system
            &&& t.context.decoder == s.context.decoder
            &&& t.context.replay.stack_overflow == s.context.replay.stack_overflow
            &&& t.context.replay.block_stack == s.context.replay.block_stack
            &&& t.context.replay.hasher == s.context.replay.hasher
            &&& t.context.replay.advice == s.context.replay.advice
            &&& t.columns == s.columns
        },
{
}

/// A circuit is evaluated from the address on top of the stack, with as many variables as the second
/// element says and as many instructions as the third. Half as many words as variables are used up,
/// from that address on, four addresses apart, and then as many elements as instructions, from the
/// address behind the variables on.
pub proof fn law_circuit_operation(s: GeneratorModel, op: Operation)
    requires
        op.op_code == 0x5d,
        element(s.context.stack, 0) == felt(element(s.context.stack, 0)@ as int),
    ensures
        arithmetic_outcome(s, op) matches OpOutcome::Done(t, _) ==> {
            let ptr = element(s.context.stack, 0)@;
            let num_vars = element(s.context.stack, 1)@ as int;
            let num_eval = element(s.context.stack, 2)@ as int;
            let (before, after) = (s.context.replay.memory_reads, t.context.replay.memory_reads);
            &&& 0 < num_vars && num_vars % 2 == 0
            &&& 0 < num_eval && num_eval % 4 == 0
            &&& num_vars + num_eval <= 0x3fff_ffff
            &&& after.words == before.words.skip(num_vars / 2)
            &&& after.elements == before.elements.skip(num_eval)
            &&& forall|i: int|
                0 <= i < num_vars / 2 ==> (#[trigger] before.words[i]).1 == felt(ptr + 4 * i)
            &&& before.elements[0].1 == felt(ptr + 2 * num_vars)
        },
{
    let ptr = element(s.context.stack, 0);
    let num_vars = element(s.context.stack, 1)@ as int;
    let num_eval = element(s.context.stack, 2)@ as int;
    let memory = s.context.replay.memory_reads;
    let (ctx, clk) = (s.context.system.ctx, s.context.system.clk);
    if arithmetic_outcome(s, op) is Done {
        law_circuit_accepted(memory, ctx, clk, ptr, num_vars, num_eval);
        let fresh = CircuitModel::fresh(ctx, clk, (num_vars / 2) as u32, num_eval as u32);
        law_variables_read::<NoopTracer>(memory, (), fresh, ptr, num_vars / 2);
        if let EvalFlow::Going(m1, _, c1, p1) = variables_read::<NoopTracer>(
            memory,
            (),
            fresh,
            ptr,
            num_vars / 2,
        ) {
            lemma_felt_view(ptr@ + 4 * (num_vars / 2));
            assert(felt(p1@ as int) == p1) by {
                lemma_felt_remainder(ptr@ + 4 * (num_vars / 2));
            }
            law_instructions_read::<NoopTracer>(m1, (), c1, p1, num_eval);
        }
    }
}

} // verus!
