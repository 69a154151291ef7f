//! What holds of the evaluation of circuits.

use crate::ace::AceRow;
use crate::ace::CircuitModel;
use crate::context::ContextId;
use crate::context::RowIndex;
use crate::errors::AceError;
use crate::felt::felt;
use crate::felt::lemma_felt_remainder;
use crate::felt::lemma_felt_view;
use crate::felt::Felt;
use crate::felt::MODULUS;
use crate::parallel::circuit::circuit_evaluated;
use crate::parallel::circuit::instructions_evaluated;
use crate::parallel::circuit::variables_read;
use crate::parallel::circuit::EvalFlow;
use crate::quad_felt::quad_difference;
use crate::quad_felt::quad_felt;
use crate::quad_felt::quad_product;
use crate::quad_felt::quad_sum;
use crate::quad_felt::QuadFelt;
use crate::trace_state::MemoryModel;
use crate::tracer::NoopTracer;
use crate::tracer::Tracer;
use crate::tracer::TracerEvent;
use crate::word::Word;
use vstd::arithmetic::div_mod::lemma_add_mod_noop;
use vstd::arithmetic::div_mod::lemma_fundamental_div_mod_converse;
use vstd::arithmetic::div_mod::lemma_mod_twice;
use vstd::prelude::*;

verus! {

/// The integer that encodes an instruction: the number of the left wire in the lowest thirty bits,
/// that of the right wire in the next thirty, and the operation above them.
pub open spec fn encoded(left: int, right: int, op: int) -> int {
    left + 0x4000_0000 * right + 0x1000_0000_0000_0000 * op
}

/// Of `n` wires, the first that gets a value has the number `n - 1`, the next one `n - 2`, and so
/// on.
pub open spec fn wire_value(c: CircuitModel, number: int) -> QuadFelt {
    c.wires[2 * c.num_read_rows + c.num_eval_rows - 1 - number]
}

/// Whether a wire has a value.
pub open spec fn has_value(c: CircuitModel, number: int) -> bool {
    0 <= 2 * c.num_read_rows + c.num_eval_rows - 1 - number < c.wires.len()
}

/// An instruction takes the values of its left and its right wire and gives the next wire their
/// difference if its operation is zero, the left value minus the right one, their product if it is
/// one, and their sum if it is two. Where the operation is another one, it cannot be decoded; where
/// one of the wires has no value yet, it cannot be evaluated.
pub proof fn law_instruction(
    c: CircuitModel,
    ptr: Felt,
    instruction: Felt,
    left: int,
    right: int,
    op: int,
)
    requires
        0 <= left < 0x4000_0000,
        0 <= right < 0x4000_0000,
        0 <= op < 16,
        instruction@ == encoded(left, right, op),
    ensures
        ({
            let r = c.eval(ptr, instruction);
            let (x, y) = (wire_value(c, left), wire_value(c, right));
            &&& op > 2 ==> r == Err::<CircuitModel, AceError>(AceError::FailedDecodeInstruction)
            &&& op <= 2 && !(has_value(c, left) && has_value(c, right)) ==> r == Err::<
                CircuitModel,
                AceError,
            >(AceError::FailedMemoryRead)
            &&& op <= 2 && has_value(c, left) && has_value(c, right) ==> (r matches Ok(after) && {
                &&& after.wires.len() == c.wires.len() + 1
                &&& after.wires.drop_last() == c.wires
                &&& op == 0 ==> after.wires.last() == quad_difference(x, y)
                &&& op == 1 ==> after.wires.last() == quad_product(x, y)
                &&& op == 2 ==> after.wires.last() == quad_sum(x, y)
                &&& after.rows.len() == c.rows.len() + 1
                &&& after.rows.drop_last() == c.rows
                &&& after.rows.last() == AceRow::Eval { ptr, instruction }
                &&& after == (CircuitModel { wires: after.wires, rows: after.rows, ..c })
            })
        }),
{
    let i = instruction@ as int;
    assert(i == (right + 0x4000_0000 * op) * 0x4000_0000 + left);
    lemma_fundamental_div_mod_converse(i, 0x4000_0000, right + 0x4000_0000 * op, left);
    lemma_fundamental_div_mod_converse(right + 0x4000_0000 * op, 0x4000_0000, op, right);
    lemma_fundamental_div_mod_converse(
        i,
        0x1000_0000_0000_0000,
        op,
        left + 0x4000_0000 * right,
    );
    if let Ok(after) = c.eval(ptr, instruction) {
        assert(after.wires.drop_last() =~= c.wires);
        assert(after.rows.drop_last() =~= c.rows);
    }
}

/// A word that is read gives the next two wires their values: its first two elements the first,
/// its last two elements the second.
pub proof fn law_word_read(c: CircuitModel, ptr: Felt, word: Word)
    ensures
        ({
            let after = c.read(ptr, word);
            let n = c.wires.len() as int;
            &&& after.wires.len() == n + 2
            &&& after.wires.take(n) == c.wires
            &&& after.wires[n] == quad_felt(word.e0, word.e1)
            &&& after.wires[n + 1] == quad_felt(word.e2, word.e3)
            &&& after.rows.len() == c.rows.len() + 1
            &&& after.rows.drop_last() == c.rows
            &&& after.rows.last() == AceRow::Read { ptr, word }
            &&& after == (CircuitModel { wires: after.wires, rows: after.rows, ..c })
        }),
{
    let after = c.read(ptr, word);
    assert(after.wires.take(c.wires.len() as int) =~= c.wires);
    assert(after.rows.drop_last() =~= c.rows);
}

/// The output of a circuit is the value of its last wire, which has the number zero, once all wires
/// have values.
pub proof fn law_output(c: CircuitModel)
    requires
        0 < c.wires.len(),
    ensures
        c.wires.len() == 2 * c.num_read_rows + c.num_eval_rows ==> c.output() == Some(
            wire_value(c, 0),
        ),
        c.wires.len() != 2 * c.num_read_rows + c.num_eval_rows ==> c.output() is None,
{
}

/// The address after a number of steps of a size.
proof fn lemma_next_address(ptr: Felt, n: int, step: int, p: Felt)
    requires
        p == felt(ptr@ + step * n),
    ensures
        felt(p@ + step) == felt(ptr@ + step * (n + 1)),
{
    let i = ptr@ + step * n;
    lemma_felt_view(i);
    let m = MODULUS as int;
    lemma_add_mod_noop(i, step, m);
    lemma_add_mod_noop(i % m, step, m);
    lemma_mod_twice(i, m);
    lemma_felt_remainder(p@ + step);
    lemma_felt_remainder(i + step);
    assert(step * (n + 1) == step * n + step) by (nonlinear_arith);
}

/// Variables are read from consecutive words, four addresses apart, from the address on; each
/// word that is read uses up one recorded word, is told to the tracer with its address, and is
/// taken over in the order in which it comes.
pub proof fn law_variables_read<T: Tracer>(
    memory: MemoryModel,
    t: T::State,
    circuit: CircuitModel,
    ptr: Felt,
    n: int,
)
    requires
        0 < n,
        ptr == felt(ptr@ as int),
    ensures
        variables_read::<T>(memory, t, circuit, ptr, n) matches EvalFlow::Going(
            left,
            told,
            after,
            next,
        ) ==> {
            &&& next == felt(ptr@ + 4 * n)
            &&& n <= memory.words.len()
            &&& left.words == memory.words.skip(n)
            &&& left.elements == memory.elements
            &&& after.wires.len() == circuit.wires.len() + 2 * n
            &&& forall|i: int|
                0 <= i < n ==> {
                    let word = (#[trigger] memory.words[i]).0;
                    &&& memory.words[i].1 == felt(ptr@ + 4 * i)
                    &&& after.wires[circuit.wires.len() + 2 * i] == quad_felt(word.e0, word.e1)
                    &&& after.wires[circuit.wires.len() + 2 * i + 1] == quad_felt(word.e2, word.e3)
                }
            &&& after == (CircuitModel { wires: after.wires, rows: after.rows, ..circuit })
            &&& variables_read::<T>(memory, t, circuit, ptr, n - 1) matches EvalFlow::Going(
                _,
                before,
                _,
                _,
            ) && told == T::after(
                before,
                TracerEvent::MemoryReadWord(
                    memory.words[n - 1].0,
                    felt(ptr@ + 4 * (n - 1)),
                    circuit.ctx,
                    circuit.clk,
                ),
            )
        },
    decreases n,
{
    if n > 1 {
        law_variables_read::<T>(memory, t, circuit, ptr, n - 1);
    } else {
        assert(variables_read::<T>(memory, t, circuit, ptr, 0) == EvalFlow::Going(
            memory,
            t,
            circuit,
            ptr,
        ));
        assert(memory.words.skip(0) =~= memory.words);
    }
    if let EvalFlow::Going(m1, _, c1, p1) = variables_read::<T>(
        memory,
        t,
        circuit,
        ptr,
        n - 1,
    ) {
        lemma_next_address(ptr, n - 1, 4, p1);
        if m1.words.len() > 0 {
            assert(m1.words[0] == memory.words[n - 1]);
            assert(m1.words.drop_first() =~= memory.words.skip(n));
        }
    }
}

/// Instructions are read from consecutive elements, one address apart, from the address on; each
/// uses up one recorded element, is told to the tracer with its address, and gives one more wire
/// its value.
pub proof fn law_instructions_read<T: Tracer>(
    memory: MemoryModel,
    t: T::State,
    circuit: CircuitModel,
    ptr: Felt,
    n: int,
)
    requires
        0 < n,
        ptr == felt(ptr@ as int),
    ensures
        instructions_evaluated::<T>(memory, t, circuit, ptr, n) matches EvalFlow::Going(
            left,
            told,
            after,
            next,
        ) ==> {
            &&& next == felt(ptr@ + n)
            &&& n <= memory.elements.len()
            &&& left.elements == memory.elements.skip(n)
            &&& left.words == memory.words
            &&& after.wires.len() == circuit.wires.len() + n
            &&& forall|i: int|
                0 <= i < n ==> (#[trigger] memory.elements[i]).1 == felt(ptr@ + i)
            &&& instructions_evaluated::<T>(memory, t, circuit, ptr, n - 1) matches
                EvalFlow::Going(_, told_before, before, at) && {
                &&& at == felt(ptr@ + (n - 1))
                &&& before.eval(at, memory.elements[n - 1].0) == Ok::<CircuitModel, AceError>(after)
                &&& told == T::after(
                    told_before,
                    TracerEvent::MemoryReadElement(
                        memory.elements[n - 1].0,
                        at,
                        circuit.ctx,
                        circuit.clk,
                    ),
                )
            }
            &&& after == (CircuitModel { wires: after.wires, rows: after.rows, ..circuit })
        },
    decreases n,
{
    if n > 1 {
        law_instructions_read::<T>(memory, t, circuit, ptr, n - 1);
    } else {
        assert(instructions_evaluated::<T>(memory, t, circuit, ptr, 0)
            == EvalFlow::Going(memory, t, circuit, ptr));
        assert(memory.elements.skip(0) =~= memory.elements);
    }
    if let EvalFlow::Going(m1, _, c1, p1) = instructions_evaluated::<T>(
        memory,
        t,
        circuit,
        ptr,
        n - 1,
    ) {
        lemma_next_address(ptr, n - 1, 1, p1);
        if m1.elements.len() > 0 {
            assert(m1.elements[0] == memory.elements[n - 1]);
            assert(m1.elements.drop_first() =~= memory.elements.skip(n));
        }
    }
}

/// A circuit is refused before anything is read if it has more than 2^30 - 1 wires, an odd number
/// of variables or none, or a number of instructions that is no multiple of four or zero; in this
/// order. A circuit that is accepted ends in a wire whose value is zero, in both coefficients.
pub proof fn law_circuit_accepted(
    memory: MemoryModel,
    ctx: ContextId,
    clk: RowIndex,
    ptr: Felt,
    num_vars: int,
    num_eval: int,
)
    requires
        0 <= num_vars <= u64::MAX,
        0 <= num_eval <= u64::MAX,
        num_vars + num_eval <= u64::MAX,
    ensures
        ({
            let r = circuit_evaluated::<NoopTracer>(
                memory,
                (),
                ctx,
                clk,
                ptr,
                num_vars,
                num_eval,
            );
            let refused = |e: AceError| EvalFlow::Failed::<()>(memory, (), e);
            let n = num_vars + num_eval;
            &&& n > 0x3fff_ffff ==> r == refused(AceError::TooManyWires(n as u64))
            &&& n <= 0x3fff_ffff && (num_vars == 0 || num_vars % 2 == 1) ==> r == refused(
                AceError::NumVarIsNotWordAlignedOrIsEmpty(num_vars as u64),
            )
            &&& n <= 0x3fff_ffff && num_vars > 0 && num_vars % 2 == 0 && (num_eval == 0 || num_eval
                % 4 != 0) ==> r == refused(
                AceError::NumEvalIsNotWordAlignedOrIsEmpty(num_eval as u64),
            )
            &&& r matches EvalFlow::Going(_, _, c, _) ==> {
                &&& n <= 0x3fff_ffff
                &&& 0 < num_vars && num_vars % 2 == 0
                &&& 0 < num_eval && num_eval % 4 == 0
                &&& c.wires.len() > 0
                &&& c.wires.len() == c.num_wires()
                &&& c.wires.last().inner0 == 0
                &&& c.wires.last().inner1 == 0
                &&& c.ctx == ctx
                &&& c.clk == clk
                &&& c.num_read_rows == num_vars / 2
                &&& c.num_eval_rows == num_eval
            }
        }),
{
    if 0 < num_vars <= 0x3fff_ffff && 0 < num_eval <= 0x3fff_ffff {
        let fresh = CircuitModel::fresh(ctx, clk, (num_vars / 2) as u32, num_eval as u32);
        lemma_same_circuit(memory, fresh, ptr, num_vars / 2);
        if let EvalFlow::Going(m1, _, c1, p1) = variables_read::<NoopTracer>(
            memory,
            (),
            fresh,
            ptr,
            num_vars / 2,
        ) {
            lemma_same_circuit(m1, c1, p1, num_eval);
        }
    }
}

proof fn lemma_same_circuit(memory: MemoryModel, circuit: CircuitModel, ptr: Felt, n: int)
    ensures
        variables_read::<NoopTracer>(memory, (), circuit, ptr, n) matches EvalFlow::Going(
            _,
            _,
            c,
            _,
        ) ==> c == (CircuitModel { wires: c.wires, rows: c.rows, ..circuit }),
        instructions_evaluated::<NoopTracer>(memory, (), circuit, ptr, n) matches EvalFlow::Going(
            _,
            _,
            c,
            _,
        ) ==> c == (CircuitModel { wires: c.wires, rows: c.rows, ..circuit }),
    decreases n,
{
    if n > 0 {
        lemma_same_circuit(memory, circuit, ptr, n - 1);
    }
}

} // verus!
