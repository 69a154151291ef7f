//! Execution of the operations on 32-bit values and of the evaluation of circuits.

use crate::errors::ExecutionError;
use crate::felt::Felt;
use crate::layout::MIN_STACK_DEPTH;
use crate::layout::OPCODE_EVALCIRCUIT;
use crate::layout::OPCODE_NOOP;
use crate::layout::OPCODE_U32ADD;
use crate::layout::OPCODE_U32ADD3;
use crate::layout::OPCODE_U32AND;
use crate::layout::OPCODE_U32ASSERT2;
use crate::layout::OPCODE_U32DIV;
use crate::layout::OPCODE_U32MADD;
use crate::layout::OPCODE_U32MUL;
use crate::layout::OPCODE_U32SPLIT;
use crate::layout::OPCODE_U32SUB;
use crate::layout::OPCODE_U32XOR;
use crate::mast::MastForest;
use crate::mast::Operation;
use crate::parallel::circuit::circuit_evaluated;
use crate::parallel::circuit::lemma_circuit_later;
use crate::parallel::circuit::with_reads;
use crate::parallel::circuit::EvalFlow;
use crate::parallel::execution::same_frame;
use crate::parallel::execution::same_machine;
use crate::parallel::execution::OpOutcome;
use crate::parallel::execution::SyncOps;
use crate::parallel::generator::lemma_with_items;
use crate::parallel::generator::stripped;
use crate::parallel::generator::top_items;
use crate::parallel::generator::with_items;
use crate::parallel::generator::CoreTraceFragmentGenerator;
use crate::parallel::model::GeneratorModel;
use crate::processor::StackInterface;
use crate::trace_state::lemma_stack_top_len;
use crate::trace_state::ReplayModel;
use crate::tracer::NoopTracer;
use crate::u32_ops::op_u32add;
use crate::u32_ops::op_u32add3;
use crate::u32_ops::op_u32and;
use crate::u32_ops::op_u32assert2;
use crate::u32_ops::op_u32div;
use crate::u32_ops::op_u32madd;
use crate::u32_ops::op_u32mul;
use crate::u32_ops::op_u32split;
use crate::u32_ops::op_u32sub;
use crate::u32_ops::op_u32xor;
use crate::u32_ops::u32add3_outcome;
use crate::u32_ops::u32add_outcome;
use crate::u32_ops::u32and_outcome;
use crate::u32_ops::u32assert2_outcome;
use crate::u32_ops::u32div_outcome;
use crate::u32_ops::u32madd_outcome;
use crate::u32_ops::u32mul_outcome;
use crate::u32_ops::u32split_outcome;
use crate::u32_ops::u32sub_outcome;
use crate::u32_ops::u32xor_outcome;
use crate::u32_ops::valid_operands;
use crate::u32_ops::U32Outcome;
use vstd::prelude::*;

verus! {

/// Executes NOOP, the operations on 32-bit values and EVALCIRCUIT; reports an error for any other
/// operation.
pub struct ArithmeticOps;

/// What an operation on 32-bit values leads to, with its helper registers if it has any.
pub open spec fn u32_op_outcome(outcome: U32Outcome<GeneratorModel>, has_helpers: bool) -> OpOutcome {
    match outcome {
        U32Outcome::Done(items, rest, helpers) => OpOutcome::Done(
            with_items(rest, items),
            if has_helpers {
                Some(helpers)
            } else {
                None
            },
        ),
        _ => OpOutcome::Failed,
    }
}

/// The same for an operation that removes an element from the stack, which the recording of the
/// overflow table must allow.
pub open spec fn popping_outcome(
    s: GeneratorModel,
    num_operands: int,
    outcome: U32Outcome<GeneratorModel>,
    has_helpers: bool,
) -> OpOutcome {
    if valid_operands(top_items(s), num_operands) && !CoreTraceFragmentGenerator::can_pop(
        stripped(s),
    ) {
        OpOutcome::Panics
    } else {
        u32_op_outcome(outcome, has_helpers)
    }
}

/// What the evaluation of a circuit leads to.
pub open spec fn eval_circuit_outcome(s: GeneratorModel) -> OpOutcome {
    match circuit_evaluated::<NoopTracer>(
        s.context.replay.memory_reads,
        (),
        s.context.system.ctx,
        s.context.system.clk,
        s.item(0),
        s.item(1)@ as int,
        s.item(2)@ as int,
    ) {
        EvalFlow::Going(m, _, _, _) => OpOutcome::Done(with_reads(s, m), None),
        EvalFlow::Failed(_, _, _) => OpOutcome::Failed,
        EvalFlow::Panics => OpOutcome::Panics,
    }
}

/// What an operation leads to.
pub open spec fn arithmetic_outcome(s: GeneratorModel, op: Operation) -> OpOutcome {
    let (items, rest) = (top_items(s), stripped(s));
    if op.op_code == OPCODE_NOOP {
        OpOutcome::Done(s, None)
    } else if op.op_code == OPCODE_U32SPLIT {
        if CoreTraceFragmentGenerator::can_push(rest) {
            u32_op_outcome(u32split_outcome::<CoreTraceFragmentGenerator>(items, rest), true)
        } else {
            OpOutcome::Panics
        }
    } else if op.op_code == OPCODE_U32ADD {
        u32_op_outcome(u32add_outcome::<CoreTraceFragmentGenerator>(items, rest), true)
    } else if op.op_code == OPCODE_U32ADD3 {
        popping_outcome(s, 3, u32add3_outcome::<CoreTraceFragmentGenerator>(items, rest), true)
    } else if op.op_code == OPCODE_U32SUB {
        u32_op_outcome(u32sub_outcome::<CoreTraceFragmentGenerator>(items, rest, 0), true)
    } else if op.op_code == OPCODE_U32MUL {
        u32_op_outcome(u32mul_outcome::<CoreTraceFragmentGenerator>(items, rest), true)
    } else if op.op_code == OPCODE_U32MADD {
        popping_outcome(s, 3, u32madd_outcome::<CoreTraceFragmentGenerator>(items, rest), true)
    } else if op.op_code == OPCODE_U32DIV {
        u32_op_outcome(u32div_outcome::<CoreTraceFragmentGenerator>(items, rest), true)
    } else if op.op_code == OPCODE_U32AND {
        popping_outcome(s, 2, u32and_outcome::<CoreTraceFragmentGenerator>(items, rest), false)
    } else if op.op_code == OPCODE_U32XOR {
        popping_outcome(s, 2, u32xor_outcome::<CoreTraceFragmentGenerator>(items, rest), false)
    } else if op.op_code == OPCODE_U32ASSERT2 {
        u32_op_outcome(
            u32assert2_outcome::<CoreTraceFragmentGenerator>(items, rest, op.err_code),
            true,
        )
    } else if op.op_code == OPCODE_EVALCIRCUIT {
        eval_circuit_outcome(s)
    } else {
        OpOutcome::Failed
    }
}

fn with_helpers(r: Result<[Felt; 6], ExecutionError>) -> (q: Result<Option<[Felt; 6]>, ExecutionError>)
    ensures
        r matches Ok(h) ==> q == Ok::<Option<[Felt; 6]>, ExecutionError>(Some(h)),
        r is Err ==> q is Err,
{
    match r {
        Ok(helpers) => Ok(Some(helpers)),
        Err(e) => Err(e),
    }
}

fn without_helpers(r: Result<(), ExecutionError>) -> (q: Result<Option<[Felt; 6]>, ExecutionError>)
    ensures
        r is Ok ==> q == Ok::<Option<[Felt; 6]>, ExecutionError>(None),
        r is Err ==> q is Err,
{
    match r {
        Ok(()) => Ok(None),
        Err(e) => Err(e),
    }
}

/// What is popped off the overflow table depends only on the next recorded value.
proof fn lemma_pop_later(rest: GeneratorModel, later: ReplayModel)
    ensures
        CoreTraceFragmentGenerator::can_pop(rest) ==> {
            &&& CoreTraceFragmentGenerator::can_pop(rest.with_later(later))
            &&& CoreTraceFragmentGenerator::popped(rest.with_later(later)) == (
                CoreTraceFragmentGenerator::popped(rest).0,
                CoreTraceFragmentGenerator::popped(rest).1.with_later(later),
            )
        },
{
    let values = rest.context.replay.stack_overflow.overflow_values;
    let more = later.stack_overflow.overflow_values;
    if rest.context.stack.depth > MIN_STACK_DEPTH && values.len() > 0 {
        assert((values + more).drop_first() =~= values.drop_first() + more);
    }
}

impl SyncOps for ArithmeticOps {
    open spec fn outcome(&self, s: GeneratorModel, op: Operation, forest: MastForest) -> OpOutcome {
        arithmetic_outcome(s, op)
    }

    proof fn lemma_frame(&self, s: GeneratorModel, op: Operation, forest: MastForest) {
        if let OpOutcome::Done(t, helpers) = arithmetic_outcome(s, op) {
            assert(same_frame(s, t));
        }
    }

    proof fn lemma_same(
        &self,
        s: GeneratorModel,
        t: GeneratorModel,
        op: Operation,
        forest: MastForest,
    ) {
        assert(top_items(s) =~= top_items(t));
        assert(same_machine(stripped(s), stripped(t)));
    }

    proof fn lemma_later(
        &self,
        s: GeneratorModel,
        op: Operation,
        forest: MastForest,
        later: ReplayModel,
    ) {
        let t = s.with_later(later);
        assert(top_items(s) =~= top_items(t));
        assert(stripped(t) =~= stripped(s).with_later(later));
        lemma_pop_later(stripped(s), later);
        lemma_circuit_later::<NoopTracer>(
            s.context.replay.memory_reads,
            (),
            s.context.system.ctx,
            s.context.system.clk,
            s.item(0),
            s.item(1)@ as int,
            s.item(2)@ as int,
            later.memory_reads,
        );
    }

    fn execute_sync_op(
        &self,
        processor: &mut CoreTraceFragmentGenerator,
        op: &Operation,
        _current_forest: &MastForest,
    ) -> Result<Option<[Felt; 6]>, ExecutionError> {
        broadcast use lemma_stack_top_len;

        let code: u8 = op.op_code;
        let r = if code == OPCODE_NOOP {
            Ok(None)
        } else if code == OPCODE_U32SPLIT {
            with_helpers(op_u32split(processor, &mut NoopTracer))
        } else if code == OPCODE_U32ADD {
            with_helpers(op_u32add(processor, &mut NoopTracer))
        } else if code == OPCODE_U32ADD3 {
            with_helpers(op_u32add3(processor, &mut NoopTracer))
        } else if code == OPCODE_U32SUB {
            with_helpers(op_u32sub(processor, 0, &mut NoopTracer))
        } else if code == OPCODE_U32MUL {
            with_helpers(op_u32mul(processor, &mut NoopTracer))
        } else if code == OPCODE_U32MADD {
            with_helpers(op_u32madd(processor, &mut NoopTracer))
        } else if code == OPCODE_U32DIV {
            with_helpers(op_u32div(processor, &mut NoopTracer))
        } else if code == OPCODE_U32AND {
            without_helpers(op_u32and(processor, &mut NoopTracer))
        } else if code == OPCODE_U32XOR {
            without_helpers(op_u32xor(processor, &mut NoopTracer))
        } else if code == OPCODE_U32ASSERT2 {
            with_helpers(op_u32assert2(processor, op.err_code, &mut NoopTracer))
        } else if code == OPCODE_EVALCIRCUIT {
            without_helpers(processor.op_eval_circuit(&mut NoopTracer))
        } else {
            Err(ExecutionError::UnknownOperation { op_code: code })
        };
        proof {
            lemma_with_items(processor@);
        }
        r
    }
}

} // verus!
