//! Operations on the stack of a generator.

use miden_trace::ace::CircuitEvaluation;
use miden_trace::block_stack::BasicBlockContext;
use miden_trace::context::ContextId;
use miden_trace::continuation::ContinuationStack;
use miden_trace::errors::{AceError, ExecutionError};
use miden_trace::felt::{Felt, MODULUS};
use miden_trace::helpers::TraceGenerationHelpers;
use miden_trace::layout::{MAX_NUM_ACE_WIRES, OPCODE_EMIT, OPCODE_EVALCIRCUIT, OPCODE_NOOP};
use miden_trace::mast::{
    BasicBlockNode, MastForest, MastNode, MastNodeId, OpBatch, Operation, SplitNode,
};
use miden_trace::parallel::circuit::eval_circuit_fast_;
use miden_trace::parallel::execution::SyncOps;
use miden_trace::parallel::generator::CoreTraceFragmentGenerator;
use miden_trace::parallel::resume::initialize_span_context;
use miden_trace::parallel::sync_ops::ArithmeticOps;
use miden_trace::processor::{OperationHelperRegisters, StackInterface, SystemInterface};
use miden_trace::quad_felt::QuadFelt;
use miden_trace::trace_state::{
    CoreTraceFragmentContext, CoreTraceState, DecoderState, ExecutionReplay, NodeExecutionState,
    StackState, SystemState,
};
use miden_trace::tracer::NoopTracer;
use miden_trace::u32_ops::{
    op_u32add, op_u32add3, op_u32and, op_u32assert2, op_u32div, op_u32madd, op_u32mul, op_u32split,
    op_u32sub, op_u32xor,
};
use miden_trace::utils::{split_element, split_u32_into_u16};
use miden_trace::word::Word;
use std::sync::Arc;

const MAX: u64 = 0xffff_ffff;

fn felt(v: u64) -> Felt {
    Felt::new(v)
}

fn forest() -> Arc<MastForest> {
    let id = MastNodeId { index: 0 };
    let node = SplitNode { on_true: id, on_false: id, digest: Word::empty() };
    Arc::new(MastForest::new(vec![MastNode::Split(node)], vec![]).unwrap())
}

/// A generator with the given elements on top of its stack, and the given depth.
fn generator(top: &[u64], depth: usize) -> CoreTraceFragmentGenerator {
    let mut stack_top = [felt(0); 16];
    for (i, v) in top.iter().enumerate() {
        stack_top[15 - i] = felt(*v);
    }
    let context = CoreTraceFragmentContext {
        state: CoreTraceState {
            system: SystemState {
                clk: 5,
                ctx: ContextId { id: 3 },
                fmp: felt(7),
                in_syscall: false,
                fn_hash: Word::empty(),
            },
            decoder: DecoderState { current_addr: felt(0), parent_addr: felt(0) },
            stack: StackState::new(stack_top, depth, felt(0)),
        },
        replay: ExecutionReplay::default(),
        continuation: ContinuationStack::new(),
        initial_mast_forest: forest(),
        initial_execution_state: NodeExecutionState::Start(MastNodeId { index: 0 }),
    };
    CoreTraceFragmentGenerator::new(context, 4)
}

fn items(generator: &CoreTraceFragmentGenerator, n: usize) -> Vec<u64> {
    (0..n).map(|i| generator.get(i).as_int()).collect()
}

fn helpers(values: [u64; 6]) -> [Felt; 6] {
    values.map(Felt::new)
}

// STACK

#[test]
fn stack_elements_can_be_changed_in_place() {
    let mut g = generator(&[1, 2, 3], 16);
    *g.get_mut(1) = felt(20);
    *g.get_mut(15) = felt(150);
    assert_eq!(g.get(0), felt(1));
    assert_eq!(g.get(1), felt(20));
    assert_eq!(g.get(2), felt(3));
    assert_eq!(g.get(15), felt(150));
    g.top_mut()[15] = felt(10);
    g.top_mut()[12] = felt(40);
    assert_eq!(g.get(0), felt(10));
    assert_eq!(g.get(1), felt(20));
    assert_eq!(g.get(3), felt(40));
    assert_eq!(g.top()[0], felt(150));
}

#[test]
fn elements_are_counted_from_the_top() {
    let mut g = generator(&[1, 2, 3, 4, 5], 16);
    assert_eq!(g.get(0), felt(1));
    assert_eq!(g.top()[15], felt(1));
    assert_eq!(g.get_word(0), Word::new([felt(4), felt(3), felt(2), felt(1)]));
    g.set(1, felt(9));
    g.set_word(8, &Word::new([felt(10), felt(11), felt(12), felt(13)]));
    assert_eq!(items(&g, 12), vec![1, 9, 3, 4, 5, 0, 0, 0, 13, 12, 11, 10]);
    assert_eq!(g.get_word(8), Word::new([felt(10), felt(11), felt(12), felt(13)]));
    assert_eq!(g.depth(), 16);
}

#[test]
fn swaps_and_rotations_undo_each_other() {
    let top: Vec<u64> = (1..=16).collect();
    let mut g = generator(&top, 16);
    g.swap(0, 5);
    assert_eq!(items(&g, 6), vec![6, 2, 3, 4, 5, 1]);
    g.swap(0, 5);
    assert_eq!(items(&g, 16), top);
    g.swapw_nth(2);
    assert_eq!(items(&g, 12), vec![9, 10, 11, 12, 5, 6, 7, 8, 1, 2, 3, 4]);
    g.swapw_nth(2);
    assert_eq!(items(&g, 16), top);
    g.rotate_left(4);
    assert_eq!(items(&g, 5), vec![4, 1, 2, 3, 5]);
    g.rotate_right(4);
    assert_eq!(items(&g, 16), top);
    g.rotate_right(3);
    assert_eq!(items(&g, 4), vec![2, 3, 1, 4]);
    g.rotate_left(16);
    assert_eq!(g.get(0), felt(16));
}

#[test]
fn shifts_use_the_overflow_table() {
    let top: Vec<u64> = (1..=16).collect();
    let mut g = generator(&top, 16);
    // the stack is of the least depth: a zero comes in
    g.decrement_size(&mut NoopTracer);
    assert_eq!(items(&g, 16)[..3], [2, 3, 4]);
    assert_eq!(g.get(15), felt(0));
    assert_eq!(g.depth(), 16);
    // a shift to the right leaves a mark on top, and one back takes up the recorded element
    let mut g = generator(&top, 16);
    g.context.replay.stack_overflow.record_pop_overflow(felt(16), felt(0));
    g.increment_size(&mut NoopTracer).unwrap();
    assert_eq!(g.get(0), felt(MODULUS - 1));
    assert_eq!(items(&g, 16)[1..], top[..15]);
    assert_eq!(g.depth(), 17);
    assert_eq!(g.context.state.stack.overflow_addr(), felt(5));
    g.decrement_size(&mut NoopTracer);
    assert_eq!(items(&g, 16), top);
    assert_eq!(g.depth(), 16);
    assert_eq!(g.context.state.stack.overflow_addr(), felt(0));
}

#[test]
fn the_system_can_be_read() {
    let mut g = generator(&[], 16);
    assert_eq!(g.clk(), 5);
    assert_eq!(g.ctx(), ContextId { id: 3 });
    assert_eq!(g.fmp(), felt(7));
    assert_eq!(g.caller_hash(), Word::empty());
    assert!(!g.in_syscall());
    g.set_fmp(felt(8));
    assert_eq!(g.fmp(), felt(8));
}

// OPERATIONS ON 32-BIT VALUES

#[test]
fn u32split_splits() {
    let value = MODULUS - 1;
    let mut g = generator(&[value, 2, 3], 16);
    let h = op_u32split(&mut g, &mut NoopTracer).unwrap();
    assert_eq!(items(&g, 4), vec![MAX, 0, 2, 3]);
    assert_eq!(g.depth(), 17);
    // the upper bits are all set, so there is no inverse
    assert_eq!(h, helpers([0, 0, 0xffff, 0xffff, 0, 0]));
    let mut g = generator(&[0x0001_0002_0003_0004], 16);
    let h = op_u32split(&mut g, &mut NoopTracer).unwrap();
    assert_eq!(items(&g, 2), vec![0x0001_0002, 0x0003_0004]);
    assert_eq!(h[..4], helpers([4, 3, 2, 1, 0, 0])[..4]);
    assert_eq!(h[4].mul(felt(MAX - 0x0001_0002)), felt(1));
}

#[test]
fn u32add_carries() {
    let mut g = generator(&[MAX, MAX, 7], 16);
    let h = op_u32add(&mut g, &mut NoopTracer).unwrap();
    assert_eq!(items(&g, 3), vec![1, 0xffff_fffe, 7]);
    assert_eq!(h, helpers([0xfffe, 0xffff, 1, 0, 0, 0]));
}

#[test]
fn u32add3_adds_three() {
    let mut g = generator(&[MAX, MAX, MAX, 7], 16);
    let h = op_u32add3(&mut g, &mut NoopTracer).unwrap();
    assert_eq!(items(&g, 3), vec![2, 0xffff_fffd, 7]);
    assert_eq!(h, helpers([0xfffd, 0xffff, 2, 0, 0, 0]));
}

#[test]
fn u32sub_borrows() {
    let mut g = generator(&[5, 3, 7], 16);
    let h = op_u32sub(&mut g, 0, &mut NoopTracer).unwrap();
    assert_eq!(items(&g, 3), vec![1, 0xffff_fffe, 7]);
    assert_eq!(h, helpers([0xfffe, 0xffff, 0, 0, 0, 0]));
    let mut g = generator(&[3, 5, 7], 16);
    op_u32sub(&mut g, 0, &mut NoopTracer).unwrap();
    assert_eq!(items(&g, 3), vec![0, 2, 7]);
}

#[test]
fn u32mul_multiplies() {
    let mut g = generator(&[MAX, MAX, 7], 16);
    let h = op_u32mul(&mut g, &mut NoopTracer).unwrap();
    assert_eq!(items(&g, 3), vec![0xffff_fffe, 1, 7]);
    assert_eq!(h[..4], helpers([1, 0, 0xfffe, 0xffff, 0, 0])[..4]);
    assert_eq!(h[4], felt(1));
}

#[test]
fn u32madd_multiplies_and_adds() {
    let mut g = generator(&[MAX, MAX, MAX, 7], 16);
    let h = op_u32madd(&mut g, &mut NoopTracer).unwrap();
    assert_eq!(items(&g, 3), vec![MAX, 0, 7]);
    assert_eq!(h, helpers([0, 0, 0xffff, 0xffff, 0, 0]));
}

#[test]
fn u32div_divides() {
    let mut g = generator(&[7, 100, 9], 16);
    let h = op_u32div(&mut g, &mut NoopTracer).unwrap();
    assert_eq!(items(&g, 3), vec![2, 14, 9]);
    // the limbs of 100 - 14 and of 7 - 2 - 1
    assert_eq!(h, helpers([86, 0, 4, 0, 0, 0]));
}

#[test]
fn u32div_by_zero_is_reported() {
    let mut g = generator(&[0, 100], 16);
    let r = op_u32div(&mut g, &mut NoopTracer);
    assert!(matches!(r, Err(ExecutionError::DivideByZero { clk: 5 })));
    assert_eq!(items(&g, 2), vec![0, 100]);
}

#[test]
fn bitwise_operations_make_up_the_sum() {
    let (a, b) = (0b1100, 0b1010);
    let mut g = generator(&[a, b, 7], 16);
    op_u32and(&mut g, &mut NoopTracer).unwrap();
    assert_eq!(items(&g, 2), vec![0b1000, 7]);
    let mut g = generator(&[a, b, 7], 16);
    op_u32xor(&mut g, &mut NoopTracer).unwrap();
    assert_eq!(items(&g, 2), vec![0b0110, 7]);
    assert_eq!(2 * 0b1000 + 0b0110, a + b);
}

#[test]
fn u32assert2_changes_nothing() {
    let mut g = generator(&[0x0001_0002, 0x0003_0004], 16);
    let h = op_u32assert2(&mut g, felt(11), &mut NoopTracer).unwrap();
    assert_eq!(items(&g, 2), vec![0x0001_0002, 0x0003_0004]);
    assert_eq!(h, helpers([4, 3, 2, 1, 0, 0]));
}

#[test]
fn operands_that_are_no_32_bit_values_are_reported() {
    let big = MAX + 1;
    let check = |r: Result<[Felt; 6], ExecutionError>, expected: Vec<u64>, code: u64| match r {
        Err(ExecutionError::NotU32Values { values, err_code }) => {
            let expected: Vec<Felt> = expected.into_iter().map(Felt::new).collect();
            assert_eq!(values, expected);
            assert_eq!(err_code, felt(code));
        }
        _ => panic!("not reported"),
    };
    let mut g = generator(&[big, big + 1, 3], 16);
    check(op_u32add(&mut g, &mut NoopTracer), vec![big, big + 1], 0);
    assert_eq!(items(&g, 3), vec![big, big + 1, 3]);
    let mut g = generator(&[1, big + 1, big], 16);
    check(op_u32add3(&mut g, &mut NoopTracer), vec![big + 1, big], 0);
    let mut g = generator(&[1, big], 16);
    check(op_u32sub(&mut g, 4, &mut NoopTracer), vec![big], 4);
    let mut g = generator(&[big, 1], 16);
    check(op_u32mul(&mut g, &mut NoopTracer), vec![big], 0);
    let mut g = generator(&[1, 1, big], 16);
    check(op_u32madd(&mut g, &mut NoopTracer), vec![big], 0);
    // a divisor of zero comes second
    let mut g = generator(&[0, big], 16);
    check(op_u32div(&mut g, &mut NoopTracer), vec![big], 0);
    let mut g = generator(&[big, big], 16);
    check(op_u32assert2(&mut g, felt(9), &mut NoopTracer), vec![big, big], 9);
    let mut g = generator(&[1, big], 16);
    assert!(matches!(
        op_u32and(&mut g, &mut NoopTracer),
        Err(ExecutionError::NotU32Values { .. })
    ));
    let mut g = generator(&[big, 1], 16);
    assert!(matches!(
        op_u32xor(&mut g, &mut NoopTracer),
        Err(ExecutionError::NotU32Values { .. })
    ));
}

#[test]
fn values_split_into_halves_and_limbs() {
    assert_eq!(split_element(felt(MODULUS - 1)), (felt(MAX), felt(0)));
    assert_eq!(split_element(felt(0x1_0000_0002)), (felt(1), felt(2)));
    assert_eq!(split_u32_into_u16(0x0001_0002), (1, 2));
    assert_eq!(split_u32_into_u16(MAX), (0xffff, 0xffff));
}

// HELPER REGISTERS

#[test]
fn helper_registers_hold_inverses() {
    let h = TraceGenerationHelpers::op_eq_registers(felt(3), felt(8));
    assert_eq!(h[0].mul(felt(5)), felt(1));
    assert_eq!(TraceGenerationHelpers::op_eq_registers(felt(3), felt(3)), helpers([0; 6]));
    let h = TraceGenerationHelpers::op_eqz_registers(felt(9));
    assert_eq!(h[0].mul(felt(9)), felt(1));
    assert_eq!(TraceGenerationHelpers::op_eqz_registers(felt(0)), helpers([0; 6]));
}

#[test]
fn helper_registers_hold_values() {
    assert_eq!(
        TraceGenerationHelpers::op_expacc_registers(felt(3)),
        helpers([3, 0, 0, 0, 0, 0])
    );
    assert_eq!(
        TraceGenerationHelpers::op_hperm_registers(felt(4)),
        helpers([4, 0, 0, 0, 0, 0])
    );
    assert_eq!(
        TraceGenerationHelpers::op_merkle_path_registers(felt(5)),
        helpers([5, 0, 0, 0, 0, 0])
    );
    let a = QuadFelt::new(felt(1), felt(2));
    let b = QuadFelt::new(felt(3), felt(4));
    assert_eq!(
        TraceGenerationHelpers::op_fri_ext2fold4_registers(a, b, felt(5), felt(6)),
        helpers([1, 2, 3, 4, 5, 6])
    );
    assert_eq!(
        TraceGenerationHelpers::op_horner_eval_registers(a, felt(5), felt(6), b),
        helpers([1, 2, 5, 6, 3, 4])
    );
}

// CIRCUITS

fn instruction(op: u64, left: u64, right: u64) -> Felt {
    felt(left + (right << 30) + (op << 60))
}

/// A generator whose memory holds two variables, 3 and 3, and the given instructions.
fn with_circuit(instructions: &[Felt]) -> CoreTraceFragmentGenerator {
    let mut g = generator(&[40, 2, 4], 16);
    let ctx = ContextId { id: 3 };
    let variables = Word::new([felt(3), felt(0), felt(3), felt(0)]);
    g.context.replay.memory_reads.record_read_word(variables, felt(40), ctx, 5);
    for (i, instruction) in instructions.iter().enumerate() {
        let addr = felt(44 + i as u64);
        g.context.replay.memory_reads.record_read_element(*instruction, addr, ctx, 5);
    }
    g
}

/// Adds and multiplies the variables, and ends with a difference: of six wires, the variables are
/// wires 5 and 4.
fn good_instructions() -> Vec<Felt> {
    vec![
        instruction(2, 5, 4),
        instruction(1, 5, 4),
        instruction(0, 3, 2),
        // 3 - 3
        instruction(0, 5, 4),
    ]
}

#[test]
fn circuits_that_evaluate_to_zero_are_accepted() {
    let mut g = with_circuit(&good_instructions());
    let evaluation = eval_circuit_fast_(
        ContextId { id: 3 },
        felt(40),
        5,
        felt(2),
        felt(4),
        &mut g,
        &mut NoopTracer,
    )
    .unwrap();
    assert_eq!(evaluation.output_value(), Some(QuadFelt::new(felt(0), felt(0))));
    assert!(g.context.replay.memory_reads.iter_read_elements().is_empty());
    let mut g = with_circuit(&good_instructions());
    g.op_eval_circuit(&mut NoopTracer).unwrap();
    assert_eq!(items(&g, 3), vec![40, 2, 4]);
    // as an operation of a basic block
    let mut g = with_circuit(&good_instructions());
    let op = Operation { op_code: OPCODE_EVALCIRCUIT, imm_value: None, err_code: felt(0) };
    assert_eq!(ArithmeticOps.execute_sync_op(&mut g, &op, &forest()).unwrap(), None);
}

#[test]
fn circuits_are_evaluated_wire_by_wire() {
    let mut circuit = CircuitEvaluation::new(ContextId::root(), 1, 1, 2);
    assert_eq!(circuit.output_value(), None);
    circuit.do_read(felt(0), Word::new([felt(2), felt(1), felt(5), felt(0)]));
    // of four wires, the variables are wires 3 and 2
    circuit.do_eval(felt(4), instruction(1, 3, 2)).unwrap();
    assert_eq!(circuit.output_value(), None);
    circuit.do_eval(felt(5), instruction(2, 1, 3)).unwrap();
    assert_eq!(circuit.output_value(), Some(QuadFelt::new(felt(12), felt(6))));
}

/// A difference of a product and of its value: of six wires, the variables are
/// wires 5 to 2.
fn difference_of_product(op: u64, left: u64, right: u64) -> CircuitEvaluation {
    let mut circuit = CircuitEvaluation::new(ContextId::root(), 1, 2, 2);
    let high = felt(9223372039002259457);
    circuit.do_read(felt(0), Word::new([felt(0), felt(1), felt(0), high]));
    circuit.do_read(felt(4), Word::new([felt(18446744060824649729), high, felt(0), felt(0)]));
    // wire 1 is the product of wires 5 and 4, wire 3 has its value
    circuit.do_eval(felt(8), instruction(1, 5, 4)).unwrap();
    circuit.do_eval(felt(9), instruction(op, left, right)).unwrap();
    circuit
}

#[test]
fn circuits_see_unreduced_values() {
    let zero = QuadFelt::new(felt(0), felt(0));
    let value = QuadFelt::new(felt(18446744060824649729), felt(9223372039002259457));
    assert_eq!(difference_of_product(0, 3, 1).output_value(), Some(zero));
    // the inner value of the product is above the order, and so is that of this zero
    let unreduced = QuadFelt { inner0: MODULUS, inner1: 0 };
    assert_eq!(difference_of_product(0, 1, 3).output_value(), Some(unreduced));
    assert_ne!(unreduced, zero);
    assert_eq!(difference_of_product(2, 1, 2).output_value(), Some(value));
}

#[test]
fn circuits_that_do_not_evaluate_are_refused() {
    let error = |g: &mut CoreTraceFragmentGenerator, vars: u64, eval: u64| {
        let ctx = ContextId { id: 3 };
        match eval_circuit_fast_(ctx, felt(40), 5, felt(vars), felt(eval), g, &mut NoopTracer) {
            Err(ExecutionError::FailedArithmeticEvaluation(e)) => e,
            _ => panic!("not refused"),
        }
    };
    let wires = MAX_NUM_ACE_WIRES as u64;
    let mut g = with_circuit(&[]);
    assert_eq!(error(&mut g, wires, 1), AceError::TooManyWires(wires + 1));
    assert_eq!(error(&mut g, 3, 4), AceError::NumVarIsNotWordAlignedOrIsEmpty(3));
    assert_eq!(error(&mut g, 0, 4), AceError::NumVarIsNotWordAlignedOrIsEmpty(0));
    assert_eq!(error(&mut g, 2, 6), AceError::NumEvalIsNotWordAlignedOrIsEmpty(6));
    assert_eq!(error(&mut g, 2, 0), AceError::NumEvalIsNotWordAlignedOrIsEmpty(0));
    // an operation that there is not
    let mut g = with_circuit(&[instruction(3, 5, 4)]);
    assert_eq!(error(&mut g, 2, 4), AceError::FailedDecodeInstruction);
    // a wire that has no value yet
    let mut g = with_circuit(&[instruction(2, 5, 3)]);
    assert_eq!(error(&mut g, 2, 4), AceError::FailedMemoryRead);
    // an output that is not zero
    let mut instructions = good_instructions();
    instructions[3] = instruction(2, 5, 4);
    let mut g = with_circuit(&instructions);
    assert_eq!(error(&mut g, 2, 4), AceError::CircuitNotEvaluateZero);
}

#[test]
fn operations_that_are_not_known_are_refused() {
    let mut g = generator(&[1], 16);
    let op = |op_code| Operation { op_code, imm_value: None, err_code: felt(0) };
    assert_eq!(ArithmeticOps.execute_sync_op(&mut g, &op(OPCODE_NOOP), &forest()).unwrap(), None);
    let r = ArithmeticOps.execute_sync_op(&mut g, &op(OPCODE_EMIT), &forest());
    assert!(matches!(r, Err(ExecutionError::UnknownOperation { op_code: OPCODE_EMIT })));
}

// RESUMPTION OF BASIC BLOCKS

#[test]
fn a_block_can_be_resumed_at_any_operation() {
    // PUSH, NOOP and PUSH in a group, whose two values take up groups, then a group of ADDs
    let push = |v| Operation { op_code: 91, imm_value: Some(felt(v)), err_code: felt(0) };
    let plain = |op_code| Operation { op_code, imm_value: None, err_code: felt(0) };
    let ops = vec![push(5), plain(0), push(6), plain(64), plain(66)];
    let indptr = [0, 3, 3, 3, 5, 5, 5, 5, 5];
    let first = 91 + (91 << 14);
    let second = 64 + (66 << 7);
    let mut groups = [felt(0); 8];
    groups[0] = felt(first);
    groups[1] = felt(5);
    groups[2] = felt(6);
    groups[3] = felt(second);
    let batch = OpBatch::new(ops, indptr, groups, 4).unwrap();
    let node = BasicBlockNode::new(vec![batch], Word::empty()).unwrap();
    assert_eq!(node.num_op_groups(), 4);
    let at = |i| initialize_span_context(&node, 0, i);
    let context = |left: u64, groups: u64| BasicBlockContext {
        group_ops_left: felt(left),
        num_groups_left: felt(groups),
    };
    assert_eq!(at(0), context(first, 3));
    assert_eq!(at(1), context(first >> 7, 2));
    assert_eq!(at(2), context(first >> 14, 2));
    assert_eq!(at(3), context(second, 0));
    assert_eq!(at(4), context(second >> 7, 0));
}

#[test]
fn batches_find_the_groups_of_their_operations() {
    let op = Operation { op_code: 0, imm_value: None, err_code: felt(0) };
    let indptr = [0, 2, 2, 5, 5, 5, 5, 5, 5];
    let batch = OpBatch::new(vec![op; 5], indptr, [felt(0); 8], 4).unwrap();
    assert_eq!(batch.op_idx_in_batch_to_group(0), Some((0, 0)));
    assert_eq!(batch.op_idx_in_batch_to_group(1), Some((0, 1)));
    assert_eq!(batch.op_idx_in_batch_to_group(2), Some((2, 0)));
    assert_eq!(batch.op_idx_in_batch_to_group(4), Some((2, 2)));
    assert_eq!(batch.op_idx_in_batch_to_group(5), None);
    assert_eq!(batch.next_op_group_index(0), Some(2));
    assert_eq!(batch.next_op_group_index(2), None);
    // groups that do not partition the operations
    assert!(OpBatch::new(vec![op; 5], indptr, [felt(0); 8], 1).is_none());
    assert!(OpBatch::new(vec![op; 5], [0, 2, 1, 5, 5, 5, 5, 5, 5], [felt(0); 8], 4).is_none());
    assert!(OpBatch::new(vec![op; 10], [0, 10, 0, 0, 0, 0, 0, 0, 0], [felt(0); 8], 1).is_none());
    assert!(BasicBlockNode::new(vec![], Word::empty()).is_none());
    let two = BasicBlockNode::new(vec![batch.duplicate(), batch], Word::empty()).unwrap();
    assert_eq!((two.num_op_batches(), two.num_op_groups()), (2, 12));
}
