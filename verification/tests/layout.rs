//! The shape of the trace and the codes of operations are those of the constraints and of the
//! instruction set.

use miden_air::trace as air;
use miden_core::{Felt, Operation};
use miden_trace::layout;

#[test]
fn columns_are_where_the_constraints_expect_them() {
    assert_eq!(layout::MIN_TRACE_LEN, air::MIN_TRACE_LEN);
    assert_eq!(layout::SYS_TRACE_WIDTH, air::SYS_TRACE_WIDTH);
    assert_eq!(layout::CLK_COL_IDX, air::CLK_COL_IDX);
    assert_eq!(layout::FMP_COL_IDX, air::FMP_COL_IDX);
    assert_eq!(layout::CTX_COL_IDX, air::CTX_COL_IDX);
    assert_eq!(layout::IN_SYSCALL_COL_IDX, air::IN_SYSCALL_COL_IDX);
    assert_eq!(layout::FN_HASH_OFFSET, air::FN_HASH_OFFSET);
    assert_eq!(layout::DECODER_TRACE_OFFSET, air::DECODER_TRACE_OFFSET);
    assert_eq!(layout::DECODER_TRACE_WIDTH, air::DECODER_TRACE_WIDTH);
    assert_eq!(layout::STACK_TRACE_OFFSET, air::STACK_TRACE_OFFSET);
    assert_eq!(layout::STACK_TRACE_WIDTH, air::STACK_TRACE_WIDTH);
    assert_eq!(layout::RANGE_CHECK_TRACE_WIDTH, air::RANGE_CHECK_TRACE_WIDTH);
    assert_eq!(layout::CHIPLETS_WIDTH, air::CHIPLETS_WIDTH);
    assert_eq!(layout::TRACE_WIDTH, air::TRACE_WIDTH);
    assert_eq!(layout::PADDED_TRACE_WIDTH, air::PADDED_TRACE_WIDTH);
    assert_eq!(layout::CORE_TRACE_WIDTH, 51);
    assert_eq!(layout::ADDR_COL_IDX, air::decoder::ADDR_COL_IDX);
    assert_eq!(layout::OP_BITS_OFFSET, air::decoder::OP_BITS_OFFSET);
    assert_eq!(layout::NUM_OP_BITS, air::decoder::NUM_OP_BITS);
    assert_eq!(layout::HASHER_STATE_OFFSET, air::decoder::HASHER_STATE_OFFSET);
    assert_eq!(layout::NUM_HASHER_COLUMNS, air::decoder::NUM_HASHER_COLUMNS);
    assert_eq!(layout::NUM_USER_OP_HELPERS, air::decoder::NUM_USER_OP_HELPERS);
    assert_eq!(layout::IN_SPAN_COL_IDX, air::decoder::IN_SPAN_COL_IDX);
    assert_eq!(layout::GROUP_COUNT_COL_IDX, air::decoder::GROUP_COUNT_COL_IDX);
    assert_eq!(layout::OP_INDEX_COL_IDX, air::decoder::OP_INDEX_COL_IDX);
    assert_eq!(layout::OP_BATCH_FLAGS_OFFSET, air::decoder::OP_BATCH_FLAGS_OFFSET);
    assert_eq!(layout::NUM_OP_BATCH_FLAGS, air::decoder::NUM_OP_BATCH_FLAGS);
    assert_eq!(layout::OP_BITS_EXTRA_COLS_OFFSET, air::decoder::OP_BITS_EXTRA_COLS_OFFSET);
    assert_eq!(layout::STACK_TOP_OFFSET, air::stack::STACK_TOP_OFFSET);
    assert_eq!(layout::B0_COL_IDX, air::stack::B0_COL_IDX);
    assert_eq!(layout::B1_COL_IDX, air::stack::B1_COL_IDX);
    assert_eq!(layout::H0_COL_IDX, air::stack::H0_COL_IDX);
    assert_eq!(layout::STATE_WIDTH, air::chiplets::hasher::STATE_WIDTH);
    assert_eq!(layout::HASH_CYCLE_LEN, air::chiplets::hasher::HASH_CYCLE_LEN as u64);
    assert_eq!(layout::MIN_STACK_DEPTH, miden_core::stack::MIN_STACK_DEPTH);
    assert_eq!(layout::GROUP_SIZE, miden_core::mast::OP_GROUP_SIZE);
    assert_eq!(layout::BATCH_SIZE, miden_core::mast::OP_BATCH_SIZE);
}

#[test]
fn codes_are_those_of_the_operations() {
    let felt = Felt::new(7);
    assert_eq!(layout::OPCODE_NOOP, Operation::Noop.op_code());
    assert_eq!(layout::OPCODE_EMIT, Operation::Emit.op_code());
    assert_eq!(layout::OPCODE_U32AND, Operation::U32and.op_code());
    assert_eq!(layout::OPCODE_U32XOR, Operation::U32xor.op_code());
    assert_eq!(layout::OPCODE_U32ADD, Operation::U32add.op_code());
    assert_eq!(layout::OPCODE_U32SUB, Operation::U32sub.op_code());
    assert_eq!(layout::OPCODE_U32MUL, Operation::U32mul.op_code());
    assert_eq!(layout::OPCODE_U32DIV, Operation::U32div.op_code());
    assert_eq!(layout::OPCODE_U32SPLIT, Operation::U32split.op_code());
    assert_eq!(layout::OPCODE_U32ASSERT2, Operation::U32assert2(felt).op_code());
    assert_eq!(layout::OPCODE_U32ADD3, Operation::U32add3.op_code());
    assert_eq!(layout::OPCODE_U32MADD, Operation::U32madd.op_code());
    assert_eq!(layout::OPCODE_SPLIT, Operation::Split.op_code());
    assert_eq!(layout::OPCODE_LOOP, Operation::Loop.op_code());
    assert_eq!(layout::OPCODE_SPAN, Operation::Span.op_code());
    assert_eq!(layout::OPCODE_JOIN, Operation::Join.op_code());
    assert_eq!(layout::OPCODE_DYN, Operation::Dyn.op_code());
    assert_eq!(layout::OPCODE_PUSH, Operation::Push(felt).op_code());
    assert_eq!(layout::OPCODE_DYNCALL, Operation::Dyncall.op_code());
    assert_eq!(layout::OPCODE_EVALCIRCUIT, Operation::EvalCircuit.op_code());
    assert_eq!(layout::OPCODE_SYSCALL, Operation::SysCall.op_code());
    assert_eq!(layout::OPCODE_CALL, Operation::Call.op_code());
    assert_eq!(layout::OPCODE_END, Operation::End.op_code());
    assert_eq!(layout::OPCODE_REPEAT, Operation::Repeat.op_code());
    assert_eq!(layout::OPCODE_RESPAN, Operation::Respan.op_code());
    assert_eq!(layout::OPCODE_HALT, Operation::Halt.op_code());
}
