//! Shape of the main execution trace and the constants of the virtual machine.
//!
//! The trace consists of the system columns, the decoder columns, the stack columns, the range
//! checker columns and the chiplet columns, in this order. The first three sets are the core
//! trace.

use vstd::prelude::*;

verus! {

/// Number of stack elements that are directly accessible; the stack is never shallower.
pub const MIN_STACK_DEPTH: usize = 16;

/// Width of the state of the hash permutation.
pub const STATE_WIDTH: usize = 12;

/// Minimum length of the execution trace.
pub const MIN_TRACE_LEN: usize = 64;

/// Number of rows at the end of the trace that hold random values.
pub const NUM_RAND_ROWS: usize = 1;

// SYSTEM COLUMNS

pub const SYS_TRACE_WIDTH: usize = 8;

pub const CLK_COL_IDX: usize = 0;

pub const FMP_COL_IDX: usize = 1;

pub const CTX_COL_IDX: usize = 2;

pub const IN_SYSCALL_COL_IDX: usize = 3;

pub const FN_HASH_OFFSET: usize = 4;

// DECODER COLUMNS

pub const DECODER_TRACE_OFFSET: usize = 8;

pub const DECODER_TRACE_WIDTH: usize = 24;

/// Block address column, relative to the decoder columns, as all those that follow.
pub const ADDR_COL_IDX: usize = 0;

pub const OP_BITS_OFFSET: usize = 1;

pub const NUM_OP_BITS: usize = 7;

pub const HASHER_STATE_OFFSET: usize = 8;

pub const NUM_HASHER_COLUMNS: usize = 8;

/// Number of helper registers that an operation may fill.
pub const NUM_USER_OP_HELPERS: usize = 6;

pub const IN_SPAN_COL_IDX: usize = 16;

pub const GROUP_COUNT_COL_IDX: usize = 17;

pub const OP_INDEX_COL_IDX: usize = 18;

pub const OP_BATCH_FLAGS_OFFSET: usize = 19;

pub const NUM_OP_BATCH_FLAGS: usize = 3;

pub const OP_BITS_EXTRA_COLS_OFFSET: usize = 22;

// STACK COLUMNS

pub const STACK_TRACE_OFFSET: usize = 32;

pub const STACK_TRACE_WIDTH: usize = 19;

pub const STACK_TOP_OFFSET: usize = 0;

/// Stack depth column, relative to the stack columns, as the two that follow.
pub const B0_COL_IDX: usize = 16;

/// Overflow address column.
pub const B1_COL_IDX: usize = 17;

/// Overflow helper column.
pub const H0_COL_IDX: usize = 18;

// OVERALL

/// Number of columns of the core trace.
pub const CORE_TRACE_WIDTH: usize = SYS_TRACE_WIDTH + DECODER_TRACE_WIDTH + STACK_TRACE_WIDTH;

pub const RANGE_CHECK_TRACE_WIDTH: usize = 2;

pub const CHIPLETS_WIDTH: usize = 20;

/// Number of columns of the main trace without padding columns.
pub const TRACE_WIDTH: usize = 73;

/// Number of columns of the main trace, a multiple of the rate of the hash permutation.
pub const PADDED_TRACE_WIDTH: usize = 80;

// OPERATION BATCHES

/// Maximum number of operations in a group.
pub const GROUP_SIZE: usize = 9;

/// Number of groups in a full batch.
pub const BATCH_SIZE: usize = 8;

// OPERATION CODES

pub const OPCODE_NOOP: u8 = 0b0000_0000;

pub const OPCODE_EMIT: u8 = 0b0001_1111;

pub const OPCODE_U32AND: u8 = 0b0010_0110;

pub const OPCODE_U32XOR: u8 = 0b0010_0111;

pub const OPCODE_U32ADD: u8 = 0b0100_0000;

pub const OPCODE_U32SUB: u8 = 0b0100_0010;

pub const OPCODE_U32MUL: u8 = 0b0100_0100;

pub const OPCODE_U32DIV: u8 = 0b0100_0110;

pub const OPCODE_U32SPLIT: u8 = 0b0100_1000;

pub const OPCODE_U32ASSERT2: u8 = 0b0100_1010;

pub const OPCODE_U32ADD3: u8 = 0b0100_1100;

pub const OPCODE_U32MADD: u8 = 0b0100_1110;

pub const OPCODE_SPLIT: u8 = 0b0101_0100;

pub const OPCODE_LOOP: u8 = 0b0101_0101;

pub const OPCODE_SPAN: u8 = 0b0101_0110;

pub const OPCODE_JOIN: u8 = 0b0101_0111;

pub const OPCODE_DYN: u8 = 0b0101_1000;

pub const OPCODE_PUSH: u8 = 0b0101_1011;

pub const OPCODE_DYNCALL: u8 = 0b0101_1100;

pub const OPCODE_EVALCIRCUIT: u8 = 0b0101_1101;

pub const OPCODE_SYSCALL: u8 = 0b0110_1000;

pub const OPCODE_CALL: u8 = 0b0110_1100;

pub const OPCODE_END: u8 = 0b0111_0000;

pub const OPCODE_REPEAT: u8 = 0b0111_0100;

pub const OPCODE_RESPAN: u8 = 0b0111_1000;

pub const OPCODE_HALT: u8 = 0b0111_1100;

// SYSTEM

/// Initial value of the free memory pointer, 2^30.
pub const FMP_MIN: u64 = 0x4000_0000;

/// Initial value of the free memory pointer in a syscall, 3 * 2^30.
pub const SYSCALL_FMP_MIN: u64 = 0xc000_0000;

/// Number of rows that the hasher takes for one permutation.
pub const HASH_CYCLE_LEN: u64 = 8;

// ARITHMETIC CIRCUITS

/// Number of wires that a circuit may have at most, 2^30 - 1.
pub const MAX_NUM_ACE_WIRES: u32 = 0x3fff_ffff;

/// Distance in memory from one pair of circuit inputs to the next.
pub const PTR_OFFSET_WORD: u64 = 4;

/// Distance in memory from one circuit instruction to the next.
pub const PTR_OFFSET_ELEM: u64 = 1;

/// The code of the operation that ends a program: `op_code` of `miden_core::Operation::Halt`.
#[verifier::external_body]
pub(crate) fn halt_op_code() -> (r: u8)
    ensures
        r == OPCODE_HALT,
{
    miden_core::Operation::Halt.op_code()
}

} // verus!
