//! Putting the trace together.

use miden_trace::ace::CircuitEvaluation;
use miden_trace::context::ContextId;
use miden_trace::continuation::ContinuationStack;
use miden_trace::felt::Felt;
use miden_trace::layout::{CORE_TRACE_WIDTH, STACK_TRACE_OFFSET};
use miden_trace::mast::{MastForest, MastNode, MastNodeId, MerklePath, SplitNode};
use miden_trace::parallel::chiplets::{
    initialize_chiplets, initialize_range_checker, MemoryAccess, RequestLog,
};
use miden_trace::parallel::combine::{combine_fragments, count_rows, pad_trace_columns};
use miden_trace::parallel::fragment::CoreTraceFragment;
use miden_trace::parallel::main_trace::{
    assemble_columns, compute_main_trace_length, fill_random_rows,
};
use miden_trace::parallel::stitch::{append_halt_opcode_row, fixup_stack_and_system_rows};
use miden_trace::pow2::next_power_of_two;
use miden_trace::trace_state::{
    AceReplay, BitwiseOp, BitwiseReplay, CoreTraceFragmentContext, CoreTraceState, DecoderState,
    ExecutionReplay, HasherOp, HasherRequestReplay, KernelReplay, MemoryWritesReplay,
    NodeExecutionState, RangeCheckerReplay, StackState, SystemState,
};
use miden_trace::word::Word;
use std::sync::Arc;

fn felt(v: u64) -> Felt {
    Felt::new(v)
}

fn word(v: u64) -> Word {
    Word::new([felt(v), felt(v + 1), felt(v + 2), felt(v + 3)])
}

/// A fragment in which column `c` shows `base + 100 * c + row`.
fn fragment(base: u64, rows: u64) -> CoreTraceFragment {
    let column = |c: u64| (0..rows).map(|r| felt(base + 100 * c + r)).collect();
    CoreTraceFragment { columns: (0..CORE_TRACE_WIDTH as u64).map(column).collect() }
}

#[test]
fn lengths_are_rounded_up_to_powers_of_two() {
    assert_eq!(next_power_of_two(0), 1);
    assert_eq!(next_power_of_two(1), 1);
    assert_eq!(next_power_of_two(5), 8);
    assert_eq!(next_power_of_two(64), 64);
    assert_eq!(next_power_of_two(65), 128);
    // no fewer than 64 rows, and one random row
    assert_eq!(compute_main_trace_length(1, 1, 1), 64);
    assert_eq!(compute_main_trace_length(63, 0, 0), 64);
    assert_eq!(compute_main_trace_length(64, 0, 0), 128);
    assert_eq!(compute_main_trace_length(10, 127, 100), 128);
    assert_eq!(compute_main_trace_length(10, 20, 128), 256);
}

#[test]
fn fragments_are_joined_in_order_and_padded() {
    let fragments = vec![fragment(10_000, 2), fragment(20_000, 3)];
    assert_eq!(count_rows(&fragments), 5);
    let columns = combine_fragments(fragments, 8);
    assert_eq!(columns.len(), CORE_TRACE_WIDTH);
    for (c, column) in columns.iter().enumerate() {
        assert_eq!(column.len(), 8);
        let shown = |r: usize| {
            if r < 2 {
                felt(10_000 + 100 * c as u64 + r as u64)
            } else {
                felt(20_000 + 100 * c as u64 + r as u64 - 2)
            }
        };
        for r in 0..8 {
            let last = shown(4);
            if c == STACK_TRACE_OFFSET + 18 {
                // the overflow helpers are inverted
                assert_eq!(column[r].mul(shown(r.min(4))), felt(1));
            } else if r < 5 {
                assert_eq!(column[r], shown(r));
            } else if c == 0 {
                assert_eq!(column[r], felt(r as u64));
            } else if c == 1 || (16..20).contains(&c) || c >= STACK_TRACE_OFFSET {
                assert_eq!(column[r], last);
            } else if (9..16).contains(&c) {
                // the bits of HALT
                let bit = if c >= 11 { 1 } else { 0 };
                assert_eq!(column[r], felt(bit));
            } else if c == 31 {
                assert_eq!(column[r], felt(1));
            } else {
                assert_eq!(column[r], felt(0));
            }
        }
    }
}

#[test]
fn padding_keeps_the_rows_of_the_program() {
    let mut columns = fragment(500, 3).columns;
    let before = fragment(500, 3).columns;
    pad_trace_columns(&mut columns, 3, 16);
    for (column, old) in columns.iter().zip(&before) {
        assert_eq!(column.len(), 16);
        assert_eq!(&column[..3], &old[..]);
    }
}

#[test]
fn first_rows_come_from_the_fragments_before() {
    let mut fragments = vec![fragment(0, 2), fragment(0, 1), fragment(0, 2)];
    let stack_rows = vec![[felt(1); 19], [felt(2); 19], [felt(3); 19]];
    let system_rows = vec![[felt(4); 8], [felt(5); 8], [felt(6); 8]];
    let mut first_stack_top = [felt(0); 16];
    first_stack_top[15] = felt(70);
    first_stack_top[0] = felt(71);
    let first_system_state = [felt(8); 8];
    fixup_stack_and_system_rows(
        &mut fragments,
        &stack_rows,
        &system_rows,
        &first_stack_top,
        &first_system_state,
    );
    let cell = |k: usize, c: usize, r: usize| fragments[k].columns[c][r];
    assert_eq!(cell(0, 0, 0), felt(8));
    assert_eq!(cell(0, 7, 0), felt(8));
    assert_eq!(cell(0, STACK_TRACE_OFFSET, 0), felt(70));
    assert_eq!(cell(0, STACK_TRACE_OFFSET + 15, 0), felt(71));
    assert_eq!(cell(0, STACK_TRACE_OFFSET + 16, 0), felt(16));
    assert_eq!(cell(0, STACK_TRACE_OFFSET + 17, 0), felt(0));
    assert_eq!(cell(0, STACK_TRACE_OFFSET + 18, 0), felt(0));
    assert_eq!(cell(1, 3, 0), felt(4));
    assert_eq!(cell(1, STACK_TRACE_OFFSET + 18, 0), felt(1));
    assert_eq!(cell(2, 3, 0), felt(5));
    assert_eq!(cell(2, STACK_TRACE_OFFSET, 0), felt(2));
    // the decoder columns and all other rows stay
    assert_eq!(cell(0, 8, 0), felt(800));
    assert_eq!(cell(2, 3, 1), felt(301));
    assert_eq!(cell(2, STACK_TRACE_OFFSET, 1), felt(3201));
    // without fragments there is nothing to do
    let mut none: Vec<CoreTraceFragment> = Vec::new();
    fixup_stack_and_system_rows(&mut none, &vec![], &vec![], &first_stack_top, &first_system_state);
    assert!(none.is_empty());
}

#[test]
fn the_last_row_shows_halt() {
    let mut last = fragment(0, 2);
    append_halt_opcode_row(&mut last, &[felt(4); 8], &[felt(5); 19]);
    for (c, column) in last.columns.iter().enumerate() {
        assert_eq!(column.len(), 3);
        let expected = match c {
            0..=7 => 4,
            9 | 10 => 0,
            11..=15 => 1,
            16..=19 => 100 * c as u64 + 1,
            31 => 1,
            8..=30 => 0,
            _ => 5,
        };
        assert_eq!(column[2], felt(expected), "column {c}");
    }
}

#[test]
fn columns_of_all_parts_come_in_order() {
    let part = |value: u64, width: usize| vec![vec![felt(value); 64]; width];
    let draws: Vec<u64> = (1000..1080).collect();
    let columns = assemble_columns(part(1, 51), part(2, 2), part(3, 20), 64, &draws);
    assert_eq!(columns.len(), 80);
    for (c, column) in columns.iter().enumerate() {
        let value = match c {
            0..=50 => 1,
            51 | 52 => 2,
            53..=72 => 3,
            _ => 0,
        };
        assert!(column[..63].iter().all(|e| *e == felt(value)));
        assert_eq!(column[63], felt(1000 + c as u64));
    }
    let mut columns = part(9, 80);
    fill_random_rows(&mut columns, 64, &draws);
    assert_eq!(columns[79][63], felt(1079));
    assert_eq!(columns[79][62], felt(9));
}

fn context(replay: ExecutionReplay) -> CoreTraceFragmentContext {
    let id = MastNodeId { index: 0 };
    let node = SplitNode { on_true: id, on_false: id, digest: Word::empty() };
    CoreTraceFragmentContext {
        state: CoreTraceState {
            system: SystemState {
                clk: 0,
                ctx: ContextId::root(),
                fmp: felt(0),
                in_syscall: false,
                fn_hash: Word::empty(),
            },
            decoder: DecoderState { current_addr: felt(0), parent_addr: felt(0) },
            stack: StackState::new([felt(0); 16], 16, felt(0)),
        },
        replay,
        continuation: ContinuationStack::new(),
        initial_mast_forest: Arc::new(MastForest::new(vec![MastNode::Split(node)], vec![]).unwrap()),
        initial_execution_state: NodeExecutionState::Start(id),
    }
}

#[test]
fn requests_are_put_to_the_chiplets_in_order() {
    let ctx = ContextId { id: 1 };
    let mut first = ExecutionReplay::default();
    first.memory_reads.record_read_element(felt(1), felt(10), ctx, 2);
    first.memory_reads.record_read_word(word(2), felt(20), ctx, 7);
    let mut second = ExecutionReplay::default();
    second.memory_reads.record_read_element(felt(3), felt(30), ctx, 9);
    second.memory_reads.record_read_word(word(4), felt(40), ctx, 11);
    let mut writes = MemoryWritesReplay::default();
    writes.record_write_element(felt(5), felt(50), ctx, 1);
    writes.record_write_element(felt(6), felt(60), ctx, 10);
    writes.record_write_word(word(7), felt(70), ctx, 5);
    let mut bitwise = BitwiseReplay::default();
    bitwise.record_u32xor(felt(1), felt(2));
    bitwise.record_u32and(felt(3), felt(4));
    let mut kernel = KernelReplay::default();
    kernel.record_kernel_proc_access(word(9));
    let mut hasher = HasherRequestReplay::default();
    hasher.record_permute_input([felt(1); 12]);
    hasher.record_hash_control_block(word(1), word(2), felt(3), word(4));
    hasher.record_hash_basic_block(Vec::new(), word(5));
    hasher.record_build_merkle_root(word(6), MerklePath { nodes: vec![] }, felt(7));
    hasher.record_update_merkle_root(word(8), word(9), MerklePath { nodes: vec![] }, felt(10));
    let mut ace = AceReplay::default();
    ace.record_circuit_evaluation(3, CircuitEvaluation::new(ctx, 3, 1, 4));
    let log = initialize_chiplets(
        RequestLog::new(),
        &vec![context(first), context(second)],
        writes,
        bitwise,
        kernel,
        hasher,
        ace,
    );
    // all accesses to memory, in the order of their clock cycles
    assert_eq!(
        log.memory,
        vec![
            MemoryAccess::WriteElement(felt(50), felt(5), ctx, 1),
            MemoryAccess::ReadElement(felt(10), ctx, 2),
            MemoryAccess::WriteWord(felt(70), word(7), ctx, 5),
            MemoryAccess::ReadWord(felt(20), ctx, 7),
            MemoryAccess::ReadElement(felt(30), ctx, 9),
            MemoryAccess::WriteElement(felt(60), felt(6), ctx, 10),
            MemoryAccess::ReadWord(felt(40), ctx, 11),
        ]
    );
    assert_eq!(
        log.bitwise,
        vec![(BitwiseOp::U32Xor, felt(1), felt(2)), (BitwiseOp::U32And, felt(3), felt(4))]
    );
    assert_eq!(log.kernel, vec![word(9)]);
    assert_eq!(log.ace.len(), 1);
    assert_eq!(log.ace[0].0, 3);
    assert!(matches!(&log.hasher[0], HasherOp::Permute(_)));
    assert!(matches!(&log.hasher[1], HasherOp::HashControlBlock(_)));
    assert!(matches!(&log.hasher[2], HasherOp::HashBasicBlock(_)));
    assert!(matches!(&log.hasher[3], HasherOp::BuildMerkleRoot(_)));
    assert!(matches!(&log.hasher[4], HasherOp::UpdateMerkleRoot(_)));
    assert_eq!(log.hasher.len(), 5);
}

#[test]
fn range_checks_are_gathered() {
    let mut replay = RangeCheckerReplay::default();
    replay.record_range_check_u32(4, [1, 2, 3, 4]);
    let checker = initialize_range_checker(replay, vec![(5, [6, 7])]);
    assert_eq!(checker.u32_checks.into_iter().collect::<Vec<_>>(), vec![(4, [1, 2, 3, 4])]);
    assert_eq!(checker.memory_checks, vec![(5, [6, 7])]);
}
