//! Recordings and what replaying them gives.

use miden_trace::block_stack::{BlockStack, BlockType, ExecutionContextInfo};
use miden_trace::context::ContextId;
use miden_trace::errors::ExecutionError;
use miden_trace::felt::Felt;
use miden_trace::interfaces::{AdviceProviderInterface, HasherInterface, MemoryInterface};
use miden_trace::mast::{MastForest, MastNode, MastNodeId, MerklePath, SplitNode};
use miden_trace::overflow::OverflowTable;
use miden_trace::trace_state::{
    AdviceReplay, BitwiseOp, BitwiseReplay, BlockStackReplay, ExecutionContextSystemInfo, HasherOp,
    HasherRequestReplay, HasherResponseReplay, KernelReplay, MastForestResolutionReplay,
    MemoryReadsReplay, MemoryWritesReplay, NodeFlags, RangeCheckerReplay, StackOverflowReplay,
    StackState,
};
use miden_trace::word::Word;
use std::sync::Arc;

fn felt(v: u64) -> Felt {
    Felt::new(v)
}

fn word(v: u64) -> Word {
    Word::new([felt(v), felt(v + 1), felt(v + 2), felt(v + 3)])
}

fn ctx(id: u32) -> ContextId {
    ContextId { id }
}

#[test]
fn memory_reads_come_back_in_order() {
    let mut replay = MemoryReadsReplay::default();
    replay.record_read_element(felt(5), felt(100), ctx(0), 1);
    replay.record_read_word(word(10), felt(104), ctx(0), 2);
    replay.record_read_element(felt(6), felt(101), ctx(3), 3);
    replay.record_read_word(word(20), felt(108), ctx(3), 4);
    assert_eq!(
        replay.iter_read_elements(),
        vec![(felt(5), felt(100), ctx(0), 1), (felt(6), felt(101), ctx(3), 3)]
    );
    assert_eq!(
        replay.iter_read_words(),
        vec![(word(10), felt(104), ctx(0), 2), (word(20), felt(108), ctx(3), 4)]
    );
    assert_eq!(replay.replay_read_element(felt(100)), felt(5));
    assert_eq!(replay.replay_read_word(felt(104)), word(10));
    // through the interface of the memory
    assert_eq!(replay.read_element(ctx(3), felt(101)).unwrap(), felt(6));
    assert_eq!(replay.read_word(ctx(3), felt(108), 4).unwrap(), word(20));
    // writes leave no trace
    replay.write_element(ctx(0), felt(1), felt(2)).unwrap();
    replay.write_word(ctx(0), felt(4), 9, word(1)).unwrap();
    assert!(replay.iter_read_elements().is_empty());
    assert!(replay.iter_read_words().is_empty());
}

#[test]
fn memory_writes_are_listed_in_order() {
    let mut replay = MemoryWritesReplay::default();
    replay.record_write_element(felt(1), felt(2), ctx(0), 3);
    replay.record_write_word(word(4), felt(8), ctx(0), 4);
    replay.record_write_element(felt(5), felt(6), ctx(1), 7);
    assert_eq!(
        replay.iter_elements_written(),
        vec![(felt(1), felt(2), ctx(0), 3), (felt(5), felt(6), ctx(1), 7)]
    );
    assert_eq!(replay.iter_words_written(), vec![(word(4), felt(8), ctx(0), 4)]);
}

#[test]
fn advice_comes_back_in_order() {
    let mut replay = AdviceReplay::default();
    replay.record_pop_stack(felt(1));
    replay.record_pop_stack(felt(2));
    replay.record_pop_stack_word(word(3));
    replay.record_pop_stack_word(word(4));
    replay.record_pop_stack_dword([word(5), word(6)]);
    replay.record_pop_stack_dword([word(7), word(8)]);
    assert_eq!(replay.replay_pop_stack(), felt(1));
    assert_eq!(replay.pop_stack().unwrap(), felt(2));
    assert_eq!(replay.replay_pop_stack_word(), word(3));
    assert_eq!(replay.pop_stack_word().unwrap(), word(4));
    assert_eq!(replay.replay_pop_stack_dword(), [word(5), word(6)]);
    assert_eq!(replay.pop_stack_dword().unwrap(), [word(7), word(8)]);
    // Merkle paths are not needed to generate the trace
    assert!(replay.get_merkle_path(word(0), &felt(1), &felt(2)).unwrap().is_none());
    assert!(replay
        .update_merkle_node(word(0), &felt(1), &felt(2), word(3))
        .unwrap()
        .is_none());
}

#[test]
fn requests_to_chiplets_are_listed_in_order() {
    let mut bitwise = BitwiseReplay::default();
    bitwise.record_u32and(felt(1), felt(2));
    bitwise.record_u32xor(felt(3), felt(4));
    let entries: Vec<_> = bitwise.into_entries().into_iter().collect();
    assert_eq!(
        entries,
        vec![(BitwiseOp::U32And, felt(1), felt(2)), (BitwiseOp::U32Xor, felt(3), felt(4))]
    );

    let mut kernel = KernelReplay::default();
    kernel.record_kernel_proc_access(word(1));
    kernel.record_kernel_proc_access(word(2));
    assert_eq!(kernel.into_entries().into_iter().collect::<Vec<_>>(), vec![word(1), word(2)]);

    let mut range = RangeCheckerReplay::default();
    range.record_range_check_u32(4, [1, 2, 3, 4]);
    range.record_range_check_u32(5, [5, 6, 7, 8]);
    assert_eq!(
        range.into_entries().into_iter().collect::<Vec<_>>(),
        vec![(4, [1, 2, 3, 4]), (5, [5, 6, 7, 8])]
    );

    let mut hasher = HasherRequestReplay::default();
    hasher.record_permute_input([felt(1); 12]);
    hasher.record_hash_control_block(word(1), word(2), felt(3), word(4));
    hasher.record_hash_basic_block(Vec::new(), word(5));
    hasher.record_build_merkle_root(word(6), MerklePath { nodes: vec![word(7)] }, felt(8));
    hasher.record_update_merkle_root(word(9), word(10), MerklePath { nodes: vec![] }, felt(11));
    let entries: Vec<_> = hasher.into_entries().into_iter().collect();
    assert!(matches!(&entries[0], HasherOp::Permute(s) if *s == [felt(1); 12]));
    assert!(matches!(
        &entries[1],
        HasherOp::HashControlBlock(e) if *e == (word(1), word(2), felt(3), word(4))
    ));
    assert!(matches!(&entries[2], HasherOp::HashBasicBlock((b, d)) if b.is_empty() && *d == word(5)));
    assert!(matches!(
        &entries[3],
        HasherOp::BuildMerkleRoot((v, p, i))
            if *v == word(6) && p.nodes == vec![word(7)] && *i == felt(8)
    ));
    assert!(matches!(
        &entries[4],
        HasherOp::UpdateMerkleRoot((o, n, p, i))
            if *o == word(9) && *n == word(10) && p.nodes.is_empty() && *i == felt(11)
    ));
}

#[test]
fn answers_of_the_hasher_come_back_in_order() {
    let mut replay = HasherResponseReplay::default();
    replay.record_block_address(felt(1));
    replay.record_block_address(felt(9));
    replay.record_permute(felt(17), [felt(2); 12]);
    replay.record_permute(felt(25), [felt(3); 12]);
    replay.record_build_merkle_root(felt(33), word(4));
    replay.record_build_merkle_root(felt(41), word(5));
    replay.record_update_merkle_root(felt(49), word(6), word(7));
    replay.record_update_merkle_root(felt(65), word(8), word(9));
    assert_eq!(replay.replay_block_address(), felt(1));
    assert_eq!(replay.replay_block_address(), felt(9));
    assert_eq!(replay.replay_permute(), (felt(17), [felt(2); 12]));
    assert_eq!(replay.permute([felt(0); 12]), (felt(25), [felt(3); 12]));
    assert_eq!(replay.replay_build_merkle_root(), (felt(33), word(4)));
    // the root that is claimed is the one that was recorded, or else the error comes
    let addr = replay
        .verify_merkle_root(word(5), word(0), None, felt(0), || {
            ExecutionError::MerklePathVerificationFailed { err_code: felt(1) }
        })
        .unwrap();
    assert_eq!(addr, felt(41));
    assert_eq!(replay.replay_update_merkle_root(), (felt(49), word(6), word(7)));
    let (addr, root) = replay
        .update_merkle_root(word(8), word(0), word(1), None, felt(0), || {
            ExecutionError::MerklePathVerificationFailed { err_code: felt(1) }
        })
        .unwrap();
    assert_eq!((addr, root), (felt(65), word(9)));
}

#[test]
fn a_root_that_was_not_recorded_is_refused() {
    let mut replay = HasherResponseReplay::default();
    replay.record_build_merkle_root(felt(1), word(4));
    replay.record_update_merkle_root(felt(9), word(6), word(7));
    let failure = || ExecutionError::MerklePathVerificationFailed { err_code: felt(77) };
    let refused = replay.verify_merkle_root(word(5), word(0), None, felt(0), failure);
    assert!(matches!(
        refused,
        Err(ExecutionError::MerklePathVerificationFailed { err_code }) if err_code == felt(77)
    ));
    let refused = replay.update_merkle_root(word(5), word(0), word(1), None, felt(0), failure);
    assert!(matches!(
        refused,
        Err(ExecutionError::MerklePathVerificationFailed { err_code }) if err_code == felt(77)
    ));
}

#[test]
fn nodes_of_other_forests_come_back_in_order() {
    let node = |d| MastNode::Split(SplitNode {
        on_true: MastNodeId { index: 0 },
        on_false: MastNodeId { index: 0 },
        digest: word(d),
    });
    let first = Arc::new(MastForest::new(vec![node(1)], vec![]).unwrap());
    let second = Arc::new(MastForest::new(vec![node(2)], vec![]).unwrap());
    let mut replay = MastForestResolutionReplay::default();
    replay.record_resolution(MastNodeId { index: 3 }, first.clone());
    replay.record_resolution(MastNodeId { index: 4 }, second.clone());
    let (id, forest) = replay.replay_resolution();
    assert_eq!(id.index, 3);
    assert!(Arc::ptr_eq(&forest, &first));
    let (id, forest) = replay.replay_resolution();
    assert_eq!(id.index, 4);
    assert!(Arc::ptr_eq(&forest, &second));
}

#[test]
fn block_stack_recordings_come_back_in_order() {
    let mut replay = BlockStackReplay::new();
    let flags = NodeFlags::new(true, false, true, false);
    let info = ExecutionContextSystemInfo {
        parent_ctx: ctx(5),
        parent_fn_hash: word(6),
        parent_fmp: felt(7),
    };
    replay.record_node_start(felt(1));
    replay.record_node_start(felt(2));
    replay.record_node_end(felt(3), flags, felt(4), felt(5));
    replay.record_execution_context(info);
    assert_eq!(replay.replay_node_start(), felt(1));
    assert_eq!(replay.replay_node_start(), felt(2));
    let end = replay.replay_node_end();
    assert_eq!(
        (end.ended_node_addr, end.flags, end.prev_addr, end.prev_parent_addr),
        (felt(3), flags, felt(4), felt(5))
    );
    let replayed = replay.replay_execution_context();
    assert_eq!(
        (replayed.parent_ctx, replayed.parent_fn_hash, replayed.parent_fmp),
        (ctx(5), word(6), felt(7))
    );
}

#[test]
fn flags_fill_a_word() {
    let flags = NodeFlags::new(true, false, false, true);
    assert_eq!(flags.is_loop_body(), felt(1));
    assert_eq!(flags.loop_entered(), felt(0));
    assert_eq!(flags.is_call(), felt(0));
    assert_eq!(flags.is_syscall(), felt(1));
    assert_eq!(
        flags.to_hasher_state_second_word(),
        Word::new([felt(1), felt(0), felt(0), felt(1)])
    );
}

#[test]
fn overflow_recordings_drive_the_stack() {
    // a pop from a table of (8, 14), (2, 16) and (7, 18) is recorded as (7, 16)
    let mut replay = StackOverflowReplay::new();
    replay.record_pop_overflow(felt(7), felt(16));
    replay.record_pop_overflow(felt(2), felt(14));
    replay.record_restore_context_overflow_addr(18, felt(21));
    let mut stack = StackState::new([felt(0); 16], 19, felt(18));
    assert_eq!(stack.num_overflow_elements_in_current_ctx(), 3);
    assert_eq!(stack.overflow_helper(), felt(3));
    assert_eq!(stack.pop_overflow(&mut replay), Some(felt(7)));
    assert_eq!((stack.stack_depth(), stack.overflow_addr()), (18, felt(16)));
    assert_eq!(stack.start_context(), (18, felt(16)));
    assert_eq!((stack.stack_depth(), stack.overflow_addr()), (16, felt(0)));
    // nothing is in the overflow table of the new context
    assert_eq!(stack.pop_overflow(&mut replay), None);
    stack.push_overflow(felt(1), 30);
    assert_eq!((stack.stack_depth(), stack.overflow_addr()), (17, felt(30)));
    stack.restore_context(&mut replay);
    assert_eq!((stack.stack_depth(), stack.overflow_addr()), (18, felt(21)));
    assert_eq!(stack.pop_overflow(&mut replay), Some(felt(2)));
    assert_eq!((stack.stack_depth(), stack.overflow_addr()), (17, felt(14)));
    stack.set(0, felt(5));
    assert_eq!(stack.get(0), felt(5));
    assert_eq!(stack.top()[15], felt(5));
}

#[test]
fn overflow_table_keeps_contexts_apart() {
    let mut table = OverflowTable::default();
    assert_eq!(table.pop(), None);
    assert_eq!(table.last_update_clk_in_current_ctx(), felt(0));
    table.advance_clock();
    table.push(felt(8));
    table.advance_clock();
    table.push(felt(2));
    assert_eq!(table.num_elements_in_current_ctx(), 2);
    assert_eq!(table.last_update_clk_in_current_ctx(), felt(2));
    table.start_context();
    assert_eq!(table.num_elements_in_current_ctx(), 0);
    assert_eq!(table.last_update_clk_in_current_ctx(), felt(0));
    table.push(felt(9));
    table.restore_context();
    assert_eq!(table.pop(), Some(felt(2)));
    assert_eq!(table.last_update_clk_in_current_ctx(), felt(1));
    assert_eq!(table.pop(), Some(felt(8)));
    assert_eq!(table.pop(), None);
}

#[test]
fn block_stack_knows_parents_and_loops() {
    let mut stack = BlockStack::default();
    assert!(stack.is_empty());
    assert_eq!(stack.push(felt(1), BlockType::Join(false), None), felt(0));
    assert_eq!(stack.push(felt(9), BlockType::Loop(true), None), felt(1));
    let info = ExecutionContextInfo::new(ctx(0), word(0), felt(1), 16, felt(0));
    assert_eq!(stack.push(felt(17), BlockType::Call, Some(info)), felt(9));
    let call = stack.pop();
    assert_eq!((call.addr, call.parent_addr), (felt(17), felt(9)));
    assert_eq!(call.is_loop_body(), felt(1));
    assert_eq!(call.is_call(), felt(1));
    assert_eq!(call.is_syscall(), felt(0));
    assert!(call.ctx_info.is_some());
    stack.set_top_addr(felt(33));
    let entered = stack.pop();
    assert_eq!(entered.addr, felt(33));
    assert_eq!(entered.is_entered_loop(), felt(1));
    assert_eq!(entered.is_loop_body(), felt(0));
    // one child of the join has been executed now
    assert_eq!(stack.peek().block_type, BlockType::Join(true));
}
