//! What the execution tracer records.

use miden_trace::ace::CircuitEvaluation;
use miden_trace::context::ContextId;
use miden_trace::continuation::{Continuation, ContinuationStack};
use miden_trace::execution_tracer::{ExecutionTracer, HasherChipletShim};
use miden_trace::fast_processor::FastProcessor;
use miden_trace::felt::Felt;
use miden_trace::mast::{
    BasicBlockNode, JoinNode, LoopNode, MastForest, MastNode, MastNodeId, MerklePath, OpBatch,
    Operation,
};
use miden_trace::trace_state::{BitwiseOp, HasherOp, NodeExecutionState};
use miden_trace::tracer::Tracer;
use miden_trace::word::Word;
use std::sync::Arc;

fn felt(v: u64) -> Felt {
    Felt::new(v)
}

fn word(v: u64) -> Word {
    Word::new([felt(v), felt(v + 1), felt(v + 2), felt(v + 3)])
}

fn id(index: u32) -> MastNodeId {
    MastNodeId { index }
}

fn block(batches: usize, digest: u64) -> BasicBlockNode {
    let op = Operation { op_code: 0, imm_value: None, err_code: felt(0) };
    let batch = || OpBatch::new(vec![op], [0, 1, 1, 1, 1, 1, 1, 1, 1], [felt(0); 8], 1).unwrap();
    BasicBlockNode::new((0..batches).map(|_| batch()).collect(), word(digest)).unwrap()
}

fn forest() -> Arc<MastForest> {
    let nodes = vec![
        MastNode::Join(JoinNode { first: id(1), second: id(2), digest: word(10) }),
        MastNode::Block(block(2, 20)),
        MastNode::Loop(LoopNode { body: id(1), digest: word(30) }),
    ];
    Arc::new(MastForest::new(nodes, vec![id(0)]).unwrap())
}

fn processor(clk: u32, top: u64) -> FastProcessor {
    let mut stack_top = [felt(0); 16];
    stack_top[15] = felt(top);
    stack_top[0] = felt(77);
    FastProcessor {
        clk,
        ctx: ContextId { id: 4 },
        fmp: felt(5),
        in_syscall: true,
        caller_hash: word(6),
        stack_top,
        stack_depth: 16,
    }
}

#[test]
fn addresses_of_the_hasher_follow_each_other() {
    let mut shim = HasherChipletShim::new();
    assert_eq!(shim.record_hash_control_block(), felt(1));
    assert_eq!(shim.record_hash_basic_block(&block(3, 0)), felt(9));
    shim.record_permute_output([felt(2); 12]);
    let path = MerklePath { nodes: vec![word(0), word(4)] };
    shim.record_build_merkle_root(&path, word(1));
    shim.record_update_merkle_root(&path, word(2), word(3));
    assert_eq!(shim.record_hash_control_block(), felt(1 + 8 + 24 + 8 + 16 + 32));
    let mut replay = shim.extract_replay();
    assert_eq!(replay.replay_block_address(), felt(1));
    assert_eq!(replay.replay_block_address(), felt(9));
    assert_eq!(replay.replay_permute(), (felt(33), [felt(2); 12]));
    assert_eq!(replay.replay_build_merkle_root(), (felt(41), word(1)));
    assert_eq!(replay.replay_update_merkle_root(), (felt(57), word(2), word(3)));
    // the recording starts anew, the addresses go on
    assert_eq!(shim.record_hash_control_block(), felt(97));
    assert_eq!(shim.extract_replay().replay_block_address(), felt(97));
    assert_eq!(HasherChipletShim::default().record_hash_control_block(), felt(1));
}

#[test]
fn a_fragment_begins_with_every_multiple_of_its_size() {
    let forest = forest();
    for (size, cycles, expected) in
        [(1, 4, vec![0, 1, 2, 3]), (2, 5, vec![0, 2, 4]), (3, 3, vec![0]), (0, 3, vec![0])]
    {
        let mut tracer = ExecutionTracer::new(size);
        let mut continuation = ContinuationStack::new();
        continuation.push_continuation(Continuation::StartNode(id(2)));
        for clk in 0..cycles {
            let state = if clk == 0 {
                NodeExecutionState::Start(id(0))
            } else {
                NodeExecutionState::LoopRepeat(id(2))
            };
            tracer.start_clock_cycle(&processor(clk, 1), state, &mut continuation, &forest);
            tracer.increment_clk();
        }
        let context = tracer.into_trace_generation_context();
        assert_eq!(context.fragment_size, size);
        let clks: Vec<u32> =
            context.core_trace_contexts.iter().map(|c| c.state.system.clk).collect();
        assert_eq!(clks, expected);
        let first = &context.core_trace_contexts[0];
        assert_eq!(first.initial_execution_state, NodeExecutionState::Start(id(0)));
        assert!(Arc::ptr_eq(&first.initial_mast_forest, &forest));
        assert_eq!(first.state.system.ctx, ContextId { id: 4 });
        assert_eq!(first.state.system.fmp, felt(5));
        assert_eq!(first.state.system.fn_hash, word(6));
        assert!(first.state.system.in_syscall);
        assert_eq!(first.state.stack.get(15), felt(77));
        let mut continuation = first.continuation.duplicate();
        assert!(matches!(
            continuation.pop_continuation(),
            Some(Continuation::StartNode(MastNodeId { index: 2 }))
        ));
    }
}

#[test]
fn nothing_recorded_gives_no_context() {
    let context = ExecutionTracer::new(4).into_trace_generation_context();
    assert!(context.core_trace_contexts.is_empty());
}

#[test]
fn blocks_are_recorded_for_the_fragment_they_are_in() {
    let forest = forest();
    let mut tracer = ExecutionTracer::new(3);
    let mut continuation = ContinuationStack::new();
    let states = [
        NodeExecutionState::Start(id(0)),
        NodeExecutionState::Start(id(1)),
        NodeExecutionState::Respan { node_id: id(1), batch_index: 1 },
        NodeExecutionState::End(id(1)),
        NodeExecutionState::Start(id(2)),
        NodeExecutionState::End(id(2)),
        NodeExecutionState::End(id(0)),
    ];
    for (clk, state) in states.into_iter().enumerate() {
        tracer.start_clock_cycle(&processor(clk as u32, 1), state, &mut continuation, &forest);
        tracer.increment_clk();
    }
    let context = tracer.into_trace_generation_context();
    let mut contexts = context.core_trace_contexts.into_iter();
    // the root at address 1 and the block at address 9
    let mut first = contexts.next().unwrap();
    assert_eq!(first.state.decoder.current_addr, felt(0));
    assert_eq!(first.replay.hasher.replay_block_address(), felt(1));
    assert_eq!(first.replay.hasher.replay_block_address(), felt(9));
    assert_eq!(first.replay.block_stack.replay_node_start(), felt(0));
    assert_eq!(first.replay.block_stack.replay_node_start(), felt(1));
    // the second batch of the block is at address 17 when the block ends
    let mut second = contexts.next().unwrap();
    assert_eq!(second.state.decoder.current_addr, felt(17));
    assert_eq!(second.state.decoder.parent_addr, felt(1));
    let end = second.replay.block_stack.replay_node_end();
    assert_eq!((end.ended_node_addr, end.prev_addr, end.prev_parent_addr), (felt(17), felt(1), felt(0)));
    assert_eq!(second.replay.hasher.replay_block_address(), felt(25));
    // the loop was entered, for the top of the stack was one
    let end = second.replay.block_stack.replay_node_end();
    assert_eq!(end.ended_node_addr, felt(25));
    assert_eq!(end.flags.loop_entered(), felt(1));
    assert_eq!(end.flags.is_loop_body(), felt(0));
    let mut third = contexts.next().unwrap();
    assert_eq!(third.state.decoder.current_addr, felt(1));
    assert_eq!(third.replay.block_stack.replay_node_end().ended_node_addr, felt(1));
    assert!(contexts.next().is_none());
    // what the hasher is asked for
    let requests: Vec<_> = context.hasher_for_chiplet.into_entries().into_iter().collect();
    assert!(matches!(
        &requests[0],
        HasherOp::HashControlBlock(e) if *e == (word(20), word(30), felt(87), word(10))
    ));
    assert!(matches!(
        &requests[1],
        HasherOp::HashBasicBlock((batches, d)) if batches.len() == 2 && *d == word(20)
    ));
    assert!(matches!(
        &requests[2],
        HasherOp::HashControlBlock(e) if *e == (word(20), Word::empty(), felt(85), word(30))
    ));
}

#[test]
fn answers_are_recorded_for_the_fragment_they_are_in() {
    let forest = forest();
    let mut tracer = ExecutionTracer::new(2);
    let mut continuation = ContinuationStack::new();
    let state = NodeExecutionState::LoopRepeat(id(2));
    let ctx = ContextId { id: 4 };
    tracer.start_clock_cycle(&processor(0, 1), state, &mut continuation, &forest);
    tracer.record_memory_read_element(felt(1), felt(2), ctx, 0);
    tracer.record_memory_read_word(word(3), felt(4), ctx, 0);
    tracer.record_memory_write_element(felt(5), felt(6), ctx, 0);
    tracer.record_memory_write_word(word(7), felt(8), ctx, 0);
    tracer.record_advice_pop_stack(felt(9));
    tracer.record_advice_pop_stack_word(word(10));
    tracer.record_advice_pop_stack_dword([word(11), word(12)]);
    tracer.record_u32and(felt(13), felt(14));
    tracer.record_u32xor(felt(15), felt(16));
    tracer.record_u32_range_checks(0, felt(0x0002_0001), felt(0x0004_0003));
    tracer.record_kernel_proc_access(word(17));
    tracer.record_circuit_evaluation(0, CircuitEvaluation::new(ctx, 0, 1, 4));
    tracer.record_mast_forest_resolution(id(1), &forest);
    tracer.record_hasher_permute([felt(18); 12], [felt(19); 12]);
    let path = MerklePath { nodes: vec![word(20)] };
    tracer.record_hasher_build_merkle_root(word(21), Some(&path), felt(22), word(23));
    tracer.increment_clk();
    tracer.start_clock_cycle(&processor(1, 1), state, &mut continuation, &forest);
    tracer.record_memory_read_element(felt(31), felt(32), ctx, 1);
    tracer.increment_clk();
    tracer.start_clock_cycle(&processor(2, 1), state, &mut continuation, &forest);
    tracer.record_advice_pop_stack(felt(33));
    tracer.record_hasher_update_merkle_root(
        word(34),
        word(35),
        Some(&path),
        felt(36),
        word(37),
        word(38),
    );
    let context = tracer.into_trace_generation_context();
    let mut contexts = context.core_trace_contexts.into_iter();
    let mut first = contexts.next().unwrap();
    assert_eq!(first.replay.memory_reads.replay_read_element(felt(2)), felt(1));
    assert_eq!(first.replay.memory_reads.replay_read_element(felt(32)), felt(31));
    assert_eq!(first.replay.memory_reads.replay_read_word(felt(4)), word(3));
    assert_eq!(first.replay.advice.replay_pop_stack(), felt(9));
    assert_eq!(first.replay.advice.replay_pop_stack_word(), word(10));
    assert_eq!(first.replay.advice.replay_pop_stack_dword(), [word(11), word(12)]);
    assert_eq!(first.replay.mast_forest_resolution.replay_resolution().0, id(1));
    assert_eq!(first.replay.hasher.replay_permute(), (felt(1), [felt(19); 12]));
    assert_eq!(first.replay.hasher.replay_build_merkle_root(), (felt(9), word(23)));
    let mut second = contexts.next().unwrap();
    assert_eq!(second.replay.advice.replay_pop_stack(), felt(33));
    assert_eq!(
        second.replay.hasher.replay_update_merkle_root(),
        (felt(17), word(37), word(38))
    );
    assert!(second.replay.memory_reads.iter_read_elements().is_empty());
    // the requests to the chiplets are not parted
    assert_eq!(context.memory_writes.iter_elements_written(), vec![(felt(5), felt(6), ctx, 0)]);
    assert_eq!(context.memory_writes.iter_words_written(), vec![(word(7), felt(8), ctx, 0)]);
    assert_eq!(
        context.bitwise_replay.into_entries().into_iter().collect::<Vec<_>>(),
        vec![(BitwiseOp::U32And, felt(13), felt(14)), (BitwiseOp::U32Xor, felt(15), felt(16))]
    );
    assert_eq!(
        context.range_checker_replay.into_entries().into_iter().collect::<Vec<_>>(),
        vec![(0, [1, 2, 3, 4])]
    );
    assert_eq!(context.kernel_replay.into_entries().into_iter().collect::<Vec<_>>(), vec![word(17)]);
    assert_eq!(context.ace_replay.into_entries().len(), 1);
    assert_eq!(context.hasher_for_chiplet.into_entries().len(), 3);
}

#[test]
fn the_overflow_table_is_recorded_for_replay() {
    let forest = forest();
    let mut tracer = ExecutionTracer::new(4);
    let mut continuation = ContinuationStack::new();
    let state = NodeExecutionState::LoopRepeat(id(2));
    tracer.start_clock_cycle(&processor(0, 1), state, &mut continuation, &forest);
    // a pop from an empty table leaves no recording
    tracer.decrement_stack_size();
    tracer.increment_stack_size(&processor(0, 1));
    tracer.increment_clk();
    tracer.increment_stack_size(&processor(1, 1));
    tracer.start_context();
    tracer.increment_clk();
    tracer.increment_stack_size(&processor(2, 1));
    tracer.decrement_stack_size();
    tracer.restore_context();
    tracer.decrement_stack_size();
    tracer.increment_clk();
    tracer.increment_clk();
    // a fragment begins with one element in the overflow table
    tracer.start_clock_cycle(&processor(4, 1), state, &mut continuation, &forest);
    let context = tracer.into_trace_generation_context();
    let mut contexts = context.core_trace_contexts.into_iter();
    let mut first = contexts.next().unwrap();
    assert_eq!(first.replay.stack_overflow.replay_pop_overflow(), (felt(77), felt(0)));
    assert_eq!(
        first.replay.stack_overflow.replay_restore_context_overflow_addr(),
        (18, felt(1))
    );
    assert_eq!(first.replay.stack_overflow.replay_pop_overflow(), (felt(77), felt(0)));
    let mut second = contexts.next().unwrap();
    assert_eq!(second.state.stack.stack_depth(), 17);
    assert_eq!(second.state.stack.overflow_addr(), felt(0));
}
