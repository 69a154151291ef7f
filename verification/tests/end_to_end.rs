//! Programs are executed step by step while a tracer records them, and the trace is generated from
//! the recording.

use miden_trace::context::ContextId;
use miden_trace::continuation::{Continuation, ContinuationStack};
use miden_trace::execution_tracer::{ExecutionTracer, TraceGenerationContext};
use miden_trace::fast_processor::FastProcessor;
use miden_trace::felt::Felt;
use miden_trace::layout::{
    CLK_COL_IDX, FMP_MIN, MIN_STACK_DEPTH, OPCODE_CALL, OPCODE_END, OPCODE_HALT, OPCODE_JOIN,
    OPCODE_LOOP, OPCODE_NOOP, OPCODE_REPEAT, OPCODE_RESPAN, OPCODE_SPAN, OPCODE_SPLIT,
    OPCODE_U32ADD, OPCODE_U32ADD3, OPCODE_U32SPLIT, STACK_TRACE_OFFSET,
};
use miden_trace::mast::{
    BasicBlockNode, CallNode, DynNode, ExternalNode, JoinNode, LoopNode, MastForest, MastNode,
    MastNodeId, OpBatch, Operation, SplitNode,
};
use miden_trace::parallel::chiplets::{RangeChecker, RequestLog};
use miden_trace::parallel::combine::{combine_fragments, count_rows};
use miden_trace::parallel::generator::CoreTraceFragmentGenerator;
use miden_trace::parallel::main_trace::{
    build_trace, DecoderAuxTraceBuilder, Kernel, StackAuxTraceBuilder, TraceTables,
};
use miden_trace::parallel::stitch::generate_core_trace_fragments;
use miden_trace::parallel::sync_ops::ArithmeticOps;
use miden_trace::trace_state::NodeExecutionState;
use miden_trace::tracer::Tracer;
use miden_trace::word::Word;
use std::sync::Arc;

fn felt(v: u64) -> Felt {
    Felt::new(v)
}

fn word(v: u64) -> Word {
    Word::new([felt(v), felt(v + 1), felt(v + 2), felt(v + 3)])
}

fn id(index: u32) -> MastNodeId {
    MastNodeId { index }
}

fn op(op_code: u8) -> Operation {
    Operation { op_code, imm_value: None, err_code: felt(0) }
}

/// A batch in which every group holds the given operations.
fn batch(groups: &[&[u8]]) -> OpBatch {
    let mut ops = Vec::new();
    let mut indptr = [0usize; 9];
    let mut encodings = [felt(0); 8];
    for (g, codes) in groups.iter().enumerate() {
        let mut encoding: u64 = 0;
        for (i, code) in codes.iter().enumerate() {
            ops.push(op(*code));
            encoding += (*code as u64) << (7 * i);
        }
        encodings[g] = felt(encoding);
        indptr[g + 1] = ops.len();
    }
    OpBatch::new(ops, indptr, encodings, groups.len()).unwrap()
}

fn block(batches: Vec<OpBatch>, digest: u64) -> MastNode {
    MastNode::Block(BasicBlockNode::new(batches, word(digest)).unwrap())
}

/// Executes programs one clock cycle after the other, and tells a tracer.
struct Machine {
    processor: FastProcessor,
    overflow: Vec<Vec<Felt>>,
    tracer: ExecutionTracer,
    continuation: ContinuationStack,
    forest: Arc<MastForest>,
    memory_word: Word,
    external: Option<(MastNodeId, Arc<MastForest>)>,
}

impl Machine {
    fn new(forest: Arc<MastForest>, top: &[u64], fragment_size: usize) -> Self {
        let mut stack_top = [felt(0); 16];
        for (i, v) in top.iter().enumerate() {
            stack_top[15 - i] = felt(*v);
        }
        Machine {
            processor: FastProcessor {
                clk: 0,
                ctx: ContextId::root(),
                fmp: felt(FMP_MIN),
                in_syscall: false,
                caller_hash: Word::empty(),
                stack_top,
                stack_depth: 16,
            },
            overflow: vec![Vec::new()],
            tracer: ExecutionTracer::new(fragment_size),
            continuation: ContinuationStack::new(),
            forest,
            memory_word: Word::empty(),
            external: None,
        }
    }

    fn begin(&mut self, state: NodeExecutionState) {
        self.tracer.start_clock_cycle(
            &self.processor,
            state,
            &mut self.continuation,
            &self.forest,
        );
    }

    fn end(&mut self) {
        self.tracer.increment_clk();
        self.processor.clk += 1;
    }

    fn top(&self) -> Felt {
        self.processor.stack_get(0)
    }

    fn set(&mut self, idx: usize, value: u64) {
        self.processor.stack_top[15 - idx] = felt(value);
    }

    fn get(&self, idx: usize) -> u64 {
        self.processor.stack_get(idx).as_int()
    }

    fn drop_top(&mut self) {
        self.tracer.decrement_stack_size();
        let bottom = self.overflow.last_mut().unwrap().pop().unwrap_or(felt(0));
        for i in (1..16).rev() {
            self.processor.stack_top[i] = self.processor.stack_top[i - 1];
        }
        self.processor.stack_top[0] = bottom;
        if self.processor.stack_depth > 16 {
            self.processor.stack_depth -= 1;
        }
    }

    fn push(&mut self, value: u64) {
        self.tracer.increment_stack_size(&self.processor);
        let last = self.processor.stack_top[0];
        self.overflow.last_mut().unwrap().push(last);
        for i in 0..15 {
            self.processor.stack_top[i] = self.processor.stack_top[i + 1];
        }
        self.processor.stack_top[15] = felt(value);
        self.processor.stack_depth += 1;
    }

    fn operation(&mut self, code: u8) {
        match code {
            OPCODE_NOOP => {}
            OPCODE_U32ADD => {
                let sum = self.get(0) + self.get(1);
                self.set(0, sum >> 32);
                self.set(1, sum & 0xffff_ffff);
            }
            OPCODE_U32ADD3 => {
                let sum = self.get(0) + self.get(1) + self.get(2);
                self.drop_top();
                self.set(0, sum >> 32);
                self.set(1, sum & 0xffff_ffff);
            }
            OPCODE_U32SPLIT => {
                let value = self.get(0);
                self.push(value >> 32);
                self.set(1, value & 0xffff_ffff);
            }
            _ => panic!("unexpected operation"),
        }
    }

    fn run_block(&mut self, node_id: MastNodeId) {
        let forest = self.forest.clone();
        let node = match forest.get_node_by_id(node_id).unwrap() {
            MastNode::Block(node) => node,
            _ => panic!("no basic block"),
        };
        self.begin(NodeExecutionState::Start(node_id));
        self.end();
        for (b, batch) in node.op_batches().iter().enumerate() {
            if b > 0 {
                self.begin(NodeExecutionState::Respan { node_id, batch_index: b });
                self.end();
            }
            for (i, op) in batch.ops().iter().enumerate() {
                self.begin(NodeExecutionState::BasicBlock {
                    node_id,
                    batch_index: b,
                    op_idx_in_batch: i,
                });
                self.operation(op.op_code);
                self.end();
            }
        }
        self.begin(NodeExecutionState::End(node_id));
        self.end();
    }

    fn start_node(&mut self, node_id: MastNodeId) {
        let forest = self.forest.clone();
        match forest.get_node_by_id(node_id).unwrap() {
            MastNode::Block(_) => self.run_block(node_id),
            MastNode::Join(n) => {
                self.begin(NodeExecutionState::Start(node_id));
                self.end();
                self.continuation.push_continuation(Continuation::FinishJoin(node_id));
                self.continuation.push_continuation(Continuation::StartNode(n.second));
                self.continuation.push_continuation(Continuation::StartNode(n.first));
            }
            MastNode::Split(n) => {
                self.begin(NodeExecutionState::Start(node_id));
                let condition = self.top();
                self.drop_top();
                self.end();
                self.continuation.push_continuation(Continuation::FinishSplit(node_id));
                let child = if condition == felt(1) { n.on_true } else { n.on_false };
                self.continuation.push_continuation(Continuation::StartNode(child));
            }
            MastNode::Loop(n) => {
                self.begin(NodeExecutionState::Start(node_id));
                let condition = self.top();
                self.drop_top();
                self.end();
                if condition == felt(1) {
                    self.continuation.push_continuation(Continuation::FinishLoop(node_id));
                    self.continuation.push_continuation(Continuation::StartNode(n.body));
                } else {
                    self.begin(NodeExecutionState::End(node_id));
                    self.end();
                }
            }
            MastNode::Call(n) => {
                self.begin(NodeExecutionState::Start(node_id));
                let callee = forest.get_node_by_id(n.callee).unwrap().digest();
                self.start_context(callee);
                self.end();
                self.continuation.push_continuation(Continuation::FinishCall(node_id));
                self.continuation.push_continuation(Continuation::StartNode(n.callee));
            }
            MastNode::Dyn(n) => {
                self.begin(NodeExecutionState::Start(node_id));
                let callee = self.memory_word;
                let (addr, ctx, clk) = (self.top(), self.processor.ctx, self.processor.clk);
                self.tracer.record_memory_read_word(callee, addr, ctx, clk);
                self.drop_top();
                if n.is_dyncall {
                    self.start_context(callee);
                }
                self.end();
                self.continuation.push_continuation(Continuation::FinishDyn(node_id));
                match forest.find_procedure_root(callee) {
                    Some(callee_id) => {
                        self.continuation.push_continuation(Continuation::StartNode(callee_id));
                    }
                    None => self.resolve(),
                }
            }
            MastNode::External(_) => self.resolve(),
        }
    }

    fn resolve(&mut self) {
        let (node_id, forest) = self.external.take().unwrap();
        self.tracer.record_mast_forest_resolution(node_id, &forest);
        let previous = self.forest.clone();
        self.continuation.push_continuation(Continuation::EnterForest(previous));
        self.continuation.push_continuation(Continuation::StartNode(node_id));
        self.forest = forest;
    }

    fn start_context(&mut self, callee: Word) {
        self.tracer.start_context();
        self.overflow.push(Vec::new());
        self.processor.ctx = ContextId { id: self.processor.clk + 1 };
        self.processor.fmp = felt(FMP_MIN);
        self.processor.caller_hash = callee;
        self.processor.stack_depth = 16;
    }

    fn end_context(&mut self, node_id: MastNodeId) {
        self.begin(NodeExecutionState::End(node_id));
        self.tracer.restore_context();
        self.overflow.pop();
        self.processor.ctx = ContextId::root();
        self.processor.caller_hash = Word::empty();
        self.processor.stack_depth = 16 + self.overflow.last().unwrap().len() as u32;
        self.end();
    }

    fn run(mut self, root: MastNodeId) -> (TraceGenerationContext, FastProcessor) {
        self.continuation.push_continuation(Continuation::StartNode(root));
        while let Some(continuation) = self.continuation.pop_continuation() {
            match continuation {
                Continuation::StartNode(node_id) => self.start_node(node_id),
                Continuation::FinishJoin(node_id) | Continuation::FinishSplit(node_id) => {
                    self.begin(NodeExecutionState::End(node_id));
                    self.end();
                }
                Continuation::FinishLoop(node_id) => {
                    if self.top() == felt(1) {
                        self.begin(NodeExecutionState::LoopRepeat(node_id));
                        self.drop_top();
                        self.end();
                        let forest = self.forest.clone();
                        let body = match forest.get_node_by_id(node_id).unwrap() {
                            MastNode::Loop(n) => n.body,
                            _ => panic!("no loop"),
                        };
                        self.continuation.push_continuation(Continuation::FinishLoop(node_id));
                        self.continuation.push_continuation(Continuation::StartNode(body));
                    } else {
                        self.begin(NodeExecutionState::End(node_id));
                        self.drop_top();
                        self.end();
                    }
                }
                Continuation::FinishCall(node_id) => self.end_context(node_id),
                Continuation::FinishDyn(node_id) => {
                    let forest = self.forest.clone();
                    match forest.get_node_by_id(node_id).unwrap() {
                        MastNode::Dyn(n) if n.is_dyncall => self.end_context(node_id),
                        _ => {
                            self.begin(NodeExecutionState::End(node_id));
                            self.end();
                        }
                    }
                }
                Continuation::EnterForest(previous) => self.forest = previous,
            }
        }
        let processor = self.processor;
        (self.tracer.into_trace_generation_context(), processor)
    }
}

/// A program with a node of every sort that does not need another forest.
fn forest() -> Arc<MastForest> {
    let nodes = vec![
        // 0: splits and adds, in two groups
        block(vec![batch(&[&[OPCODE_U32SPLIT, OPCODE_U32ADD], &[OPCODE_U32ADD3, OPCODE_NOOP]])], 100),
        // 1: two batches
        block(
            vec![
                batch(&[
                    &[OPCODE_NOOP],
                    &[OPCODE_NOOP],
                    &[OPCODE_NOOP, OPCODE_NOOP],
                    &[OPCODE_NOOP],
                    &[OPCODE_NOOP],
                    &[OPCODE_NOOP],
                    &[OPCODE_NOOP],
                    &[OPCODE_NOOP],
                ]),
                batch(&[&[OPCODE_U32SPLIT]]),
            ],
            200,
        ),
        // 2: a loop with the body 3
        MastNode::Loop(LoopNode { body: id(3), digest: word(300) }),
        block(vec![batch(&[&[OPCODE_NOOP]])], 400),
        // 4: a choice
        MastNode::Split(SplitNode { on_true: id(0), on_false: id(1), digest: word(500) }),
        // 5: a call of 1
        MastNode::Call(CallNode { callee: id(1), is_syscall: false, digest: word(600) }),
        // 6: 0, then the loop
        MastNode::Join(JoinNode { first: id(0), second: id(2), digest: word(700) }),
        // 7: the choice, then the call
        MastNode::Join(JoinNode { first: id(4), second: id(5), digest: word(800) }),
        // 8: all
        MastNode::Join(JoinNode { first: id(6), second: id(7), digest: word(900) }),
        // 9: dynamic nodes
        MastNode::Dyn(DynNode { is_dyncall: false, digest: word(1000) }),
        MastNode::Dyn(DynNode { is_dyncall: true, digest: word(1100) }),
        // 11: a node of another forest
        MastNode::External(ExternalNode { digest: word(1200) }),
    ];
    let roots = vec![id(0), id(8)];
    Arc::new(MastForest::new(nodes, roots).unwrap())
}

const TOP: [u64; 8] = [0x1_0000_0007, 5, 9, 1, 0, 1, 3, 4];

/// The columns of the core trace, of the given number of rows, and the number of rows before.
fn core_trace(context: TraceGenerationContext, rows: usize) -> (Vec<Vec<Felt>>, usize) {
    let fragments = generate_core_trace_fragments(
        context.core_trace_contexts,
        context.fragment_size,
        &ArithmeticOps,
    );
    let total = count_rows(&fragments);
    (combine_fragments(fragments, rows), total)
}

fn op_code(columns: &[Vec<Felt>], row: usize) -> u8 {
    (0..7).map(|i| (columns[9 + i][row].as_int() as u8) << i).sum()
}

#[test]
fn every_fragment_size_gives_the_same_trace() {
    let (context, _) = Machine::new(forest(), &TOP, 1000).run(id(8));
    assert_eq!(context.core_trace_contexts.len(), 1);
    let (expected, total) = core_trace(context, 128);
    for size in 1..=total {
        let (context, processor) = Machine::new(forest(), &TOP, size).run(id(8));
        let cycles = processor.clk as usize;
        assert_eq!(cycles + 1, total);
        assert_eq!(context.core_trace_contexts.len(), (cycles + size - 1) / size);
        let (columns, rows) = core_trace(context, 128);
        assert_eq!(rows, total);
        assert_eq!(columns, expected, "fragment size {size}");
    }
}

#[test]
fn all_fragments_but_the_last_are_full() {
    let mut overfull = 0;
    for size in 1..60 {
        let (context, processor) = Machine::new(forest(), &TOP, size).run(id(8));
        let cycles = processor.clk as usize;
        let begins: Vec<u32> =
            context.core_trace_contexts.iter().map(|c| c.state.system.clk).collect();
        let expected: Vec<u32> = (0..cycles as u32).step_by(size).collect();
        assert_eq!(begins, expected);
        let fragments =
            generate_core_trace_fragments(context.core_trace_contexts, size, &ArithmeticOps);
        let rows: Vec<usize> = fragments.iter().map(|f| f.row_count()).collect();
        let (last, full) = rows.split_last().unwrap();
        assert!(full.iter().all(|n| *n == size));
        // the row that shows HALT comes behind the rows of the last fragment, even if they fill it
        assert_eq!(*last, cycles - full.len() * size + 1);
        if *last == size + 1 {
            overfull += 1;
        }
    }
    assert!(overfull > 1);
}

/// The fragment of the given size that begins in one of the contexts that were recorded.
fn fragment(
    recorded_size: usize,
    index: usize,
    size: usize,
) -> (Vec<Vec<Felt>>, [Felt; 19], [Felt; 8]) {
    let (mut context, _) = Machine::new(forest(), &TOP, recorded_size).run(id(8));
    let begin = context.core_trace_contexts.swap_remove(index);
    let (fragment, stack, system) =
        CoreTraceFragmentGenerator::new(begin, size).generate_fragment(&ArithmeticOps);
    (fragment.columns, stack, system)
}

#[test]
fn smaller_fragments_have_the_first_rows_of_larger_ones() {
    let (large, last_stack, last_system) = fragment(1000, 0, 1000);
    let rows = large[0].len();
    for size in 1..=rows {
        let (small, stack, system) = fragment(1000, 0, size);
        for (column, cells) in small.iter().enumerate() {
            assert_eq!(cells[..], large[column][..size]);
        }
        if size < rows {
            for (i, cell) in system.iter().enumerate() {
                assert_eq!(*cell, large[i][size]);
            }
            for (i, cell) in stack.iter().enumerate() {
                assert_eq!(*cell, large[STACK_TRACE_OFFSET + i][size]);
            }
        } else {
            assert_eq!((stack, system), (last_stack, last_system));
        }
    }
}

#[test]
fn a_trace_may_be_cut_anywhere() {
    let (whole, _, _) = fragment(1000, 0, 1000);
    let rows = whole[0].len();
    for size in 1..rows {
        let (first, stack, system) = fragment(size, 0, size);
        let (mut second, _, _) = fragment(size, 1, size);
        for (i, cell) in system.iter().enumerate() {
            second[i][0] = *cell;
        }
        for (i, cell) in stack.iter().enumerate() {
            second[STACK_TRACE_OFFSET + i][0] = *cell;
        }
        let end = rows.min(2 * size);
        for (column, cells) in whole.iter().enumerate() {
            assert_eq!(first[column][..], cells[..size]);
            assert_eq!(second[column][..], cells[size..end]);
        }
    }
}

#[test]
fn operations_come_in_order_of_execution() {
    let (context, _) = Machine::new(forest(), &TOP, 7).run(id(8));
    let (columns, total) = core_trace(context, 64);
    let codes: Vec<u8> = (0..total).map(|row| op_code(&columns, row)).collect();
    let expected = vec![
        OPCODE_JOIN,
        OPCODE_JOIN,
        OPCODE_SPAN,
        OPCODE_U32SPLIT,
        OPCODE_U32ADD,
        OPCODE_U32ADD3,
        OPCODE_NOOP,
        OPCODE_END,
        OPCODE_LOOP,
        OPCODE_END,
        OPCODE_END,
        OPCODE_JOIN,
        OPCODE_SPLIT,
        OPCODE_SPAN,
        OPCODE_NOOP,
        OPCODE_NOOP,
        OPCODE_NOOP,
        OPCODE_NOOP,
        OPCODE_NOOP,
        OPCODE_NOOP,
        OPCODE_NOOP,
        OPCODE_NOOP,
        OPCODE_NOOP,
        OPCODE_RESPAN,
        OPCODE_U32SPLIT,
        OPCODE_END,
        OPCODE_END,
        OPCODE_CALL,
        OPCODE_SPAN,
        OPCODE_NOOP,
        OPCODE_NOOP,
        OPCODE_NOOP,
        OPCODE_NOOP,
        OPCODE_NOOP,
        OPCODE_NOOP,
        OPCODE_NOOP,
        OPCODE_NOOP,
        OPCODE_NOOP,
        OPCODE_RESPAN,
        OPCODE_U32SPLIT,
        OPCODE_END,
        OPCODE_END,
        OPCODE_END,
        OPCODE_END,
        OPCODE_HALT,
    ];
    assert_eq!(codes, expected);
}

#[test]
fn rows_show_the_state_of_the_machine() {
    let (context, processor) = Machine::new(forest(), &TOP, 5).run(id(8));
    let (columns, total) = core_trace(context, 64);
    // the clock counts up, beyond the end of the program too
    for row in 0..64 {
        assert_eq!(columns[0][row], felt(row as u64));
    }
    // the first row shows the initial state
    assert_eq!(columns[1][0], felt(FMP_MIN));
    for i in 0..8 {
        assert_eq!(columns[STACK_TRACE_OFFSET + i][0], felt(TOP[i]));
    }
    assert_eq!(columns[STACK_TRACE_OFFSET + 16][0], felt(16));
    // U32SPLIT in row 3: the elements move down by one, and one is in the overflow table
    assert_eq!(columns[STACK_TRACE_OFFSET][4], felt(1));
    assert_eq!(columns[STACK_TRACE_OFFSET + 1][4], felt(7));
    assert_eq!(columns[STACK_TRACE_OFFSET + 2][4], felt(5));
    assert_eq!(columns[STACK_TRACE_OFFSET + 16][4], felt(17));
    assert_eq!(columns[STACK_TRACE_OFFSET + 17][4], felt(3));
    assert_eq!(columns[STACK_TRACE_OFFSET + 18][4], felt(1));
    // U32ADD in row 4, U32ADD3 in row 5
    assert_eq!(columns[STACK_TRACE_OFFSET][5], felt(0));
    assert_eq!(columns[STACK_TRACE_OFFSET + 1][5], felt(8));
    assert_eq!(columns[STACK_TRACE_OFFSET][6], felt(0));
    assert_eq!(columns[STACK_TRACE_OFFSET + 1][6], felt(13));
    assert_eq!(columns[STACK_TRACE_OFFSET + 16][6], felt(16));
    assert_eq!(columns[STACK_TRACE_OFFSET + 18][6], felt(0));
    // the last rows show the final state
    for row in total - 1..64 {
        for i in 0..MIN_STACK_DEPTH {
            assert_eq!(columns[STACK_TRACE_OFFSET + i][row], processor.stack_get(i));
        }
        assert_eq!(op_code(&columns, row), OPCODE_HALT);
    }
    // the call in row 27 starts a context, the END in row 42 leaves it
    assert_eq!(columns[2][27], felt(0));
    assert_eq!(columns[2][28], felt(28));
    assert_eq!(columns[4][28], felt(200));
    assert_eq!(columns[2][41], felt(28));
    assert_eq!(columns[2][42], felt(0));
    assert_eq!(columns[4][42], felt(0));
}

#[test]
fn decoder_columns_show_addresses_and_groups() {
    let (context, _) = Machine::new(forest(), &TOP, 6).run(id(8));
    let (columns, _) = core_trace(context, 64);
    let cell = |c: usize, row: usize| columns[8 + c][row].as_int();
    // the addresses: the root starts at address 1 and has no parent
    assert_eq!(cell(0, 0), 0);
    assert_eq!(cell(0, 1), 1);
    assert_eq!(cell(0, 2), 9);
    // within the block at address 17, whose parent is at address 9
    assert_eq!(cell(0, 3), 17);
    assert_eq!(cell(9, 3), 9);
    // the digests of the children of the root
    assert_eq!(cell(8, 0), 700);
    assert_eq!(cell(12, 0), 800);
    // SPAN: two groups, and the groups themselves
    assert_eq!(cell(17, 2), 2);
    assert_eq!((cell(19, 2), cell(20, 2), cell(21, 2)), (0, 0, 1));
    assert_eq!(cell(8, 2), OPCODE_U32SPLIT as u64 + ((OPCODE_U32ADD as u64) << 7));
    assert_eq!(cell(9, 2), OPCODE_U32ADD3 as u64);
    // U32SPLIT: in a block, one group left, first of its group
    assert_eq!((cell(16, 3), cell(17, 3), cell(18, 3)), (1, 1, 0));
    assert_eq!(cell(8, 3), OPCODE_U32ADD as u64);
    // its helper registers: the limbs of 7 and of 1
    assert_eq!((cell(10, 3), cell(11, 3), cell(12, 3), cell(13, 3)), (7, 0, 1, 0));
    // U32ADD: nothing left of the group; U32ADD3: no group left
    assert_eq!((cell(8, 4), cell(17, 4), cell(18, 4)), (0, 1, 1));
    assert_eq!((cell(17, 5), cell(18, 5)), (0, 0));
    // END of the block: its own address, its digest, no flags
    assert_eq!(cell(0, 7), 17);
    assert_eq!(cell(8, 7), 100);
    assert_eq!((cell(12, 7), cell(13, 7), cell(14, 7), cell(15, 7)), (0, 0, 0, 0));
    // RESPAN: one group left; the block goes on at the next address of the hasher
    assert_eq!(cell(17, 23), 1);
    assert_eq!(cell(0, 24), cell(0, 23) + 8);
    // the extra columns are products of the bits of the code
    assert_eq!((cell(22, 0), cell(23, 0)), (1, 0));
    assert_eq!((cell(22, 7), cell(23, 7)), (0, 1));
}

#[test]
fn loops_are_repeated_for_as_long_as_the_condition_is_one() {
    let top = [1, 1, 1, 0, 42];
    for size in 1..20 {
        let (context, processor) = Machine::new(forest(), &top, size).run(id(2));
        let (columns, total) = core_trace(context, 64);
        let codes: Vec<u8> = (0..total).map(|row| op_code(&columns, row)).collect();
        let mut expected = vec![OPCODE_LOOP, OPCODE_SPAN, OPCODE_NOOP, OPCODE_END];
        for _ in 0..2 {
            expected.extend([OPCODE_REPEAT, OPCODE_SPAN, OPCODE_NOOP, OPCODE_END]);
        }
        expected.extend([OPCODE_END, OPCODE_HALT]);
        assert_eq!(codes, expected);
        // the body is a loop body, the loop was entered
        assert_eq!(columns[8 + 12][3], felt(1));
        assert_eq!(columns[8 + 13][3], felt(0));
        assert_eq!(columns[8 + 12][12], felt(0));
        assert_eq!(columns[8 + 13][12], felt(1));
        assert_eq!(processor.stack_get(0), felt(42));
        assert_eq!(columns[STACK_TRACE_OFFSET][13], felt(42));
    }
}

#[test]
fn dynamic_nodes_find_their_callees() {
    for (root, size) in [(9, 1), (9, 2), (9, 3), (9, 100), (10, 1), (10, 2), (10, 5), (10, 100)] {
        // the callee is procedure 0 of the forest
        let mut machine = Machine::new(forest(), &[40, 2, 3], size);
        machine.memory_word = word(100);
        let (context, _) = machine.run(id(root));
        let (columns, total) = core_trace(context, 64);
        assert_eq!(total, 9);
        assert_eq!(columns[8 + 8][0], felt(100));
        assert_eq!(op_code(&columns, 1), OPCODE_SPAN);
        let new_context = if root == 10 { felt(1) } else { felt(0) };
        assert_eq!(columns[2][1], new_context);
        assert_eq!(columns[2][8], felt(0));
        // a dynamic call is flagged as a call when it ends
        assert_eq!(columns[8 + 14][7], if root == 10 { felt(1) } else { felt(0) });
    }
}

#[test]
fn nodes_of_other_forests_are_taken_from_the_recording() {
    let other = Arc::new(
        MastForest::new(
            vec![block(vec![batch(&[&[OPCODE_U32ADD]])], 1200)],
            vec![id(0)],
        )
        .unwrap(),
    );
    for size in [1, 2, 3, 10] {
        // an external node
        let mut machine = Machine::new(forest(), &[3, 4], size);
        machine.external = Some((id(0), other.clone()));
        let (context, processor) = machine.run(id(11));
        let (columns, total) = core_trace(context, 64);
        assert_eq!(total, 4);
        assert_eq!(op_code(&columns, 1), OPCODE_U32ADD);
        assert_eq!(processor.stack_get(1), felt(7));
        // a dynamic node whose callee is in another forest
        let mut machine = Machine::new(forest(), &[40, 3, 4], size);
        machine.memory_word = word(1200);
        machine.external = Some((id(0), other.clone()));
        let (context, processor) = machine.run(id(9));
        let (columns, total) = core_trace(context, 64);
        assert_eq!(total, 6);
        assert_eq!(op_code(&columns, 2), OPCODE_U32ADD);
        assert_eq!(columns[STACK_TRACE_OFFSET + 1][3], felt(7));
        assert_eq!(processor.stack_get(1), felt(7));
    }
}

#[test]
fn the_main_trace_is_assembled_from_all_parts() {
    let (context, _) = Machine::new(forest(), &TOP, 8).run(id(8));
    let (expected, total) = {
        let (context, _) = Machine::new(forest(), &TOP, 1000).run(id(8));
        core_trace(context, 64)
    };
    let tables = TraceTables {
        chiplets: |_kernel: &Kernel| RequestLog::new(),
        memory_checks: |_chiplets: &RequestLog| vec![(7u32, [1u16, 2u16])],
        range_table_len: |checks: &RangeChecker| {
            checks.u32_checks.len() + checks.memory_checks.len()
        },
        chiplets_lengths: |chiplets: &RequestLog| (chiplets.hasher.len(), 50),
        range_trace: |_checks: RangeChecker, _len: usize, rows: usize, _rand: usize| {
            (vec![vec![felt(11); rows]; 2], "range")
        },
        chiplets_trace: |_chiplets: RequestLog, rows: usize, _rand: usize| {
            (vec![vec![felt(12); rows]; 20], "chiplets")
        },
    };
    let trace = build_trace(
        "output",
        context,
        word(900),
        Kernel { proc_hashes: Vec::new() },
        &ArithmeticOps,
        tables,
    );
    assert_eq!(trace.program_hash, word(900));
    assert_eq!(trace.execution_output, "output");
    assert_eq!(trace.aux_trace_builders.decoder, DecoderAuxTraceBuilder);
    assert_eq!(trace.aux_trace_builders.range, "range");
    assert_eq!(trace.aux_trace_builders.chiplets, "chiplets");
    assert_eq!(trace.aux_trace_builders.stack, StackAuxTraceBuilder);
    assert_eq!(trace.trace_len_summary.main_trace_len, total - 1);
    assert_eq!(trace.trace_len_summary.range_trace_len, 1);
    // eight nodes are hashed, one of them twice
    assert_eq!(trace.trace_len_summary.chiplets_trace_len, 9);
    assert_eq!(trace.main_trace.last_program_row, total as u32 - 2);
    let columns = &trace.main_trace.columns;
    assert_eq!(columns.len(), 80);
    for (c, column) in columns.iter().enumerate() {
        assert_eq!(column.len(), 64);
        for row in 0..63 {
            let value = if c < 51 {
                expected[c][row]
            } else if c < 53 {
                felt(11)
            } else if c < 73 {
                felt(12)
            } else {
                felt(0)
            };
            assert_eq!(column[row], value);
        }
    }
    // the last row is random: it depends on the digest of the program alone
    let mut coin = miden_core::crypto::random::RpoRandomCoin::new(miden_core::Word::new(
        [900, 901, 902, 903].map(miden_core::Felt::new),
    ));
    for column in columns {
        let drawn: miden_core::Felt =
            miden_core::crypto::random::RandomCoin::draw(&mut coin).unwrap();
        assert_eq!(column[63].as_int(), drawn.as_int());
    }
}

/// The columns of the main trace, its last program row and the lengths of its parts.
fn main_trace(fragment_size: usize) -> (Vec<Vec<Felt>>, u32, [usize; 3]) {
    let (context, _) = Machine::new(forest(), &TOP, fragment_size).run(id(8));
    let tables = TraceTables {
        chiplets: |_kernel: &Kernel| RequestLog::new(),
        memory_checks: |chiplets: &RequestLog| {
            vec![(chiplets.memory.len() as u32, [1u16, 2u16]); chiplets.hasher.len()]
        },
        range_table_len: |checks: &RangeChecker| {
            checks.u32_checks.len() + checks.memory_checks.len()
        },
        chiplets_lengths: |chiplets: &RequestLog| (chiplets.hasher.len(), 50),
        range_trace: |checks: RangeChecker, _len: usize, rows: usize, _rand: usize| {
            (vec![vec![felt(checks.u32_checks.len() as u64); rows]; 2], ())
        },
        chiplets_trace: |chiplets: RequestLog, rows: usize, _rand: usize| {
            (vec![vec![felt(chiplets.memory.len() as u64); rows]; 20], ())
        },
    };
    let trace = build_trace(
        (),
        context,
        word(900),
        Kernel { proc_hashes: Vec::new() },
        &ArithmeticOps,
        tables,
    );
    let summary = trace.trace_len_summary;
    (
        trace.main_trace.columns,
        trace.main_trace.last_program_row,
        [summary.main_trace_len, summary.range_trace_len, summary.chiplets_trace_len],
    )
}

#[test]
fn every_fragment_size_gives_the_same_main_trace() {
    let expected = main_trace(1000);
    assert_eq!(expected.0.len(), 80);
    for size in 1..60 {
        assert_eq!(main_trace(size), expected, "fragment size {size}");
    }
}

#[test]
fn the_clock_column_counts_the_rows() {
    for size in [1, 7, 1000] {
        let (context, _) = Machine::new(forest(), &TOP, size).run(id(8));
        let (columns, total) = core_trace(context, 128);
        assert!(total < 128);
        for (row, cell) in columns[CLK_COL_IDX].iter().enumerate() {
            assert_eq!(cell.as_int(), row as u64, "fragment size {size}");
        }
    }
}
