//! The steps of [`crate::parallel::execution`], carried out.

use crate::block_stack::BasicBlockContext;
use crate::block_stack::ExecutionContextInfo;
use crate::context::ContextId;
use crate::felt::felt;
use crate::felt::lemma_felt_small;
use crate::felt::Felt;
use crate::layout::FMP_MIN;
use crate::layout::OPCODE_EMIT;
use crate::layout::SYSCALL_FMP_MIN;
use crate::mast::BasicBlockNode;
use crate::mast::CallNode;
use crate::mast::DynNode;
use crate::mast::JoinNode;
use crate::mast::LoopNode;
use crate::mast::MastForest;
use crate::mast::MastNode;
use crate::mast::MastNodeId;
use crate::mast::OpBatch;
use crate::mast::SplitNode;
use crate::parallel::execution::batches_executed;
use crate::parallel::execution::block_executed;
use crate::parallel::execution::block_finished;
use crate::parallel::execution::dyn_callee;
use crate::parallel::execution::dyn_ended;
use crate::parallel::execution::lemma_loop_unfold;
use crate::parallel::execution::loop_executed;
use crate::parallel::execution::node_executed;
use crate::parallel::execution::ops_executed;
use crate::parallel::execution::SyncOps;
use crate::parallel::generator::CoreTraceFragmentGenerator;
use crate::parallel::model::call_context_started;
use crate::parallel::model::context_ended;
use crate::parallel::model::context_restored;
use crate::parallel::model::decremented;
use crate::parallel::model::digest_of;
use crate::parallel::model::dyncall_context_started;
use crate::parallel::model::left_context;
use crate::parallel::model::lemma_row_fits;
use crate::parallel::trace_builder::came_to;
use crate::processor::StackInterface;
use crate::trace_state::lemma_stack_top_len;
use crate::trace_state::ExecutionContextSystemInfo;
use crate::trace_state::ReplayModel;
use crate::trace_state::SystemState;
use crate::tracer::NoopTracer;
use crate::word::Word;
use core::ops::ControlFlow;
use vstd::prelude::*;

verus! {

impl CoreTraceFragmentGenerator {
    /// Executes the operations of a batch, from the given one on, or from the first.
    pub fn execute_op_batch<E: SyncOps>(
        &mut self,
        batch: &OpBatch,
        start_op_idx: Option<usize>,
        current_forest: &MastForest,
        ops: &E,
    ) -> (r: ControlFlow<()>)
        requires
            old(self)@.well_formed(),
            ops_executed(
                *ops,
                old(self)@,
                batch@,
                match start_op_idx {
                    Some(i) => i as int,
                    None => 0,
                },
                *current_forest,
            ) !is Panic,
        ensures
            came_to(
                ops_executed(
                    *ops,
                    old(self)@,
                    batch@,
                    match start_op_idx {
                        Some(i) => i as int,
                        None => 0,
                    },
                    *current_forest,
                ),
                r,
                final(self)@,
            ),
            final(self)@.well_formed(),
    {
        let start: usize = match start_op_idx {
            Some(i) => i,
            None => 0,
        };
        let ghost whole = ops_executed(*ops, self@, batch@, start as int, *current_forest);
        let mut op_idx_in_batch: usize = start;
        while op_idx_in_batch < batch.ops().len()
            invariant
                self@.well_formed(),
                whole !is Panic,
                start == (match start_op_idx {
                    Some(i) => i,
                    None => 0,
                }),
                whole == ops_executed(*ops, old(self)@, batch@, start as int, *current_forest),
                whole == ops_executed(
                    *ops,
                    self@,
                    batch@,
                    op_idx_in_batch as int,
                    *current_forest,
                ),
            decreases batch@.ops.len() - op_idx_in_batch,
        {
            let op = batch.ops()[op_idx_in_batch];
            let (op_group_idx, op_idx_in_group) = batch.op_idx_in_batch_to_group(
                op_idx_in_batch,
            ).unwrap();

            let ghost before = self@;
            let user_op_helpers = if op.op_code == OPCODE_EMIT {
                None
            } else {
                proof {
                    ops.lemma_frame(before, op, *current_forest);
                }
                ops.execute_sync_op(self, &op, current_forest).unwrap()
            };

            match self.add_operation_trace_row(op, op_idx_in_group, user_op_helpers) {
                ControlFlow::Continue(()) => {},
                ControlFlow::Break(()) => {
                    return ControlFlow::Break(());
                },
            }

            // once all operations of a group have been executed, decode the next group
            if op_idx_in_batch + 1 == batch.end_index(op_group_idx) {
                if let Some(next_op_group_idx) = batch.next_op_group_index(op_group_idx) {
                    self.start_op_group(batch.groups()[next_op_group_idx]);
                }
            }
            op_idx_in_batch = op_idx_in_batch + 1;
        }
        ControlFlow::Continue(())
    }

    /// Starts and executes the batches of a basic block, from the given one on, and ends the
    /// block.
    pub(crate) fn finish_basic_block<E: SyncOps>(
        &mut self,
        node: &BasicBlockNode,
        from: usize,
        current_forest: &MastForest,
        ops: &E,
    ) -> (r: ControlFlow<()>)
        requires
            old(self)@.well_formed(),
            block_finished(*ops, old(self)@, *node, from as int, *current_forest) !is Panic,
        ensures
            came_to(
                block_finished(*ops, old(self)@, *node, from as int, *current_forest),
                r,
                final(self)@,
            ),
            final(self)@.well_formed(),
    {
        let op_batches = node.op_batches();
        let ghost whole = batches_executed(
            *ops,
            self@,
            op_batches@,
            from as int,
            *current_forest,
        );
        let mut i: usize = from;
        while i < op_batches.len()
            invariant
                self@.well_formed(),
                whole !is Panic,
                whole == batches_executed(*ops, self@, op_batches@, i as int, *current_forest),
                whole is Break ==> block_finished(
                    *ops,
                    old(self)@,
                    *node,
                    from as int,
                    *current_forest,
                ) == whole,
            decreases op_batches@.len() - i,
        {
            let op_batch = &op_batches[i];
            match self.respan(op_batch) {
                ControlFlow::Continue(()) => {},
                ControlFlow::Break(()) => {
                    return ControlFlow::Break(());
                },
            }
            match self.execute_op_batch(op_batch, None, current_forest, ops) {
                ControlFlow::Continue(()) => {},
                ControlFlow::Break(()) => {
                    return ControlFlow::Break(());
                },
            }
            i = i + 1;
        }
        self.add_span_end_trace_row(node)
    }

    /// Executes a basic block.
    fn execute_basic_block<E: SyncOps>(
        &mut self,
        node: &BasicBlockNode,
        current_forest: &MastForest,
        ops: &E,
    ) -> (r: ControlFlow<()>)
        requires
            old(self)@.well_formed(),
            block_executed(*ops, old(self)@, *node, *current_forest) !is Panic,
        ensures
            came_to(
                block_executed(*ops, old(self)@, *node, *current_forest),
                r,
                final(self)@,
            ),
            final(self)@.well_formed(),
    {
        broadcast use lemma_felt_small;

        self.update_decoder_state_on_node_start();

        let num_groups_left_in_block = Felt::new(node.num_op_groups() % 0x1_0000_0000);
        let first_op_batch = &node.op_batches()[0];
        match self.add_span_start_trace_row(first_op_batch, num_groups_left_in_block) {
            ControlFlow::Continue(()) => {},
            ControlFlow::Break(()) => {
                return ControlFlow::Break(());
            },
        }

        // the start of the block uses up its first group
        self.span_context = Some(
            BasicBlockContext {
                group_ops_left: first_op_batch.groups()[0],
                num_groups_left: num_groups_left_in_block.sub(Felt::one()),
            },
        );
        match self.execute_op_batch(first_op_batch, None, current_forest, ops) {
            ControlFlow::Continue(()) => {},
            ControlFlow::Break(()) => {
                return ControlFlow::Break(());
            },
        }
        self.finish_basic_block(node, 1, current_forest, ops)
    }

    /// Returns to the given context, and to the next recorded state of the overflow table.
    fn restore_context_from_replay(&mut self, ctx_info: &ExecutionContextSystemInfo)
        requires
            old(self)@.context.replay.stack_overflow.restore_context_info.len() > 0,
        ensures
            ({
                let replay = old(self)@.context.replay;
                let (stack, stack_overflow) = old(self)@.context.stack.context_restored(
                    replay.stack_overflow,
                );
                final(self)@ == old(self)@.with_system(
                    SystemState {
                        ctx: ctx_info.parent_ctx,
                        fmp: ctx_info.parent_fmp,
                        fn_hash: ctx_info.parent_fn_hash,
                        in_syscall: false,
                        ..old(self)@.context.system
                    },
                ).with_stack(stack).with_replay(
                    ReplayModel { stack_overflow, ..replay },
                )
            }),
    {
        self.context.state.system.ctx = ctx_info.parent_ctx;
        self.context.state.system.fmp = ctx_info.parent_fmp;
        self.context.state.system.fn_hash = ctx_info.parent_fn_hash;
        self.context.state.system.in_syscall = false;
        self.context.state.stack.restore_context(&mut self.context.replay.stack_overflow);
    }

    /// Returns to the next recorded context, and ends a node.
    pub(crate) fn end_context(&mut self, digest: Word) -> (r: ControlFlow<()>)
        requires
            old(self)@.well_formed(),
            context_ended(old(self)@, digest) !is Panic,
        ensures
            came_to(context_ended(old(self)@, digest), r, final(self)@),
            final(self)@.well_formed(),
    {
        let ctx_info = self.context.replay.block_stack.replay_execution_context();
        self.restore_context_from_replay(&ctx_info);
        assert(Some(self@) == context_restored(old(self)@));
        self.add_end_trace_row(digest)
    }

    /// Ends a dynamic node.
    pub(crate) fn end_dyn(&mut self, node: &DynNode) -> (r: ControlFlow<()>)
        requires
            old(self)@.well_formed(),
            dyn_ended(old(self)@, *node) !is Panic,
        ensures
            came_to(dyn_ended(old(self)@, *node), r, final(self)@),
            final(self)@.well_formed(),
    {
        if node.is_dyncall {
            self.end_context(node.digest)
        } else {
            self.add_end_trace_row(node.digest)
        }
    }

    /// Removes the topmost stack element and starts a new context; returns the number of elements
    /// on the stack and the overflow address of the context that is left.
    pub fn shift_stack_left_and_start_context(&mut self) -> (r: (usize, Felt))
        requires
            decremented(old(self)@) is Some,
        ensures
            ({
                let s = decremented(old(self)@).unwrap();
                &&& r == (s.context.stack.depth, s.context.stack.overflow_addr)
                &&& final(self)@ == s.with_stack(s.context.stack.context_started())
            }),
    {
        self.decrement_size(&mut NoopTracer);
        self.context.state.stack.start_context()
    }

    /// Repeats the body of a loop for as long as the condition is one; then ends the loop.
    pub(crate) fn execute_loop<E: SyncOps>(
        &mut self,
        loop_node: &LoopNode,
        current_forest: &MastForest,
        first_condition: Felt,
        ops: &E,
    ) -> (r: ControlFlow<()>)
        requires
            old(self)@.well_formed(),
            loop_executed(
                *ops,
                old(self)@,
                *loop_node,
                *current_forest,
                first_condition,
            ) !is Panic,
        ensures
            came_to(
                loop_executed(
                    *ops,
                    old(self)@,
                    *loop_node,
                    *current_forest,
                    first_condition,
                ),
                r,
                final(self)@,
            ),
            final(self)@.well_formed(),
        decreases old(self)@.rows_left(), old(self)@.resolutions_left(), 0int,
    {
        broadcast use lemma_stack_top_len;

        let ghost start = self@;
        let ghost whole = loop_executed(*ops, start, *loop_node, *current_forest, first_condition);
        let mut condition = first_condition;
        while condition == Felt::one()
            invariant
                self@.well_formed(),
                self@.rows_left() <= start.rows_left(),
                self@.rows_left() < start.rows_left() || self@ == start,
                start == old(self)@,
                whole !is Panic,
                whole == loop_executed(
                    *ops,
                    start,
                    *loop_node,
                    *current_forest,
                    first_condition,
                ),
                whole == loop_executed(*ops, self@, *loop_node, *current_forest, condition),
            decreases self@.rows_left(),
        {
            proof {
                lemma_loop_unfold(*ops, self@, *loop_node, *current_forest, condition);
            }
            match self.add_loop_repeat_trace_row(loop_node, current_forest) {
                ControlFlow::Continue(()) => {},
                ControlFlow::Break(()) => {
                    return ControlFlow::Break(());
                },
            }
            match self.execute_mast_node(loop_node.body, current_forest, ops) {
                ControlFlow::Continue(()) => {},
                ControlFlow::Break(()) => {
                    return ControlFlow::Break(());
                },
            }
            condition = self.get(0);
            self.decrement_size(&mut NoopTracer);
        }
        proof {
            lemma_loop_unfold(*ops, self@, *loop_node, *current_forest, condition);
        }
        self.add_end_trace_row(loop_node.digest)
    }

    /// Starts the context of a call or a syscall.
    fn start_call_context(&mut self, node: &CallNode, current_forest: &MastForest)
        requires
            digest_of(*current_forest, node.callee) is Some,
            old(self)@.context.system.clk < u32::MAX,
        ensures
            final(self)@ == call_context_started(
                old(self)@,
                *node,
                digest_of(*current_forest, node.callee).unwrap(),
            ),
    {
        broadcast use lemma_stack_top_len;

        self.context.state.stack.start_context();
        if node.is_syscall {
            self.context.state.system.ctx = ContextId::root();
            self.context.state.system.fmp = Felt::new(SYSCALL_FMP_MIN);
            self.context.state.system.in_syscall = true;
        } else {
            let callee = current_forest.get_node_by_id(node.callee).unwrap();
            self.context.state.system.ctx = ContextId { id: self.context.state.system.clk + 1 };
            self.context.state.system.fmp = Felt::new(FMP_MIN);
            self.context.state.system.fn_hash = callee.digest();
        }
    }

    /// Takes the address of the callee off the stack and starts the context of a dynamic call;
    /// returns the context that is left.
    fn start_dyncall_context(&mut self, callee_hash: Word) -> (r: ExecutionContextInfo)
        requires
            decremented(old(self)@) is Some,
            old(self)@.context.system.clk < u32::MAX,
        ensures
            ({
                let s = decremented(old(self)@).unwrap();
                &&& r == left_context(s)
                &&& final(self)@ == dyncall_context_started(s, callee_hash)
            }),
    {
        broadcast use lemma_stack_top_len;

        let (stack_depth, next_overflow_addr) = self.shift_stack_left_and_start_context();
        let depth: u32 = (stack_depth as u64 % 0x1_0000_0000) as u32;
        let ctx_info = ExecutionContextInfo::new(
            self.context.state.system.ctx,
            self.context.state.system.fn_hash,
            self.context.state.system.fmp,
            depth,
            next_overflow_addr,
        );
        self.context.state.system.ctx = ContextId { id: self.context.state.system.clk + 1 };
        self.context.state.system.fmp = Felt::new(FMP_MIN);
        self.context.state.system.fn_hash = callee_hash;
        ctx_info
    }

    /// Executes a join: its first child, then its second.
    fn execute_join<E: SyncOps>(
        &mut self,
        node_id: MastNodeId,
        node: &JoinNode,
        current_forest: &MastForest,
        ops: &E,
    ) -> (r: ControlFlow<()>)
        requires
            old(self)@.well_formed(),
            current_forest.has(node_id),
            current_forest.node(node_id) == MastNode::Join(*node),
            node_executed(*ops, old(self)@, node_id, *current_forest) !is Panic,
        ensures
            came_to(
                node_executed(*ops, old(self)@, node_id, *current_forest),
                r,
                final(self)@,
            ),
            final(self)@.well_formed(),
        decreases old(self)@.rows_left(), old(self)@.resolutions_left(), 0int,
    {
        broadcast use lemma_stack_top_len;

        proof {
            reveal(node_executed);
        }
        self.update_decoder_state_on_node_start();
        match self.add_join_start_trace_row(node, current_forest) {
            ControlFlow::Continue(()) => {},
            ControlFlow::Break(()) => {
                return ControlFlow::Break(());
            },
        }
        match self.execute_mast_node(node.first, current_forest, ops) {
            ControlFlow::Continue(()) => {},
            ControlFlow::Break(()) => {
                return ControlFlow::Break(());
            },
        }
        match self.execute_mast_node(node.second, current_forest, ops) {
            ControlFlow::Continue(()) => {},
            ControlFlow::Break(()) => {
                return ControlFlow::Break(());
            },
        }
        self.add_end_trace_row(node.digest)
    }

    /// Executes a split: the child that the top of the stack chooses.
    fn execute_split<E: SyncOps>(
        &mut self,
        node_id: MastNodeId,
        node: &SplitNode,
        current_forest: &MastForest,
        ops: &E,
    ) -> (r: ControlFlow<()>)
        requires
            old(self)@.well_formed(),
            current_forest.has(node_id),
            current_forest.node(node_id) == MastNode::Split(*node),
            node_executed(*ops, old(self)@, node_id, *current_forest) !is Panic,
        ensures
            came_to(
                node_executed(*ops, old(self)@, node_id, *current_forest),
                r,
                final(self)@,
            ),
            final(self)@.well_formed(),
        decreases old(self)@.rows_left(), old(self)@.resolutions_left(), 0int,
    {
        broadcast use lemma_stack_top_len;

        proof {
            reveal(node_executed);
        }
        self.update_decoder_state_on_node_start();
        let condition = self.get(0);
        self.decrement_size(&mut NoopTracer);
        match self.add_split_start_trace_row(node, current_forest) {
            ControlFlow::Continue(()) => {},
            ControlFlow::Break(()) => {
                return ControlFlow::Break(());
            },
        }
        let branch = if condition == Felt::one() {
            node.on_true
        } else {
            node.on_false
        };
        match self.execute_mast_node(branch, current_forest, ops) {
            ControlFlow::Continue(()) => {},
            ControlFlow::Break(()) => {
                return ControlFlow::Break(());
            },
        }
        self.add_end_trace_row(node.digest)
    }

    /// Executes a loop: its body for as long as the top of the stack is one.
    fn execute_loop_node<E: SyncOps>(
        &mut self,
        node_id: MastNodeId,
        node: &LoopNode,
        current_forest: &MastForest,
        ops: &E,
    ) -> (r: ControlFlow<()>)
        requires
            old(self)@.well_formed(),
            current_forest.has(node_id),
            current_forest.node(node_id) == MastNode::Loop(*node),
            node_executed(*ops, old(self)@, node_id, *current_forest) !is Panic,
        ensures
            came_to(
                node_executed(*ops, old(self)@, node_id, *current_forest),
                r,
                final(self)@,
            ),
            final(self)@.well_formed(),
        decreases old(self)@.rows_left(), old(self)@.resolutions_left(), 0int,
    {
        broadcast use lemma_stack_top_len;

        proof {
            reveal(node_executed);
        }
        self.update_decoder_state_on_node_start();
        // the condition is taken off the stack by the operation that starts the loop
        let condition = self.get(0);
        self.decrement_size(&mut NoopTracer);
        match self.add_loop_start_trace_row(node, current_forest) {
            ControlFlow::Continue(()) => {},
            ControlFlow::Break(()) => {
                return ControlFlow::Break(());
            },
        }
        // the first iteration has no row of its own before the body
        if condition == Felt::one() {
            match self.execute_mast_node(node.body, current_forest, ops) {
                ControlFlow::Continue(()) => {},
                ControlFlow::Break(()) => {
                    return ControlFlow::Break(());
                },
            }
            let next_condition = self.get(0);
            self.decrement_size(&mut NoopTracer);
            self.execute_loop(node, current_forest, next_condition, ops)
        } else {
            self.add_end_trace_row(node.digest)
        }
    }

    /// Executes a call or a syscall: the callee, in a context of its own.
    fn execute_call<E: SyncOps>(
        &mut self,
        node_id: MastNodeId,
        node: &CallNode,
        current_forest: &MastForest,
        ops: &E,
    ) -> (r: ControlFlow<()>)
        requires
            old(self)@.well_formed(),
            current_forest.has(node_id),
            current_forest.node(node_id) == MastNode::Call(*node),
            node_executed(*ops, old(self)@, node_id, *current_forest) !is Panic,
        ensures
            came_to(
                node_executed(*ops, old(self)@, node_id, *current_forest),
                r,
                final(self)@,
            ),
            final(self)@.well_formed(),
        decreases old(self)@.rows_left(), old(self)@.resolutions_left(), 0int,
    {
        broadcast use lemma_stack_top_len;
        broadcast use lemma_row_fits;

        proof {
            reveal(node_executed);
        }
        self.update_decoder_state_on_node_start();
        self.start_call_context(node, current_forest);
        match self.add_call_start_trace_row(node, current_forest) {
            ControlFlow::Continue(()) => {},
            ControlFlow::Break(()) => {
                return ControlFlow::Break(());
            },
        }
        match self.execute_mast_node(node.callee, current_forest, ops) {
            ControlFlow::Continue(()) => {},
            ControlFlow::Break(()) => {
                return ControlFlow::Break(());
            },
        }
        self.end_context(node.digest)
    }

    /// Executes a dynamic node: the procedure whose digest lies at the address on top of the stack.
    fn execute_dyn<E: SyncOps>(
        &mut self,
        node_id: MastNodeId,
        node: &DynNode,
        current_forest: &MastForest,
        ops: &E,
    ) -> (r: ControlFlow<()>)
        requires
            old(self)@.well_formed(),
            current_forest.has(node_id),
            current_forest.node(node_id) == MastNode::Dyn(*node),
            node_executed(*ops, old(self)@, node_id, *current_forest) !is Panic,
        ensures
            came_to(
                node_executed(*ops, old(self)@, node_id, *current_forest),
                r,
                final(self)@,
            ),
            final(self)@.well_formed(),
        decreases old(self)@.rows_left(), old(self)@.resolutions_left(), 0int,
    {
        broadcast use lemma_stack_top_len;
        broadcast use lemma_row_fits;

        proof {
            reveal(node_executed);
        }
        let ghost callee = dyn_callee(self@);
        self.update_decoder_state_on_node_start();
        let mem_addr = self.context.state.stack.get(0);
        let callee_hash = self.context.replay.memory_reads.replay_read_word(mem_addr);
        assert(callee_hash == callee);
        let started = if node.is_dyncall {
            let ctx_info = self.start_dyncall_context(callee_hash);
            self.add_dyncall_start_trace_row(callee_hash, ctx_info)
        } else {
            self.decrement_size(&mut NoopTracer);
            self.add_dyn_start_trace_row(callee_hash)
        };
        match started {
            ControlFlow::Continue(()) => {},
            ControlFlow::Break(()) => {
                return ControlFlow::Break(());
            },
        }
        let executed = match current_forest.find_procedure_root(callee_hash) {
            Some(callee_id) => self.execute_mast_node(callee_id, current_forest, ops),
            None => {
                let (resolved_node_id, resolved_forest) =
                    self.context.replay.mast_forest_resolution.replay_resolution();
                self.execute_mast_node(resolved_node_id, &resolved_forest, ops)
            },
        };
        match executed {
            ControlFlow::Continue(()) => {},
            ControlFlow::Break(()) => {
                return ControlFlow::Break(());
            },
        }
        self.end_dyn(node)
    }

    /// Executes a node.
    pub fn execute_mast_node<E: SyncOps>(
        &mut self,
        node_id: MastNodeId,
        current_forest: &MastForest,
        ops: &E,
    ) -> (r: ControlFlow<()>)
        requires
            old(self)@.well_formed(),
            node_executed(*ops, old(self)@, node_id, *current_forest) !is Panic,
        ensures
            came_to(
                node_executed(*ops, old(self)@, node_id, *current_forest),
                r,
                final(self)@,
            ),
            final(self)@.well_formed(),
        decreases old(self)@.rows_left(), old(self)@.resolutions_left(), 1int,
    {
        proof {
            reveal(node_executed);
        }
        let mast_node = current_forest.get_node_by_id(node_id).unwrap();
        match mast_node {
            MastNode::Block(node) => self.execute_basic_block(node, current_forest, ops),
            MastNode::Join(node) => self.execute_join(node_id, node, current_forest, ops),
            MastNode::Split(node) => self.execute_split(node_id, node, current_forest, ops),
            MastNode::Loop(node) => self.execute_loop_node(node_id, node, current_forest, ops),
            MastNode::Call(node) => self.execute_call(node_id, node, current_forest, ops),
            MastNode::Dyn(node) => self.execute_dyn(node_id, node, current_forest, ops),
            MastNode::External(_) => {
                let (resolved_node_id, resolved_forest) =
                    self.context.replay.mast_forest_resolution.replay_resolution();
                self.execute_mast_node(resolved_node_id, &resolved_forest, ops)
            },
        }
    }
}

} // verus!
