//! Generation of a fragment that begins in the midst of a node.

use crate::block_stack::BasicBlockContext;
use crate::continuation::Continuation;
use crate::felt::felt;
use crate::felt::lemma_felt_small;
use crate::felt::Felt;
use crate::layout::OPCODE_PUSH;
use crate::layout::STACK_TRACE_WIDTH;
use crate::layout::SYS_TRACE_WIDTH;
use crate::mast::BasicBlockNode;
use crate::mast::LoopNode;
use crate::mast::MastForest;
use crate::mast::MastNode;
use crate::mast::OpBatch;
use crate::parallel::execution::block_respanned;
use crate::parallel::execution::block_resumed;
use crate::parallel::execution::continuation_executed;
use crate::parallel::execution::continuation_taken;
use crate::parallel::execution::continued;
use crate::parallel::execution::end_resumed;
use crate::parallel::execution::generated;
use crate::parallel::execution::groups_before;
use crate::parallel::execution::groups_from;
use crate::parallel::execution::loop_ended;
use crate::parallel::execution::loop_resumed;
use crate::parallel::execution::node_resumed;
use crate::parallel::execution::num_pushes;
use crate::parallel::execution::span_context_at;
use crate::parallel::execution::without_ops;
use crate::parallel::execution::SyncOps;
use crate::parallel::fragment::truncated;
use crate::parallel::fragment::CoreTraceFragment;
use crate::parallel::generator::CoreTraceFragmentGenerator;
use crate::parallel::model::Flow;
use crate::parallel::model::GeneratorModel;
use crate::parallel::trace_builder::came_to;
use crate::pow2::next_pow2;
use crate::pow2::next_power_of_two;
use crate::pow2::pow2_from;
use crate::processor::StackInterface;
use crate::trace_state::lemma_stack_top_len;
use crate::trace_state::NodeExecutionState;
use crate::tracer::NoopTracer;
use core::ops::ControlFlow;
use std::sync::Arc;
use vstd::prelude::*;

verus! {

/// A batch has eight groups at most, also when their number is rounded up to a power of two.
proof fn lemma_rounded_groups(n: int)
    requires
        1 <= n <= 8,
    ensures
        1 <= next_pow2(n) <= 8,
{
    reveal_with_fuel(pow2_from, 5);
}

/// How far the decoding of a block has come when one of its operations is about to be executed.
pub fn initialize_span_context(
    basic_block_node: &BasicBlockNode,
    batch_index: usize,
    op_idx_in_batch: usize,
) -> (r: BasicBlockContext)
    requires
        span_context_at(*basic_block_node, batch_index as int, op_idx_in_batch as int) is Some,
    ensures
        Some(r) == span_context_at(*basic_block_node, batch_index as int, op_idx_in_batch as int),
{
    let op_batches = basic_block_node.op_batches();
    let batch = &op_batches[batch_index];
    let (current_op_group_idx, op_idx_in_group) = batch.op_idx_in_batch_to_group(
        op_idx_in_batch,
    ).unwrap();

    // the groups of all batches before the current one
    let mut groups_consumed: u64 = 0;
    for i in 0..batch_index
        invariant
            batch_index < op_batches@.len() <= u32::MAX,
            groups_consumed == groups_before(op_batches@, i as int),
            groups_consumed <= 8 * i,
    {
        let num_groups: usize = op_batches[i].num_groups();
        proof {
            lemma_rounded_groups(num_groups as int);
        }
        groups_consumed = groups_consumed + next_power_of_two(num_groups) as u64;
    }

    // the operations that have been executed in the current group already; each of them that
    // carries an immediate value has used up a group of its own
    let group: u64 = batch.groups()[current_op_group_idx].as_int();
    let mut group_ops_left: u64 = group;
    let mut pushes: u64 = 0;
    for i in 0..op_idx_in_group
        invariant
            op_idx_in_group < 9,
            pushes <= i,
            without_ops(group as int, op_idx_in_group as int) == without_ops(
                group_ops_left as int,
                op_idx_in_group - i,
            ),
            num_pushes(group as int, op_idx_in_group as int) == pushes + num_pushes(
                group_ops_left as int,
                op_idx_in_group - i,
            ),
    {
        if group_ops_left % 0x80 == OPCODE_PUSH as u64 {
            pushes = pushes + 1;
        }
        group_ops_left = group_ops_left / 0x80;
    }

    let total_groups: u64 = basic_block_node.num_op_groups();
    groups_consumed = groups_consumed + pushes + current_op_group_idx as u64 + 1;
    BasicBlockContext {
        group_ops_left: Felt::new(group_ops_left),
        num_groups_left: Felt::new((total_groups - groups_consumed) % 0x1_0000_0000),
    }
}

/// The number of groups of the batches from one on.
fn num_groups_from(op_batches: &Vec<OpBatch>, batch_index: usize) -> (r: u64)
    requires
        batch_index <= op_batches@.len() <= u32::MAX,
    ensures
        r == groups_from(op_batches@, batch_index as int),
        r <= 8 * (op_batches@.len() - batch_index),
{
    let n = op_batches.len();
    let mut total: u64 = 0;
    let mut i: usize = n;
    while i > batch_index
        invariant
            batch_index <= i <= n,
            n == op_batches@.len() <= u32::MAX,
            total == groups_from(op_batches@, i as int),
            total <= 8 * (n - i),
        decreases i,
    {
        i = i - 1;
        total = op_batches[i].num_groups() as u64 + total;
    }
    total
}

/// The first rows of a fragment and the next rows of its stack and system columns, once the
/// generation has come to an end.
pub open spec fn fragment_of(s: GeneratorModel) -> (Seq<Seq<Felt>>, Seq<Felt>, Seq<Felt>) {
    (
        truncated(s.columns, s.rows_built()),
        match s.stack_rows {
            Some(row) => row,
            None => Seq::new(STACK_TRACE_WIDTH as nat, |i: int| felt(0)),
        },
        match s.system_rows {
            Some(row) => row,
            None => Seq::new(SYS_TRACE_WIDTH as nat, |i: int| felt(0)),
        },
    )
}

/// The state in which a generation comes to an end.
pub open spec fn final_state(flow: Flow) -> GeneratorModel
    recommends
        flow !is Panic,
{
    match flow {
        Flow::Continue(s) => s,
        Flow::Break(s) => s,
        Flow::Panic => arbitrary(),
    }
}

impl CoreTraceFragmentGenerator {
    /// Executes a loop from the end of its body on.
    fn resume_loop<E: SyncOps>(
        &mut self,
        loop_node: &LoopNode,
        current_forest: &MastForest,
        ops: &E,
    ) -> (r: ControlFlow<()>)
        requires
            old(self)@.well_formed(),
            loop_resumed(*ops, old(self)@, *loop_node, *current_forest) !is Panic,
        ensures
            came_to(
                loop_resumed(*ops, old(self)@, *loop_node, *current_forest),
                r,
                final(self)@,
            ),
            final(self)@.well_formed(),
    {
        broadcast use lemma_stack_top_len;

        let condition = self.get(0);
        self.decrement_size(&mut NoopTracer);
        self.execute_loop(loop_node, current_forest, condition, ops)
    }

    /// Ends a loop; if it was entered, takes its last condition off the stack.
    fn end_loop(&mut self, loop_node: &LoopNode) -> (r: ControlFlow<()>)
        requires
            old(self)@.well_formed(),
            loop_ended(old(self)@, *loop_node) !is Panic,
        ensures
            came_to(loop_ended(old(self)@, *loop_node), r, final(self)@),
            final(self)@.well_formed(),
    {
        broadcast use lemma_stack_top_len;
        broadcast use lemma_felt_small;

        let (ended_node_addr, flags) = self.update_decoder_state_on_node_end();
        if flags.loop_entered() == Felt::one() {
            self.decrement_size(&mut NoopTracer);
        }
        self.add_end_trace_row_impl(loop_node.digest, flags, ended_node_addr)
    }

    /// Ends a node, as the first thing that happens in a fragment.
    fn resume_end(&mut self, mast_node: &MastNode) -> (r: ControlFlow<()>)
        requires
            old(self)@.well_formed(),
            end_resumed(old(self)@, *mast_node) !is Panic,
        ensures
            came_to(end_resumed(old(self)@, *mast_node), r, final(self)@),
            final(self)@.well_formed(),
    {
        match mast_node {
            MastNode::Join(node) => self.add_end_trace_row(node.digest),
            MastNode::Split(node) => self.add_end_trace_row(node.digest),
            MastNode::Loop(node) => self.end_loop(node),
            MastNode::Call(node) => self.end_context(node.digest),
            MastNode::Dyn(node) => self.end_dyn(node),
            MastNode::Block(node) => self.add_span_end_trace_row(node),
            MastNode::External(_) => ControlFlow::Continue(()),
        }
    }

    /// Executes a basic block from one of its operations on.
    fn resume_basic_block<E: SyncOps>(
        &mut self,
        node: &BasicBlockNode,
        batch_index: usize,
        op_idx_in_batch: usize,
        current_forest: &MastForest,
        ops: &E,
    ) -> (r: ControlFlow<()>)
        requires
            old(self)@.well_formed(),
            block_resumed(
                *ops,
                old(self)@,
                *node,
                batch_index as int,
                op_idx_in_batch as int,
                *current_forest,
            ) !is Panic,
        ensures
            came_to(
                block_resumed(
                    *ops,
                    old(self)@,
                    *node,
                    batch_index as int,
                    op_idx_in_batch as int,
                    *current_forest,
                ),
                r,
                final(self)@,
            ),
            final(self)@.well_formed(),
    {
        self.span_context = Some(initialize_span_context(node, batch_index, op_idx_in_batch));
        let current_batch = &node.op_batches()[batch_index];
        match self.execute_op_batch(current_batch, Some(op_idx_in_batch), current_forest, ops) {
            ControlFlow::Continue(()) => {},
            ControlFlow::Break(()) => {
                return ControlFlow::Break(());
            },
        }
        self.finish_basic_block(node, batch_index + 1, current_forest, ops)
    }

    /// Executes a basic block from the start of one of its batches on.
    fn resume_respan<E: SyncOps>(
        &mut self,
        node: &BasicBlockNode,
        batch_index: usize,
        current_forest: &MastForest,
        ops: &E,
    ) -> (r: ControlFlow<()>)
        requires
            old(self)@.well_formed(),
            block_respanned(
                *ops,
                old(self)@,
                *node,
                batch_index as int,
                *current_forest,
            ) !is Panic,
        ensures
            came_to(
                block_respanned(*ops, old(self)@, *node, batch_index as int, *current_forest),
                r,
                final(self)@,
            ),
            final(self)@.well_formed(),
    {
        let op_batches = node.op_batches();
        self.span_context = Some(
            BasicBlockContext {
                group_ops_left: op_batches[batch_index].groups()[0],
                num_groups_left: Felt::new(num_groups_from(op_batches, batch_index)),
            },
        );
        self.finish_basic_block(node, batch_index, current_forest, ops)
    }

    /// Finishes the node in the midst of which the fragment begins.
    fn resume_node<E: SyncOps>(
        &mut self,
        execution_state: NodeExecutionState,
        current_forest: &MastForest,
        ops: &E,
    ) -> (r: ControlFlow<()>)
        requires
            old(self)@.well_formed(),
            node_resumed(*ops, old(self)@, execution_state, *current_forest) !is Panic,
        ensures
            came_to(
                node_resumed(*ops, old(self)@, execution_state, *current_forest),
                r,
                final(self)@,
            ),
            final(self)@.well_formed(),
    {
        match execution_state {
            NodeExecutionState::BasicBlock { node_id, batch_index, op_idx_in_batch } => {
                match current_forest.get_node_by_id(node_id).unwrap() {
                    MastNode::Block(node) => self.resume_basic_block(
                        node,
                        batch_index,
                        op_idx_in_batch,
                        current_forest,
                        ops,
                    ),
                    _ => ControlFlow::Continue(()),
                }
            },
            NodeExecutionState::Start(node_id) => {
                self.execute_mast_node(node_id, current_forest, ops)
            },
            NodeExecutionState::Respan { node_id, batch_index } => {
                match current_forest.get_node_by_id(node_id).unwrap() {
                    MastNode::Block(node) => self.resume_respan(
                        node,
                        batch_index,
                        current_forest,
                        ops,
                    ),
                    _ => ControlFlow::Continue(()),
                }
            },
            NodeExecutionState::LoopRepeat(node_id) => {
                match current_forest.get_node_by_id(node_id).unwrap() {
                    MastNode::Loop(node) => self.resume_loop(node, current_forest, ops),
                    _ => ControlFlow::Continue(()),
                }
            },
            NodeExecutionState::End(node_id) => {
                self.resume_end(current_forest.get_node_by_id(node_id).unwrap())
            },
        }
    }

    /// Executes a remaining step.
    fn execute_continuation<E: SyncOps>(
        &mut self,
        continuation: &Continuation,
        current_forest: &MastForest,
        ops: &E,
    ) -> (r: ControlFlow<()>)
        requires
            old(self)@.well_formed(),
            continuation_executed(*ops, old(self)@, *continuation, *current_forest) !is Panic,
        ensures
            came_to(
                continuation_executed(*ops, old(self)@, *continuation, *current_forest),
                r,
                final(self)@,
            ),
            final(self)@.well_formed(),
    {
        match continuation {
            Continuation::StartNode(node_id) => {
                self.execute_mast_node(*node_id, current_forest, ops)
            },
            Continuation::FinishJoin(node_id) => {
                let mast_node = current_forest.get_node_by_id(*node_id).unwrap();
                self.add_end_trace_row(mast_node.digest())
            },
            Continuation::FinishSplit(node_id) => {
                let mast_node = current_forest.get_node_by_id(*node_id).unwrap();
                self.add_end_trace_row(mast_node.digest())
            },
            Continuation::FinishLoop(node_id) => {
                match current_forest.get_node_by_id(*node_id).unwrap() {
                    MastNode::Loop(node) => self.resume_loop(node, current_forest, ops),
                    _ => ControlFlow::Continue(()),
                }
            },
            Continuation::FinishCall(node_id) => {
                let mast_node = current_forest.get_node_by_id(*node_id).unwrap();
                self.end_context(mast_node.digest())
            },
            Continuation::FinishDyn(node_id) => {
                match current_forest.get_node_by_id(*node_id).unwrap() {
                    MastNode::Dyn(node) => self.end_dyn(node),
                    _ => ControlFlow::Continue(()),
                }
            },
            Continuation::EnterForest(_) => ControlFlow::Continue(()),
        }
    }

    /// Finishes the node in the midst of which the fragment begins, and then executes what
    /// remains, until the fragment is full or nothing remains.
    pub fn execute_fragment_generation<E: SyncOps>(
        &mut self,
        execution_state: NodeExecutionState,
        ops: &E,
    ) -> (r: ControlFlow<()>)
        requires
            old(self)@.well_formed(),
            generated(*ops, old(self)@, execution_state) !is Panic,
        ensures
            came_to(generated(*ops, old(self)@, execution_state), r, final(self)@),
            final(self)@.well_formed(),
    {
        let initial_mast_forest = self.context.initial_mast_forest.clone();
        match self.resume_node(execution_state, &initial_mast_forest, ops) {
            ControlFlow::Continue(()) => {},
            ControlFlow::Break(()) => {
                return ControlFlow::Break(());
            },
        }

        let ghost whole = generated(*ops, old(self)@, execution_state);
        let mut current_forest: Arc<MastForest> = initial_mast_forest;
        loop
            invariant
                self@.well_formed(),
                whole !is Panic,
                whole == generated(*ops, old(self)@, execution_state),
                whole == continued(*ops, self@, current_forest),
            decreases self@.context.continuation.len(),
        {
            let ghost before = self@;
            match self.context.continuation.pop_continuation() {
                None => {
                    return ControlFlow::Continue(());
                },
                Some(continuation) => {
                    assert(self@ == continuation_taken(before));
                    match self.execute_continuation(&continuation, &current_forest, ops) {
                        ControlFlow::Continue(()) => {},
                        ControlFlow::Break(()) => {
                            return ControlFlow::Break(());
                        },
                    }
                    if let Continuation::EnterForest(previous_forest) = continuation {
                        current_forest = previous_forest;
                    }
                },
            }
        }
    }

    /// The fragment, cut down to the rows that have been built.
    fn finalize_fragment(self) -> (r: CoreTraceFragment)
        requires
            self@.well_formed(),
        ensures
            r@ == truncated(self@.columns, self@.rows_built()),
            r.has_rows(self@.rows_built()),
    {
        let num_rows = self.num_rows_built();
        let mut fragment = self.fragment;
        fragment.truncate(num_rows);
        fragment
    }

    /// Generates the fragment. The result is the fragment, and the rows of the stack and of the
    /// system columns that follow it.
    pub fn generate_fragment<E: SyncOps>(self, ops: &E) -> (r: (
        CoreTraceFragment,
        [Felt; 19],
        [Felt; 8],
    ))
        requires
            self@.well_formed(),
            generated(*ops, self@, self@.context.initial_execution_state) !is Panic,
        ensures
            (r.0@, r.1@, r.2@) == fragment_of(
                final_state(generated(*ops, self@, self@.context.initial_execution_state)),
            ),
            r.0.has_rows(r.0@[0].len() as int),
    {
        let mut generator = self;
        let execution_state = generator.context.initial_execution_state;
        let _ = generator.execute_fragment_generation(execution_state, ops);
        let final_stack_rows: [Felt; 19] = match generator.stack_rows {
            Some(row) => row,
            None => [Felt::zero();19],
        };
        let final_system_rows: [Felt; 8] = match generator.system_rows {
            Some(row) => row,
            None => [Felt::zero();8],
        };
        proof {
            let s = final_state(generated(*ops, self@, self@.context.initial_execution_state));
            assert(final_stack_rows@ =~= fragment_of(s).1);
            assert(final_system_rows@ =~= fragment_of(s).2);
        }
        let fragment = generator.finalize_fragment();
        (fragment, final_stack_rows, final_system_rows)
    }
}

} // verus!
