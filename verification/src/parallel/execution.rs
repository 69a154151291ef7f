//! Execution of a program by the generator of a fragment.

use crate::block_stack::BasicBlockContext;
use crate::continuation::Continuation;
use crate::errors::ExecutionError;
use crate::felt::felt;
use crate::felt::Felt;
use crate::layout::OPCODE_EMIT;
use crate::layout::OPCODE_PUSH;
use crate::mast::BasicBlockNode;
use crate::mast::CallNode;
use crate::mast::DynNode;
use crate::mast::JoinNode;
use crate::mast::LoopNode;
use crate::mast::MastForest;
use crate::mast::MastNode;
use crate::mast::MastNodeId;
use crate::mast::OpBatch;
use crate::mast::OpBatchModel;
use crate::mast::Operation;
use crate::mast::SplitNode;
use crate::parallel::generator::row_view;
use crate::parallel::generator::CoreTraceFragmentGenerator;
use crate::parallel::model::call_context_started;
use crate::parallel::model::call_row;
use crate::parallel::model::callee_read;
use crate::parallel::model::condition_taken;
use crate::parallel::model::context_ended;
use crate::parallel::model::decremented;
use crate::parallel::model::digest_of;
use crate::parallel::model::dyn_row;
use crate::parallel::model::dyncall_context_started;
use crate::parallel::model::dyncall_row;
use crate::parallel::model::end_added;
use crate::parallel::model::end_row;
use crate::parallel::model::group_started;
use crate::parallel::model::join_row;
use crate::parallel::model::left_context;
use crate::parallel::model::loop_row;
use crate::parallel::model::node_ended;
use crate::parallel::model::node_started;
use crate::parallel::model::operation_row;
use crate::parallel::model::repeat_row;
use crate::parallel::model::respanned;
use crate::parallel::model::span_end_added;
use crate::parallel::model::span_row;
use crate::parallel::model::split_row;
use crate::parallel::model::Flow;
use crate::parallel::model::GeneratorModel;
use crate::pow2::next_pow2;
use crate::trace_state::ContextModel;
use crate::trace_state::NodeExecutionState;
use crate::trace_state::ReplayModel;
use crate::trace_state::SystemState;
use crate::word::Word;
use std::sync::Arc;
use vstd::prelude::*;

verus! {

// OPERATIONS

/// What the execution of an operation leads to.
pub enum OpOutcome {
    /// The state after the operation, and its helper registers, if it has any.
    Done(GeneratorModel, Option<Seq<Felt>>),
    /// The operation reports an error.
    Failed,
    /// The recordings do not fit the operation.
    Panics,
}

/// Whether two states differ only in what an operation may change: the stack, the free memory
/// pointer, and what is left of the recordings of the overflow table, the memory, the advice
/// provider and the hasher.
pub open spec fn same_frame(s: GeneratorModel, t: GeneratorModel) -> bool {
    &&& t == (GeneratorModel {
        context: ContextModel {
            system: SystemState { fmp: t.context.system.fmp, ..s.context.system },
            stack: t.context.stack,
            replay: ReplayModel {
                stack_overflow: t.context.replay.stack_overflow,
                memory_reads: t.context.replay.memory_reads,
                advice: t.context.replay.advice,
                hasher: t.context.replay.hasher,
                ..s.context.replay
            },
            ..s.context
        },
        ..s
    })
    &&& t.context.stack.top.len() == s.context.stack.top.len()
}

/// Whether two states agree in everything but the fragment, where it begins, and what remains
/// after the current node.
pub open spec fn same_machine(s: GeneratorModel, t: GeneratorModel) -> bool {
    t == (GeneratorModel {
        fragment_start_clk: t.fragment_start_clk,
        columns: t.columns,
        fragment_size: t.fragment_size,
        system_rows: t.system_rows,
        stack_rows: t.stack_rows,
        context: ContextModel {
            continuation: t.context.continuation,
            initial_mast_forest: t.context.initial_mast_forest,
            initial_execution_state: t.context.initial_execution_state,
            ..s.context
        },
        ..s
    })
}

/// Whether two outcomes agree in everything but the fragment, where it begins, and what remains
/// after the current node.
pub open spec fn same_outcome(a: OpOutcome, b: OpOutcome) -> bool {
    match (a, b) {
        (OpOutcome::Done(s, g), OpOutcome::Done(t, h)) => same_machine(s, t) && g == h,
        (OpOutcome::Failed, OpOutcome::Failed) => true,
        (OpOutcome::Panics, OpOutcome::Panics) => true,
        _ => false,
    }
}

/// Executes the operations of basic blocks, all but EMIT, which has no effect on the trace.
pub trait SyncOps: Sized {
    /// What the execution of an operation leads to.
    spec fn outcome(&self, s: GeneratorModel, op: Operation, forest: MastForest) -> OpOutcome;

    /// An operation changes only what operations may change, and fills six helper registers if
    /// any.
    proof fn lemma_frame(&self, s: GeneratorModel, op: Operation, forest: MastForest)
        requires
            s.well_formed(),
        ensures
            self.outcome(s, op, forest) matches OpOutcome::Done(t, helpers) ==> {
                &&& same_frame(s, t)
                &&& helpers matches Some(h) ==> h.len() == 6
            },
    ;

    /// An operation depends neither on the fragment, nor on where it begins, nor on what remains
    /// after the current node.
    proof fn lemma_same(
        &self,
        s: GeneratorModel,
        t: GeneratorModel,
        op: Operation,
        forest: MastForest,
    )
        requires
            s.well_formed(),
            t.well_formed(),
            same_machine(s, t),
        ensures
            same_outcome(self.outcome(s, op, forest), self.outcome(t, op, forest)),
    ;

    /// An operation depends only on the recorded answers that it uses, not on those behind them.
    proof fn lemma_later(
        &self,
        s: GeneratorModel,
        op: Operation,
        forest: MastForest,
        later: ReplayModel,
    )
        requires
            s.well_formed(),
        ensures
            self.outcome(s, op, forest) matches OpOutcome::Done(t, helpers) ==> self.outcome(
                s.with_later(later),
                op,
                forest,
            ) == OpOutcome::Done(t.with_later(later), helpers),
    ;

    /// Executes an operation.
    fn execute_sync_op(
        &self,
        processor: &mut CoreTraceFragmentGenerator,
        op: &Operation,
        current_forest: &MastForest,
    ) -> (r: Result<Option<[Felt; 6]>, ExecutionError>)
        requires
            old(processor)@.well_formed(),
            self.outcome(old(processor)@, *op, *current_forest) !is Panics,
        ensures
            match self.outcome(old(processor)@, *op, *current_forest) {
                OpOutcome::Done(t, helpers) => {
                    &&& r matches Ok(h) && row_view(h) == helpers
                    &&& final(processor)@ == t
                },
                OpOutcome::Failed => r is Err,
                OpOutcome::Panics => true,
            },
    ;
}

/// An operation is executed, or left out if it is EMIT.
pub open spec fn op_executed<E: SyncOps>(
    ops: E,
    s: GeneratorModel,
    op: Operation,
    forest: MastForest,
) -> OpOutcome {
    if op.op_code == OPCODE_EMIT {
        OpOutcome::Done(s, None)
    } else {
        ops.outcome(s, op, forest)
    }
}

/// After the last operation of a group, the decoding of the next group of operations starts, if
/// the batch has one.
pub open spec fn group_advanced(s: GeneratorModel, batch: OpBatchModel, op_idx: int) -> Flow {
    let group = batch.group_of(op_idx);
    if op_idx + 1 == batch.indptr[group + 1] {
        match batch.op_group_from(group + 1) {
            Some(next) => group_started(s, batch.groups[next]),
            None => Flow::Continue(s),
        }
    } else {
        Flow::Continue(s)
    }
}

/// The operations of a batch are executed, from one on.
pub open spec fn ops_executed<E: SyncOps>(
    ops: E,
    s: GeneratorModel,
    batch: OpBatchModel,
    op_idx: int,
    forest: MastForest,
) -> Flow
    decreases batch.ops.len() - op_idx,
{
    if op_idx >= batch.ops.len() {
        Flow::Continue(s)
    } else {
        let op = batch.ops[op_idx];
        match op_executed(ops, s, op, forest) {
            OpOutcome::Done(s1, helpers) => match operation_row(
                s1,
                op,
                batch.idx_in_group(op_idx),
                helpers,
            ) {
                Flow::Continue(s2) => match group_advanced(s2, batch, op_idx) {
                    Flow::Continue(s3) => ops_executed(ops, s3, batch, op_idx + 1, forest),
                    f => f,
                },
                f => f,
            },
            _ => Flow::Panic,
        }
    }
}

/// The batches of a basic block are started and executed, from one on.
pub open spec fn batches_executed<E: SyncOps>(
    ops: E,
    s: GeneratorModel,
    batches: Seq<OpBatch>,
    i: int,
    forest: MastForest,
) -> Flow
    decreases batches.len() - i,
{
    if i >= batches.len() {
        Flow::Continue(s)
    } else {
        match respanned(s, batches[i]@) {
            Flow::Continue(s1) => match ops_executed(ops, s1, batches[i]@, 0, forest) {
                Flow::Continue(s2) => batches_executed(ops, s2, batches, i + 1, forest),
                f => f,
            },
            f => f,
        }
    }
}

/// The batches of a basic block are executed, from one on, and the block ends.
pub open spec fn block_finished<E: SyncOps>(
    ops: E,
    s: GeneratorModel,
    node: BasicBlockNode,
    i: int,
    forest: MastForest,
) -> Flow {
    match batches_executed(ops, s, node.spec_op_batches(), i, forest) {
        Flow::Continue(s1) => span_end_added(s1, node.spec_digest()),
        f => f,
    }
}

/// A basic block is executed.
pub open spec fn block_executed<E: SyncOps>(
    ops: E,
    s: GeneratorModel,
    node: BasicBlockNode,
    forest: MastForest,
) -> Flow {
    let first = node.spec_op_batches()[0]@;
    let num_groups = felt(node.spec_num_op_groups() % 0x1_0000_0000);
    match node_started(s) {
        None => Flow::Panic,
        Some(s0) => match span_row(s0, first, num_groups) {
            Flow::Continue(s1) => match ops_executed(
                ops,
                // the start of the block uses up its first group
                s1.with_span(
                    Some(
                        BasicBlockContext {
                            group_ops_left: first.groups[0],
                            num_groups_left: felt(num_groups@ - 1),
                        },
                    ),
                ),
                first,
                0,
                forest,
            ) {
                Flow::Continue(s2) => block_finished(ops, s2, node, 1, forest),
                f => f,
            },
            f => f,
        },
    }
}

// NODES

/// The next recorded node of another forest is taken.
pub open spec fn resolution_taken(s: GeneratorModel) -> Option<
    (MastNodeId, MastForest, GeneratorModel),
> {
    let replay = s.context.replay;
    if replay.resolutions.len() > 0 {
        let (id, forest) = replay.resolutions[0];
        Some(
            (
                id,
                *forest,
                s.with_replay(
                    ReplayModel { resolutions: replay.resolutions.drop_first(), ..replay },
                ),
            ),
        )
    } else {
        None
    }
}

/// A join starts.
pub open spec fn join_started(
    s: GeneratorModel,
    node: JoinNode,
    forest: MastForest,
) -> Flow {
    match node_started(s) {
        Some(s0) => join_row(s0, node, forest),
        None => Flow::Panic,
    }
}

/// A split starts and takes its condition off the stack.
pub open spec fn split_started(
    s: GeneratorModel,
    node: SplitNode,
    forest: MastForest,
) -> Flow {
    match node_started(s) {
        Some(s0) => match decremented(s0) {
            Some(s1) => split_row(s1, node, forest),
            None => Flow::Panic,
        },
        None => Flow::Panic,
    }
}

/// A loop starts and takes its condition off the stack.
pub open spec fn loop_started(s: GeneratorModel, node: LoopNode, forest: MastForest) -> Flow {
    match node_started(s) {
        Some(s0) => match decremented(s0) {
            Some(s1) => loop_row(s1, node, forest),
            None => Flow::Panic,
        },
        None => Flow::Panic,
    }
}

/// A call or a syscall starts its context.
pub open spec fn call_started(
    s: GeneratorModel,
    node: CallNode,
    forest: MastForest,
) -> Flow {
    match (node_started(s), digest_of(forest, node.callee)) {
        (Some(s0), Some(callee)) => call_row(call_context_started(s0, node, callee), node, forest),
        _ => Flow::Panic,
    }
}

/// A dynamic node reads the digest of its callee from memory and takes the address off the stack;
/// a dynamic call starts a new context.
pub open spec fn dyn_started(s: GeneratorModel, node: DynNode) -> Flow {
    match node_started(s) {
        Some(s0) => match callee_read(s0) {
            Some((callee, s1)) => match decremented(s1) {
                Some(s2) => if node.is_dyncall {
                    dyncall_row(dyncall_context_started(s2, callee), callee, left_context(s2))
                } else {
                    dyn_row(s2, callee)
                },
                None => Flow::Panic,
            },
            None => Flow::Panic,
        },
        None => Flow::Panic,
    }
}

/// The digest that a dynamic node reads when it starts.
pub open spec fn dyn_callee(s: GeneratorModel) -> Word {
    s.context.replay.memory_reads.words[0].0
}

/// The node whose digest a dynamic node has read: a procedure of the forest, or else the next
/// recorded node of another forest.
pub open spec fn callee_found(
    s: GeneratorModel,
    callee: Word,
    forest: MastForest,
) -> Option<(MastNodeId, MastForest, GeneratorModel)> {
    match forest.spec_find_procedure_root(callee) {
        Some(id) => Some((id, forest, s)),
        None => resolution_taken(s),
    }
}

/// A dynamic node ends; a dynamic call returns to the context before it.
pub open spec fn dyn_ended(s: GeneratorModel, node: DynNode) -> Flow {
    if node.is_dyncall {
        context_ended(s, node.digest)
    } else {
        end_added(s, node.digest)
    }
}

/// A node is executed.
///
/// Every node but an external one writes a row first, so that fewer rows are left for what the
/// node executes; an external node uses up a recorded node of another forest.
#[verifier::opaque]
pub open spec fn node_executed<E: SyncOps>(
    ops: E,
    s: GeneratorModel,
    id: MastNodeId,
    forest: MastForest,
) -> Flow
    decreases s.rows_left(), s.resolutions_left(),
{
    if !forest.has(id) {
        Flow::Panic
    } else {
        match forest.node(id) {
            MastNode::Block(node) => block_executed(ops, s, node, forest),
            MastNode::Join(node) => match join_started(s, node, forest) {
                Flow::Continue(s1) if s1.rows_left() < s.rows_left() => match node_executed(
                    ops,
                    s1,
                    node.first,
                    forest,
                ) {
                    Flow::Continue(s2) if s2.rows_left() < s.rows_left() => match node_executed(
                        ops,
                        s2,
                        node.second,
                        forest,
                    ) {
                        Flow::Continue(s3) => end_added(s3, node.digest),
                        f => f,
                    },
                    f => f.halted(),
                },
                f => f.halted(),
            },
            MastNode::Split(node) => match split_started(s, node, forest) {
                Flow::Continue(s1) if s1.rows_left() < s.rows_left() => match node_executed(
                    ops,
                    s1,
                    if s.item(0) == felt(1) {
                        node.on_true
                    } else {
                        node.on_false
                    },
                    forest,
                ) {
                    Flow::Continue(s2) => end_added(s2, node.digest),
                    f => f,
                },
                f => f.halted(),
            },
            MastNode::Loop(node) => match loop_started(s, node, forest) {
                Flow::Continue(s1) if s1.rows_left() < s.rows_left() => if s.item(0) == felt(1) {
                    match node_executed(ops, s1, node.body, forest) {
                        Flow::Continue(s2) => match condition_taken(s2) {
                            Some((condition, s3)) if s3.rows_left() < s.rows_left() =>
                            loop_executed(ops, s3, node, forest, condition),
                            _ => Flow::Panic,
                        },
                        f => f,
                    }
                } else {
                    end_added(s1, node.digest)
                },
                f => f.halted(),
            },
            MastNode::Call(node) => match call_started(s, node, forest) {
                Flow::Continue(s1) if s1.rows_left() < s.rows_left() => match node_executed(
                    ops,
                    s1,
                    node.callee,
                    forest,
                ) {
                    Flow::Continue(s2) => context_ended(s2, node.digest),
                    f => f,
                },
                f => f.halted(),
            },
            MastNode::Dyn(node) => match dyn_started(s, node) {
                Flow::Continue(s1) if s1.rows_left() < s.rows_left() => match callee_found(
                    s1,
                    dyn_callee(s),
                    forest,
                ) {
                    Some((callee_id, callee_forest, s2)) => match node_executed(
                        ops,
                        s2,
                        callee_id,
                        callee_forest,
                    ) {
                        Flow::Continue(s3) => dyn_ended(s3, node),
                        f => f,
                    },
                    None => Flow::Panic,
                },
                f => f.halted(),
            },
            MastNode::External(_) => match resolution_taken(s) {
                Some((resolved_id, resolved_forest, s1)) => node_executed(
                    ops,
                    s1,
                    resolved_id,
                    resolved_forest,
                ),
                None => Flow::Panic,
            },
        }
    }
}

/// The body of a loop is repeated for as long as the condition is one; then the loop ends.
#[verifier::opaque]
pub open spec fn loop_executed<E: SyncOps>(
    ops: E,
    s: GeneratorModel,
    node: LoopNode,
    forest: MastForest,
    condition: Felt,
) -> Flow
    decreases s.rows_left(), s.resolutions_left(),
{
    if condition == felt(1) {
        match repeat_row(s, node, forest) {
            Flow::Continue(s1) if s1.rows_left() < s.rows_left() => match node_executed(
                ops,
                s1,
                node.body,
                forest,
            ) {
                Flow::Continue(s2) => match condition_taken(s2) {
                    Some((next_condition, s3)) if s3.rows_left() < s.rows_left() => loop_executed(
                        ops,
                        s3,
                        node,
                        forest,
                        next_condition,
                    ),
                    _ => Flow::Panic,
                },
                f => f,
            },
            f => f.halted(),
        }
    } else {
        end_added(s, node.digest)
    }
}

/// One more execution of the body of a loop whose condition is one.
pub open spec fn loop_repeated<E: SyncOps>(
    ops: E,
    s: GeneratorModel,
    node: LoopNode,
    forest: MastForest,
) -> Flow {
    match repeat_row(s, node, forest) {
        Flow::Continue(s1) => node_executed(ops, s1, node.body, forest),
        f => f,
    }
}

/// What a loop does in one step.
pub proof fn lemma_loop_unfold<E: SyncOps>(
    ops: E,
    s: GeneratorModel,
    node: LoopNode,
    forest: MastForest,
    condition: Felt,
)
    ensures
        condition != felt(1) ==> loop_executed(ops, s, node, forest, condition) == end_added(
            s,
            node.digest,
        ),
        condition == felt(1) && loop_executed(ops, s, node, forest, condition) !is Panic ==> {
            &&& repeat_row(s, node, forest) !is Panic
            &&& repeat_row(s, node, forest) matches Flow::Continue(s1) ==> s1.rows_left()
                < s.rows_left()
            &&& loop_repeated(ops, s, node, forest) !is Panic
            &&& match loop_repeated(ops, s, node, forest) {
                Flow::Continue(s2) => condition_taken(s2) matches Some((next_condition, s3))
                    && s3.rows_left() < s.rows_left() && loop_executed(
                    ops,
                    s,
                    node,
                    forest,
                    condition,
                ) == loop_executed(ops, s3, node, forest, next_condition),
                f => loop_executed(ops, s, node, forest, condition) == f,
            }
        },
{
    reveal(loop_executed);
    reveal(node_executed);
}

/// What a loop node does before its body is repeated.
pub proof fn lemma_loop_node_unfold<E: SyncOps>(
    ops: E,
    s: GeneratorModel,
    id: MastNodeId,
    node: LoopNode,
    forest: MastForest,
)
    requires
        forest.has(id),
        forest.node(id) == MastNode::Loop(node),
        node_executed(ops, s, id, forest) !is Panic,
    ensures
        match loop_started(s, node, forest) {
            Flow::Continue(s1) => {
                &&& s1.rows_left() < s.rows_left()
                &&& s.item(0) != felt(1) ==> node_executed(ops, s, id, forest) == end_added(
                    s1,
                    node.digest,
                )
                &&& s.item(0) == felt(1) ==> match node_executed(ops, s1, node.body, forest) {
                    Flow::Continue(s2) => condition_taken(s2) matches Some((condition, s3))
                        && s3.rows_left() < s.rows_left() && node_executed(ops, s, id, forest)
                        == loop_executed(ops, s3, node, forest, condition),
                    f => node_executed(ops, s, id, forest) == f,
                }
            },
            f => node_executed(ops, s, id, forest) == f,
        },
{
    reveal(node_executed);
    reveal(loop_executed);
}

// RESUMPTION

/// What is left of the encoding of a group after its first `n` operations.
pub open spec fn without_ops(group: int, n: int) -> int
    decreases n,
{
    if n <= 0 {
        group
    } else {
        without_ops(group / 0x80, n - 1)
    }
}

/// The number of operations with an immediate value among the first `n` operations of a group.
pub open spec fn num_pushes(group: int, n: int) -> int
    decreases n,
{
    if n <= 0 {
        0
    } else {
        (if group % 0x80 == OPCODE_PUSH {
            1int
        } else {
            0int
        }) + num_pushes(group / 0x80, n - 1)
    }
}

/// The number of groups that the first `n` batches take up, each rounded up to a power of two.
pub open spec fn groups_before(batches: Seq<OpBatch>, n: int) -> int
    decreases n,
{
    if n <= 0 {
        0
    } else {
        groups_before(batches, n - 1) + next_pow2(batches[n - 1]@.num_groups as int)
    }
}

/// The number of groups of a block that have been used up when an operation is about to be
/// executed: those of the batches before, those of the immediate values of the operations before
/// in the same group, and the groups of the batch up to the one of the operation.
pub open spec fn groups_consumed(batches: Seq<OpBatch>, batch_index: int, op_idx: int) -> int {
    let batch = batches[batch_index]@;
    let group = batch.group_of(op_idx);
    groups_before(batches, batch_index) + num_pushes(
        batch.groups[group]@ as int,
        batch.idx_in_group(op_idx),
    ) + group + 1
}

/// How far the decoding of a block has come when an operation is about to be executed, if the
/// block has that operation.
pub open spec fn span_context_at(
    node: BasicBlockNode,
    batch_index: int,
    op_idx: int,
) -> Option<BasicBlockContext> {
    let batches = node.spec_op_batches();
    let batch = batches[batch_index]@;
    let consumed = groups_consumed(batches, batch_index, op_idx);
    if 0 <= batch_index < batches.len() && 0 <= op_idx < batch.ops.len() && consumed
        <= node.spec_num_op_groups() {
        Some(
            BasicBlockContext {
                group_ops_left: felt(
                    without_ops(
                        batch.groups[batch.group_of(op_idx)]@ as int,
                        batch.idx_in_group(op_idx),
                    ),
                ),
                num_groups_left: felt((node.spec_num_op_groups() - consumed) % 0x1_0000_0000),
            },
        )
    } else {
        None
    }
}

/// The number of groups of the batches from one on.
pub open spec fn groups_from(batches: Seq<OpBatch>, i: int) -> int
    decreases batches.len() - i,
{
    if i >= batches.len() || i < 0 {
        0
    } else {
        batches[i]@.num_groups + groups_from(batches, i + 1)
    }
}

/// A basic block is executed from one of its operations on.
pub open spec fn block_resumed<E: SyncOps>(
    ops: E,
    s: GeneratorModel,
    node: BasicBlockNode,
    batch_index: int,
    op_idx: int,
    forest: MastForest,
) -> Flow {
    match span_context_at(node, batch_index, op_idx) {
        Some(span) => match ops_executed(
            ops,
            s.with_span(Some(span)),
            node.spec_op_batches()[batch_index]@,
            op_idx,
            forest,
        ) {
            Flow::Continue(s1) => block_finished(ops, s1, node, batch_index + 1, forest),
            f => f,
        },
        None => Flow::Panic,
    }
}

/// A basic block is executed from the start of one of its batches on.
pub open spec fn block_respanned<E: SyncOps>(
    ops: E,
    s: GeneratorModel,
    node: BasicBlockNode,
    batch_index: int,
    forest: MastForest,
) -> Flow {
    let batches = node.spec_op_batches();
    if 0 <= batch_index < batches.len() {
        let span = BasicBlockContext {
            group_ops_left: batches[batch_index]@.groups[0],
            num_groups_left: felt(groups_from(batches, batch_index)),
        };
        block_finished(ops, s.with_span(Some(span)), node, batch_index, forest)
    } else {
        Flow::Panic
    }
}

/// A loop is executed from the end of its body on.
pub open spec fn loop_resumed<E: SyncOps>(
    ops: E,
    s: GeneratorModel,
    node: LoopNode,
    forest: MastForest,
) -> Flow {
    match condition_taken(s) {
        Some((condition, s1)) => loop_executed(ops, s1, node, forest, condition),
        None => Flow::Panic,
    }
}

/// A loop ends; if it was entered, its last condition is taken off the stack.
pub open spec fn loop_ended(s: GeneratorModel, node: LoopNode) -> Flow {
    match node_ended(s) {
        Some((addr, flags, s1)) => if flags@.loop_entered {
            match decremented(s1) {
                Some(s2) => end_row(s2, node.digest, flags, addr),
                None => Flow::Panic,
            }
        } else {
            end_row(s1, node.digest, flags, addr)
        },
        None => Flow::Panic,
    }
}

/// A node ends, as the first thing that happens in a fragment.
pub open spec fn end_resumed(s: GeneratorModel, node: MastNode) -> Flow {
    match node {
        MastNode::Join(n) => end_added(s, n.digest),
        MastNode::Split(n) => end_added(s, n.digest),
        MastNode::Loop(n) => loop_ended(s, n),
        MastNode::Call(n) => context_ended(s, n.digest),
        MastNode::Dyn(n) => dyn_ended(s, n),
        MastNode::Block(n) => span_end_added(s, n.spec_digest()),
        MastNode::External(_) => Flow::Panic,
    }
}

/// The node in the midst of which the fragment begins is finished.
pub open spec fn node_resumed<E: SyncOps>(
    ops: E,
    s: GeneratorModel,
    state: NodeExecutionState,
    forest: MastForest,
) -> Flow {
    match state {
        NodeExecutionState::BasicBlock { node_id, batch_index, op_idx_in_batch } => if forest.has(
            node_id,
        ) {
            match forest.node(node_id) {
                MastNode::Block(node) => block_resumed(
                    ops,
                    s,
                    node,
                    batch_index as int,
                    op_idx_in_batch as int,
                    forest,
                ),
                _ => Flow::Panic,
            }
        } else {
            Flow::Panic
        },
        NodeExecutionState::Start(node_id) => node_executed(ops, s, node_id, forest),
        NodeExecutionState::Respan { node_id, batch_index } => if forest.has(node_id) {
            match forest.node(node_id) {
                MastNode::Block(node) => block_respanned(
                    ops,
                    s,
                    node,
                    batch_index as int,
                    forest,
                ),
                _ => Flow::Panic,
            }
        } else {
            Flow::Panic
        },
        NodeExecutionState::LoopRepeat(node_id) => if forest.has(node_id) {
            match forest.node(node_id) {
                MastNode::Loop(node) => loop_resumed(ops, s, node, forest),
                _ => Flow::Panic,
            }
        } else {
            Flow::Panic
        },
        NodeExecutionState::End(node_id) => if forest.has(node_id) {
            end_resumed(s, forest.node(node_id))
        } else {
            Flow::Panic
        },
    }
}

// CONTINUATION

/// A remaining step is executed, other than to enter another forest.
pub open spec fn continuation_executed<E: SyncOps>(
    ops: E,
    s: GeneratorModel,
    continuation: Continuation,
    forest: MastForest,
) -> Flow {
    match continuation {
        Continuation::StartNode(id) => node_executed(ops, s, id, forest),
        Continuation::FinishJoin(id) => match digest_of(forest, id) {
            Some(digest) => end_added(s, digest),
            None => Flow::Panic,
        },
        Continuation::FinishSplit(id) => match digest_of(forest, id) {
            Some(digest) => end_added(s, digest),
            None => Flow::Panic,
        },
        Continuation::FinishLoop(id) => if forest.has(id) {
            match forest.node(id) {
                MastNode::Loop(node) => loop_resumed(ops, s, node, forest),
                _ => Flow::Panic,
            }
        } else {
            Flow::Panic
        },
        Continuation::FinishCall(id) => match digest_of(forest, id) {
            Some(digest) => context_ended(s, digest),
            None => Flow::Panic,
        },
        Continuation::FinishDyn(id) => if forest.has(id) {
            match forest.node(id) {
                MastNode::Dyn(node) => dyn_ended(s, node),
                _ => Flow::Panic,
            }
        } else {
            Flow::Panic
        },
        Continuation::EnterForest(_) => Flow::Continue(s),
    }
}

/// The state once the next remaining step has been taken off.
pub open spec fn continuation_taken(s: GeneratorModel) -> GeneratorModel {
    GeneratorModel {
        context: ContextModel { continuation: s.context.continuation.drop_last(), ..s.context },
        ..s
    }
}

/// All remaining steps are executed, one after the other.
pub open spec fn continued<E: SyncOps>(ops: E, s: GeneratorModel, forest: Arc<MastForest>) -> Flow
    decreases s.context.continuation.len(),
{
    if s.context.continuation.len() == 0 {
        Flow::Continue(s)
    } else {
        let continuation = s.context.continuation.last();
        match continuation_executed(ops, continuation_taken(s), continuation, *forest) {
            Flow::Continue(s1) if s1.context.continuation.len() < s.context.continuation.len() =>
            continued(
                ops,
                s1,
                match continuation {
                    Continuation::EnterForest(previous) => previous,
                    _ => forest,
                },
            ),
            f => f.halted(),
        }
    }
}

/// The fragment is generated: the node in the midst of which it begins is finished, and then what
/// remains is executed, until the fragment is full or nothing remains.
pub open spec fn generated<E: SyncOps>(ops: E, s: GeneratorModel, state: NodeExecutionState) -> Flow {
    let forest = s.context.initial_mast_forest;
    match node_resumed(ops, s, state, *forest) {
        Flow::Continue(s1) => continued(ops, s1, forest),
        f => f,
    }
}

} // verus!
