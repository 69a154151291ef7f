//! A fragment uses the recorded answers in order: answers that were recorded behind those that it
//! uses change nothing.

use crate::block_stack::BasicBlockContext;
use crate::continuation::Continuation;
use crate::felt::felt;
use crate::felt::Felt;
use crate::layout::MIN_STACK_DEPTH;
use crate::mast::BasicBlockNode;
use crate::mast::CallNode;
use crate::mast::DynNode;
use crate::mast::JoinNode;
use crate::mast::LoopNode;
use crate::mast::MastForest;
use crate::mast::MastNode;
use crate::mast::MastNodeId;
use crate::mast::OpBatch;
use crate::mast::OpBatchModel;
use crate::mast::SplitNode;
use crate::parallel::execution::batches_executed;
use crate::parallel::execution::block_executed;
use crate::parallel::execution::block_finished;
use crate::parallel::execution::call_started;
use crate::parallel::execution::callee_found;
use crate::parallel::execution::continuation_executed;
use crate::parallel::execution::continuation_taken;
use crate::parallel::execution::continued;
use crate::parallel::execution::dyn_callee;
use crate::parallel::execution::dyn_started;
use crate::parallel::execution::end_resumed;
use crate::parallel::execution::generated;
use crate::parallel::execution::group_advanced;
use crate::parallel::execution::groups_from;
use crate::parallel::execution::join_started;
use crate::parallel::execution::loop_executed;
use crate::parallel::execution::loop_resumed;
use crate::parallel::execution::loop_started;
use crate::parallel::execution::node_executed;
use crate::parallel::execution::node_resumed;
use crate::parallel::execution::op_executed;
use crate::parallel::execution::ops_executed;
use crate::parallel::execution::resolution_taken;
use crate::parallel::execution::span_context_at;
use crate::parallel::execution::split_started;
use crate::parallel::execution::OpOutcome;
use crate::parallel::execution::SyncOps;
use crate::parallel::model::call_context_started;
use crate::parallel::model::callee_read;
use crate::parallel::model::condition_taken;
use crate::parallel::model::context_ended;
use crate::parallel::model::context_restored;
use crate::parallel::model::decremented;
use crate::parallel::model::digest_of;
use crate::parallel::model::dyncall_context_started;
use crate::parallel::model::end_added;
use crate::parallel::model::node_ended;
use crate::parallel::model::node_started;
use crate::parallel::model::operation_row;
use crate::parallel::model::repeat_row;
use crate::parallel::model::respanned;
use crate::parallel::model::row_added;
use crate::parallel::model::span_end_added;
use crate::parallel::model::span_row;
use crate::parallel::model::DecoderRow;
use crate::parallel::model::Flow;
use crate::parallel::model::GeneratorModel;
use crate::parallel::prefix_laws::lemma_join_unfold;
use crate::parallel::prefix_laws::lemma_loop_node_steps;
use crate::parallel::prefix_laws::lemma_loop_steps;
use crate::parallel::prefix_laws::then_end;
use crate::parallel::prefix_laws::then_loop;
use crate::parallel::prefix_laws::then_node;
use crate::parallel::progress::lemma_condition_keeps;
use crate::parallel::progress::lemma_continuation_advances;
use crate::parallel::progress::lemma_ops_keep;
use crate::parallel::progress::lemma_resumption_advances;
use crate::parallel::progress::lemma_row_advances;
use crate::parallel::progress::lemma_start_advances;
use crate::parallel::resume_laws::shared;
use crate::parallel::stitch::context_generated;
use crate::parallel::stitch::fragment_from;
use crate::parallel::stitch::initial_state;
use crate::trace_state::ContextModel;
use crate::trace_state::NodeExecutionState;
use crate::trace_state::ReplayModel;
use crate::word::Word;
use std::sync::Arc;
use vstd::prelude::*;

verus! {

/// Whether a step that fits the recording leads to the same with later recordings behind it.
pub open spec fn unaffected(f: Flow, g: Flow, later: ReplayModel) -> bool {
    f !is Panic ==> g == f.with_later(later)
}

/// The first of several things is taken off in the same way if others come behind them.
proof fn lemma_first_taken<T>(a: Seq<T>, b: Seq<T>)
    requires
        a.len() > 0,
    ensures
        (a + b).len() > 0,
        (a + b)[0] == a[0],
        (a + b).drop_first() == a.drop_first() + b,
{
    assert((a + b).drop_first() =~= a.drop_first() + b);
}

// PARTS OF STEPS

/// A row does not depend on the recordings.
broadcast proof fn lemma_row_later(s: GeneratorModel, row: DecoderRow, later: ReplayModel)
    ensures
        #[trigger] row_added(s.with_later(later), row) == row_added(s, row).with_later(later),
{
    reveal(row_added);
}

broadcast proof fn lemma_node_started_later(s: GeneratorModel, later: ReplayModel)
    requires
        node_started(s) is Some,
    ensures
        #[trigger] node_started(s.with_later(later)) == Some(
            node_started(s).unwrap().with_later(later),
        ),
{
    let replay = s.context.replay;
    lemma_first_taken(replay.hasher.block_addresses, later.hasher.block_addresses);
    lemma_first_taken(replay.block_stack.node_start, later.block_stack.node_start);
}

broadcast proof fn lemma_node_ended_later(s: GeneratorModel, later: ReplayModel)
    requires
        node_ended(s) is Some,
    ensures
        #[trigger] node_ended(s.with_later(later)) == Some(
            (
                node_ended(s).unwrap().0,
                node_ended(s).unwrap().1,
                node_ended(s).unwrap().2.with_later(later),
            ),
        ),
{
    lemma_first_taken(s.context.replay.block_stack.node_end, later.block_stack.node_end);
}

broadcast proof fn lemma_decremented_later(s: GeneratorModel, later: ReplayModel)
    requires
        decremented(s) is Some,
    ensures
        #[trigger] decremented(s.with_later(later)) == Some(
            decremented(s).unwrap().with_later(later),
        ),
{
    let overflow = s.context.replay.stack_overflow;
    if s.context.stack.depth > MIN_STACK_DEPTH {
        lemma_first_taken(overflow.overflow_values, later.stack_overflow.overflow_values);
    }
}

broadcast proof fn lemma_context_restored_later(s: GeneratorModel, later: ReplayModel)
    requires
        context_restored(s) is Some,
    ensures
        #[trigger] context_restored(s.with_later(later)) == Some(
            context_restored(s).unwrap().with_later(later),
        ),
{
    let replay = s.context.replay;
    lemma_first_taken(replay.block_stack.execution_contexts, later.block_stack.execution_contexts);
    lemma_first_taken(
        replay.stack_overflow.restore_context_info,
        later.stack_overflow.restore_context_info,
    );
}

broadcast proof fn lemma_callee_read_later(s: GeneratorModel, later: ReplayModel)
    requires
        callee_read(s) is Some,
    ensures
        #[trigger] callee_read(s.with_later(later)) == Some(
            (callee_read(s).unwrap().0, callee_read(s).unwrap().1.with_later(later)),
        ),
{
    lemma_first_taken(s.context.replay.memory_reads.words, later.memory_reads.words);
}

broadcast proof fn lemma_resolution_later(s: GeneratorModel, later: ReplayModel)
    requires
        resolution_taken(s) is Some,
    ensures
        #[trigger] resolution_taken(s.with_later(later)) == Some(
            (
                resolution_taken(s).unwrap().0,
                resolution_taken(s).unwrap().1,
                resolution_taken(s).unwrap().2.with_later(later),
            ),
        ),
{
    lemma_first_taken(s.context.replay.resolutions, later.resolutions);
}

broadcast group group_later {
    lemma_row_later,
    lemma_node_started_later,
    lemma_node_ended_later,
    lemma_decremented_later,
    lemma_context_restored_later,
    lemma_callee_read_later,
    lemma_resolution_later,
}

// STARTS AND ENDS OF NODES

proof fn lemma_start_later(
    s: GeneratorModel,
    node: MastNode,
    forest: MastForest,
    later: ReplayModel,
)
    ensures
        node matches MastNode::Join(n) ==> unaffected(
            join_started(s, n, forest),
            join_started(s.with_later(later), n, forest),
            later,
        ),
        node matches MastNode::Split(n) ==> unaffected(
            split_started(s, n, forest),
            split_started(s.with_later(later), n, forest),
            later,
        ),
        node matches MastNode::Loop(n) ==> unaffected(
            loop_started(s, n, forest),
            loop_started(s.with_later(later), n, forest),
            later,
        ),
        node matches MastNode::Loop(n) ==> unaffected(
            repeat_row(s, n, forest),
            repeat_row(s.with_later(later), n, forest),
            later,
        ),
        node matches MastNode::Call(n) ==> unaffected(
            call_started(s, n, forest),
            call_started(s.with_later(later), n, forest),
            later,
        ),
        node matches MastNode::Dyn(n) ==> unaffected(
            dyn_started(s, n),
            dyn_started(s.with_later(later), n),
            later,
        ),
{
    broadcast use group_later;

    match (node, node_started(s)) {
        (MastNode::Call(n), Some(s0)) => {
            if let Some(callee) = digest_of(forest, n.callee) {
                assert(call_context_started(s0.with_later(later), n, callee)
                    == call_context_started(s0, n, callee).with_later(later));
            }
        },
        (MastNode::Dyn(n), Some(s0)) => {
            if let Some((callee, s1)) = callee_read(s0) {
                if let Some(s2) = decremented(s1) {
                    assert(dyncall_context_started(s2.with_later(later), callee)
                        == dyncall_context_started(s2, callee).with_later(later));
                }
            }
        },
        _ => {},
    }
}

proof fn lemma_end_later(s: GeneratorModel, digest: Word, later: ReplayModel)
    ensures
        unaffected(end_added(s, digest), end_added(s.with_later(later), digest), later),
        unaffected(span_end_added(s, digest), span_end_added(s.with_later(later), digest), later),
        unaffected(context_ended(s, digest), context_ended(s.with_later(later), digest), later),
{
    broadcast use group_later;

}

proof fn lemma_condition_later(s: GeneratorModel, later: ReplayModel)
    ensures
        condition_taken(s) matches Some((c, t)) ==> condition_taken(s.with_later(later)) == Some(
            (c, t.with_later(later)),
        ),
{
    broadcast use group_later;

}

// BASIC BLOCKS

proof fn lemma_ops_later<E: SyncOps>(
    ops: E,
    s: GeneratorModel,
    batch: OpBatchModel,
    op_idx: int,
    forest: MastForest,
    later: ReplayModel,
)
    requires
        s.well_formed(),
    ensures
        unaffected(
            ops_executed(ops, s, batch, op_idx, forest),
            ops_executed(ops, s.with_later(later), batch, op_idx, forest),
            later,
        ),
    decreases batch.ops.len() - op_idx,
{
    broadcast use {lemma_row_later, lemma_row_advances};

    if op_idx < batch.ops.len() {
        let op = batch.ops[op_idx];
        ops.lemma_later(s, op, forest, later);
        ops.lemma_frame(s, op, forest);
        if let OpOutcome::Done(s1, helpers) = op_executed(ops, s, op, forest) {
            let idx = batch.idx_in_group(op_idx);
            assert(op_executed(ops, s.with_later(later), op, forest) == OpOutcome::Done(
                s1.with_later(later),
                helpers,
            ));
            assert(unaffected(
                operation_row(s1, op, idx, helpers),
                operation_row(s1.with_later(later), op, idx, helpers),
                later,
            )) by {
                if let Some(span) = s1.span_context {
                    assert forall|c| #[trigger] s1.with_later(later).with_span(c)
                        == s1.with_span(c).with_later(later) by {}
                }
            }
            if let Flow::Continue(s2) = operation_row(s1, op, idx, helpers) {
                if let Flow::Continue(s3) = group_advanced(s2, batch, op_idx) {
                    assert(group_advanced(s2.with_later(later), batch, op_idx) == Flow::Continue(
                        s3.with_later(later),
                    ));
                    lemma_ops_later(ops, s3, batch, op_idx + 1, forest, later);
                }
            }
        }
    }
}

proof fn lemma_respanned_later(s: GeneratorModel, batch: OpBatchModel, later: ReplayModel)
    ensures
        unaffected(respanned(s, batch), respanned(s.with_later(later), batch), later),
{
    broadcast use lemma_row_later;

}

proof fn lemma_batches_later<E: SyncOps>(
    ops: E,
    s: GeneratorModel,
    batches: Seq<OpBatch>,
    i: int,
    forest: MastForest,
    later: ReplayModel,
)
    requires
        s.well_formed(),
    ensures
        unaffected(
            batches_executed(ops, s, batches, i, forest),
            batches_executed(ops, s.with_later(later), batches, i, forest),
            later,
        ),
    decreases batches.len() - i,
{
    if i < batches.len() {
        lemma_respanned_later(s, batches[i]@, later);
        if let Flow::Continue(s1) = respanned(s, batches[i]@) {
            assert(s1.well_formed()) by {
                broadcast use lemma_row_advances;

            }
            lemma_ops_later(ops, s1, batches[i]@, 0, forest, later);
            lemma_ops_keep(ops, s1, batches[i]@, 0, forest);
            if let Flow::Continue(s2) = ops_executed(ops, s1, batches[i]@, 0, forest) {
                lemma_batches_later(ops, s2, batches, i + 1, forest, later);
            }
        }
    }
}

proof fn lemma_block_finished_later<E: SyncOps>(
    ops: E,
    s: GeneratorModel,
    node: BasicBlockNode,
    i: int,
    forest: MastForest,
    later: ReplayModel,
)
    requires
        s.well_formed(),
    ensures
        unaffected(
            block_finished(ops, s, node, i, forest),
            block_finished(ops, s.with_later(later), node, i, forest),
            later,
        ),
{
    lemma_batches_later(ops, s, node.spec_op_batches(), i, forest, later);
    if let Flow::Continue(t) = batches_executed(ops, s, node.spec_op_batches(), i, forest) {
        lemma_end_later(t, node.spec_digest(), later);
    }
}

/// The operations of a batch from one on, and the rest of the block.
spec fn batch_and_rest<E: SyncOps>(
    ops: E,
    s: GeneratorModel,
    node: BasicBlockNode,
    batch_index: int,
    op_idx: int,
    forest: MastForest,
) -> Flow {
    match ops_executed(ops, s, node.spec_op_batches()[batch_index]@, op_idx, forest) {
        Flow::Continue(t) => block_finished(ops, t, node, batch_index + 1, forest),
        f => f,
    }
}

proof fn lemma_batch_and_rest_later<E: SyncOps>(
    ops: E,
    s: GeneratorModel,
    node: BasicBlockNode,
    batch_index: int,
    op_idx: int,
    forest: MastForest,
    later: ReplayModel,
)
    requires
        s.well_formed(),
    ensures
        unaffected(
            batch_and_rest(ops, s, node, batch_index, op_idx, forest),
            batch_and_rest(ops, s.with_later(later), node, batch_index, op_idx, forest),
            later,
        ),
{
    let batch = node.spec_op_batches()[batch_index]@;
    lemma_ops_later(ops, s, batch, op_idx, forest, later);
    lemma_ops_keep(ops, s, batch, op_idx, forest);
    if let Flow::Continue(t) = ops_executed(ops, s, batch, op_idx, forest) {
        lemma_block_finished_later(ops, t, node, batch_index + 1, forest, later);
    }
}

proof fn lemma_block_later<E: SyncOps>(
    ops: E,
    s: GeneratorModel,
    node: BasicBlockNode,
    forest: MastForest,
    later: ReplayModel,
)
    requires
        s.well_formed(),
    ensures
        unaffected(
            block_executed(ops, s, node, forest),
            block_executed(ops, s.with_later(later), node, forest),
            later,
        ),
{
    broadcast use {lemma_row_later, lemma_node_started_later};

    let first = node.spec_op_batches()[0]@;
    let num_groups = felt(node.spec_num_op_groups() % 0x1_0000_0000);
    if let Some(s0) = node_started(s) {
        if let Flow::Continue(s1) = span_row(s0, first, num_groups) {
            assert(s1.well_formed()) by {
                broadcast use lemma_row_advances;

            }
            let span = Some(
                BasicBlockContext {
                    group_ops_left: first.groups[0],
                    num_groups_left: felt(num_groups@ - 1),
                },
            );
            let t = s1.with_span(span);
            assert(s1.with_later(later).with_span(span) == t.with_later(later));
            lemma_batch_and_rest_later(ops, t, node, 0, 0, forest, later);
            assert(block_executed(ops, s, node, forest) == batch_and_rest(
                ops,
                t,
                node,
                0,
                0,
                forest,
            ));
        }
    }
}

// NODES

proof fn lemma_then_node_later<E: SyncOps>(
    ops: E,
    start: GeneratorModel,
    f: Flow,
    id: MastNodeId,
    forest: MastForest,
    later: ReplayModel,
)
    requires
        f matches Flow::Continue(x) ==> x.well_formed() && x.rows_left() < start.rows_left(),
    ensures
        unaffected(
            then_node(ops, f, id, forest),
            then_node(ops, f.with_later(later), id, forest),
            later,
        ),
    decreases start.rows_left(), start.resolutions_left(), 0int,
{
    if let Flow::Continue(x) = f {
        lemma_node_later(ops, x, id, forest, later);
    }
}

proof fn lemma_then_end_later(f: Flow, digest: Word, later: ReplayModel)
    ensures
        unaffected(then_end(f, digest), then_end(f.with_later(later), digest), later),
{
    if let Flow::Continue(x) = f {
        lemma_end_later(x, digest, later);
    }
}

proof fn lemma_then_loop_later<E: SyncOps>(
    ops: E,
    start: GeneratorModel,
    f: Flow,
    node: LoopNode,
    forest: MastForest,
    later: ReplayModel,
)
    requires
        f matches Flow::Continue(x) ==> x.well_formed() && x.rows_left() < start.rows_left(),
    ensures
        unaffected(
            then_loop(ops, f, node, forest),
            then_loop(ops, f.with_later(later), node, forest),
            later,
        ),
    decreases start.rows_left(), start.resolutions_left(), 0int,
{
    if let Flow::Continue(x) = f {
        lemma_condition_later(x, later);
        lemma_condition_keeps(x);
        if let Some((condition, t)) = condition_taken(x) {
            lemma_loop_later(ops, t, node, forest, condition, later);
        }
    }
}

proof fn lemma_join_later<E: SyncOps>(
    ops: E,
    s: GeneratorModel,
    id: MastNodeId,
    node: JoinNode,
    forest: MastForest,
    later: ReplayModel,
)
    requires
        s.well_formed(),
        forest.has(id),
        forest.node(id) == MastNode::Join(node),
    ensures
        unaffected(
            node_executed(ops, s, id, forest),
            node_executed(ops, s.with_later(later), id, forest),
            later,
        ),
    decreases s.rows_left(), s.resolutions_left(), 1int,
{
    let t = s.with_later(later);
    lemma_join_unfold(ops, s, id, node, forest);
    lemma_join_unfold(ops, t, id, node, forest);
    lemma_start_later(s, forest.node(id), forest, later);
    let f = join_started(s, node, forest);
    lemma_then_node_later(ops, s, f, node.first, forest, later);
    let g = then_node(ops, f, node.first, forest);
    lemma_then_node_later(ops, s, g, node.second, forest, later);
    lemma_then_end_later(then_node(ops, g, node.second, forest), node.digest, later);
}

proof fn lemma_split_later<E: SyncOps>(
    ops: E,
    s: GeneratorModel,
    id: MastNodeId,
    node: SplitNode,
    forest: MastForest,
    later: ReplayModel,
)
    requires
        s.well_formed(),
        forest.has(id),
        forest.node(id) == MastNode::Split(node),
    ensures
        unaffected(
            node_executed(ops, s, id, forest),
            node_executed(ops, s.with_later(later), id, forest),
            later,
        ),
    decreases s.rows_left(), s.resolutions_left(), 1int,
{
    let t = s.with_later(later);
    let child = if s.item(0) == felt(1) {
        node.on_true
    } else {
        node.on_false
    };
    assert(s.item(0) == t.item(0));
    lemma_start_advances(s, forest.node(id), forest);
    lemma_start_later(s, forest.node(id), forest, later);
    let f = split_started(s, node, forest);
    lemma_then_node_later(ops, s, f, child, forest, later);
    lemma_then_end_later(then_node(ops, f, child, forest), node.digest, later);
    reveal(node_executed);
}

proof fn lemma_call_later<E: SyncOps>(
    ops: E,
    s: GeneratorModel,
    id: MastNodeId,
    node: CallNode,
    forest: MastForest,
    later: ReplayModel,
)
    requires
        s.well_formed(),
        forest.has(id),
        forest.node(id) == MastNode::Call(node),
    ensures
        unaffected(
            node_executed(ops, s, id, forest),
            node_executed(ops, s.with_later(later), id, forest),
            later,
        ),
    decreases s.rows_left(), s.resolutions_left(), 1int,
{
    lemma_start_advances(s, forest.node(id), forest);
    lemma_start_later(s, forest.node(id), forest, later);
    let f = call_started(s, node, forest);
    lemma_then_node_later(ops, s, f, node.callee, forest, later);
    if let Flow::Continue(x) = then_node(ops, f, node.callee, forest) {
        lemma_end_later(x, node.digest, later);
    }
    reveal(node_executed);
}

proof fn lemma_dyn_later<E: SyncOps>(
    ops: E,
    s: GeneratorModel,
    id: MastNodeId,
    node: DynNode,
    forest: MastForest,
    later: ReplayModel,
)
    requires
        s.well_formed(),
        forest.has(id),
        forest.node(id) == MastNode::Dyn(node),
    ensures
        unaffected(
            node_executed(ops, s, id, forest),
            node_executed(ops, s.with_later(later), id, forest),
            later,
        ),
    decreases s.rows_left(), s.resolutions_left(), 1int,
{
    let t = s.with_later(later);
    lemma_start_advances(s, forest.node(id), forest);
    lemma_start_later(s, forest.node(id), forest, later);
    let callee = dyn_callee(s);
    if let Flow::Continue(x) = dyn_started(s, node) {
        assert(dyn_callee(t) == callee);
        if let Some((i, f, x2)) = callee_found(x, callee, forest) {
            assert(callee_found(x.with_later(later), callee, forest) == Some(
                (i, f, x2.with_later(later)),
            )) by {
                broadcast use lemma_resolution_later;

            }
            lemma_node_later(ops, x2, i, f, later);
            if let Flow::Continue(y) = node_executed(ops, x2, i, f) {
                lemma_end_later(y, node.digest, later);
            }
        }
    }
    reveal(node_executed);
}

/// What executing a node leads to does not depend on what is recorded behind the answers that it
/// uses.
proof fn lemma_node_later<E: SyncOps>(
    ops: E,
    s: GeneratorModel,
    id: MastNodeId,
    forest: MastForest,
    later: ReplayModel,
)
    requires
        s.well_formed(),
    ensures
        unaffected(
            node_executed(ops, s, id, forest),
            node_executed(ops, s.with_later(later), id, forest),
            later,
        ),
    decreases s.rows_left(), s.resolutions_left(), 2int,
{
    if forest.has(id) {
        match forest.node(id) {
            MastNode::Block(node) => {
                lemma_block_later(ops, s, node, forest, later);
                reveal(node_executed);
            },
            MastNode::Join(node) => lemma_join_later(ops, s, id, node, forest, later),
            MastNode::Split(node) => lemma_split_later(ops, s, id, node, forest, later),
            MastNode::Loop(node) => lemma_loop_node_later(ops, s, id, node, forest, later),
            MastNode::Call(node) => lemma_call_later(ops, s, id, node, forest, later),
            MastNode::Dyn(node) => lemma_dyn_later(ops, s, id, node, forest, later),
            MastNode::External(_) => {
                if let Some((resolved, other, x)) = resolution_taken(s) {
                    lemma_resolution_later(s, later);
                    lemma_node_later(ops, x, resolved, other, later);
                }
                reveal(node_executed);
            },
        }
    } else {
        reveal(node_executed);
    }
}

proof fn lemma_loop_node_later<E: SyncOps>(
    ops: E,
    s: GeneratorModel,
    id: MastNodeId,
    node: LoopNode,
    forest: MastForest,
    later: ReplayModel,
)
    requires
        s.well_formed(),
        forest.has(id),
        forest.node(id) == MastNode::Loop(node),
    ensures
        unaffected(
            node_executed(ops, s, id, forest),
            node_executed(ops, s.with_later(later), id, forest),
            later,
        ),
    decreases s.rows_left(), s.resolutions_left(), 1int,
{
    let t = s.with_later(later);
    lemma_loop_node_steps(ops, s, id, node, forest);
    lemma_loop_node_steps(ops, t, id, node, forest);
    lemma_start_advances(s, forest.node(id), forest);
    lemma_start_later(s, forest.node(id), forest, later);
    assert(s.item(0) == t.item(0));
    let f = loop_started(s, node, forest);
    if s.item(0) == felt(1) {
        lemma_then_node_later(ops, s, f, node.body, forest, later);
        lemma_then_loop_later(
            ops,
            s,
            then_node(ops, f, node.body, forest),
            node,
            forest,
            later,
        );
    } else {
        lemma_then_end_later(f, node.digest, later);
    }
}

proof fn lemma_loop_later<E: SyncOps>(
    ops: E,
    s: GeneratorModel,
    node: LoopNode,
    forest: MastForest,
    condition: Felt,
    later: ReplayModel,
)
    requires
        s.well_formed(),
    ensures
        unaffected(
            loop_executed(ops, s, node, forest, condition),
            loop_executed(ops, s.with_later(later), node, forest, condition),
            later,
        ),
    decreases s.rows_left(), s.resolutions_left(), 1int,
{
    let t = s.with_later(later);
    lemma_loop_steps(ops, s, node, forest, condition);
    lemma_loop_steps(ops, t, node, forest, condition);
    if condition == felt(1) {
        lemma_start_advances(s, MastNode::Loop(node), forest);
        lemma_start_later(s, MastNode::Loop(node), forest, later);
        let f = repeat_row(s, node, forest);
        lemma_then_node_later(ops, s, f, node.body, forest, later);
        lemma_then_loop_later(
            ops,
            s,
            then_node(ops, f, node.body, forest),
            node,
            forest,
            later,
        );
    } else {
        lemma_end_later(s, node.digest, later);
    }
}

// FRAGMENTS

proof fn lemma_loop_resumed_later<E: SyncOps>(
    ops: E,
    s: GeneratorModel,
    node: LoopNode,
    forest: MastForest,
    later: ReplayModel,
)
    requires
        s.well_formed(),
    ensures
        unaffected(
            loop_resumed(ops, s, node, forest),
            loop_resumed(ops, s.with_later(later), node, forest),
            later,
        ),
{
    lemma_condition_later(s, later);
    lemma_condition_keeps(s);
    if let Some((condition, t)) = condition_taken(s) {
        lemma_loop_later(ops, t, node, forest, condition, later);
    }
}

proof fn lemma_end_resumed_later(s: GeneratorModel, node: MastNode, later: ReplayModel)
    ensures
        unaffected(end_resumed(s, node), end_resumed(s.with_later(later), node), later),
{
    broadcast use group_later;

}

proof fn lemma_resumption_later<E: SyncOps>(
    ops: E,
    s: GeneratorModel,
    state: NodeExecutionState,
    forest: MastForest,
    later: ReplayModel,
)
    requires
        s.well_formed(),
    ensures
        unaffected(
            node_resumed(ops, s, state, forest),
            node_resumed(ops, s.with_later(later), state, forest),
            later,
        ),
{
    let t = s.with_later(later);
    match state {
        NodeExecutionState::BasicBlock { node_id, batch_index, op_idx_in_batch } => {
            if forest.has(node_id) {
                if let MastNode::Block(node) = forest.node(node_id) {
                    let span = span_context_at(node, batch_index as int, op_idx_in_batch as int);
                    let begun = s.with_span(span);
                    assert(t.with_span(span) == begun.with_later(later));
                    lemma_batch_and_rest_later(
                        ops,
                        begun,
                        node,
                        batch_index as int,
                        op_idx_in_batch as int,
                        forest,
                        later,
                    );
                }
            }
        },
        NodeExecutionState::Start(node_id) => lemma_node_later(ops, s, node_id, forest, later),
        NodeExecutionState::Respan { node_id, batch_index } => {
            if forest.has(node_id) {
                if let MastNode::Block(node) = forest.node(node_id) {
                    let batches = node.spec_op_batches();
                    let span = Some(
                        BasicBlockContext {
                            group_ops_left: batches[batch_index as int]@.groups[0],
                            num_groups_left: felt(groups_from(batches, batch_index as int)),
                        },
                    );
                    let begun = s.with_span(span);
                    assert(t.with_span(span) == begun.with_later(later));
                    lemma_block_finished_later(
                        ops,
                        begun,
                        node,
                        batch_index as int,
                        forest,
                        later,
                    );
                }
            }
        },
        NodeExecutionState::LoopRepeat(node_id) => {
            if forest.has(node_id) {
                if let MastNode::Loop(node) = forest.node(node_id) {
                    lemma_loop_resumed_later(ops, s, node, forest, later);
                }
            }
        },
        NodeExecutionState::End(node_id) => {
            if forest.has(node_id) {
                lemma_end_resumed_later(s, forest.node(node_id), later);
            }
        },
    }
}

proof fn lemma_continuation_later<E: SyncOps>(
    ops: E,
    s: GeneratorModel,
    continuation: Continuation,
    forest: MastForest,
    later: ReplayModel,
)
    requires
        s.well_formed(),
    ensures
        unaffected(
            continuation_executed(ops, s, continuation, forest),
            continuation_executed(ops, s.with_later(later), continuation, forest),
            later,
        ),
{
    match continuation {
        Continuation::StartNode(id) => lemma_node_later(ops, s, id, forest, later),
        Continuation::FinishLoop(id) => {
            if forest.has(id) {
                if let MastNode::Loop(node) = forest.node(id) {
                    lemma_loop_resumed_later(ops, s, node, forest, later);
                }
            }
        },
        _ => {
            broadcast use group_later;

        },
    }
}

proof fn lemma_continued_later<E: SyncOps>(
    ops: E,
    s: GeneratorModel,
    forest: Arc<MastForest>,
    later: ReplayModel,
)
    requires
        s.well_formed(),
    ensures
        unaffected(
            continued(ops, s, forest),
            continued(ops, s.with_later(later), forest),
            later,
        ),
    decreases s.context.continuation.len(),
{
    if s.context.continuation.len() > 0 {
        let continuation = s.context.continuation.last();
        let s0 = continuation_taken(s);
        assert(continuation_taken(s.with_later(later)) == s0.with_later(later));
        lemma_continuation_later(ops, s0, continuation, shared(forest), later);
        lemma_continuation_advances(ops, s0, continuation, shared(forest));
        if let Flow::Continue(s1) = continuation_executed(ops, s0, continuation, shared(forest)) {
            let next = match continuation {
                Continuation::EnterForest(previous) => previous,
                _ => forest,
            };
            lemma_continued_later(ops, s1, next, later);
        }
    }
}

/// What generating a fragment leads to does not depend on what is recorded behind the answers that
/// it uses.
pub proof fn lemma_generated_later<E: SyncOps>(
    ops: E,
    s: GeneratorModel,
    state: NodeExecutionState,
    later: ReplayModel,
)
    requires
        s.well_formed(),
    ensures
        unaffected(generated(ops, s, state), generated(ops, s.with_later(later), state), later),
{
    let forest = s.context.initial_mast_forest;
    lemma_resumption_later(ops, s, state, shared(forest), later);
    lemma_resumption_advances(ops, s, state, shared(forest));
    if let Flow::Continue(s1) = node_resumed(ops, s, state, shared(forest)) {
        lemma_continued_later(ops, s1, forest, later);
    }
}

/// The context with later recordings behind its own.
pub open spec fn context_with_later(context: ContextModel, later: ReplayModel) -> ContextModel {
    ContextModel { replay: context.replay.followed_by(later), ..context }
}

/// A fragment that is generated from its own recordings is the same if the recordings of later
/// fragments come behind them.
pub proof fn law_later_recordings_not_used<E: SyncOps>(
    ops: E,
    context: ContextModel,
    later: ReplayModel,
    n: usize,
)
    requires
        context.stack.top.len() == MIN_STACK_DEPTH,
        context_generated(ops, context, n) !is Panic,
    ensures
        context_generated(ops, context_with_later(context, later), n) !is Panic,
        fragment_from(ops, context_with_later(context, later), n) == fragment_from(ops, context, n),
{
    reveal(context_generated);
    let s = initial_state(context, n);
    assert(initial_state(context_with_later(context, later), n) == s.with_later(later));
    lemma_generated_later(ops, s, context.initial_execution_state, later);
}

} // verus!
