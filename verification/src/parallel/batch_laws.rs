//! Where a fragment ends at the end of a batch of a basic block, the next one goes on with the
//! next batch, or with the end of the block.

use crate::block_stack::BasicBlockContext;
use crate::felt::felt;
use crate::felt::lemma_felt_of_view;
use crate::felt::lemma_felt_small;
use crate::felt::MODULUS;
use crate::layout::BATCH_SIZE;
use crate::mast::BasicBlockNode;
use crate::mast::MastForest;
use crate::mast::MastNode;
use crate::mast::MastNodeId;
use crate::mast::OpBatch;
use crate::mast::OpBatchModel;
use crate::parallel::execution::batches_executed;
use crate::parallel::execution::generated;
use crate::parallel::execution::groups_before;
use crate::parallel::execution::groups_consumed;
use crate::parallel::execution::groups_from;
use crate::parallel::execution::num_pushes;
use crate::parallel::execution::ops_executed;
use crate::parallel::execution::span_context_at;
use crate::parallel::execution::without_ops;
use crate::parallel::execution::SyncOps;
use crate::parallel::model::respanned;
use crate::parallel::model::row_added;
use crate::parallel::model::Flow;
use crate::parallel::model::GeneratorModel;
use crate::parallel::prefix_laws::lemma_rows_agree;
use crate::parallel::progress::law_fragment_rows;
use crate::parallel::progress::lemma_row_advances;
use crate::parallel::resume_laws::equivalent;
use crate::parallel::resume_laws::placed;
use crate::parallel::resume_laws::shared;
use crate::parallel::resume_laws::then_generated;
use crate::parallel::span_laws::law_groups_left_at_respan;
use crate::parallel::span_laws::lemma_group_of;
use crate::parallel::span_laws::lemma_groups_before;
use crate::parallel::span_laws::lemma_indptr_grows;
use crate::parallel::span_laws::lemma_pushes_nonnegative;
use crate::parallel::span_laws::op_finished;
use crate::pow2::next_pow2;
use crate::trace_state::NodeExecutionState;
use std::sync::Arc;
use vstd::prelude::*;

verus! {

/// After the row of the last operation of a basic block, its end is next.
pub proof fn law_last_operation_resumes<E: SyncOps>(
    ops: E,
    s: GeneratorModel,
    id: MastNodeId,
    node: BasicBlockNode,
    batch_index: usize,
    op_idx: usize,
    forest: Arc<MastForest>,
)
    requires
        s.well_formed(),
        s.context.initial_mast_forest == forest,
        shared(forest).has(id),
        shared(forest).node(id) == MastNode::Block(node),
        batch_index + 1 == node.spec_op_batches().len(),
        op_idx + 1 == node.spec_op_batches()[batch_index as int]@.ops.len(),
        span_context_at(node, batch_index as int, op_idx as int) is Some,
    ensures
        generated(
            ops,
            s,
            NodeExecutionState::BasicBlock {
                node_id: id,
                batch_index,
                op_idx_in_batch: op_idx,
            },
        ) == then_generated(
            ops,
            op_finished(
                ops,
                s.with_span(span_context_at(node, batch_index as int, op_idx as int)),
                node.spec_op_batches()[batch_index as int]@,
                op_idx as int,
                shared(forest),
            ),
            NodeExecutionState::End(id),
            s.context.continuation,
            forest,
        ),
{
    let batch = node.spec_op_batches()[batch_index as int]@;
    let begun = s.with_span(span_context_at(node, batch_index as int, op_idx as int));
    let f = op_finished(ops, begun, batch, op_idx as int, shared(forest));
    lemma_last_op(ops, begun, batch, op_idx as int, shared(forest));
    if let Flow::Continue(t) = f {
        lemma_op_stays(ops, begun, batch, op_idx as int, shared(forest));
        assert(placed(t, s.context.continuation, forest) =~= t);
        assert(batches_executed(
            ops,
            t,
            node.spec_op_batches(),
            batch_index + 1,
            shared(forest),
        ) == Flow::Continue(t));
    }
}

/// After the row of the last operation of a batch, the next batch is next, if the operations of
/// the batch use up its groups, every batch but the last is full and the number of groups of the
/// last is a power of two. Left out are blocks of 2^32 groups or more, whose groups are not
/// counted right.
pub proof fn law_batch_end_resumes<E: SyncOps>(
    ops: E,
    s: GeneratorModel,
    id: MastNodeId,
    node: BasicBlockNode,
    batch_index: usize,
    op_idx: usize,
    forest: Arc<MastForest>,
)
    requires
        s.well_formed(),
        s.context.initial_mast_forest == forest,
        shared(forest).has(id),
        shared(forest).node(id) == MastNode::Block(node),
        batch_index + 1 < node.spec_op_batches().len(),
        op_idx + 1 == node.spec_op_batches()[batch_index as int]@.ops.len(),
        node.spec_op_batches()[batch_index as int]@.well_formed(),
        span_context_at(node, batch_index as int, op_idx as int) is Some,
        groups_used_up(node, batch_index as int, op_idx as int),
        full_batches(node),
        node.spec_num_op_groups() <= u32::MAX,
    ensures
        equivalent(
            generated(
                ops,
                s,
                NodeExecutionState::BasicBlock {
                    node_id: id,
                    batch_index,
                    op_idx_in_batch: op_idx,
                },
            ),
            then_generated(
                ops,
                op_finished(
                    ops,
                    s.with_span(span_context_at(node, batch_index as int, op_idx as int)),
                    node.spec_op_batches()[batch_index as int]@,
                    op_idx as int,
                    shared(forest),
                ),
                NodeExecutionState::Respan { node_id: id, batch_index: (batch_index + 1) as usize },
                s.context.continuation,
                forest,
            ),
        ),
{
    let batches = node.spec_op_batches();
    let batch = batches[batch_index as int]@;
    let begun = s.with_span(span_context_at(node, batch_index as int, op_idx as int));
    let f = op_finished(ops, begun, batch, op_idx as int, shared(forest));
    let state = NodeExecutionState::BasicBlock {
        node_id: id,
        batch_index,
        op_idx_in_batch: op_idx,
    };
    lemma_last_op(ops, begun, batch, op_idx as int, shared(forest));
    lemma_generated_reflexive(ops, s, state);
    lemma_op_stays(ops, begun, batch, op_idx as int, shared(forest));
    if let Flow::Continue(t) = f {
        assert(placed(t, s.context.continuation, forest) =~= t);
        let next = batches[batch_index + 1]@;
        let span = BasicBlockContext {
            group_ops_left: next.groups[0],
            num_groups_left: felt(groups_from(batches, batch_index + 1)),
        };
        lemma_no_group_left(batch, op_idx as int);
        lemma_groups_left(node, batch_index as int, op_idx as int);
        assert(t.span_context.unwrap().num_groups_left == span.num_groups_left);
        lemma_respanned(t, span, next);
    }
}

/// After the row that starts a further batch of a basic block, the first operation of the batch is
/// next, if its first group holds operations, every batch but the last is full and the number of
/// groups of the last is a power of two. Left out are blocks of 2^32 groups or more, whose groups
/// are not counted right.
pub proof fn law_respan_resumes<E: SyncOps>(
    ops: E,
    s: GeneratorModel,
    id: MastNodeId,
    node: BasicBlockNode,
    batch_index: usize,
    forest: Arc<MastForest>,
)
    requires
        s.well_formed(),
        s.context.initial_mast_forest == forest,
        shared(forest).has(id),
        shared(forest).node(id) == MastNode::Block(node),
        0 < batch_index < node.spec_op_batches().len(),
        node.spec_op_batches()[batch_index as int]@.well_formed(),
        node.spec_op_batches()[batch_index as int]@.groups[0]@ < MODULUS,
        node.spec_op_batches()[batch_index as int]@.indptr[1] > 0,
        full_batches(node),
        node.spec_num_op_groups() <= u32::MAX,
    ensures
        ({
            let batches = node.spec_op_batches();
            let batch = batches[batch_index as int]@;
            generated(ops, s, NodeExecutionState::Respan { node_id: id, batch_index })
                == then_generated(
                ops,
                respanned(
                    s.with_span(
                        Some(
                            BasicBlockContext {
                                group_ops_left: batch.groups[0],
                                num_groups_left: felt(groups_from(batches, batch_index as int)),
                            },
                        ),
                    ),
                    batch,
                ),
                NodeExecutionState::BasicBlock { node_id: id, batch_index, op_idx_in_batch: 0 },
                s.context.continuation,
                forest,
            )
        }),
{
    let batches = node.spec_op_batches();
    let batch = batches[batch_index as int]@;
    let span = BasicBlockContext {
        group_ops_left: batch.groups[0],
        num_groups_left: felt(groups_from(batches, batch_index as int)),
    };
    lemma_span_at_batch(node, batch_index as int);
    if let Flow::Continue(t) = respanned(s.with_span(Some(span)), batch) {
        lemma_respan_stays(s.with_span(Some(span)), batch);
        assert(placed(t, s.context.continuation, forest) =~= t);
        assert(t.with_span(span_context_at(node, batch_index as int, 0)) =~= t);
    }
}

/// Whether every batch of a block but the last is full, and the number of groups of the last is a
/// power of two.
pub open spec fn full_batches(node: BasicBlockNode) -> bool {
    &&& forall|i: int|
        0 <= i < node.spec_op_batches().len() - 1 ==> (
        #[trigger] node.spec_op_batches()[i])@.num_groups == BATCH_SIZE
    &&& next_pow2(node.spec_op_batches().last()@.num_groups as int)
        == node.spec_op_batches().last()@.num_groups
}

/// Whether the operations of a batch up to one use up the groups of the block up to the next
/// batch.
pub open spec fn groups_used_up(node: BasicBlockNode, batch_index: int, op_idx: int) -> bool {
    let batches = node.spec_op_batches();
    groups_consumed(batches, batch_index, op_idx) + if batches[batch_index]@.ops[op_idx].imm_value
        is Some {
        1int
    } else {
        0int
    } == groups_before(batches, batch_index + 1)
}

/// What generating a fragment leads to is equivalent to itself.
proof fn lemma_generated_reflexive<E: SyncOps>(
    ops: E,
    s: GeneratorModel,
    state: NodeExecutionState,
)
    requires
        s.well_formed(),
    ensures
        equivalent(generated(ops, s, state), generated(ops, s, state)),
{
    broadcast use lemma_rows_agree;

    law_fragment_rows(ops, s, state);
}

/// The last operation of a batch is all that is left of the batch.
proof fn lemma_last_op<E: SyncOps>(
    ops: E,
    s: GeneratorModel,
    batch: OpBatchModel,
    op_idx: int,
    forest: MastForest,
)
    requires
        op_idx + 1 == batch.ops.len(),
    ensures
        ops_executed(ops, s, batch, op_idx, forest) == op_finished(ops, s, batch, op_idx, forest),
{
    reveal_with_fuel(ops_executed, 2);
}

/// An operation changes neither what remains after the current node nor the fragment.
proof fn lemma_op_stays<E: SyncOps>(
    ops: E,
    s: GeneratorModel,
    batch: OpBatchModel,
    op_idx: int,
    forest: MastForest,
)
    requires
        s.well_formed(),
        s.span_context is Some,
        0 <= op_idx,
        op_idx + 1 == batch.ops.len(),
    ensures
        match op_finished(ops, s, batch, op_idx, forest) {
            Flow::Continue(t) => {
                &&& t.well_formed()
                &&& t.context.continuation == s.context.continuation
                &&& t.context.initial_mast_forest == s.context.initial_mast_forest
                &&& batch.op_group_from(batch.group_of(op_idx) + 1) is None ==> t.span_context
                    == Some(
                    BasicBlockContext {
                        group_ops_left: felt(s.span_context.unwrap().group_ops_left@ as int / 0x80),
                        num_groups_left: if batch.ops[op_idx].imm_value is Some {
                            felt(s.span_context.unwrap().num_groups_left@ - 1)
                        } else {
                            s.span_context.unwrap().num_groups_left
                        },
                    },
                )
            },
            _ => true,
        },
{
    reveal(row_added);
    ops.lemma_frame(s, batch.ops[op_idx], forest);
}

/// No group that holds operations comes after the last operation of a batch.
proof fn lemma_no_group_left(batch: OpBatchModel, op_idx: int)
    requires
        batch.well_formed(),
        0 <= op_idx,
        op_idx + 1 == batch.ops.len(),
    ensures
        batch.op_group_from(batch.group_of(op_idx) + 1) is None,
{
    lemma_group_of(batch, op_idx, 0);
    let group = batch.group_of(op_idx);
    lemma_indptr_grows(batch, group + 1, batch.num_groups as int);
    lemma_rest_empty(batch, group + 1);
}

proof fn lemma_rest_empty(batch: OpBatchModel, g: int)
    requires
        batch.well_formed(),
        0 <= g <= batch.num_groups,
        batch.indptr[g] == batch.ops.len(),
    ensures
        batch.op_group_from(g) is None,
    decreases batch.num_groups - g,
{
    if g < batch.num_groups {
        lemma_indptr_grows(batch, g + 1, batch.num_groups as int);
        assert(batch.indptr[g] <= batch.indptr[g + 1]);
        lemma_rest_empty(batch, g + 1);
    }
}

/// What is left of the groups of a block after the last operation of a batch.
proof fn lemma_groups_left(node: BasicBlockNode, batch_index: int, op_idx: int)
    requires
        0 <= batch_index,
        batch_index + 1 < node.spec_op_batches().len(),
        node.spec_op_batches()[batch_index]@.well_formed(),
        span_context_at(node, batch_index, op_idx) is Some,
        groups_used_up(node, batch_index, op_idx),
        full_batches(node),
        node.spec_num_op_groups() <= u32::MAX,
    ensures
        ({
            let batches = node.spec_op_batches();
            let op = batches[batch_index]@.ops[op_idx];
            let left = span_context_at(node, batch_index, op_idx).unwrap().num_groups_left;
            felt(groups_from(batches, batch_index + 1)) == if op.imm_value is Some {
                felt(left@ - 1)
            } else {
                left
            }
        }),
{
    let batches = node.spec_op_batches();
    let consumed = groups_consumed(batches, batch_index, op_idx);
    law_groups_left_at_respan(node, batch_index + 1);
    lemma_groups_before(batches, batch_index);
    lemma_group_of(batches[batch_index]@, op_idx, 0);
    lemma_pushes_nonnegative(
        batches[batch_index]@.groups[batches[batch_index]@.group_of(op_idx)]@ as int,
        batches[batch_index]@.idx_in_group(op_idx),
    );
    lemma_felt_small(node.spec_num_op_groups() - consumed);
}

/// The row that starts a further batch does not depend on what is left of the group before.
proof fn lemma_respanned(s: GeneratorModel, span: BasicBlockContext, batch: OpBatchModel)
    requires
        s.well_formed(),
        s.span_context matches Some(c) && c.num_groups_left == span.num_groups_left,
    ensures
        match (respanned(s, batch), respanned(s.with_span(Some(span)), batch)) {
            (Flow::Continue(x), Flow::Continue(y)) => x == y,
            (Flow::Break(x), Flow::Break(y)) => equivalent(Flow::Break(x), Flow::Break(y)),
            (Flow::Panic, Flow::Panic) => true,
            _ => false,
        },
{
    broadcast use {lemma_row_advances, lemma_rows_agree};

    reveal(row_added);
    if let Flow::Continue(x) = respanned(s, batch) {
        let y = respanned(s.with_span(Some(span)), batch)->Continue_0;
        assert(x =~= y);
    }
}

/// How far the decoding of a block has come when one of its batches has started.
proof fn lemma_span_at_batch(node: BasicBlockNode, batch_index: int)
    requires
        0 <= batch_index < node.spec_op_batches().len(),
        node.spec_op_batches()[batch_index]@.well_formed(),
        node.spec_op_batches()[batch_index]@.groups[0]@ < MODULUS,
        node.spec_op_batches()[batch_index]@.indptr[1] > 0,
        full_batches(node),
        node.spec_num_op_groups() <= u32::MAX,
    ensures
        span_context_at(node, batch_index, 0) == Some(
            BasicBlockContext {
                group_ops_left: node.spec_op_batches()[batch_index]@.groups[0],
                num_groups_left: felt(
                    felt(groups_from(node.spec_op_batches(), batch_index))@ - 1,
                ),
            },
        ),
{
    let batches = node.spec_op_batches();
    let batch = batches[batch_index]@;
    law_groups_left_at_respan(node, batch_index);
    lemma_groups_before(batches, batch_index);
    lemma_some_group_left(batches, batch_index);
    lemma_indptr_grows(batch, 1, batch.num_groups as int);
    assert(batch.group_of(0) == 0);
    assert(num_pushes(batch.groups[0]@ as int, 0) == 0);
    assert(without_ops(batch.groups[0]@ as int, 0) == batch.groups[0]@);
    lemma_felt_of_view(batch.groups[0]);
    lemma_felt_small(groups_from(batches, batch_index));
    assert(groups_consumed(batches, batch_index, 0) == groups_before(batches, batch_index) + 1);
}

proof fn lemma_some_group_left(batches: Seq<OpBatch>, i: int)
    requires
        0 <= i < batches.len(),
        batches[i]@.well_formed(),
    ensures
        groups_from(batches, i) >= 1,
{
    lemma_groups_from(batches, i + 1);
}

proof fn lemma_groups_from(batches: Seq<OpBatch>, i: int)
    ensures
        groups_from(batches, i) >= 0,
    decreases batches.len() - i,
{
    if 0 <= i < batches.len() {
        lemma_groups_from(batches, i + 1);
    }
}

/// The start of a further batch changes neither what remains after the current node nor the
/// fragment.
proof fn lemma_respan_stays(s: GeneratorModel, batch: OpBatchModel)
    requires
        s.well_formed(),
        s.span_context is Some,
    ensures
        respanned(s, batch) matches Flow::Continue(t) ==> {
            &&& t.well_formed()
            &&& t.context.continuation == s.context.continuation
            &&& t.context.initial_mast_forest == s.context.initial_mast_forest
            &&& t.span_context == Some(
                BasicBlockContext {
                    group_ops_left: batch.groups[0],
                    num_groups_left: felt(s.span_context.unwrap().num_groups_left@ - 1),
                },
            )
        },
{
    broadcast use lemma_row_advances;

}

} // verus!
