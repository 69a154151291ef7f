//! What every step of the generation keeps, and how it advances.

use crate::block_stack::BasicBlockContext;
use crate::continuation::Continuation;
use crate::felt::felt;
use crate::felt::Felt;
use crate::layout::CLK_COL_IDX;
use crate::layout::CORE_TRACE_WIDTH;
use crate::layout::STACK_TRACE_OFFSET;
use crate::mast::BasicBlockNode;
use crate::mast::CallNode;
use crate::mast::DynNode;
use crate::mast::JoinNode;
use crate::mast::LoopNode;
use crate::mast::MastForest;
use crate::mast::MastNode;
use crate::mast::MastNodeId;
use crate::mast::OpBatch;
use crate::mast::OpBatchModel;
use crate::mast::SplitNode;
use crate::parallel::execution::batches_executed;
use crate::parallel::execution::block_executed;
use crate::parallel::execution::block_finished;
use crate::parallel::execution::call_started;
use crate::parallel::execution::callee_found;
use crate::parallel::execution::continuation_executed;
use crate::parallel::execution::continuation_taken;
use crate::parallel::execution::continued;
use crate::parallel::execution::dyn_callee;
use crate::parallel::execution::dyn_ended;
use crate::parallel::execution::dyn_started;
use crate::parallel::execution::end_resumed;
use crate::parallel::execution::generated;
use crate::parallel::execution::group_advanced;
use crate::parallel::execution::groups_from;
use crate::parallel::execution::join_started;
use crate::parallel::execution::lemma_loop_node_unfold;
use crate::parallel::execution::lemma_loop_unfold;
use crate::parallel::execution::loop_executed;
use crate::parallel::execution::loop_resumed;
use crate::parallel::execution::loop_started;
use crate::parallel::execution::node_executed;
use crate::parallel::execution::node_resumed;
use crate::parallel::execution::op_executed;
use crate::parallel::execution::ops_executed;
use crate::parallel::execution::resolution_taken;
use crate::parallel::execution::span_context_at;
use crate::parallel::execution::split_started;
use crate::parallel::execution::OpOutcome;
use crate::parallel::execution::SyncOps;
use crate::parallel::model::condition_taken;
use crate::parallel::model::context_ended;
use crate::parallel::model::end_added;
use crate::parallel::model::node_started;
use crate::parallel::model::operation_row;
use crate::parallel::model::repeat_row;
use crate::parallel::model::respanned;
use crate::parallel::model::row_added;
use crate::parallel::model::span_end_added;
use crate::parallel::model::span_row;
use crate::parallel::model::DecoderRow;
use crate::parallel::model::Flow;
use crate::parallel::model::GeneratorModel;
use crate::trace_state::NodeExecutionState;
use crate::word::Word;
use std::sync::Arc;
use vstd::prelude::*;

verus! {

/// Whether the first rows of two sets of columns are the same.
#[verifier::opaque]
pub open spec fn same_rows(a: Seq<Seq<Felt>>, b: Seq<Seq<Felt>>, rows: int) -> bool {
    forall|c: int, i: int|
        0 <= c < CORE_TRACE_WIDTH && 0 <= i < rows ==> #[trigger] a[c][i] == #[trigger] b[c][i]
}

/// Columns have the same rows as themselves.
pub broadcast proof fn lemma_same_rows(a: Seq<Seq<Felt>>, rows: int)
    ensures
        #[trigger] same_rows(a, a, rows),
{
    reveal(same_rows);
}

/// Columns that have the same rows as others have the same rows as third ones that have the same
/// rows, and perhaps more, as those.
pub broadcast proof fn lemma_same_rows_in_sequence(
    a: Seq<Seq<Felt>>,
    b: Seq<Seq<Felt>>,
    c: Seq<Seq<Felt>>,
    m: int,
    n: int,
)
    requires
        #[trigger] same_rows(a, b, m),
        #[trigger] same_rows(b, c, n),
        m <= n,
    ensures
        same_rows(a, c, m),
{
    reveal(same_rows);
    assert forall|k: int, i: int| 0 <= k < CORE_TRACE_WIDTH && 0 <= i < m implies #[trigger] a[k][i]
        == #[trigger] c[k][i] by {
        assert(a[k][i] == b[k][i]);
        assert(b[k][i] == c[k][i]);
    }
}

/// Whether the cells of a row from a column on are the given ones, if any are given.
pub open spec fn cells_shown(
    columns: Seq<Seq<Felt>>,
    first: int,
    row: int,
    cells: Option<Seq<Felt>>,
) -> bool {
    cells matches Some(values) ==> forall|c: int|
        0 <= c < values.len() && first + c < CORE_TRACE_WIDTH ==> #[trigger] columns[first
            + c][row] == values[c]
}

/// Whether the system and the stack columns of a row show the given cells.
#[verifier::opaque]
pub open spec fn row_shows(
    columns: Seq<Seq<Felt>>,
    row: int,
    system: Option<Seq<Felt>>,
    stack: Option<Seq<Felt>>,
) -> bool {
    &&& 0 <= row
    &&& cells_shown(columns, 0, row, system)
    &&& cells_shown(columns, STACK_TRACE_OFFSET as int, row, stack)
}

/// Columns with the same rows show the same cells.
pub broadcast proof fn lemma_row_shows_in_sequence(
    a: Seq<Seq<Felt>>,
    b: Seq<Seq<Felt>>,
    row: int,
    n: int,
    system: Option<Seq<Felt>>,
    stack: Option<Seq<Felt>>,
)
    requires
        #[trigger] row_shows(a, row, system, stack),
        #[trigger] same_rows(a, b, n),
        row < n,
    ensures
        row_shows(b, row, system, stack),
{
    reveal(same_rows);
    reveal(row_shows);
    if let Some(values) = system {
        assert forall|c: int|
            0 <= c < values.len() && 0 + c < CORE_TRACE_WIDTH implies #[trigger] b[0 + c][row]
            == values[c] by {
            assert(a[0 + c][row] == values[c]);
        }
    }
    if let Some(values) = stack {
        assert forall|c: int|
            0 <= c < values.len() && STACK_TRACE_OFFSET + c < CORE_TRACE_WIDTH implies
            #[trigger] b[STACK_TRACE_OFFSET + c][row] == values[c] by {
            assert(a[STACK_TRACE_OFFSET + c][row] == values[c]);
        }
    }
}

/// Whether the cells that a state has for its next row are still there, or shown in that row, so
/// that there are others for the row after, which show its clock cycle.
pub open spec fn cells_kept(s: GeneratorModel, t: GeneratorModel) -> bool {
    if t.rows_built() == s.rows_built() {
        t.system_rows == s.system_rows && t.stack_rows == s.stack_rows
    } else {
        &&& row_shows(t.columns, s.rows_built(), s.system_rows, s.stack_rows)
        &&& t.system_rows is Some
        &&& t.system_rows.unwrap()[CLK_COL_IDX as int] == felt(t.context.system.clk as int)
        &&& t.stack_rows is Some
    }
}

/// Whether a state may follow another: the fragment and what remains after the current node are
/// the same, no row is taken back or changed, and the next row of the first shows the cells that
/// the first has for it.
pub open spec fn kept(s: GeneratorModel, t: GeneratorModel) -> bool {
    &&& t.fragment_start_clk == s.fragment_start_clk
    &&& t.fragment_size == s.fragment_size
    &&& t.context.continuation == s.context.continuation
    &&& t.context.initial_mast_forest == s.context.initial_mast_forest
    &&& t.context.initial_execution_state == s.context.initial_execution_state
    &&& t.rows_built() >= s.rows_built()
    &&& same_rows(s.columns, t.columns, s.rows_built())
    &&& cells_kept(s, t)
    &&& t.well_formed()
}

/// Whether every state that a step leads to may follow the given one. A step that breaks off has
/// filled the fragment; one that has written rows and continues has not.
pub open spec fn keeps(s: GeneratorModel, f: Flow) -> bool {
    match f {
        Flow::Continue(t) => {
            &&& kept(s, t)
            &&& t.rows_built() > s.rows_built() ==> t.rows_built() < t.fragment_size
        },
        Flow::Break(t) => {
            &&& kept(s, t)
            &&& t.rows_built() > s.rows_built()
            &&& t.rows_built() == t.fragment_size
        },
        Flow::Panic => true,
    }
}

/// Whether a step moreover writes at least one row.
pub open spec fn advances(s: GeneratorModel, f: Flow) -> bool {
    &&& keeps(s, f)
    &&& f matches Flow::Continue(t) ==> t.rows_built() > s.rows_built()
}

/// Adding a row advances by that row.
pub broadcast proof fn lemma_row_advances(s: GeneratorModel, row: DecoderRow)
    requires
        s.well_formed(),
    ensures
        advances(s, #[trigger] row_added(s, row)),
        row_added(s, row) matches Flow::Continue(t) ==> t.rows_built() == s.rows_built() + 1,
        row_added(s, row) matches Flow::Break(t) ==> t.rows_built() == s.rows_built() + 1,
{
    reveal(row_added);
    reveal(same_rows);
    reveal(row_shows);
}

/// The operations of a batch keep what every step keeps.
pub proof fn lemma_ops_keep<E: SyncOps>(
    ops: E,
    s: GeneratorModel,
    batch: OpBatchModel,
    op_idx: int,
    forest: MastForest,
)
    requires
        s.well_formed(),
    ensures
        keeps(s, ops_executed(ops, s, batch, op_idx, forest)),
        op_idx < batch.ops.len() ==> advances(s, ops_executed(ops, s, batch, op_idx, forest)),
    decreases batch.ops.len() - op_idx,
{
    broadcast use {
        lemma_row_advances,
        lemma_row_shows_in_sequence,
        lemma_same_rows,
        lemma_same_rows_in_sequence,
    };

    if op_idx < batch.ops.len() {
        let op = batch.ops[op_idx];
        ops.lemma_frame(s, op, forest);
        if let OpOutcome::Done(s1, helpers) = op_executed(ops, s, op, forest) {
            assert(kept(s, s1) && s1.rows_built() == s.rows_built());
            if let Flow::Continue(s2) = operation_row(
                s1,
                op,
                batch.idx_in_group(op_idx),
                helpers,
            ) {
                if let Flow::Continue(s3) = group_advanced(
                    s2,
                    batch,
                    op_idx,
                ) {
                    lemma_ops_keep(ops, s3, batch, op_idx + 1, forest);
                }
            }
        }
    }
}

/// The batches of a block keep what every step keeps.
pub proof fn lemma_batches_keep<E: SyncOps>(
    ops: E,
    s: GeneratorModel,
    batches: Seq<OpBatch>,
    i: int,
    forest: MastForest,
)
    requires
        s.well_formed(),
    ensures
        keeps(s, batches_executed(ops, s, batches, i, forest)),
    decreases batches.len() - i,
{
    broadcast use {
        lemma_row_advances,
        lemma_row_shows_in_sequence,
        lemma_same_rows,
        lemma_same_rows_in_sequence,
    };

    if i < batches.len() {
        if let Flow::Continue(s1) = respanned(s, batches[i]@) {
            lemma_ops_keep(ops, s1, batches[i]@, 0, forest);
            if let Flow::Continue(s2) = ops_executed(ops, s1, batches[i]@, 0, forest) {
                lemma_batches_keep(ops, s2, batches, i + 1, forest);
            }
        }
    }
}

/// The end of a block advances.
pub proof fn lemma_block_finishes<E: SyncOps>(
    ops: E,
    s: GeneratorModel,
    node: BasicBlockNode,
    i: int,
    forest: MastForest,
)
    requires
        s.well_formed(),
    ensures
        advances(s, block_finished(ops, s, node, i, forest)),
{
    broadcast use {
        lemma_row_advances,
        lemma_row_shows_in_sequence,
        lemma_same_rows,
        lemma_same_rows_in_sequence,
    };

    lemma_batches_keep(ops, s, node.spec_op_batches(), i, forest);
}

/// A basic block advances.
pub proof fn lemma_block_advances<E: SyncOps>(
    ops: E,
    s: GeneratorModel,
    node: BasicBlockNode,
    forest: MastForest,
)
    requires
        s.well_formed(),
    ensures
        advances(s, block_executed(ops, s, node, forest)),
{
    broadcast use {
        lemma_row_advances,
        lemma_row_shows_in_sequence,
        lemma_same_rows,
        lemma_same_rows_in_sequence,
    };

    let first = node.spec_op_batches()[0]@;
    let num_groups = felt(node.spec_num_op_groups() % 0x1_0000_0000);
    if let Some(s0) = node_started(s) {
        if let Flow::Continue(s1) = span_row(s0, first, num_groups) {
            let s2 = s1.with_span(
                Some(
                    BasicBlockContext {
                        group_ops_left: first.groups[0],
                        num_groups_left: felt(num_groups@ - 1),
                    },
                ),
            );
            lemma_ops_keep(ops, s2, first, 0, forest);
            if let Flow::Continue(s3) = ops_executed(ops, s2, first, 0, forest) {
                lemma_block_finishes(ops, s3, node, 1, forest);
            }
        }
    }
}

/// The end of a node advances.
pub proof fn lemma_end_advances(s: GeneratorModel, digest: Word)
    requires
        s.well_formed(),
    ensures
        advances(s, end_added(s, digest)),
        advances(s, span_end_added(s, digest)),
        advances(s, context_ended(s, digest)),
{
    broadcast use {
        lemma_row_advances,
        lemma_row_shows_in_sequence,
        lemma_same_rows,
        lemma_same_rows_in_sequence,
    };

}

/// The start of a node that is not external advances.
pub proof fn lemma_start_advances(s: GeneratorModel, node: MastNode, forest: MastForest)
    requires
        s.well_formed(),
    ensures
        node matches MastNode::Join(n) ==> advances(s, join_started(s, n, forest)),
        node matches MastNode::Split(n) ==> advances(s, split_started(s, n, forest)),
        node matches MastNode::Loop(n) ==> advances(s, loop_started(s, n, forest)),
        node matches MastNode::Loop(n) ==> advances(s, repeat_row(s, n, forest)),
        node matches MastNode::Call(n) ==> advances(s, call_started(s, n, forest)),
        node matches MastNode::Dyn(n) ==> advances(s, dyn_started(s, n)),
{
    broadcast use {
        lemma_row_advances,
        lemma_row_shows_in_sequence,
        lemma_same_rows,
        lemma_same_rows_in_sequence,
    };

}

/// Taking a condition off the stack keeps what every step keeps.
pub proof fn lemma_condition_keeps(s: GeneratorModel)
    requires
        s.well_formed(),
    ensures
        condition_taken(s) matches Some((_, t)) ==> kept(s, t) && t.rows_built() == s.rows_built(),
{
    broadcast use lemma_same_rows;

}

/// A step after another keeps what both keep, and advances if either does.
pub proof fn lemma_in_sequence(s: GeneratorModel, t: GeneratorModel, f: Flow)
    requires
        kept(s, t),
        keeps(t, f),
        t.rows_built() > s.rows_built() ==> t.rows_built() < t.fragment_size,
    ensures
        keeps(s, f),
        t.rows_built() > s.rows_built() || advances(t, f) ==> advances(s, f),
{
    broadcast use {lemma_row_shows_in_sequence, lemma_same_rows_in_sequence};

}

proof fn lemma_join_advances<E: SyncOps>(
    ops: E,
    s: GeneratorModel,
    id: MastNodeId,
    node: JoinNode,
    forest: MastForest,
)
    requires
        s.well_formed(),
        forest.has(id),
        forest.node(id) == MastNode::Join(node),
    ensures
        advances(s, node_executed(ops, s, id, forest)),
    decreases s.rows_left(), s.resolutions_left(), 0int,
{
    reveal(node_executed);
    lemma_start_advances(s, forest.node(id), forest);
    if let Flow::Continue(s1) = join_started(s, node, forest) {
        lemma_node_advances(ops, s1, node.first, forest);
        let f1 = node_executed(ops, s1, node.first, forest);
        lemma_in_sequence(s, s1, f1);
        if let Flow::Continue(s2) = f1 {
            lemma_node_advances(ops, s2, node.second, forest);
            let f2 = node_executed(ops, s2, node.second, forest);
            lemma_in_sequence(s, s2, f2);
            if let Flow::Continue(s3) = f2 {
                lemma_end_advances(s3, node.digest);
                lemma_in_sequence(s, s3, end_added(s3, node.digest));
            }
        }
    }
}

proof fn lemma_split_advances<E: SyncOps>(
    ops: E,
    s: GeneratorModel,
    id: MastNodeId,
    node: SplitNode,
    forest: MastForest,
)
    requires
        s.well_formed(),
        forest.has(id),
        forest.node(id) == MastNode::Split(node),
    ensures
        advances(s, node_executed(ops, s, id, forest)),
    decreases s.rows_left(), s.resolutions_left(), 0int,
{
    reveal(node_executed);
    lemma_start_advances(s, forest.node(id), forest);
    if let Flow::Continue(s1) = split_started(s, node, forest) {
        let branch = if s.item(0) == felt(1) {
            node.on_true
        } else {
            node.on_false
        };
        lemma_node_advances(ops, s1, branch, forest);
        let f1 = node_executed(ops, s1, branch, forest);
        lemma_in_sequence(s, s1, f1);
        if let Flow::Continue(s2) = f1 {
            lemma_end_advances(s2, node.digest);
            lemma_in_sequence(s, s2, end_added(s2, node.digest));
        }
    }
}

proof fn lemma_loop_node_advances<E: SyncOps>(
    ops: E,
    s: GeneratorModel,
    id: MastNodeId,
    node: LoopNode,
    forest: MastForest,
)
    requires
        s.well_formed(),
        forest.has(id),
        forest.node(id) == MastNode::Loop(node),
    ensures
        advances(s, node_executed(ops, s, id, forest)),
    decreases s.rows_left(), s.resolutions_left(), 0int,
{
    if node_executed(ops, s, id, forest) !is Panic {
        lemma_loop_node_unfold(ops, s, id, node, forest);
        lemma_start_advances(s, forest.node(id), forest);
        if let Flow::Continue(s1) = loop_started(s, node, forest) {
            if s.item(0) == felt(1) {
                lemma_node_advances(ops, s1, node.body, forest);
                let f1 = node_executed(ops, s1, node.body, forest);
                lemma_in_sequence(s, s1, f1);
                if let Flow::Continue(s2) = f1 {
                    lemma_condition_keeps(s2);
                    if let Some((condition, s3)) = condition_taken(s2) {
                        lemma_loop_advances(ops, s3, node, forest, condition);
                        lemma_in_sequence(s, s3, loop_executed(ops, s3, node, forest, condition));
                    }
                }
            } else {
                lemma_end_advances(s1, node.digest);
                lemma_in_sequence(s, s1, end_added(s1, node.digest));
            }
        }
    }
}

proof fn lemma_call_advances<E: SyncOps>(
    ops: E,
    s: GeneratorModel,
    id: MastNodeId,
    node: CallNode,
    forest: MastForest,
)
    requires
        s.well_formed(),
        forest.has(id),
        forest.node(id) == MastNode::Call(node),
    ensures
        advances(s, node_executed(ops, s, id, forest)),
    decreases s.rows_left(), s.resolutions_left(), 0int,
{
    reveal(node_executed);
    lemma_start_advances(s, forest.node(id), forest);
    if let Flow::Continue(s1) = call_started(s, node, forest) {
        lemma_node_advances(ops, s1, node.callee, forest);
        let f1 = node_executed(ops, s1, node.callee, forest);
        lemma_in_sequence(s, s1, f1);
        if let Flow::Continue(s2) = f1 {
            lemma_end_advances(s2, node.digest);
            lemma_in_sequence(s, s2, context_ended(s2, node.digest));
        }
    }
}

proof fn lemma_dyn_advances<E: SyncOps>(
    ops: E,
    s: GeneratorModel,
    id: MastNodeId,
    node: DynNode,
    forest: MastForest,
)
    requires
        s.well_formed(),
        forest.has(id),
        forest.node(id) == MastNode::Dyn(node),
    ensures
        advances(s, node_executed(ops, s, id, forest)),
    decreases s.rows_left(), s.resolutions_left(), 0int,
{
    reveal(node_executed);
    lemma_start_advances(s, forest.node(id), forest);
    if let Flow::Continue(s1) = dyn_started(s, node) {
        if let Some((callee_id, callee_forest, s2)) = callee_found(s1, dyn_callee(s), forest) {
            assert(kept(s, s2) && s2.rows_built() == s1.rows_built());
            lemma_node_advances(ops, s2, callee_id, callee_forest);
            let f1 = node_executed(ops, s2, callee_id, callee_forest);
            lemma_in_sequence(s, s2, f1);
            if let Flow::Continue(s3) = f1 {
                lemma_end_advances(s3, node.digest);
                lemma_in_sequence(s, s3, dyn_ended(s3, node));
            }
        }
    }
}

/// A node advances: it writes at least one row, and leaves the fragment and what remains after it
/// as they are.
pub proof fn lemma_node_advances<E: SyncOps>(
    ops: E,
    s: GeneratorModel,
    id: MastNodeId,
    forest: MastForest,
)
    requires
        s.well_formed(),
    ensures
        advances(s, node_executed(ops, s, id, forest)),
    decreases s.rows_left(), s.resolutions_left(), 1int,
{
    broadcast use lemma_same_rows;

    reveal(node_executed);
    if forest.has(id) {
        match forest.node(id) {
            MastNode::Block(node) => {
                lemma_block_advances(ops, s, node, forest);
            },
            MastNode::Join(node) => {
                lemma_join_advances(ops, s, id, node, forest);
            },
            MastNode::Split(node) => {
                lemma_split_advances(ops, s, id, node, forest);
            },
            MastNode::Loop(node) => {
                lemma_loop_node_advances(ops, s, id, node, forest);
            },
            MastNode::Call(node) => {
                lemma_call_advances(ops, s, id, node, forest);
            },
            MastNode::Dyn(node) => {
                lemma_dyn_advances(ops, s, id, node, forest);
            },
            MastNode::External(_) => {
                if let Some((resolved_id, resolved_forest, s1)) = resolution_taken(s) {
                    lemma_node_advances(ops, s1, resolved_id, resolved_forest);
                    lemma_in_sequence(
                        s,
                        s1,
                        node_executed(ops, s1, resolved_id, resolved_forest),
                    );
                }
            },
        }
    }
}

/// The repetition of a loop advances.
pub proof fn lemma_loop_advances<E: SyncOps>(
    ops: E,
    s: GeneratorModel,
    node: LoopNode,
    forest: MastForest,
    condition: Felt,
)
    requires
        s.well_formed(),
    ensures
        advances(s, loop_executed(ops, s, node, forest, condition)),
    decreases s.rows_left(), s.resolutions_left(), 0int,
{
    lemma_loop_unfold(ops, s, node, forest, condition);
    if condition != felt(1) {
        lemma_end_advances(s, node.digest);
    } else if loop_executed(ops, s, node, forest, condition) !is Panic {
        lemma_start_advances(s, MastNode::Loop(node), forest);
        if let Flow::Continue(s1) = repeat_row(s, node, forest) {
            lemma_node_advances(ops, s1, node.body, forest);
            let f1 = node_executed(ops, s1, node.body, forest);
            lemma_in_sequence(s, s1, f1);
            if let Flow::Continue(s2) = f1 {
                lemma_condition_keeps(s2);
                if let Some((next_condition, s3)) = condition_taken(s2) {
                    lemma_loop_advances(ops, s3, node, forest, next_condition);
                    lemma_in_sequence(s, s3, loop_executed(ops, s3, node, forest, next_condition));
                }
            }
        }
    }
}

/// Finishing the node in the midst of which a fragment begins advances.
pub proof fn lemma_resumption_advances<E: SyncOps>(
    ops: E,
    s: GeneratorModel,
    state: NodeExecutionState,
    forest: MastForest,
)
    requires
        s.well_formed(),
    ensures
        advances(s, node_resumed(ops, s, state, forest)),
{
    broadcast use {
        lemma_row_advances,
        lemma_row_shows_in_sequence,
        lemma_same_rows,
        lemma_same_rows_in_sequence,
    };

    match state {
        NodeExecutionState::BasicBlock { node_id, batch_index, op_idx_in_batch } => {
            if let MastNode::Block(node) = forest.node(node_id) {
                let span = span_context_at(
                    node,
                    batch_index as int,
                    op_idx_in_batch as int,
                );
                if span is Some {
                    let batch = node.spec_op_batches()[batch_index as int]@;
                    lemma_ops_keep(ops, s.with_span(span), batch, op_idx_in_batch as int, forest);
                    if let Flow::Continue(s1) = ops_executed(
                        ops,
                        s.with_span(span),
                        batch,
                        op_idx_in_batch as int,
                        forest,
                    ) {
                        lemma_block_finishes(ops, s1, node, batch_index + 1, forest);
                    }
                }
            }
        },
        NodeExecutionState::Start(node_id) => {
            lemma_node_advances(ops, s, node_id, forest);
        },
        NodeExecutionState::Respan { node_id, batch_index } => {
            if let MastNode::Block(node) = forest.node(node_id) {
                let batches = node.spec_op_batches();
                let span = BasicBlockContext {
                    group_ops_left: batches[batch_index as int]@.groups[0],
                    num_groups_left: felt(
                        groups_from(batches, batch_index as int),
                    ),
                };
                lemma_block_finishes(
                    ops,
                    s.with_span(Some(span)),
                    node,
                    batch_index as int,
                    forest,
                );
            }
        },
        NodeExecutionState::LoopRepeat(node_id) => {
            if let MastNode::Loop(node) = forest.node(node_id) {
                lemma_loop_resumption_advances(ops, s, node, forest);
            }
        },
        NodeExecutionState::End(node_id) => {
            lemma_end_resumption_advances(s, forest.node(node_id));
        },
    }
}

proof fn lemma_loop_resumption_advances<E: SyncOps>(
    ops: E,
    s: GeneratorModel,
    node: LoopNode,
    forest: MastForest,
)
    requires
        s.well_formed(),
    ensures
        advances(s, loop_resumed(ops, s, node, forest)),
{
    lemma_condition_keeps(s);
    if let Some((condition, s1)) = condition_taken(s) {
        lemma_loop_advances(ops, s1, node, forest, condition);
    }
}

proof fn lemma_end_resumption_advances(s: GeneratorModel, node: MastNode)
    requires
        s.well_formed(),
    ensures
        advances(s, end_resumed(s, node)),
{
    broadcast use {
        lemma_row_advances,
        lemma_row_shows_in_sequence,
        lemma_same_rows,
        lemma_same_rows_in_sequence,
    };

    lemma_end_advances(s, node.spec_digest());
}

/// A remaining step that is not the entry into a forest advances.
pub proof fn lemma_continuation_advances<E: SyncOps>(
    ops: E,
    s: GeneratorModel,
    continuation: Continuation,
    forest: MastForest,
)
    requires
        s.well_formed(),
    ensures
        keeps(s, continuation_executed(ops, s, continuation, forest)),
        continuation !is EnterForest ==> advances(
            s,
            continuation_executed(ops, s, continuation, forest),
        ),
{
    broadcast use lemma_same_rows;

    match continuation {
        Continuation::StartNode(id) => {
            lemma_node_advances(ops, s, id, forest);
        },
        Continuation::FinishJoin(id) => {
            lemma_end_advances(s, forest.node(id).spec_digest());
        },
        Continuation::FinishSplit(id) => {
            lemma_end_advances(s, forest.node(id).spec_digest());
        },
        Continuation::FinishLoop(id) => {
            if let MastNode::Loop(node) = forest.node(id) {
                lemma_loop_resumption_advances(ops, s, node, forest);
            }
        },
        Continuation::FinishCall(id) => {
            lemma_end_advances(s, forest.node(id).spec_digest());
        },
        Continuation::FinishDyn(id) => {
            if let MastNode::Dyn(node) = forest.node(id) {
                lemma_end_advances(s, node.digest);
            }
        },
        Continuation::EnterForest(_) => {},
    }
}

/// Whether a state has the rows of another one, and in the next row the cells that the other has
/// for it.
pub open spec fn rows_stay(s: GeneratorModel, t: GeneratorModel) -> bool {
    &&& s.fragment_start_clk == t.fragment_start_clk
    &&& s.fragment_size == t.fragment_size
    &&& s.rows_built() <= t.rows_built()
    &&& same_rows(s.columns, t.columns, s.rows_built())
    &&& cells_kept(s, t)
}

/// Whether a generation that comes to an end has written rows, all of them within the fragment:
/// fewer than the size of the fragment if nothing remains to be executed, and as many if the
/// fragment is full.
pub open spec fn ends_well(s: GeneratorModel, f: Flow) -> bool {
    match f {
        Flow::Continue(t) => {
            &&& t.well_formed()
            &&& rows_stay(s, t)
            &&& s.rows_built() < t.rows_built() < t.fragment_size
            &&& t.context.continuation.len() == 0
        },
        Flow::Break(t) => {
            &&& t.well_formed()
            &&& rows_stay(s, t)
            &&& s.rows_built() < t.rows_built() == t.fragment_size
        },
        Flow::Panic => true,
    }
}

/// The forest that is shared.
spec fn shared(forest: Arc<MastForest>) -> MastForest {
    *forest
}

proof fn lemma_continued_ends<E: SyncOps>(
    ops: E,
    start: GeneratorModel,
    s: GeneratorModel,
    forest: Arc<MastForest>,
)
    requires
        s.well_formed(),
        rows_stay(start, s),
        start.rows_built() < s.rows_built() < s.fragment_size,
    ensures
        ends_well(start, continued(ops, s, forest)),
    decreases s.context.continuation.len(),
{
    broadcast use {lemma_row_shows_in_sequence, lemma_same_rows_in_sequence};

    if s.context.continuation.len() > 0 {
        let continuation = s.context.continuation.last();
        let s0 = continuation_taken(s);
        lemma_continuation_advances(ops, s0, continuation, shared(forest));
        if let Flow::Continue(s1) = continuation_executed(ops, s0, continuation, shared(forest)) {
            lemma_continued_ends(
                ops,
                start,
                s1,
                match continuation {
                    Continuation::EnterForest(previous) => previous,
                    _ => forest,
                },
            );
        }
    }
}

/// Every fragment has at least one row. A fragment that breaks off has as many rows as its size
/// says; one that does not has fewer, and nothing remains to be executed after it.
pub proof fn law_fragment_rows<E: SyncOps>(
    ops: E,
    s: GeneratorModel,
    state: NodeExecutionState,
)
    requires
        s.well_formed(),
    ensures
        ends_well(s, generated(ops, s, state)),
{
    let forest = s.context.initial_mast_forest;
    lemma_resumption_advances(ops, s, state, shared(forest));
    if let Flow::Continue(s1) = node_resumed(ops, s, state, shared(forest)) {
        lemma_continued_ends(ops, s, s1, forest);
    }
}

} // verus!
