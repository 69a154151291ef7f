//! The rows of a fragment depend neither on its size nor on where it begins: a smaller fragment that
//! begins in the same state has the first rows of a larger one, and one that begins later has the
//! rows that come later.

use crate::block_stack::BasicBlockContext;
use crate::continuation::Continuation;
use crate::felt::felt;
use crate::felt::Felt;
use crate::layout::CORE_TRACE_WIDTH;
use crate::layout::MIN_STACK_DEPTH;
use crate::layout::STACK_TRACE_OFFSET;
use crate::layout::STACK_TRACE_WIDTH;
use crate::layout::SYS_TRACE_WIDTH;
use crate::mast::BasicBlockNode;
use crate::mast::CallNode;
use crate::mast::DynNode;
use crate::mast::JoinNode;
use crate::mast::LoopNode;
use crate::mast::MastForest;
use crate::mast::MastNode;
use crate::mast::MastNodeId;
use crate::mast::OpBatch;
use crate::mast::OpBatchModel;
use crate::mast::SplitNode;
use crate::parallel::execution::batches_executed;
use crate::parallel::execution::block_executed;
use crate::parallel::execution::block_finished;
use crate::parallel::execution::call_started;
use crate::parallel::execution::callee_found;
use crate::parallel::execution::continuation_executed;
use crate::parallel::execution::continuation_taken;
use crate::parallel::execution::continued;
use crate::parallel::execution::dyn_callee;
use crate::parallel::execution::dyn_started;
use crate::parallel::execution::end_resumed;
use crate::parallel::execution::generated;
use crate::parallel::execution::group_advanced;
use crate::parallel::execution::groups_from;
use crate::parallel::execution::join_started;
use crate::parallel::execution::loop_executed;
use crate::parallel::execution::loop_resumed;
use crate::parallel::execution::loop_started;
use crate::parallel::execution::node_executed;
use crate::parallel::execution::node_resumed;
use crate::parallel::execution::op_executed;
use crate::parallel::execution::ops_executed;
use crate::parallel::execution::resolution_taken;
use crate::parallel::execution::same_machine;
use crate::parallel::execution::same_outcome;
use crate::parallel::execution::span_context_at;
use crate::parallel::execution::split_started;
use crate::parallel::execution::OpOutcome;
use crate::parallel::execution::SyncOps;
use crate::parallel::model::condition_taken;
use crate::parallel::model::context_ended;
use crate::parallel::model::end_added;
use crate::parallel::model::node_started;
use crate::parallel::model::operation_row;
use crate::parallel::model::repeat_row;
use crate::parallel::model::respanned;
use crate::parallel::model::row_added;
use crate::parallel::model::span_end_added;
use crate::parallel::model::span_row;
use crate::parallel::model::DecoderRow;
use crate::parallel::model::Flow;
use crate::parallel::model::GeneratorModel;
use crate::parallel::progress::advances;
use crate::parallel::progress::keeps;
use crate::parallel::progress::law_fragment_rows;
use crate::parallel::progress::lemma_batches_keep;
use crate::parallel::progress::lemma_block_finishes;
use crate::parallel::progress::lemma_condition_keeps;
use crate::parallel::progress::lemma_continuation_advances;
use crate::parallel::progress::lemma_end_advances;
use crate::parallel::progress::lemma_in_sequence;
use crate::parallel::progress::lemma_loop_advances;
use crate::parallel::progress::lemma_node_advances;
use crate::parallel::progress::lemma_ops_keep;
use crate::parallel::progress::lemma_resumption_advances;
use crate::parallel::progress::lemma_row_advances;
use crate::parallel::progress::lemma_row_shows_in_sequence;
use crate::parallel::progress::lemma_same_rows;
use crate::parallel::progress::lemma_same_rows_in_sequence;
use crate::parallel::progress::lemma_start_advances;
use crate::parallel::progress::row_shows;
use crate::parallel::progress::rows_stay;
use crate::parallel::progress::same_rows;
use crate::parallel::resume::final_state;
use crate::parallel::stitch::context_generated;
use crate::parallel::stitch::fragment_from;
use crate::parallel::stitch::initial_state;
use crate::trace_state::ContextModel;
use crate::trace_state::NodeExecutionState;
use crate::word::Word;
use std::sync::Arc;
use vstd::prelude::*;

verus! {

/// How many rows of the fragment of the second generator come before that of the first.
pub open spec fn offset(a: GeneratorModel, b: GeneratorModel) -> int {
    a.fragment_start_clk - b.fragment_start_clk
}

/// Whether the cells of a column are those that come one row after the state that they show.
pub open spec fn buffered(column: int) -> bool {
    ||| 0 <= column < SYS_TRACE_WIDTH
    ||| STACK_TRACE_OFFSET <= column < STACK_TRACE_OFFSET + STACK_TRACE_WIDTH
}

/// Whether the rows of a fragment are those of another one from a row on. If that is not the
/// first row of the other, the cells of the system and of the stack are left out in it: a
/// fragment does not know them.
#[verifier::opaque]
pub open spec fn rows_agree(a: Seq<Seq<Felt>>, b: Seq<Seq<Felt>>, from: int, rows: int) -> bool {
    forall|c: int, i: int|
        0 <= c < CORE_TRACE_WIDTH && 0 <= i < rows && !(from > 0 && i == 0 && buffered(c))
            ==> #[trigger] a[c][i] == b[c][from + i]
}

/// A fragment has its own rows.
pub broadcast proof fn lemma_rows_agree(a: Seq<Seq<Felt>>, rows: int)
    ensures
        #[trigger] rows_agree(a, a, 0, rows),
{
    reveal(rows_agree);
}

/// Rows that are those of another fragment are those of a third one that has the rows of the
/// second.
pub broadcast proof fn lemma_rows_agree_in_sequence(
    a: Seq<Seq<Felt>>,
    b: Seq<Seq<Felt>>,
    c: Seq<Seq<Felt>>,
    from: int,
    m: int,
    n: int,
)
    requires
        #[trigger] rows_agree(a, b, from, m),
        #[trigger] same_rows(b, c, n),
        0 <= from,
        from + m <= n,
    ensures
        rows_agree(a, c, from, m),
{
    reveal(same_rows);
    reveal(rows_agree);
    assert forall|k: int, i: int|
        0 <= k < CORE_TRACE_WIDTH && 0 <= i < m && !(from > 0 && i == 0 && buffered(
            k,
        )) implies #[trigger] a[k][i] == c[k][from + i] by {
        assert(a[k][i] == b[k][from + i]);
        assert(b[k][from + i] == c[k][from + i]);
    }
}

/// Whether two generators are in the same state, the first one with a fragment that is part of
/// that of the second and not full yet, and with the same rows in it. Only in the first row of a
/// fragment that begins later may the cells that come next be others.
pub open spec fn alike(a: GeneratorModel, b: GeneratorModel) -> bool {
    &&& 0 <= offset(a, b)
    &&& offset(a, b) + a.fragment_size <= b.fragment_size
    &&& a.rows_built() < a.fragment_size
    &&& same_machine(a, b)
    &&& (offset(a, b) > 0 && a.rows_built() == 0) || same_cells(a, b)
    &&& rows_agree(a.columns, b.columns, offset(a, b), a.fragment_size as int)
    &&& a.well_formed()
    &&& b.well_formed()
}

/// Whether two generators have the same cells of the system and of the stack for the next row.
pub open spec fn same_cells(a: GeneratorModel, b: GeneratorModel) -> bool {
    &&& a.system_rows == b.system_rows
    &&& a.stack_rows == b.stack_rows
}

/// Whether a state has at least the rows of a fragment that is full, and the same ones, and for
/// the row after them the cells that the full fragment has for it.
pub open spec fn shows(full: GeneratorModel, s: GeneratorModel) -> bool {
    let end = offset(full, s) + full.fragment_size;
    &&& 0 <= offset(full, s)
    &&& end <= s.rows_built()
    &&& rows_agree(full.columns, s.columns, offset(full, s), full.fragment_size as int)
    &&& if end == s.rows_built() {
        same_cells(full, s)
    } else {
        row_shows(s.columns, end, full.system_rows, full.stack_rows)
    }
}

/// Whether a step of one generator and the same step of another, of whose fragment that of the
/// first is a part, correspond: they lead to the same state, unless the fragment of the first is
/// full; then the second has the same rows. If both generate the same fragment, both are full
/// then, in the same state but for the decoding of a block, which the next fragment does not use.
pub open spec fn follows(fa: Flow, fb: Flow, same: bool) -> bool {
    match fa {
        Flow::Continue(x) => fb matches Flow::Continue(y) && alike(x, y) && same_fragment(x, y)
            == same,
        Flow::Break(x) => match fb {
            Flow::Continue(y) => !same && shows(x, y),
            Flow::Break(y) => shows(x, y) && (same ==> same_fragment(x, y) && same_machine(
                x.with_span(None),
                y.with_span(None),
            ) && same_cells(x, y)),
            Flow::Panic => !same,
        },
        Flow::Panic => fb is Panic,
    }
}

/// Whether two generators generate the same fragment.
pub open spec fn same_fragment(a: GeneratorModel, b: GeneratorModel) -> bool {
    &&& offset(a, b) == 0
    &&& a.fragment_size == b.fragment_size
}

/// Rows that are added to generators in the same state correspond.
pub broadcast proof fn lemma_row_follows(a: GeneratorModel, b: GeneratorModel, row: DecoderRow)
    requires
        alike(a, b),
    ensures
        follows(#[trigger] row_added(a, row), #[trigger] row_added(b, row), same_fragment(a, b)),
{
    reveal(row_added);
    reveal(rows_agree);
}

/// If two steps correspond, and what comes after them too, so do both together.
proof fn lemma_then(fa: Flow, fb: Flow, ra: Flow, rb: Flow, same: bool)
    requires
        follows(fa, fb, same),
        fa is Continue ==> follows(ra, rb, same),
        fa !is Continue ==> ra == fa,
        fb !is Continue ==> rb == fb,
        fb matches Flow::Continue(y) ==> keeps(y, rb),
    ensures
        follows(ra, rb, same),
{
    broadcast use {
        lemma_row_shows_in_sequence,
        lemma_rows_agree_in_sequence,
        lemma_same_rows_in_sequence,
    };

}

/// The starts of nodes of generators in the same state correspond.
pub proof fn lemma_start_follows(
    a: GeneratorModel,
    b: GeneratorModel,
    node: MastNode,
    forest: MastForest,
)
    requires
        alike(a, b),
    ensures
        node matches MastNode::Join(n) ==> follows(
            join_started(a, n, forest),
            join_started(b, n, forest),
            same_fragment(a, b),
        ),
        node matches MastNode::Split(n) ==> follows(
            split_started(a, n, forest),
            split_started(b, n, forest),
            same_fragment(a, b),
        ),
        node matches MastNode::Loop(n) ==> follows(
            loop_started(a, n, forest),
            loop_started(b, n, forest),
            same_fragment(a, b),
        ),
        node matches MastNode::Loop(n) ==> follows(
            repeat_row(a, n, forest),
            repeat_row(b, n, forest),
            same_fragment(a, b),
        ),
        node matches MastNode::Call(n) ==> follows(
            call_started(a, n, forest),
            call_started(b, n, forest),
            same_fragment(a, b),
        ),
        node matches MastNode::Dyn(n) ==> follows(
            dyn_started(a, n),
            dyn_started(b, n),
            same_fragment(a, b),
        ),
{
    broadcast use lemma_row_follows;

}

/// The ends of nodes of generators in the same state correspond.
proof fn lemma_end_follows(a: GeneratorModel, b: GeneratorModel, digest: Word)
    requires
        alike(a, b),
    ensures
        follows(end_added(a, digest), end_added(b, digest), same_fragment(a, b)),
        follows(span_end_added(a, digest), span_end_added(b, digest), same_fragment(a, b)),
        follows(context_ended(a, digest), context_ended(b, digest), same_fragment(a, b)),
{
    broadcast use lemma_row_follows;

}

/// Conditions that generators in the same state take off the stack are the same.
proof fn lemma_condition_follows(a: GeneratorModel, b: GeneratorModel)
    requires
        alike(a, b),
    ensures
        match (condition_taken(a), condition_taken(b)) {
            (Some((c, x)), Some((d, y))) => c == d && alike(x, y) && same_fragment(x, y)
                == same_fragment(a, b),
            (None, None) => true,
            _ => false,
        },
{
}

// BASIC BLOCKS

/// What follows the row of an operation: the rest of the batch.
spec fn after_op<E: SyncOps>(
    ops: E,
    s: GeneratorModel,
    batch: OpBatchModel,
    op_idx: int,
    forest: MastForest,
) -> Flow {
    match group_advanced(s, batch, op_idx) {
        Flow::Continue(t) => ops_executed(ops, t, batch, op_idx + 1, forest),
        f => f,
    }
}

proof fn lemma_after_op_keeps<E: SyncOps>(
    ops: E,
    s: GeneratorModel,
    batch: OpBatchModel,
    op_idx: int,
    forest: MastForest,
)
    requires
        s.well_formed(),
    ensures
        keeps(s, after_op(ops, s, batch, op_idx, forest)),
{
    broadcast use {
        lemma_row_shows_in_sequence,
        lemma_same_rows,
        lemma_same_rows_in_sequence,
    };

    if let Flow::Continue(t) = group_advanced(s, batch, op_idx) {
        lemma_ops_keep(ops, t, batch, op_idx + 1, forest);
    }
}

/// Operations and their rows correspond.
proof fn lemma_op_follows<E: SyncOps>(
    ops: E,
    a: GeneratorModel,
    b: GeneratorModel,
    batch: OpBatchModel,
    op_idx: int,
    forest: MastForest,
)
    requires
        alike(a, b),
    ensures
        same_outcome(
            op_executed(ops, a, batch.ops[op_idx], forest),
            op_executed(ops, b, batch.ops[op_idx], forest),
        ),
        match (
            op_executed(ops, a, batch.ops[op_idx], forest),
            op_executed(ops, b, batch.ops[op_idx], forest),
        ) {
            (OpOutcome::Done(x, g), OpOutcome::Done(y, h)) => {
                let op = batch.ops[op_idx];
                let idx = batch.idx_in_group(op_idx);
                &&& g == h
                &&& x.well_formed()
                &&& y.well_formed()
                &&& follows(
                    operation_row(x, op, idx, g),
                    operation_row(y, op, idx, h),
                    same_fragment(a, b),
                )
                &&& advances(y, operation_row(y, op, idx, h))
            },
            _ => true,
        },
{
    broadcast use {lemma_row_follows, lemma_row_advances};

    let op = batch.ops[op_idx];
    ops.lemma_same(a, b, op, forest);
    ops.lemma_frame(a, op, forest);
    ops.lemma_frame(b, op, forest);
    if let OpOutcome::Done(x, g) = op_executed(ops, a, op, forest) {
        if let OpOutcome::Done(y, h) = op_executed(ops, b, op, forest) {
            assert(alike(x, y));
            if let Some(span) = x.span_context {
                let left = felt(span.group_ops_left@ as int / 0x80);
                let num_groups_left = if op.imm_value is Some {
                    felt(span.num_groups_left@ - 1)
                } else {
                    span.num_groups_left
                };
                let next = Some(BasicBlockContext { group_ops_left: left, num_groups_left });
                assert(alike(x.with_span(next), y.with_span(next)));
            }
        }
    }
}

/// The operations of a batch correspond.
proof fn lemma_ops_follow<E: SyncOps>(
    ops: E,
    a: GeneratorModel,
    b: GeneratorModel,
    batch: OpBatchModel,
    op_idx: int,
    forest: MastForest,
)
    requires
        alike(a, b),
    ensures
        follows(
            ops_executed(ops, a, batch, op_idx, forest),
            ops_executed(ops, b, batch, op_idx, forest),
            same_fragment(a, b),
        ),
    decreases batch.ops.len() - op_idx,
{
    if op_idx < batch.ops.len() {
        let op = batch.ops[op_idx];
        let idx = batch.idx_in_group(op_idx);
        lemma_op_follows(ops, a, b, batch, op_idx, forest);
        if let OpOutcome::Done(x, g) = op_executed(ops, a, op, forest) {
            if let OpOutcome::Done(y, h) = op_executed(ops, b, op, forest) {
                let fa = operation_row(x, op, idx, g);
                let fb = operation_row(y, op, idx, h);
                let ra = ops_executed(ops, a, batch, op_idx, forest);
                let rb = ops_executed(ops, b, batch, op_idx, forest);
                if let Flow::Continue(x2) = fa {
                    let y2 = fb->Continue_0;
                    match (
                        group_advanced(x2, batch, op_idx),
                        group_advanced(y2, batch, op_idx),
                    ) {
                        (Flow::Continue(x3), Flow::Continue(y3)) => {
                            assert(alike(x3, y3));
                            lemma_ops_follow(ops, x3, y3, batch, op_idx + 1, forest);
                        },
                        _ => {},
                    }
                }
                if let Flow::Continue(y2) = fb {
                    lemma_after_op_keeps(ops, y2, batch, op_idx, forest);
                    assert(rb == after_op(ops, y2, batch, op_idx, forest));
                }
                lemma_then(fa, fb, ra, rb, same_fragment(a, b));
            }
        }
    }
}

/// The further batches of a block correspond.
proof fn lemma_batches_follow<E: SyncOps>(
    ops: E,
    a: GeneratorModel,
    b: GeneratorModel,
    batches: Seq<OpBatch>,
    i: int,
    forest: MastForest,
)
    requires
        alike(a, b),
    ensures
        follows(
            batches_executed(ops, a, batches, i, forest),
            batches_executed(ops, b, batches, i, forest),
            same_fragment(a, b),
        ),
    decreases batches.len() - i,
{
    if i < batches.len() {
        let batch = batches[i]@;
        let fa = respanned(a, batch);
        let fb = respanned(b, batch);
        assert(follows(fa, fb, same_fragment(a, b)) && keeps(b, fb)) by {
            broadcast use {lemma_row_follows, lemma_row_advances};

        }
        let ma = match fa {
            Flow::Continue(x) => ops_executed(ops, x, batch, 0, forest),
            f => f,
        };
        let mb = match fb {
            Flow::Continue(y) => ops_executed(ops, y, batch, 0, forest),
            f => f,
        };
        if let Flow::Continue(x) = fa {
            lemma_ops_follow(ops, x, fb->Continue_0, batch, 0, forest);
        }
        if let Flow::Continue(y) = fb {
            lemma_ops_keep(ops, y, batch, 0, forest);
        }
        lemma_then(fa, fb, ma, mb, same_fragment(a, b));
        if let Flow::Continue(x) = ma {
            lemma_batches_follow(ops, x, mb->Continue_0, batches, i + 1, forest);
        }
        if let Flow::Continue(y) = mb {
            lemma_batches_keep(ops, y, batches, i + 1, forest);
        }
        lemma_then(
            ma,
            mb,
            batches_executed(ops, a, batches, i, forest),
            batches_executed(ops, b, batches, i, forest),
            same_fragment(a, b),
        );
    }
}

/// The ends of blocks correspond.
proof fn lemma_block_finishes_alike<E: SyncOps>(
    ops: E,
    a: GeneratorModel,
    b: GeneratorModel,
    node: BasicBlockNode,
    i: int,
    forest: MastForest,
)
    requires
        alike(a, b),
    ensures
        follows(
            block_finished(ops, a, node, i, forest),
            block_finished(ops, b, node, i, forest),
            same_fragment(a, b),
        ),
{
    let batches = node.spec_op_batches();
    let fa = batches_executed(ops, a, batches, i, forest);
    let fb = batches_executed(ops, b, batches, i, forest);
    lemma_batches_follow(ops, a, b, batches, i, forest);
    lemma_batches_keep(ops, b, batches, i, forest);
    if let Flow::Continue(x) = fa {
        lemma_end_follows(x, fb->Continue_0, node.spec_digest());
    }
    if let Flow::Continue(y) = fb {
        lemma_end_advances(y, node.spec_digest());
    }
    lemma_then(
        fa,
        fb,
        block_finished(ops, a, node, i, forest),
        block_finished(ops, b, node, i, forest),
        same_fragment(a, b),
    );
}

/// The operations of a batch and the rest of the block.
spec fn batch_and_rest<E: SyncOps>(
    ops: E,
    s: GeneratorModel,
    node: BasicBlockNode,
    batch_index: int,
    op_idx: int,
    forest: MastForest,
) -> Flow {
    match ops_executed(ops, s, node.spec_op_batches()[batch_index]@, op_idx, forest) {
        Flow::Continue(t) => block_finished(ops, t, node, batch_index + 1, forest),
        f => f,
    }
}

proof fn lemma_batch_and_rest<E: SyncOps>(
    ops: E,
    a: GeneratorModel,
    b: GeneratorModel,
    node: BasicBlockNode,
    batch_index: int,
    op_idx: int,
    forest: MastForest,
)
    requires
        alike(a, b),
    ensures
        follows(
            batch_and_rest(ops, a, node, batch_index, op_idx, forest),
            batch_and_rest(ops, b, node, batch_index, op_idx, forest),
            same_fragment(a, b),
        ),
        keeps(b, batch_and_rest(ops, b, node, batch_index, op_idx, forest)),
{
    let batch = node.spec_op_batches()[batch_index]@;
    let fa = ops_executed(ops, a, batch, op_idx, forest);
    let fb = ops_executed(ops, b, batch, op_idx, forest);
    lemma_ops_follow(ops, a, b, batch, op_idx, forest);
    if let Flow::Continue(x) = fa {
        lemma_block_finishes_alike(ops, x, fb->Continue_0, node, batch_index + 1, forest);
    }
    lemma_batch_and_rest_keeps(ops, b, node, batch_index, op_idx, forest);
    if let Flow::Continue(y) = fb {
        lemma_ops_keep(ops, b, batch, op_idx, forest);
        lemma_block_finishes(ops, y, node, batch_index + 1, forest);
    }
    lemma_then(
        fa,
        fb,
        batch_and_rest(ops, a, node, batch_index, op_idx, forest),
        batch_and_rest(ops, b, node, batch_index, op_idx, forest),
        same_fragment(a, b),
    );
}

proof fn lemma_batch_and_rest_keeps<E: SyncOps>(
    ops: E,
    s: GeneratorModel,
    node: BasicBlockNode,
    batch_index: int,
    op_idx: int,
    forest: MastForest,
)
    requires
        s.well_formed(),
    ensures
        keeps(s, batch_and_rest(ops, s, node, batch_index, op_idx, forest)),
{
    let batch = node.spec_op_batches()[batch_index]@;
    lemma_ops_keep(ops, s, batch, op_idx, forest);
    if let Flow::Continue(t) = ops_executed(ops, s, batch, op_idx, forest) {
        lemma_block_finishes(ops, t, node, batch_index + 1, forest);
        lemma_in_sequence(s, t, block_finished(ops, t, node, batch_index + 1, forest));
    }
}

/// Basic blocks correspond.
proof fn lemma_block_follows<E: SyncOps>(
    ops: E,
    a: GeneratorModel,
    b: GeneratorModel,
    node: BasicBlockNode,
    forest: MastForest,
)
    requires
        alike(a, b),
    ensures
        follows(
            block_executed(ops, a, node, forest),
            block_executed(ops, b, node, forest),
            same_fragment(a, b),
        ),
{
    let first = node.spec_op_batches()[0]@;
    let num_groups = felt(node.spec_num_op_groups() % 0x1_0000_0000);
    let span = Some(
        BasicBlockContext {
            group_ops_left: first.groups[0],
            num_groups_left: felt(num_groups@ - 1),
        },
    );
    match (node_started(a), node_started(b)) {
        (Some(a0), Some(b0)) => {
            assert(alike(a0, b0));
            let fa = span_row(a0, first, num_groups);
            let fb = span_row(b0, first, num_groups);
            assert(follows(fa, fb, same_fragment(a, b)) && keeps(b0, fb)) by {
                broadcast use {lemma_row_follows, lemma_row_advances};

            }
            if let Flow::Continue(x) = fa {
                let y = fb->Continue_0;
                assert(alike(x.with_span(span), y.with_span(span)));
                lemma_batch_and_rest(ops, x.with_span(span), y.with_span(span), node, 0, 0, forest);
            }
            if let Flow::Continue(y) = fb {
                lemma_batch_and_rest_keeps(ops, y.with_span(span), node, 0, 0, forest);
            }
            lemma_then(
                fa,
                fb,
                block_executed(ops, a, node, forest),
                block_executed(ops, b, node, forest),
                same_fragment(a, b),
            );
        },
        _ => {},
    }
}

// NODES

/// A step, and a node executed after it.
pub open spec fn then_node<E: SyncOps>(ops: E, f: Flow, id: MastNodeId, forest: MastForest) -> Flow {
    match f {
        Flow::Continue(s) => node_executed(ops, s, id, forest),
        f => f,
    }
}

/// A step, and the end of a node after it.
pub open spec fn then_end(f: Flow, digest: Word) -> Flow {
    match f {
        Flow::Continue(s) => end_added(s, digest),
        f => f,
    }
}

/// A step, and the end of a context and of a node after it.
pub open spec fn then_context_end(f: Flow, digest: Word) -> Flow {
    match f {
        Flow::Continue(s) => context_ended(s, digest),
        f => f,
    }
}

proof fn lemma_then_node<E: SyncOps>(
    ops: E,
    start: GeneratorModel,
    fa: Flow,
    fb: Flow,
    id: MastNodeId,
    forest: MastForest,
    same: bool,
)
    requires
        follows(fa, fb, same),
        fa matches Flow::Continue(x) ==> x.rows_left() < start.rows_left(),
        fb matches Flow::Continue(y) ==> y.well_formed(),
    ensures
        follows(then_node(ops, fa, id, forest), then_node(ops, fb, id, forest), same),
    decreases start.rows_left(), start.resolutions_left(), 0int,
{
    if let Flow::Continue(x) = fa {
        lemma_node_follows(ops, x, fb->Continue_0, id, forest);
    }
    if let Flow::Continue(y) = fb {
        lemma_node_advances(ops, y, id, forest);
    }
    lemma_then(fa, fb, then_node(ops, fa, id, forest), then_node(ops, fb, id, forest), same);
}

proof fn lemma_then_end(fa: Flow, fb: Flow, digest: Word, same: bool)
    requires
        follows(fa, fb, same),
        fb matches Flow::Continue(y) ==> y.well_formed(),
    ensures
        follows(then_end(fa, digest), then_end(fb, digest), same),
        follows(then_context_end(fa, digest), then_context_end(fb, digest), same),
{
    if let Flow::Continue(x) = fa {
        lemma_end_follows(x, fb->Continue_0, digest);
    }
    if let Flow::Continue(y) = fb {
        lemma_end_advances(y, digest);
    }
    lemma_then(fa, fb, then_end(fa, digest), then_end(fb, digest), same);
    lemma_then(fa, fb, then_context_end(fa, digest), then_context_end(fb, digest), same);
}

/// What a join comes to.
pub proof fn lemma_join_unfold<E: SyncOps>(
    ops: E,
    s: GeneratorModel,
    id: MastNodeId,
    node: JoinNode,
    forest: MastForest,
)
    requires
        s.well_formed(),
        forest.has(id),
        forest.node(id) == MastNode::Join(node),
    ensures
        advances(s, join_started(s, node, forest)),
        keeps(s, then_node(ops, join_started(s, node, forest), node.first, forest)),
        keeps(
            s,
            then_node(
                ops,
                then_node(ops, join_started(s, node, forest), node.first, forest),
                node.second,
                forest,
            ),
        ),
        then_node(ops, join_started(s, node, forest), node.first, forest) matches Flow::Continue(t)
            ==> t.rows_left() < s.rows_left(),
        node_executed(ops, s, id, forest) == then_end(
            then_node(
                ops,
                then_node(ops, join_started(s, node, forest), node.first, forest),
                node.second,
                forest,
            ),
            node.digest,
        ),
{
    lemma_start_advances(s, forest.node(id), forest);
    if let Flow::Continue(s1) = join_started(s, node, forest) {
        lemma_node_advances(ops, s1, node.first, forest);
        lemma_in_sequence(s, s1, node_executed(ops, s1, node.first, forest));
        if let Flow::Continue(s2) = node_executed(ops, s1, node.first, forest) {
            lemma_node_advances(ops, s2, node.second, forest);
            lemma_in_sequence(s, s2, node_executed(ops, s2, node.second, forest));
        }
    }
    reveal(node_executed);
}

proof fn lemma_join_follows<E: SyncOps>(
    ops: E,
    a: GeneratorModel,
    b: GeneratorModel,
    id: MastNodeId,
    node: JoinNode,
    forest: MastForest,
)
    requires
        alike(a, b),
        forest.has(id),
        forest.node(id) == MastNode::Join(node),
    ensures
        follows(
            node_executed(ops, a, id, forest),
            node_executed(ops, b, id, forest),
            same_fragment(a, b),
        ),
    decreases a.rows_left(), a.resolutions_left(), 1int,
{
    let same = same_fragment(a, b);
    lemma_join_unfold(ops, a, id, node, forest);
    lemma_join_unfold(ops, b, id, node, forest);
    lemma_start_follows(a, b, forest.node(id), forest);
    let fa = join_started(a, node, forest);
    let fb = join_started(b, node, forest);
    lemma_then_node(ops, a, fa, fb, node.first, forest, same);
    let ga = then_node(ops, fa, node.first, forest);
    let gb = then_node(ops, fb, node.first, forest);
    lemma_then_node(ops, a, ga, gb, node.second, forest, same);
    let ha = then_node(ops, ga, node.second, forest);
    let hb = then_node(ops, gb, node.second, forest);
    lemma_then_end(ha, hb, node.digest, same);
}

proof fn lemma_split_follows<E: SyncOps>(
    ops: E,
    a: GeneratorModel,
    b: GeneratorModel,
    id: MastNodeId,
    node: SplitNode,
    forest: MastForest,
)
    requires
        alike(a, b),
        forest.has(id),
        forest.node(id) == MastNode::Split(node),
    ensures
        follows(
            node_executed(ops, a, id, forest),
            node_executed(ops, b, id, forest),
            same_fragment(a, b),
        ),
    decreases a.rows_left(), a.resolutions_left(), 1int,
{
    let same = same_fragment(a, b);
    let child = if a.item(0) == felt(1) {
        node.on_true
    } else {
        node.on_false
    };
    assert(a.item(0) == b.item(0));
    lemma_start_advances(a, forest.node(id), forest);
    lemma_start_advances(b, forest.node(id), forest);
    lemma_start_follows(a, b, forest.node(id), forest);
    let fa = split_started(a, node, forest);
    let fb = split_started(b, node, forest);
    lemma_then_node(ops, a, fa, fb, child, forest, same);
    let ga = then_node(ops, fa, child, forest);
    let gb = then_node(ops, fb, child, forest);
    if let Flow::Continue(y) = fb {
        lemma_node_advances(ops, y, child, forest);
    }
    lemma_then_end(ga, gb, node.digest, same);
    reveal(node_executed);
    assert(node_executed(ops, a, id, forest) == then_end(ga, node.digest));
    assert(node_executed(ops, b, id, forest) == then_end(gb, node.digest));
}

proof fn lemma_call_follows<E: SyncOps>(
    ops: E,
    a: GeneratorModel,
    b: GeneratorModel,
    id: MastNodeId,
    node: CallNode,
    forest: MastForest,
)
    requires
        alike(a, b),
        forest.has(id),
        forest.node(id) == MastNode::Call(node),
    ensures
        follows(
            node_executed(ops, a, id, forest),
            node_executed(ops, b, id, forest),
            same_fragment(a, b),
        ),
    decreases a.rows_left(), a.resolutions_left(), 1int,
{
    let same = same_fragment(a, b);
    lemma_start_advances(a, forest.node(id), forest);
    lemma_start_advances(b, forest.node(id), forest);
    lemma_start_follows(a, b, forest.node(id), forest);
    let fa = call_started(a, node, forest);
    let fb = call_started(b, node, forest);
    lemma_then_node(ops, a, fa, fb, node.callee, forest, same);
    let ga = then_node(ops, fa, node.callee, forest);
    let gb = then_node(ops, fb, node.callee, forest);
    if let Flow::Continue(y) = fb {
        lemma_node_advances(ops, y, node.callee, forest);
    }
    lemma_then_end(ga, gb, node.digest, same);
    reveal(node_executed);
    assert(node_executed(ops, a, id, forest) == then_context_end(ga, node.digest));
    assert(node_executed(ops, b, id, forest) == then_context_end(gb, node.digest));
}

/// A step, and after it the callee of a dynamic node, as far as it is found.
spec fn then_callee<E: SyncOps>(ops: E, f: Flow, callee: Word, forest: MastForest) -> Flow {
    match f {
        Flow::Continue(s) => match callee_found(s, callee, forest) {
            Some((id, callee_forest, t)) => node_executed(ops, t, id, callee_forest),
            None => Flow::Panic,
        },
        f => f,
    }
}

proof fn lemma_then_callee_keeps<E: SyncOps>(
    ops: E,
    s: GeneratorModel,
    callee: Word,
    forest: MastForest,
)
    requires
        s.well_formed(),
    ensures
        keeps(s, then_callee(ops, Flow::Continue(s), callee, forest)),
{
    broadcast use {
        lemma_row_shows_in_sequence,
        lemma_same_rows,
        lemma_same_rows_in_sequence,
    };

    if let Some((id, callee_forest, t)) = callee_found(s, callee, forest) {
        lemma_node_advances(ops, t, id, callee_forest);
    }
}

proof fn lemma_dyn_follows<E: SyncOps>(
    ops: E,
    a: GeneratorModel,
    b: GeneratorModel,
    id: MastNodeId,
    node: DynNode,
    forest: MastForest,
)
    requires
        alike(a, b),
        forest.has(id),
        forest.node(id) == MastNode::Dyn(node),
    ensures
        follows(
            node_executed(ops, a, id, forest),
            node_executed(ops, b, id, forest),
            same_fragment(a, b),
        ),
    decreases a.rows_left(), a.resolutions_left(), 1int,
{
    let same = same_fragment(a, b);
    lemma_start_advances(a, forest.node(id), forest);
    lemma_start_advances(b, forest.node(id), forest);
    lemma_start_follows(a, b, forest.node(id), forest);
    let callee = dyn_callee(a);
    assert(callee == dyn_callee(b));
    let fa = dyn_started(a, node);
    let fb = dyn_started(b, node);
    let ga = then_callee(ops, fa, callee, forest);
    let gb = then_callee(ops, fb, callee, forest);
    if let Flow::Continue(x) = fa {
        let y = fb->Continue_0;
        match (callee_found(x, callee, forest), callee_found(y, callee, forest)) {
            (Some((i, f, x2)), Some((j, g, y2))) => {
                assert(i == j && f == g && alike(x2, y2));
                lemma_node_follows(ops, x2, y2, i, f);
            },
            _ => {},
        }
    }
    if let Flow::Continue(y) = fb {
        lemma_then_callee_keeps(ops, y, callee, forest);
    }
    lemma_then(fa, fb, ga, gb, same);
    lemma_then_end(ga, gb, node.digest, same);
    reveal(node_executed);
    if node.is_dyncall {
        assert(node_executed(ops, a, id, forest) == then_context_end(ga, node.digest));
        assert(node_executed(ops, b, id, forest) == then_context_end(gb, node.digest));
    } else {
        assert(node_executed(ops, a, id, forest) == then_end(ga, node.digest));
        assert(node_executed(ops, b, id, forest) == then_end(gb, node.digest));
    }
}

/// A step, and after it the repetitions of a loop, whose condition is taken off the stack.
pub open spec fn then_loop<E: SyncOps>(ops: E, f: Flow, node: LoopNode, forest: MastForest) -> Flow {
    match f {
        Flow::Continue(s) => loop_resumed(ops, s, node, forest),
        f => f,
    }
}

proof fn lemma_loop_resumed_keeps<E: SyncOps>(
    ops: E,
    s: GeneratorModel,
    node: LoopNode,
    forest: MastForest,
)
    requires
        s.well_formed(),
    ensures
        keeps(s, loop_resumed(ops, s, node, forest)),
{
    lemma_condition_keeps(s);
    if let Some((condition, t)) = condition_taken(s) {
        lemma_loop_advances(ops, t, node, forest, condition);
        lemma_in_sequence(s, t, loop_executed(ops, t, node, forest, condition));
    }
}

proof fn lemma_then_loop<E: SyncOps>(
    ops: E,
    start: GeneratorModel,
    fa: Flow,
    fb: Flow,
    node: LoopNode,
    forest: MastForest,
    same: bool,
)
    requires
        follows(fa, fb, same),
        fa matches Flow::Continue(x) ==> x.rows_left() < start.rows_left(),
        fb matches Flow::Continue(y) ==> y.well_formed(),
    ensures
        follows(then_loop(ops, fa, node, forest), then_loop(ops, fb, node, forest), same),
    decreases start.rows_left(), start.resolutions_left(), 0int,
{
    if let Flow::Continue(x) = fa {
        let y = fb->Continue_0;
        lemma_condition_follows(x, y);
        lemma_condition_keeps(x);
        match (condition_taken(x), condition_taken(y)) {
            (Some((c, x2)), Some((d, y2))) => {
                lemma_loop_follows(ops, x2, y2, node, forest, c);
            },
            _ => {},
        }
    }
    if let Flow::Continue(y) = fb {
        lemma_loop_resumed_keeps(ops, y, node, forest);
    }
    lemma_then(fa, fb, then_loop(ops, fa, node, forest), then_loop(ops, fb, node, forest), same);
}

/// What a loop node whose body is executed comes to.
pub proof fn lemma_loop_node_steps<E: SyncOps>(
    ops: E,
    s: GeneratorModel,
    id: MastNodeId,
    node: LoopNode,
    forest: MastForest,
)
    requires
        s.well_formed(),
        forest.has(id),
        forest.node(id) == MastNode::Loop(node),
    ensures
        s.item(0) != felt(1) ==> node_executed(ops, s, id, forest) == then_end(
            loop_started(s, node, forest),
            node.digest,
        ),
        s.item(0) == felt(1) ==> node_executed(ops, s, id, forest) == then_loop(
            ops,
            then_node(ops, loop_started(s, node, forest), node.body, forest),
            node,
            forest,
        ),
        keeps(s, then_node(ops, loop_started(s, node, forest), node.body, forest)),
        then_node(ops, loop_started(s, node, forest), node.body, forest) matches Flow::Continue(t)
            ==> t.rows_left() < s.rows_left(),
{
    lemma_start_advances(s, forest.node(id), forest);
    if let Flow::Continue(s1) = loop_started(s, node, forest) {
        lemma_node_advances(ops, s1, node.body, forest);
        lemma_in_sequence(s, s1, node_executed(ops, s1, node.body, forest));
        if let Flow::Continue(s2) = node_executed(ops, s1, node.body, forest) {
            lemma_condition_keeps(s2);
        }
    }
    reveal(node_executed);
    reveal(loop_executed);
}

/// What a repetition of a loop comes to.
pub proof fn lemma_loop_steps<E: SyncOps>(
    ops: E,
    s: GeneratorModel,
    node: LoopNode,
    forest: MastForest,
    condition: Felt,
)
    requires
        s.well_formed(),
    ensures
        condition != felt(1) ==> loop_executed(ops, s, node, forest, condition) == end_added(
            s,
            node.digest,
        ),
        condition == felt(1) ==> loop_executed(ops, s, node, forest, condition) == then_loop(
            ops,
            then_node(ops, repeat_row(s, node, forest), node.body, forest),
            node,
            forest,
        ),
        keeps(s, then_node(ops, repeat_row(s, node, forest), node.body, forest)),
        then_node(ops, repeat_row(s, node, forest), node.body, forest) matches Flow::Continue(t)
            ==> t.rows_left() < s.rows_left(),
{
    lemma_start_advances(s, MastNode::Loop(node), forest);
    if let Flow::Continue(s1) = repeat_row(s, node, forest) {
        lemma_node_advances(ops, s1, node.body, forest);
        lemma_in_sequence(s, s1, node_executed(ops, s1, node.body, forest));
        if let Flow::Continue(s2) = node_executed(ops, s1, node.body, forest) {
            lemma_condition_keeps(s2);
        }
    }
    reveal(node_executed);
    reveal(loop_executed);
}

proof fn lemma_loop_node_follows<E: SyncOps>(
    ops: E,
    a: GeneratorModel,
    b: GeneratorModel,
    id: MastNodeId,
    node: LoopNode,
    forest: MastForest,
)
    requires
        alike(a, b),
        forest.has(id),
        forest.node(id) == MastNode::Loop(node),
    ensures
        follows(
            node_executed(ops, a, id, forest),
            node_executed(ops, b, id, forest),
            same_fragment(a, b),
        ),
    decreases a.rows_left(), a.resolutions_left(), 1int,
{
    let same = same_fragment(a, b);
    assert(a.item(0) == b.item(0));
    lemma_loop_node_steps(ops, a, id, node, forest);
    lemma_loop_node_steps(ops, b, id, node, forest);
    lemma_start_advances(a, forest.node(id), forest);
    lemma_start_advances(b, forest.node(id), forest);
    lemma_start_follows(a, b, forest.node(id), forest);
    let fa = loop_started(a, node, forest);
    let fb = loop_started(b, node, forest);
    if a.item(0) == felt(1) {
        lemma_then_node(ops, a, fa, fb, node.body, forest, same);
        let ga = then_node(ops, fa, node.body, forest);
        let gb = then_node(ops, fb, node.body, forest);
        lemma_then_loop(ops, a, ga, gb, node, forest, same);
    } else {
        lemma_then_end(fa, fb, node.digest, same);
    }
}

proof fn lemma_loop_follows<E: SyncOps>(
    ops: E,
    a: GeneratorModel,
    b: GeneratorModel,
    node: LoopNode,
    forest: MastForest,
    condition: Felt,
)
    requires
        alike(a, b),
    ensures
        follows(
            loop_executed(ops, a, node, forest, condition),
            loop_executed(ops, b, node, forest, condition),
            same_fragment(a, b),
        ),
    decreases a.rows_left(), a.resolutions_left(), 1int,
{
    let same = same_fragment(a, b);
    lemma_loop_steps(ops, a, node, forest, condition);
    lemma_loop_steps(ops, b, node, forest, condition);
    if condition == felt(1) {
        lemma_start_advances(a, MastNode::Loop(node), forest);
        lemma_start_advances(b, MastNode::Loop(node), forest);
        lemma_start_follows(a, b, MastNode::Loop(node), forest);
        let fa = repeat_row(a, node, forest);
        let fb = repeat_row(b, node, forest);
        lemma_then_node(ops, a, fa, fb, node.body, forest, same);
        let ga = then_node(ops, fa, node.body, forest);
        let gb = then_node(ops, fb, node.body, forest);
        lemma_then_loop(ops, a, ga, gb, node, forest, same);
    } else {
        lemma_end_follows(a, b, node.digest);
    }
}

/// Nodes that generators in the same state execute correspond.
pub proof fn lemma_node_follows<E: SyncOps>(
    ops: E,
    a: GeneratorModel,
    b: GeneratorModel,
    id: MastNodeId,
    forest: MastForest,
)
    requires
        alike(a, b),
    ensures
        follows(
            node_executed(ops, a, id, forest),
            node_executed(ops, b, id, forest),
            same_fragment(a, b),
        ),
    decreases a.rows_left(), a.resolutions_left(), 2int,
{
    if forest.has(id) {
        match forest.node(id) {
            MastNode::Block(node) => {
                lemma_block_follows(ops, a, b, node, forest);
                reveal(node_executed);
            },
            MastNode::Join(node) => {
                lemma_join_follows(ops, a, b, id, node, forest);
            },
            MastNode::Split(node) => {
                lemma_split_follows(ops, a, b, id, node, forest);
            },
            MastNode::Loop(node) => {
                lemma_loop_node_follows(ops, a, b, id, node, forest);
            },
            MastNode::Call(node) => {
                lemma_call_follows(ops, a, b, id, node, forest);
            },
            MastNode::Dyn(node) => {
                lemma_dyn_follows(ops, a, b, id, node, forest);
            },
            MastNode::External(_) => {
                match (resolution_taken(a), resolution_taken(b)) {
                    (Some((i, f, x)), Some((j, g, y))) => {
                        assert(i == j && f == g && alike(x, y));
                        lemma_node_follows(ops, x, y, i, f);
                    },
                    _ => {},
                }
                reveal(node_executed);
            },
        }
    } else {
        reveal(node_executed);
    }
}

// FRAGMENTS

proof fn lemma_loop_resumed_follows<E: SyncOps>(
    ops: E,
    a: GeneratorModel,
    b: GeneratorModel,
    node: LoopNode,
    forest: MastForest,
)
    requires
        alike(a, b),
    ensures
        follows(
            loop_resumed(ops, a, node, forest),
            loop_resumed(ops, b, node, forest),
            same_fragment(a, b),
        ),
{
    lemma_condition_follows(a, b);
    match (condition_taken(a), condition_taken(b)) {
        (Some((c, x)), Some((d, y))) => {
            lemma_loop_follows(ops, x, y, node, forest, c);
        },
        _ => {},
    }
}

proof fn lemma_end_resumed_follows(a: GeneratorModel, b: GeneratorModel, node: MastNode)
    requires
        alike(a, b),
    ensures
        follows(end_resumed(a, node), end_resumed(b, node), same_fragment(a, b)),
{
    broadcast use lemma_row_follows;

    lemma_end_follows(a, b, node.spec_digest());
}

/// Finishing the node in the midst of which a fragment begins corresponds.
proof fn lemma_resumption_follows<E: SyncOps>(
    ops: E,
    a: GeneratorModel,
    b: GeneratorModel,
    state: NodeExecutionState,
    forest: MastForest,
)
    requires
        alike(a, b),
    ensures
        follows(
            node_resumed(ops, a, state, forest),
            node_resumed(ops, b, state, forest),
            same_fragment(a, b),
        ),
{
    match state {
        NodeExecutionState::BasicBlock { node_id, batch_index, op_idx_in_batch } => {
            if let MastNode::Block(node) = forest.node(node_id) {
                let span = span_context_at(node, batch_index as int, op_idx_in_batch as int);
                if span is Some {
                    let (x, y) = (a.with_span(span), b.with_span(span));
                    assert(alike(x, y));
                    lemma_batch_and_rest(
                        ops,
                        x,
                        y,
                        node,
                        batch_index as int,
                        op_idx_in_batch as int,
                        forest,
                    );
                }
            }
        },
        NodeExecutionState::Start(node_id) => {
            lemma_node_follows(ops, a, b, node_id, forest);
        },
        NodeExecutionState::Respan { node_id, batch_index } => {
            if let MastNode::Block(node) = forest.node(node_id) {
                let batches = node.spec_op_batches();
                let span = Some(
                    BasicBlockContext {
                        group_ops_left: batches[batch_index as int]@.groups[0],
                        num_groups_left: felt(groups_from(batches, batch_index as int)),
                    },
                );
                let (x, y) = (a.with_span(span), b.with_span(span));
                assert(alike(x, y));
                lemma_block_finishes_alike(ops, x, y, node, batch_index as int, forest);
            }
        },
        NodeExecutionState::LoopRepeat(node_id) => {
            if let MastNode::Loop(node) = forest.node(node_id) {
                lemma_loop_resumed_follows(ops, a, b, node, forest);
            }
        },
        NodeExecutionState::End(node_id) => {
            lemma_end_resumed_follows(a, b, forest.node(node_id));
        },
    }
}

/// Remaining steps correspond.
pub proof fn lemma_continuation_follows<E: SyncOps>(
    ops: E,
    a: GeneratorModel,
    b: GeneratorModel,
    continuation: Continuation,
    forest: MastForest,
)
    requires
        alike(a, b),
    ensures
        follows(
            continuation_executed(ops, a, continuation, forest),
            continuation_executed(ops, b, continuation, forest),
            same_fragment(a, b),
        ),
{
    match continuation {
        Continuation::StartNode(id) => {
            lemma_node_follows(ops, a, b, id, forest);
        },
        Continuation::FinishJoin(id) => {
            lemma_end_follows(a, b, forest.node(id).spec_digest());
        },
        Continuation::FinishSplit(id) => {
            lemma_end_follows(a, b, forest.node(id).spec_digest());
        },
        Continuation::FinishLoop(id) => {
            if let MastNode::Loop(node) = forest.node(id) {
                lemma_loop_resumed_follows(ops, a, b, node, forest);
            }
        },
        Continuation::FinishCall(id) => {
            lemma_end_follows(a, b, forest.node(id).spec_digest());
        },
        Continuation::FinishDyn(id) => {
            if let MastNode::Dyn(node) = forest.node(id) {
                lemma_end_follows(a, b, node.digest);
            }
        },
        Continuation::EnterForest(_) => {},
    }
}

/// All remaining steps keep the rows that are there.
pub proof fn lemma_continued_keeps<E: SyncOps>(ops: E, s: GeneratorModel, forest: Arc<MastForest>)
    requires
        s.well_formed(),
    ensures
        rows_kept(s, continued(ops, s, forest)),
    decreases s.context.continuation.len(),
{
    broadcast use {
        lemma_row_shows_in_sequence,
        lemma_same_rows,
        lemma_same_rows_in_sequence,
    };

    if s.context.continuation.len() > 0 {
        let continuation = s.context.continuation.last();
        let s0 = continuation_taken(s);
        lemma_continuation_advances(ops, s0, continuation, shared(forest));
        if let Flow::Continue(s1) = continuation_executed(ops, s0, continuation, shared(forest)) {
            lemma_continued_keeps(
                ops,
                s1,
                match continuation {
                    Continuation::EnterForest(previous) => previous,
                    _ => forest,
                },
            );
        }
    }
}

/// The forest that is shared.
spec fn shared(forest: Arc<MastForest>) -> MastForest {
    *forest
}

/// Whether the rows that are there stay, and none is taken back.
pub open spec fn rows_kept(s: GeneratorModel, f: Flow) -> bool {
    match f {
        Flow::Continue(t) => rows_stay(s, t),
        Flow::Break(t) => rows_stay(s, t),
        Flow::Panic => true,
    }
}

/// If two steps correspond, and what comes after them too, so do both together.
pub proof fn lemma_then_rows(fa: Flow, fb: Flow, ra: Flow, rb: Flow, same: bool)
    requires
        follows(fa, fb, same),
        fa is Continue ==> follows(ra, rb, same),
        fa !is Continue ==> ra == fa,
        fb !is Continue ==> rb == fb,
        fb matches Flow::Continue(y) ==> rows_kept(y, rb),
    ensures
        follows(ra, rb, same),
{
    broadcast use {
        lemma_row_shows_in_sequence,
        lemma_rows_agree_in_sequence,
        lemma_same_rows_in_sequence,
    };

}

/// All remaining steps correspond.
pub proof fn lemma_continued_follows<E: SyncOps>(
    ops: E,
    a: GeneratorModel,
    b: GeneratorModel,
    forest: Arc<MastForest>,
)
    requires
        alike(a, b),
        a.context.continuation == b.context.continuation,
    ensures
        follows(continued(ops, a, forest), continued(ops, b, forest), same_fragment(a, b)),
    decreases a.context.continuation.len(),
{
    if a.context.continuation.len() > 0 {
        let continuation = a.context.continuation.last();
        let (a0, b0) = (continuation_taken(a), continuation_taken(b));
        let next = match continuation {
            Continuation::EnterForest(previous) => previous,
            _ => forest,
        };
        assert(alike(a0, b0));
        lemma_continuation_follows(ops, a0, b0, continuation, shared(forest));
        lemma_continuation_advances(ops, a0, continuation, shared(forest));
        lemma_continuation_advances(ops, b0, continuation, shared(forest));
        let fa = continuation_executed(ops, a0, continuation, shared(forest));
        let fb = continuation_executed(ops, b0, continuation, shared(forest));
        if let Flow::Continue(x) = fa {
            lemma_continued_follows(ops, x, fb->Continue_0, next);
        }
        if let Flow::Continue(y) = fb {
            lemma_continued_keeps(ops, y, next);
        }
        lemma_then_rows(
            fa,
            fb,
            continued(ops, a, forest),
            continued(ops, b, forest),
            same_fragment(a, b),
        );
    }
}

/// Generating fragments corresponds.
pub proof fn lemma_generated_follows<E: SyncOps>(
    ops: E,
    a: GeneratorModel,
    b: GeneratorModel,
    state: NodeExecutionState,
)
    requires
        alike(a, b),
        a.context.continuation == b.context.continuation,
        a.context.initial_mast_forest == b.context.initial_mast_forest,
    ensures
        follows(generated(ops, a, state), generated(ops, b, state), same_fragment(a, b)),
{
    let forest = a.context.initial_mast_forest;
    lemma_resumption_follows(ops, a, b, state, shared(forest));
    lemma_resumption_advances(ops, a, state, shared(forest));
    lemma_resumption_advances(ops, b, state, shared(forest));
    let fa = node_resumed(ops, a, state, shared(forest));
    let fb = node_resumed(ops, b, state, shared(forest));
    if let Flow::Continue(x) = fa {
        lemma_continued_follows(ops, x, fb->Continue_0, forest);
    }
    if let Flow::Continue(y) = fb {
        lemma_continued_keeps(ops, y, forest);
    }
    lemma_then_rows(fa, fb, generated(ops, a, state), generated(ops, b, state), same_fragment(a, b));
}

/// A smaller fragment that begins in the same context has the first rows of a larger one: as many
/// as its size says, or all if there are fewer; and if there are fewer, nothing remains to be
/// executed after the smaller one either, and the rows of the stack and of the system that follow
/// are the same. If there are more, the row of the larger one that comes next shows the rows of
/// the stack and of the system that follow the smaller one.
pub proof fn law_fragment_prefix<E: SyncOps>(ops: E, context: ContextModel, m: usize, n: usize)
    requires
        context.stack.top.len() == MIN_STACK_DEPTH,
        0 < m <= n,
        context_generated(ops, context, n) !is Panic,
    ensures
        context_generated(ops, context, m) !is Panic,
        ({
            let (small, small_stack, small_system) = fragment_from(ops, context, m);
            let (large, large_stack, large_system) = fragment_from(ops, context, n);
            &&& small[0].len() == if large[0].len() < m {
                large[0].len()
            } else {
                m as nat
            }
            &&& forall|c: int|
                0 <= c < CORE_TRACE_WIDTH ==> #[trigger] small[c] == large[c].take(
                    small[0].len() as int,
                )
            &&& large[0].len() <= m ==> small_stack == large_stack && small_system == large_system
            &&& large[0].len() > m ==> {
                &&& forall|c: int|
                    0 <= c < SYS_TRACE_WIDTH ==> #[trigger] large[c][m as int] == small_system[c]
                &&& forall|c: int|
                    0 <= c < STACK_TRACE_WIDTH ==> #[trigger] large[STACK_TRACE_OFFSET + c][m as int]
                        == small_stack[c]
            }
        }),
{
    let a = initial_state(context, m);
    let b = initial_state(context, n);
    let state = context.initial_execution_state;
    assert(rows_agree(a.columns, b.columns, 0, m as int)) by {
        reveal(rows_agree);
    }
    assert(alike(a, b));
    reveal(context_generated);
    lemma_generated_follows(ops, a, b, state);
    law_fragment_rows(ops, a, state);
    law_fragment_rows(ops, b, state);
    let x = final_state(context_generated(ops, context, m));
    let y = final_state(context_generated(ops, context, n));
    let rows = x.rows_built();
    let (small, _, _) = fragment_from(ops, context, m);
    let (large, _, _) = fragment_from(ops, context, n);
    assert(rows_agree(x.columns, y.columns, 0, rows)) by {
        reveal(rows_agree);
    }
    assert forall|c: int| 0 <= c < CORE_TRACE_WIDTH implies #[trigger] small[c] == large[c].take(
        rows,
    ) by {
        reveal(rows_agree);
        assert(x.columns[c].len() == m);
        assert(y.columns[c].len() == n);
        assert(small[c] =~= large[c].take(rows));
    }
    assert(x.columns[0].len() == m);
    assert(y.columns[0].len() == n);
    if large[0].len() > m {
        reveal(row_shows);
        assert(row_shows(y.columns, m as int, x.system_rows, x.stack_rows));
        let (system, stack) = (x.system_rows.unwrap(), x.stack_rows.unwrap());
        assert forall|c: int| 0 <= c < SYS_TRACE_WIDTH implies #[trigger] large[c][m as int]
            == system[c] by {
            assert(y.columns[0 + c][m as int] == system[c]);
        }
        assert forall|c: int| 0 <= c < STACK_TRACE_WIDTH implies #[trigger] large[STACK_TRACE_OFFSET
            + c][m as int] == stack[c] by {
            assert(y.columns[STACK_TRACE_OFFSET + c][m as int] == stack[c]);
        }
    }
}

} // verus!
