//! A basic block can be resumed at any of its operations: what the decoder needs to know there can
//! be told from the block alone.

use crate::block_stack::BasicBlockContext;
use crate::felt::felt;
use crate::felt::lemma_felt_of_view;
use crate::felt::lemma_felt_small;
use crate::felt::MODULUS;
use crate::layout::BATCH_SIZE;
use crate::layout::OPCODE_EMIT;
use crate::layout::OPCODE_PUSH;
use crate::mast::BasicBlockNode;
use crate::mast::MastForest;
use crate::mast::OpBatch;
use crate::mast::OpBatchModel;
use crate::parallel::execution::block_resumed;
use crate::parallel::execution::group_advanced;
use crate::parallel::execution::groups_before;
use crate::parallel::execution::groups_consumed;
use crate::parallel::execution::groups_from;
use crate::parallel::execution::num_pushes;
use crate::parallel::execution::op_executed;
use crate::parallel::execution::same_frame;
use crate::parallel::execution::span_context_at;
use crate::parallel::execution::without_ops;
use crate::parallel::execution::OpOutcome;
use crate::parallel::execution::SyncOps;
use crate::parallel::model::operation_row;
use crate::parallel::model::row_added;
use crate::parallel::model::Flow;
use crate::parallel::model::GeneratorModel;
use crate::pow2::law_next_pow2;
use crate::pow2::next_pow2;
use crate::pow2::pow2_from;
use vstd::prelude::*;

verus! {

/// Whether the groups of a batch encode its operations: seven bits each, the first operation
/// lowest. PUSH is the one operation with an immediate value. The groups that follow a group hold
/// the immediate values of its operations, and behind them comes the next group of operations.
pub open spec fn encoded(batch: OpBatchModel) -> bool {
    &&& batch.well_formed()
    &&& forall|i: int|
        #![trigger batch.ops[i]]
        0 <= i < batch.ops.len() ==> {
            let group = batch.group_of(i);
            let code = without_ops(batch.groups[group]@ as int, batch.idx_in_group(i));
            &&& batch.ops[i].op_code == code % 0x80
            &&& batch.ops[i].imm_value is Some <==> batch.ops[i].op_code == OPCODE_PUSH
            &&& i + 1 == batch.indptr[group + 1] ==> {
                &&& code / 0x80 == 0
                &&& batch.op_group_from(group + 1) matches Some(next) ==> next == group + 1
                    + num_pushes(batch.groups[group]@ as int, batch.idx_in_group(i) + 1)
            }
        }
}

/// An operation lies within its group.
pub proof fn lemma_group_of(batch: OpBatchModel, op_idx: int, g: int)
    requires
        batch.well_formed(),
        0 <= op_idx < batch.ops.len(),
        0 <= g < batch.num_groups,
        batch.indptr[g] <= op_idx,
    ensures
        g <= batch.group_from(op_idx, g) < batch.num_groups,
        batch.indptr[batch.group_from(op_idx, g)] <= op_idx < batch.indptr[batch.group_from(
            op_idx,
            g,
        ) + 1],
    decreases batch.num_groups - g,
{
    if op_idx >= batch.indptr[g + 1] {
        assert(g + 1 < batch.num_groups);
        lemma_group_of(batch, op_idx, g + 1);
    }
}

/// The group of the operation that follows the last one of a group is the next one that holds
/// operations.
proof fn lemma_next_group(batch: OpBatchModel, op_idx: int, g: int)
    requires
        batch.well_formed(),
        0 <= op_idx < batch.ops.len(),
        0 <= g < batch.num_groups,
        batch.indptr[g] == op_idx,
    ensures
        batch.op_group_from(g) == Some(batch.group_from(op_idx, g)),
    decreases batch.num_groups - g,
{
    if batch.indptr[g] == batch.indptr[g + 1] {
        assert(g + 1 < batch.num_groups);
        lemma_next_group(batch, op_idx, g + 1);
    } else {
        assert(batch.indptr[g] <= batch.indptr[g + 1]);
    }
}

/// Groups that end at or before an operation are passed over.
proof fn lemma_groups_passed(batch: OpBatchModel, op_idx: int, g: int, h: int)
    requires
        batch.well_formed(),
        0 <= g <= h < batch.num_groups,
        batch.indptr[h] <= op_idx,
    ensures
        batch.group_from(op_idx, g) == batch.group_from(op_idx, h),
    decreases h - g,
{
    if g < h {
        lemma_indptr_grows(batch, g + 1, h);
        lemma_groups_passed(batch, op_idx, g + 1, h);
    }
}

/// Later groups start no earlier.
pub proof fn lemma_indptr_grows(batch: OpBatchModel, g: int, h: int)
    requires
        batch.well_formed(),
        0 <= g <= h <= batch.num_groups,
    ensures
        batch.indptr[g] <= batch.indptr[h],
    decreases h - g,
{
    if g < h {
        assert(batch.indptr[g] <= batch.indptr[g + 1]);
        lemma_indptr_grows(batch, g + 1, h);
    }
}

/// One more operation is shifted out of a group, and counted if it has an immediate value.
proof fn lemma_one_more_op(group: int, n: int)
    requires
        n >= 0,
        group >= 0,
    ensures
        without_ops(group, n + 1) == without_ops(group, n) / 0x80,
        num_pushes(group, n + 1) == num_pushes(group, n) + if without_ops(group, n) % 0x80
            == OPCODE_PUSH {
            1int
        } else {
            0int
        },
        0 <= without_ops(group, n) <= group,
    decreases n,
{
    if n > 0 {
        lemma_one_more_op(group / 0x80, n - 1);
    } else {
        assert(without_ops(group, 1) == without_ops(group / 0x80, 0));
        assert(num_pushes(group / 0x80, 0) == 0);
    }
}

/// The state after an operation: it is executed, its row is added and, where it is the last one of
/// its group, the next group starts.
pub open spec fn op_finished<E: SyncOps>(
    ops: E,
    s: GeneratorModel,
    batch: OpBatchModel,
    op_idx: int,
    forest: MastForest,
) -> Flow {
    match op_executed(ops, s, batch.ops[op_idx], forest) {
        OpOutcome::Done(s1, helpers) => match operation_row(
            s1,
            batch.ops[op_idx],
            batch.idx_in_group(op_idx),
            helpers,
        ) {
            Flow::Continue(s2) => group_advanced(s2, batch, op_idx),
            f => f,
        },
        _ => Flow::Panic,
    }
}

/// The decoder before the next operation.
proof fn lemma_span_advances(
    node: BasicBlockNode,
    batch_index: int,
    op_idx: int,
    span: BasicBlockContext,
    next: BasicBlockContext,
)
    requires
        0 <= batch_index < node.spec_op_batches().len(),
        encoded(node.spec_op_batches()[batch_index]@),
        forall|g: int|
            0 <= g < BATCH_SIZE ==> (#[trigger] node.spec_op_batches()[batch_index]@.groups[g])@
                < MODULUS,
        node.spec_num_op_groups() <= u32::MAX,
        groups_before(node.spec_op_batches(), batch_index) >= 0,
        op_idx + 1 < node.spec_op_batches()[batch_index]@.ops.len(),
        span_context_at(node, batch_index, op_idx) == Some(span),
        span_context_at(node, batch_index, op_idx + 1) == Some(next),
    ensures
        ({
            let batch = node.spec_op_batches()[batch_index]@;
            let group = batch.group_of(op_idx);
            let left = felt(span.group_ops_left@ as int / 0x80);
            let num_left = if batch.ops[op_idx].imm_value is Some {
                felt(span.num_groups_left@ - 1)
            } else {
                span.num_groups_left
            };
            if op_idx + 1 == batch.indptr[group + 1] {
                &&& batch.op_group_from(group + 1) matches Some(g) && next.group_ops_left
                    == batch.groups[g]
                &&& next.num_groups_left == felt(num_left@ - 1)
                &&& left@ == 0
            } else {
                &&& next.group_ops_left == left
                &&& next.num_groups_left == num_left
            }
        }),
{
    let batches = node.spec_op_batches();
    let batch = batches[batch_index]@;
    let group = batch.group_of(op_idx);
    let value = batch.groups[group]@ as int;
    let n = batch.idx_in_group(op_idx);
    lemma_next_op(batch, op_idx);
    let total = node.spec_num_op_groups();
    let before = groups_before(batches, batch_index);
    let consumed = before + num_pushes(value, n) + group + 1;
    assert(consumed == groups_consumed(batches, batch_index, op_idx));
    lemma_felt_small(without_ops(value, n));
    lemma_felt_small(without_ops(value, n + 1));
    lemma_pushes_nonnegative(value, n);
    lemma_felt_small(total - consumed);
    assert(span.group_ops_left@ == without_ops(value, n));
    assert(span.num_groups_left@ == total - consumed);
    let g = batch.group_of(op_idx + 1);
    let consumed_next = groups_consumed(batches, batch_index, op_idx + 1);
    if op_idx + 1 == batch.indptr[group + 1] {
        let next_value = batch.groups[g]@ as int;
        assert(num_pushes(next_value, 0) == 0);
        assert(without_ops(next_value, 0) == next_value);
        assert(consumed_next == before + g + 1);
        lemma_felt_of_view(batch.groups[g]);
        if batch.ops[op_idx].imm_value is Some {
            lemma_felt_small(total - consumed - 1);
        }
    } else {
        assert(consumed_next == before + num_pushes(value, n + 1) + group + 1);
    }
}

/// Where the operation after another stands, and what is left of the group of the first.
proof fn lemma_next_op(batch: OpBatchModel, op_idx: int)
    requires
        encoded(batch),
        0 <= op_idx,
        op_idx + 1 < batch.ops.len(),
        forall|g: int| 0 <= g < BATCH_SIZE ==> (#[trigger] batch.groups[g])@ < MODULUS,
    ensures
        ({
            let group = batch.group_of(op_idx);
            let value = batch.groups[group]@ as int;
            let n = batch.idx_in_group(op_idx);
            let g = batch.group_of(op_idx + 1);
            &&& 0 <= group < batch.num_groups
            &&& 0 <= g < batch.num_groups
            &&& 0 <= n
            &&& value < MODULUS
            &&& batch.groups[g]@ < MODULUS
            &&& without_ops(value, n + 1) == without_ops(value, n) / 0x80
            &&& 0 <= without_ops(value, n) <= value
            &&& num_pushes(value, n + 1) == num_pushes(value, n) + if batch.ops[op_idx].imm_value
                is Some {
                1int
            } else {
                0int
            }
            &&& if op_idx + 1 == batch.indptr[group + 1] {
                &&& batch.op_group_from(group + 1) == Some(g)
                &&& batch.idx_in_group(op_idx + 1) == 0
                &&& g == group + 1 + num_pushes(value, n + 1)
                &&& without_ops(value, n + 1) == 0
            } else {
                &&& g == group
                &&& batch.idx_in_group(op_idx + 1) == n + 1
            }
        }),
{
    let group = batch.group_of(op_idx);
    lemma_group_of(batch, op_idx, 0);
    lemma_group_of(batch, op_idx + 1, 0);
    let value = batch.groups[group]@ as int;
    let n = batch.idx_in_group(op_idx);
    lemma_one_more_op(value, n);
    assert(batch.ops[op_idx].op_code == without_ops(value, n) % 0x80);
    if op_idx + 1 == batch.indptr[group + 1] {
        assert(group + 1 < batch.num_groups);
        lemma_next_group(batch, op_idx + 1, group + 1);
        lemma_groups_passed(batch, op_idx + 1, 0, group + 1);
        lemma_op_group_starts(batch, group + 1, op_idx + 1);
    } else {
        lemma_groups_passed(batch, op_idx, 0, group);
        lemma_groups_passed(batch, op_idx + 1, 0, group);
    }
}

/// The number of operations with an immediate value is not negative.
pub proof fn lemma_pushes_nonnegative(group: int, n: int)
    ensures
        num_pushes(group, n) >= 0,
    decreases n,
{
    if n > 0 {
        lemma_pushes_nonnegative(group / 0x80, n - 1);
    }
}

/// The next group that holds operations starts where the empty groups before it do.
proof fn lemma_op_group_starts(batch: OpBatchModel, g: int, op_idx: int)
    requires
        batch.well_formed(),
        0 <= g < batch.num_groups,
        batch.indptr[g] == op_idx,
        batch.op_group_from(g) is Some,
    ensures
        batch.indptr[batch.op_group_from(g).unwrap()] == op_idx,
    decreases batch.num_groups - g,
{
    if batch.indptr[g] == batch.indptr[g + 1] {
        if g + 1 < batch.num_groups {
            lemma_op_group_starts(batch, g + 1, op_idx);
        } else {
            assert(batch.op_group_from(g + 1) is None);
        }
    }
}

/// The number of groups of the first batches is not negative.
pub proof fn lemma_groups_before(batches: Seq<OpBatch>, n: int)
    requires
        0 <= n <= batches.len(),
    ensures
        groups_before(batches, n) >= 0,
    decreases n,
{
    if n > 0 {
        lemma_groups_before(batches, n - 1);
        law_next_pow2(batches[n - 1]@.num_groups as int);
    }
}

/// A basic block whose batches encode their operations can be resumed at any operation: after one
/// operation, the decoder is as it is when the block is resumed at the next operation, so that
/// resuming the block there gives what going on gives. Left out are blocks of 2^32 groups or more,
/// whose groups are not counted right.
pub proof fn law_block_resumes<E: SyncOps>(
    ops: E,
    s: GeneratorModel,
    node: BasicBlockNode,
    batch_index: int,
    op_idx: int,
    forest: MastForest,
)
    requires
        s.well_formed(),
        0 <= batch_index < node.spec_op_batches().len(),
        encoded(node.spec_op_batches()[batch_index]@),
        forall|g: int|
            0 <= g < BATCH_SIZE ==> (#[trigger] node.spec_op_batches()[batch_index]@.groups[g])@
                < MODULUS,
        node.spec_num_op_groups() <= u32::MAX,
        op_idx + 1 < node.spec_op_batches()[batch_index]@.ops.len(),
        span_context_at(node, batch_index, op_idx) is Some,
        span_context_at(node, batch_index, op_idx + 1) is Some,
    ensures
        ({
            let batch = node.spec_op_batches()[batch_index]@;
            let begun = s.with_span(span_context_at(node, batch_index, op_idx));
            match op_finished(ops, begun, batch, op_idx, forest) {
                Flow::Continue(t) => {
                    &&& t.span_context == span_context_at(node, batch_index, op_idx + 1)
                    &&& block_resumed(ops, s, node, batch_index, op_idx, forest)
                        == block_resumed(ops, t, node, batch_index, op_idx + 1, forest)
                },
                f => block_resumed(ops, s, node, batch_index, op_idx, forest) == f,
            }
        }),
{
    let batch = node.spec_op_batches()[batch_index]@;
    let span = span_context_at(node, batch_index, op_idx).unwrap();
    let next = span_context_at(node, batch_index, op_idx + 1).unwrap();
    lemma_groups_before(node.spec_op_batches(), batch_index);
    lemma_span_advances(node, batch_index, op_idx, span, next);
    let begun = s.with_span(Some(span));
    ops.lemma_frame(begun, batch.ops[op_idx], forest);
    match op_executed(ops, begun, batch.ops[op_idx], forest) {
        OpOutcome::Done(s1, helpers) => {
            assert(s1.span_context == Some(span)) by {
                if batch.ops[op_idx].op_code != OPCODE_EMIT {
                    assert(same_frame(begun, s1));
                }
            }
            match operation_row(s1, batch.ops[op_idx], batch.idx_in_group(op_idx), helpers) {
                Flow::Continue(s2) => {
                    assert(s2.span_context == Some(
                        BasicBlockContext {
                            group_ops_left: felt(span.group_ops_left@ as int / 0x80),
                            num_groups_left: if batch.ops[op_idx].imm_value is Some {
                                felt(span.num_groups_left@ - 1)
                            } else {
                                span.num_groups_left
                            },
                        },
                    )) by {
                        reveal(row_added);
                    }
                    match group_advanced(s2, batch, op_idx) {
                        Flow::Continue(s3) => {
                            assert(s3.span_context == Some(next));
                            assert(s3.with_span(Some(next)) =~= s3);
                        },
                        _ => {},
                    }
                },
                _ => {},
            }
        },
        _ => {},
    }
}

/// When a batch of a basic block starts, the groups of that batch and of those behind it are all
/// that is left of the groups of the block, if every batch but the last is full and the number of
/// groups of the last is a power of two.
pub proof fn law_groups_left_at_respan(node: BasicBlockNode, batch_index: int)
    requires
        0 <= batch_index < node.spec_op_batches().len(),
        forall|i: int|
            0 <= i < node.spec_op_batches().len() - 1 ==> (
            #[trigger] node.spec_op_batches()[i])@.num_groups == BATCH_SIZE,
        next_pow2(node.spec_op_batches().last()@.num_groups as int)
            == node.spec_op_batches().last()@.num_groups,
    ensures
        groups_from(node.spec_op_batches(), batch_index) == node.spec_num_op_groups()
            - groups_before(node.spec_op_batches(), batch_index),
    decreases node.spec_op_batches().len() - batch_index,
{
    let batches = node.spec_op_batches();
    lemma_full_batches(batches, batch_index);
    if batch_index + 1 < batches.len() {
        law_groups_left_at_respan(node, batch_index + 1);
        lemma_full_batches(batches, batch_index + 1);
        assert(batches[batch_index]@.num_groups == BATCH_SIZE);
    } else {
        assert(groups_from(batches, batch_index + 1) == 0);
        assert(batches[batch_index] == batches.last());
    }
}

proof fn lemma_full_batches(batches: Seq<OpBatch>, n: int)
    requires
        0 <= n < batches.len(),
        forall|i: int|
            0 <= i < batches.len() - 1 ==> (#[trigger] batches[i])@.num_groups == BATCH_SIZE,
    ensures
        groups_before(batches, n) == n * BATCH_SIZE,
    decreases n,
{
    if n > 0 {
        lemma_full_batches(batches, n - 1);
        assert(batches[n - 1]@.num_groups == BATCH_SIZE);
        assert(next_pow2(8) == 8) by {
            reveal_with_fuel(pow2_from, 5);
        }
    }
}

} // verus!
