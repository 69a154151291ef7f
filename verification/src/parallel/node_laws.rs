//! What the end of a node, an operation of a basic block and the choice of the next node do.

use crate::continuation::Continuation;
use crate::felt::felt;
use crate::felt::Felt;
use crate::mast::DynNode;
use crate::mast::MastForest;
use crate::mast::MastNode;
use crate::mast::OpBatchModel;
use crate::mast::Operation;
use crate::mast_laws::law_group_of_operation;
use crate::mast_laws::law_next_group_with_operations;
use crate::mast_laws::law_procedure_found;
use crate::parallel::context_laws::law_call_returns_to_context;
use crate::parallel::context_laws::runs_in;
use crate::parallel::decoder_laws::law_dyn_row;
use crate::parallel::decoder_laws::law_end_row;
use crate::parallel::decoder_laws::law_operation_row;
use crate::parallel::decoder_laws::one_row_written;
use crate::parallel::decoder_laws::same_system;
use crate::parallel::decoder_laws::shows_no_block;
use crate::parallel::decoder_laws::shows_op;
use crate::parallel::decoder_laws::top_removed;
use crate::parallel::execution::callee_found;
use crate::parallel::execution::continuation_taken;
use crate::parallel::execution::continued;
use crate::parallel::execution::dyn_callee;
use crate::parallel::execution::dyn_started;
use crate::parallel::execution::end_resumed;
use crate::parallel::execution::op_executed;
use crate::parallel::execution::resolution_taken;
use crate::parallel::execution::OpOutcome;
use crate::parallel::execution::SyncOps;
use crate::parallel::model::condition_taken;
use crate::parallel::model::context_restored;
use crate::parallel::model::decremented;
use crate::parallel::model::node_ended;
use crate::parallel::model::Flow;
use crate::parallel::model::GeneratorModel;
use crate::parallel::resume::final_state;
use crate::parallel::span_laws::op_finished;
use crate::word::Word;
use std::sync::Arc;
use vstd::prelude::*;

verus! {

/// Whether a row ends a node: it shows END and the digest of the node, outside of basic blocks.
pub open spec fn shows_end(columns: Seq<Seq<Felt>>, r: int, digest: Word) -> bool {
    &&& shows_op(columns, r, 0x70)
    &&& columns[16][r] == digest.e0
    &&& columns[17][r] == digest.e1
    &&& columns[18][r] == digest.e2
    &&& columns[19][r] == digest.e3
    &&& shows_no_block(columns, r)
}

/// Whether a node runs in a context of its own.
pub open spec fn has_context(node: MastNode) -> bool {
    node is Call || (node matches MastNode::Dyn(n) && n.is_dyncall)
}

/// A node ends with a row that shows its own digest. A node with a context of its own returns to
/// the recorded one; the others stay in their context. A loop that was entered takes its last
/// condition off the stack; other nodes without a context leave the stack alone.
pub proof fn law_node_ends(s: GeneratorModel, node: MastNode)
    requires
        s.well_formed(),
        end_resumed(s, node) !is Panic,
    ensures
        node !is External,
        ({
            let t = final_state(end_resumed(s, node));
            let ends = s.context.replay.block_stack.node_end;
            let contexts = s.context.replay.block_stack.execution_contexts;
            let stacks = s.context.replay.stack_overflow.restore_context_info;
            &&& one_row_written(s, t)
            &&& ends.len() > 0
            &&& shows_end(t.columns, s.rows_built(), node.spec_digest())
            &&& t.columns[8][s.rows_built()] == ends[0].ended_node_addr
            &&& t.context.decoder.current_addr == ends[0].prev_addr
            &&& t.context.decoder.parent_addr == ends[0].prev_parent_addr
            &&& t.context.replay.block_stack.node_end == ends.drop_first()
            &&& if has_context(node) {
                &&& contexts.len() > 0
                &&& stacks.len() > 0
                &&& runs_in(t, contexts[0].parent_ctx.id as int, false, contexts[0].parent_fn_hash)
                &&& t.context.system.fmp == contexts[0].parent_fmp
                &&& t.context.stack.depth == stacks[0].0
                &&& t.context.stack.overflow_addr == stacks[0].1
                &&& t.context.stack.top == s.context.stack.top
                &&& t.context.replay.block_stack.execution_contexts == contexts.drop_first()
            } else {
                &&& same_system(s.context.system, t.context.system)
                &&& t.context.replay.block_stack.execution_contexts == contexts
                &&& if node is Loop && ends[0].flags@.loop_entered {
                    top_removed(
                        s.context.stack,
                        s.context.replay.stack_overflow,
                        t.context.stack,
                        t.context.replay.stack_overflow,
                    )
                } else {
                    &&& t.context.stack == s.context.stack
                    &&& t.context.replay.stack_overflow == s.context.replay.stack_overflow
                }
            }
        }),
{
    let digest = node.spec_digest();
    if has_context(node) {
        law_call_returns_to_context(s, digest);
        let s1 = context_restored(s).unwrap();
        assert(s1.well_formed());
        law_end_row(s1, digest);
    } else if node is Loop && s.context.replay.block_stack.node_end[0].flags@.loop_entered {
        let (addr, flags, s1) = node_ended(s).unwrap();
        let s2 = decremented(s1).unwrap();
        let s3 = decremented(s).unwrap();
        assert(s3.well_formed());
        assert(node_ended(s3) == Some((addr, flags, s2))) by {
            assert(node_ended(s3).unwrap().2 =~= s2);
        }
        law_end_row(s3, digest);
    } else {
        law_end_row(s, digest);
    }
}

/// The condition of a loop is the top of the stack, and is taken off it.
pub proof fn law_condition_taken(s: GeneratorModel)
    requires
        s.well_formed(),
        condition_taken(s) is Some,
    ensures
        ({
            let (condition, t) = condition_taken(s).unwrap();
            &&& condition == s.context.stack.top[15]
            &&& top_removed(
                s.context.stack,
                s.context.replay.stack_overflow,
                t.context.stack,
                t.context.replay.stack_overflow,
            )
            &&& t.context.system == s.context.system
            &&& t.columns == s.columns
        }),
{
}

// OPERATIONS

/// EMIT does nothing but write its row, without helper registers; for every other operation, the
/// processor decides.
pub proof fn law_emit<E: SyncOps>(ops: E, s: GeneratorModel, op: Operation, forest: MastForest)
    ensures
        op.op_code == 31 ==> op_executed(ops, s, op, forest) == OpOutcome::Done(s, None),
        op.op_code != 31 ==> op_executed(ops, s, op, forest) == ops.outcome(s, op, forest),
{
}

/// An operation of a batch writes one row, which shows its code, its distance from the first
/// operation of its group, and the helper registers that its execution gave. After the last
/// operation of a group, the next group that holds operations is decoded, if there is one, and
/// one group fewer is left; otherwise the rest of the group is.
pub proof fn law_operation_finished<E: SyncOps>(
    ops: E,
    s: GeneratorModel,
    batch: OpBatchModel,
    op_idx: int,
    g: int,
    forest: MastForest,
)
    requires
        s.well_formed(),
        batch.well_formed(),
        0 <= g < batch.num_groups,
        batch.indptr[g] <= op_idx < batch.indptr[g + 1],
        op_idx < batch.ops.len(),
        batch.ops[op_idx].op_code < 0x80,
        op_finished(ops, s, batch, op_idx, forest) !is Panic,
    ensures
        op_executed(ops, s, batch.ops[op_idx], forest) matches OpOutcome::Done(s1, helpers) && {
            let t = final_state(op_finished(ops, s, batch, op_idx, forest));
            let r = s.rows_built();
            let op = batch.ops[op_idx];
            &&& one_row_written(s1, t)
            &&& s1.rows_built() == r
            &&& shows_op(t.columns, r, op.op_code as int)
            &&& t.columns[24][r]@ == 1
            &&& t.columns[26][r]@ == op_idx - batch.indptr[g]
            &&& forall|i: int|
                0 <= i < 6 ==> #[trigger] t.columns[18 + i][r] == match helpers {
                    Some(h) => h[i],
                    None => felt(0),
                }
            &&& op_finished(ops, s, batch, op_idx, forest) is Continue ==> {
                let before = s1.span_context.unwrap();
                let after = t.span_context.unwrap();
                let left = if op.imm_value is Some {
                    felt(before.num_groups_left@ - 1)
                } else {
                    before.num_groups_left
                };
                &&& s1.span_context is Some
                &&& t.span_context is Some
                &&& op_idx + 1 < batch.indptr[g + 1] || op_idx + 1 == batch.ops.len() ==> {
                    &&& after.group_ops_left@ == before.group_ops_left@ as int / 128
                    &&& after.num_groups_left == left
                }
                &&& forall|next: int|
                    op_idx + 1 == batch.indptr[g + 1] && g < next < batch.num_groups
                        && batch.indptr[next] == op_idx + 1 && op_idx + 1 < batch.indptr[next + 1]
                        ==> after.group_ops_left == #[trigger] batch.groups[next]
                        && after.num_groups_left == felt(left@ - 1)
            }
        },
{
    let op = batch.ops[op_idx];
    ops.lemma_frame(s, op, forest);
    law_group_of_operation(batch, op_idx);
    if let OpOutcome::Done(s1, helpers) = op_executed(ops, s, op, forest) {
        law_operation_row(s1, op, batch.idx_in_group(op_idx), helpers);
        law_next_group_with_operations(batch, g + 1);
    }
}

// THE NEXT NODE

/// A dynamic node calls the digest that its row shows.
pub proof fn law_dyn_calls_what_it_shows(s: GeneratorModel, node: DynNode)
    requires
        s.well_formed(),
        dyn_started(s, node) !is Panic,
    ensures
        ({
            let columns = final_state(dyn_started(s, node)).columns;
            let r = s.rows_built();
            &&& columns[16][r] == dyn_callee(s).e0
            &&& columns[17][r] == dyn_callee(s).e1
            &&& columns[18][r] == dyn_callee(s).e2
            &&& columns[19][r] == dyn_callee(s).e3
        }),
{
    law_dyn_row(s, node);
}

/// The callee of a dynamic node is the procedure of its forest that has the digest, if there is
/// one, and otherwise the next recorded node of another forest, which is used up.
pub proof fn law_callee_found(s: GeneratorModel, callee: Word, forest: MastForest)
    ensures
        ({
            let recorded = s.context.replay.resolutions;
            match callee_found(s, callee, forest) {
                Some((id, other, t)) => if forest.spec_find_procedure_root(callee) is Some {
                    &&& forest.spec_find_procedure_root(callee) == Some(id)
                    &&& other == forest
                    &&& t == s
                } else {
                    &&& recorded.len() > 0
                    &&& id == recorded[0].0
                    &&& other == *recorded[0].1
                    &&& t.context.replay.resolutions == recorded.drop_first()
                    &&& t.context.system == s.context.system
                    &&& t.context.stack == s.context.stack
                    &&& t.context.decoder == s.context.decoder
                    &&& t.columns == s.columns
                    &&& t.context.replay.block_stack == s.context.replay.block_stack
                    &&& t.context.replay.hasher == s.context.replay.hasher
                    &&& t.context.replay.memory_reads == s.context.replay.memory_reads
                    &&& t.context.replay.stack_overflow == s.context.replay.stack_overflow
                    &&& t.context.replay.advice == s.context.replay.advice
                },
                None => forest.spec_find_procedure_root(callee) is None && recorded.len() == 0,
            }
        }),
        forest.spec_find_procedure_root(callee) is None ==> callee_found(s, callee, forest)
            == resolution_taken(s),
{
    law_procedure_found(forest, callee);
}

/// Where what remains begins with another forest, the rest is executed in that forest, and no row
/// is written for it. Where nothing remains, nothing happens.
pub proof fn law_forest_entered<E: SyncOps>(
    ops: E,
    s: GeneratorModel,
    previous: Arc<MastForest>,
    forest: Arc<MastForest>,
)
    ensures
        s.context.continuation.len() == 0 ==> continued(ops, s, forest) == Flow::Continue(s),
        s.context.continuation.len() > 0 && s.context.continuation.last()
            == Continuation::EnterForest(previous) ==> continued(ops, s, forest) == continued(
            ops,
            continuation_taken(s),
            previous,
        ),
        s.context.continuation.len() > 0 ==> continuation_taken(s).context.continuation
            == s.context.continuation.take(s.context.continuation.len() - 1),
{
    if s.context.continuation.len() > 0 {
        assert(s.context.continuation.drop_last() =~= s.context.continuation.take(
            s.context.continuation.len() - 1,
        ));
    }
}

} // verus!
