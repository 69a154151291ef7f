//! A fragment may begin at any row: after the first row of a node, what remains of the node is
//! what the execution state and the continuations of the next clock cycle say.

use crate::block_stack::BasicBlockContext;
use crate::continuation::Continuation;
use crate::felt::felt;
use crate::felt::lemma_felt_of_view;
use crate::felt::lemma_felt_small;
use crate::felt::MODULUS;
use crate::layout::BATCH_SIZE;
use crate::mast::BasicBlockNode;
use crate::mast::CallNode;
use crate::mast::DynNode;
use crate::mast::JoinNode;
use crate::mast::LoopNode;
use crate::mast::MastForest;
use crate::mast::MastNode;
use crate::mast::MastNodeId;
use crate::mast::OpBatchModel;
use crate::mast::SplitNode;
use crate::parallel::execution::block_executed;
use crate::parallel::execution::block_resumed;
use crate::parallel::execution::call_started;
use crate::parallel::execution::continuation_executed;
use crate::parallel::execution::continuation_taken;
use crate::parallel::execution::continued;
use crate::parallel::execution::dyn_callee;
use crate::parallel::execution::dyn_started;
use crate::parallel::execution::end_resumed;
use crate::parallel::execution::generated;
use crate::parallel::execution::groups_before;
use crate::parallel::execution::groups_consumed;
use crate::parallel::execution::join_started;
use crate::parallel::execution::loop_ended;
use crate::parallel::execution::loop_resumed;
use crate::parallel::execution::loop_started;
use crate::parallel::execution::node_executed;
use crate::parallel::execution::node_resumed;
use crate::parallel::execution::num_pushes;
use crate::parallel::execution::resolution_taken;
use crate::parallel::execution::span_context_at;
use crate::parallel::execution::split_started;
use crate::parallel::execution::without_ops;
use crate::parallel::execution::SyncOps;
use crate::parallel::model::condition_taken;
use crate::parallel::model::decremented;
use crate::parallel::model::node_ended;
use crate::parallel::model::node_started;
use crate::parallel::model::repeat_row;
use crate::parallel::model::row_added;
use crate::parallel::model::span_row;
use crate::parallel::model::Flow;
use crate::parallel::model::GeneratorModel;
use crate::parallel::prefix_laws::alike;
use crate::parallel::prefix_laws::follows;
use crate::parallel::prefix_laws::lemma_continuation_follows;
use crate::parallel::prefix_laws::lemma_continued_follows;
use crate::parallel::prefix_laws::lemma_continued_keeps;
use crate::parallel::prefix_laws::lemma_join_unfold;
use crate::parallel::prefix_laws::lemma_loop_node_steps;
use crate::parallel::prefix_laws::lemma_loop_steps;
use crate::parallel::prefix_laws::lemma_node_follows;
use crate::parallel::prefix_laws::lemma_rows_agree;
use crate::parallel::prefix_laws::lemma_then_rows;
use crate::parallel::prefix_laws::rows_agree;
use crate::parallel::prefix_laws::rows_kept;
use crate::parallel::prefix_laws::same_fragment;
use crate::parallel::progress::advances;
use crate::parallel::progress::kept;
use crate::parallel::progress::lemma_condition_keeps;
use crate::parallel::progress::lemma_continuation_advances;
use crate::parallel::progress::lemma_node_advances;
use crate::parallel::progress::lemma_row_advances;
use crate::parallel::progress::lemma_row_shows_in_sequence;
use crate::parallel::progress::lemma_same_rows_in_sequence;
use crate::parallel::progress::lemma_start_advances;
use crate::parallel::progress::row_shows;
use crate::parallel::span_laws::encoded;
use crate::parallel::span_laws::law_block_resumes;
use crate::parallel::span_laws::lemma_indptr_grows;
use crate::parallel::span_laws::op_finished;
use crate::pow2::law_next_pow2;
use crate::trace_state::ContextModel;
use crate::trace_state::NodeExecutionState;
use std::sync::Arc;
use vstd::prelude::*;

verus! {

/// The state with other steps remaining after the current node, in a forest.
pub open spec fn placed(
    s: GeneratorModel,
    rest: Seq<Continuation>,
    forest: Arc<MastForest>,
) -> GeneratorModel {
    GeneratorModel {
        context: ContextModel { continuation: rest, initial_mast_forest: forest, ..s.context },
        ..s
    }
}

/// A step, and after it the generation of what remains: a node in the given execution state, and
/// then the given steps.
pub open spec fn then_generated<E: SyncOps>(
    ops: E,
    f: Flow,
    state: NodeExecutionState,
    rest: Seq<Continuation>,
    forest: Arc<MastForest>,
) -> Flow {
    match f {
        Flow::Continue(t) => generated(ops, placed(t, rest, forest), state),
        f => f,
    }
}

/// Whether two ways to generate a fragment lead to the same rows and to the same state of the
/// processor, or neither fits the recording.
pub open spec fn equivalent(a: Flow, b: Flow) -> bool {
    follows(a, b, true)
}

/// What is equivalent to something is equivalent to all that this is equivalent to: so one may go
/// from row to row.
pub proof fn law_equivalent_in_sequence(a: Flow, b: Flow, c: Flow)
    requires
        equivalent(a, b),
        equivalent(b, c),
    ensures
        equivalent(a, c),
{
    reveal(rows_agree);
    reveal(row_shows);
}

/// Whether a fragment may begin in a state: it has the right shape and is not full.
pub open spec fn ready(s: GeneratorModel) -> bool {
    &&& s.well_formed()
    &&& s.rows_built() < s.fragment_size
}

/// The forest that is shared.
pub open spec fn shared(forest: Arc<MastForest>) -> MastForest {
    *forest
}

/// The forest after a remaining step.
spec fn next_forest(c: Continuation, forest: Arc<MastForest>) -> Arc<MastForest> {
    match c {
        Continuation::EnterForest(previous) => previous,
        _ => forest,
    }
}

/// A remaining step, and all that remain after it.
spec fn step_and_rest<E: SyncOps>(
    ops: E,
    s: GeneratorModel,
    c: Continuation,
    forest: Arc<MastForest>,
) -> Flow {
    match continuation_executed(ops, s, c, shared(forest)) {
        Flow::Continue(t) => continued(ops, t, next_forest(c, forest)),
        f => f,
    }
}

/// The remaining steps are the next one and those after it.
proof fn lemma_continued_unfold<E: SyncOps>(
    ops: E,
    s: GeneratorModel,
    rest: Seq<Continuation>,
    c: Continuation,
    forest: Arc<MastForest>,
)
    requires
        s.well_formed(),
        s.context.continuation == rest.push(c),
    ensures
        continuation_taken(s) == placed(s, rest, s.context.initial_mast_forest),
        continued(ops, s, forest) == step_and_rest(ops, continuation_taken(s), c, forest),
        continuation_executed(ops, continuation_taken(s), c, shared(forest)) matches Flow::Continue(
            t,
        ) ==> t.context.continuation == rest && t.well_formed(),
{
    assert(rest.push(c).drop_last() =~= rest);
    lemma_continuation_advances(ops, continuation_taken(s), c, shared(forest));
}

/// A remaining step of two generators in the same state, once it is the next one, corresponds.
proof fn lemma_next_step<E: SyncOps>(
    ops: E,
    x: GeneratorModel,
    y: GeneratorModel,
    c: Continuation,
    forest: Arc<MastForest>,
)
    requires
        alike(x, y),
        same_fragment(x, y),
        y.context.continuation == x.context.continuation.push(c),
    ensures
        equivalent(step_and_rest(ops, x, c, forest), continued(ops, y, forest)),
{
    let rest = x.context.continuation;
    lemma_continued_unfold(ops, y, rest, c, forest);
    let z = continuation_taken(y);
    assert(alike(x, z));
    lemma_continuation_follows(ops, x, z, c, shared(forest));
    lemma_continuation_advances(ops, x, c, shared(forest));
    let fa = continuation_executed(ops, x, c, shared(forest));
    let fb = continuation_executed(ops, z, c, shared(forest));
    let next = next_forest(c, forest);
    if let Flow::Continue(v) = fa {
        lemma_continued_follows(ops, v, fb->Continue_0, next);
    }
    if let Flow::Continue(w) = fb {
        lemma_continued_keeps(ops, w, next);
    }
    lemma_then_rows(
        fa,
        fb,
        step_and_rest(ops, x, c, forest),
        step_and_rest(ops, z, c, forest),
        true,
    );
}

/// A node, a remaining step and all that remain after it.
spec fn node_and_step<E: SyncOps>(
    ops: E,
    s: GeneratorModel,
    id: MastNodeId,
    c: Continuation,
    forest: Arc<MastForest>,
) -> Flow {
    match node_executed(ops, s, id, shared(forest)) {
        Flow::Continue(t) => step_and_rest(ops, t, c, forest),
        f => f,
    }
}

/// A node, and all that remains after it.
spec fn node_and_rest<E: SyncOps>(
    ops: E,
    s: GeneratorModel,
    id: MastNodeId,
    forest: Arc<MastForest>,
) -> Flow {
    match node_executed(ops, s, id, shared(forest)) {
        Flow::Continue(t) => continued(ops, t, forest),
        f => f,
    }
}

/// A node and a step after it correspond to the node with the step as the next continuation.
proof fn lemma_node_then_step<E: SyncOps>(
    ops: E,
    x: GeneratorModel,
    y: GeneratorModel,
    id: MastNodeId,
    c: Continuation,
    forest: Arc<MastForest>,
)
    requires
        alike(x, y),
        same_fragment(x, y),
        y.context.continuation == x.context.continuation.push(c),
    ensures
        equivalent(node_and_step(ops, x, id, c, forest), node_and_rest(ops, y, id, forest)),
        rows_kept(y, node_and_rest(ops, y, id, forest)),
{
    lemma_node_follows(ops, x, y, id, shared(forest));
    lemma_node_advances(ops, x, id, shared(forest));
    lemma_node_advances(ops, y, id, shared(forest));
    let fa = node_executed(ops, x, id, shared(forest));
    let fb = node_executed(ops, y, id, shared(forest));
    if let Flow::Continue(v) = fa {
        lemma_next_step(ops, v, fb->Continue_0, c, forest);
    }
    if let Flow::Continue(w) = fb {
        lemma_continued_keeps(ops, w, forest);
    }
    assert(rows_kept(y, node_and_rest(ops, y, id, forest))) by {
        broadcast use {lemma_row_shows_in_sequence, lemma_same_rows_in_sequence};

    }
    lemma_then_rows(
        fa,
        fb,
        node_and_step(ops, x, id, c, forest),
        node_and_rest(ops, y, id, forest),
        true,
    );
}

/// A step that breaks off, or does not fit, is equivalent to itself.
proof fn lemma_reflexive(s: GeneratorModel, f: Flow)
    requires
        advances(s, f),
        f !is Continue,
    ensures
        equivalent(f, f),
{
    broadcast use lemma_rows_agree;

}

/// A state is alike to itself with other steps remaining.
proof fn lemma_placed(s: GeneratorModel, rest: Seq<Continuation>, forest: Arc<MastForest>)
    requires
        ready(s),
    ensures
        alike(s, placed(s, rest, forest)),
        same_fragment(s, placed(s, rest, forest)),
{
    broadcast use lemma_rows_agree;

}

// STARTS OF NODES

/// After the first row of a join, its first child starts, with the second child and the end of the
/// join remaining.
pub proof fn law_join_resumes<E: SyncOps>(
    ops: E,
    s: GeneratorModel,
    id: MastNodeId,
    node: JoinNode,
    forest: Arc<MastForest>,
)
    requires
        ready(s),
        s.context.initial_mast_forest == forest,
        shared(forest).has(id),
        shared(forest).node(id) == MastNode::Join(node),
    ensures
        equivalent(
            generated(ops, s, NodeExecutionState::Start(id)),
            then_generated(
                ops,
                join_started(s, node, shared(forest)),
                NodeExecutionState::Start(node.first),
                s.context.continuation.push(Continuation::FinishJoin(id)).push(
                    Continuation::StartNode(node.second),
                ),
                forest,
            ),
        ),
{
    lemma_join_unfold(ops, s, id, node, shared(forest));
    let c = Continuation::FinishJoin(id);
    match join_started(s, node, shared(forest)) {
        Flow::Continue(s1) => {
            let rest = s.context.continuation.push(c);
            let next = Continuation::StartNode(node.second);
            let y = placed(s1, rest.push(next), forest);
            lemma_placed(s1, rest.push(next), forest);
            lemma_node_follows(ops, s1, y, node.first, shared(forest));
            lemma_node_advances(ops, s1, node.first, shared(forest));
            lemma_node_advances(ops, y, node.first, shared(forest));
            let fa = node_executed(ops, s1, node.first, shared(forest));
            let fb = node_executed(ops, y, node.first, shared(forest));
            if let Flow::Continue(w) = fb {
                lemma_continued_unfold(ops, w, rest, next, forest);
                lemma_continued_keeps(ops, w, forest);
                if let Flow::Continue(v) = fa {
                    let z = continuation_taken(w);
                    assert(alike(v, z));
                    lemma_node_then_step(ops, v, z, node.second, c, forest);
                }
            }
            lemma_then_rows(
                fa,
                fb,
                generated(ops, s, NodeExecutionState::Start(id)),
                generated(ops, y, NodeExecutionState::Start(node.first)),
                true,
            );
        },
        f => {
            lemma_reflexive(s, f);
        },
    }
}

/// After the first row of a split, the child that its condition chooses starts, with the end of the
/// split remaining.
pub proof fn law_split_resumes<E: SyncOps>(
    ops: E,
    s: GeneratorModel,
    id: MastNodeId,
    node: SplitNode,
    forest: Arc<MastForest>,
)
    requires
        ready(s),
        s.context.initial_mast_forest == forest,
        shared(forest).has(id),
        shared(forest).node(id) == MastNode::Split(node),
    ensures
        equivalent(
            generated(ops, s, NodeExecutionState::Start(id)),
            then_generated(
                ops,
                split_started(s, node, shared(forest)),
                NodeExecutionState::Start(
                    if s.item(0) == felt(1) {
                        node.on_true
                    } else {
                        node.on_false
                    },
                ),
                s.context.continuation.push(Continuation::FinishSplit(id)),
                forest,
            ),
        ),
{
    reveal(node_executed);
    lemma_start_advances(s, MastNode::Split(node), shared(forest));
    let c = Continuation::FinishSplit(id);
    let child = if s.item(0) == felt(1) {
        node.on_true
    } else {
        node.on_false
    };
    match split_started(s, node, shared(forest)) {
        Flow::Continue(s1) => {
            let rest = s.context.continuation.push(c);
            lemma_placed(s1, rest, forest);
            lemma_node_then_step(ops, s1, placed(s1, rest, forest), child, c, forest);
            assert(generated(ops, s, NodeExecutionState::Start(id)) == node_and_step(
                ops,
                s1,
                child,
                c,
                forest,
            ));
        },
        f => {
            lemma_reflexive(s, f);
        },
    }
}

/// After the first row of a call, the callee starts, with the end of the call remaining.
pub proof fn law_call_resumes<E: SyncOps>(
    ops: E,
    s: GeneratorModel,
    id: MastNodeId,
    node: CallNode,
    forest: Arc<MastForest>,
)
    requires
        ready(s),
        s.context.initial_mast_forest == forest,
        shared(forest).has(id),
        shared(forest).node(id) == MastNode::Call(node),
    ensures
        equivalent(
            generated(ops, s, NodeExecutionState::Start(id)),
            then_generated(
                ops,
                call_started(s, node, shared(forest)),
                NodeExecutionState::Start(node.callee),
                s.context.continuation.push(Continuation::FinishCall(id)),
                forest,
            ),
        ),
{
    reveal(node_executed);
    lemma_start_advances(s, MastNode::Call(node), shared(forest));
    let c = Continuation::FinishCall(id);
    match call_started(s, node, shared(forest)) {
        Flow::Continue(s1) => {
            let rest = s.context.continuation.push(c);
            lemma_placed(s1, rest, forest);
            lemma_node_then_step(ops, s1, placed(s1, rest, forest), node.callee, c, forest);
            assert(generated(ops, s, NodeExecutionState::Start(id)) == node_and_step(
                ops,
                s1,
                node.callee,
                c,
                forest,
            ));
        },
        f => {
            lemma_reflexive(s, f);
        },
    }
}

/// After the first row of a loop that is entered, its body starts, with the end of the body
/// remaining, where the loop is repeated or ends.
pub proof fn law_loop_resumes<E: SyncOps>(
    ops: E,
    s: GeneratorModel,
    id: MastNodeId,
    node: LoopNode,
    forest: Arc<MastForest>,
)
    requires
        ready(s),
        s.context.initial_mast_forest == forest,
        shared(forest).has(id),
        shared(forest).node(id) == MastNode::Loop(node),
        s.item(0) == felt(1),
    ensures
        equivalent(
            generated(ops, s, NodeExecutionState::Start(id)),
            then_generated(
                ops,
                loop_started(s, node, shared(forest)),
                NodeExecutionState::Start(node.body),
                s.context.continuation.push(Continuation::FinishLoop(id)),
                forest,
            ),
        ),
{
    lemma_start_advances(s, MastNode::Loop(node), shared(forest));
    lemma_loop_node_steps(ops, s, id, node, shared(forest));
    let c = Continuation::FinishLoop(id);
    match loop_started(s, node, shared(forest)) {
        Flow::Continue(s1) => {
            let rest = s.context.continuation.push(c);
            lemma_placed(s1, rest, forest);
            lemma_node_then_step(ops, s1, placed(s1, rest, forest), node.body, c, forest);
            assert(generated(ops, s, NodeExecutionState::Start(id)) == node_and_step(
                ops,
                s1,
                node.body,
                c,
                forest,
            ));
        },
        f => {
            lemma_reflexive(s, f);
        },
    }
}

/// After the first row of a loop that is not entered, the loop ends, if the recording of its end
/// says that it was not entered.
pub proof fn law_loop_not_entered_resumes<E: SyncOps>(
    ops: E,
    s: GeneratorModel,
    id: MastNodeId,
    node: LoopNode,
    forest: Arc<MastForest>,
)
    requires
        ready(s),
        s.context.initial_mast_forest == forest,
        shared(forest).has(id),
        shared(forest).node(id) == MastNode::Loop(node),
        s.item(0) != felt(1),
        node_ended(s) matches Some((_, flags, _)) ==> !flags@.loop_entered,
    ensures
        generated(ops, s, NodeExecutionState::Start(id)) == then_generated(
            ops,
            loop_started(s, node, shared(forest)),
            NodeExecutionState::End(id),
            s.context.continuation,
            forest,
        ),
{
    lemma_start_advances(s, MastNode::Loop(node), shared(forest));
    lemma_loop_node_steps(ops, s, id, node, shared(forest));
    if let Flow::Continue(s1) = loop_started(s, node, shared(forest)) {
        assert(placed(s1, s.context.continuation, forest) =~= s1);
        assert(s1.context.replay.block_stack.node_end == s.context.replay.block_stack.node_end) by {
            reveal(row_added);
        }
    }
}

/// After the row that repeats a loop, its body starts again.
pub proof fn law_repetition_resumes<E: SyncOps>(
    ops: E,
    s: GeneratorModel,
    id: MastNodeId,
    node: LoopNode,
    forest: Arc<MastForest>,
)
    requires
        ready(s),
        s.context.initial_mast_forest == forest,
        shared(forest).has(id),
        shared(forest).node(id) == MastNode::Loop(node),
        s.item(0) == felt(1),
        condition_taken(s) is Some,
    ensures
        equivalent(
            generated(ops, s, NodeExecutionState::LoopRepeat(id)),
            then_generated(
                ops,
                repeat_row(condition_taken(s).unwrap().1, node, shared(forest)),
                NodeExecutionState::Start(node.body),
                s.context.continuation.push(Continuation::FinishLoop(id)),
                forest,
            ),
        ),
{
    let s0 = condition_taken(s).unwrap().1;
    lemma_condition_keeps(s);
    lemma_start_advances(s0, MastNode::Loop(node), shared(forest));
    lemma_loop_steps(ops, s0, node, shared(forest), felt(1));
    let c = Continuation::FinishLoop(id);
    match repeat_row(s0, node, shared(forest)) {
        Flow::Continue(s1) => {
            let rest = s.context.continuation.push(c);
            lemma_placed(s1, rest, forest);
            lemma_node_then_step(ops, s1, placed(s1, rest, forest), node.body, c, forest);
            assert(generated(ops, s, NodeExecutionState::LoopRepeat(id)) == node_and_step(
                ops,
                s1,
                node.body,
                c,
                forest,
            ));
        },
        f => {
            lemma_reflexive(s0, f);
        },
    }
}

/// After the first row of a dynamic node whose callee is a procedure of the forest, the callee
/// starts, with the end of the node remaining.
pub proof fn law_dyn_resumes<E: SyncOps>(
    ops: E,
    s: GeneratorModel,
    id: MastNodeId,
    node: DynNode,
    callee: MastNodeId,
    forest: Arc<MastForest>,
)
    requires
        ready(s),
        s.context.initial_mast_forest == forest,
        shared(forest).has(id),
        shared(forest).node(id) == MastNode::Dyn(node),
        shared(forest).spec_find_procedure_root(dyn_callee(s)) == Some(callee),
    ensures
        equivalent(
            generated(ops, s, NodeExecutionState::Start(id)),
            then_generated(
                ops,
                dyn_started(s, node),
                NodeExecutionState::Start(callee),
                s.context.continuation.push(Continuation::FinishDyn(id)),
                forest,
            ),
        ),
{
    reveal(node_executed);
    lemma_start_advances(s, MastNode::Dyn(node), shared(forest));
    let c = Continuation::FinishDyn(id);
    match dyn_started(s, node) {
        Flow::Continue(s1) => {
            let rest = s.context.continuation.push(c);
            lemma_placed(s1, rest, forest);
            lemma_node_then_step(ops, s1, placed(s1, rest, forest), callee, c, forest);
            assert(generated(ops, s, NodeExecutionState::Start(id)) == node_and_step(
                ops,
                s1,
                callee,
                c,
                forest,
            ));
        },
        f => {
            lemma_reflexive(s, f);
        },
    }
}

/// A node in another forest, and then a step in this one, correspond to the node with the return
/// to this forest and the step as the next continuations.
proof fn lemma_foreign_node_then_step<E: SyncOps>(
    ops: E,
    x: GeneratorModel,
    id: MastNodeId,
    other: Arc<MastForest>,
    c: Continuation,
    forest: Arc<MastForest>,
)
    requires
        ready(x),
    ensures
        equivalent(
            match node_executed(ops, x, id, shared(other)) {
                Flow::Continue(t) => step_and_rest(ops, t, c, forest),
                f => f,
            },
            generated(
                ops,
                placed(
                    x,
                    x.context.continuation.push(c).push(Continuation::EnterForest(forest)),
                    other,
                ),
                NodeExecutionState::Start(id),
            ),
        ),
{
    broadcast use lemma_rows_agree;

    let rest = x.context.continuation.push(c);
    let enter = Continuation::EnterForest(forest);
    let y = placed(x, rest.push(enter), other);
    lemma_placed(x, rest.push(enter), other);
    lemma_node_follows(ops, x, y, id, shared(other));
    lemma_node_advances(ops, x, id, shared(other));
    lemma_node_advances(ops, y, id, shared(other));
    let fa = node_executed(ops, x, id, shared(other));
    let fb = node_executed(ops, y, id, shared(other));
    if let Flow::Continue(w) = fb {
        lemma_continued_keeps(ops, w, other);
        lemma_continued_unfold(ops, w, rest, enter, other);
        let z = continuation_taken(w);
        assert(step_and_rest(ops, z, enter, other) == continued(ops, z, forest));
        if let Flow::Continue(v) = fa {
            assert(alike(v, z));
            lemma_next_step(ops, v, z, c, forest);
        }
    }
    lemma_then_rows(
        fa,
        fb,
        match fa {
            Flow::Continue(t) => step_and_rest(ops, t, c, forest),
            f => f,
        },
        generated(ops, y, NodeExecutionState::Start(id)),
        true,
    );
}

/// After the first row of a dynamic node whose callee is in another forest, the recorded node of
/// that forest starts, with the return to this forest and the end of the node remaining.
pub proof fn law_dyn_in_other_forest_resumes<E: SyncOps>(
    ops: E,
    s: GeneratorModel,
    id: MastNodeId,
    node: DynNode,
    forest: Arc<MastForest>,
)
    requires
        ready(s),
        s.context.initial_mast_forest == forest,
        shared(forest).has(id),
        shared(forest).node(id) == MastNode::Dyn(node),
        shared(forest).spec_find_procedure_root(dyn_callee(s)) is None,
        s.context.replay.resolutions.len() > 0,
    ensures
        ({
            let (resolved, other) = s.context.replay.resolutions[0];
            equivalent(
                generated(ops, s, NodeExecutionState::Start(id)),
                match dyn_started(s, node) {
                    Flow::Continue(s1) => generated(
                        ops,
                        placed(
                            resolution_taken(s1).unwrap().2,
                            s.context.continuation.push(Continuation::FinishDyn(id)).push(
                                Continuation::EnterForest(forest),
                            ),
                            other,
                        ),
                        NodeExecutionState::Start(resolved),
                    ),
                    f => f,
                },
            )
        }),
{
    reveal(node_executed);
    lemma_start_advances(s, MastNode::Dyn(node), shared(forest));
    let c = Continuation::FinishDyn(id);
    let (resolved, other) = s.context.replay.resolutions[0];
    match dyn_started(s, node) {
        Flow::Continue(s1) => {
            assert(s1.context.replay.resolutions == s.context.replay.resolutions) by {
                reveal(row_added);
            }
            let s2 = resolution_taken(s1).unwrap().2;
            lemma_foreign_node_then_step(ops, s2, resolved, other, c, forest);
        },
        f => {
            lemma_reflexive(s, f);
        },
    }
}

/// An external node is the recorded node of another forest, with the return to this forest
/// remaining.
pub proof fn law_external_resumes<E: SyncOps>(
    ops: E,
    s: GeneratorModel,
    id: MastNodeId,
    forest: Arc<MastForest>,
)
    requires
        ready(s),
        s.context.initial_mast_forest == forest,
        shared(forest).has(id),
        shared(forest).node(id) is External,
        s.context.replay.resolutions.len() > 0,
    ensures
        ({
            let (resolved, other) = s.context.replay.resolutions[0];
            equivalent(
                generated(ops, s, NodeExecutionState::Start(id)),
                generated(
                    ops,
                    placed(
                        resolution_taken(s).unwrap().2,
                        s.context.continuation.push(Continuation::EnterForest(forest)),
                        other,
                    ),
                    NodeExecutionState::Start(resolved),
                ),
            )
        }),
{
    broadcast use lemma_rows_agree;

    reveal(node_executed);
    let (resolved, other) = s.context.replay.resolutions[0];
    let x = resolution_taken(s).unwrap().2;
    let rest = s.context.continuation;
    let enter = Continuation::EnterForest(forest);
    let y = placed(x, rest.push(enter), other);
    lemma_placed(x, rest.push(enter), other);
    lemma_node_follows(ops, x, y, resolved, shared(other));
    lemma_node_advances(ops, x, resolved, shared(other));
    lemma_node_advances(ops, y, resolved, shared(other));
    let fa = node_executed(ops, x, resolved, shared(other));
    let fb = node_executed(ops, y, resolved, shared(other));
    if let Flow::Continue(w) = fb {
        lemma_continued_keeps(ops, w, other);
        lemma_continued_unfold(ops, w, rest, enter, other);
        let z = continuation_taken(w);
        assert(step_and_rest(ops, z, enter, other) == continued(ops, z, forest));
        if let Flow::Continue(v) = fa {
            assert(alike(v, z));
            lemma_continued_follows(ops, v, z, forest);
        }
    }
    lemma_then_rows(
        fa,
        fb,
        generated(ops, s, NodeExecutionState::Start(id)),
        generated(ops, y, NodeExecutionState::Start(resolved)),
        true,
    );
}

// REMAINING STEPS

/// The execution state in which a remaining step begins: a node starts or ends, or the body of a
/// loop is repeated, if the top of the stack is one.
pub open spec fn state_of(c: Continuation, s: GeneratorModel) -> NodeExecutionState {
    match c {
        Continuation::StartNode(id) => NodeExecutionState::Start(id),
        Continuation::FinishJoin(id) => NodeExecutionState::End(id),
        Continuation::FinishSplit(id) => NodeExecutionState::End(id),
        Continuation::FinishLoop(id) => if s.item(0) == felt(1) {
            NodeExecutionState::LoopRepeat(id)
        } else {
            NodeExecutionState::End(id)
        },
        Continuation::FinishCall(id) => NodeExecutionState::End(id),
        Continuation::FinishDyn(id) => NodeExecutionState::End(id),
        Continuation::EnterForest(_) => arbitrary(),
    }
}

/// Whether a remaining step is about a node of its sort. A loop that ends was entered, and the
/// recording of its end says so.
pub open spec fn fits(c: Continuation, s: GeneratorModel, forest: MastForest) -> bool {
    match c {
        Continuation::StartNode(id) => true,
        Continuation::FinishJoin(id) => forest.has(id) && forest.node(id) is Join,
        Continuation::FinishSplit(id) => forest.has(id) && forest.node(id) is Split,
        Continuation::FinishLoop(id) => {
            &&& forest.has(id) && forest.node(id) is Loop
            &&& s.item(0) != felt(1) ==> (node_ended(s) matches Some((_, flags, _))
                ==> flags@.loop_entered)
        },
        Continuation::FinishCall(id) => forest.has(id) && forest.node(id) is Call,
        Continuation::FinishDyn(id) => forest.has(id) && forest.node(id) is Dyn,
        Continuation::EnterForest(_) => false,
    }
}

/// When a node has ended, the next remaining step goes on in the execution state that it stands
/// for, with the steps after it remaining. So after the row that ends a node, the generation is
/// that of a fragment which begins with the next remaining step.
pub proof fn law_remaining_step_resumes<E: SyncOps>(
    ops: E,
    s: GeneratorModel,
    rest: Seq<Continuation>,
    c: Continuation,
    forest: Arc<MastForest>,
)
    requires
        s.well_formed(),
        s.context.initial_mast_forest == forest,
        s.context.continuation == rest.push(c),
        fits(c, s, shared(forest)),
    ensures
        continued(ops, s, forest) == generated(ops, placed(s, rest, forest), state_of(c, s)),
{
    lemma_continued_unfold(ops, s, rest, c, forest);
    let t = placed(s, rest, forest);
    let state = state_of(c, s);
    if let Continuation::FinishLoop(id) = c {
        if s.item(0) != felt(1) {
            lemma_loop_ends(ops, t, shared(forest).node(id)->Loop_0, shared(forest));
        }
    }
    assert(continuation_executed(ops, t, c, shared(forest)) == node_resumed(
        ops,
        t,
        state,
        shared(forest),
    ));
}

/// A loop whose condition is not one ends in the same way, whether its last condition is taken off
/// the stack before or after its end is looked up.
proof fn lemma_loop_ends<E: SyncOps>(ops: E, s: GeneratorModel, node: LoopNode, forest: MastForest)
    requires
        s.well_formed(),
        s.item(0) != felt(1),
        node_ended(s) matches Some((_, flags, _)) ==> flags@.loop_entered,
    ensures
        loop_resumed(ops, s, node, forest) == loop_ended(s, node),
{
    if let Some((condition, s1)) = condition_taken(s) {
        lemma_condition_keeps(s);
        lemma_loop_steps(ops, s1, node, forest, condition);
        if let Some((_, _, s2)) = node_ended(s1) {
            let (_, _, t1) = node_ended(s).unwrap();
            assert(decremented(t1).unwrap() =~= s2);
        }
    } else {
        if let Some((_, _, t1)) = node_ended(s) {
            assert(decremented(t1) is None);
        }
    }
}

/// After a node has been finished, what remains is executed step by step: the generation of a
/// fragment that begins at the end of a node is the row of that end and then the remaining steps.
pub proof fn law_end_resumes<E: SyncOps>(
    ops: E,
    s: GeneratorModel,
    id: MastNodeId,
    forest: Arc<MastForest>,
)
    requires
        s.context.initial_mast_forest == forest,
        shared(forest).has(id),
    ensures
        generated(ops, s, NodeExecutionState::End(id)) == match end_resumed(
            s,
            shared(forest).node(id),
        ) {
            Flow::Continue(t) => continued(ops, t, forest),
            f => f,
        },
{
}

// BASIC BLOCKS

/// After the first row of a basic block, its first operation is next, if its first group holds
/// operations. Left out are blocks of 2^32 groups or more, whose groups are not counted right.
pub proof fn law_block_start_resumes<E: SyncOps>(
    ops: E,
    s: GeneratorModel,
    id: MastNodeId,
    node: BasicBlockNode,
    forest: Arc<MastForest>,
)
    requires
        s.well_formed(),
        s.context.initial_mast_forest == forest,
        shared(forest).has(id),
        shared(forest).node(id) == MastNode::Block(node),
        node.spec_op_batches().len() > 0,
        node.spec_op_batches()[0]@.well_formed(),
        node.spec_op_batches()[0]@.groups[0]@ < MODULUS,
        node.spec_op_batches()[0]@.indptr[1] > 0,
        node.spec_num_op_groups() <= u32::MAX,
    ensures
        ({
            let first = node.spec_op_batches()[0]@;
            generated(ops, s, NodeExecutionState::Start(id)) == match node_started(s) {
                Some(s0) => then_generated(
                    ops,
                    span_row(s0, first, felt(node.spec_num_op_groups())),
                    NodeExecutionState::BasicBlock {
                        node_id: id,
                        batch_index: 0,
                        op_idx_in_batch: 0,
                    },
                    s.context.continuation,
                    forest,
                ),
                None => Flow::Panic,
            }
        }),
{
    let first = node.spec_op_batches()[0]@;
    let total = node.spec_num_op_groups();
    let span = BasicBlockContext {
        group_ops_left: first.groups[0],
        num_groups_left: felt(total - 1),
    };
    lemma_first_span(node);
    lemma_num_groups(node);
    assert(felt(total)@ == total) by {
        lemma_felt_small(total);
    }
    assert(node_executed(ops, s, id, shared(forest)) == block_executed(
        ops,
        s,
        node,
        shared(forest),
    )) by {
        reveal(node_executed);
    }
    if let Some(s0) = node_started(s) {
        if let Flow::Continue(s1) = span_row(s0, first, felt(total)) {
            assert(placed(s1, s.context.continuation, forest) == s1) by {
                broadcast use lemma_row_advances;

                assert(kept(s0, s1));
                assert(placed(s1, s.context.continuation, forest) =~= s1);
            }
            assert(block_executed(ops, s, node, shared(forest)) == block_resumed(
                ops,
                s1,
                node,
                0,
                0,
                shared(forest),
            ));
        }
    }
}

/// After the row of an operation of a basic block, the next operation of its batch is next, if the
/// batch encodes its operations. Left out are blocks of 2^32 groups or more, whose groups are not
/// counted right.
pub proof fn law_operation_resumes<E: SyncOps>(
    ops: E,
    s: GeneratorModel,
    id: MastNodeId,
    node: BasicBlockNode,
    batch_index: usize,
    op_idx: usize,
    forest: Arc<MastForest>,
)
    requires
        s.well_formed(),
        s.context.initial_mast_forest == forest,
        shared(forest).has(id),
        shared(forest).node(id) == MastNode::Block(node),
        batch_index < node.spec_op_batches().len(),
        encoded(node.spec_op_batches()[batch_index as int]@),
        forall|g: int|
            0 <= g < BATCH_SIZE ==> (
            #[trigger] node.spec_op_batches()[batch_index as int]@.groups[g])@ < MODULUS,
        node.spec_num_op_groups() <= u32::MAX,
        op_idx + 1 < node.spec_op_batches()[batch_index as int]@.ops.len(),
        op_idx < usize::MAX,
        span_context_at(node, batch_index as int, op_idx as int) is Some,
        span_context_at(node, batch_index as int, op_idx + 1) is Some,
    ensures
        generated(
            ops,
            s,
            NodeExecutionState::BasicBlock {
                node_id: id,
                batch_index,
                op_idx_in_batch: op_idx,
            },
        ) == then_generated(
            ops,
            op_finished(
                ops,
                s.with_span(span_context_at(node, batch_index as int, op_idx as int)),
                node.spec_op_batches()[batch_index as int]@,
                op_idx as int,
                shared(forest),
            ),
            NodeExecutionState::BasicBlock {
                node_id: id,
                batch_index,
                op_idx_in_batch: (op_idx + 1) as usize,
            },
            s.context.continuation,
            forest,
        ),
{
    let batch = node.spec_op_batches()[batch_index as int]@;
    let begun = s.with_span(span_context_at(node, batch_index as int, op_idx as int));
    law_block_resumes(ops, s, node, batch_index as int, op_idx as int, shared(forest));
    if let Flow::Continue(t) = op_finished(ops, begun, batch, op_idx as int, shared(forest)) {
        assert(placed(t, s.context.continuation, forest) == t) by {
            broadcast use lemma_row_advances;

            ops.lemma_frame(begun, batch.ops[op_idx as int], shared(forest));
            assert(placed(t, s.context.continuation, forest) =~= t);
        }
    }
}

/// The decoder before the first operation of a block.
proof fn lemma_first_span(node: BasicBlockNode)
    requires
        node.spec_op_batches().len() > 0,
        node.spec_op_batches()[0]@.well_formed(),
        node.spec_op_batches()[0]@.groups[0]@ < MODULUS,
        node.spec_op_batches()[0]@.indptr[1] > 0,
        node.spec_num_op_groups() <= u32::MAX,
    ensures
        span_context_at(node, 0, 0) == Some(
            BasicBlockContext {
                group_ops_left: node.spec_op_batches()[0]@.groups[0],
                num_groups_left: felt(node.spec_num_op_groups() - 1),
            },
        ),
{
    let batches = node.spec_op_batches();
    let first = batches[0]@;
    lemma_num_groups(node);
    assert(first.group_of(0) == 0);
    lemma_first_group_has_ops(first);
    assert(num_pushes(first.groups[0]@ as int, 0) == 0);
    assert(without_ops(first.groups[0]@ as int, 0) == first.groups[0]@);
    lemma_felt_of_view(first.groups[0]);
    assert(groups_before(batches, 0) == 0);
    assert(groups_consumed(batches, 0, 0) == 1);
}

proof fn lemma_first_group_has_ops(batch: OpBatchModel)
    requires
        batch.well_formed(),
        batch.indptr[1] > 0,
    ensures
        batch.ops.len() > 0,
{
    lemma_indptr_grows(batch, 1, batch.num_groups as int);
}

proof fn lemma_num_groups(node: BasicBlockNode)
    requires
        node.spec_op_batches().len() > 0,
    ensures
        node.spec_num_op_groups() >= 1,
{
    law_next_pow2(node.spec_op_batches().last()@.num_groups as int);
}

} // verus!
