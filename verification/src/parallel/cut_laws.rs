//! A trace may be cut anywhere: a fragment that begins after some rows has the rows that come
//! after them in a trace that is generated in one piece.

use crate::felt::felt;
use crate::layout::CORE_TRACE_WIDTH;
use crate::layout::MIN_STACK_DEPTH;
use crate::layout::STACK_TRACE_OFFSET;
use crate::layout::STACK_TRACE_WIDTH;
use crate::layout::SYS_TRACE_WIDTH;
use crate::mast::MastForest;
use crate::parallel::execution::generated;
use crate::parallel::execution::node_resumed;
use crate::parallel::execution::SyncOps;
use crate::parallel::model::row_added;
use crate::parallel::model::DecoderRow;
use crate::parallel::model::Flow;
use crate::parallel::model::GeneratorModel;
use crate::parallel::prefix_laws::alike;
use crate::parallel::prefix_laws::buffered;
use crate::parallel::prefix_laws::law_fragment_prefix;
use crate::parallel::prefix_laws::lemma_generated_follows;
use crate::parallel::prefix_laws::offset;
use crate::parallel::prefix_laws::rows_agree;
use crate::parallel::progress::ends_well;
use crate::parallel::progress::law_fragment_rows;
use crate::parallel::progress::row_shows;
use crate::parallel::replay_laws::context_with_later;
use crate::parallel::replay_laws::law_later_recordings_not_used;
use crate::parallel::resume::final_state;
use crate::parallel::resume::fragment_of;
use crate::parallel::resume_laws::equivalent;
use crate::parallel::resume_laws::ready;
use crate::parallel::resume_laws::shared;
use crate::parallel::stitch::context_generated;
use crate::parallel::stitch::fragment_from;
use crate::parallel::stitch::initial_state;
use crate::parallel::stitch::lemma_fragment_shape;
use crate::parallel::stitch::with_first_row;
use crate::trace_state::ContextModel;
use crate::trace_state::NodeExecutionState;
use vstd::prelude::*;

verus! {

/// Whether nothing has been written into a fragment after the rows that it has.
pub open spec fn unwritten(s: GeneratorModel) -> bool {
    forall|c: int, i: int|
        0 <= c < CORE_TRACE_WIDTH && s.rows_built() <= i < s.fragment_size
            ==> #[trigger] s.columns[c][i] == felt(0)
}

/// A fragment that begins has nothing written into it, and a row that is added leaves what comes
/// after it as it was.
pub proof fn law_rows_written_in_order(
    context: ContextModel,
    n: usize,
    s: GeneratorModel,
    row: DecoderRow,
)
    requires
        s.well_formed(),
        unwritten(s),
    ensures
        unwritten(initial_state(context, n)),
        row_added(s, row) matches Flow::Continue(t) ==> unwritten(t),
{
    reveal(row_added);
}

/// Whether a node in this execution state is a basic block that has started.
pub open spec fn within_block(state: NodeExecutionState, forest: MastForest) -> bool {
    match state {
        NodeExecutionState::BasicBlock { .. } => true,
        NodeExecutionState::Respan { .. } => true,
        NodeExecutionState::End(id) => forest.has(id) && forest.node(id) is Block,
        _ => false,
    }
}

/// How far the decoding of a block has come is not used where the block is resumed.
proof fn lemma_span_not_used<E: SyncOps>(ops: E, s: GeneratorModel, state: NodeExecutionState)
    requires
        s.well_formed(),
        s.span_context is None || within_block(state, shared(s.context.initial_mast_forest)),
    ensures
        match (generated(ops, s, state), generated(ops, s.with_span(None), state)) {
            (Flow::Continue(x), Flow::Continue(y)) => x == y,
            (Flow::Break(x), Flow::Break(y)) => x.with_span(None) == y.with_span(None),
            (Flow::Panic, Flow::Panic) => true,
            _ => false,
        },
{
    let t = s.with_span(None);
    if s.span_context is None {
        assert(t =~= s);
    } else {
        let forest = shared(s.context.initial_mast_forest);
        assert forall|span| #[trigger] t.with_span(span) == s.with_span(span) by {
            assert(t.with_span(span) =~= s.with_span(span));
        }
        if state is End {
            reveal(row_added);
            let (fs, ft) = (
                node_resumed(ops, s, state, forest),
                node_resumed(ops, t, state, forest),
            );
            match (fs, ft) {
                (Flow::Continue(x), Flow::Continue(y)) => {
                    assert(x =~= y);
                },
                (Flow::Break(x), Flow::Break(y)) => {
                    assert(x.with_span(None) =~= y.with_span(None));
                },
                _ => {},
            }
        }
    }
}

/// A fragment that begins after some rows of a trace has the rows that follow them, once its first
/// row is filled in with the cells of the system and of the stack that the row before left: as
/// many rows as its size says, or all if there are fewer. If it goes as far as the trace does, the
/// rows of the stack and of the system that follow are the same.
pub proof fn law_fragment_begins_anywhere<E: SyncOps>(ops: E, s: GeneratorModel, m: usize)
    requires
        ready(s),
        0 < s.rows_built(),
        s.system_rows is Some,
        s.stack_rows is Some,
        s.span_context is None || within_block(
            s.context.initial_execution_state,
            shared(s.context.initial_mast_forest),
        ),
        unwritten(s),
        0 < m,
        s.rows_built() + m <= s.fragment_size,
        generated(ops, s, s.context.initial_execution_state) !is Panic,
    ensures
        context_generated(ops, s.context, m) !is Panic,
        ({
            let (rows, stack, system) = fragment_from(ops, s.context, m);
            let whole = final_state(generated(ops, s, s.context.initial_execution_state));
            let from = s.rows_built();
            let len = rows[0].len() as int;
            &&& len == if whole.rows_built() - from < m {
                whole.rows_built() - from
            } else {
                m as int
            }
            &&& forall|c: int|
                0 <= c < CORE_TRACE_WIDTH ==> #[trigger] with_first_row(
                    rows,
                    s.system_rows.unwrap(),
                    s.stack_rows.unwrap(),
                )[c] == whole.columns[c].subrange(from, from + len)
            &&& whole.rows_built() - from <= m ==> stack == fragment_of(whole).1 && system
                == fragment_of(whole).2
        }),
{
    let state = s.context.initial_execution_state;
    let from = s.rows_built();
    let a = initial_state(s.context, m);
    let b = s.with_span(None);
    assert(rows_agree(a.columns, b.columns, from, m as int)) by {
        reveal(rows_agree);
    }
    assert(alike(a, b));
    reveal(context_generated);
    lemma_generated_follows(ops, a, b, state);
    lemma_span_not_used(ops, s, state);
    law_fragment_rows(ops, a, state);
    law_fragment_rows(ops, b, state);
    law_fragment_rows(ops, s, state);
    let x = final_state(generated(ops, a, state));
    let y = final_state(generated(ops, b, state));
    let whole = final_state(generated(ops, s, state));
    assert(whole.columns == y.columns);
    assert(offset(x, y) == from);
    let len = x.rows_built();
    let (rows, _, _) = fragment_from(ops, s.context, m);
    let (system, stack) = (s.system_rows.unwrap(), s.stack_rows.unwrap());
    let filled = with_first_row(rows, system, stack);
    assert(x.columns[0].len() == m);
    assert(rows[0].len() == len);
    assert forall|c: int| 0 <= c < CORE_TRACE_WIDTH implies #[trigger] filled[c]
        == whole.columns[c].subrange(from, from + len) by {
        assert(x.columns[c].len() == m);
        assert(whole.columns[c].len() == s.fragment_size);
        assert forall|i: int| 0 <= i < len implies filled[c][i] == whole.columns[c][from + i] by {
            reveal(rows_agree);
            reveal(row_shows);
            if i == 0 && buffered(c) {
                if c < SYS_TRACE_WIDTH {
                    assert(whole.columns[0 + c][from] == system[c]);
                } else {
                    let k = c - STACK_TRACE_OFFSET;
                    assert(whole.columns[STACK_TRACE_OFFSET + k][from] == stack[k]);
                }
            } else {
                assert(x.columns[c][i] == y.columns[c][from + i]);
            }
        }
        assert(filled[c] =~= whole.columns[c].subrange(from, from + len));
    }
}

/// A trace may be cut in two: if the generation of a fragment passes through a state, then the rows
/// up to it, and those of a fragment that begins in it, with the first row filled in with what the
/// first part has left, are the rows of the fragment. The rows of the stack and of the system that
/// follow are those that follow the second part.
pub proof fn law_fragment_cut<E: SyncOps>(
    ops: E,
    context: ContextModel,
    s: GeneratorModel,
    n: usize,
)
    requires
        context.stack.top.len() == MIN_STACK_DEPTH,
        context_generated(ops, context, n) !is Panic,
        s.fragment_start_clk == context.system.clk,
        s.fragment_size == n,
        ready(s),
        0 < s.rows_built(),
        s.system_rows is Some,
        s.stack_rows is Some,
        s.span_context is None || within_block(
            s.context.initial_execution_state,
            shared(s.context.initial_mast_forest),
        ),
        unwritten(s),
        equivalent(
            context_generated(ops, context, n),
            generated(ops, s, s.context.initial_execution_state),
        ),
    ensures
        ({
            let m = s.rows_built() as usize;
            let (first, stack, system) = fragment_from(ops, context, m);
            let (second, last_stack, last_system) = fragment_from(
                ops,
                s.context,
                (n - m) as usize,
            );
            let (whole, whole_stack, whole_system) = fragment_from(ops, context, n);
            &&& whole_stack == last_stack
            &&& whole_system == last_system
            &&& context_generated(ops, context, m) !is Panic
            &&& context_generated(ops, s.context, (n - m) as usize) !is Panic
            &&& forall|c: int|
                0 <= c < CORE_TRACE_WIDTH ==> #[trigger] whole[c] == first[c] + with_first_row(
                    second,
                    system,
                    stack,
                )[c]
        }),
{
    let state = s.context.initial_execution_state;
    let m = s.rows_built() as usize;
    let k = (n - m) as usize;
    law_fragment_prefix(ops, context, m, n);
    law_fragment_begins_anywhere(ops, s, k);
    law_fragment_rows(ops, s, state);
    lemma_whole_rows(ops, context, n);
    let (first, stack, system) = fragment_from(ops, context, m);
    let (second, _, _) = fragment_from(ops, s.context, k);
    let (whole, _, _) = fragment_from(ops, context, n);
    let x = final_state(context_generated(ops, context, n));
    let y = final_state(generated(ops, s, state));
    assert(x.rows_built() == y.rows_built());
    assert(rows_agree(x.columns, y.columns, 0, x.rows_built())) by {
        reveal(rows_agree);
    }
    let (own_system, own_stack) = (s.system_rows.unwrap(), s.stack_rows.unwrap());
    assert forall|c: int| 0 <= c < SYS_TRACE_WIDTH implies system[c] == own_system[c] by {
        reveal(rows_agree);
        reveal(row_shows);
        assert(whole[c][m as int] == system[c]);
        assert(x.columns[c][m as int] == y.columns[c][0 + m]);
        assert(y.columns[0 + c][m as int] == own_system[c]);
    }
    assert forall|c: int| 0 <= c < STACK_TRACE_WIDTH implies stack[c] == own_stack[c] by {
        reveal(rows_agree);
        reveal(row_shows);
        let column = STACK_TRACE_OFFSET + c;
        assert(whole[STACK_TRACE_OFFSET + c][m as int] == stack[c]);
        assert(x.columns[column][m as int] == y.columns[column][0 + m]);
        assert(y.columns[STACK_TRACE_OFFSET + c][m as int] == own_stack[c]);
    }
    lemma_rows_left(ops, context, m);
    assert(system =~= own_system);
    assert(stack =~= own_stack);
    let filled = with_first_row(second, system, stack);
    assert forall|c: int| 0 <= c < CORE_TRACE_WIDTH implies #[trigger] whole[c] == first[c]
        + filled[c] by {
        reveal(rows_agree);
        assert(x.columns[c].len() == n);
        assert(y.columns[c].len() == n);
        assert(first[c] == whole[c].take(m as int));
        assert(filled[c] == y.columns[c].subrange(m as int, y.rows_built()));
        assert forall|i: int| m <= i < x.rows_built() implies whole[c][i] == filled[c][i - m] by {
            assert(x.columns[c][i] == y.columns[c][0 + i]);
        }
        assert(whole[c] =~= first[c] + filled[c]);
    }
}

/// Two fragments that were recorded one after the other, each with its own answers, make up the
/// fragment that is generated in one piece from the answers of both: the rows of the first, and
/// those of the second with its first row filled in with what the first has left. The rows of the
/// stack and of the system that follow are those that follow the second. The first is full.
pub proof fn law_recorded_fragments_join<E: SyncOps>(
    ops: E,
    first_context: ContextModel,
    s: GeneratorModel,
    n: usize,
)
    requires
        first_context.stack.top.len() == MIN_STACK_DEPTH,
        context_generated(ops, first_context, s.rows_built() as usize) !is Panic,
        context_generated(ops, context_with_later(first_context, s.context.replay), n) !is Panic,
        s.fragment_start_clk == first_context.system.clk,
        s.fragment_size == n,
        ready(s),
        0 < s.rows_built(),
        s.system_rows is Some,
        s.stack_rows is Some,
        s.span_context is None || within_block(
            s.context.initial_execution_state,
            shared(s.context.initial_mast_forest),
        ),
        unwritten(s),
        equivalent(
            context_generated(ops, context_with_later(first_context, s.context.replay), n),
            generated(ops, s, s.context.initial_execution_state),
        ),
    ensures
        ({
            let m = s.rows_built() as usize;
            let (first, stack, system) = fragment_from(ops, first_context, m);
            let (second, last_stack, last_system) = fragment_from(
                ops,
                s.context,
                (n - m) as usize,
            );
            let (whole, whole_stack, whole_system) = fragment_from(
                ops,
                context_with_later(first_context, s.context.replay),
                n,
            );
            &&& whole_stack == last_stack
            &&& whole_system == last_system
            &&& context_generated(ops, s.context, (n - m) as usize) !is Panic
            &&& first[0].len() == m
            &&& forall|c: int|
                0 <= c < CORE_TRACE_WIDTH ==> #[trigger] whole[c] == first[c] + with_first_row(
                    second,
                    system,
                    stack,
                )[c]
        }),
{
    let later = s.context.replay;
    law_fragment_cut(ops, context_with_later(first_context, later), s, n);
    law_later_recordings_not_used(ops, first_context, later, s.rows_built() as usize);
    let m = s.rows_built() as usize;
    let (first, stack, system) = fragment_from(ops, first_context, m);
    let second = fragment_from(ops, s.context, (n - m) as usize).0;
    let whole = fragment_from(ops, context_with_later(first_context, later), n).0;
    assert(first[0].len() == m) by {
        law_fragment_prefix(ops, context_with_later(first_context, later), m, n);
        lemma_fragment_shape(ops, s.context, (n - m) as usize);
        assert(with_first_row(second, system, stack)[0].len() == second[0].len());
        assert(whole[0] == first[0] + with_first_row(second, system, stack)[0]);
    }
}

/// The columns of a fragment have room for all of its rows.
proof fn lemma_whole_rows<E: SyncOps>(ops: E, context: ContextModel, n: usize)
    requires
        context.stack.top.len() == MIN_STACK_DEPTH,
        context_generated(ops, context, n) !is Panic,
    ensures
        ends_well(initial_state(context, n), context_generated(ops, context, n)),
{
    reveal(context_generated);
    law_fragment_rows(ops, initial_state(context, n), context.initial_execution_state);
}

/// The rows of the system and of the stack that follow a fragment.
proof fn lemma_rows_left<E: SyncOps>(ops: E, context: ContextModel, m: usize)
    requires
        context.stack.top.len() == MIN_STACK_DEPTH,
        context_generated(ops, context, m) !is Panic,
    ensures
        fragment_from(ops, context, m).1.len() == STACK_TRACE_WIDTH,
        fragment_from(ops, context, m).2.len() == SYS_TRACE_WIDTH,
{
    lemma_whole_rows(ops, context, m);
}

} // verus!
