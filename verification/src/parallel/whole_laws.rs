//! The fragments that are generated side by side, each from its own recordings, make up the trace
//! that is generated in one piece from all recordings.

use crate::felt::Felt;
use crate::layout::CORE_TRACE_WIDTH;
use crate::layout::MIN_STACK_DEPTH;
use crate::parallel::combine::joined_column;
use crate::parallel::cut_laws::law_recorded_fragments_join;
use crate::parallel::cut_laws::unwritten;
use crate::parallel::cut_laws::within_block;
use crate::parallel::fragment::rectangular;
use crate::parallel::execution::generated;
use crate::parallel::execution::SyncOps;
use crate::parallel::model::GeneratorModel;
use crate::parallel::replay_laws::context_with_later;
use crate::parallel::replay_laws::law_later_recordings_not_used;
use crate::parallel::resume_laws::equivalent;
use crate::parallel::resume_laws::ready;
use crate::parallel::resume_laws::shared;
use crate::parallel::stitch::all_generate;
use crate::parallel::stitch::context_generated;
use crate::parallel::stitch::core_trace_fragments;
use crate::parallel::stitch::first_stack_cells;
use crate::parallel::stitch::first_system_cells;
use crate::parallel::stitch::fixed_up;
use crate::parallel::stitch::fragment_from;
use crate::parallel::stitch::fragments_from;
use crate::parallel::stitch::lemma_fragment_shape;
use crate::parallel::stitch::stack_rows_from;
use crate::parallel::stitch::system_rows_from;
use crate::parallel::stitch::with_first_row;
use crate::trace_state::ContextModel;
use crate::trace_state::ReplayModel;
use vstd::prelude::*;

verus! {

/// The recordings of the contexts from one on, one behind the other.
pub open spec fn recorded_from(contexts: Seq<ContextModel>, k: int) -> ReplayModel
    decreases contexts.len() - k,
{
    if k < 0 || k >= contexts.len() {
        ReplayModel::empty()
    } else {
        contexts[k].replay.followed_by(recorded_from(contexts, k + 1))
    }
}

/// One of the contexts, with the recordings of all those behind it.
pub open spec fn context_from(contexts: Seq<ContextModel>, k: int) -> ContextModel {
    context_with_later(contexts[k], recorded_from(contexts, k + 1))
}

/// The number of rows of the fragments from one on.
pub open spec fn rows_from(contexts: Seq<ContextModel>, k: int, fragment_size: usize) -> usize {
    ((contexts.len() - k) * fragment_size) as usize
}

/// Whether the generation of a fragment that begins in a context passes through a state, after a
/// number of rows, and a fragment may begin there.
pub open spec fn passes_through<E: SyncOps>(
    ops: E,
    context: ContextModel,
    n: usize,
    s: GeneratorModel,
    m: usize,
) -> bool {
    &&& s.fragment_start_clk == context.system.clk
    &&& s.fragment_size == n
    &&& s.rows_built() == m
    &&& ready(s)
    &&& s.system_rows is Some
    &&& s.stack_rows is Some
    &&& s.span_context is None || within_block(
        s.context.initial_execution_state,
        shared(s.context.initial_mast_forest),
    )
    &&& unwritten(s)
    &&& equivalent(
        context_generated(ops, context, n),
        generated(ops, s, s.context.initial_execution_state),
    )
}

/// Whether contexts were recorded one after the other: the generation from each of them, with the
/// recordings of those behind it, passes after as many rows as a fragment has through the given
/// state, in which the next context is left.
pub open spec fn recorded_in_sequence<E: SyncOps>(
    ops: E,
    contexts: Seq<ContextModel>,
    fragment_size: usize,
    states: Seq<GeneratorModel>,
) -> bool {
    forall|k: int|
        0 <= k < contexts.len() - 1 ==> {
            &&& (#[trigger] states[k]).context == context_from(contexts, k + 1)
            &&& passes_through(
                ops,
                context_from(contexts, k),
                rows_from(contexts, k, fragment_size),
                states[k],
                fragment_size,
            )
        }
}

/// The rows of a column over the fragments from one on, in order.
spec fn joined_from(fragments: Seq<Seq<Seq<Felt>>>, c: int, k: int) -> Seq<Felt>
    decreases fragments.len() - k,
{
    if k < 0 || k >= fragments.len() {
        Seq::empty()
    } else {
        fragments[k][c] + joined_from(fragments, c, k + 1)
    }
}

proof fn lemma_joined_from(fragments: Seq<Seq<Seq<Felt>>>, c: int, k: int)
    requires
        0 <= k <= fragments.len(),
    ensures
        joined_column(fragments, c) == joined_column(fragments.take(k), c) + joined_from(
            fragments,
            c,
            k,
        ),
    decreases fragments.len() - k,
{
    if k < fragments.len() {
        lemma_joined_from(fragments, c, k + 1);
        let next = fragments.take(k + 1);
        assert(next.drop_last() =~= fragments.take(k));
        assert(next.last() == fragments[k]);
        assert(joined_column(fragments.take(k), c) + (fragments[k][c] + joined_from(
            fragments,
            c,
            k + 1,
        )) =~= (joined_column(fragments.take(k), c) + fragments[k][c]) + joined_from(
            fragments,
            c,
            k + 1,
        ));
    } else {
        assert(fragments.take(k) =~= fragments);
        assert(joined_column(fragments, c) + Seq::<Felt>::empty() =~= joined_column(fragments, c));
    }
}

/// Filling in the first row of a fragment leaves all other rows as they are.
proof fn lemma_first_row_of_part(
    whole: Seq<Seq<Felt>>,
    part: Seq<Seq<Felt>>,
    rest: Seq<Felt>,
    system: Seq<Felt>,
    stack: Seq<Felt>,
    c: int,
)
    requires
        whole.len() == CORE_TRACE_WIDTH,
        part.len() == CORE_TRACE_WIDTH,
        0 <= c < CORE_TRACE_WIDTH,
        part[c].len() > 0,
        whole[c] == part[c] + rest,
    ensures
        with_first_row(whole, system, stack)[c] == with_first_row(part, system, stack)[c] + rest,
{
    assert(with_first_row(whole, system, stack)[c] =~= with_first_row(part, system, stack)[c]
        + rest);
}

/// What the fragments from one on make up.
proof fn lemma_rest_joined<E: SyncOps>(
    ops: E,
    contexts: Seq<ContextModel>,
    fragment_size: usize,
    states: Seq<GeneratorModel>,
    fixed: Seq<Seq<Seq<Felt>>>,
    k: int,
)
    requires
        0 <= k < contexts.len(),
        0 < fragment_size,
        contexts.len() * fragment_size <= usize::MAX,
        forall|i: int|
            0 <= i < contexts.len() ==> (#[trigger] contexts[i]).stack.top.len()
                == MIN_STACK_DEPTH,
        all_generate(ops, contexts, fragment_size),
        recorded_in_sequence(ops, contexts, fragment_size, states),
        context_generated(
            ops,
            context_from(contexts, k),
            rows_from(contexts, k, fragment_size),
        ) !is Panic,
        fixed.len() == contexts.len(),
        forall|i: int|
            0 < i < contexts.len() ==> #[trigger] fixed[i] == with_first_row(
                fragment_from(ops, contexts[i], fragment_size).0,
                fragment_from(ops, contexts[i - 1], fragment_size).2,
                fragment_from(ops, contexts[i - 1], fragment_size).1,
            ),
    ensures
        ({
            let (whole, stack, system) = fragment_from(
                ops,
                context_from(contexts, k),
                rows_from(contexts, k, fragment_size),
            );
            let own = fragment_from(ops, contexts[k], fragment_size).0;
            &&& stack == fragment_from(ops, contexts.last(), fragment_size).1
            &&& system == fragment_from(ops, contexts.last(), fragment_size).2
            &&& rectangular(whole, CORE_TRACE_WIDTH as int, whole[0].len() as int)
            &&& 0 < whole[0].len()
            &&& whole.len() == CORE_TRACE_WIDTH
            &&& forall|c: int|
                0 <= c < CORE_TRACE_WIDTH ==> #[trigger] whole[c] == own[c] + joined_from(
                    fixed,
                    c,
                    k + 1,
                )
        }),
    decreases contexts.len() - k,
{
    let n = rows_from(contexts, k, fragment_size);
    let (own, stack, system) = fragment_from(ops, contexts[k], fragment_size);
    lemma_rows_from(contexts, k, fragment_size);
    lemma_fragment_shape(ops, context_from(contexts, k), n);
    let whole = fragment_from(ops, context_from(contexts, k), n).0;
    if k + 1 < contexts.len() {
        let s = states[k];
        lemma_rows_from(contexts, k + 1, fragment_size);
        assert(s.context.replay == recorded_from(contexts, k + 1));
        law_recorded_fragments_join(ops, contexts[k], s, n);
        assert((n - fragment_size) as usize == rows_from(contexts, k + 1, fragment_size));
        lemma_rest_joined(ops, contexts, fragment_size, states, fixed, k + 1);
        lemma_fragment_shape(ops, contexts[k + 1], fragment_size);
        let next = fragment_from(ops, contexts[k + 1], fragment_size).0;
        let rest = fragment_from(ops, s.context, (n - fragment_size) as usize).0;
        assert forall|c: int| 0 <= c < CORE_TRACE_WIDTH implies #[trigger] whole[c] == own[c]
            + joined_from(fixed, c, k + 1) by {
            assert(next[c].len() == next[0].len());
            lemma_first_row_of_part(
                rest,
                next,
                joined_from(fixed, c, k + 2),
                system,
                stack,
                c,
            );
            assert(fixed[k + 1] == with_first_row(next, system, stack));
        }
    } else {
        law_later_recordings_not_used(
            ops,
            contexts[k],
            recorded_from(contexts, k + 1),
            fragment_size,
        );
        assert(n == fragment_size);
        assert forall|c: int| 0 <= c < CORE_TRACE_WIDTH implies #[trigger] whole[c] == own[c]
            + joined_from(fixed, c, k + 1) by {
            assert(own[c] + Seq::<Felt>::empty() =~= own[c]);
        }
    }
}

proof fn lemma_rows_from(contexts: Seq<ContextModel>, k: int, fragment_size: usize)
    requires
        0 <= k < contexts.len(),
        contexts.len() * fragment_size <= usize::MAX,
    ensures
        rows_from(contexts, k, fragment_size) == (contexts.len() - k) * fragment_size,
        k + 1 == contexts.len() ==> rows_from(contexts, k, fragment_size) == fragment_size,
        rows_from(contexts, k, fragment_size) - fragment_size == (contexts.len() - (k + 1))
            * fragment_size,
{
    let len = contexts.len() as int;
    let size = fragment_size as int;
    assert(0 <= (len - k) * size <= len * size && (len - k) * size - size == (len - (k + 1)) * size)
        by (nonlinear_arith)
        requires
            0 <= k < len,
            0 <= size,
    ;
    if k + 1 == len {
        assert((len - k) * size == size) by (nonlinear_arith)
            requires
                len - k == 1,
        ;
    }
}

/// The fragments that are generated from contexts, each from its own recordings, with their first
/// rows filled in.
pub open spec fn fixed_fragments<E: SyncOps>(
    ops: E,
    contexts: Seq<ContextModel>,
    fragment_size: usize,
) -> Seq<Seq<Seq<Felt>>> {
    fixed_up(
        fragments_from(ops, contexts, fragment_size),
        stack_rows_from(ops, contexts, fragment_size),
        system_rows_from(ops, contexts, fragment_size),
        contexts[0].stack.top,
        first_system_cells(),
    )
}

/// The fragment that is generated in one piece, from the recordings of all contexts, and the rows
/// of the stack and of the system that follow it.
pub open spec fn uncut<E: SyncOps>(
    ops: E,
    contexts: Seq<ContextModel>,
    fragment_size: usize,
) -> (Seq<Seq<Felt>>, Seq<Felt>, Seq<Felt>) {
    fragment_from(ops, context_from(contexts, 0), rows_from(contexts, 0, fragment_size))
}

/// Whether contexts make up a recording of a run: each fits the program, they were recorded one
/// after the other, with the given states in between, and so do all together.
pub open spec fn recorded_run<E: SyncOps>(
    ops: E,
    contexts: Seq<ContextModel>,
    fragment_size: usize,
    states: Seq<GeneratorModel>,
) -> bool {
    &&& contexts.len() > 0
    &&& 0 < fragment_size
    &&& contexts.len() * fragment_size <= usize::MAX
    &&& forall|i: int|
        0 <= i < contexts.len() ==> (#[trigger] contexts[i]).stack.top.len() == MIN_STACK_DEPTH
    &&& all_generate(ops, contexts, fragment_size)
    &&& recorded_in_sequence(ops, contexts, fragment_size, states)
    &&& context_generated(
        ops,
        context_from(contexts, 0),
        rows_from(contexts, 0, fragment_size),
    ) !is Panic
}

/// The fragments that are generated each from its own recordings, with their first rows filled in
/// and joined in order, are the rows of the one fragment that is generated from all recordings,
/// with its first row filled in. The rows of the stack and of the system that follow are those that
/// follow the last fragment.
pub proof fn law_fragments_make_up_the_trace<E: SyncOps>(
    ops: E,
    contexts: Seq<ContextModel>,
    fragment_size: usize,
    states: Seq<GeneratorModel>,
)
    requires
        recorded_run(ops, contexts, fragment_size, states),
    ensures
        ({
            let fixed = fixed_fragments(ops, contexts, fragment_size);
            let (pieces, stack, system) = uncut(ops, contexts, fragment_size);
            let whole = with_first_row(
                pieces,
                first_system_cells(),
                first_stack_cells(contexts[0].stack.top),
            );
            &&& forall|c: int|
                0 <= c < CORE_TRACE_WIDTH ==> #[trigger] joined_column(fixed, c) == whole[c]
            &&& rectangular(pieces, CORE_TRACE_WIDTH as int, pieces[0].len() as int)
            &&& 0 < pieces[0].len()
            &&& stack == stack_rows_from(ops, contexts, fragment_size).last()
            &&& system == system_rows_from(ops, contexts, fragment_size).last()
        }),
{
    let fixed = fixed_fragments(ops, contexts, fragment_size);
    let own = fragment_from(ops, contexts[0], fragment_size).0;
    let n = rows_from(contexts, 0, fragment_size);
    let pieces = fragment_from(ops, context_from(contexts, 0), n).0;
    let (system, stack) = (first_system_cells(), first_stack_cells(contexts[0].stack.top));
    assert forall|i: int| 0 < i < contexts.len() implies #[trigger] fixed[i] == with_first_row(
        fragment_from(ops, contexts[i], fragment_size).0,
        fragment_from(ops, contexts[i - 1], fragment_size).2,
        fragment_from(ops, contexts[i - 1], fragment_size).1,
    ) by {
        lemma_fragment_shape(ops, contexts[i], fragment_size);
    }
    lemma_rest_joined(ops, contexts, fragment_size, states, fixed, 0);
    lemma_fragment_shape(ops, contexts[0], fragment_size);
    assert forall|c: int| 0 <= c < CORE_TRACE_WIDTH implies #[trigger] joined_column(fixed, c)
        == with_first_row(pieces, system, stack)[c] by {
        assert(own[c].len() == own[0].len());
        lemma_joined_from(fixed, c, 0);
        assert(fixed.take(0) =~= Seq::empty());
        assert(joined_column(fixed.take(0), c) + joined_from(fixed, c, 0) =~= joined_from(
            fixed,
            c,
            0,
        ));
        lemma_first_row_of_part(pieces, own, joined_from(fixed, c, 1), system, stack, c);
        assert(fixed[0] == with_first_row(own, system, stack));
    }
}

proof fn lemma_full_fragments<E: SyncOps>(
    ops: E,
    contexts: Seq<ContextModel>,
    fragment_size: usize,
    states: Seq<GeneratorModel>,
    k: int,
)
    requires
        recorded_run(ops, contexts, fragment_size, states),
        0 <= k < contexts.len(),
        context_generated(
            ops,
            context_from(contexts, k),
            rows_from(contexts, k, fragment_size),
        ) !is Panic,
    ensures
        forall|i: int|
            k <= i < contexts.len() - 1 ==> #[trigger] fragment_from(
                ops,
                contexts[i],
                fragment_size,
            ).0[0].len() == fragment_size,
    decreases contexts.len() - k,
{
    if k + 1 < contexts.len() {
        let s = states[k];
        let n = rows_from(contexts, k, fragment_size);
        lemma_rows_from(contexts, k, fragment_size);
        lemma_rows_from(contexts, k + 1, fragment_size);
        assert(s.context.replay == recorded_from(contexts, k + 1));
        assert(context_generated(ops, contexts[k], fragment_size) !is Panic);
        law_recorded_fragments_join(ops, contexts[k], s, n);
        assert((n - fragment_size) as usize == rows_from(contexts, k + 1, fragment_size));
        lemma_full_fragments(ops, contexts, fragment_size, states, k + 1);
    }
}

/// Every fragment of the core trace but the last has as many rows as a fragment has. The last has
/// at least two and at most one row more: the row that shows HALT comes behind its own rows, which
/// may fill it.
pub proof fn law_rows_of_fragments<E: SyncOps>(
    ops: E,
    contexts: Seq<ContextModel>,
    fragment_size: usize,
    states: Seq<GeneratorModel>,
)
    requires
        recorded_run(ops, contexts, fragment_size, states),
    ensures
        ({
            let core = core_trace_fragments(ops, contexts, fragment_size);
            &&& core.len() == contexts.len()
            &&& forall|i: int|
                0 <= i < core.len() - 1 ==> rectangular(
                    #[trigger] core[i],
                    CORE_TRACE_WIDTH as int,
                    fragment_size as int,
                )
            &&& rectangular(core.last(), CORE_TRACE_WIDTH as int, core.last()[0].len() as int)
            &&& 2 <= core.last()[0].len() <= fragment_size + 1
        }),
{
    lemma_full_fragments(ops, contexts, fragment_size, states, 0);
    let core = core_trace_fragments(ops, contexts, fragment_size);
    let fixed = fixed_fragments(ops, contexts, fragment_size);
    assert forall|i: int| 0 <= i < contexts.len() implies {
        let own = fragment_from(ops, contexts[i], fragment_size).0;
        &&& rectangular(#[trigger] fixed[i], CORE_TRACE_WIDTH as int, own[0].len() as int)
        &&& 0 < own[0].len() <= fragment_size
    } by {
        lemma_fragment_shape(ops, contexts[i], fragment_size);
    }
    assert forall|i: int| 0 <= i < core.len() - 1 implies rectangular(
        #[trigger] core[i],
        CORE_TRACE_WIDTH as int,
        fragment_size as int,
    ) by {
        assert(core[i] == fixed[i]);
        assert(fragment_from(ops, contexts[i], fragment_size).0[0].len() == fragment_size);
    }
    let last = contexts.len() - 1;
    assert(rectangular(fixed[last], CORE_TRACE_WIDTH as int, fixed[last][0].len() as int));
}

} // verus!
