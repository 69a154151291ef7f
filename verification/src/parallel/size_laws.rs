//! The trace does not depend on the size of the fragments in which it was recorded.

use crate::felt::Felt;
use crate::layout::CORE_TRACE_WIDTH;
use crate::layout::MIN_STACK_DEPTH;
use crate::parallel::combine::combined;
use crate::parallel::combine::joined_column;
use crate::parallel::combine::total_rows;
use crate::parallel::execution::SyncOps;
use crate::parallel::model::GeneratorModel;
use crate::parallel::prefix_laws::law_fragment_prefix;
use crate::parallel::progress::law_fragment_rows;
use crate::parallel::stitch::context_generated;
use crate::parallel::stitch::core_trace_fragments;
use crate::parallel::stitch::first_stack_cells;
use crate::parallel::stitch::first_system_cells;
use crate::parallel::stitch::fragment_from;
use crate::parallel::stitch::halted;
use crate::parallel::stitch::initial_state;
use crate::parallel::stitch::lemma_fragment_shape;
use crate::parallel::stitch::with_first_row;
use crate::parallel::whole_laws::context_from;
use crate::parallel::whole_laws::fixed_fragments;
use crate::parallel::whole_laws::law_fragments_make_up_the_trace;
use crate::parallel::whole_laws::recorded_run;
use crate::parallel::whole_laws::rows_from;
use crate::parallel::whole_laws::uncut;
use crate::trace_state::ContextModel;
use vstd::prelude::*;

verus! {

/// The rows of the run that was recorded: the fragment that is generated in one piece, with its
/// first row filled in.
pub open spec fn run_rows<E: SyncOps>(
    ops: E,
    contexts: Seq<ContextModel>,
    fragment_size: usize,
) -> Seq<Seq<Felt>> {
    with_first_row(
        uncut(ops, contexts, fragment_size).0,
        first_system_cells(),
        first_stack_cells(contexts[0].stack.top),
    )
}

/// Whether two recordings are recordings of the same run: they begin in the same state, and hold
/// the same answers.
pub open spec fn same_run(a: Seq<ContextModel>, b: Seq<ContextModel>) -> bool {
    context_from(a, 0) == context_from(b, 0)
}

/// Two recordings of the same run, in fragments of any sizes, have the same rows as far as both
/// go.
pub proof fn law_rows_do_not_depend_on_fragment_size<E: SyncOps>(
    ops: E,
    a: Seq<ContextModel>,
    size_a: usize,
    states_a: Seq<GeneratorModel>,
    b: Seq<ContextModel>,
    size_b: usize,
    states_b: Seq<GeneratorModel>,
)
    requires
        recorded_run(ops, a, size_a, states_a),
        recorded_run(ops, b, size_b, states_b),
        same_run(a, b),
    ensures
        forall|c: int, i: int|
            #![trigger joined_column(fixed_fragments(ops, a, size_a), c)[i]]
            0 <= c < CORE_TRACE_WIDTH && 0 <= i < joined_column(
                fixed_fragments(ops, a, size_a),
                c,
            ).len() && i < joined_column(fixed_fragments(ops, b, size_b), c).len()
                ==> joined_column(fixed_fragments(ops, a, size_a), c)[i] == joined_column(
                fixed_fragments(ops, b, size_b),
                c,
            )[i],
{
    law_fragments_make_up_the_trace(ops, a, size_a, states_a);
    law_fragments_make_up_the_trace(ops, b, size_b, states_b);
    let (m, n) = (rows_from(a, 0, size_a), rows_from(b, 0, size_b));
    assert(m > 0 && n > 0) by {
        lemma_fragment_shape(ops, context_from(a, 0), m);
        lemma_fragment_shape(ops, context_from(b, 0), n);
    }
    assert(a[0].stack == context_from(a, 0).stack);
    assert(b[0].stack == context_from(b, 0).stack);
    let (whole_a, whole_b) = (uncut(ops, a, size_a).0, uncut(ops, b, size_b).0);
    if m <= n {
        law_fragment_prefix(ops, context_from(a, 0), m, n);
    } else {
        law_fragment_prefix(ops, context_from(a, 0), n, m);
    }
    let (run_a, run_b) = (run_rows(ops, a, size_a), run_rows(ops, b, size_b));
    assert forall|c: int, i: int|
        0 <= c < CORE_TRACE_WIDTH && 0 <= i < whole_a[c].len() && i
            < whole_b[c].len() implies #[trigger] run_a[c][i] == run_b[c][i] by {
        assert(whole_a[c].len() == whole_a[0].len());
        assert(whole_b[c].len() == whole_b[0].len());
        assert(whole_a[c][i] == whole_b[c][i]);
    }
    assert forall|c: int, i: int|
        #![trigger joined_column(fixed_fragments(ops, a, size_a), c)[i]]
        0 <= c < CORE_TRACE_WIDTH && 0 <= i < joined_column(
            fixed_fragments(ops, a, size_a),
            c,
        ).len() && i < joined_column(
            fixed_fragments(ops, b, size_b),
            c,
        ).len() implies joined_column(fixed_fragments(ops, a, size_a), c)[i] == joined_column(
        fixed_fragments(ops, b, size_b),
        c,
    )[i] by {
        assert(joined_column(fixed_fragments(ops, a, size_a), c) == run_a[c]);
        assert(joined_column(fixed_fragments(ops, b, size_b), c) == run_b[c]);
        assert(run_a[c][i] == run_b[c][i]);
    }
}

proof fn lemma_rows_of_first_column(fragments: Seq<Seq<Seq<Felt>>>)
    ensures
        total_rows(fragments) == joined_column(fragments, 0).len(),
    decreases fragments.len(),
{
    if fragments.len() > 0 {
        lemma_rows_of_first_column(fragments.drop_last());
    }
}

/// The core trace is the run that was recorded, and a row that shows HALT.
pub proof fn law_core_trace_is_the_run<E: SyncOps>(
    ops: E,
    contexts: Seq<ContextModel>,
    fragment_size: usize,
    states: Seq<GeneratorModel>,
)
    requires
        recorded_run(ops, contexts, fragment_size, states),
    ensures
        ({
            let (_, stack, system) = uncut(ops, contexts, fragment_size);
            let run = run_rows(ops, contexts, fragment_size);
            let core = core_trace_fragments(ops, contexts, fragment_size);
            &&& forall|c: int|
                0 <= c < CORE_TRACE_WIDTH ==> #[trigger] joined_column(core, c) == halted(
                    run,
                    system,
                    stack,
                )[c]
            &&& total_rows(core) == run[0].len() + 1
            &&& total_rows(core) == total_rows(fixed_fragments(ops, contexts, fragment_size)) + 1
        }),
{
    law_fragments_make_up_the_trace(ops, contexts, fragment_size, states);
    let (pieces, stack, system) = uncut(ops, contexts, fragment_size);
    let run = run_rows(ops, contexts, fragment_size);
    let core = core_trace_fragments(ops, contexts, fragment_size);
    let fixed = fixed_fragments(ops, contexts, fragment_size);
    let last = fixed.len() - 1;
    lemma_fragment_shape(ops, contexts[last], fragment_size);
    assert(core.drop_last() =~= fixed.drop_last());
    assert forall|c: int| 0 <= c < CORE_TRACE_WIDTH implies #[trigger] joined_column(core, c)
        == halted(run, system, stack)[c] by {
        assert(joined_column(fixed, c) == run[c]);
        assert(fixed.last().len() == CORE_TRACE_WIDTH);
        assert(fixed.last()[c].len() > 0);
        assert(joined_column(fixed, c).last() == fixed.last()[c].last());
        assert(core.last() == halted(fixed.last(), system, stack));
        assert(joined_column(core, c) =~= halted(run, system, stack)[c]);
    }
    lemma_rows_of_first_column(core);
    lemma_rows_of_first_column(fixed);
    assert(joined_column(core, 0) == halted(run, system, stack)[0]);
}

/// Whether a recording goes on to the end of the run: with room for one more row, the program ends
/// before the fragment is full.
pub open spec fn recorded_to_end<E: SyncOps>(
    ops: E,
    contexts: Seq<ContextModel>,
    fragment_size: usize,
) -> bool {
    let n = rows_from(contexts, 0, fragment_size);
    &&& n < usize::MAX
    &&& context_generated(ops, context_from(contexts, 0), (n + 1) as usize) is Continue
}

proof fn lemma_room_left<E: SyncOps>(ops: E, context: ContextModel, m: usize)
    requires
        context.stack.top.len() == MIN_STACK_DEPTH,
        0 < m < usize::MAX,
        context_generated(ops, context, (m + 1) as usize) is Continue,
    ensures
        fragment_from(ops, context, m).0[0].len() == fragment_from(
            ops,
            context,
            (m + 1) as usize,
        ).0[0].len() <= m,
{
    let n = (m + 1) as usize;
    law_fragment_prefix(ops, context, m, n);
    assert(fragment_from(ops, context, n).0[0].len() <= m) by {
        reveal(context_generated);
        law_fragment_rows(ops, initial_state(context, n), context.initial_execution_state);
    }
}

/// Two recordings of the same run, in fragments of any sizes, that go on to its end hold equally
/// many rows.
pub proof fn law_recordings_to_the_end_hold_equally_many_rows<E: SyncOps>(
    ops: E,
    a: Seq<ContextModel>,
    size_a: usize,
    states_a: Seq<GeneratorModel>,
    b: Seq<ContextModel>,
    size_b: usize,
    states_b: Seq<GeneratorModel>,
)
    requires
        recorded_run(ops, a, size_a, states_a),
        recorded_run(ops, b, size_b, states_b),
        same_run(a, b),
        recorded_to_end(ops, a, size_a),
        recorded_to_end(ops, b, size_b),
    ensures
        total_rows(fixed_fragments(ops, a, size_a)) == total_rows(fixed_fragments(ops, b, size_b)),
{
    law_core_trace_is_the_run(ops, a, size_a, states_a);
    law_core_trace_is_the_run(ops, b, size_b, states_b);
    let (m, n) = (rows_from(a, 0, size_a), rows_from(b, 0, size_b));
    let context = context_from(a, 0);
    assert(m > 0 && n > 0) by {
        lemma_fragment_shape(ops, context, m);
        lemma_fragment_shape(ops, context, n);
    }
    assert(a[0].stack == context.stack);
    lemma_room_left(ops, context, m);
    lemma_room_left(ops, context, n);
    if m <= n {
        law_fragment_prefix(ops, context, (m + 1) as usize, (n + 1) as usize);
    } else {
        law_fragment_prefix(ops, context, (n + 1) as usize, (m + 1) as usize);
    }
    lemma_fragment_shape(ops, context, m);
    lemma_fragment_shape(ops, context, n);
    assert(run_rows(ops, a, size_a)[0].len() == uncut(ops, a, size_a).0[0].len());
    assert(run_rows(ops, b, size_b)[0].len() == uncut(ops, b, size_b).0[0].len());
}

/// Two recordings of the same run, in fragments of any sizes, that hold equally many rows give the
/// same core trace, cell by cell, with as much padding as there may be.
pub proof fn law_core_trace_does_not_depend_on_fragment_size<E: SyncOps>(
    ops: E,
    a: Seq<ContextModel>,
    size_a: usize,
    states_a: Seq<GeneratorModel>,
    b: Seq<ContextModel>,
    size_b: usize,
    states_b: Seq<GeneratorModel>,
)
    requires
        recorded_run(ops, a, size_a, states_a),
        recorded_run(ops, b, size_b, states_b),
        same_run(a, b),
        total_rows(fixed_fragments(ops, a, size_a)) == total_rows(
            fixed_fragments(ops, b, size_b),
        ),
    ensures
        ({
            let core_a = core_trace_fragments(ops, a, size_a);
            let core_b = core_trace_fragments(ops, b, size_b);
            &&& total_rows(core_a) == total_rows(core_b)
            &&& forall|c: int|
                0 <= c < CORE_TRACE_WIDTH ==> #[trigger] joined_column(core_a, c) == joined_column(
                    core_b,
                    c,
                )
            &&& forall|rows: int| #[trigger] combined(core_a, rows) == combined(core_b, rows)
        }),
{
    law_core_trace_is_the_run(ops, a, size_a, states_a);
    law_core_trace_is_the_run(ops, b, size_b, states_b);
    law_fragments_make_up_the_trace(ops, a, size_a, states_a);
    law_fragments_make_up_the_trace(ops, b, size_b, states_b);
    let core_a = core_trace_fragments(ops, a, size_a);
    let core_b = core_trace_fragments(ops, b, size_b);
    let (m, n) = (rows_from(a, 0, size_a), rows_from(b, 0, size_b));
    assert(m > 0 && n > 0) by {
        lemma_fragment_shape(ops, context_from(a, 0), m);
        lemma_fragment_shape(ops, context_from(b, 0), n);
    }
    assert(a[0].stack == context_from(a, 0).stack);
    assert(b[0].stack == context_from(b, 0).stack);
    let (whole_a, stack_a, system_a) = uncut(ops, a, size_a);
    let (whole_b, stack_b, system_b) = uncut(ops, b, size_b);
    assert(whole_a[0].len() == whole_b[0].len());
    lemma_fragment_shape(ops, context_from(a, 0), m);
    lemma_fragment_shape(ops, context_from(b, 0), n);
    if m <= n {
        law_fragment_prefix(ops, context_from(a, 0), m, n);
    } else {
        law_fragment_prefix(ops, context_from(a, 0), n, m);
    }
    assert(stack_a == stack_b && system_a == system_b);
    assert forall|c: int| 0 <= c < CORE_TRACE_WIDTH implies whole_a[c] == whole_b[c] by {
        assert(whole_a[c].len() == whole_a[0].len());
        assert(whole_b[c].len() == whole_b[0].len());
        assert(whole_a[c] =~= whole_b[c]);
    }
    assert(whole_a =~= whole_b);
    assert forall|rows: int| #[trigger] combined(core_a, rows) == combined(core_b, rows) by {
        assert forall|c: int| 0 <= c < CORE_TRACE_WIDTH implies combined(core_a, rows)[c]
            == combined(core_b, rows)[c] by {
            assert(joined_column(core_a, c) == joined_column(core_b, c));
        }
        assert(combined(core_a, rows) =~= combined(core_b, rows));
    }
}

} // verus!
