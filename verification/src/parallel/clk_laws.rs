//! The clock column counts the rows of the trace.

use crate::felt::felt;
use crate::layout::CLK_COL_IDX;
use crate::layout::MIN_STACK_DEPTH;
use crate::parallel::combine::combined;
use crate::parallel::combine::joined_column;
use crate::parallel::combine::padded_column;
use crate::parallel::combine::total_rows;
use crate::parallel::execution::SyncOps;
use crate::parallel::model::GeneratorModel;
use crate::parallel::prefix_laws::law_fragment_prefix;
use crate::parallel::progress::law_fragment_rows;
use crate::parallel::resume::final_state;
use crate::parallel::size_laws::law_core_trace_is_the_run;
use crate::parallel::size_laws::run_rows;
use crate::parallel::stitch::context_generated;
use crate::parallel::stitch::core_trace_fragments;
use crate::parallel::stitch::fragment_from;
use crate::parallel::stitch::halted;
use crate::parallel::stitch::initial_state;
use crate::parallel::stitch::lemma_fragment_shape;
use crate::parallel::whole_laws::context_from;
use crate::parallel::whole_laws::recorded_run;
use crate::parallel::whole_laws::rows_from;
use crate::parallel::whole_laws::uncut;
use crate::trace_state::ContextModel;
use vstd::prelude::*;

verus! {

/// What follows a fragment shows the clock cycle after it.
proof fn lemma_clk_after<E: SyncOps>(ops: E, context: ContextModel, n: usize)
    requires
        context.stack.top.len() == MIN_STACK_DEPTH,
        context_generated(ops, context, n) !is Panic,
    ensures
        ({
            let (rows, _, system) = fragment_from(ops, context, n);
            system[CLK_COL_IDX as int] == felt(context.system.clk + rows[0].len())
        }),
{
    reveal(context_generated);
    let s = initial_state(context, n);
    law_fragment_rows(ops, s, context.initial_execution_state);
    let t = final_state(context_generated(ops, context, n));
    assert(t.columns[0].len() == n);
}

/// The rows of a fragment, from the second on, show one clock cycle after the other, and what
/// follows it the clock cycle after the last.
pub proof fn law_clk_counts_in_fragment<E: SyncOps>(ops: E, context: ContextModel, n: usize)
    requires
        context.stack.top.len() == MIN_STACK_DEPTH,
        context_generated(ops, context, n) !is Panic,
    ensures
        ({
            let (rows, _, system) = fragment_from(ops, context, n);
            &&& forall|i: int|
                0 < i < rows[0].len() ==> #[trigger] rows[CLK_COL_IDX as int][i] == felt(
                    context.system.clk + i,
                )
            &&& system[CLK_COL_IDX as int] == felt(context.system.clk + rows[0].len())
        }),
{
    let (rows, _, _) = fragment_from(ops, context, n);
    lemma_clk_after(ops, context, n);
    lemma_fragment_shape(ops, context, n);
    assert forall|i: int| 0 < i < rows[0].len() implies #[trigger] rows[CLK_COL_IDX as int][i]
        == felt(context.system.clk + i) by {
        law_fragment_prefix(ops, context, i as usize, n);
        lemma_clk_after(ops, context, i as usize);
    }
}

/// The clock column counts the rows of the core trace from zero on, over all fragments, over the
/// row that shows HALT, and over the padding. Left out is padding from row 2^32 on, where the count
/// begins anew.
pub proof fn law_clk_counts_rows<E: SyncOps>(
    ops: E,
    contexts: Seq<ContextModel>,
    fragment_size: usize,
    states: Seq<GeneratorModel>,
    rows: int,
)
    requires
        recorded_run(ops, contexts, fragment_size, states),
        contexts[0].system.clk == 0,
        rows <= 0x1_0000_0000,
    ensures
        ({
            let core = core_trace_fragments(ops, contexts, fragment_size);
            &&& forall|i: int|
                0 <= i < total_rows(core) ==> #[trigger] joined_column(
                    core,
                    CLK_COL_IDX as int,
                )[i] == felt(i)
            &&& forall|i: int|
                0 <= i < rows ==> #[trigger] combined(core, rows)[CLK_COL_IDX as int][i] == felt(i)
        }),
{
    let context = context_from(contexts, 0);
    let n = rows_from(contexts, 0, fragment_size);
    let (pieces, stack, system) = uncut(ops, contexts, fragment_size);
    let run = run_rows(ops, contexts, fragment_size);
    let core = core_trace_fragments(ops, contexts, fragment_size);
    let column = joined_column(core, CLK_COL_IDX as int);
    law_core_trace_is_the_run(ops, contexts, fragment_size, states);
    law_clk_counts_in_fragment(ops, context, n);
    lemma_fragment_shape(ops, context, n);
    assert(column == halted(run, system, stack)[CLK_COL_IDX as int]);
    assert forall|i: int| 0 <= i < total_rows(core) implies #[trigger] column[i] == felt(i) by {
        if 0 < i < pieces[0].len() {
            assert(pieces[CLK_COL_IDX as int][i] == felt(i));
        }
    }
    assert forall|i: int| 0 <= i < rows implies #[trigger] combined(
        core,
        rows,
    )[CLK_COL_IDX as int][i] == felt(i) by {
        assert(combined(core, rows)[CLK_COL_IDX as int] == padded_column(
            column,
            CLK_COL_IDX as int,
            rows,
        ));
        if i < column.len() {
            assert(column[i] == felt(i));
        }
    }
}

} // verus!
