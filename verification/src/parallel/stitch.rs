//! Generation of all fragments of the core trace.

use crate::felt::felt;
use crate::felt::Felt;
use crate::layout::CORE_TRACE_WIDTH;
use crate::layout::DECODER_TRACE_OFFSET;
use crate::layout::FMP_MIN;
use crate::layout::MIN_STACK_DEPTH;
use crate::layout::STACK_TRACE_OFFSET;
use crate::layout::SYS_TRACE_WIDTH;
use crate::parallel::combine::all_rectangular;
use crate::parallel::combine::decoder_padding;
use crate::parallel::combine::decoder_padding_value;
use crate::parallel::combine::fragment_values;
use crate::parallel::combine::lemma_total_rows_prefix;
use crate::parallel::combine::total_rows;
use crate::parallel::execution::generated;
use crate::parallel::execution::SyncOps;
use crate::parallel::fragment::rectangular;
use crate::parallel::fragment::truncated;
use crate::parallel::fragment::with_cells;
use crate::parallel::fragment::CoreTraceFragment;
use crate::parallel::generator::blank_columns;
use crate::parallel::generator::CoreTraceFragmentGenerator;
use crate::parallel::model::Flow;
use crate::parallel::model::GeneratorModel;
use crate::parallel::progress::law_fragment_rows;
use crate::parallel::resume::final_state;
use crate::parallel::resume::fragment_of;
use crate::trace_state::lemma_stack_top_len;
use crate::trace_state::ContextModel;
use crate::trace_state::CoreTraceFragmentContext;
use rayon::iter::IntoParallelIterator;
use rayon::iter::ParallelIterator;
use vstd::prelude::*;

verus! {

// FIRST ROWS

/// The contents of rows.
pub open spec fn row_values<const N: usize>(rows: Seq<[Felt; N]>) -> Seq<Seq<Felt>> {
    rows.map_values(|r: [Felt; N]| r@)
}

/// A fragment whose first row shows the given system and stack columns.
pub open spec fn with_first_row(
    columns: Seq<Seq<Felt>>,
    system: Seq<Felt>,
    stack: Seq<Felt>,
) -> Seq<Seq<Felt>> {
    with_cells(with_cells(columns, 0, 0, system), STACK_TRACE_OFFSET as int, 0, stack)
}

/// The stack columns in the first row of the trace: the topmost elements (given with the top of
/// the stack last), the depth, and nothing in the overflow table.
pub open spec fn first_stack_cells(stack_top: Seq<Felt>) -> Seq<Felt> {
    Seq::new(
        19,
        |i: int|
            if i < 16 {
                stack_top[15 - i]
            } else if i == 16 {
                felt(16)
            } else {
                felt(0)
            },
    )
}

/// The fragments with their first rows filled in: the first with the initial state, each other
/// with the state in which the fragment before it ended.
pub open spec fn fixed_up(
    fragments: Seq<Seq<Seq<Felt>>>,
    stack_rows: Seq<Seq<Felt>>,
    system_rows: Seq<Seq<Felt>>,
    first_stack_top: Seq<Felt>,
    first_system_state: Seq<Felt>,
) -> Seq<Seq<Seq<Felt>>> {
    Seq::new(
        fragments.len(),
        |k: int|
            if k == 0 {
                with_first_row(
                    fragments[0],
                    first_system_state,
                    first_stack_cells(first_stack_top),
                )
            } else if fragments[k][0].len() > 0 && k - 1 < stack_rows.len() && k - 1
                < system_rows.len() {
                with_first_row(fragments[k], system_rows[k - 1], stack_rows[k - 1])
            } else {
                fragments[k]
            },
    )
}

/// Fills in the first rows of the fragments: of the first with the initial state, of each other
/// with the state in which the fragment before it ended.
pub fn fixup_stack_and_system_rows(
    fragments: &mut Vec<CoreTraceFragment>,
    stack_rows: &Vec<[Felt; 19]>,
    system_rows: &Vec<[Felt; 8]>,
    first_stack_top: &[Felt; 16],
    first_system_state: &[Felt; 8],
)
    requires
        all_rectangular(fragment_values(old(fragments)@)),
        old(fragments)@.len() > 0 ==> fragment_values(old(fragments)@)[0][0].len() > 0,
    ensures
        fragment_values(final(fragments)@) == fixed_up(
            fragment_values(old(fragments)@),
            row_values(stack_rows@),
            row_values(system_rows@),
            first_stack_top@,
            first_system_state@,
        ),
{
    let ghost before = fragment_values(fragments@);
    let ghost expected = fixed_up(
        before,
        row_values(stack_rows@),
        row_values(system_rows@),
        first_stack_top@,
        first_system_state@,
    );
    let n = fragments.len();
    if n == 0 {
        assert(fragment_values(fragments@) =~= expected);
        return ;
    }

    let mut first_stack_row: [Felt; 19] = [Felt::zero();19];
    // the trace shows the top of the stack first
    for i in 0..MIN_STACK_DEPTH
        invariant
            forall|j: int| 0 <= j < i ==> #[trigger] first_stack_row@[j] == first_stack_top@[15 - j],
            forall|j: int| i <= j < 19 ==> #[trigger] first_stack_row@[j] == felt(0),
    {
        first_stack_row[i] = first_stack_top[MIN_STACK_DEPTH - 1 - i];
    }
    first_stack_row[16] = Felt::new(MIN_STACK_DEPTH as u64);
    assert(first_stack_row@ =~= first_stack_cells(first_stack_top@));

    for k in 0..n
        invariant
            n == before.len(),
            fragments@.len() == n,
            all_rectangular(before),
            before[0][0].len() > 0,
            first_stack_row@ == first_stack_cells(first_stack_top@),
            expected == fixed_up(
                before,
                row_values(stack_rows@),
                row_values(system_rows@),
                first_stack_top@,
                first_system_state@,
            ),
            forall|j: int|
                0 <= j < n ==> #[trigger] fragments@[j]@ == if j < k {
                    expected[j]
                } else {
                    before[j]
                },
    {
        let ghost prev = fragments@;
        assert(fragments@[k as int]@ == before[k as int]);
        assert(rectangular(
            before[k as int],
            CORE_TRACE_WIDTH as int,
            before[k as int][0].len() as int,
        ));
        if k == 0 {
            fragments[k].write_cells(0, 0, first_system_state);
            fragments[k].write_cells(STACK_TRACE_OFFSET, 0, &first_stack_row);
        } else if fragments[k].row_count() > 0 && k - 1 < stack_rows.len() && k - 1
            < system_rows.len() {
            fragments[k].write_cells(0, 0, &system_rows[k - 1]);
            fragments[k].write_cells(STACK_TRACE_OFFSET, 0, &stack_rows[k - 1]);
        }
        assert(fragments@[k as int]@ == expected[k as int]);
        assert(forall|j: int| 0 <= j < n && j != k ==> fragments@[j] == prev[j]);
    }
    assert(fragment_values(fragments@) =~= expected);
}

// LAST ROW

/// A row that shows HALT after the last row of a fragment: the system and the stack columns are
/// given, the decoder columns show that the program has ended.
pub open spec fn halt_cell(
    columns: Seq<Seq<Felt>>,
    system: Seq<Felt>,
    stack: Seq<Felt>,
    c: int,
) -> Felt {
    if c < SYS_TRACE_WIDTH {
        system[c]
    } else if c < STACK_TRACE_OFFSET {
        decoder_padding(c - DECODER_TRACE_OFFSET, columns[c].last())
    } else {
        stack[c - STACK_TRACE_OFFSET]
    }
}

/// A fragment with a row that shows HALT at its end.
pub open spec fn halted(
    columns: Seq<Seq<Felt>>,
    system: Seq<Felt>,
    stack: Seq<Felt>,
) -> Seq<Seq<Felt>> {
    Seq::new(columns.len(), |c: int| columns[c].push(halt_cell(columns, system, stack, c)))
}

/// Appends a row that shows HALT to the last fragment, so that the trace ends with one.
pub fn append_halt_opcode_row(
    last_fragment: &mut CoreTraceFragment,
    last_system_state: &[Felt; 8],
    last_stack_state: &[Felt; 19],
)
    requires
        rectangular(
            old(last_fragment)@,
            CORE_TRACE_WIDTH as int,
            old(last_fragment)@[0].len() as int,
        ),
        old(last_fragment)@[0].len() > 0,
    ensures
        final(last_fragment)@ == halted(
            old(last_fragment)@,
            last_system_state@,
            last_stack_state@,
        ),
{
    let ghost before = last_fragment@;
    let ghost expected = halted(before, last_system_state@, last_stack_state@);
    for c in 0..CORE_TRACE_WIDTH
        invariant
            rectangular(before, CORE_TRACE_WIDTH as int, before[0].len() as int),
            before[0].len() > 0,
            expected == halted(before, last_system_state@, last_stack_state@),
            last_fragment@.len() == CORE_TRACE_WIDTH,
            forall|d: int|
                0 <= d < CORE_TRACE_WIDTH ==> #[trigger] last_fragment@[d] == if d < c {
                    expected[d]
                } else {
                    before[d]
                },
    {
        assert(last_fragment@[c as int] == before[c as int]);
        assert(before[c as int].len() > 0);
        let value = if c < SYS_TRACE_WIDTH {
            last_system_state[c]
        } else if c < STACK_TRACE_OFFSET {
            let rows = last_fragment.columns[c].len();
            let last = last_fragment.columns[c][rows - 1];
            decoder_padding_value(c - DECODER_TRACE_OFFSET, last)
        } else {
            last_stack_state[c - STACK_TRACE_OFFSET]
        };
        last_fragment.push_cell(c, value);
    }
    assert(last_fragment@ =~= expected);
}

// ALL FRAGMENTS

/// The state of the generator of a fragment that begins in the given context.
pub open spec fn initial_state(context: ContextModel, fragment_size: usize) -> GeneratorModel {
    GeneratorModel {
        fragment_start_clk: context.system.clk,
        columns: blank_columns(fragment_size),
        context,
        span_context: None,
        stack_rows: None,
        system_rows: None,
        fragment_size,
    }
}

/// What the generation of a fragment that begins in the given context leads to.
#[verifier::opaque]
pub open spec fn context_generated<E: SyncOps>(
    ops: E,
    context: ContextModel,
    fragment_size: usize,
) -> Flow {
    generated(ops, initial_state(context, fragment_size), context.initial_execution_state)
}

/// The fragment that begins in the given context, and the rows of its stack and of its system
/// columns that follow it.
pub open spec fn fragment_from<E: SyncOps>(
    ops: E,
    context: ContextModel,
    fragment_size: usize,
) -> (Seq<Seq<Felt>>, Seq<Felt>, Seq<Felt>) {
    fragment_of(final_state(context_generated(ops, context, fragment_size)))
}

/// The fragments that begin in the given contexts.
pub open spec fn fragments_from<E: SyncOps>(
    ops: E,
    contexts: Seq<ContextModel>,
    fragment_size: usize,
) -> Seq<Seq<Seq<Felt>>> {
    contexts.map_values(|c: ContextModel| fragment_from(ops, c, fragment_size).0)
}

/// The rows of the stack columns that follow the fragments.
pub open spec fn stack_rows_from<E: SyncOps>(
    ops: E,
    contexts: Seq<ContextModel>,
    fragment_size: usize,
) -> Seq<Seq<Felt>> {
    contexts.map_values(|c: ContextModel| fragment_from(ops, c, fragment_size).1)
}

/// The rows of the system columns that follow the fragments.
pub open spec fn system_rows_from<E: SyncOps>(
    ops: E,
    contexts: Seq<ContextModel>,
    fragment_size: usize,
) -> Seq<Seq<Felt>> {
    contexts.map_values(|c: ContextModel| fragment_from(ops, c, fragment_size).2)
}

/// The system columns in the first row of the trace: the free memory pointer has its initial
/// value, everything else is zero.
pub open spec fn first_system_cells() -> Seq<Felt> {
    Seq::new(
        8,
        |i: int|
            if i == 1 {
                felt(FMP_MIN as int)
            } else {
                felt(0)
            },
    )
}

/// The fragments of the core trace, with their first rows filled in and a row that shows HALT at
/// the end of the last.
pub open spec fn core_trace_fragments<E: SyncOps>(
    ops: E,
    contexts: Seq<ContextModel>,
    fragment_size: usize,
) -> Seq<Seq<Seq<Felt>>> {
    let stack_rows = stack_rows_from(ops, contexts, fragment_size);
    let system_rows = system_rows_from(ops, contexts, fragment_size);
    let fixed = fixed_up(
        fragments_from(ops, contexts, fragment_size),
        stack_rows,
        system_rows,
        contexts[0].stack.top,
        first_system_cells(),
    );
    fixed.update(
        fixed.len() - 1,
        halted(fixed.last(), system_rows.last(), stack_rows.last()),
    )
}

/// What fragment contexts hold.
pub open spec fn context_models(contexts: Seq<CoreTraceFragmentContext>) -> Seq<ContextModel> {
    contexts.map_values(|c: CoreTraceFragmentContext| c@)
}

/// Whether the recordings of all contexts fit the program.
pub open spec fn all_generate<E: SyncOps>(
    ops: E,
    contexts: Seq<ContextModel>,
    fragment_size: usize,
) -> bool {
    forall|k: int|
        0 <= k < contexts.len() ==> context_generated(
            ops,
            #[trigger] contexts[k],
            fragment_size,
        ) !is Panic
}

/// Whether the recordings of a context fit the program.
spec fn generates<E: SyncOps>(ops: &E, context: ContextModel, fragment_size: usize) -> bool {
    context_generated(*ops, context, fragment_size) !is Panic
}

/// Whether a fragment and the rows that follow it are what the generation leads to.
spec fn is_fragment_from<E: SyncOps>(
    ops: &E,
    context: ContextModel,
    fragment_size: usize,
    r: (CoreTraceFragment, [Felt; 19], [Felt; 8]),
) -> bool {
    (r.0@, r.1@, r.2@) == fragment_from(*ops, context, fragment_size)
}

/// `into_par_iter`, `map` and `collect` of `rayon`: every item is mapped, on any number of
/// threads, and the results come in the order of the items.
#[verifier::external_body]
fn map_in_parallel<T: Send, R: Send, F: Fn(T) -> R + Sync + Send>(items: Vec<T>, f: F) -> (r: Vec<R>)
    requires
        forall|i: int| 0 <= i < items@.len() ==> f.requires((#[trigger] items@[i],)),
    ensures
        r@.len() == items@.len(),
        forall|i: int| 0 <= i < r@.len() ==> f.ensures((items@[i],), #[trigger] r@[i]),
{
    items.into_par_iter().map(f).collect()
}

/// Every fragment that is generated has at least one row, and all columns of the core trace.
pub proof fn lemma_fragment_shape<E: SyncOps>(ops: E, context: ContextModel, fragment_size: usize)
    requires
        context.stack.top.len() == MIN_STACK_DEPTH,
        context_generated(ops, context, fragment_size) !is Panic,
    ensures
        ({
            let columns = fragment_from(ops, context, fragment_size).0;
            &&& rectangular(columns, CORE_TRACE_WIDTH as int, columns[0].len() as int)
            &&& 0 < columns[0].len() <= fragment_size
        }),
        fragment_from(ops, context, fragment_size).1.len() == 19,
        fragment_from(ops, context, fragment_size).2.len() == 8,
{
    reveal(context_generated);
    let s = initial_state(context, fragment_size);
    assert(s.well_formed());
    law_fragment_rows(ops, s, context.initial_execution_state);
    let t = final_state(context_generated(ops, context, fragment_size));
    assert(t.well_formed());
    assert(0 < t.rows_built() <= t.fragment_size);
    let columns = truncated(t.columns, t.rows_built());
    assert forall|c: int| 0 <= c < CORE_TRACE_WIDTH implies (#[trigger] columns[c]).len()
        == t.rows_built() by {
        assert(t.columns[c].len() == t.fragment_size);
    }
}

/// Generates the fragment of every context, and the rows that follow it.
fn generate_in_parallel<E: SyncOps + Sync>(
    core_trace_contexts: Vec<CoreTraceFragmentContext>,
    fragment_size: usize,
    ops: &E,
) -> (r: Vec<(CoreTraceFragment, [Felt; 19], [Felt; 8])>)
    requires
        all_generate(*ops, context_models(core_trace_contexts@), fragment_size),
    ensures
        r@.len() == core_trace_contexts@.len(),
        forall|i: int|
            0 <= i < r@.len() ==> is_fragment_from(
                ops,
                core_trace_contexts@[i]@,
                fragment_size,
                #[trigger] r@[i],
            ),
{
    let generate = |trace_state: CoreTraceFragmentContext| -> (r: (
        CoreTraceFragment,
        [Felt; 19],
        [Felt; 8],
    ))
        requires
            generates(ops, trace_state@, fragment_size),
        ensures
            is_fragment_from(ops, trace_state@, fragment_size, r),
        {
            proof {
                reveal(context_generated);
            }
            let generator = CoreTraceFragmentGenerator::new(trace_state, fragment_size);
            assert(generator@ == initial_state(trace_state@, fragment_size));
            generator.generate_fragment(ops)
        };
    let ghost items = core_trace_contexts@;
    proof {
        assert forall|i: int| 0 <= i < items.len() implies generate.requires(
            (#[trigger] items[i],),
        ) by {
            assert(context_models(items)[i] == items[i]@);
        }
    }
    let results = map_in_parallel(core_trace_contexts, generate);
    proof {
        assert forall|i: int| 0 <= i < results@.len() implies is_fragment_from(
            ops,
            items[i]@,
            fragment_size,
            #[trigger] results@[i],
        ) by {
            assert(generate.ensures((items[i],), results@[i]));
        }
    }
    results
}

/// Separates fragments and the rows that follow them.
fn separated(results: Vec<(CoreTraceFragment, [Felt; 19], [Felt; 8])>) -> (r: (
    Vec<CoreTraceFragment>,
    Vec<[Felt; 19]>,
    Vec<[Felt; 8]>,
))
    ensures
        r.0@ == results@.map_values(|x: (CoreTraceFragment, [Felt; 19], [Felt; 8])| x.0),
        r.1@ == results@.map_values(|x: (CoreTraceFragment, [Felt; 19], [Felt; 8])| x.1),
        r.2@ == results@.map_values(|x: (CoreTraceFragment, [Felt; 19], [Felt; 8])| x.2),
{
    let mut fragments: Vec<CoreTraceFragment> = Vec::new();
    let mut stack_rows: Vec<[Felt; 19]> = Vec::new();
    let mut system_rows: Vec<[Felt; 8]> = Vec::new();
    let ghost produced = results@;
    for result in it: results
        invariant
            it.seq() == produced,
            fragments@.len() == it.index(),
            stack_rows@.len() == it.index(),
            system_rows@.len() == it.index(),
            forall|i: int| 0 <= i < it.index() ==> #[trigger] fragments@[i] == produced[i].0,
            forall|i: int| 0 <= i < it.index() ==> #[trigger] stack_rows@[i] == produced[i].1,
            forall|i: int| 0 <= i < it.index() ==> #[trigger] system_rows@[i] == produced[i].2,
    {
        let (fragment, stack_row, system_row) = result;
        fragments.push(fragment);
        stack_rows.push(stack_row);
        system_rows.push(system_row);
    }
    (fragments, stack_rows, system_rows)
}

/// Whether every fragment has at least one row, and all columns of the core trace.
spec fn all_filled(fragments: Seq<Seq<Seq<Felt>>>) -> bool {
    forall|k: int|
        0 <= k < fragments.len() ==> {
            &&& rectangular(
                #[trigger] fragments[k],
                CORE_TRACE_WIDTH as int,
                fragments[k][0].len() as int,
            )
            &&& fragments[k][0].len() > 0
        }
}

/// Filling in first rows keeps the shape of the fragments, and so does a row at the end.
proof fn lemma_shape_kept(
    fragments: Seq<Seq<Seq<Felt>>>,
    stack_rows: Seq<Seq<Felt>>,
    system_rows: Seq<Seq<Felt>>,
    first_stack_top: Seq<Felt>,
    first_system_state: Seq<Felt>,
    system: Seq<Felt>,
    stack: Seq<Felt>,
)
    requires
        fragments.len() > 0,
        all_filled(fragments),
    ensures
        ({
            let fixed = fixed_up(
                fragments,
                stack_rows,
                system_rows,
                first_stack_top,
                first_system_state,
            );
            &&& all_filled(fixed)
            &&& all_filled(fixed.update(fixed.len() - 1, halted(fixed.last(), system, stack)))
        }),
{
    let fixed = fixed_up(
        fragments,
        stack_rows,
        system_rows,
        first_stack_top,
        first_system_state,
    );
    assert forall|k: int| 0 <= k < fixed.len() implies {
        &&& rectangular(
            #[trigger] fixed[k],
            CORE_TRACE_WIDTH as int,
            fixed[k][0].len() as int,
        )
        &&& fixed[k][0].len() > 0
    } by {
        assert(rectangular(
            fragments[k],
            CORE_TRACE_WIDTH as int,
            fragments[k][0].len() as int,
        ));
    }
    let last = fixed.last();
    assert(last == fixed[fixed.len() - 1]);
    let done = fixed.update(fixed.len() - 1, halted(last, system, stack));
    assert forall|k: int| 0 <= k < done.len() implies {
        &&& rectangular(#[trigger] done[k], CORE_TRACE_WIDTH as int, done[k][0].len() as int)
        &&& done[k][0].len() > 0
    } by {
        assert(rectangular(fixed[k], CORE_TRACE_WIDTH as int, fixed[k][0].len() as int));
    }
}

/// Generates the fragments of the core trace from the contexts in which they begin.
pub fn generate_core_trace_fragments<E: SyncOps + Sync>(
    core_trace_contexts: Vec<CoreTraceFragmentContext>,
    fragment_size: usize,
    ops: &E,
) -> (r: Vec<CoreTraceFragment>)
    requires
        core_trace_contexts@.len() > 0,
        all_generate(*ops, context_models(core_trace_contexts@), fragment_size),
    ensures
        fragment_values(r@) == core_trace_fragments(
            *ops,
            context_models(core_trace_contexts@),
            fragment_size,
        ),
        all_rectangular(fragment_values(r@)),
        total_rows(fragment_values(r@)) >= 2,
{
    let ghost items = core_trace_contexts@;
    let ghost contexts = context_models(items);
    let first_stack_top: [Felt; 16] = core_trace_contexts[0].state.stack.top();
    let zero = Felt::zero();
    let first_system_state: [Felt; 8] = [
        zero,
        Felt::new(FMP_MIN),
        zero,
        zero,
        zero,
        zero,
        zero,
        zero,
    ];
    assert(first_system_state@ =~= first_system_cells());

    let results = generate_in_parallel(core_trace_contexts, fragment_size, ops);
    let ghost produced = results@;
    let (mut fragments, stack_rows, system_rows) = separated(results);
    let ghost built = fragments_from(*ops, contexts, fragment_size);
    let ghost stack = stack_rows_from(*ops, contexts, fragment_size);
    let ghost system = system_rows_from(*ops, contexts, fragment_size);
    proof {
        broadcast use lemma_stack_top_len;

        assert forall|k: int| 0 <= k < contexts.len() implies is_fragment_from(
            ops,
            #[trigger] contexts[k],
            fragment_size,
            produced[k],
        ) by {
            assert(is_fragment_from(ops, items[k]@, fragment_size, produced[k]));
        }
        assert(fragment_values(fragments@) =~= built);
        assert(row_values(stack_rows@) =~= stack);
        assert(row_values(system_rows@) =~= system);
        assert forall|k: int| 0 <= k < built.len() implies {
            &&& rectangular(
                #[trigger] built[k],
                CORE_TRACE_WIDTH as int,
                built[k][0].len() as int,
            )
            &&& built[k][0].len() > 0
        } by {
            assert(contexts[k] == items[k]@);
            lemma_fragment_shape(*ops, contexts[k], fragment_size);
        }
        lemma_shape_kept(
            built,
            stack,
            system,
            contexts[0].stack.top,
            first_system_cells(),
            system.last(),
            stack.last(),
        );
    }

    // rows of the system and of the stack show in the row after the one that makes them, so the
    // first row of a fragment comes from the fragment before
    fixup_stack_and_system_rows(
        &mut fragments,
        &stack_rows,
        &system_rows,
        &first_stack_top,
        &first_system_state,
    );
    let ghost fixed = fragment_values(fragments@);
    let last = fragments.len() - 1;
    assert(fixed[last as int] == fragments@[last as int]@);
    append_halt_opcode_row(&mut fragments[last], &system_rows[last], &stack_rows[last]);
    proof {
        assert(row_values(stack_rows@)[last as int] == stack.last());
        assert(row_values(system_rows@)[last as int] == system.last());
        assert(fragment_values(fragments@) =~= fixed.update(
            last as int,
            halted(fixed.last(), system.last(), stack.last()),
        ));
        let done = fragment_values(fragments@);
        assert(rectangular(
            fixed[last as int],
            CORE_TRACE_WIDTH as int,
            fixed[last as int][0].len() as int,
        ));
        assert(done.last() == halted(fixed.last(), system.last(), stack.last()));
        lemma_total_rows_prefix(done, last as int);
        assert(done.take(last as int) =~= done.drop_last());
    }
    fragments
}

} // verus!
