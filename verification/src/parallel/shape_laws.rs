//! What the first rows, the last row and the padding of the trace show, and how the stack shows.

use crate::context::RowIndex;
use crate::execution_tracer::TraceGenerationContext;
use crate::felt::felt;
use crate::felt::is_inverse;
use crate::felt::lemma_felt_small;
use crate::felt::lemma_inverse_of;
use crate::felt::Felt;
use crate::layout::MIN_STACK_DEPTH;
use crate::layout::NUM_RAND_ROWS;
use crate::layout::PADDED_TRACE_WIDTH;
use crate::parallel::chiplets::all_requests;
use crate::parallel::chiplets::merges;
use crate::parallel::chiplets::recorded_accesses;
use crate::parallel::chiplets::requested;
use crate::parallel::chiplets::ChipletsInterface;
use crate::parallel::chiplets::MemoryAccess;
use crate::parallel::chiplets::RangeChecker;
use crate::parallel::combine::all_rectangular;
use crate::parallel::combine::combined;
use crate::parallel::combine::joined_column;
use crate::parallel::combine::lemma_joined_len;
use crate::parallel::combine::total_rows;
use crate::parallel::decoder_laws::shows_op;
use crate::parallel::execution::SyncOps;
use crate::parallel::fragment::column_values;
use crate::parallel::fragment::rectangular;
use crate::parallel::main_trace::coin_draws;
use crate::parallel::main_trace::core_trace_len;
use crate::parallel::main_trace::fragments_of;
use crate::parallel::main_trace::seed_of;
use crate::parallel::main_trace::ExecutionTrace;
use crate::parallel::main_trace::Kernel;
use crate::parallel::main_trace::TraceStages;
use crate::parallel::main_trace::TraceTables;
use crate::parallel::model::op_bit;
use crate::parallel::model::row_added;
use crate::parallel::model::DecoderRow;
use crate::parallel::model::GeneratorModel;
use crate::parallel::resume::final_state;
use crate::parallel::resume::fragment_of;
use crate::parallel::row_laws::law_columns_in_order;
use crate::parallel::row_laws::law_main_trace_len;
use crate::parallel::stitch::all_generate;
use crate::parallel::stitch::context_models;
use crate::parallel::stitch::core_trace_fragments;
use crate::parallel::stitch::fragment_from;
use crate::parallel::stitch::initial_state;
use crate::parallel::stitch::lemma_fragment_shape;
use crate::trace_state::ContextModel;
use crate::word::Word;
use vstd::arithmetic::power2::pow2;
use vstd::prelude::*;

verus! {

// THE STACK

/// The row after the current one shows the stack as it is in the current one: the topmost sixteen
/// elements, the top of the stack first, the depth, the overflow address, and the number of elements
/// beyond the sixteenth.
pub proof fn law_next_row_shows_stack(s: GeneratorModel, row: DecoderRow, next: DecoderRow)
    requires
        s.well_formed(),
        row_added(s, row) !is Panic,
        row_added(final_state(row_added(s, row)), next) !is Panic,
    ensures
        ({
            let t = final_state(row_added(s, row));
            let columns = final_state(row_added(t, next)).columns;
            let r = s.rows_built() + 1;
            let stack = s.context.stack;
            &&& forall|i: int|
                0 <= i < 16 ==> #[trigger] columns[32 + i][r] == stack.top[15 - i]
            &&& columns[48][r] == felt(stack.depth as int)
            &&& columns[49][r] == stack.overflow_addr
            &&& columns[50][r] == felt(stack.depth - 16)
        }),
{
    reveal(row_added);
    let t = final_state(row_added(s, row));
    let columns = final_state(row_added(t, next)).columns;
    let r = s.rows_built() + 1;
    assert forall|c: int| 32 <= c < 51 implies (#[trigger] columns[c])[r]
        == t.stack_rows.unwrap()[c - 32] by {
        assert(s.columns[c].len() == s.fragment_size);
        assert(t.columns[c].len() == t.fragment_size);
    }
    assert forall|i: int| 0 <= i < 16 implies #[trigger] columns[32 + i][r]
        == s.context.stack.top[15 - i] by {
        let c = 32 + i;
        assert(columns[c][r] == t.stack_rows.unwrap()[c - 32]);
    }
    assert(columns[48][r] == t.stack_rows.unwrap()[16]);
    assert(columns[49][r] == t.stack_rows.unwrap()[17]);
    assert(columns[50][r] == t.stack_rows.unwrap()[18]);
}

// FIRST ROWS

/// The first row of the trace shows clock cycle zero, the initial free memory pointer, the root
/// context, no syscall and no digest; the stack with which the program starts, with sixteen
/// elements and nothing in the overflow table.
pub proof fn law_first_row<E: SyncOps>(
    ops: E,
    contexts: Seq<ContextModel>,
    fragment_size: usize,
)
    requires
        contexts.len() > 0,
        contexts[0].stack.top.len() == MIN_STACK_DEPTH,
        all_generate(ops, contexts, fragment_size),
    ensures
        ({
            let columns = core_trace_fragments(ops, contexts, fragment_size)[0];
            &&& columns[0][0]@ == 0
            &&& columns[1][0]@ == 0x4000_0000
            &&& forall|c: int| 2 <= c < 8 ==> (#[trigger] columns[c])[0]@ == 0
            &&& forall|i: int|
                0 <= i < 16 ==> #[trigger] columns[32 + i][0] == contexts[0].stack.top[15 - i]
            &&& columns[48][0]@ == 16
            &&& columns[49][0]@ == 0
            &&& columns[50][0]@ == 0
        }),
{
    lemma_fragment_shape(ops, contexts[0], fragment_size);
    let own = fragment_from(ops, contexts[0], fragment_size).0;
    let columns = core_trace_fragments(ops, contexts, fragment_size)[0];
    lemma_felt_small(0);
    lemma_felt_small(0x4000_0000);
    lemma_felt_small(16);
    assert forall|c: int| 0 <= c < 51 implies (#[trigger] own[c]).len() > 0 by {
        assert(own[c].len() == own[0].len());
    }
    assert(own[0].len() > 0 && own[1].len() > 0);
    assert(own[48].len() > 0 && own[49].len() > 0 && own[50].len() > 0);
    assert forall|c: int| 2 <= c < 8 implies (#[trigger] columns[c])[0]@ == 0 by {
        assert(own[c].len() > 0);
    }
    assert forall|i: int| 0 <= i < 16 implies #[trigger] columns[32 + i][0]
        == contexts[0].stack.top[15 - i] by {
        let c = 32 + i;
        assert(own[c].len() > 0);
    }
}

/// The first row of every other fragment shows the system and the stack as the fragment before has
/// left them. All other cells of a fragment are its own.
pub proof fn law_first_rows_of_fragments<E: SyncOps>(
    ops: E,
    contexts: Seq<ContextModel>,
    fragment_size: usize,
    k: int,
)
    requires
        0 < k < contexts.len(),
        forall|i: int|
            0 <= i < contexts.len() ==> (#[trigger] contexts[i]).stack.top.len()
                == MIN_STACK_DEPTH,
        all_generate(ops, contexts, fragment_size),
    ensures
        ({
            let columns = core_trace_fragments(ops, contexts, fragment_size)[k];
            let (own, _, _) = fragment_from(ops, contexts[k], fragment_size);
            let (_, stack, system) = fragment_from(ops, contexts[k - 1], fragment_size);
            &&& columns.len() == 51
            &&& forall|c: int| 0 <= c < 8 ==> (#[trigger] columns[c])[0] == system[c]
            &&& forall|c: int| 32 <= c < 51 ==> (#[trigger] columns[c])[0] == stack[c - 32]
            &&& forall|c: int| 8 <= c < 32 ==> (#[trigger] columns[c])[0] == own[c][0]
            &&& forall|c: int, i: int|
                0 <= c < 51 && 0 < i < own[0].len() ==> #[trigger] columns[c][i] == own[c][i]
        }),
{
    lemma_fragment_shape(ops, contexts[k], fragment_size);
    lemma_fragment_shape(ops, contexts[k - 1], fragment_size);
    let own = fragment_from(ops, contexts[k], fragment_size).0;
    assert forall|c: int| 0 <= c < 51 implies (#[trigger] own[c]).len() == own[0].len() by {}
    let core = core_trace_fragments(ops, contexts, fragment_size);
    assert(core.len() == contexts.len());
    let columns = core[k];
    assert forall|c: int| 0 <= c < 8 implies (#[trigger] columns[c])[0] == fragment_from(
        ops,
        contexts[k - 1],
        fragment_size,
    ).2[c] by {
        assert(own[c].len() > 0);
    }
    assert forall|c: int| 32 <= c < 51 implies (#[trigger] columns[c])[0] == fragment_from(
        ops,
        contexts[k - 1],
        fragment_size,
    ).1[c - 32] by {
        assert(own[c].len() > 0);
    }
    assert forall|c: int| 8 <= c < 32 implies (#[trigger] columns[c])[0] == own[c][0] by {
        assert(own[c].len() > 0);
    }
    assert forall|c: int, i: int| 0 <= c < 51 && 0 < i < own[0].len() implies #[trigger]
        columns[c][i] == own[c][i] by {
        assert(own[c].len() == own[0].len());
    }
}

// THE END

proof fn lemma_halt_shown(columns: Seq<Seq<Felt>>, r: int)
    requires
        forall|i: int| 0 <= i < 7 ==> #[trigger] columns[9 + i][r] == felt(op_bit(0x7c, i)),
        columns[30][r] == felt(0),
        columns[31][r] == felt(1),
    ensures
        shows_op(columns, r, 0x7c),
{
    let c: u8 = 0x7c;
    assert(((c >> 0) & 1) == 0 && ((c >> 1) & 1) == 0 && ((c >> 2) & 1) == 1 && ((c >> 3) & 1) == 1
        && ((c >> 4) & 1) == 1 && ((c >> 5) & 1) == 1 && ((c >> 6) & 1) == 1) by (bit_vector)
        requires
            c == 0x7c,
    ;
    lemma_felt_small(0);
    lemma_felt_small(1);
    let bit = |i: int| columns[9 + i][r]@ as int;
    assert(columns[9 + 0int][r] == felt(op_bit(0x7c, 0)));
    assert(columns[9 + 1int][r] == felt(op_bit(0x7c, 1)));
    assert(columns[9 + 2int][r] == felt(op_bit(0x7c, 2)));
    assert(columns[9 + 3int][r] == felt(op_bit(0x7c, 3)));
    assert(columns[9 + 4int][r] == felt(op_bit(0x7c, 4)));
    assert(columns[9 + 5int][r] == felt(op_bit(0x7c, 5)));
    assert(columns[9 + 6int][r] == felt(op_bit(0x7c, 6)));
    assert(bit(0) == 0 && bit(1) == 0 && bit(2) == 1 && bit(3) == 1 && bit(4) == 1 && bit(5) == 1
        && bit(6) == 1);
    assert forall|i: int| 0 <= i < 7 implies #[trigger] bit(i) == 0 || bit(i) == 1 by {
        assert(i == 0 || i == 1 || i == 2 || i == 3 || i == 4 || i == 5 || i == 6);
    }
}

/// The last row of the core trace shows HALT, no address, the digest in its first four hasher
/// registers that the row before shows there, and nothing else in the decoder columns; its system
/// and stack columns show what the last operation has left.
pub proof fn law_halt_row<E: SyncOps>(
    ops: E,
    contexts: Seq<ContextModel>,
    fragment_size: usize,
)
    requires
        contexts.len() > 0,
        forall|i: int|
            0 <= i < contexts.len() ==> (#[trigger] contexts[i]).stack.top.len()
                == MIN_STACK_DEPTH,
        all_generate(ops, contexts, fragment_size),
    ensures
        ({
            let columns = core_trace_fragments(ops, contexts, fragment_size).last();
            let (own, stack, system) = fragment_from(ops, contexts.last(), fragment_size);
            let r = own[0].len() as int;
            &&& rectangular(columns, 51, r + 1)
            &&& shows_op(columns, r, 0x7c)
            &&& columns[8][r]@ == 0
            &&& forall|c: int| 16 <= c < 20 ==> (#[trigger] columns[c])[r] == columns[c][r - 1]
            &&& forall|c: int| 20 <= c < 30 ==> (#[trigger] columns[c])[r]@ == 0
            &&& forall|c: int| 0 <= c < 8 ==> (#[trigger] columns[c])[r] == system[c]
            &&& forall|c: int| 32 <= c < 51 ==> (#[trigger] columns[c])[r] == stack[c - 32]
            &&& forall|c: int, i: int|
                8 <= c < 32 && 0 <= i < r ==> #[trigger] columns[c][i] == own[c][i]
        }),
{
    let last = contexts.len() - 1;
    lemma_fragment_shape(ops, contexts[last], fragment_size);
    if last > 0 {
        lemma_fragment_shape(ops, contexts[last - 1], fragment_size);
    }
    lemma_felt_small(0);
    let (own, stack, system) = fragment_from(ops, contexts.last(), fragment_size);
    let columns = core_trace_fragments(ops, contexts, fragment_size).last();
    let r = own[0].len() as int;
    assert forall|c: int| 0 <= c < 51 implies (#[trigger] own[c]).len() == r by {}
    assert forall|c: int| 0 <= c < 51 implies (#[trigger] columns[c]).len() == r + 1 by {
        assert(own[c].len() == r);
    }
    assert forall|i: int| 0 <= i < 7 implies #[trigger] columns[9 + i][r] == felt(
        op_bit(0x7c, i),
    ) by {
        let c = 9 + i;
        assert(own[c].len() == r);
    }
    assert(own[8].len() == r && own[30].len() == r && own[31].len() == r);
    lemma_halt_shown(columns, r);
    assert forall|c: int| 16 <= c < 20 implies (#[trigger] columns[c])[r] == columns[c][r - 1] by {
        assert(own[c].len() == r);
    }
    assert forall|c: int| 20 <= c < 30 implies (#[trigger] columns[c])[r]@ == 0 by {
        assert(own[c].len() == r);
    }
    assert forall|c: int| 0 <= c < 8 implies (#[trigger] columns[c])[r] == system[c] by {
        assert(own[c].len() == r);
    }
    assert forall|c: int| 32 <= c < 51 implies (#[trigger] columns[c])[r] == stack[c - 32] by {
        assert(own[c].len() == r);
    }
    assert forall|c: int, i: int| 8 <= c < 32 && 0 <= i < r implies #[trigger] columns[c][i]
        == own[c][i] by {
        assert(own[c].len() == r);
        assert(columns[c] =~= own[c].push(columns[c][r]));
    }
}

/// A row of padding shows HALT, no address, and nothing in the decoder columns but the digest in
/// the first four hasher registers.
pub proof fn law_padding_shows_halt(fragments: Seq<Seq<Seq<Felt>>>, rows: int, i: int)
    requires
        all_rectangular(fragments),
        0 < total_rows(fragments) <= i < rows,
    ensures
        ({
            let columns = combined(fragments, rows);
            let last = total_rows(fragments) - 1;
            &&& shows_op(columns, i, 0x7c)
            &&& columns[8][i]@ == 0
            &&& forall|c: int| 16 <= c < 20 ==> (#[trigger] columns[c])[i] == columns[c][last]
            &&& forall|c: int| 20 <= c < 30 ==> (#[trigger] columns[c])[i]@ == 0
        }),
{
    assert forall|c: int| 0 <= c < 51 implies #[trigger] joined_column(fragments, c).len()
        == total_rows(fragments) by {
        lemma_joined_len(fragments, c);
    }
    lemma_felt_small(0);
    let columns = combined(fragments, rows);
    let last = total_rows(fragments) - 1;
    assert forall|d: int| 0 <= d < 7 implies #[trigger] columns[9 + d][i] == felt(
        op_bit(0x7c, d),
    ) by {
        let c = 9 + d;
        assert(joined_column(fragments, c).len() == total_rows(fragments));
    }
    assert(joined_column(fragments, 8).len() == total_rows(fragments));
    assert(joined_column(fragments, 30).len() == total_rows(fragments));
    assert(joined_column(fragments, 31).len() == total_rows(fragments));
    lemma_halt_shown(columns, i);
    assert forall|c: int| 16 <= c < 20 implies (#[trigger] columns[c])[i] == columns[c][last] by {
        assert(joined_column(fragments, c).len() == total_rows(fragments));
    }
    assert forall|c: int| 20 <= c < 30 implies (#[trigger] columns[c])[i]@ == 0 by {
        assert(joined_column(fragments, c).len() == total_rows(fragments));
    }
}

/// The last stack column shows the inverse of the number of elements beyond the sixteenth that the
/// fragments show there, or zero if there are none.
pub proof fn law_overflow_helper(fragments: Seq<Seq<Seq<Felt>>>, rows: int, i: int, inverse: Felt)
    requires
        all_rectangular(fragments),
        0 <= i < total_rows(fragments) <= rows,
        is_inverse(joined_column(fragments, 50)[i], inverse),
    ensures
        combined(fragments, rows)[50][i] == inverse,
        joined_column(fragments, 50)[i]@ == 0 ==> combined(fragments, rows)[50][i]@ == 0,
        joined_column(fragments, 50)[i]@ != 0 ==> (joined_column(fragments, 50)[i]@ * combined(
            fragments,
            rows,
        )[50][i]@) % 0xffff_ffff_0000_0001 == 1,
{
    lemma_joined_len(fragments, 50);
    lemma_inverse_of(joined_column(fragments, 50)[i], inverse);
}

// FRAGMENTS AND THE MAIN TRACE

/// A fragment begins without rows, in the clock cycle of its context, and with room for as many
/// rows as it may have.
pub proof fn law_fragment_begins_empty(context: ContextModel, fragment_size: usize)
    ensures
        ({
            let s = initial_state(context, fragment_size);
            &&& s.rows_built() == 0
            &&& s.context == context
            &&& s.fragment_size == fragment_size
            &&& s.span_context is None
            &&& s.system_rows is None
            &&& s.stack_rows is None
            &&& rectangular(s.columns, 51, fragment_size as int)
        }),
{
}

/// What a fragment hands out are the rows that were built, and what the next row will show of the
/// stack and of the system.
pub proof fn law_fragment_handed_out(s: GeneratorModel)
    requires
        s.well_formed(),
        s.stack_rows is Some,
        s.system_rows is Some,
    ensures
        ({
            let (columns, stack, system) = fragment_of(s);
            &&& rectangular(columns, 51, s.rows_built())
            &&& forall|c: int, i: int|
                0 <= c < 51 && 0 <= i < s.rows_built() ==> #[trigger] columns[c][i]
                    == s.columns[c][i]
            &&& stack == s.stack_rows.unwrap()
            &&& system == s.system_rows.unwrap()
        }),
{
    let columns = fragment_of(s).0;
    assert forall|c: int| 0 <= c < 51 implies (#[trigger] columns[c]).len() == s.rows_built() by {
        assert(s.columns[c].len() == s.fragment_size);
    }
    assert forall|c: int, i: int| 0 <= c < 51 && 0 <= i < s.rows_built() implies #[trigger]
        columns[c][i] == s.columns[c][i] by {
        assert(s.columns[c].len() == s.fragment_size);
    }
}

/// A trace that is built has the digest, the kernel and the output that it is built for. Its first
/// 51 columns are those of the core trace, the next two those of the range checker, the next twenty
/// those of the chiplets, and the last seven are zero, in all rows but the last, which is random. It
/// has as many rows of the program as the fragments have, without the row that shows HALT, and ends
/// the program in the last of them.
pub proof fn law_trace_built<E: SyncOps, C, O, S, RA, CA>(
    ops: E,
    stages: TraceStages<C, S, RA, CA>,
    context: TraceGenerationContext,
    kernel: Kernel,
    program_hash: Word,
    output: O,
    trace: ExecutionTrace<O, S, RA, CA>,
    c: int,
    i: int,
)
    requires
        stages.make(ops, context, kernel, program_hash, output, trace),
        stages.range_trace.0@.len() == 2,
        stages.chiplets_trace.0@.len() == 20,
        0 <= c < 80,
        0 <= i < stages.rows(ops, context),
    ensures
        ({
            let rows = stages.rows(ops, context);
            let fragments = core_trace_fragments(
                ops,
                context_models(context.core_trace_contexts@),
                context.fragment_size,
            );
            let columns = trace.main_trace.columns@;
            let draws = coin_draws(
                seq![program_hash.e0@, program_hash.e1@, program_hash.e2@, program_hash.e3@],
                80,
            );
            let len = total_rows(fragments) - 1;
            &&& trace.program_hash == program_hash
            &&& trace.kernel == kernel
            &&& trace.execution_output == output
            &&& columns.len() == 80
            &&& columns[c]@.len() == rows
            &&& columns[c]@[i] == if i == rows - 1 {
                felt(draws[c] as int)
            } else if c < 51 {
                combined(fragments, rows)[c][i]
            } else if c < 53 {
                stages.range_trace.0@[c - 51]@[i]
            } else if c < 73 {
                stages.chiplets_trace.0@[c - 53]@[i]
            } else {
                felt(0)
            }
            &&& trace.trace_len_summary.main_trace_len == len
            &&& trace.trace_len_summary.range_trace_len == stages.range_table_len
            &&& trace.trace_len_summary.chiplets_trace_len == stages.chiplets_lengths.0
            &&& 0 < len <= u32::MAX ==> trace.main_trace.last_program_row == len - 1
            &&& trace.aux_trace_builders.range == stages.range_trace.1
            &&& trace.aux_trace_builders.chiplets == stages.chiplets_trace.1
        }),
{
    let rows = stages.rows(ops, context);
    let fragments = fragments_of(ops, context);
    let values = column_values(trace.main_trace.columns@);
    law_columns_in_order(
        combined(fragments, rows),
        column_values(stages.range_trace.0@),
        column_values(stages.chiplets_trace.0@),
        rows,
        coin_draws(seed_of(program_hash), NUM_RAND_ROWS * PADDED_TRACE_WIDTH),
        c,
        i,
    );
    assert(values[c] == trace.main_trace.columns@[c]@);
    assert(seed_of(program_hash) =~= seq![
        program_hash.e0@,
        program_hash.e1@,
        program_hash.e2@,
        program_hash.e3@,
    ]);
}

/// The range checker checks what was recorded and what the accesses to memory need, and the chiplets
/// are asked for everything recorded. Both make columns for the rows of the main trace, of which the
/// last one is random; there are at least 64 rows, and no fewer than those of the program, of the
/// range checker and of the chiplets, each with the random one.
pub proof fn law_stages<E: SyncOps, C, S, RA, CA, K, M, N, L, R, T>(
    ops: E,
    stages: TraceStages<C, S, RA, CA>,
    tables: TraceTables<K, M, N, L, R, T>,
    context: TraceGenerationContext,
    kernel: Kernel,
) where
    C: ChipletsInterface,
    K: FnOnce(&Kernel) -> C,
    M: Fn(&C) -> Vec<(RowIndex, [u16; 2])>,
    N: Fn(&RangeChecker) -> usize,
    L: Fn(&C) -> (S, usize),
    R: FnOnce(RangeChecker, usize, usize, usize) -> (Vec<Vec<Felt>>, RA),
    T: FnOnce(C, usize, usize) -> (Vec<Vec<Felt>>, CA),

    requires
        stages.come_about(tables, ops, context, kernel),
        stages.rows(ops, context) <= usize::MAX,
    ensures
        ({
            let fragments = core_trace_fragments(
                ops,
                context_models(context.core_trace_contexts@),
                context.fragment_size,
            );
            let rows = stages.rows(ops, context) as usize;
            &&& stages.range_checker.u32_checks@ == context.range_checker_replay@
            &&& stages.range_checker.memory_checks@ == stages.memory_checks@
            &&& tables.chiplets.ensures((&kernel,), stages.fresh)
            &&& tables.memory_checks.ensures((&stages.chiplets,), stages.memory_checks)
            &&& tables.range_trace.ensures(
                (stages.range_checker, stages.range_table_len, rows, 1),
                stages.range_trace,
            )
            &&& tables.chiplets_trace.ensures((stages.chiplets, rows, 1), stages.chiplets_trace)
            &&& rows >= 64
            &&& rows >= total_rows(fragments)
            &&& rows > stages.range_table_len
            &&& rows > stages.chiplets_lengths.1
            &&& exists|k: nat| #[trigger] pow2(k) == rows
        }),
        exists|memory: Seq<MemoryAccess>| #[trigger]
            merges(
                recorded_accesses(
                    context_models(context.core_trace_contexts@),
                    context.memory_writes@,
                ),
                memory,
            ) && requested::<C>(
                stages.fresh.state(),
                all_requests(
                    context.hasher_for_chiplet@,
                    context.bitwise_replay@,
                    memory,
                    context.ace_replay@,
                    context.kernel_replay@,
                ),
            ) == Some(stages.chiplets.state()),
{
    law_main_trace_len(
        core_trace_len(ops, context),
        stages.range_table_len as int,
        stages.chiplets_lengths.1 as int,
    );
}

} // verus!
