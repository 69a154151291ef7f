//! The trace that is built of a run does not depend on the size of the fragments in which the run
//! was recorded.

use crate::context::RowIndex;
use crate::execution_tracer::TraceGenerationContext;
use crate::execution_tracer::TracerModel;
use crate::felt::Felt;
use crate::lockstep::traced;
use crate::parallel::chiplets::ChipletsInterface;
use crate::parallel::chiplets::RangeChecker;
use crate::parallel::chiplets::elements_read;
use crate::parallel::chiplets::fragment_elements_read;
use crate::parallel::chiplets::fragment_words_read;
use crate::parallel::chiplets::recorded_accesses;
use crate::parallel::chiplets::words_read;
use crate::parallel::combine::combined;
use crate::parallel::combine::total_rows;
use crate::parallel::execution::SyncOps;
use crate::parallel::fragment::column_values;
use crate::parallel::main_trace::ExecutionTrace;
use crate::parallel::main_trace::Kernel;
use crate::parallel::main_trace::TraceStages;
use crate::parallel::main_trace::TraceTables;
use crate::parallel::main_trace::core_trace_len;
use crate::parallel::main_trace::fragments_of;
use crate::parallel::model::GeneratorModel;
use crate::parallel::size_laws::law_core_trace_does_not_depend_on_fragment_size;
use crate::parallel::size_laws::law_recordings_to_the_end_hold_equally_many_rows;
use crate::parallel::size_laws::recorded_to_end;
use crate::parallel::stitch::context_models;
use crate::parallel::whole_laws::fixed_fragments;
use crate::parallel::whole_laws::recorded_from;
use crate::parallel::whole_laws::recorded_run;
use crate::recording_laws::begins_run;
use crate::recording_laws::handed_out;
use crate::recording_laws::law_recording_does_not_depend_on_fragment_size;
use crate::recording_laws::lemma_recorded_from_pushed;
use crate::trace_state::ContextModel;
use crate::trace_state::MemoryModel;
use crate::tracer::TracerEvent;
use crate::word::Word;
use vstd::prelude::*;

verus! {

/// The reads of memory are those of all contexts, in order.
proof fn lemma_reads_of_run(contexts: Seq<ContextModel>)
    ensures
        elements_read(contexts) == fragment_elements_read(
            recorded_from(contexts, 0).memory_reads,
        ),
        words_read(contexts) == fragment_words_read(recorded_from(contexts, 0).memory_reads),
    decreases contexts.len(),
{
    if contexts.len() > 0 {
        let before = contexts.drop_last();
        let last = contexts.last();
        lemma_reads_of_run(before);
        assert(before.push(last) =~= contexts);
        lemma_recorded_from_pushed(before, last, 0);
        lemma_reads_followed(recorded_from(before, 0).memory_reads, last.replay.memory_reads);
    } else {
        assert(elements_read(contexts) =~= fragment_elements_read(MemoryModel::empty()));
        assert(words_read(contexts) =~= fragment_words_read(MemoryModel::empty()));
    }
}

proof fn lemma_reads_followed(first: MemoryModel, later: MemoryModel)
    ensures
        fragment_elements_read(first.followed_by(later)) == fragment_elements_read(first)
            + fragment_elements_read(later),
        fragment_words_read(first.followed_by(later)) == fragment_words_read(first)
            + fragment_words_read(later),
{
    assert(fragment_elements_read(first.followed_by(later)) =~= fragment_elements_read(first)
        + fragment_elements_read(later));
    assert(fragment_words_read(first.followed_by(later)) =~= fragment_words_read(first)
        + fragment_words_read(later));
}

/// Whether a context for the generation of a trace was recorded of the given events, in fragments
/// that were recorded one after the other.
pub open spec fn records<E: SyncOps>(
    ops: E,
    events: Seq<TracerEvent>,
    context: TraceGenerationContext,
    states: Seq<GeneratorModel>,
) -> bool {
    &&& handed_out(traced(TracerModel::fresh(context.fragment_size), events), context)
    &&& recorded_run(
        ops,
        context_models(context.core_trace_contexts@),
        context.fragment_size,
        states,
    )
}

/// The number of rows that the fragments of a recording hold.
pub open spec fn rows_recorded<E: SyncOps>(ops: E, context: TraceGenerationContext) -> int {
    total_rows(
        fixed_fragments(
            ops,
            context_models(context.core_trace_contexts@),
            context.fragment_size,
        ),
    )
}

/// Whether building a trace may go through the given stages and end with the given trace, which is
/// all that is known of a trace that was built.
pub open spec fn may_build<E, C, O, S, RA, CA, K, M, N, L, R, T>(
    ops: E,
    context: TraceGenerationContext,
    tables: TraceTables<K, M, N, L, R, T>,
    kernel: Kernel,
    program_hash: Word,
    execution_output: O,
    stages: TraceStages<C, S, RA, CA>,
    trace: ExecutionTrace<O, S, RA, CA>,
) -> bool where
    E: SyncOps,
    C: ChipletsInterface,
    K: FnOnce(&Kernel) -> C,
    M: Fn(&C) -> Vec<(RowIndex, [u16; 2])>,
    N: Fn(&RangeChecker) -> usize,
    L: Fn(&C) -> (S, usize),
    R: FnOnce(RangeChecker, usize, usize, usize) -> (Vec<Vec<Felt>>, RA),
    T: FnOnce(C, usize, usize) -> (Vec<Vec<Felt>>, CA),
 {
    &&& stages.come_about(tables, ops, context, kernel)
    &&& stages.make(ops, context, kernel, program_hash, execution_output, trace)
}

/// Recordings of a run to its end hold equally many rows, whatever the sizes of their fragments.
pub proof fn law_rows_recorded_do_not_depend_on_fragment_size<E: SyncOps>(
    ops: E,
    events: Seq<TracerEvent>,
    a: TraceGenerationContext,
    states_a: Seq<GeneratorModel>,
    b: TraceGenerationContext,
    states_b: Seq<GeneratorModel>,
)
    requires
        begins_run(events),
        records(ops, events, a, states_a),
        records(ops, events, b, states_b),
        recorded_to_end(ops, context_models(a.core_trace_contexts@), a.fragment_size),
        recorded_to_end(ops, context_models(b.core_trace_contexts@), b.fragment_size),
    ensures
        rows_recorded(ops, a) == rows_recorded(ops, b),
{
    law_recording_does_not_depend_on_fragment_size(events, a.fragment_size, b.fragment_size);
    law_recordings_to_the_end_hold_equally_many_rows(
        ops,
        context_models(a.core_trace_contexts@),
        a.fragment_size,
        states_a,
        context_models(b.core_trace_contexts@),
        b.fragment_size,
        states_b,
    );
}

/// What is built of a run does not depend on the size of the fragments in which the run was
/// recorded, if the recordings hold equally many rows: building the trace asks the same of the
/// chiplets and of the range checker, goes through the same stages, and may end with the same
/// traces.
pub proof fn law_trace_does_not_depend_on_fragment_size<E, C, O, S, RA, CA, K, M, N, L, R, T>(
    ops: E,
    events: Seq<TracerEvent>,
    a: TraceGenerationContext,
    states_a: Seq<GeneratorModel>,
    b: TraceGenerationContext,
    states_b: Seq<GeneratorModel>,
    tables: TraceTables<K, M, N, L, R, T>,
    kernel: Kernel,
    program_hash: Word,
    execution_output: O,
) where
    E: SyncOps,
    C: ChipletsInterface,
    K: FnOnce(&Kernel) -> C,
    M: Fn(&C) -> Vec<(RowIndex, [u16; 2])>,
    N: Fn(&RangeChecker) -> usize,
    L: Fn(&C) -> (S, usize),
    R: FnOnce(RangeChecker, usize, usize, usize) -> (Vec<Vec<Felt>>, RA),
    T: FnOnce(C, usize, usize) -> (Vec<Vec<Felt>>, CA),

    requires
        begins_run(events),
        records(ops, events, a, states_a),
        records(ops, events, b, states_b),
        rows_recorded(ops, a) == rows_recorded(ops, b),
    ensures
        recorded_accesses(context_models(a.core_trace_contexts@), a.memory_writes@)
            == recorded_accesses(context_models(b.core_trace_contexts@), b.memory_writes@),
        forall|stages: TraceStages<C, S, RA, CA>, trace: ExecutionTrace<O, S, RA, CA>|
            #![trigger stages.make(ops, a, kernel, program_hash, execution_output, trace)]
            #![trigger stages.make(ops, b, kernel, program_hash, execution_output, trace)]
            may_build(
                ops,
                a,
                tables,
                kernel,
                program_hash,
                execution_output,
                stages,
                trace,
            ) == may_build(
                ops,
                b,
                tables,
                kernel,
                program_hash,
                execution_output,
                stages,
                trace,
            ),
{
    lemma_same_inputs(ops, events, a, states_a, b, states_b);
}

/// What building a trace reads of a recording does not depend on the size of the fragments.
proof fn lemma_same_inputs<E: SyncOps>(
    ops: E,
    events: Seq<TracerEvent>,
    a: TraceGenerationContext,
    states_a: Seq<GeneratorModel>,
    b: TraceGenerationContext,
    states_b: Seq<GeneratorModel>,
)
    requires
        begins_run(events),
        records(ops, events, a, states_a),
        records(ops, events, b, states_b),
        rows_recorded(ops, a) == rows_recorded(ops, b),
    ensures
        recorded_accesses(context_models(a.core_trace_contexts@), a.memory_writes@)
            == recorded_accesses(context_models(b.core_trace_contexts@), b.memory_writes@),
        a.range_checker_replay@ == b.range_checker_replay@,
        a.hasher_for_chiplet@ == b.hasher_for_chiplet@,
        a.bitwise_replay@ == b.bitwise_replay@,
        a.ace_replay@ == b.ace_replay@,
        a.kernel_replay@ == b.kernel_replay@,
        core_trace_len(ops, a) == core_trace_len(ops, b),
        forall|rows: int| #[trigger]
            combined(fragments_of(ops, a), rows) == combined(fragments_of(ops, b), rows),
{
    let (p, q) = (context_models(a.core_trace_contexts@), context_models(b.core_trace_contexts@));
    law_recording_does_not_depend_on_fragment_size(events, a.fragment_size, b.fragment_size);
    law_core_trace_does_not_depend_on_fragment_size(
        ops,
        p,
        a.fragment_size,
        states_a,
        q,
        b.fragment_size,
        states_b,
    );
    lemma_reads_of_run(p);
    lemma_reads_of_run(q);
}

/// Traces that are built of two recordings of the same run, which hold equally many rows, are the
/// same, cell by cell, if the chiplets and the range checker gave the same columns; and so are the
/// numbers of rows of their parts.
pub proof fn law_main_trace_does_not_depend_on_fragment_size<E: SyncOps, C, O, S, RA, CA>(
    ops: E,
    events: Seq<TracerEvent>,
    a: TraceGenerationContext,
    states_a: Seq<GeneratorModel>,
    stages_a: TraceStages<C, S, RA, CA>,
    trace_a: ExecutionTrace<O, S, RA, CA>,
    b: TraceGenerationContext,
    states_b: Seq<GeneratorModel>,
    stages_b: TraceStages<C, S, RA, CA>,
    trace_b: ExecutionTrace<O, S, RA, CA>,
    kernel: Kernel,
    program_hash: Word,
    output_a: O,
    output_b: O,
)
    requires
        begins_run(events),
        records(ops, events, a, states_a),
        records(ops, events, b, states_b),
        rows_recorded(ops, a) == rows_recorded(ops, b),
        stages_a.make(ops, a, kernel, program_hash, output_a, trace_a),
        stages_b.make(ops, b, kernel, program_hash, output_b, trace_b),
        stages_a.range_table_len == stages_b.range_table_len,
        stages_a.chiplets_lengths == stages_b.chiplets_lengths,
        column_values(stages_a.range_trace.0@) == column_values(stages_b.range_trace.0@),
        column_values(stages_a.chiplets_trace.0@) == column_values(stages_b.chiplets_trace.0@),
    ensures
        column_values(trace_a.main_trace.columns@) == column_values(trace_b.main_trace.columns@),
        trace_a.main_trace.last_program_row == trace_b.main_trace.last_program_row,
        trace_a.trace_len_summary == trace_b.trace_len_summary,
{
    lemma_same_inputs(ops, events, a, states_a, b, states_b);
}

} // verus!
