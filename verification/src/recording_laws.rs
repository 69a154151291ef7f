//! What is recorded of a run does not depend on the size of the fragments: tracers that are told
//! the same events record the same answers, cut into fragments in different places.

use crate::execution_tracer::begins_fragment;
use crate::execution_tracer::cycle_begun;
use crate::execution_tracer::start_recorded;
use crate::execution_tracer::ExecutionTracer;
use crate::execution_tracer::ShimModel;
use crate::execution_tracer::TraceGenerationContext;
use crate::execution_tracer::TracerModel;
use crate::lockstep::traced;
use crate::mast::MastForest;
use crate::parallel::size_laws::same_run;
use crate::parallel::stitch::context_models;
use crate::parallel::whole_laws::context_from;
use crate::parallel::whole_laws::recorded_from;
use crate::trace_state::ContextModel;
use crate::trace_state::HasherResponseModel;
use crate::trace_state::NodeExecutionState;
use crate::trace_state::ReplayModel;
use crate::tracer::Tracer;
use crate::tracer::TracerEvent;
use std::sync::Arc;
use vstd::arithmetic::div_mod::lemma_fundamental_div_mod;
use vstd::arithmetic::div_mod::lemma_fundamental_div_mod_converse;
use vstd::arithmetic::div_mod::lemma_mod_bound;
use vstd::prelude::*;

verus! {

/// Whether a tracer accepts events, one after the other.
pub open spec fn accepts_events(m: TracerModel, events: Seq<TracerEvent>) -> bool
    decreases events.len(),
{
    if events.len() == 0 {
        true
    } else {
        &&& ExecutionTracer::allows(m, events[0])
        &&& accepts_events(ExecutionTracer::after(m, events[0]), events.drop_first())
    }
}

/// What has been recorded for the current fragment.
pub open spec fn current_recording(m: TracerModel) -> ReplayModel {
    ReplayModel { hasher: m.hasher.replay, ..m.replay }
}

/// Everything that has been recorded, for the fragments that have been completed and for the
/// current one.
pub open spec fn whole_recording(m: TracerModel) -> ReplayModel {
    recorded_from(m.fragment_contexts, 0).followed_by(current_recording(m))
}

/// The state in which the first fragment began, once one has begun, without recordings.
pub open spec fn first_begun(m: TracerModel) -> Option<ContextModel> {
    if m.fragment_contexts.len() > 0 {
        Some(ContextModel { replay: ReplayModel::empty(), ..m.fragment_contexts[0] })
    } else {
        match m.snapshot {
            Some(snapshot) => Some(
                ContextModel {
                    system: snapshot.system,
                    decoder: snapshot.decoder,
                    stack: snapshot.stack,
                    replay: ReplayModel::empty(),
                    continuation: snapshot.continuation,
                    initial_mast_forest: snapshot.initial_mast_forest,
                    initial_execution_state: snapshot.execution_state,
                },
            ),
            None => None,
        }
    }
}

/// Whether two tracers agree in everything but the fragments.
pub open spec fn same_but_fragments(a: TracerModel, b: TracerModel) -> bool {
    &&& a.overflow_table == b.overflow_table
    &&& a.block_stack == b.block_stack
    &&& a.hasher.addr == b.hasher.addr
    &&& a.range_checker == b.range_checker
    &&& a.memory_writes == b.memory_writes
    &&& a.bitwise == b.bitwise
    &&& a.kernel == b.kernel
    &&& a.hasher_for_chiplet == b.hasher_for_chiplet
    &&& a.ace == b.ace
}

/// Whether two tracers have recorded the same run, in fragments that may differ.
pub open spec fn same_recording(a: TracerModel, b: TracerModel) -> bool {
    &&& same_but_fragments(a, b)
    &&& whole_recording(a) == whole_recording(b)
    &&& first_begun(a) == first_begun(b)
}

/// The fragment that begins with an event, if one does, has begun.
spec fn fragment_begun_at(m: TracerModel, event: TracerEvent) -> TracerModel {
    match event {
        TracerEvent::StartClockCycle(processor, state, continuation, forest) => cycle_begun(
            m,
            processor,
            state,
            continuation,
            forest,
        ),
        _ => m,
    }
}

spec fn forest_of(forest: Arc<MastForest>) -> MastForest {
    *forest
}

/// An event is recorded, once the fragment that begins with it has begun.
spec fn recorded(m: TracerModel, event: TracerEvent) -> TracerModel {
    match event {
        TracerEvent::StartClockCycle(processor, state, _, forest) => match state {
            NodeExecutionState::Start(id) => start_recorded(
                m,
                forest_of(forest).node(id),
                processor,
                forest_of(forest),
            ),
            NodeExecutionState::Respan { .. } => m.respanned(),
            NodeExecutionState::End(_) => m.block_ended(),
            _ => m,
        },
        _ => ExecutionTracer::after(m, event),
    }
}

/// The tracer as if it had recorded nothing for the current fragment.
spec fn cleared(m: TracerModel) -> TracerModel {
    TracerModel {
        hasher: ShimModel { replay: HasherResponseModel::empty(), ..m.hasher },
        replay: ReplayModel::empty(),
        ..m
    }
}

/// Nothing that is recorded before or after changes nothing.
pub proof fn lemma_empty_followed(r: ReplayModel)
    ensures
        r.followed_by(ReplayModel::empty()) == r,
        ReplayModel::empty().followed_by(r) == r,
{
    assert(r.followed_by(ReplayModel::empty()) =~= r);
    assert(ReplayModel::empty().followed_by(r) =~= r);
}

proof fn lemma_followed_in_sequence(a: ReplayModel, b: ReplayModel, c: ReplayModel)
    ensures
        a.followed_by(b).followed_by(c) == a.followed_by(b.followed_by(c)),
{
    assert(a.followed_by(b).followed_by(c) =~= a.followed_by(b.followed_by(c)));
}

/// One more context comes behind the others.
pub proof fn lemma_recorded_from_pushed(contexts: Seq<ContextModel>, context: ContextModel, k: int)
    requires
        0 <= k <= contexts.len(),
    ensures
        recorded_from(contexts.push(context), k) == recorded_from(contexts, k).followed_by(
            context.replay,
        ),
    decreases contexts.len() - k,
{
    let more = contexts.push(context);
    if k < contexts.len() {
        lemma_recorded_from_pushed(contexts, context, k + 1);
        lemma_followed_in_sequence(
            contexts[k].replay,
            recorded_from(contexts, k + 1),
            context.replay,
        );
    } else {
        assert(recorded_from(more, k + 1) == ReplayModel::empty());
        lemma_empty_followed(context.replay);
    }
}

/// Completing a fragment keeps what has been recorded.
proof fn lemma_finished(m: TracerModel)
    ensures
        whole_recording(m.finished()) == whole_recording(m),
        same_but_fragments(m.finished(), m),
        m.snapshot is Some ==> m.finished().fragment_contexts.len() > 0,
        m.snapshot is Some ==> first_begun(m.finished()) == first_begun(m),
        m.snapshot is Some ==> current_recording(m.finished()) == ReplayModel::empty(),
{
    if m.snapshot is Some {
        let f = m.finished();
        let context = f.fragment_contexts.last();
        assert(context.replay == current_recording(m));
        assert(f.fragment_contexts == m.fragment_contexts.push(context));
        lemma_recorded_from_pushed(m.fragment_contexts, context, 0);
        assert(current_recording(f) =~= ReplayModel::empty());
        lemma_empty_followed(whole_recording(m));
        lemma_empty_followed(recorded_from(f.fragment_contexts, 0));
        if m.fragment_contexts.len() > 0 {
            assert(f.fragment_contexts[0] == m.fragment_contexts[0]);
        }
    }
}

/// Beginning a fragment keeps what has been recorded, and the state in which the first one began.
proof fn lemma_begun(m: TracerModel, event: TracerEvent)
    ensures
        whole_recording(fragment_begun_at(m, event)) == whole_recording(m),
        same_but_fragments(fragment_begun_at(m, event), m),
        m.snapshot is Some ==> fragment_begun_at(m, event).snapshot is Some,
        m.snapshot is Some ==> first_begun(fragment_begun_at(m, event)) == first_begun(m),
{
    lemma_finished(m);
}

/// An event is recorded behind what has been recorded for the current fragment.
proof fn lemma_recorded_behind(m: TracerModel, event: TracerEvent)
    ensures
        current_recording(recorded(m, event)) == current_recording(m).followed_by(
            current_recording(recorded(cleared(m), event)),
        ),
        recorded(m, event).fragment_contexts == m.fragment_contexts,
        recorded(m, event).snapshot == m.snapshot,
{
    let next = current_recording(recorded(m, event));
    let added = current_recording(recorded(cleared(m), event));
    assert(next =~= current_recording(m).followed_by(added));
}

/// What is recorded of an event does not depend on the fragments.
proof fn lemma_same_recorded(a: TracerModel, b: TracerModel, event: TracerEvent)
    requires
        same_but_fragments(a, b),
    ensures
        same_but_fragments(recorded(a, event), recorded(b, event)),
        current_recording(recorded(cleared(a), event)) == current_recording(
            recorded(cleared(b), event),
        ),
        ExecutionTracer::allows(a, event) == ExecutionTracer::allows(b, event),
{
    assert(current_recording(recorded(cleared(a), event)) =~= current_recording(
        recorded(cleared(b), event),
    ));
}

/// Tracers that have recorded the same run have done so after one more event.
proof fn lemma_same_after(a: TracerModel, b: TracerModel, event: TracerEvent)
    requires
        same_recording(a, b),
        a.snapshot is Some,
        b.snapshot is Some,
    ensures
        same_recording(ExecutionTracer::after(a, event), ExecutionTracer::after(b, event)),
        ExecutionTracer::after(a, event).snapshot is Some,
        ExecutionTracer::after(b, event).snapshot is Some,
        ExecutionTracer::allows(a, event) == ExecutionTracer::allows(b, event),
{
    let (x, y) = (fragment_begun_at(a, event), fragment_begun_at(b, event));
    lemma_begun(a, event);
    lemma_begun(b, event);
    lemma_same_recorded(a, b, event);
    lemma_recorded_together(x, y, event);
    assert(ExecutionTracer::after(a, event) == recorded(x, event));
    assert(ExecutionTracer::after(b, event) == recorded(y, event));
}

proof fn lemma_recorded_together(x: TracerModel, y: TracerModel, event: TracerEvent)
    requires
        same_recording(x, y),
    ensures
        same_recording(recorded(x, event), recorded(y, event)),
        recorded(x, event).snapshot == x.snapshot,
        recorded(y, event).snapshot == y.snapshot,
{
    lemma_recorded_behind(x, event);
    lemma_recorded_behind(y, event);
    lemma_same_recorded(x, y, event);
    let added = current_recording(recorded(cleared(x), event));
    lemma_followed_in_sequence(
        recorded_from(x.fragment_contexts, 0),
        current_recording(x),
        added,
    );
    lemma_followed_in_sequence(
        recorded_from(y.fragment_contexts, 0),
        current_recording(y),
        added,
    );
}

proof fn lemma_same_traced(a: TracerModel, b: TracerModel, events: Seq<TracerEvent>)
    requires
        same_recording(a, b),
        a.snapshot is Some,
        b.snapshot is Some,
    ensures
        same_recording(traced(a, events), traced(b, events)),
        traced(a, events).snapshot is Some,
        traced(b, events).snapshot is Some,
        accepts_events(a, events) == accepts_events(b, events),
    decreases events.len(),
{
    if events.len() > 0 {
        lemma_same_after(a, b, events[0]);
        lemma_same_traced(
            ExecutionTracer::after(a, events[0]),
            ExecutionTracer::after(b, events[0]),
            events.drop_first(),
        );
    }
}

/// Whether events are those of a run: the first one starts the clock cycle 0.
pub open spec fn begins_run(events: Seq<TracerEvent>) -> bool {
    &&& events.len() > 0
    &&& events[0] matches TracerEvent::StartClockCycle(processor, _, _, _) && processor.clk == 0
}

/// Tracers for fragments of different sizes that are told the events of the same run record the
/// same run: the same requests to the range checker and to the chiplets, and contexts that begin
/// in the same state and hold the same answers, in the same order. If one accepts the events, so
/// does the other.
pub proof fn law_recording_does_not_depend_on_fragment_size(
    events: Seq<TracerEvent>,
    size_a: usize,
    size_b: usize,
)
    requires
        begins_run(events),
    ensures
        accepts_events(TracerModel::fresh(size_a), events) == accepts_events(
            TracerModel::fresh(size_b),
            events,
        ),
        ({
            let a = traced(TracerModel::fresh(size_a), events).finished();
            let b = traced(TracerModel::fresh(size_b), events).finished();
            &&& same_but_fragments(a, b)
            &&& a.fragment_contexts.len() > 0
            &&& b.fragment_contexts.len() > 0
            &&& same_run(a.fragment_contexts, b.fragment_contexts)
            &&& recorded_from(a.fragment_contexts, 0) == recorded_from(b.fragment_contexts, 0)
        }),
{
    let (f, g) = (TracerModel::fresh(size_a), TracerModel::fresh(size_b));
    let event = events[0];
    let (x, y) = (fragment_begun_at(f, event), fragment_begun_at(g, event));
    assert(begins_fragment(0, size_a as int) && begins_fragment(0, size_b as int)) by {
        if size_a > 0 {
            assert(0int % size_a as int == 0) by (nonlinear_arith)
                requires
                    size_a > 0,
            ;
        }
        if size_b > 0 {
            assert(0int % size_b as int == 0) by (nonlinear_arith)
                requires
                    size_b > 0,
            ;
        }
    }
    lemma_same_recorded(f, g, event);
    assert(same_recording(x, y));
    lemma_recorded_together(x, y, event);
    let (a1, b1) = (ExecutionTracer::after(f, event), ExecutionTracer::after(g, event));
    assert(a1 == recorded(x, event));
    assert(b1 == recorded(y, event));
    lemma_same_traced(a1, b1, events.drop_first());
    let (a, b) = (traced(f, events), traced(g, events));
    lemma_finished(a);
    lemma_finished(b);
    let (p, q) = (a.finished().fragment_contexts, b.finished().fragment_contexts);
    lemma_empty_followed(recorded_from(p, 0));
    lemma_empty_followed(recorded_from(q, 0));
    assert(context_from(p, 0) == ContextModel { replay: recorded_from(p, 0), ..p[0] });
    assert(context_from(q, 0) == ContextModel { replay: recorded_from(q, 0), ..q[0] });
    let nothing = ReplayModel::empty();
    let (first, second) = (p[0], q[0]);
    assert((ContextModel { replay: nothing, ..first }) == (ContextModel {
        replay: nothing,
        ..second
    }));
}

/// Whether a context for the generation of a trace is what a tracer hands out.
pub open spec fn handed_out(m: TracerModel, context: TraceGenerationContext) -> bool {
    let finished = m.finished();
    &&& context_models(context.core_trace_contexts@) == finished.fragment_contexts
    &&& context.range_checker_replay@ == finished.range_checker
    &&& context.memory_writes@ == finished.memory_writes
    &&& context.bitwise_replay@ == finished.bitwise
    &&& context.kernel_replay@ == finished.kernel
    &&& context.hasher_for_chiplet@ == finished.hasher_for_chiplet
    &&& context.ace_replay@ == finished.ace
    &&& context.fragment_size == finished.fragment_size
}

/// The number of clock cycles that start.
pub open spec fn cycles_started(events: Seq<TracerEvent>) -> int
    decreases events.len(),
{
    if events.len() == 0 {
        0
    } else {
        cycles_started(events.drop_last()) + if events.last() is StartClockCycle {
            1int
        } else {
            0int
        }
    }
}

/// Whether the clock cycles that start are counted from zero on.
pub open spec fn cycles_counted(events: Seq<TracerEvent>) -> bool {
    forall|i: int|
        0 <= i < events.len() ==> (#[trigger] events[i] matches TracerEvent::StartClockCycle(
            processor,
            _,
            _,
            _,
        ) ==> processor.clk == cycles_started(events.take(i)))
}

/// The number of fragments into which a number of clock cycles is cut.
pub open spec fn fragments_for(cycles: int, fragment_size: int) -> int {
    (cycles + fragment_size - 1) / fragment_size
}

proof fn lemma_traced_step(m: TracerModel, events: Seq<TracerEvent>)
    requires
        events.len() > 0,
    ensures
        traced(m, events) == ExecutionTracer::after(
            traced(m, events.drop_last()),
            events.last(),
        ),
    decreases events.len(),
{
    if events.len() > 1 {
        let rest = events.drop_first();
        lemma_traced_step(ExecutionTracer::after(m, events[0]), rest);
        assert(rest.drop_last() =~= events.drop_last().drop_first());
    } else {
        assert(events.drop_last().len() == 0);
        assert(events.drop_first().len() == 0);
        reveal_with_fuel(traced, 2);
    }
}

/// One more cycle makes one more fragment if the cycles before it fill theirs, and none if not.
proof fn lemma_one_more_cycle(n: int, size: int)
    requires
        0 <= n,
        0 < size,
    ensures
        n % size == 0 ==> {
            &&& fragments_for(n + 1, size) == fragments_for(n, size) + 1
            &&& fragments_for(n, size) * size == n
        },
        n % size != 0 ==> fragments_for(n + 1, size) == fragments_for(n, size),
{
    let (q, r) = (n / size, n % size);
    lemma_fundamental_div_mod(n, size);
    lemma_mod_bound(n, size);
    assert(size * q == q * size) by (nonlinear_arith);
    assert((q + 1) * size == q * size + size) by (nonlinear_arith);
    lemma_fundamental_div_mod_converse(n + size, size, q + 1, r);
    if r == 0 {
        lemma_fundamental_div_mod_converse(n + size - 1, size, q, size - 1);
    } else {
        lemma_fundamental_div_mod_converse(n + size - 1, size, q + 1, r - 1);
    }
}

/// A run of a number of clock cycles is handed out in as many contexts as it has fragments, of
/// which only the last may have fewer cycles than a fragment; and each context begins in the clock
/// cycle that follows the fragments before it.
pub proof fn law_contexts_of_run(events: Seq<TracerEvent>, fragment_size: usize)
    requires
        0 < fragment_size,
        cycles_counted(events),
    ensures
        ({
            let contexts = traced(TracerModel::fresh(fragment_size), events).finished()
                .fragment_contexts;
            &&& contexts.len() == fragments_for(cycles_started(events), fragment_size as int)
            &&& forall|i: int|
                0 <= i < contexts.len() ==> (#[trigger] contexts[i]).system.clk == i
                    * fragment_size
        }),
        traced(TracerModel::fresh(fragment_size), events).fragment_size == fragment_size,
        0 <= cycles_started(events),
    decreases events.len(),
{
    let size = fragment_size as int;
    let fresh = TracerModel::fresh(fragment_size);
    if events.len() == 0 {
        lemma_fundamental_div_mod_converse(size - 1, size, 0, size - 1);
    } else {
        let before = events.drop_last();
        assert(cycles_counted(before)) by {
            assert forall|i: int| 0 <= i < before.len() implies (#[trigger] before[i] matches
                TracerEvent::StartClockCycle(processor, _, _, _) ==> processor.clk
                == cycles_started(before.take(i))) by {
                assert(before[i] == events[i]);
                assert(before.take(i) =~= events.take(i));
            }
        }
        law_contexts_of_run(before, fragment_size);
        lemma_traced_step(fresh, events);
        let n = cycles_started(before);
        lemma_one_more_cycle(n, size);
        let m = traced(fresh, before);
        let after = ExecutionTracer::after(m, events.last());
        let (p, q) = (m.finished().fragment_contexts, after.finished().fragment_contexts);
        assert(events[events.len() - 1] == events.last());
        assert(events.take(events.len() - 1) =~= before);
        if events.last() is StartClockCycle && n % size == 0 {
            assert(after.fragment_contexts == p);
            assert forall|i: int| 0 <= i < q.len() implies (#[trigger] q[i]).system.clk == i
                * fragment_size by {
                if i < p.len() {
                    assert(q[i] == p[i]);
                }
            }
        } else {
            assert(after.fragment_contexts == m.fragment_contexts);
            assert(after.snapshot == m.snapshot);
            assert forall|i: int| 0 <= i < q.len() implies (#[trigger] q[i]).system.clk == i
                * fragment_size by {
                assert(q[i].system == p[i].system);
            }
        }
    }
}

} // verus!
