# miden_trace

Generation of the execution trace of a virtual machine, in fragments and in parallel, verified with
Verus.

While a program runs, an `ExecutionTracer` records, at the beginning of every fragment, the state of
the machine, and after it everything that the machine reads from memory, from the advice provider,
from the hasher and from its overflow table. `build_trace` then generates all fragments at the same
time, each from its own recording, and joins them to one trace.

## Layout

- `src/felt.rs`, `src/quad_felt.rs`, `src/word.rs`, `src/layout.rs`, `src/utils.rs`, `src/pow2.rs`:
  elements of the field and of its quadratic extension, words, the columns of the trace.
- `src/mast.rs`, `src/continuation.rs`, `src/block_stack.rs`, `src/overflow.rs`, `src/ace.rs`,
  `src/context.rs`, `src/errors.rs`, `src/fast_processor.rs`: programs and the parts of the machine
  that the recording touches.
- `src/trace_state.rs`: the recordings, and how they are replayed.
- `src/tracer.rs`, `src/execution_tracer.rs`: the recording.
- `src/processor.rs`, `src/interfaces.rs`, `src/helpers.rs`, `src/u32_ops.rs`: operations on the
  stack, over any processor.
- `src/parallel/`: generation. `model.rs` and `execution.rs` say what the rows of a program are;
  `trace_builder.rs`, `executor.rs`, `resume.rs`, `generator.rs`, `circuit.rs` and `sync_ops.rs`
  produce them; `stitch.rs`, `combine.rs`, `chiplets.rs` and `main_trace.rs` put the trace together.
- `src/quad_laws.rs`, `src/stack_laws.rs`, `src/u32_laws.rs`, `src/lockstep.rs`,
  `src/recording_laws.rs` and `src/parallel/*_laws.rs`: what holds of all this. `lockstep.rs` relates
  the recording to the replay.

## Where the trace is cut

The trace does not depend on the size of its fragments. This is shown in steps.

- `recording_laws.rs`: two tracers with fragments of different sizes, told of the same run, record
  the same beginning and, over all fragments, the same answers; and each hands out as many contexts
  as the clock cycles of the run need.
- `prefix_laws.rs`, `resume_laws.rs`, `batch_laws.rs`, `replay_laws.rs` and `cut_laws.rs`: two
  fragments that follow each other have the rows of the one fragment that is not cut between them.
- `whole_laws.rs`: all fragments of a recording together have the rows of the run generated in one
  piece, and all but the last are full.
- `size_laws.rs` and `trace_laws.rs`: hence two recordings of the same run, in fragments of different
  sizes, have the same rows as far as both go. If both go on to the end of the run, they hold equally
  many rows, and `build_trace` may give the same traces for both.
- `clk_laws.rs`: the clock column counts the rows over all fragments.

The last three steps have a premise on the recording (`recorded_run` in `whole_laws.rs`): the
generation from each context, with the answers of those behind it, goes through without a panic, and
stands after the rows of one fragment where the next context begins. The machine that calls the
tracer is not a part of this library, so this is asked of its calls and not shown of them.

## Tests and conversions

- `tests/`: the library from outside, on concrete programs.
- `app/`: conversions from and to the types of `miden-core` and `miden-air`.

## Trust

The arithmetic of the field, the merging of memory accesses by clock cycle, the parallel iteration
and the random rows come from outside crates. The functions that call them are marked
`external_body`, or have an `assume_specification`; what is claimed of the outside functions stands
in their doc comments.
