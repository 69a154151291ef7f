//! Evaluation of arithmetic circuits by the generator of a fragment.

use crate::ace::CircuitEvaluation;
use crate::ace::CircuitModel;
use crate::context::ContextId;
use crate::context::RowIndex;
use crate::errors::AceError;
use crate::errors::ExecutionError;
use crate::felt::felt;
use crate::felt::lemma_felt_small;
use crate::felt::Felt;
use crate::interfaces::MemoryInterface;
use crate::layout::MAX_NUM_ACE_WIRES;
use crate::layout::PTR_OFFSET_ELEM;
use crate::layout::PTR_OFFSET_WORD;
use crate::parallel::generator::CoreTraceFragmentGenerator;
use crate::parallel::model::GeneratorModel;
use crate::processor::Processor;
use crate::processor::StackInterface;
use crate::processor::SystemInterface;
use crate::quad_felt::QuadFelt;
use crate::trace_state::MemoryModel;
use crate::trace_state::ReplayModel;
use crate::tracer::Tracer;
use crate::tracer::TracerEvent;
use vstd::prelude::*;

verus! {

/// How far an evaluation has come.
pub enum EvalFlow<T> {
    /// What is left of the recorded reads, the state of the tracer, the evaluation so far, and the
    /// address of what is read next.
    Going(MemoryModel, T, CircuitModel, Felt),
    /// What is left of the recorded reads and the state of the tracer when the evaluation fails,
    /// and why it fails.
    Failed(MemoryModel, T, AceError),
    /// The recorded reads do not fit, the tracer does not accept what it is told, or the arithmetic
    /// of the field overflows.
    Panics,
}

/// Variables are read from memory, two from each word.
pub open spec fn variables_read<T: Tracer>(
    memory: MemoryModel,
    t: T::State,
    circuit: CircuitModel,
    ptr: Felt,
    n: int,
) -> EvalFlow<T::State>
    decreases n,
{
    if n <= 0 {
        EvalFlow::Going(memory, t, circuit, ptr)
    } else {
        match variables_read::<T>(memory, t, circuit, ptr, n - 1) {
            EvalFlow::Going(m1, t1, c1, p1) => {
                let word = m1.words[0].0;
                let event = TracerEvent::MemoryReadWord(word, p1, circuit.ctx, circuit.clk);
                if m1.next_word_at(p1) && T::allows(t1, event) {
                    EvalFlow::Going(
                        m1.word_taken(),
                        T::after(t1, event),
                        c1.read(p1, word),
                        felt(p1@ + PTR_OFFSET_WORD),
                    )
                } else {
                    EvalFlow::Panics
                }
            },
            f => f,
        }
    }
}

/// Instructions are read from memory, one from each element, and evaluated.
pub open spec fn instructions_evaluated<T: Tracer>(
    memory: MemoryModel,
    t: T::State,
    circuit: CircuitModel,
    ptr: Felt,
    n: int,
) -> EvalFlow<T::State>
    decreases n,
{
    if n <= 0 {
        EvalFlow::Going(memory, t, circuit, ptr)
    } else {
        match instructions_evaluated::<T>(memory, t, circuit, ptr, n - 1) {
            EvalFlow::Going(m1, t1, c1, p1) => {
                let instruction = m1.elements[0].0;
                let event = TracerEvent::MemoryReadElement(
                    instruction,
                    p1,
                    circuit.ctx,
                    circuit.clk,
                );
                if m1.next_element_at(p1) && T::allows(t1, event) && c1.can_eval(instruction) {
                    match c1.eval(p1, instruction) {
                        Ok(c2) => EvalFlow::Going(
                            m1.element_taken(),
                            T::after(t1, event),
                            c2,
                            felt(p1@ + PTR_OFFSET_ELEM),
                        ),
                        Err(e) => EvalFlow::Failed(m1.element_taken(), T::after(t1, event), e),
                    }
                } else {
                    EvalFlow::Panics
                }
            },
            f => f,
        }
    }
}

/// A circuit is evaluated: its variables are read, its instructions are evaluated, and its last
/// wire must come out as zero.
pub open spec fn circuit_evaluated<T: Tracer>(
    memory: MemoryModel,
    t: T::State,
    ctx: ContextId,
    clk: RowIndex,
    ptr: Felt,
    num_vars: int,
    num_eval: int,
) -> EvalFlow<T::State> {
    if num_vars + num_eval > u64::MAX {
        EvalFlow::Panics
    } else if num_vars + num_eval > MAX_NUM_ACE_WIRES {
        EvalFlow::Failed(memory, t, AceError::TooManyWires((num_vars + num_eval) as u64))
    } else if num_vars % 2 != 0 || num_vars == 0 {
        EvalFlow::Failed(memory, t, AceError::NumVarIsNotWordAlignedOrIsEmpty(num_vars as u64))
    } else if num_eval % 4 != 0 || num_eval == 0 {
        EvalFlow::Failed(memory, t, AceError::NumEvalIsNotWordAlignedOrIsEmpty(num_eval as u64))
    } else {
        let fresh = CircuitModel::fresh(ctx, clk, (num_vars / 2) as u32, num_eval as u32);
        match variables_read::<T>(memory, t, fresh, ptr, num_vars / 2) {
            EvalFlow::Going(m1, t1, c1, p1) => match instructions_evaluated::<T>(
                m1,
                t1,
                c1,
                p1,
                num_eval,
            ) {
                EvalFlow::Going(m2, t2, c2, p2) => if c2.output() == Some(
                    QuadFelt { inner0: 0, inner1: 0 },
                ) {
                    EvalFlow::Going(m2, t2, c2, p2)
                } else {
                    EvalFlow::Failed(m2, t2, AceError::CircuitNotEvaluateZero)
                },
                f => f,
            },
            f => f,
        }
    }
}

/// Reading variables keeps the context and the clock cycle of an evaluation.
proof fn lemma_variables_keep<T: Tracer>(
    memory: MemoryModel,
    t: T::State,
    circuit: CircuitModel,
    ptr: Felt,
    n: int,
)
    ensures
        variables_read::<T>(memory, t, circuit, ptr, n) matches EvalFlow::Going(_, _, c, _) ==> {
            &&& c.ctx == circuit.ctx
            &&& c.clk == circuit.clk
        },
        variables_read::<T>(memory, t, circuit, ptr, n) !is Failed,
    decreases n,
{
    if n > 0 {
        lemma_variables_keep::<T>(memory, t, circuit, ptr, n - 1);
    }
}

/// An evaluation that panics or fails early does so however many steps are to follow.
proof fn lemma_variables_prefix<T: Tracer>(
    memory: MemoryModel,
    t: T::State,
    circuit: CircuitModel,
    ptr: Felt,
    k: int,
    n: int,
)
    requires
        k <= n,
        variables_read::<T>(memory, t, circuit, ptr, n) is Going,
    ensures
        variables_read::<T>(memory, t, circuit, ptr, k) is Going,
    decreases n - k,
{
    if k < n {
        if n > 0 {
            lemma_variables_prefix::<T>(memory, t, circuit, ptr, k, n - 1);
        }
    }
}

/// An evaluation that panics or fails early does so however many steps are to follow.
proof fn lemma_instructions_prefix<T: Tracer>(
    memory: MemoryModel,
    t: T::State,
    circuit: CircuitModel,
    ptr: Felt,
    k: int,
    n: int,
)
    requires
        k <= n,
    ensures
        instructions_evaluated::<T>(memory, t, circuit, ptr, k) !is Going
            ==> instructions_evaluated::<T>(memory, t, circuit, ptr, n)
            == instructions_evaluated::<T>(memory, t, circuit, ptr, k),
    decreases n - k,
{
    if k < n {
        if n > 0 {
            lemma_instructions_prefix::<T>(memory, t, circuit, ptr, k, n - 1);
        }
    }
}

/// What an evaluation leads to, with later reads behind those that are left.
pub open spec fn eval_with_later<T>(f: EvalFlow<T>, later: MemoryModel) -> EvalFlow<T> {
    match f {
        EvalFlow::Going(m, t, c, p) => EvalFlow::Going(m.followed_by(later), t, c, p),
        EvalFlow::Failed(m, t, e) => EvalFlow::Failed(m.followed_by(later), t, e),
        EvalFlow::Panics => EvalFlow::Panics,
    }
}

/// Which variables are read depends only on the reads that are used.
proof fn lemma_variables_later<T: Tracer>(
    memory: MemoryModel,
    t: T::State,
    circuit: CircuitModel,
    ptr: Felt,
    n: int,
    later: MemoryModel,
)
    ensures
        variables_read::<T>(memory, t, circuit, ptr, n) !is Panics ==> variables_read::<T>(
            memory.followed_by(later),
            t,
            circuit,
            ptr,
            n,
        ) == eval_with_later(variables_read::<T>(memory, t, circuit, ptr, n), later),
    decreases n,
{
    if n > 0 {
        lemma_variables_later::<T>(memory, t, circuit, ptr, n - 1, later);
        if let EvalFlow::Going(m1, _, _, p1) = variables_read::<T>(memory, t, circuit, ptr, n - 1) {
            if m1.next_word_at(p1) {
                assert(m1.followed_by(later).word_taken() =~= m1.word_taken().followed_by(later));
            }
        }
    }
}

/// How instructions are evaluated depends only on the reads that are used.
proof fn lemma_instructions_later<T: Tracer>(
    memory: MemoryModel,
    t: T::State,
    circuit: CircuitModel,
    ptr: Felt,
    n: int,
    later: MemoryModel,
)
    ensures
        instructions_evaluated::<T>(memory, t, circuit, ptr, n) !is Panics
            ==> instructions_evaluated::<T>(memory.followed_by(later), t, circuit, ptr, n)
            == eval_with_later(
            instructions_evaluated::<T>(memory, t, circuit, ptr, n),
            later,
        ),
    decreases n,
{
    if n > 0 {
        lemma_instructions_later::<T>(memory, t, circuit, ptr, n - 1, later);
        if let EvalFlow::Going(m1, _, _, p1) = instructions_evaluated::<T>(
            memory,
            t,
            circuit,
            ptr,
            n - 1,
        ) {
            if m1.next_element_at(p1) {
                assert(m1.followed_by(later).element_taken() =~= m1.element_taken().followed_by(
                    later,
                ));
            }
        }
    }
}

/// How a circuit is evaluated depends only on the reads that are used.
pub proof fn lemma_circuit_later<T: Tracer>(
    memory: MemoryModel,
    t: T::State,
    ctx: ContextId,
    clk: RowIndex,
    ptr: Felt,
    num_vars: int,
    num_eval: int,
    later: MemoryModel,
)
    ensures
        circuit_evaluated::<T>(memory, t, ctx, clk, ptr, num_vars, num_eval) !is Panics
            ==> circuit_evaluated::<T>(
            memory.followed_by(later),
            t,
            ctx,
            clk,
            ptr,
            num_vars,
            num_eval,
        ) == eval_with_later(
            circuit_evaluated::<T>(memory, t, ctx, clk, ptr, num_vars, num_eval),
            later,
        ),
{
    let fresh = CircuitModel::fresh(ctx, clk, (num_vars / 2) as u32, num_eval as u32);
    lemma_variables_later::<T>(memory, t, fresh, ptr, num_vars / 2, later);
    if let EvalFlow::Going(m1, t1, c1, p1) = variables_read::<T>(
        memory,
        t,
        fresh,
        ptr,
        num_vars / 2,
    ) {
        lemma_instructions_later::<T>(m1, t1, c1, p1, num_eval, later);
    }
}

/// The generator with other recorded reads left.
pub open spec fn with_reads(s: GeneratorModel, memory_reads: MemoryModel) -> GeneratorModel {
    s.with_replay(ReplayModel { memory_reads, ..s.context.replay })
}

/// Evaluates a circuit whose variables and instructions lie in memory from an address on.
pub fn eval_circuit_fast_<T: Tracer>(
    ctx: ContextId,
    ptr: Felt,
    clk: RowIndex,
    num_vars: Felt,
    num_eval: Felt,
    processor: &mut CoreTraceFragmentGenerator,
    tracer: &mut T,
) -> (r: Result<CircuitEvaluation, ExecutionError>)
    requires
        circuit_evaluated::<T>(
            old(processor)@.context.replay.memory_reads,
            old(tracer).state(),
            ctx,
            clk,
            ptr,
            num_vars@ as int,
            num_eval@ as int,
        ) !is Panics,
    ensures
        match circuit_evaluated::<T>(
            old(processor)@.context.replay.memory_reads,
            old(tracer).state(),
            ctx,
            clk,
            ptr,
            num_vars@ as int,
            num_eval@ as int,
        ) {
            EvalFlow::Going(m, t, c, _) => {
                &&& r matches Ok(evaluation) && evaluation@ == c
                &&& final(processor)@ == with_reads(old(processor)@, m)
                &&& final(tracer).state() == t
            },
            EvalFlow::Failed(m, t, e) => {
                &&& r matches Err(ExecutionError::FailedArithmeticEvaluation(error)) && error == e
                &&& final(processor)@ == with_reads(old(processor)@, m)
                &&& final(tracer).state() == t
            },
            EvalFlow::Panics => true,
        },
{
    broadcast use lemma_felt_small;

    let ghost start = processor@;
    let ghost memory = processor@.context.replay.memory_reads;
    let ghost t = tracer.state();
    let vars: u64 = num_vars.as_int();
    let evals: u64 = num_eval.as_int();

    let num_wires: u64 = vars + evals;
    if num_wires > MAX_NUM_ACE_WIRES as u64 {
        return Err(
            ExecutionError::FailedArithmeticEvaluation(AceError::TooManyWires(num_wires)),
        );
    }
    // variables are elements of the extension, two to a word, and instructions are elements of
    // the field, four to a word
    if vars % 2 != 0 || vars == 0 {
        return Err(
            ExecutionError::FailedArithmeticEvaluation(
                AceError::NumVarIsNotWordAlignedOrIsEmpty(vars),
            ),
        );
    }
    if evals % 4 != 0 || evals == 0 {
        return Err(
            ExecutionError::FailedArithmeticEvaluation(
                AceError::NumEvalIsNotWordAlignedOrIsEmpty(evals),
            ),
        );
    }
    let num_read_rows: u32 = vars as u32 / 2;
    let num_eval_rows: u32 = evals as u32;

    let mut evaluation_context = CircuitEvaluation::new(ctx, clk, num_read_rows, num_eval_rows);
    let ghost fresh = evaluation_context@;
    let mut at = ptr;
    proof {
        lemma_variables_keep::<T>(memory, t, fresh, ptr, num_read_rows as int);
    }

    for i in 0..num_read_rows
        invariant
            fresh.ctx == ctx,
            fresh.clk == clk,
            variables_read::<T>(memory, t, fresh, ptr, num_read_rows as int) is Going,
            processor@ == with_reads(start, processor@.context.replay.memory_reads),
            variables_read::<T>(memory, t, fresh, ptr, i as int) == EvalFlow::Going(
                processor@.context.replay.memory_reads,
                tracer.state(),
                evaluation_context@,
                at,
            ),
    {
        broadcast use lemma_felt_small;

        proof {
            lemma_variables_prefix::<T>(memory, t, fresh, ptr, i + 1, num_read_rows as int);
        }
        let word = match processor.memory().read_word(ctx, at, clk) {
            Ok(word) => word,
            Err(_) => {
                return Err(ExecutionError::ReplayExhausted);
            },
        };
        tracer.record_memory_read_word(word, at, ctx, clk);
        evaluation_context.do_read(at, word);
        at = at.add(Felt::new(PTR_OFFSET_WORD));
    }

    let ghost (m1, t1, c1, p1) = (
        processor@.context.replay.memory_reads,
        tracer.state(),
        evaluation_context@,
        at,
    );
    for i in 0..num_eval_rows
        invariant
            c1.ctx == ctx,
            c1.clk == clk,
            vars == num_vars@,
            evals == num_eval@,
            evals == num_eval_rows,
            memory == old(processor)@.context.replay.memory_reads,
            t == old(tracer).state(),
            start == old(processor)@,
            instructions_evaluated::<T>(m1, t1, c1, p1, num_eval_rows as int) !is Panics,
            instructions_evaluated::<T>(m1, t1, c1, p1, num_eval_rows as int) is Failed
                ==> circuit_evaluated::<T>(
                memory,
                t,
                ctx,
                clk,
                ptr,
                vars as int,
                evals as int,
            ) == instructions_evaluated::<T>(m1, t1, c1, p1, num_eval_rows as int),
            processor@ == with_reads(start, processor@.context.replay.memory_reads),
            instructions_evaluated::<T>(m1, t1, c1, p1, i as int) == EvalFlow::Going(
                processor@.context.replay.memory_reads,
                tracer.state(),
                evaluation_context@,
                at,
            ),
    {
        broadcast use lemma_felt_small;

        proof {
            lemma_instructions_prefix::<T>(m1, t1, c1, p1, i + 1, num_eval_rows as int);
        }
        let instruction = match processor.memory().read_element(ctx, at) {
            Ok(element) => element,
            Err(_) => {
                return Err(ExecutionError::ReplayExhausted);
            },
        };
        tracer.record_memory_read_element(instruction, at, ctx, clk);
        match evaluation_context.do_eval(at, instruction) {
            Ok(()) => {},
            Err(e) => {
                return Err(ExecutionError::FailedArithmeticEvaluation(e));
            },
        }
        at = at.add(Felt::new(PTR_OFFSET_ELEM));
    }

    // the circuit must evaluate to zero
    match evaluation_context.output_value() {
        Some(value) if value == QuadFelt::new(Felt::zero(), Felt::zero()) => Ok(
            evaluation_context,
        ),
        _ => Err(ExecutionError::FailedArithmeticEvaluation(AceError::CircuitNotEvaluateZero)),
    }
}

impl CoreTraceFragmentGenerator {
    /// Evaluates the circuit that the stack describes: the address of its variables and
    /// instructions, the number of variables and the number of instructions.
    pub fn op_eval_circuit<T: Tracer>(&mut self, tracer: &mut T) -> (r: Result<(), ExecutionError>)
        requires
            circuit_evaluated::<T>(
                old(self)@.context.replay.memory_reads,
                old(tracer).state(),
                old(self)@.context.system.ctx,
                old(self)@.context.system.clk,
                old(self)@.item(0),
                old(self)@.item(1)@ as int,
                old(self)@.item(2)@ as int,
            ) !is Panics,
        ensures
            match circuit_evaluated::<T>(
                old(self)@.context.replay.memory_reads,
                old(tracer).state(),
                old(self)@.context.system.ctx,
                old(self)@.context.system.clk,
                old(self)@.item(0),
                old(self)@.item(1)@ as int,
                old(self)@.item(2)@ as int,
            ) {
                EvalFlow::Going(m, t, _, _) => {
                    &&& r is Ok
                    &&& final(self)@ == with_reads(old(self)@, m)
                    &&& final(tracer).state() == t
                },
                EvalFlow::Failed(m, t, e) => {
                    &&& r matches Err(ExecutionError::FailedArithmeticEvaluation(error)) && error
                        == e
                    &&& final(self)@ == with_reads(old(self)@, m)
                    &&& final(tracer).state() == t
                },
                EvalFlow::Panics => true,
            },
    {
        let num_eval = self.get(2);
        let num_read = self.get(1);
        let ptr = self.get(0);
        let ctx = self.ctx();
        let clk = self.clk();
        match eval_circuit_fast_(ctx, ptr, clk, num_read, num_eval, self, tracer) {
            Ok(_) => Ok(()),
            Err(e) => Err(e),
        }
    }
}

} // verus!
