//! What a tracer is told during execution.

use crate::ace::CircuitEvaluation;
use crate::ace::CircuitModel;
use crate::context::ContextId;
use crate::context::RowIndex;
use crate::continuation::Continuation;
use crate::continuation::ContinuationStack;
use crate::fast_processor::FastProcessor;
use crate::felt::Felt;
use crate::mast::MastForest;
use crate::mast::MastNodeId;
use crate::mast::MerklePath;
use crate::trace_state::NodeExecutionState;
use crate::word::Word;
use std::sync::Arc;
use vstd::prelude::*;

verus! {

/// What a tracer is told.
#[verifier::ext_equal]
pub enum TracerEvent {
    /// A clock cycle starts.
    StartClockCycle(FastProcessor, NodeExecutionState, Seq<Continuation>, Arc<MastForest>),
    /// A node was found in another forest.
    MastForestResolution(MastNodeId, Arc<MastForest>),
    /// The permutation took one state to another.
    HasherPermute([Felt; 12], [Felt; 12]),
    /// A Merkle path led from a node at an index to a root.
    HasherBuildMerkleRoot(Word, Option<Seq<Word>>, Felt, Word),
    /// A node at an index was updated, and with it the root.
    HasherUpdateMerkleRoot(Word, Word, Option<Seq<Word>>, Felt, Word, Word),
    /// An element was read from an address.
    MemoryReadElement(Felt, Felt, ContextId, RowIndex),
    /// A word was read from an address.
    MemoryReadWord(Word, Felt, ContextId, RowIndex),
    /// An element was written to an address.
    MemoryWriteElement(Felt, Felt, ContextId, RowIndex),
    /// A word was written to an address.
    MemoryWriteWord(Word, Felt, ContextId, RowIndex),
    /// An element was taken off the advice stack.
    AdvicePopStack(Felt),
    /// A word was taken off the advice stack.
    AdvicePopStackWord(Word),
    /// Two words were taken off the advice stack.
    AdvicePopStackDword([Word; 2]),
    /// A bitwise AND was computed.
    U32And(Felt, Felt),
    /// A bitwise XOR was computed.
    U32Xor(Felt, Felt),
    /// Two 32-bit values, the lower one first, are range-checked.
    U32RangeChecks(RowIndex, Felt, Felt),
    /// A kernel procedure was called.
    KernelProcAccess(Word),
    /// A circuit was evaluated.
    CircuitEvaluated(RowIndex, CircuitModel),
    /// The clock advances.
    IncrementClk,
    /// An element moves from the stack to the overflow table.
    IncrementStackSize(FastProcessor),
    /// An element moves from the overflow table to the stack, if there is one.
    DecrementStackSize,
    /// A context starts.
    StartContext,
    /// The previous context is restored.
    RestoreContext,
}

/// The view of an optional Merkle path.
pub open spec fn path_view(path: Option<&MerklePath>) -> Option<Seq<Word>> {
    match path {
        Some(p) => Some(p@),
        None => None,
    }
}

/// Something that is told what happens during execution.
///
/// A tracer is a state machine: every method stands for an event, and an implementation says which
/// events it accepts in which state and what state they lead to.
pub trait Tracer: Sized {
    /// The state of the tracer.
    type State;

    spec fn state(&self) -> Self::State;

    /// Whether the tracer accepts an event.
    spec fn allows(s: Self::State, event: TracerEvent) -> bool;

    /// The state after an event that the tracer accepts.
    spec fn after(s: Self::State, event: TracerEvent) -> Self::State;

    fn start_clock_cycle(
        &mut self,
        processor: &FastProcessor,
        execution_state: NodeExecutionState,
        continuation_stack: &mut ContinuationStack,
        current_forest: &Arc<MastForest>,
    )
        requires
            Self::allows(
                old(self).state(),
                TracerEvent::StartClockCycle(
                    *processor,
                    execution_state,
                    old(continuation_stack)@,
                    *current_forest,
                ),
            ),
        ensures
            final(self).state() == Self::after(
                old(self).state(),
                TracerEvent::StartClockCycle(
                    *processor,
                    execution_state,
                    old(continuation_stack)@,
                    *current_forest,
                ),
            ),
            final(continuation_stack)@ == old(continuation_stack)@,
    ;

    fn record_mast_forest_resolution(&mut self, node_id: MastNodeId, forest: &Arc<MastForest>)
        requires
            Self::allows(old(self).state(), TracerEvent::MastForestResolution(node_id, *forest)),
        ensures
            final(self).state() == Self::after(
                old(self).state(),
                TracerEvent::MastForestResolution(node_id, *forest),
            ),
    ;

    fn record_hasher_permute(&mut self, input_state: [Felt; 12], output_state: [Felt; 12])
        requires
            Self::allows(old(self).state(), TracerEvent::HasherPermute(input_state, output_state)),
        ensures
            final(self).state() == Self::after(
                old(self).state(),
                TracerEvent::HasherPermute(input_state, output_state),
            ),
    ;

    fn record_hasher_build_merkle_root(
        &mut self,
        node: Word,
        path: Option<&MerklePath>,
        index: Felt,
        output_root: Word,
    )
        requires
            Self::allows(
                old(self).state(),
                TracerEvent::HasherBuildMerkleRoot(node, path_view(path), index, output_root),
            ),
        ensures
            final(self).state() == Self::after(
                old(self).state(),
                TracerEvent::HasherBuildMerkleRoot(node, path_view(path), index, output_root),
            ),
    ;

    fn record_hasher_update_merkle_root(
        &mut self,
        old_value: Word,
        new_value: Word,
        path: Option<&MerklePath>,
        index: Felt,
        old_root: Word,
        new_root: Word,
    )
        requires
            Self::allows(
                old(self).state(),
                TracerEvent::HasherUpdateMerkleRoot(
                    old_value,
                    new_value,
                    path_view(path),
                    index,
                    old_root,
                    new_root,
                ),
            ),
        ensures
            final(self).state() == Self::after(
                old(self).state(),
                TracerEvent::HasherUpdateMerkleRoot(
                    old_value,
                    new_value,
                    path_view(path),
                    index,
                    old_root,
                    new_root,
                ),
            ),
    ;

    fn record_memory_read_element(
        &mut self,
        element: Felt,
        addr: Felt,
        ctx: ContextId,
        clk: RowIndex,
    )
        requires
            Self::allows(
                old(self).state(),
                TracerEvent::MemoryReadElement(element, addr, ctx, clk),
            ),
        ensures
            final(self).state() == Self::after(
                old(self).state(),
                TracerEvent::MemoryReadElement(element, addr, ctx, clk),
            ),
    ;

    fn record_memory_read_word(&mut self, word: Word, addr: Felt, ctx: ContextId, clk: RowIndex)
        requires
            Self::allows(old(self).state(), TracerEvent::MemoryReadWord(word, addr, ctx, clk)),
        ensures
            final(self).state() == Self::after(
                old(self).state(),
                TracerEvent::MemoryReadWord(word, addr, ctx, clk),
            ),
    ;

    fn record_memory_write_element(
        &mut self,
        element: Felt,
        addr: Felt,
        ctx: ContextId,
        clk: RowIndex,
    )
        requires
            Self::allows(
                old(self).state(),
                TracerEvent::MemoryWriteElement(element, addr, ctx, clk),
            ),
        ensures
            final(self).state() == Self::after(
                old(self).state(),
                TracerEvent::MemoryWriteElement(element, addr, ctx, clk),
            ),
    ;

    fn record_memory_write_word(&mut self, word: Word, addr: Felt, ctx: ContextId, clk: RowIndex)
        requires
            Self::allows(old(self).state(), TracerEvent::MemoryWriteWord(word, addr, ctx, clk)),
        ensures
            final(self).state() == Self::after(
                old(self).state(),
                TracerEvent::MemoryWriteWord(word, addr, ctx, clk),
            ),
    ;

    fn record_advice_pop_stack(&mut self, value: Felt)
        requires
            Self::allows(old(self).state(), TracerEvent::AdvicePopStack(value)),
        ensures
            final(self).state() == Self::after(
                old(self).state(),
                TracerEvent::AdvicePopStack(value),
            ),
    ;

    fn record_advice_pop_stack_word(&mut self, word: Word)
        requires
            Self::allows(old(self).state(), TracerEvent::AdvicePopStackWord(word)),
        ensures
            final(self).state() == Self::after(
                old(self).state(),
                TracerEvent::AdvicePopStackWord(word),
            ),
    ;

    fn record_advice_pop_stack_dword(&mut self, words: [Word; 2])
        requires
            Self::allows(old(self).state(), TracerEvent::AdvicePopStackDword(words)),
        ensures
            final(self).state() == Self::after(
                old(self).state(),
                TracerEvent::AdvicePopStackDword(words),
            ),
    ;

    fn record_u32and(&mut self, a: Felt, b: Felt)
        requires
            Self::allows(old(self).state(), TracerEvent::U32And(a, b)),
        ensures
            final(self).state() == Self::after(old(self).state(), TracerEvent::U32And(a, b)),
    ;

    fn record_u32xor(&mut self, a: Felt, b: Felt)
        requires
            Self::allows(old(self).state(), TracerEvent::U32Xor(a, b)),
        ensures
            final(self).state() == Self::after(old(self).state(), TracerEvent::U32Xor(a, b)),
    ;

    fn record_u32_range_checks(&mut self, clk: RowIndex, u32_lo: Felt, u32_hi: Felt)
        requires
            Self::allows(old(self).state(), TracerEvent::U32RangeChecks(clk, u32_lo, u32_hi)),
        ensures
            final(self).state() == Self::after(
                old(self).state(),
                TracerEvent::U32RangeChecks(clk, u32_lo, u32_hi),
            ),
    ;

    fn record_kernel_proc_access(&mut self, proc_hash: Word)
        requires
            Self::allows(old(self).state(), TracerEvent::KernelProcAccess(proc_hash)),
        ensures
            final(self).state() == Self::after(
                old(self).state(),
                TracerEvent::KernelProcAccess(proc_hash),
            ),
    ;

    fn record_circuit_evaluation(&mut self, clk: RowIndex, circuit_eval: CircuitEvaluation)
        requires
            Self::allows(old(self).state(), TracerEvent::CircuitEvaluated(clk, circuit_eval@)),
        ensures
            final(self).state() == Self::after(
                old(self).state(),
                TracerEvent::CircuitEvaluated(clk, circuit_eval@),
            ),
    ;

    fn increment_clk(&mut self)
        requires
            Self::allows(old(self).state(), TracerEvent::IncrementClk),
        ensures
            final(self).state() == Self::after(old(self).state(), TracerEvent::IncrementClk),
    ;

    fn increment_stack_size(&mut self, processor: &FastProcessor)
        requires
            Self::allows(old(self).state(), TracerEvent::IncrementStackSize(*processor)),
        ensures
            final(self).state() == Self::after(
                old(self).state(),
                TracerEvent::IncrementStackSize(*processor),
            ),
    ;

    fn decrement_stack_size(&mut self)
        requires
            Self::allows(old(self).state(), TracerEvent::DecrementStackSize),
        ensures
            final(self).state() == Self::after(old(self).state(), TracerEvent::DecrementStackSize),
    ;

    fn start_context(&mut self)
        requires
            Self::allows(old(self).state(), TracerEvent::StartContext),
        ensures
            final(self).state() == Self::after(old(self).state(), TracerEvent::StartContext),
    ;

    fn restore_context(&mut self)
        requires
            Self::allows(old(self).state(), TracerEvent::RestoreContext),
        ensures
            final(self).state() == Self::after(old(self).state(), TracerEvent::RestoreContext),
    ;
}

/// Whether a tracer accepts an event, if there is one.
pub open spec fn allows_told<T: Tracer>(s: T::State, event: Option<TracerEvent>) -> bool {
    match event {
        Some(e) => T::allows(s, e),
        None => true,
    }
}

/// The state of a tracer after an event, if there is one.
pub open spec fn told<T: Tracer>(s: T::State, event: Option<TracerEvent>) -> T::State {
    match event {
        Some(e) => T::after(s, e),
        None => s,
    }
}

/// A tracer that ignores everything.
#[derive(Clone, Copy, Debug)]
pub struct NoopTracer;

impl Tracer for NoopTracer {
    type State = ();

    open spec fn state(&self) -> () {
        ()
    }

    open spec fn allows(s: (), event: TracerEvent) -> bool {
        true
    }

    open spec fn after(s: (), event: TracerEvent) -> () {
        ()
    }

    fn start_clock_cycle(
        &mut self,
        _processor: &FastProcessor,
        _execution_state: NodeExecutionState,
        _continuation_stack: &mut ContinuationStack,
        _current_forest: &Arc<MastForest>,
    ) {
    }

    fn record_mast_forest_resolution(&mut self, _node_id: MastNodeId, _forest: &Arc<MastForest>) {
    }

    fn record_hasher_permute(&mut self, _input_state: [Felt; 12], _output_state: [Felt; 12]) {
    }

    fn record_hasher_build_merkle_root(
        &mut self,
        _node: Word,
        _path: Option<&MerklePath>,
        _index: Felt,
        _output_root: Word,
    ) {
    }

    fn record_hasher_update_merkle_root(
        &mut self,
        _old_value: Word,
        _new_value: Word,
        _path: Option<&MerklePath>,
        _index: Felt,
        _old_root: Word,
        _new_root: Word,
    ) {
    }

    fn record_memory_read_element(
        &mut self,
        _element: Felt,
        _addr: Felt,
        _ctx: ContextId,
        _clk: RowIndex,
    ) {
    }

    fn record_memory_read_word(
        &mut self,
        _word: Word,
        _addr: Felt,
        _ctx: ContextId,
        _clk: RowIndex,
    ) {
    }

    fn record_memory_write_element(
        &mut self,
        _element: Felt,
        _addr: Felt,
        _ctx: ContextId,
        _clk: RowIndex,
    ) {
    }

    fn record_memory_write_word(
        &mut self,
        _word: Word,
        _addr: Felt,
        _ctx: ContextId,
        _clk: RowIndex,
    ) {
    }

    fn record_advice_pop_stack(&mut self, _value: Felt) {
    }

    fn record_advice_pop_stack_word(&mut self, _word: Word) {
    }

    fn record_advice_pop_stack_dword(&mut self, _words: [Word; 2]) {
    }

    fn record_u32and(&mut self, _a: Felt, _b: Felt) {
    }

    fn record_u32xor(&mut self, _a: Felt, _b: Felt) {
    }

    fn record_u32_range_checks(&mut self, _clk: RowIndex, _u32_lo: Felt, _u32_hi: Felt) {
    }

    fn record_kernel_proc_access(&mut self, _proc_hash: Word) {
    }

    fn record_circuit_evaluation(&mut self, _clk: RowIndex, _circuit_eval: CircuitEvaluation) {
    }

    fn increment_clk(&mut self) {
    }

    fn increment_stack_size(&mut self, _processor: &FastProcessor) {
    }

    fn decrement_stack_size(&mut self) {
    }

    fn start_context(&mut self) {
    }

    fn restore_context(&mut self) {
    }
}

} // verus!
