//! What was told during execution is what the generation of the trace is answered, in the order in
//! which it was told.
//!
//! The laws set what a tracer is told against what is read off its recording: from an empty
//! recording, the answer that was told; from another one, what would be read off without it, and it
//! comes after that.

use crate::context::ContextId;
use crate::context::RowIndex;
use crate::execution_tracer::ExecutionTracer;
use crate::execution_tracer::ShimModel;
use crate::execution_tracer::TracerModel;
use crate::felt::felt;
use crate::felt::Felt;
use crate::interfaces::AdviceProviderInterface;
use crate::interfaces::HasherInterface;
use crate::interfaces::MemoryInterface;
use crate::parallel::generator::CoreTraceFragmentGenerator;
use crate::parallel::model::GeneratorModel;
use crate::processor::Processor;
use crate::trace_state::AdviceModel;
use crate::trace_state::AdviceReplay;
use crate::trace_state::HasherResponseModel;
use crate::trace_state::HasherResponseReplay;
use crate::trace_state::MemoryModel;
use crate::trace_state::MemoryReadsReplay;
use crate::trace_state::ReplayModel;
use crate::tracer::Tracer;
use crate::tracer::TracerEvent;
use crate::word::Word;
use vstd::prelude::*;

verus! {

// MEMORY

/// The reads of memory that are recorded once a tracer has been told something.
pub open spec fn reads_with(reads: MemoryModel, m: TracerModel, event: TracerEvent) -> MemoryModel {
    ExecutionTracer::after(
        TracerModel { replay: ReplayModel { memory_reads: reads, ..m.replay }, ..m },
        event,
    ).replay.memory_reads
}

/// An element that was read from an address is read from that address again, and from no other;
/// elements that were read before it come first.
pub proof fn law_element_answered(
    m: TracerModel,
    reads: MemoryModel,
    element: Felt,
    addr: Felt,
    other: Felt,
    ctx: ContextId,
    clk: RowIndex,
)
    ensures
        ({
            let event = TracerEvent::MemoryReadElement(element, addr, ctx, clk);
            let told = reads_with(reads, m, event);
            &&& reads.elements.len() == 0 ==> {
                &&& MemoryReadsReplay::can_read_element(told, other) <==> other == addr
                &&& MemoryReadsReplay::element_read(told, addr) == element
                &&& MemoryReadsReplay::after_element_read(told, addr) == reads
            }
            &&& reads.elements.len() > 0 ==> {
                &&& MemoryReadsReplay::can_read_element(told, other)
                    <==> MemoryReadsReplay::can_read_element(reads, other)
                &&& MemoryReadsReplay::element_read(told, other)
                    == MemoryReadsReplay::element_read(reads, other)
                &&& MemoryReadsReplay::after_element_read(told, other) == reads_with(
                    MemoryReadsReplay::after_element_read(reads, other),
                    m,
                    event,
                )
            }
            &&& MemoryReadsReplay::word_read(told, other) == MemoryReadsReplay::word_read(
                reads,
                other,
            )
        }),
{
    let event = TracerEvent::MemoryReadElement(element, addr, ctx, clk);
    let told = reads_with(reads, m, event);
    if reads.elements.len() == 0 {
        assert(told.elements.drop_first() =~= reads.elements);
    } else {
        assert(told.elements.drop_first() =~= reads_with(
            MemoryReadsReplay::after_element_read(reads, other),
            m,
            event,
        ).elements);
    }
}

/// A word that was read from an address is read from that address again, and from no other; words
/// that were read before it come first.
pub proof fn law_word_answered(
    m: TracerModel,
    reads: MemoryModel,
    word: Word,
    addr: Felt,
    other: Felt,
    ctx: ContextId,
    clk: RowIndex,
)
    ensures
        ({
            let event = TracerEvent::MemoryReadWord(word, addr, ctx, clk);
            let told = reads_with(reads, m, event);
            &&& reads.words.len() == 0 ==> {
                &&& MemoryReadsReplay::can_read_word(told, other) <==> other == addr
                &&& MemoryReadsReplay::word_read(told, addr) == word
                &&& MemoryReadsReplay::after_word_read(told, addr) == reads
            }
            &&& reads.words.len() > 0 ==> {
                &&& MemoryReadsReplay::can_read_word(told, other)
                    <==> MemoryReadsReplay::can_read_word(reads, other)
                &&& MemoryReadsReplay::word_read(told, other) == MemoryReadsReplay::word_read(
                    reads,
                    other,
                )
                &&& MemoryReadsReplay::after_word_read(told, other) == reads_with(
                    MemoryReadsReplay::after_word_read(reads, other),
                    m,
                    event,
                )
            }
            &&& MemoryReadsReplay::element_read(told, other) == MemoryReadsReplay::element_read(
                reads,
                other,
            )
        }),
{
    let event = TracerEvent::MemoryReadWord(word, addr, ctx, clk);
    let told = reads_with(reads, m, event);
    if reads.words.len() == 0 {
        assert(told.words.drop_first() =~= reads.words);
    } else {
        assert(told.words.drop_first() =~= reads_with(
            MemoryReadsReplay::after_word_read(reads, other),
            m,
            event,
        ).words);
    }
}

// ADVICE

/// The advice that is recorded once a tracer has been told something.
pub open spec fn advice_with(advice: AdviceModel, m: TracerModel, event: TracerEvent) -> AdviceModel {
    ExecutionTracer::after(
        TracerModel { replay: ReplayModel { advice, ..m.replay }, ..m },
        event,
    ).replay.advice
}

/// Elements, words and pairs of words that were taken off the advice stack come off it again, each
/// in their order.
pub proof fn law_advice_answered(
    m: TracerModel,
    advice: AdviceModel,
    value: Felt,
    word: Word,
    words: [Word; 2],
)
    ensures
        ({
            let event = TracerEvent::AdvicePopStack(value);
            let told = advice_with(advice, m, event);
            &&& AdviceReplay::can_pop(told)
            &&& !AdviceReplay::can_pop(advice) ==> AdviceReplay::popped(told) == (value, advice)
            &&& AdviceReplay::can_pop(advice) ==> AdviceReplay::popped(told) == (
                AdviceReplay::popped(advice).0,
                advice_with(AdviceReplay::popped(advice).1, m, event),
            )
        }),
        ({
            let event = TracerEvent::AdvicePopStackWord(word);
            let told = advice_with(advice, m, event);
            &&& AdviceReplay::can_pop_word(told)
            &&& !AdviceReplay::can_pop_word(advice) ==> AdviceReplay::popped_word(told) == (
                word,
                advice,
            )
            &&& AdviceReplay::can_pop_word(advice) ==> AdviceReplay::popped_word(told) == (
                AdviceReplay::popped_word(advice).0,
                advice_with(AdviceReplay::popped_word(advice).1, m, event),
            )
        }),
        ({
            let event = TracerEvent::AdvicePopStackDword(words);
            let told = advice_with(advice, m, event);
            &&& AdviceReplay::can_pop_dword(told)
            &&& !AdviceReplay::can_pop_dword(advice) ==> AdviceReplay::popped_dword(told) == (
                words,
                advice,
            )
            &&& AdviceReplay::can_pop_dword(advice) ==> AdviceReplay::popped_dword(told) == (
                AdviceReplay::popped_dword(advice).0,
                advice_with(AdviceReplay::popped_dword(advice).1, m, event),
            )
        }),
{
    assert(advice.pops.len() == 0 ==> advice.pops.push(value).drop_first() =~= advice.pops);
    assert(advice.pops.len() > 0 ==> advice.pops.push(value).drop_first()
        =~= advice.pops.drop_first().push(value));
    assert(advice.word_pops.len() == 0 ==> advice.word_pops.push(word).drop_first()
        =~= advice.word_pops);
    assert(advice.word_pops.len() > 0 ==> advice.word_pops.push(word).drop_first()
        =~= advice.word_pops.drop_first().push(word));
    assert(advice.dword_pops.len() == 0 ==> advice.dword_pops.push(words).drop_first()
        =~= advice.dword_pops);
    assert(advice.dword_pops.len() > 0 ==> advice.dword_pops.push(words).drop_first()
        =~= advice.dword_pops.drop_first().push(words));
}

// HASHER

/// The answers of the hasher that are recorded once a tracer has been told something.
pub open spec fn hasher_with(
    answers: HasherResponseModel,
    m: TracerModel,
    event: TracerEvent,
) -> HasherResponseModel {
    ExecutionTracer::after(
        TracerModel { hasher: ShimModel { replay: answers, ..m.hasher }, ..m },
        event,
    ).hasher.replay
}

/// The hasher answers a permutation with the address that it had and the state that came out.
pub proof fn law_permutation_answered(
    m: TracerModel,
    answers: HasherResponseModel,
    input: [Felt; 12],
    output: [Felt; 12],
)
    ensures
        ({
            let event = TracerEvent::HasherPermute(input, output);
            let told = hasher_with(answers, m, event);
            let addr = felt(m.hasher.addr as int);
            &&& HasherResponseReplay::can_permute(told)
            &&& !HasherResponseReplay::can_permute(answers) ==> HasherResponseReplay::permuted(told)
                == ((addr, output), answers)
            &&& HasherResponseReplay::can_permute(answers) ==> HasherResponseReplay::permuted(told)
                == (
                HasherResponseReplay::permuted(answers).0,
                hasher_with(HasherResponseReplay::permuted(answers).1, m, event),
            )
        }),
{
    let p = answers.permutations;
    let e = (felt(m.hasher.addr as int), output);
    assert(p.len() == 0 ==> p.push(e).drop_first() =~= p);
    assert(p.len() > 0 ==> p.push(e).drop_first() =~= p.drop_first().push(e));
}

/// The hasher answers the check of a Merkle path with the address that it had and the root that
/// came out, and the update of a root with the address, the old root and the new one.
pub proof fn law_merkle_answered(
    m: TracerModel,
    answers: HasherResponseModel,
    old_value: Word,
    new_value: Word,
    path: Option<Seq<Word>>,
    index: Felt,
    old_root: Word,
    new_root: Word,
)
    ensures
        ({
            let event = TracerEvent::HasherBuildMerkleRoot(old_value, path, index, old_root);
            let told = hasher_with(answers, m, event);
            let addr = felt(m.hasher.addr as int);
            &&& HasherResponseReplay::can_verify(told)
            &&& !HasherResponseReplay::can_verify(answers) ==> HasherResponseReplay::verified(told)
                == ((addr, old_root), answers)
            &&& HasherResponseReplay::can_verify(answers) ==> HasherResponseReplay::verified(told)
                == (
                HasherResponseReplay::verified(answers).0,
                hasher_with(HasherResponseReplay::verified(answers).1, m, event),
            )
        }),
        ({
            let event = TracerEvent::HasherUpdateMerkleRoot(
                old_value,
                new_value,
                path,
                index,
                old_root,
                new_root,
            );
            let told = hasher_with(answers, m, event);
            let addr = felt(m.hasher.addr as int);
            &&& HasherResponseReplay::can_update(told)
            &&& !HasherResponseReplay::can_update(answers) ==> HasherResponseReplay::updated(told)
                == ((addr, old_root, new_root), answers)
            &&& HasherResponseReplay::can_update(answers) ==> HasherResponseReplay::updated(told)
                == (
                HasherResponseReplay::updated(answers).0,
                hasher_with(HasherResponseReplay::updated(answers).1, m, event),
            )
        }),
{
    let p = answers.merkle_roots;
    let e = (felt(m.hasher.addr as int), old_root);
    assert(p.len() == 0 ==> p.push(e).drop_first() =~= p);
    assert(p.len() > 0 ==> p.push(e).drop_first() =~= p.drop_first().push(e));
    let q = answers.merkle_updates;
    let d = (felt(m.hasher.addr as int), old_root, new_root);
    assert(q.len() == 0 ==> q.push(d).drop_first() =~= q);
    assert(q.len() > 0 ==> q.push(d).drop_first() =~= q.drop_first().push(d));
}

// THE GENERATOR

/// A generator is answered from the recordings of its context.
pub proof fn law_generator_answers(
    rest: GeneratorModel,
    advice: AdviceModel,
    memory: MemoryModel,
    hasher: HasherResponseModel,
)
    ensures
        CoreTraceFragmentGenerator::advice_of(rest) == rest.context.replay.advice,
        CoreTraceFragmentGenerator::memory_of(rest) == rest.context.replay.memory_reads,
        CoreTraceFragmentGenerator::hasher_of(rest) == rest.context.replay.hasher,
        CoreTraceFragmentGenerator::with_advice(rest, advice).context.replay == (ReplayModel {
            advice,
            ..rest.context.replay
        }),
        CoreTraceFragmentGenerator::with_memory(rest, memory).context.replay == (ReplayModel {
            memory_reads: memory,
            ..rest.context.replay
        }),
        CoreTraceFragmentGenerator::with_hasher(rest, hasher).context.replay == (ReplayModel {
            hasher,
            ..rest.context.replay
        }),
        CoreTraceFragmentGenerator::with_advice(rest, advice).context.stack == rest.context.stack,
        CoreTraceFragmentGenerator::with_memory(rest, memory).context.stack == rest.context.stack,
        CoreTraceFragmentGenerator::with_hasher(rest, hasher).context.stack == rest.context.stack,
        CoreTraceFragmentGenerator::with_advice(rest, advice).context.system
            == rest.context.system,
        CoreTraceFragmentGenerator::with_memory(rest, memory).context.system
            == rest.context.system,
        CoreTraceFragmentGenerator::with_hasher(rest, hasher).context.system
            == rest.context.system,
{
}

} // verus!
