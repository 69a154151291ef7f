//! What the chiplets and the range checker are asked for.

use crate::ace::CircuitModel;
use crate::context::ContextId;
use crate::context::RowIndex;
use crate::felt::Felt;
use crate::mast::MerklePath;
use crate::mast::OpBatch;
use crate::parallel::chiplets::all_requests;
use crate::parallel::chiplets::elements_read;
use crate::parallel::chiplets::elements_written;
use crate::parallel::chiplets::recorded_accesses;
use crate::parallel::chiplets::requested;
use crate::parallel::chiplets::words_read;
use crate::parallel::chiplets::words_written;
use crate::parallel::chiplets::ChipletRequest;
use crate::parallel::chiplets::ChipletsInterface;
use crate::parallel::chiplets::MemoryAccess;
use crate::parallel::chiplets::RequestLog;
use crate::parallel::chiplets::RequestLogModel;
use crate::trace_state::BitwiseOp;
use crate::trace_state::ContextModel;
use crate::trace_state::HasherOp;
use crate::trace_state::HasherOpModel;
use crate::trace_state::MemoryModel;
use crate::word::Word;
use vstd::prelude::*;

verus! {

/// The requests come kind by kind: all to the hasher, then all bitwise operations, then all
/// accesses to memory, then all evaluations of circuits, then all calls of kernel procedures. Each
/// is the one recorded, with its operands in order, and none is left out or added.
pub proof fn law_requests_in_order(
    hasher: Seq<HasherOpModel>,
    bitwise: Seq<(BitwiseOp, Felt, Felt)>,
    memory: Seq<MemoryAccess>,
    ace: Seq<(RowIndex, CircuitModel)>,
    kernel: Seq<Word>,
)
    ensures
        ({
            let all = all_requests(hasher, bitwise, memory, ace, kernel);
            let b = hasher.len() as int;
            let m = b + bitwise.len();
            let a = m + memory.len();
            let k = a + ace.len();
            &&& all.len() == k + kernel.len()
            &&& forall|i: int|
                0 <= i < hasher.len() ==> #[trigger] all[i] == ChipletRequest::Hasher(hasher[i])
            &&& forall|i: int|
                0 <= i < bitwise.len() ==> #[trigger] all[b + i] == ChipletRequest::Bitwise(
                    bitwise[i].0,
                    bitwise[i].1,
                    bitwise[i].2,
                )
            &&& forall|i: int|
                0 <= i < memory.len() ==> #[trigger] all[m + i] == ChipletRequest::Memory(memory[i])
            &&& forall|i: int|
                0 <= i < ace.len() ==> #[trigger] all[a + i] == ChipletRequest::Ace(
                    ace[i].0,
                    ace[i].1,
                )
            &&& forall|i: int|
                0 <= i < kernel.len() ==> #[trigger] all[k + i] == ChipletRequest::Kernel(kernel[i])
        }),
{
}

/// A write that was recorded is put to the memory at its address, with its value, in its context
/// and clock cycle.
pub proof fn law_writes_listed(writes: MemoryModel, i: int)
    ensures
        elements_written(writes).len() == writes.elements.len(),
        words_written(writes).len() == writes.words.len(),
        0 <= i < writes.elements.len() ==> (elements_written(writes)[i] matches
            MemoryAccess::WriteElement(addr, element, ctx, clk) && writes.elements[i] == (
            element,
            addr,
            ctx,
            clk,
        )),
        0 <= i < writes.words.len() ==> (words_written(writes)[i] matches MemoryAccess::WriteWord(
            addr,
            word,
            ctx,
            clk,
        ) && writes.words[i] == (word, addr, ctx, clk)),
{
}

/// The number of elements that were read in fragments.
pub open spec fn num_elements_read(contexts: Seq<ContextModel>) -> int
    decreases contexts.len(),
{
    if contexts.len() == 0 {
        0
    } else {
        num_elements_read(contexts.drop_last())
            + contexts.last().replay.memory_reads.elements.len()
    }
}

/// The number of words that were read in fragments.
pub open spec fn num_words_read(contexts: Seq<ContextModel>) -> int
    decreases contexts.len(),
{
    if contexts.len() == 0 {
        0
    } else {
        num_words_read(contexts.drop_last()) + contexts.last().replay.memory_reads.words.len()
    }
}

/// A read that was recorded in a fragment is put to the memory at its address, in its context and
/// clock cycle, behind all reads of the fragments before.
pub proof fn law_reads_listed(contexts: Seq<ContextModel>, k: int, i: int)
    requires
        0 <= k < contexts.len(),
    ensures
        ({
            let reads = contexts[k].replay.memory_reads;
            let e = num_elements_read(contexts.take(k));
            let w = num_words_read(contexts.take(k));
            &&& elements_read(contexts).len() == num_elements_read(contexts)
            &&& words_read(contexts).len() == num_words_read(contexts)
            &&& 0 <= i < reads.elements.len() ==> {
                &&& 0 <= e + i < elements_read(contexts).len()
                &&& elements_read(contexts)[e + i] matches MemoryAccess::ReadElement(addr, ctx, clk)
                    && reads.elements[i].1 == addr && reads.elements[i].2 == ctx
                    && reads.elements[i].3 == clk
            }
            &&& 0 <= i < reads.words.len() ==> {
                &&& 0 <= w + i < words_read(contexts).len()
                &&& words_read(contexts)[w + i] matches MemoryAccess::ReadWord(addr, ctx, clk)
                    && reads.words[i].1 == addr && reads.words[i].2 == ctx && reads.words[i].3
                    == clk
            }
        }),
    decreases contexts.len(),
{
    let before = contexts.drop_last();
    lemma_reads_counted(contexts);
    lemma_reads_counted(before);
    lemma_reads_counted(contexts.take(k));
    if k == contexts.len() - 1 {
        assert(contexts.take(k) =~= before);
    } else {
        law_reads_listed(before, k, i);
        assert(before.take(k) =~= contexts.take(k));
        assert(before[k] == contexts[k]);
    }
}

proof fn lemma_reads_counted(contexts: Seq<ContextModel>)
    ensures
        elements_read(contexts).len() == num_elements_read(contexts),
        words_read(contexts).len() == num_words_read(contexts),
    decreases contexts.len(),
{
    if contexts.len() > 0 {
        lemma_reads_counted(contexts.drop_last());
    }
}

/// The accesses to memory are the writes of elements, the writes of words, the reads of elements
/// and the reads of words, and no others.
pub proof fn law_all_accesses_listed(contexts: Seq<ContextModel>, writes: MemoryModel)
    ensures
        recorded_accesses(contexts, writes).len() == 4,
        recorded_accesses(contexts, writes)[0] == elements_written(writes),
        recorded_accesses(contexts, writes)[1] == words_written(writes),
        recorded_accesses(contexts, writes)[2] == elements_read(contexts),
        recorded_accesses(contexts, writes)[3] == words_read(contexts),
{
}

/// The clock cycle of an access is the one that was recorded with it.
pub proof fn law_access_clk(addr: Felt, e: Felt, w: Word, ctx: ContextId, clk: RowIndex)
    ensures
        MemoryAccess::ReadElement(addr, ctx, clk).at() == clk,
        MemoryAccess::WriteElement(addr, e, ctx, clk).at() == clk,
        MemoryAccess::ReadWord(addr, ctx, clk).at() == clk,
        MemoryAccess::WriteWord(addr, w, ctx, clk).at() == clk,
{
}

/// A request to the hasher holds what the recording of it holds.
pub proof fn law_hasher_request_holds(
    state: [Felt; 12],
    h1: Word,
    h2: Word,
    domain: Felt,
    digest: Word,
    batches: Vec<OpBatch>,
    path: MerklePath,
    index: Felt,
)
    ensures
        HasherOp::Permute(state)@ == HasherOpModel::Permute(state),
        HasherOp::HashControlBlock((h1, h2, domain, digest))@ == HasherOpModel::HashControlBlock(
            h1,
            h2,
            domain,
            digest,
        ),
        HasherOp::HashBasicBlock((batches, digest))@ matches HasherOpModel::HashBasicBlock(
            hashed,
            hash,
        ) && hash == digest && hashed.len() == batches@.len() && (forall|i: int|
            0 <= i < hashed.len() ==> #[trigger] hashed[i] == batches@[i]@),
        HasherOp::BuildMerkleRoot((h1, path, index))@ == HasherOpModel::BuildMerkleRoot(
            h1,
            path.nodes@,
            index,
        ),
        HasherOp::UpdateMerkleRoot((h1, h2, path, index))@ == HasherOpModel::UpdateMerkleRoot(
            h1,
            h2,
            path.nodes@,
            index,
        ),
{
}

/// A log of requests to which everything recorded is put holds everything recorded, each kind in
/// its order.
pub proof fn law_log_holds_all(
    log: RequestLogModel,
    hasher: Seq<HasherOpModel>,
    bitwise: Seq<(BitwiseOp, Felt, Felt)>,
    memory: Seq<MemoryAccess>,
    ace: Seq<(RowIndex, CircuitModel)>,
    kernel: Seq<Word>,
)
    ensures
        requested::<RequestLog>(log, all_requests(hasher, bitwise, memory, ace, kernel)) == Some(
            RequestLogModel {
                hasher: log.hasher + hasher,
                bitwise: log.bitwise + bitwise,
                memory: log.memory + memory,
                ace: log.ace + ace,
                kernel: log.kernel + kernel,
            },
        ),
    decreases hasher.len() + bitwise.len() + memory.len() + ace.len() + kernel.len(),
{
    let all = all_requests(hasher, bitwise, memory, ace, kernel);
    if kernel.len() > 0 {
        let less = kernel.drop_last();
        law_log_holds_all(log, hasher, bitwise, memory, ace, less);
        assert(all.drop_last() =~= all_requests(hasher, bitwise, memory, ace, less));
        assert((log.kernel + less).push(kernel.last()) =~= log.kernel + kernel);
    } else if ace.len() > 0 {
        let less = ace.drop_last();
        law_log_holds_all(log, hasher, bitwise, memory, less, kernel);
        assert(all.drop_last() =~= all_requests(hasher, bitwise, memory, less, kernel));
        assert((log.ace + less).push(ace.last()) =~= log.ace + ace);
    } else if memory.len() > 0 {
        let less = memory.drop_last();
        law_log_holds_all(log, hasher, bitwise, less, ace, kernel);
        assert(all.drop_last() =~= all_requests(hasher, bitwise, less, ace, kernel));
        assert((log.memory + less).push(memory.last()) =~= log.memory + memory);
    } else if bitwise.len() > 0 {
        let less = bitwise.drop_last();
        law_log_holds_all(log, hasher, less, memory, ace, kernel);
        assert(all.drop_last() =~= all_requests(hasher, less, memory, ace, kernel));
        assert((log.bitwise + less).push(bitwise.last()) =~= log.bitwise + bitwise);
    } else if hasher.len() > 0 {
        let less = hasher.drop_last();
        law_log_holds_all(log, less, bitwise, memory, ace, kernel);
        assert(all.drop_last() =~= all_requests(less, bitwise, memory, ace, kernel));
        assert((log.hasher + less).push(hasher.last()) =~= log.hasher + hasher);
    } else {
        assert(all.len() == 0);
        assert(log.hasher + hasher =~= log.hasher);
        assert(log.bitwise + bitwise =~= log.bitwise);
        assert(log.memory + memory =~= log.memory);
        assert(log.ace + ace =~= log.ace);
        assert(log.kernel + kernel =~= log.kernel);
    }
}

} // verus!
