//! What the chiplets and the range checker are asked to do.
//!
//! The traces of the chiplets are built from the requests that were made during execution, in the
//! order in which they were made.

use crate::ace::CircuitEvaluation;
use crate::ace::CircuitModel;
use crate::context::ContextId;
use crate::context::RowIndex;
use crate::felt::Felt;
use crate::mast::batch_models;
use crate::mast::duplicate_batches;
use crate::mast::MerklePath;
use crate::mast::OpBatch;
use crate::parallel::stitch::context_models;
use crate::trace_state::circuit_models;
use crate::trace_state::hasher_op_models;
use crate::trace_state::AceReplay;
use crate::trace_state::BitwiseOp;
use crate::trace_state::BitwiseReplay;
use crate::trace_state::ContextModel;
use crate::trace_state::CoreTraceFragmentContext;
use crate::trace_state::HasherOp;
use crate::trace_state::HasherOpModel;
use crate::trace_state::HasherRequestReplay;
use crate::trace_state::KernelReplay;
use crate::trace_state::MemoryModel;
use crate::trace_state::MemoryWritesReplay;
use crate::trace_state::RangeCheckerReplay;
use crate::word::Word;
use itertools::Itertools;
use std::collections::VecDeque;
use vstd::multiset::Multiset;
use vstd::prelude::*;

verus! {

// MEMORY ACCESSES

/// An access to memory.
#[derive(Clone, Copy, PartialEq, Eq, Structural, Debug)]
pub enum MemoryAccess {
    /// Address, context and clock cycle of the read of an element.
    ReadElement(Felt, ContextId, RowIndex),
    /// Address, element, context and clock cycle of the write of an element.
    WriteElement(Felt, Felt, ContextId, RowIndex),
    /// Address, context and clock cycle of the read of a word.
    ReadWord(Felt, ContextId, RowIndex),
    /// Address, word, context and clock cycle of the write of a word.
    WriteWord(Felt, Word, ContextId, RowIndex),
}

impl MemoryAccess {
    /// The clock cycle of the access.
    pub open spec fn at(&self) -> RowIndex {
        match self {
            MemoryAccess::ReadElement(_, _, clk) => *clk,
            MemoryAccess::WriteElement(_, _, _, clk) => *clk,
            MemoryAccess::ReadWord(_, _, clk) => *clk,
            MemoryAccess::WriteWord(_, _, _, clk) => *clk,
        }
    }

    /// The clock cycle of the access.
    pub fn clk(&self) -> (r: RowIndex)
        ensures
            r == self.at(),
    {
        match self {
            MemoryAccess::ReadElement(_, _, clk) => *clk,
            MemoryAccess::WriteElement(_, _, _, clk) => *clk,
            MemoryAccess::ReadWord(_, _, clk) => *clk,
            MemoryAccess::WriteWord(_, _, _, clk) => *clk,
        }
    }

    /// Whether the access comes in an earlier clock cycle than another one.
    pub fn comes_before(&self, other: &MemoryAccess) -> (r: bool)
        ensures
            r == (self.at() < other.at()),
    {
        self.clk() < other.clk()
    }
}

/// The writes of elements that were recorded.
pub open spec fn elements_written(writes: MemoryModel) -> Seq<MemoryAccess> {
    writes.elements.map_values(
        |e: (Felt, Felt, ContextId, RowIndex)| MemoryAccess::WriteElement(e.1, e.0, e.2, e.3),
    )
}

/// The writes of words that were recorded.
pub open spec fn words_written(writes: MemoryModel) -> Seq<MemoryAccess> {
    writes.words.map_values(
        |e: (Word, Felt, ContextId, RowIndex)| MemoryAccess::WriteWord(e.1, e.0, e.2, e.3),
    )
}

/// The reads of elements that were recorded for a fragment.
pub open spec fn fragment_elements_read(reads: MemoryModel) -> Seq<MemoryAccess> {
    reads.elements.map_values(
        |e: (Felt, Felt, ContextId, RowIndex)| MemoryAccess::ReadElement(e.1, e.2, e.3),
    )
}

/// The reads of words that were recorded for a fragment.
pub open spec fn fragment_words_read(reads: MemoryModel) -> Seq<MemoryAccess> {
    reads.words.map_values(
        |e: (Word, Felt, ContextId, RowIndex)| MemoryAccess::ReadWord(e.1, e.2, e.3),
    )
}

/// The reads of elements that were recorded for all fragments, in order.
pub open spec fn elements_read(contexts: Seq<ContextModel>) -> Seq<MemoryAccess>
    decreases contexts.len(),
{
    if contexts.len() == 0 {
        Seq::empty()
    } else {
        elements_read(contexts.drop_last()) + fragment_elements_read(
            contexts.last().replay.memory_reads,
        )
    }
}

/// The reads of words that were recorded for all fragments, in order.
pub open spec fn words_read(contexts: Seq<ContextModel>) -> Seq<MemoryAccess>
    decreases contexts.len(),
{
    if contexts.len() == 0 {
        Seq::empty()
    } else {
        words_read(contexts.drop_last()) + fragment_words_read(contexts.last().replay.memory_reads)
    }
}

/// All recorded accesses to memory, in four lists.
pub open spec fn recorded_accesses(
    contexts: Seq<ContextModel>,
    writes: MemoryModel,
) -> Seq<Seq<MemoryAccess>> {
    seq![
        elements_written(writes),
        words_written(writes),
        elements_read(contexts),
        words_read(contexts),
    ]
}

// MERGING

/// The lists without the first access of one of them.
pub open spec fn first_taken(lists: Seq<Seq<MemoryAccess>>, k: int) -> Seq<Seq<MemoryAccess>> {
    lists.update(k, lists[k].drop_first())
}

/// Whether none of the first accesses of the lists comes before the first access of list `k`.
pub open spec fn comes_first(lists: Seq<Seq<MemoryAccess>>, k: int) -> bool {
    &&& 0 <= k < lists.len()
    &&& lists[k].len() > 0
    &&& forall|j: int|
        0 <= j < lists.len() && (#[trigger] lists[j]).len() > 0 ==> lists[k][0].at()
            <= lists[j][0].at()
}

/// Whether a list comes about by taking from one of the lists the first access, as long as there
/// is one, such that no other list begins with an earlier one.
pub open spec fn merges(lists: Seq<Seq<MemoryAccess>>, merged: Seq<MemoryAccess>) -> bool
    decreases merged.len(),
{
    if merged.len() == 0 {
        forall|k: int| 0 <= k < lists.len() ==> (#[trigger] lists[k]).len() == 0
    } else {
        exists|k: int|
            {
                &&& comes_first(lists, k)
                &&& merged[0] == lists[k][0]
                &&& merges(#[trigger] first_taken(lists, k), merged.drop_first())
            }
    }
}

/// The contents of lists of accesses.
pub open spec fn access_lists(lists: Seq<Vec<MemoryAccess>>) -> Seq<Seq<MemoryAccess>> {
    lists.map_values(|l: Vec<MemoryAccess>| l@)
}

/// `Itertools::kmerge_by`, ordered by [`MemoryAccess::comes_before`]: repeatedly takes the first
/// item of one of the lists, such that no other list begins with an item of an earlier clock
/// cycle. Which of several such lists is taken is left open.
#[verifier::external_body]
fn merge_by_clk(lists: Vec<Vec<MemoryAccess>>) -> (r: Vec<MemoryAccess>)
    ensures
        merges(access_lists(lists@), r@),
{
    lists.into_iter().kmerge_by(|a, b| a.comes_before(b)).collect()
}

/// All accesses of the lists.
pub open spec fn accesses_of(lists: Seq<Seq<MemoryAccess>>) -> Multiset<MemoryAccess>
    decreases lists.len(),
{
    if lists.len() == 0 {
        Multiset::empty()
    } else {
        accesses_of(lists.drop_last()).add(lists.last().to_multiset())
    }
}

proof fn lemma_first_taken(lists: Seq<Seq<MemoryAccess>>, k: int)
    requires
        0 <= k < lists.len(),
        lists[k].len() > 0,
    ensures
        accesses_of(lists) == accesses_of(first_taken(lists, k)).insert(lists[k][0]),
    decreases lists.len(),
{
    broadcast use vstd::multiset::group_multiset_axioms;
    broadcast use vstd::seq_lib::group_to_multiset_ensures;

    let taken = first_taken(lists, k);
    if k == lists.len() - 1 {
        assert(taken.drop_last() =~= lists.drop_last());
        let list = lists[k];
        assert(list =~= seq![list[0]] + list.drop_first());
        vstd::seq_lib::lemma_multiset_commutative(seq![list[0]], list.drop_first());
        assert(seq![list[0]].to_multiset() =~= Multiset::singleton(list[0])) by {
            assert(seq![list[0]] =~= Seq::empty().push(list[0]));
            assert(Seq::<MemoryAccess>::empty().to_multiset() =~= Multiset::empty());
        }
        assert(list.to_multiset() =~= list.drop_first().to_multiset().insert(list[0]));
        assert(accesses_of(lists) =~= accesses_of(taken).insert(list[0]));
    } else {
        lemma_first_taken(lists.drop_last(), k);
        assert(taken.drop_last() =~= first_taken(lists.drop_last(), k));
        assert(taken.last() == lists.last());
        assert(accesses_of(lists) =~= accesses_of(taken).insert(lists[k][0]));
    }
}

proof fn lemma_no_accesses(lists: Seq<Seq<MemoryAccess>>)
    requires
        forall|k: int| 0 <= k < lists.len() ==> (#[trigger] lists[k]).len() == 0,
    ensures
        accesses_of(lists) == Multiset::<MemoryAccess>::empty(),
    decreases lists.len(),
{
    broadcast use vstd::multiset::group_multiset_axioms;
    broadcast use vstd::seq_lib::group_to_multiset_ensures;

    if lists.len() > 0 {
        assert forall|k: int| 0 <= k < lists.drop_last().len() implies (
            #[trigger] lists.drop_last()[k]).len() == 0 by {
            assert(lists[k].len() == 0);
        }
        lemma_no_accesses(lists.drop_last());
        assert(lists[lists.len() - 1].len() == 0);
        assert(lists.last() =~= Seq::empty());
        assert(accesses_of(lists) =~= Multiset::empty());
    }
}

/// Merging keeps all accesses: none is lost, none is added.
pub proof fn law_merge_keeps_accesses(lists: Seq<Seq<MemoryAccess>>, merged: Seq<MemoryAccess>)
    requires
        merges(lists, merged),
    ensures
        merged.to_multiset() == accesses_of(lists),
    decreases merged.len(),
{
    broadcast use vstd::multiset::group_multiset_axioms;
    broadcast use vstd::seq_lib::group_to_multiset_ensures;

    if merged.len() == 0 {
        lemma_no_accesses(lists);
        assert(merged =~= Seq::empty());
        assert(merged.to_multiset() =~= Multiset::empty());
    } else {
        let k = choose|k: int|
            {
                &&& comes_first(lists, k)
                &&& merged[0] == lists[k][0]
                &&& merges(#[trigger] first_taken(lists, k), merged.drop_first())
            };
        law_merge_keeps_accesses(first_taken(lists, k), merged.drop_first());
        lemma_first_taken(lists, k);
        let rest = merged.drop_first();
        assert(merged =~= seq![merged[0]] + rest);
        vstd::seq_lib::lemma_multiset_commutative(seq![merged[0]], rest);
        assert(seq![merged[0]].to_multiset() =~= Multiset::singleton(merged[0])) by {
            assert(seq![merged[0]] =~= Seq::empty().push(merged[0]));
            assert(Seq::<MemoryAccess>::empty().to_multiset() =~= Multiset::empty());
        }
        assert(merged.to_multiset() =~= rest.to_multiset().insert(merged[0]));
    }
}

/// Whether accesses are ordered by clock cycle.
pub open spec fn ordered(accesses: Seq<MemoryAccess>) -> bool {
    forall|i: int, j: int|
        0 <= i <= j < accesses.len() ==> (#[trigger] accesses[i]).at() <= (
        #[trigger] accesses[j]).at()
}

/// Whether all accesses of the lists come in a clock cycle or after it.
pub open spec fn not_before(lists: Seq<Seq<MemoryAccess>>, clk: int) -> bool {
    forall|k: int, i: int|
        0 <= k < lists.len() && 0 <= i < lists[k].len() ==> clk <= (#[trigger] lists[k][i]).at()
}

proof fn lemma_merged_not_before(lists: Seq<Seq<MemoryAccess>>, merged: Seq<MemoryAccess>, clk: int)
    requires
        merges(lists, merged),
        not_before(lists, clk),
    ensures
        forall|i: int| 0 <= i < merged.len() ==> clk <= (#[trigger] merged[i]).at(),
    decreases merged.len(),
{
    if merged.len() > 0 {
        let k = choose|k: int|
            {
                &&& comes_first(lists, k)
                &&& merged[0] == lists[k][0]
                &&& merges(#[trigger] first_taken(lists, k), merged.drop_first())
            };
        let taken = first_taken(lists, k);
        assert forall|m: int, i: int|
            0 <= m < taken.len() && 0 <= i < taken[m].len() implies clk <= (
        #[trigger] taken[m][i]).at() by {
            if m == k {
                assert(taken[m][i] == lists[k][i + 1]);
            } else {
                assert(taken[m][i] == lists[m][i]);
            }
        }
        lemma_merged_not_before(taken, merged.drop_first(), clk);
        assert forall|i: int| 0 <= i < merged.len() implies clk <= (#[trigger] merged[i]).at() by {
            if i > 0 {
                assert(merged[i] == merged.drop_first()[i - 1]);
            } else {
                assert(lists[k][0].at() >= clk);
            }
        }
    }
}

/// Merging lists that are ordered by clock cycle gives a list that is ordered by clock cycle.
pub proof fn law_merge_is_ordered(lists: Seq<Seq<MemoryAccess>>, merged: Seq<MemoryAccess>)
    requires
        merges(lists, merged),
        forall|k: int| 0 <= k < lists.len() ==> ordered(#[trigger] lists[k]),
    ensures
        ordered(merged),
    decreases merged.len(),
{
    if merged.len() > 0 {
        let k = choose|k: int|
            {
                &&& comes_first(lists, k)
                &&& merged[0] == lists[k][0]
                &&& merges(#[trigger] first_taken(lists, k), merged.drop_first())
            };
        let taken = first_taken(lists, k);
        let rest = merged.drop_first();
        assert forall|m: int| 0 <= m < taken.len() implies ordered(#[trigger] taken[m]) by {
            assert(ordered(lists[m]));
            if m == k {
                assert forall|i: int, j: int| 0 <= i <= j < taken[m].len() implies (
                #[trigger] taken[m][i]).at() <= (#[trigger] taken[m][j]).at() by {
                    assert(taken[m][i] == lists[m][i + 1] && taken[m][j] == lists[m][j + 1]);
                }
            }
        }
        law_merge_is_ordered(taken, rest);
        let clk = merged[0].at() as int;
        assert forall|m: int, i: int|
            0 <= m < taken.len() && 0 <= i < taken[m].len() implies clk <= (
        #[trigger] taken[m][i]).at() by {
            assert(ordered(lists[m]));
            assert(lists[m].len() > 0);
            assert(lists[k][0].at() <= lists[m][0].at());
            if m == k {
                assert(taken[m][i] == lists[m][i + 1]);
            } else {
                assert(taken[m][i] == lists[m][i]);
            }
        }
        lemma_merged_not_before(taken, rest, clk);
        assert forall|i: int, j: int| 0 <= i <= j < merged.len() implies (
        #[trigger] merged[i]).at() <= (#[trigger] merged[j]).at() by {
            if i > 0 {
                assert(merged[i] == rest[i - 1] && merged[j] == rest[j - 1]);
            } else if j > 0 {
                assert(merged[j] == rest[j - 1]);
            }
        }
    }
}

// CHIPLETS

/// A request to a chiplet.
#[verifier::ext_equal]
pub enum ChipletRequest {
    /// A request to the hasher.
    Hasher(HasherOpModel),
    /// A request to compute a bitwise operation.
    Bitwise(BitwiseOp, Felt, Felt),
    /// An access to memory.
    Memory(MemoryAccess),
    /// An evaluation of a circuit, with its clock cycle.
    Ace(RowIndex, CircuitModel),
    /// A call of a kernel procedure.
    Kernel(Word),
}

/// The chiplets, to which the requests made during execution are put again.
///
/// The chiplets are a state machine: every method stands for a request, and an implementation says
/// which requests it accepts in which state and what state they lead to.
pub trait ChipletsInterface: Sized {
    /// The state of the chiplets.
    type State;

    spec fn state(&self) -> Self::State;

    /// Whether the chiplets accept a request.
    spec fn allows(s: Self::State, request: ChipletRequest) -> bool;

    /// The state after a request that the chiplets accept.
    spec fn after(s: Self::State, request: ChipletRequest) -> Self::State;

    /// Applies the permutation to a state.
    fn permute(&mut self, state: [Felt; 12])
        requires
            Self::allows(
                old(self).state(),
                ChipletRequest::Hasher(HasherOpModel::Permute(state)),
            ),
        ensures
            final(self).state() == Self::after(
                old(self).state(),
                ChipletRequest::Hasher(HasherOpModel::Permute(state)),
            ),
    ;

    /// Hashes two words in a domain.
    fn hash_control_block(&mut self, h1: Word, h2: Word, domain: Felt, expected_hash: Word)
        requires
            Self::allows(
                old(self).state(),
                ChipletRequest::Hasher(
                    HasherOpModel::HashControlBlock(h1, h2, domain, expected_hash),
                ),
            ),
        ensures
            final(self).state() == Self::after(
                old(self).state(),
                ChipletRequest::Hasher(
                    HasherOpModel::HashControlBlock(h1, h2, domain, expected_hash),
                ),
            ),
    ;

    /// Hashes batches of operations.
    fn hash_basic_block(&mut self, op_batches: &Vec<OpBatch>, expected_hash: Word)
        requires
            Self::allows(
                old(self).state(),
                ChipletRequest::Hasher(
                    HasherOpModel::HashBasicBlock(batch_models(op_batches@), expected_hash),
                ),
            ),
        ensures
            final(self).state() == Self::after(
                old(self).state(),
                ChipletRequest::Hasher(
                    HasherOpModel::HashBasicBlock(batch_models(op_batches@), expected_hash),
                ),
            ),
    ;

    /// Computes a Merkle root.
    fn build_merkle_root(&mut self, value: Word, path: &MerklePath, index: Felt)
        requires
            Self::allows(
                old(self).state(),
                ChipletRequest::Hasher(HasherOpModel::BuildMerkleRoot(value, path@, index)),
            ),
        ensures
            final(self).state() == Self::after(
                old(self).state(),
                ChipletRequest::Hasher(HasherOpModel::BuildMerkleRoot(value, path@, index)),
            ),
    ;

    /// Computes the Merkle roots before and after a change.
    fn update_merkle_root(
        &mut self,
        old_value: Word,
        new_value: Word,
        path: &MerklePath,
        index: Felt,
    )
        requires
            Self::allows(
                old(self).state(),
                ChipletRequest::Hasher(
                    HasherOpModel::UpdateMerkleRoot(old_value, new_value, path@, index),
                ),
            ),
        ensures
            final(self).state() == Self::after(
                old(self).state(),
                ChipletRequest::Hasher(
                    HasherOpModel::UpdateMerkleRoot(old_value, new_value, path@, index),
                ),
            ),
    ;

    /// Computes a bitwise AND.
    fn u32and(&mut self, a: Felt, b: Felt)
        requires
            Self::allows(old(self).state(), ChipletRequest::Bitwise(BitwiseOp::U32And, a, b)),
        ensures
            final(self).state() == Self::after(
                old(self).state(),
                ChipletRequest::Bitwise(BitwiseOp::U32And, a, b),
            ),
    ;

    /// Computes a bitwise XOR.
    fn u32xor(&mut self, a: Felt, b: Felt)
        requires
            Self::allows(old(self).state(), ChipletRequest::Bitwise(BitwiseOp::U32Xor, a, b)),
        ensures
            final(self).state() == Self::after(
                old(self).state(),
                ChipletRequest::Bitwise(BitwiseOp::U32Xor, a, b),
            ),
    ;

    /// Reads an element from memory.
    fn read(&mut self, ctx: ContextId, addr: Felt, clk: RowIndex)
        requires
            Self::allows(
                old(self).state(),
                ChipletRequest::Memory(MemoryAccess::ReadElement(addr, ctx, clk)),
            ),
        ensures
            final(self).state() == Self::after(
                old(self).state(),
                ChipletRequest::Memory(MemoryAccess::ReadElement(addr, ctx, clk)),
            ),
    ;

    /// Writes an element to memory.
    fn write(&mut self, ctx: ContextId, addr: Felt, clk: RowIndex, element: Felt)
        requires
            Self::allows(
                old(self).state(),
                ChipletRequest::Memory(MemoryAccess::WriteElement(addr, element, ctx, clk)),
            ),
        ensures
            final(self).state() == Self::after(
                old(self).state(),
                ChipletRequest::Memory(MemoryAccess::WriteElement(addr, element, ctx, clk)),
            ),
    ;

    /// Reads a word from memory.
    fn read_word(&mut self, ctx: ContextId, addr: Felt, clk: RowIndex)
        requires
            Self::allows(
                old(self).state(),
                ChipletRequest::Memory(MemoryAccess::ReadWord(addr, ctx, clk)),
            ),
        ensures
            final(self).state() == Self::after(
                old(self).state(),
                ChipletRequest::Memory(MemoryAccess::ReadWord(addr, ctx, clk)),
            ),
    ;

    /// Writes a word to memory.
    fn write_word(&mut self, ctx: ContextId, addr: Felt, clk: RowIndex, word: Word)
        requires
            Self::allows(
                old(self).state(),
                ChipletRequest::Memory(MemoryAccess::WriteWord(addr, word, ctx, clk)),
            ),
        ensures
            final(self).state() == Self::after(
                old(self).state(),
                ChipletRequest::Memory(MemoryAccess::WriteWord(addr, word, ctx, clk)),
            ),
    ;

    /// Takes over the evaluation of a circuit.
    fn add_circuit_evaluation(&mut self, clk: RowIndex, circuit_eval: CircuitEvaluation)
        requires
            Self::allows(old(self).state(), ChipletRequest::Ace(clk, circuit_eval@)),
        ensures
            final(self).state() == Self::after(
                old(self).state(),
                ChipletRequest::Ace(clk, circuit_eval@),
            ),
    ;

    /// Looks up a kernel procedure.
    fn access_proc(&mut self, proc_hash: Word)
        requires
            Self::allows(old(self).state(), ChipletRequest::Kernel(proc_hash)),
        ensures
            final(self).state() == Self::after(
                old(self).state(),
                ChipletRequest::Kernel(proc_hash),
            ),
    ;
}

/// The state after a number of requests, if the chiplets accept all of them.
pub open spec fn requested<C: ChipletsInterface>(
    s: C::State,
    requests: Seq<ChipletRequest>,
) -> Option<C::State>
    decreases requests.len(),
{
    if requests.len() == 0 {
        Some(s)
    } else {
        match requested::<C>(s, requests.drop_last()) {
            Some(t) if C::allows(t, requests.last()) => Some(C::after(t, requests.last())),
            _ => None,
        }
    }
}

/// Requests after others lead where they lead from the state that the others lead to.
pub proof fn lemma_requested_in_sequence<C: ChipletsInterface>(
    s: C::State,
    first: Seq<ChipletRequest>,
    second: Seq<ChipletRequest>,
)
    ensures
        requested::<C>(s, first + second) == match requested::<C>(s, first) {
            Some(t) => requested::<C>(t, second),
            None => None,
        },
    decreases second.len(),
{
    if second.len() == 0 {
        assert(first + second =~= first);
    } else {
        assert((first + second).drop_last() =~= first + second.drop_last());
        assert((first + second).last() == second.last());
        lemma_requested_in_sequence::<C>(s, first, second.drop_last());
    }
}

/// Requests that are all accepted are accepted one after the other.
proof fn lemma_requested_step<C: ChipletsInterface>(
    s: C::State,
    requests: Seq<ChipletRequest>,
    i: int,
)
    requires
        0 <= i < requests.len(),
        requested::<C>(s, requests) is Some,
    ensures
        requested::<C>(s, requests.take(i)) matches Some(t) && C::allows(t, requests[i])
            && requested::<C>(s, requests.take(i + 1)) == Some(C::after(t, requests[i])),
    decreases requests.len() - i,
{
    let next = requests.take(i + 1);
    assert(next.drop_last() =~= requests.take(i));
    assert(next.last() == requests[i]);
    if i + 1 == requests.len() {
        assert(next =~= requests);
    } else {
        lemma_requested_step::<C>(s, requests, i + 1);
    }
}

/// The requests to the hasher.
pub open spec fn hasher_requests(ops: Seq<HasherOpModel>) -> Seq<ChipletRequest> {
    ops.map_values(|op: HasherOpModel| ChipletRequest::Hasher(op))
}

/// The requests to compute bitwise operations.
pub open spec fn bitwise_requests(ops: Seq<(BitwiseOp, Felt, Felt)>) -> Seq<ChipletRequest> {
    ops.map_values(|op: (BitwiseOp, Felt, Felt)| ChipletRequest::Bitwise(op.0, op.1, op.2))
}

/// The requests to access memory.
pub open spec fn memory_requests(accesses: Seq<MemoryAccess>) -> Seq<ChipletRequest> {
    accesses.map_values(|access: MemoryAccess| ChipletRequest::Memory(access))
}

/// The requests to take over evaluations of circuits.
pub open spec fn ace_requests(evaluations: Seq<(RowIndex, CircuitModel)>) -> Seq<ChipletRequest> {
    evaluations.map_values(|e: (RowIndex, CircuitModel)| ChipletRequest::Ace(e.0, e.1))
}

/// The requests to look up kernel procedures.
pub open spec fn kernel_requests(accesses: Seq<Word>) -> Seq<ChipletRequest> {
    accesses.map_values(|hash: Word| ChipletRequest::Kernel(hash))
}

/// All requests, in the order in which they are put to the chiplets.
pub open spec fn all_requests(
    hasher: Seq<HasherOpModel>,
    bitwise: Seq<(BitwiseOp, Felt, Felt)>,
    memory: Seq<MemoryAccess>,
    ace: Seq<(RowIndex, CircuitModel)>,
    kernel: Seq<Word>,
) -> Seq<ChipletRequest> {
    hasher_requests(hasher) + bitwise_requests(bitwise) + memory_requests(memory) + ace_requests(
        ace,
    ) + kernel_requests(kernel)
}

fn request_hashes<C: ChipletsInterface>(chiplets: &mut C, requests: VecDeque<HasherOp>)
    requires
        requested::<C>(
            old(chiplets).state(),
            hasher_requests(hasher_op_models(requests@)),
        ) is Some,
    ensures
        Some(final(chiplets).state()) == requested::<C>(
            old(chiplets).state(),
            hasher_requests(hasher_op_models(requests@)),
        ),
{
    let ghost start = chiplets.state();
    let ghost all = hasher_requests(hasher_op_models(requests@));
    let ghost mut done: int = 0;
    let mut left = requests;
    assert(all.take(0) =~= Seq::empty());
    loop
        invariant
            0 <= done <= all.len(),
            all == hasher_requests(hasher_op_models(requests@)),
            start == old(chiplets).state(),
            left@ == requests@.skip(done),
            requested::<C>(start, all) is Some,
            Some(chiplets.state()) == requested::<C>(start, all.take(done)),
        decreases left@.len(),
    {
        let ghost before = left@;
        match left.pop_front() {
            None => {
                assert(all.take(done) =~= all);
                return ;
            },
            Some(hasher_op) => {
                proof {
                    lemma_requested_step::<C>(start, all, done);
                    assert(hasher_op == requests@[done]);
                    assert(all[done] == ChipletRequest::Hasher(hasher_op@));
                    assert(left@ =~= requests@.skip(done + 1));
                }
                match hasher_op {
                    HasherOp::Permute(input_state) => {
                        chiplets.permute(input_state);
                    },
                    HasherOp::HashControlBlock((h1, h2, domain, expected_hash)) => {
                        chiplets.hash_control_block(h1, h2, domain, expected_hash);
                    },
                    HasherOp::HashBasicBlock((op_batches, expected_hash)) => {
                        chiplets.hash_basic_block(&op_batches, expected_hash);
                    },
                    HasherOp::BuildMerkleRoot((value, path, index)) => {
                        chiplets.build_merkle_root(value, &path, index);
                    },
                    HasherOp::UpdateMerkleRoot((old_value, new_value, path, index)) => {
                        chiplets.update_merkle_root(old_value, new_value, &path, index);
                    },
                }
                proof {
                    done = done + 1;
                }
            },
        }
    }
}

fn request_bitwise<C: ChipletsInterface>(
    chiplets: &mut C,
    requests: VecDeque<(BitwiseOp, Felt, Felt)>,
)
    requires
        requested::<C>(old(chiplets).state(), bitwise_requests(requests@)) is Some,
    ensures
        Some(final(chiplets).state()) == requested::<C>(
            old(chiplets).state(),
            bitwise_requests(requests@),
        ),
{
    let ghost start = chiplets.state();
    let ghost all = bitwise_requests(requests@);
    assert(all.take(0) =~= Seq::empty());
    for i in 0..requests.len()
        invariant
            all == bitwise_requests(requests@),
            requested::<C>(start, all) is Some,
            Some(chiplets.state()) == requested::<C>(start, all.take(i as int)),
    {
        proof {
            lemma_requested_step::<C>(start, all, i as int);
        }
        let (bitwise_op, a, b) = requests[i];
        match bitwise_op {
            BitwiseOp::U32And => {
                chiplets.u32and(a, b);
            },
            BitwiseOp::U32Xor => {
                chiplets.u32xor(a, b);
            },
        }
    }
    assert(all.take(requests@.len() as int) =~= all);
}

fn request_memory<C: ChipletsInterface>(chiplets: &mut C, requests: Vec<MemoryAccess>)
    requires
        requested::<C>(old(chiplets).state(), memory_requests(requests@)) is Some,
    ensures
        Some(final(chiplets).state()) == requested::<C>(
            old(chiplets).state(),
            memory_requests(requests@),
        ),
{
    let ghost start = chiplets.state();
    let ghost all = memory_requests(requests@);
    assert(all.take(0) =~= Seq::empty());
    for i in 0..requests.len()
        invariant
            all == memory_requests(requests@),
            requested::<C>(start, all) is Some,
            Some(chiplets.state()) == requested::<C>(start, all.take(i as int)),
    {
        proof {
            lemma_requested_step::<C>(start, all, i as int);
        }
        match requests[i] {
            MemoryAccess::ReadElement(addr, ctx, clk) => {
                chiplets.read(ctx, addr, clk);
            },
            MemoryAccess::WriteElement(addr, element, ctx, clk) => {
                chiplets.write(ctx, addr, clk, element);
            },
            MemoryAccess::ReadWord(addr, ctx, clk) => {
                chiplets.read_word(ctx, addr, clk);
            },
            MemoryAccess::WriteWord(addr, word, ctx, clk) => {
                chiplets.write_word(ctx, addr, clk, word);
            },
        }
    }
    assert(all.take(requests@.len() as int) =~= all);
}

fn request_circuits<C: ChipletsInterface>(
    chiplets: &mut C,
    requests: VecDeque<(RowIndex, CircuitEvaluation)>,
)
    requires
        requested::<C>(old(chiplets).state(), ace_requests(circuit_models(requests@))) is Some,
    ensures
        Some(final(chiplets).state()) == requested::<C>(
            old(chiplets).state(),
            ace_requests(circuit_models(requests@)),
        ),
{
    let ghost start = chiplets.state();
    let ghost all = ace_requests(circuit_models(requests@));
    let ghost mut done: int = 0;
    let mut left = requests;
    assert(all.take(0) =~= Seq::empty());
    loop
        invariant
            0 <= done <= all.len(),
            all == ace_requests(circuit_models(requests@)),
            start == old(chiplets).state(),
            left@ == requests@.skip(done),
            requested::<C>(start, all) is Some,
            Some(chiplets.state()) == requested::<C>(start, all.take(done)),
        decreases left@.len(),
    {
        match left.pop_front() {
            None => {
                assert(all.take(done) =~= all);
                return ;
            },
            Some((clk, circuit_eval)) => {
                proof {
                    lemma_requested_step::<C>(start, all, done);
                    assert((clk, circuit_eval) == requests@[done]);
                    assert(left@ =~= requests@.skip(done + 1));
                }
                chiplets.add_circuit_evaluation(clk, circuit_eval);
                proof {
                    done = done + 1;
                }
            },
        }
    }
}

fn request_kernel_procs<C: ChipletsInterface>(chiplets: &mut C, requests: VecDeque<Word>)
    requires
        requested::<C>(old(chiplets).state(), kernel_requests(requests@)) is Some,
    ensures
        Some(final(chiplets).state()) == requested::<C>(
            old(chiplets).state(),
            kernel_requests(requests@),
        ),
{
    let ghost start = chiplets.state();
    let ghost all = kernel_requests(requests@);
    assert(all.take(0) =~= Seq::empty());
    for i in 0..requests.len()
        invariant
            all == kernel_requests(requests@),
            requested::<C>(start, all) is Some,
            Some(chiplets.state()) == requested::<C>(start, all.take(i as int)),
    {
        proof {
            lemma_requested_step::<C>(start, all, i as int);
        }
        chiplets.access_proc(requests[i]);
    }
    assert(all.take(requests@.len() as int) =~= all);
}

fn collect_elements_written(memory_writes: &MemoryWritesReplay) -> (r: Vec<MemoryAccess>)
    ensures
        r@ == elements_written(memory_writes@),
{
    let entries = memory_writes.iter_elements_written();
    let mut r: Vec<MemoryAccess> = Vec::new();
    for i in 0..entries.len()
        invariant
            entries@ == memory_writes@.elements,
            r@ == elements_written(memory_writes@).take(i as int),
    {
        let (element, addr, ctx, clk) = entries[i];
        r.push(MemoryAccess::WriteElement(addr, element, ctx, clk));
        assert(r@ =~= elements_written(memory_writes@).take(i as int + 1));
    }
    assert(r@ =~= elements_written(memory_writes@));
    r
}

fn collect_words_written(memory_writes: &MemoryWritesReplay) -> (r: Vec<MemoryAccess>)
    ensures
        r@ == words_written(memory_writes@),
{
    let entries = memory_writes.iter_words_written();
    let mut r: Vec<MemoryAccess> = Vec::new();
    for i in 0..entries.len()
        invariant
            entries@ == memory_writes@.words,
            r@ == words_written(memory_writes@).take(i as int),
    {
        let (word, addr, ctx, clk) = entries[i];
        r.push(MemoryAccess::WriteWord(addr, word, ctx, clk));
        assert(r@ =~= words_written(memory_writes@).take(i as int + 1));
    }
    assert(r@ =~= words_written(memory_writes@));
    r
}

fn collect_elements_read(contexts: &Vec<CoreTraceFragmentContext>) -> (r: Vec<MemoryAccess>)
    ensures
        r@ == elements_read(context_models(contexts@)),
{
    let ghost models = context_models(contexts@);
    let mut r: Vec<MemoryAccess> = Vec::new();
    for k in 0..contexts.len()
        invariant
            models == context_models(contexts@),
            r@ == elements_read(models.take(k as int)),
    {
        let entries = contexts[k].replay.memory_reads.iter_read_elements();
        let ghost before = r@;
        let ghost reads = contexts@[k as int].replay.memory_reads@;
        for i in 0..entries.len()
            invariant
                entries@ == reads.elements,
                r@ == before + fragment_elements_read(reads).take(i as int),
        {
            let (_, addr, ctx, clk) = entries[i];
            r.push(MemoryAccess::ReadElement(addr, ctx, clk));
            assert(r@ =~= before + fragment_elements_read(reads).take(i as int + 1));
        }
        proof {
            assert(fragment_elements_read(reads).take(entries@.len() as int)
                =~= fragment_elements_read(reads));
            assert(models.take(k as int + 1).drop_last() =~= models.take(k as int));
            assert(models.take(k as int + 1).last() == contexts@[k as int]@);
        }
    }
    assert(models.take(contexts@.len() as int) =~= models);
    r
}

fn collect_words_read(contexts: &Vec<CoreTraceFragmentContext>) -> (r: Vec<MemoryAccess>)
    ensures
        r@ == words_read(context_models(contexts@)),
{
    let ghost models = context_models(contexts@);
    let mut r: Vec<MemoryAccess> = Vec::new();
    for k in 0..contexts.len()
        invariant
            models == context_models(contexts@),
            r@ == words_read(models.take(k as int)),
    {
        let entries = contexts[k].replay.memory_reads.iter_read_words();
        let ghost before = r@;
        let ghost reads = contexts@[k as int].replay.memory_reads@;
        for i in 0..entries.len()
            invariant
                entries@ == reads.words,
                r@ == before + fragment_words_read(reads).take(i as int),
        {
            let (_, addr, ctx, clk) = entries[i];
            r.push(MemoryAccess::ReadWord(addr, ctx, clk));
            assert(r@ =~= before + fragment_words_read(reads).take(i as int + 1));
        }
        proof {
            assert(fragment_words_read(reads).take(entries@.len() as int) =~= fragment_words_read(
                reads,
            ));
            assert(models.take(k as int + 1).drop_last() =~= models.take(k as int));
            assert(models.take(k as int + 1).last() == contexts@[k as int]@);
        }
    }
    assert(models.take(contexts@.len() as int) =~= models);
    r
}

/// Whether the chiplets accept all requests, in whatever order accesses to memory of one clock
/// cycle come.
pub open spec fn accepts_all<C: ChipletsInterface>(
    s: C::State,
    lists: Seq<Seq<MemoryAccess>>,
    hasher: Seq<HasherOpModel>,
    bitwise: Seq<(BitwiseOp, Felt, Felt)>,
    ace: Seq<(RowIndex, CircuitModel)>,
    kernel: Seq<Word>,
) -> bool {
    forall|memory: Seq<MemoryAccess>| #[trigger]
        merges(lists, memory) ==> requested::<C>(
            s,
            all_requests(hasher, bitwise, memory, ace, kernel),
        ) is Some
}

/// Whether a state is one that all requests lead to, with the accesses to memory in the order of
/// their clock cycles.
pub open spec fn all_put<C: ChipletsInterface>(
    s: C::State,
    t: C::State,
    lists: Seq<Seq<MemoryAccess>>,
    hasher: Seq<HasherOpModel>,
    bitwise: Seq<(BitwiseOp, Felt, Felt)>,
    ace: Seq<(RowIndex, CircuitModel)>,
    kernel: Seq<Word>,
) -> bool {
    exists|memory: Seq<MemoryAccess>| #[trigger]
        merges(lists, memory) && requested::<C>(
            s,
            all_requests(hasher, bitwise, memory, ace, kernel),
        ) == Some(t)
}

/// Puts all requests that were recorded to the chiplets. The accesses to memory, recorded in four
/// lists, are put in the order of their clock cycles.
pub fn initialize_chiplets<C: ChipletsInterface>(
    chiplets: C,
    core_trace_contexts: &Vec<CoreTraceFragmentContext>,
    memory_writes: MemoryWritesReplay,
    bitwise: BitwiseReplay,
    kernel_replay: KernelReplay,
    hasher_for_chiplet: HasherRequestReplay,
    ace_replay: AceReplay,
) -> (r: C)
    requires
        accepts_all::<C>(
            chiplets.state(),
            recorded_accesses(context_models(core_trace_contexts@), memory_writes@),
            hasher_for_chiplet@,
            bitwise@,
            ace_replay@,
            kernel_replay@,
        ),
    ensures
        all_put::<C>(
            chiplets.state(),
            r.state(),
            recorded_accesses(context_models(core_trace_contexts@), memory_writes@),
            hasher_for_chiplet@,
            bitwise@,
            ace_replay@,
            kernel_replay@,
        ),
{
    let mut lists: Vec<Vec<MemoryAccess>> = Vec::new();
    lists.push(collect_elements_written(&memory_writes));
    lists.push(collect_words_written(&memory_writes));
    lists.push(collect_elements_read(core_trace_contexts));
    lists.push(collect_words_read(core_trace_contexts));
    let ghost recorded = recorded_accesses(
        context_models(core_trace_contexts@),
        memory_writes@,
    );
    assert(access_lists(lists@) =~= recorded);
    let memory = merge_by_clk(lists);

    let ghost (h, b, m, a, k) = (
        hasher_requests(hasher_for_chiplet@),
        bitwise_requests(bitwise@),
        memory_requests(memory@),
        ace_requests(ace_replay@),
        kernel_requests(kernel_replay@),
    );
    let mut chiplets = chiplets;
    proof {
        let s = chiplets.state();
        assert(merges(recorded, memory@));
        lemma_requested_in_sequence::<C>(s, h + b + m + a, k);
        lemma_requested_in_sequence::<C>(s, h + b + m, a);
        lemma_requested_in_sequence::<C>(s, h + b, m);
        lemma_requested_in_sequence::<C>(s, h, b);
    }
    request_hashes(&mut chiplets, hasher_for_chiplet.into_entries());
    request_bitwise(&mut chiplets, bitwise.into_entries());
    request_memory(&mut chiplets, memory);
    request_circuits(&mut chiplets, ace_replay.into_entries());
    request_kernel_procs(&mut chiplets, kernel_replay.into_entries());
    chiplets
}

/// A list of the requests that were put to the chiplets.
#[derive(Debug)]
pub struct RequestLog {
    /// The requests to the hasher.
    pub hasher: Vec<HasherOp>,
    /// The bitwise operations and their operands.
    pub bitwise: Vec<(BitwiseOp, Felt, Felt)>,
    /// The accesses to memory.
    pub memory: Vec<MemoryAccess>,
    /// The evaluations of circuits and their clock cycles.
    pub ace: Vec<(RowIndex, CircuitEvaluation)>,
    /// The kernel procedures that were called.
    pub kernel: Vec<Word>,
}

/// What a list of requests holds.
#[verifier::ext_equal]
pub struct RequestLogModel {
    pub hasher: Seq<HasherOpModel>,
    pub bitwise: Seq<(BitwiseOp, Felt, Felt)>,
    pub memory: Seq<MemoryAccess>,
    pub ace: Seq<(RowIndex, CircuitModel)>,
    pub kernel: Seq<Word>,
}

impl View for RequestLog {
    type V = RequestLogModel;

    open spec fn view(&self) -> RequestLogModel {
        RequestLogModel {
            hasher: hasher_op_models(self.hasher@),
            bitwise: self.bitwise@,
            memory: self.memory@,
            ace: circuit_models(self.ace@),
            kernel: self.kernel@,
        }
    }
}

impl RequestLog {
    /// An empty list.
    pub fn new() -> (r: Self)
        ensures
            r@ == (RequestLogModel {
                hasher: Seq::empty(),
                bitwise: Seq::empty(),
                memory: Seq::empty(),
                ace: Seq::empty(),
                kernel: Seq::empty(),
            }),
    {
        RequestLog {
            hasher: Vec::new(),
            bitwise: Vec::new(),
            memory: Vec::new(),
            ace: Vec::new(),
            kernel: Vec::new(),
        }
    }
}

impl ChipletsInterface for RequestLog {
    type State = RequestLogModel;

    open spec fn state(&self) -> RequestLogModel {
        self@
    }

    open spec fn allows(s: RequestLogModel, request: ChipletRequest) -> bool {
        true
    }

    open spec fn after(s: RequestLogModel, request: ChipletRequest) -> RequestLogModel {
        match request {
            ChipletRequest::Hasher(op) => RequestLogModel { hasher: s.hasher.push(op), ..s },
            ChipletRequest::Bitwise(op, a, b) => RequestLogModel {
                bitwise: s.bitwise.push((op, a, b)),
                ..s
            },
            ChipletRequest::Memory(access) => RequestLogModel {
                memory: s.memory.push(access),
                ..s
            },
            ChipletRequest::Ace(clk, circuit) => RequestLogModel {
                ace: s.ace.push((clk, circuit)),
                ..s
            },
            ChipletRequest::Kernel(hash) => RequestLogModel { kernel: s.kernel.push(hash), ..s },
        }
    }

    fn permute(&mut self, state: [Felt; 12]) {
        self.hasher.push(HasherOp::Permute(state));
        assert(self@ =~= Self::after(
            old(self)@,
            ChipletRequest::Hasher(HasherOpModel::Permute(state)),
        ));
    }

    fn hash_control_block(&mut self, h1: Word, h2: Word, domain: Felt, expected_hash: Word)
        ensures
            final(self)@.hasher.last() == HasherOpModel::HashControlBlock(
                h1,
                h2,
                domain,
                expected_hash,
            ),
    {
        self.hasher.push(HasherOp::HashControlBlock((h1, h2, domain, expected_hash)));
        let ghost request = HasherOpModel::HashControlBlock(h1, h2, domain, expected_hash);
        assert(self@ =~= Self::after(old(self)@, ChipletRequest::Hasher(request)));
    }

    fn hash_basic_block(&mut self, op_batches: &Vec<OpBatch>, expected_hash: Word) {
        self.hasher.push(HasherOp::HashBasicBlock((duplicate_batches(op_batches), expected_hash)));
        let ghost request = HasherOpModel::HashBasicBlock(batch_models(op_batches@), expected_hash);
        assert(self@ =~= Self::after(old(self)@, ChipletRequest::Hasher(request)));
    }

    fn build_merkle_root(&mut self, value: Word, path: &MerklePath, index: Felt)
        ensures
            final(self)@.hasher.last() == HasherOpModel::BuildMerkleRoot(value, path@, index),
    {
        self.hasher.push(HasherOp::BuildMerkleRoot((value, path.duplicate(), index)));
        let ghost request = HasherOpModel::BuildMerkleRoot(value, path@, index);
        assert(self@ =~= Self::after(old(self)@, ChipletRequest::Hasher(request)));
    }

    fn update_merkle_root(
        &mut self,
        old_value: Word,
        new_value: Word,
        path: &MerklePath,
        index: Felt,
    )
        ensures
            final(self)@.hasher.last() == HasherOpModel::UpdateMerkleRoot(
                old_value,
                new_value,
                path@,
                index,
            ),
    {
        self.hasher.push(
            HasherOp::UpdateMerkleRoot((old_value, new_value, path.duplicate(), index)),
        );
        let ghost request = HasherOpModel::UpdateMerkleRoot(old_value, new_value, path@, index);
        assert(self@ =~= Self::after(old(self)@, ChipletRequest::Hasher(request)));
    }

    fn u32and(&mut self, a: Felt, b: Felt)
        ensures
            final(self)@.bitwise.last() == (BitwiseOp::U32And, a, b),
    {
        self.bitwise.push((BitwiseOp::U32And, a, b));
    }

    fn u32xor(&mut self, a: Felt, b: Felt)
        ensures
            final(self)@.bitwise.last() == (BitwiseOp::U32Xor, a, b),
    {
        self.bitwise.push((BitwiseOp::U32Xor, a, b));
    }

    fn read(&mut self, ctx: ContextId, addr: Felt, clk: RowIndex)
        ensures
            final(self)@.memory.last() == MemoryAccess::ReadElement(addr, ctx, clk),
    {
        self.memory.push(MemoryAccess::ReadElement(addr, ctx, clk));
    }

    fn write(&mut self, ctx: ContextId, addr: Felt, clk: RowIndex, element: Felt)
        ensures
            final(self)@.memory.last() == MemoryAccess::WriteElement(addr, element, ctx, clk),
    {
        self.memory.push(MemoryAccess::WriteElement(addr, element, ctx, clk));
    }

    fn read_word(&mut self, ctx: ContextId, addr: Felt, clk: RowIndex)
        ensures
            final(self)@.memory.last() == MemoryAccess::ReadWord(addr, ctx, clk),
    {
        self.memory.push(MemoryAccess::ReadWord(addr, ctx, clk));
    }

    fn write_word(&mut self, ctx: ContextId, addr: Felt, clk: RowIndex, word: Word)
        ensures
            final(self)@.memory.last() == MemoryAccess::WriteWord(addr, word, ctx, clk),
    {
        self.memory.push(MemoryAccess::WriteWord(addr, word, ctx, clk));
    }

    fn add_circuit_evaluation(&mut self, clk: RowIndex, circuit_eval: CircuitEvaluation) {
        self.ace.push((clk, circuit_eval));
        assert(self@ =~= Self::after(old(self)@, ChipletRequest::Ace(clk, circuit_eval@)));
    }

    fn access_proc(&mut self, proc_hash: Word) {
        self.kernel.push(proc_hash);
    }
}

// RANGE CHECKER

/// The 16-bit values that are range-checked, with the clock cycles of the checks.
#[derive(Debug)]
pub struct RangeChecker {
    /// The limbs that operations on 32-bit values check.
    pub u32_checks: VecDeque<(RowIndex, [u16; 4])>,
    /// The limbs that accesses to memory check.
    pub memory_checks: Vec<(RowIndex, [u16; 2])>,
}

/// Gathers the range checks: those recorded during execution, and those that the accesses to
/// memory need, which come after.
pub fn initialize_range_checker(
    range_checker_replay: RangeCheckerReplay,
    memory_checks: Vec<(RowIndex, [u16; 2])>,
) -> (r: RangeChecker)
    ensures
        r.u32_checks@ == range_checker_replay@,
        r.memory_checks@ == memory_checks@,
{
    RangeChecker { u32_checks: range_checker_replay.into_entries(), memory_checks }
}

} // verus!
