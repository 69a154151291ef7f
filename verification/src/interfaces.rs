//! What an executor of operations needs from the memory, the advice provider and the hasher.
//!
//! The answers that an executor goes by are functions of the state of the component, which an
//! implementation defines; [`crate::trace_state`] implements the traits by replaying what was
//! recorded. What a write does, and whether there is a Merkle path, is left to the implementation.

use crate::context::ContextId;
use crate::context::RowIndex;
use crate::errors::AdviceError;
use crate::errors::ExecutionError;
use crate::errors::MemoryError;
use crate::felt::Felt;
use crate::mast::MerklePath;
use crate::word::Word;
use vstd::prelude::*;

verus! {

/// Reads from and writes to the memory.
pub trait MemoryInterface: Sized {
    /// What the answers of the memory depend on.
    type State;

    spec fn state(&self) -> Self::State;

    /// Whether an element can be read.
    spec fn can_read_element(s: Self::State, addr: Felt) -> bool;

    /// The element that is read.
    spec fn element_read(s: Self::State, addr: Felt) -> Felt;

    /// The state once the element has been read.
    spec fn after_element_read(s: Self::State, addr: Felt) -> Self::State;

    /// Whether a word can be read.
    spec fn can_read_word(s: Self::State, addr: Felt) -> bool;

    /// The word that is read.
    spec fn word_read(s: Self::State, addr: Felt) -> Word;

    /// The state once the word has been read.
    spec fn after_word_read(s: Self::State, addr: Felt) -> Self::State;

    /// Reads an element.
    fn read_element(&mut self, ctx: ContextId, addr: Felt) -> (r: Result<Felt, MemoryError>)
        requires
            Self::can_read_element(old(self).state(), addr),
        ensures
            r matches Ok(v) && v == Self::element_read(old(self).state(), addr),
            final(self).state() == Self::after_element_read(old(self).state(), addr),
    ;

    /// Reads a word.
    fn read_word(&mut self, ctx: ContextId, addr: Felt, clk: RowIndex) -> (r: Result<
        Word,
        MemoryError,
    >)
        requires
            Self::can_read_word(old(self).state(), addr),
        ensures
            r matches Ok(v) && v == Self::word_read(old(self).state(), addr),
            final(self).state() == Self::after_word_read(old(self).state(), addr),
    ;

    /// Writes an element.
    fn write_element(&mut self, ctx: ContextId, addr: Felt, element: Felt) -> Result<
        (),
        MemoryError,
    >;

    /// Writes a word.
    fn write_word(&mut self, ctx: ContextId, addr: Felt, clk: RowIndex, word: Word) -> Result<
        (),
        MemoryError,
    >;
}

/// Takes values off the advice stack and looks up Merkle paths.
pub trait AdviceProviderInterface: Sized {
    /// What the answers of the advice provider depend on.
    type State;

    spec fn state(&self) -> Self::State;

    /// Whether an element can be popped.
    spec fn can_pop(s: Self::State) -> bool;

    /// The element that is popped, and the state after that.
    spec fn popped(s: Self::State) -> (Felt, Self::State);

    /// Whether a word can be popped.
    spec fn can_pop_word(s: Self::State) -> bool;

    /// The word that is popped, and the state after that.
    spec fn popped_word(s: Self::State) -> (Word, Self::State);

    /// Whether two words can be popped.
    spec fn can_pop_dword(s: Self::State) -> bool;

    /// The words that are popped, and the state after that.
    spec fn popped_dword(s: Self::State) -> ([Word; 2], Self::State);

    /// Pops an element.
    fn pop_stack(&mut self) -> (r: Result<Felt, AdviceError>)
        requires
            Self::can_pop(old(self).state()),
        ensures
            r matches Ok(v) && (v, final(self).state()) == Self::popped(old(self).state()),
    ;

    /// Pops a word.
    fn pop_stack_word(&mut self) -> (r: Result<Word, AdviceError>)
        requires
            Self::can_pop_word(old(self).state()),
        ensures
            r matches Ok(v) && (v, final(self).state()) == Self::popped_word(old(self).state()),
    ;

    /// Pops two words.
    fn pop_stack_dword(&mut self) -> (r: Result<[Word; 2], AdviceError>)
        requires
            Self::can_pop_dword(old(self).state()),
        ensures
            r matches Ok(v) && (v, final(self).state()) == Self::popped_dword(old(self).state()),
    ;

    /// The Merkle path to a node, if the advice provider has paths at all.
    fn get_merkle_path(&self, root: Word, depth: &Felt, index: &Felt) -> Result<
        Option<MerklePath>,
        AdviceError,
    >;

    /// Updates a node and returns the Merkle path to it, if the advice provider has paths at all.
    fn update_merkle_node(
        &mut self,
        root: Word,
        depth: &Felt,
        index: &Felt,
        value: Word,
    ) -> Result<Option<MerklePath>, AdviceError>;
}

/// Applies the hash permutation and checks Merkle paths.
pub trait HasherInterface: Sized {
    /// What the answers of the hasher depend on.
    type State;

    spec fn state(&self) -> Self::State;

    /// Whether a permutation can be applied.
    spec fn can_permute(s: Self::State) -> bool;

    /// The address and the result of a permutation, and the state after that.
    spec fn permuted(s: Self::State) -> ((Felt, [Felt; 12]), Self::State);

    /// Whether a Merkle path can be checked.
    spec fn can_verify(s: Self::State) -> bool;

    /// The address of the check and the root it computes, and the state after that.
    spec fn verified(s: Self::State) -> ((Felt, Word), Self::State);

    /// Whether a Merkle root can be updated.
    spec fn can_update(s: Self::State) -> bool;

    /// The address of the update, the root before and the root after it, and the state after that.
    spec fn updated(s: Self::State) -> ((Felt, Word, Word), Self::State);

    /// Applies the permutation; returns the address of its first row and the resulting state.
    fn permute(&mut self, state: [Felt; 12]) -> (r: (Felt, [Felt; 12]))
        requires
            Self::can_permute(old(self).state()),
        ensures
            (r, final(self).state()) == Self::permuted(old(self).state()),
    ;

    /// Checks that a Merkle path leads to the claimed root; the error is that of the caller.
    fn verify_merkle_root<F: FnOnce() -> ExecutionError>(
        &mut self,
        claimed_root: Word,
        value: Word,
        path: Option<&MerklePath>,
        index: Felt,
        on_err: F,
    ) -> (r: Result<Felt, ExecutionError>)
        requires
            Self::can_verify(old(self).state()),
            on_err.requires(()),
        ensures
            final(self).state() == Self::verified(old(self).state()).1,
            ({
                let (addr, root) = Self::verified(old(self).state()).0;
                match r {
                    Ok(a) => claimed_root == root && a == addr,
                    Err(e) => claimed_root != root && on_err.ensures((), e),
                }
            }),
    ;

    /// Updates a node of a Merkle tree with the claimed root and returns the new root; the error
    /// is that of the caller.
    fn update_merkle_root<F: FnOnce() -> ExecutionError>(
        &mut self,
        claimed_old_root: Word,
        old_value: Word,
        new_value: Word,
        path: Option<&MerklePath>,
        index: Felt,
        on_err: F,
    ) -> (r: Result<(Felt, Word), ExecutionError>)
        requires
            Self::can_update(old(self).state()),
            on_err.requires(()),
        ensures
            final(self).state() == Self::updated(old(self).state()).1,
            ({
                let (addr, old_root, new_root) = Self::updated(old(self).state()).0;
                match r {
                    Ok(a) => claimed_old_root == old_root && a == (addr, new_root),
                    Err(e) => claimed_old_root != old_root && on_err.ensures((), e),
                }
            }),
    ;
}

} // verus!
