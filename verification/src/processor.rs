//! What an operation needs from the processor that executes it.
//!
//! To an operation a processor consists of the topmost 16 stack elements and of everything else,
//! its rest. An implementation says how the rest changes and what can be read off it.

use crate::context::ContextId;
use crate::context::RowIndex;
use crate::errors::ExecutionError;
use crate::felt::Felt;
use crate::interfaces::AdviceProviderInterface;
use crate::interfaces::HasherInterface;
use crate::interfaces::MemoryInterface;
use crate::layout::MIN_STACK_DEPTH;
use crate::quad_felt::QuadFelt;
use crate::tracer::allows_told;
use crate::tracer::told;
use crate::tracer::Tracer;
use crate::tracer::TracerEvent;
use crate::word::Word;
use vstd::prelude::*;

verus! {

/// The word whose elements are four consecutive stack elements, the one nearest the top last.
pub open spec fn word_at(items: Seq<Felt>, start_idx: int) -> Word {
    Word {
        e0: items[start_idx + 3],
        e1: items[start_idx + 2],
        e2: items[start_idx + 1],
        e3: items[start_idx],
    }
}

/// The stack elements with four consecutive ones replaced by those of a word.
pub open spec fn with_word_at(items: Seq<Felt>, start_idx: int, word: Word) -> Seq<Felt> {
    items.update(start_idx, word.e3).update(start_idx + 1, word.e2).update(
        start_idx + 2,
        word.e1,
    ).update(start_idx + 3, word.e0)
}

/// The stack elements with two of them exchanged.
pub open spec fn swapped(items: Seq<Felt>, idx1: int, idx2: int) -> Seq<Felt> {
    items.update(idx1, items[idx2]).update(idx2, items[idx1])
}

/// The stack elements with the topmost word and the word `n` below it exchanged.
pub open spec fn words_swapped(items: Seq<Felt>, n: int) -> Seq<Felt> {
    Seq::new(
        items.len(),
        |i: int|
            if 0 <= i < 4 {
                items[i + 4 * n]
            } else if 4 * n <= i < 4 * n + 4 {
                items[i - 4 * n]
            } else {
                items[i]
            },
    )
}

/// The stack elements with the `n`th one moved to the top.
pub open spec fn rotated_left(items: Seq<Felt>, n: int) -> Seq<Felt> {
    Seq::new(
        items.len(),
        |i: int|
            if i == 0 {
                items[n - 1]
            } else if i < n {
                items[i - 1]
            } else {
                items[i]
            },
    )
}

/// The stack elements with the topmost one moved to the `n`th place.
pub open spec fn rotated_right(items: Seq<Felt>, n: int) -> Seq<Felt> {
    Seq::new(
        items.len(),
        |i: int|
            if i < n - 1 {
                items[i + 1]
            } else if i == n - 1 {
                items[0]
            } else {
                items[i]
            },
    )
}

/// The stack of a processor.
pub trait StackInterface: Sized {
    /// Everything but the topmost stack elements.
    type Rest;

    /// The topmost 16 stack elements, the top of the stack first.
    spec fn items(&self) -> Seq<Felt>;

    spec fn rest(&self) -> Self::Rest;

    /// The number of elements on the stack.
    spec fn depth_of(rest: Self::Rest) -> int;

    /// Whether an element can move from the stack to the overflow table.
    spec fn can_push(rest: Self::Rest) -> bool;

    /// The rest once an element has moved to the overflow table.
    spec fn pushed(rest: Self::Rest, last: Felt) -> Self::Rest;

    /// Whether an element can move from the overflow table to the stack.
    spec fn can_pop(rest: Self::Rest) -> bool;

    /// The element that moves to the stack (zero if the overflow table is empty), and the rest
    /// after that.
    spec fn popped(rest: Self::Rest) -> (Felt, Self::Rest);

    /// What the tracer is told when the stack grows.
    spec fn push_event(items: Seq<Felt>, rest: Self::Rest) -> Option<TracerEvent>;

    /// What the tracer is told when the stack shrinks.
    spec fn pop_event(items: Seq<Felt>, rest: Self::Rest) -> Option<TracerEvent>;

    /// There are 16 topmost stack elements.
    proof fn lemma_items(&self)
        ensures
            self.items().len() == MIN_STACK_DEPTH,
    ;

    /// The topmost stack elements, the top of the stack last.
    fn top(&self) -> (r: [Felt; 16])
        ensures
            forall|i: int| 0 <= i < MIN_STACK_DEPTH ==> #[trigger] r@[i] == self.items()[15 - i],
    ;

    /// The topmost stack elements, the top of the stack last, to be changed in place.
    fn top_mut(&mut self) -> (r: &mut [Felt; 16])
        ensures
            forall|i: int|
                0 <= i < MIN_STACK_DEPTH ==> #[trigger] r@[i] == old(self).items()[15 - i],
            final(self).items() == Seq::new(16, |i: int| final(r)@[15 - i]),
            final(self).rest() == old(self).rest(),
    ;

    /// The stack element at a distance from the top of the stack.
    fn get(&self, idx: usize) -> (r: Felt)
        requires
            idx < MIN_STACK_DEPTH,
        ensures
            r == self.items()[idx as int],
    ;

    /// The stack element at a distance from the top of the stack, to be changed in place.
    fn get_mut(&mut self, idx: usize) -> (r: &mut Felt)
        requires
            idx < MIN_STACK_DEPTH,
        ensures
            *r == old(self).items()[idx as int],
            final(self).items() == old(self).items().update(idx as int, *final(r)),
            final(self).rest() == old(self).rest(),
    ;

    /// The word whose elements are four consecutive stack elements, the one nearest the top last.
    fn get_word(&self, start_idx: usize) -> (r: Word)
        requires
            start_idx < MIN_STACK_DEPTH - 4,
        ensures
            r == word_at(self.items(), start_idx as int),
    ;

    /// The number of elements on the stack, of which the low 32 bits count.
    fn depth(&self) -> (r: u32)
        requires
            Self::depth_of(self.rest()) >= MIN_STACK_DEPTH,
        ensures
            r == Self::depth_of(self.rest()) % 0x1_0000_0000,
    ;

    /// Puts an element at a distance from the top of the stack.
    fn set(&mut self, idx: usize, element: Felt)
        requires
            idx < MIN_STACK_DEPTH,
        ensures
            final(self).items() == old(self).items().update(idx as int, element),
            final(self).rest() == old(self).rest(),
    ;

    /// Puts the elements of a word in four consecutive places, the last one nearest the top.
    fn set_word(&mut self, start_idx: usize, word: &Word)
        requires
            start_idx < MIN_STACK_DEPTH - 4,
        ensures
            final(self).items() == with_word_at(old(self).items(), start_idx as int, *word),
            final(self).rest() == old(self).rest(),
    ;

    /// Exchanges two stack elements.
    fn swap(&mut self, idx1: usize, idx2: usize)
        requires
            idx1 < MIN_STACK_DEPTH,
            idx2 < MIN_STACK_DEPTH,
        ensures
            final(self).items() == swapped(old(self).items(), idx1 as int, idx2 as int),
            final(self).rest() == old(self).rest(),
    ;

    /// Exchanges the topmost word and the word `n` below it.
    fn swapw_nth(&mut self, n: usize)
        requires
            1 <= n <= 3,
        ensures
            final(self).items() == words_swapped(old(self).items(), n as int),
            final(self).rest() == old(self).rest(),
    ;

    /// Moves the `n`th stack element to the top.
    fn rotate_left(&mut self, n: usize)
        requires
            1 <= n <= MIN_STACK_DEPTH,
        ensures
            final(self).items() == rotated_left(old(self).items(), n as int),
            final(self).rest() == old(self).rest(),
    ;

    /// Moves the topmost stack element to the `n`th place.
    fn rotate_right(&mut self, n: usize)
        requires
            1 <= n <= MIN_STACK_DEPTH,
        ensures
            final(self).items() == rotated_right(old(self).items(), n as int),
            final(self).rest() == old(self).rest(),
    ;

    /// Moves all stack elements down by one; the caller then sets the topmost one.
    fn increment_size<T: Tracer>(&mut self, tracer: &mut T) -> (r: Result<(), ExecutionError>)
        requires
            Self::can_push(old(self).rest()),
            allows_told::<T>(
                old(tracer).state(),
                Self::push_event(old(self).items(), old(self).rest()),
            ),
        ensures
            r is Ok,
            final(self).items().drop_first() == old(self).items().drop_last(),
            final(self).rest() == Self::pushed(old(self).rest(), old(self).items().last()),
            final(tracer).state() == told::<T>(
                old(tracer).state(),
                Self::push_event(old(self).items(), old(self).rest()),
            ),
    ;

    /// Removes the topmost stack element and moves all others up by one.
    fn decrement_size<T: Tracer>(&mut self, tracer: &mut T)
        requires
            Self::can_pop(old(self).rest()),
            allows_told::<T>(
                old(tracer).state(),
                Self::pop_event(old(self).items(), old(self).rest()),
            ),
        ensures
            final(self).items() == old(self).items().drop_first().push(
                Self::popped(old(self).rest()).0,
            ),
            final(self).rest() == Self::popped(old(self).rest()).1,
            final(tracer).state() == told::<T>(
                old(tracer).state(),
                Self::pop_event(old(self).items(), old(self).rest()),
            ),
    ;
}

/// The system registers of a processor.
pub trait SystemInterface: StackInterface {
    spec fn caller_hash_of(rest: Self::Rest) -> Word;

    spec fn in_syscall_of(rest: Self::Rest) -> bool;

    spec fn clk_of(rest: Self::Rest) -> RowIndex;

    spec fn ctx_of(rest: Self::Rest) -> ContextId;

    spec fn fmp_of(rest: Self::Rest) -> Felt;

    /// The rest with another free memory pointer.
    spec fn with_fmp(rest: Self::Rest, fmp: Felt) -> Self::Rest;

    /// The digest of the procedure that began the execution context.
    fn caller_hash(&self) -> (r: Word)
        ensures
            r == Self::caller_hash_of(self.rest()),
    ;

    /// Whether a syscall is executed.
    fn in_syscall(&self) -> (r: bool)
        ensures
            r == Self::in_syscall_of(self.rest()),
    ;

    /// The clock cycle.
    fn clk(&self) -> (r: RowIndex)
        ensures
            r == Self::clk_of(self.rest()),
    ;

    /// The execution context.
    fn ctx(&self) -> (r: ContextId)
        ensures
            r == Self::ctx_of(self.rest()),
    ;

    /// The free memory pointer.
    fn fmp(&self) -> (r: Felt)
        ensures
            r == Self::fmp_of(self.rest()),
    ;

    /// Sets the free memory pointer.
    fn set_fmp(&mut self, new_fmp: Felt)
        ensures
            final(self).items() == old(self).items(),
            final(self).rest() == Self::with_fmp(old(self).rest(), new_fmp),
    ;
}

/// A processor that executes operations.
pub trait Processor: SystemInterface {
    type HelperRegisters: OperationHelperRegisters;

    type AdviceProvider: AdviceProviderInterface;

    type Memory: MemoryInterface;

    type Hasher: HasherInterface;

    /// The state of the advice provider.
    spec fn advice_of(rest: Self::Rest) -> <Self::AdviceProvider as AdviceProviderInterface>::State;

    /// The rest with another state of the advice provider.
    spec fn with_advice(
        rest: Self::Rest,
        s: <Self::AdviceProvider as AdviceProviderInterface>::State,
    ) -> Self::Rest;

    /// The state of the memory.
    spec fn memory_of(rest: Self::Rest) -> <Self::Memory as MemoryInterface>::State;

    /// The rest with another state of the memory.
    spec fn with_memory(
        rest: Self::Rest,
        s: <Self::Memory as MemoryInterface>::State,
    ) -> Self::Rest;

    /// The state of the hasher.
    spec fn hasher_of(rest: Self::Rest) -> <Self::Hasher as HasherInterface>::State;

    /// The rest with another state of the hasher.
    spec fn with_hasher(
        rest: Self::Rest,
        s: <Self::Hasher as HasherInterface>::State,
    ) -> Self::Rest;

    /// The advice provider.
    fn advice_provider(&mut self) -> (r: &mut Self::AdviceProvider)
        ensures
            r.state() == Self::advice_of(old(self).rest()),
            final(self).items() == old(self).items(),
            final(self).rest() == Self::with_advice(old(self).rest(), final(r).state()),
    ;

    /// The memory.
    fn memory(&mut self) -> (r: &mut Self::Memory)
        ensures
            r.state() == Self::memory_of(old(self).rest()),
            final(self).items() == old(self).items(),
            final(self).rest() == Self::with_memory(old(self).rest(), final(r).state()),
    ;

    /// The hasher.
    fn hasher(&mut self) -> (r: &mut Self::Hasher)
        ensures
            r.state() == Self::hasher_of(old(self).rest()),
            final(self).items() == old(self).items(),
            final(self).rest() == Self::with_hasher(old(self).rest(), final(r).state()),
    ;
}

/// The values of the six helper registers of an operation.
pub trait OperationHelperRegisters {
    spec fn eq_helpers(stack_second: Felt, stack_first: Felt) -> Seq<Felt>;

    spec fn u32split_helpers(hi: Felt, lo: Felt) -> Seq<Felt>;

    spec fn eqz_helpers(top: Felt) -> Seq<Felt>;

    spec fn expacc_helpers(acc_update_val: Felt) -> Seq<Felt>;

    spec fn fri_ext2fold4_helpers(ev: QuadFelt, es: QuadFelt, x: Felt, x_inv: Felt) -> Seq<Felt>;

    spec fn u32add_helpers(hi: Felt, lo: Felt) -> Seq<Felt>;

    spec fn u32add3_helpers(hi: Felt, lo: Felt) -> Seq<Felt>;

    spec fn u32sub_helpers(second_new: Felt) -> Seq<Felt>;

    spec fn u32mul_helpers(hi: Felt, lo: Felt) -> Seq<Felt>;

    spec fn u32madd_helpers(hi: Felt, lo: Felt) -> Seq<Felt>;

    spec fn u32div_helpers(hi: Felt, lo: Felt) -> Seq<Felt>;

    spec fn u32assert2_helpers(first: Felt, second: Felt) -> Seq<Felt>;

    spec fn hperm_helpers(addr: Felt) -> Seq<Felt>;

    spec fn merkle_path_helpers(addr: Felt) -> Seq<Felt>;

    spec fn horner_eval_helpers(alpha: QuadFelt, k0: Felt, k1: Felt, acc_tmp: QuadFelt) -> Seq<Felt>;

    fn op_eq_registers(stack_second: Felt, stack_first: Felt) -> (r: [Felt; 6])
        ensures
            r@ == Self::eq_helpers(stack_second, stack_first),
    ;

    fn op_u32split_registers(hi: Felt, lo: Felt) -> (r: [Felt; 6])
        requires
            hi@ <= u32::MAX,
            lo@ <= u32::MAX,
        ensures
            r@ == Self::u32split_helpers(hi, lo),
    ;

    fn op_eqz_registers(top: Felt) -> (r: [Felt; 6])
        ensures
            r@ == Self::eqz_helpers(top),
    ;

    fn op_expacc_registers(acc_update_val: Felt) -> (r: [Felt; 6])
        ensures
            r@ == Self::expacc_helpers(acc_update_val),
    ;

    fn op_fri_ext2fold4_registers(ev: QuadFelt, es: QuadFelt, x: Felt, x_inv: Felt) -> (r: [Felt; 6])
        ensures
            r@ == Self::fri_ext2fold4_helpers(ev, es, x, x_inv),
    ;

    fn op_u32add_registers(hi: Felt, lo: Felt) -> (r: [Felt; 6])
        requires
            hi@ <= u32::MAX,
            lo@ <= u32::MAX,
        ensures
            r@ == Self::u32add_helpers(hi, lo),
    ;

    fn op_u32add3_registers(hi: Felt, lo: Felt) -> (r: [Felt; 6])
        requires
            hi@ <= u32::MAX,
            lo@ <= u32::MAX,
        ensures
            r@ == Self::u32add3_helpers(hi, lo),
    ;

    fn op_u32sub_registers(second_new: Felt) -> (r: [Felt; 6])
        requires
            second_new@ <= u32::MAX,
        ensures
            r@ == Self::u32sub_helpers(second_new),
    ;

    fn op_u32mul_registers(hi: Felt, lo: Felt) -> (r: [Felt; 6])
        requires
            hi@ <= u32::MAX,
            lo@ <= u32::MAX,
        ensures
            r@ == Self::u32mul_helpers(hi, lo),
    ;

    fn op_u32madd_registers(hi: Felt, lo: Felt) -> (r: [Felt; 6])
        requires
            hi@ <= u32::MAX,
            lo@ <= u32::MAX,
        ensures
            r@ == Self::u32madd_helpers(hi, lo),
    ;

    fn op_u32div_registers(hi: Felt, lo: Felt) -> (r: [Felt; 6])
        requires
            hi@ <= u32::MAX,
            lo@ <= u32::MAX,
        ensures
            r@ == Self::u32div_helpers(hi, lo),
    ;

    fn op_u32assert2_registers(first: Felt, second: Felt) -> (r: [Felt; 6])
        requires
            first@ <= u32::MAX,
            second@ <= u32::MAX,
        ensures
            r@ == Self::u32assert2_helpers(first, second),
    ;

    fn op_hperm_registers(addr: Felt) -> (r: [Felt; 6])
        ensures
            r@ == Self::hperm_helpers(addr),
    ;

    fn op_merkle_path_registers(addr: Felt) -> (r: [Felt; 6])
        ensures
            r@ == Self::merkle_path_helpers(addr),
    ;

    fn op_horner_eval_registers(alpha: QuadFelt, k0: Felt, k1: Felt, acc_tmp: QuadFelt) -> (r: [Felt;
        6])
        ensures
            r@ == Self::horner_eval_helpers(alpha, k0, k1, acc_tmp),
    ;
}

} // verus!
