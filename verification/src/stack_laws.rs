//! What holds of the rearrangements of the stack.

use crate::felt::felt;
use crate::felt::lemma_felt_small;
use crate::felt::Felt;
use crate::felt::MODULUS;
use crate::layout::MIN_STACK_DEPTH;
use crate::parallel::generator::top_items;
use crate::parallel::generator::with_items;
use crate::parallel::generator::CoreTraceFragmentGenerator;
use crate::parallel::model::decremented;
use crate::parallel::model::incremented;
use crate::parallel::model::GeneratorModel;
use crate::processor::rotated_left;
use crate::processor::rotated_right;
use crate::processor::swapped;
use crate::processor::with_word_at;
use crate::processor::word_at;
use crate::processor::words_swapped;
use crate::processor::Processor;
use crate::processor::StackInterface;
use crate::processor::SystemInterface;
use crate::trace_state::ContextModel;
use crate::word::Word;
use vstd::prelude::*;

verus! {

/// Exchanging two elements twice changes nothing, and the order of the two does not matter.
pub proof fn law_swap(items: Seq<Felt>, idx1: int, idx2: int)
    requires
        0 <= idx1 < items.len(),
        0 <= idx2 < items.len(),
    ensures
        swapped(swapped(items, idx1, idx2), idx1, idx2) == items,
        swapped(items, idx1, idx2) == swapped(items, idx2, idx1),
{
    assert(swapped(swapped(items, idx1, idx2), idx1, idx2) =~= items);
    assert(swapped(items, idx1, idx2) =~= swapped(items, idx2, idx1));
}

/// Exchanging two words twice changes nothing, and each of them is then where the other was.
pub proof fn law_swap_words(items: Seq<Felt>, n: int)
    requires
        items.len() == MIN_STACK_DEPTH,
        1 <= n <= 3,
    ensures
        words_swapped(words_swapped(items, n), n) == items,
        word_at(words_swapped(items, n), 0) == word_at(items, 4 * n),
        word_at(words_swapped(items, n), 4 * n) == word_at(items, 0),
{
    assert(words_swapped(words_swapped(items, n), n) =~= items);
}

/// Rotations to the left and to the right undo each other.
pub proof fn law_rotations(items: Seq<Felt>, n: int)
    requires
        1 <= n <= items.len(),
    ensures
        rotated_right(rotated_left(items, n), n) == items,
        rotated_left(rotated_right(items, n), n) == items,
{
    assert(rotated_right(rotated_left(items, n), n) =~= items);
    assert(rotated_left(rotated_right(items, n), n) =~= items);
}

/// A word that is put on the stack is found there, and elements elsewhere stay.
pub proof fn law_word_set(items: Seq<Felt>, start_idx: int, word: Word)
    requires
        0 <= start_idx,
        start_idx + 4 <= items.len(),
    ensures
        word_at(with_word_at(items, start_idx, word), start_idx) == word,
        with_word_at(items, start_idx, word_at(items, start_idx)) == items,
        forall|i: int|
            0 <= i < items.len() && !(start_idx <= i < start_idx + 4) ==> #[trigger] with_word_at(
                items,
                start_idx,
                word,
            )[i] == items[i],
{
    assert(with_word_at(items, start_idx, word_at(items, start_idx)) =~= items);
}

/// A shift to the right and then one to the left, which gets back from the overflow table what the
/// first put there, leave the stack and its depth as they were.
pub proof fn law_shift_back(s: GeneratorModel)
    requires
        s.context.stack.top.len() == MIN_STACK_DEPTH,
        MIN_STACK_DEPTH <= s.context.stack.depth < usize::MAX,
        s.context.replay.stack_overflow.overflow_values.len() > 0,
        s.context.replay.stack_overflow.overflow_values[0] == (
            s.item(15),
            s.context.stack.overflow_addr,
        ),
    ensures
        incremented(s) matches Some(t) && decremented(t) matches Some(u) && {
            &&& t.context.stack.depth == s.context.stack.depth + 1
            &&& t.context.stack.overflow_addr == felt(s.context.system.clk as int)
            &&& forall|i: int| 1 <= i < MIN_STACK_DEPTH ==> #[trigger] t.item(i) == s.item(i - 1)
            &&& u.context.stack == s.context.stack
        },
{
    let t = incremented(s).unwrap();
    let u = decremented(t).unwrap();
    assert(u.context.stack.top =~= s.context.stack.top);
}

/// A shift to the left on a stack of the least depth makes the bottom element zero and keeps the
/// depth.
pub proof fn law_shift_at_least_depth(s: GeneratorModel)
    requires
        s.context.stack.top.len() == MIN_STACK_DEPTH,
        s.context.stack.depth == MIN_STACK_DEPTH,
    ensures
        decremented(s) matches Some(t) && {
            &&& t.context.stack.depth == MIN_STACK_DEPTH
            &&& t.context.stack.overflow_addr == felt(0)
            &&& t.item(15) == felt(0)
            &&& forall|i: int| 0 <= i < 15 ==> #[trigger] t.item(i) == s.item(i + 1)
            &&& t.context.replay == s.context.replay
        },
{
}

/// A word takes its elements from the stack in reverse: the one nearest the top is its last. Putting
/// a word on the stack puts its last element nearest the top.
pub proof fn law_order_of_words(items: Seq<Felt>, start_idx: int, word: Word)
    requires
        0 <= start_idx,
        start_idx + 4 <= items.len(),
    ensures
        word_at(items, start_idx).e3 == items[start_idx],
        word_at(items, start_idx).e2 == items[start_idx + 1],
        word_at(items, start_idx).e1 == items[start_idx + 2],
        word_at(items, start_idx).e0 == items[start_idx + 3],
        with_word_at(items, start_idx, word)[start_idx] == word.e3,
        with_word_at(items, start_idx, word)[start_idx + 1] == word.e2,
        with_word_at(items, start_idx, word)[start_idx + 2] == word.e1,
        with_word_at(items, start_idx, word)[start_idx + 3] == word.e0,
{
}

/// A rotation to the left brings the `n`th element to the top and moves those above it down by one;
/// a rotation to the right takes the topmost element to the `n`th place and moves those above it up
/// by one. Elements below stay.
pub proof fn law_directions_of_rotations(items: Seq<Felt>, n: int)
    requires
        1 <= n <= items.len(),
    ensures
        rotated_left(items, n)[0] == items[n - 1],
        forall|i: int| 1 <= i < n ==> #[trigger] rotated_left(items, n)[i] == items[i - 1],
        rotated_right(items, n)[n - 1] == items[0],
        forall|i: int| 0 <= i < n - 1 ==> #[trigger] rotated_right(items, n)[i] == items[i + 1],
        forall|i: int|
            n <= i < items.len() ==> #[trigger] rotated_left(items, n)[i] == items[i]
                && rotated_right(items, n)[i] == items[i],
{
}

/// An exchange brings each of two elements to the place of the other, and leaves all others.
pub proof fn law_exchange(items: Seq<Felt>, idx1: int, idx2: int, i: int)
    requires
        0 <= idx1 < items.len(),
        0 <= idx2 < items.len(),
        0 <= i < items.len(),
    ensures
        swapped(items, idx1, idx2)[idx1] == items[idx2],
        swapped(items, idx1, idx2)[idx2] == items[idx1],
        i != idx1 && i != idx2 ==> swapped(items, idx1, idx2)[i] == items[i],
{
}

/// An exchange of words leaves the elements of all other words.
pub proof fn law_other_words_stay(items: Seq<Felt>, n: int, i: int)
    requires
        items.len() == MIN_STACK_DEPTH,
        1 <= n <= 3,
        4 <= i < 16,
        !(4 * n <= i < 4 * n + 4),
    ensures
        words_swapped(items, n)[i] == items[i],
{
}

/// When the stack of a generator grows, its depth grows by one and its overflow address becomes the
/// clock cycle. When it shrinks, the next recorded element of the overflow table comes back, with
/// the recorded overflow address, and the depth shrinks by one; where there is nothing beyond the
/// sixteenth element, zero comes up, and the depth stays. It can shrink only if the recording has
/// the element.
pub proof fn law_generator_stack(rest: GeneratorModel, last: Felt)
    requires
        16 <= rest.context.stack.depth < usize::MAX,
    ensures
        ({
            let pushed = CoreTraceFragmentGenerator::pushed(rest, last);
            let (element, popped) = CoreTraceFragmentGenerator::popped(rest);
            let values = rest.context.replay.stack_overflow.overflow_values;
            &&& pushed.context.stack.depth == rest.context.stack.depth + 1
            &&& pushed.context.stack.overflow_addr == felt(rest.context.system.clk as int)
            &&& pushed == (GeneratorModel {
                context: ContextModel { stack: pushed.context.stack, ..rest.context },
                ..rest
            })
            &&& CoreTraceFragmentGenerator::can_pop(rest) <==> (rest.context.stack.depth == 16
                || values.len() > 0)
            &&& rest.context.stack.depth == 16 ==> {
                &&& element@ == 0
                &&& popped.context.stack.depth == 16
                &&& popped.context.stack.overflow_addr@ == 0
                &&& popped.context.replay == rest.context.replay
            }
            &&& rest.context.stack.depth > 16 && values.len() > 0 ==> {
                &&& element == values[0].0
                &&& popped.context.stack.depth == rest.context.stack.depth - 1
                &&& popped.context.stack.overflow_addr == values[0].1
                &&& popped.context.replay.stack_overflow.overflow_values == values.drop_first()
            }
        }),
{
    lemma_felt_small(0);
}

/// The registers that operations read off a generator are those of its system state.
pub proof fn law_generator_registers(rest: GeneratorModel, fmp: Felt)
    ensures
        CoreTraceFragmentGenerator::clk_of(rest) == rest.context.system.clk,
        CoreTraceFragmentGenerator::ctx_of(rest) == rest.context.system.ctx,
        CoreTraceFragmentGenerator::fmp_of(rest) == rest.context.system.fmp,
        CoreTraceFragmentGenerator::in_syscall_of(rest) == rest.context.system.in_syscall,
        CoreTraceFragmentGenerator::caller_hash_of(rest) == rest.context.system.fn_hash,
        CoreTraceFragmentGenerator::depth_of(rest) == rest.context.stack.depth,
        CoreTraceFragmentGenerator::fmp_of(CoreTraceFragmentGenerator::with_fmp(rest, fmp)) == fmp,
        CoreTraceFragmentGenerator::ctx_of(CoreTraceFragmentGenerator::with_fmp(rest, fmp))
            == rest.context.system.ctx,
        CoreTraceFragmentGenerator::clk_of(CoreTraceFragmentGenerator::with_fmp(rest, fmp))
            == rest.context.system.clk,
        CoreTraceFragmentGenerator::caller_hash_of(CoreTraceFragmentGenerator::with_fmp(rest, fmp))
            == rest.context.system.fn_hash,
{
}

/// The topmost elements that operations read off a generator are those of its stack, the top of the
/// stack first; and those that they put there are found there.
pub proof fn law_generator_items(s: GeneratorModel, items: Seq<Felt>, i: int)
    requires
        s.context.stack.top.len() == MIN_STACK_DEPTH,
        items.len() == MIN_STACK_DEPTH,
        0 <= i < 16,
    ensures
        top_items(s)[i] == s.context.stack.top[15 - i],
        with_items(s, items).context.stack.top[15 - i] == items[i],
        with_items(s, items).context.stack.depth == s.context.stack.depth,
        with_items(s, items).context.stack.overflow_addr == s.context.stack.overflow_addr,
        top_items(with_items(s, items)) == items,
{
    assert(top_items(with_items(s, items)) =~= items);
}

/// When the stack of a generator grows, all elements move down by one, the sixteenth beyond the
/// others; the place on top is marked with minus one, the depth grows by one, and the overflow
/// address becomes the clock cycle. Nothing else changes.
pub proof fn law_shift_down(s: GeneratorModel)
    requires
        s.context.stack.top.len() == MIN_STACK_DEPTH,
    ensures
        match incremented(s) {
            Some(t) => {
                let (before, after) = (s.context.stack, t.context.stack);
                &&& forall|i: int| 0 <= i < 15 ==> #[trigger] after.top[i] == before.top[i + 1]
                &&& after.top[15]@ == MODULUS - 1
                &&& after.depth == before.depth + 1
                &&& after.overflow_addr == felt(s.context.system.clk as int)
                &&& t == s.with_stack(after)
            },
            None => s.context.stack.depth == usize::MAX,
        },
{
    lemma_felt_small(MODULUS - 1);
}

} // verus!
