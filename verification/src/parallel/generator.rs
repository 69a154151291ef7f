//! The generator of a fragment of the core trace, as a processor.

use crate::block_stack::BasicBlockContext;
use crate::context::ContextId;
use crate::context::RowIndex;
use crate::errors::ExecutionError;
use crate::felt::felt;
use crate::felt::Felt;
use crate::felt::MODULUS;
use crate::helpers::TraceGenerationHelpers;
use crate::interfaces::AdviceProviderInterface;
use crate::interfaces::HasherInterface;
use crate::interfaces::MemoryInterface;
use crate::layout::CORE_TRACE_WIDTH;
use crate::layout::MIN_STACK_DEPTH;
use crate::parallel::fragment::CoreTraceFragment;
use crate::parallel::model::decremented;
use crate::parallel::model::incremented;
use crate::parallel::model::GeneratorModel;
use crate::processor::rotated_left;
use crate::processor::rotated_right;
use crate::processor::words_swapped;
use crate::processor::Processor;
use crate::processor::StackInterface;
use crate::processor::SystemInterface;
use crate::trace_state::lemma_stack_top_len;
use crate::trace_state::AdviceModel;
use crate::trace_state::AdviceReplay;
use crate::trace_state::CoreTraceFragmentContext;
use crate::trace_state::HasherResponseModel;
use crate::trace_state::HasherResponseReplay;
use crate::trace_state::MemoryModel;
use crate::trace_state::MemoryReadsReplay;
use crate::trace_state::ReplayModel;
use crate::trace_state::StackModel;
use crate::trace_state::SystemState;
use crate::tracer::Tracer;
use crate::tracer::TracerEvent;
use crate::word::Word;
use vstd::prelude::*;

verus! {

/// Generates a fragment of the core trace: executes the program from where the fragment begins,
/// replaying what was recorded, and writes a row for every clock cycle.
pub struct CoreTraceFragmentGenerator {
    /// The clock cycle in which the fragment begins.
    pub fragment_start_clk: RowIndex,
    /// The fragment.
    pub fragment: CoreTraceFragment,
    /// The state of the processor and what is left of the recordings.
    pub context: CoreTraceFragmentContext,
    /// How far the decoding of the current basic block has come.
    pub span_context: Option<BasicBlockContext>,
    /// The next row of the stack columns.
    pub stack_rows: Option<[Felt; 19]>,
    /// The next row of the system columns.
    pub system_rows: Option<[Felt; 8]>,
    /// The number of rows after which the fragment is full.
    pub fragment_size: usize,
}

/// The cells of a row that may not be there yet.
pub open spec fn row_view<const N: usize>(row: Option<[Felt; N]>) -> Option<Seq<Felt>> {
    match row {
        Some(cells) => Some(cells@),
        None => None,
    }
}

impl View for CoreTraceFragmentGenerator {
    type V = GeneratorModel;

    open spec fn view(&self) -> GeneratorModel {
        GeneratorModel {
            fragment_start_clk: self.fragment_start_clk,
            columns: self.fragment@,
            context: self.context@,
            span_context: self.span_context,
            stack_rows: row_view(self.stack_rows),
            system_rows: row_view(self.system_rows),
            fragment_size: self.fragment_size,
        }
    }
}

/// The state of the generator without the topmost stack elements.
pub open spec fn stripped(s: GeneratorModel) -> GeneratorModel {
    s.with_stack(StackModel { top: Seq::empty(), ..s.context.stack })
}

/// The topmost stack elements, the top of the stack first.
pub open spec fn top_items(s: GeneratorModel) -> Seq<Felt> {
    Seq::new(16, |i: int| s.item(i))
}

/// The state of the generator with the given topmost stack elements, the top of the stack first.
pub open spec fn with_items(rest: GeneratorModel, items: Seq<Felt>) -> GeneratorModel {
    rest.with_stack(
        StackModel { top: Seq::new(16, |k: int| items[15 - k]), ..rest.context.stack },
    )
}

/// The stack with another element at a distance from its top.
pub open spec fn with_item(s: GeneratorModel, idx: int, element: Felt) -> StackModel {
    StackModel { top: s.context.stack.top.update(15 - idx, element), ..s.context.stack }
}

/// The topmost stack elements once one of them is another.
broadcast proof fn lemma_with_item(s: GeneratorModel, idx: int, element: Felt)
    requires
        s.context.stack.top.len() == MIN_STACK_DEPTH,
        0 <= idx < MIN_STACK_DEPTH,
    ensures
        top_items(#[trigger] s.with_stack(with_item(s, idx, element))) == top_items(s).update(
            idx,
            element,
        ),
{
    assert(top_items(s.with_stack(with_item(s, idx, element))) =~= top_items(s).update(
        idx,
        element,
    ));
}

/// A generator is made up of its topmost stack elements and the rest.
pub proof fn lemma_with_items(s: GeneratorModel)
    requires
        s.context.stack.top.len() == MIN_STACK_DEPTH,
    ensures
        with_items(stripped(s), top_items(s)) == s,
{
    assert(with_items(stripped(s), top_items(s)).context.stack.top =~= s.context.stack.top);
}

impl CoreTraceFragmentGenerator {
    /// A generator of a fragment that begins in the given context.
    pub fn new(context: CoreTraceFragmentContext, fragment_size: usize) -> (r: Self)
        ensures
            r@ == (GeneratorModel {
                fragment_start_clk: context@.system.clk,
                columns: r@.columns,
                context: context@,
                span_context: None,
                stack_rows: None,
                system_rows: None,
                fragment_size,
            }),
            r@.columns == blank_columns(fragment_size),
            r@.well_formed(),
    {
        broadcast use lemma_stack_top_len;

        let fragment = CoreTraceFragment::new_uninit(fragment_size);
        assert(fragment@ =~~= blank_columns(fragment_size));
        Self {
            fragment_start_clk: context.state.system.clk,
            fragment,
            context,
            span_context: None,
            stack_rows: None,
            system_rows: None,
            fragment_size,
        }
    }
}

/// The columns of a fragment before any row has been built.
pub open spec fn blank_columns(num_rows: usize) -> Seq<Seq<Felt>> {
    Seq::new(
        CORE_TRACE_WIDTH as nat,
        |c: int| Seq::new(num_rows as nat, |i: int| felt(0)),
    )
}

impl StackInterface for CoreTraceFragmentGenerator {
    type Rest = GeneratorModel;

    open spec fn items(&self) -> Seq<Felt> {
        top_items(self@)
    }

    open spec fn rest(&self) -> GeneratorModel {
        stripped(self@)
    }

    open spec fn depth_of(rest: GeneratorModel) -> int {
        rest.context.stack.depth as int
    }

    open spec fn can_push(rest: GeneratorModel) -> bool {
        rest.context.stack.depth < usize::MAX
    }

    open spec fn pushed(rest: GeneratorModel, last: Felt) -> GeneratorModel {
        rest.with_stack(rest.context.stack.overflow_pushed(rest.context.system.clk))
    }

    open spec fn can_pop(rest: GeneratorModel) -> bool {
        rest.context.stack.can_pop_overflow(rest.context.replay.stack_overflow)
    }

    open spec fn popped(rest: GeneratorModel) -> (Felt, GeneratorModel) {
        let (value, stack, stack_overflow) = rest.context.stack.overflow_popped(
            rest.context.replay.stack_overflow,
        );
        (
            match value {
                Some(v) => v,
                None => felt(0),
            },
            rest.with_stack(stack).with_replay(
                ReplayModel { stack_overflow, ..rest.context.replay },
            ),
        )
    }

    open spec fn push_event(items: Seq<Felt>, rest: GeneratorModel) -> Option<TracerEvent> {
        None
    }

    open spec fn pop_event(items: Seq<Felt>, rest: GeneratorModel) -> Option<TracerEvent> {
        None
    }

    proof fn lemma_items(&self) {
    }

    fn top(&self) -> [Felt; 16] {
        self.context.state.stack.top()
    }

    fn get(&self, idx: usize) -> (r: Felt)
        ensures
            r == self@.item(idx as int),
    {
        self.context.state.stack.get(idx)
    }

    fn top_mut(&mut self) -> &mut [Felt; 16] {
        self.context.state.stack.top_mut()
    }

    fn get_mut(&mut self, idx: usize) -> (r: &mut Felt)
        ensures
            final(self)@ == old(self)@.with_stack(with_item(old(self)@, idx as int, *final(r))),
    {
        broadcast use {lemma_stack_top_len, lemma_with_item};

        self.context.state.stack.get_mut(idx)
    }

    fn get_word(&self, start_idx: usize) -> Word {
        Word {
            e0: self.get(start_idx + 3),
            e1: self.get(start_idx + 2),
            e2: self.get(start_idx + 1),
            e3: self.get(start_idx),
        }
    }

    fn depth(&self) -> u32 {
        let depth: u64 = (MIN_STACK_DEPTH
            + self.context.state.stack.num_overflow_elements_in_current_ctx()) as u64;
        (depth % 0x1_0000_0000) as u32
    }

    fn set(&mut self, idx: usize, element: Felt)
        ensures
            final(self)@ == old(self)@.with_stack(
                StackModel {
                    top: old(self)@.context.stack.top.update(15 - idx, element),
                    ..old(self)@.context.stack
                },
            ),
    {
        broadcast use lemma_stack_top_len;

        self.context.state.stack.set(idx, element);
        assert(self.items() =~= old(self).items().update(idx as int, element));
    }

    fn set_word(&mut self, start_idx: usize, word: &Word) {
        self.set(start_idx, word.e3);
        self.set(start_idx + 1, word.e2);
        self.set(start_idx + 2, word.e1);
        self.set(start_idx + 3, word.e0);
    }

    fn swap(&mut self, idx1: usize, idx2: usize) {
        let a = self.get(idx1);
        let b = self.get(idx2);
        self.set(idx1, b);
        self.set(idx2, a);
    }

    fn swapw_nth(&mut self, n: usize) {
        let ghost before = self.items();
        for i in 0..4
            invariant
                1 <= n <= 3,
                before.len() == 16,
                self.items().len() == 16,
                self.rest() == old(self).rest(),
                forall|j: int|
                    0 <= j < 16 ==> #[trigger] self.items()[j] == if 0 <= j < i {
                        before[j + 4 * n]
                    } else if 4 * n <= j < 4 * n + i {
                        before[j - 4 * n]
                    } else {
                        before[j]
                    },
        {
            self.swap(i, i + 4 * n);
        }
        assert(self.items() =~= words_swapped(before, n as int));
    }

    fn rotate_left(&mut self, n: usize) {
        let ghost before = self.items();
        let new_stack_top_element = self.get(n - 1);
        // move the topmost n elements down by one, starting from the bottom of the rotation
        for i in 0..n - 1
            invariant
                1 <= n <= 16,
                before.len() == 16,
                self.items().len() == 16,
                self.rest() == old(self).rest(),
                forall|j: int|
                    0 <= j < 16 ==> #[trigger] self.items()[j] == if n - i <= j < n {
                        before[j - 1]
                    } else {
                        before[j]
                    },
        {
            let moved = self.get(n - 2 - i);
            self.set(n - 1 - i, moved);
        }
        self.set(0, new_stack_top_element);
        assert(self.items() =~= rotated_left(before, n as int));
    }

    fn rotate_right(&mut self, n: usize) {
        let ghost before = self.items();
        let new_stack_bot_element = self.get(0);
        // move the topmost n elements up by one, starting from the top of the rotation
        for i in 0..n - 1
            invariant
                1 <= n <= 16,
                before.len() == 16,
                self.items().len() == 16,
                self.rest() == old(self).rest(),
                forall|j: int|
                    0 <= j < 16 ==> #[trigger] self.items()[j] == if 0 <= j < i {
                        before[j + 1]
                    } else {
                        before[j]
                    },
        {
            let moved = self.get(i + 1);
            self.set(i, moved);
        }
        self.set(n - 1, new_stack_bot_element);
        assert(self.items() =~= rotated_right(before, n as int));
    }

    fn increment_size<T: Tracer>(&mut self, _tracer: &mut T) -> (r: Result<(), ExecutionError>)
        ensures
            Some(final(self)@) == incremented(old(self)@),
    {
        broadcast use lemma_stack_top_len;

        let ghost before = self@;
        let last_element = self.get(MIN_STACK_DEPTH - 1);
        let clk: RowIndex = self.context.state.system.clk;
        self.context.state.stack.push_overflow(last_element, clk);
        let ghost pushed = self@;

        // move all elements down by one, starting from the bottom
        for i in 0..MIN_STACK_DEPTH - 1
            invariant
                before.context.stack.top.len() == 16,
                self@ == pushed.with_stack(
                    StackModel { top: self@.context.stack.top, ..pushed.context.stack },
                ),
                self@.context.stack.top.len() == 16,
                forall|k: int|
                    0 <= k < 16 ==> #[trigger] self@.context.stack.top[k] == if k < i {
                        before.context.stack.top[k + 1]
                    } else {
                        before.context.stack.top[k]
                    },
        {
            let moved = self.get(MIN_STACK_DEPTH - 2 - i);
            self.set(MIN_STACK_DEPTH - 1 - i, moved);
        }
        self.set(0, Felt::new(MODULUS - 1));
        assert(self@.context.stack.top =~= before.context.stack.top.drop_first().push(
            felt(MODULUS - 1),
        ));
        assert(self.items().drop_first() =~= old(self).items().drop_last());
        assert(self.rest() =~= Self::pushed(old(self).rest(), old(self).items().last()));
        Ok(())
    }

    fn decrement_size<T: Tracer>(&mut self, _tracer: &mut T)
        ensures
            Some(final(self)@) == decremented(old(self)@),
    {
        broadcast use lemma_stack_top_len;

        let ghost before = self@;
        // move all elements up by one, starting from the top
        for i in 0..MIN_STACK_DEPTH - 1
            invariant
                before.context.stack.top.len() == 16,
                self@ == before.with_stack(
                    StackModel { top: self@.context.stack.top, ..before.context.stack },
                ),
                self@.context.stack.top.len() == 16,
                forall|k: int|
                    0 <= k < 16 ==> #[trigger] self@.context.stack.top[k] == if k > 15 - i {
                        before.context.stack.top[k - 1]
                    } else {
                        before.context.stack.top[k]
                    },
        {
            let moved = self.get(i + 1);
            self.set(i, moved);
        }
        let popped = self.context.state.stack.pop_overflow(&mut self.context.replay.stack_overflow);
        let bottom = match popped {
            Some(last_element) => last_element,
            None => Felt::zero(),
        };
        self.set(MIN_STACK_DEPTH - 1, bottom);
        assert(self@.context.stack.top =~= seq![bottom] + before.context.stack.top.drop_last());
        assert(self.items() =~= old(self).items().drop_first().push(bottom));
        assert(self.rest() =~= Self::popped(old(self).rest()).1);
    }
}

impl SystemInterface for CoreTraceFragmentGenerator {
    open spec fn caller_hash_of(rest: GeneratorModel) -> Word {
        rest.context.system.fn_hash
    }

    open spec fn in_syscall_of(rest: GeneratorModel) -> bool {
        rest.context.system.in_syscall
    }

    open spec fn clk_of(rest: GeneratorModel) -> RowIndex {
        rest.context.system.clk
    }

    open spec fn ctx_of(rest: GeneratorModel) -> ContextId {
        rest.context.system.ctx
    }

    open spec fn fmp_of(rest: GeneratorModel) -> Felt {
        rest.context.system.fmp
    }

    open spec fn with_fmp(rest: GeneratorModel, fmp: Felt) -> GeneratorModel {
        rest.with_system(SystemState { fmp, ..rest.context.system })
    }

    fn caller_hash(&self) -> Word {
        self.context.state.system.fn_hash
    }

    fn in_syscall(&self) -> bool {
        self.context.state.system.in_syscall
    }

    fn clk(&self) -> RowIndex {
        self.context.state.system.clk
    }

    fn ctx(&self) -> ContextId {
        self.context.state.system.ctx
    }

    fn fmp(&self) -> Felt {
        self.context.state.system.fmp
    }

    fn set_fmp(&mut self, new_fmp: Felt) {
        self.context.state.system.fmp = new_fmp;
    }
}

impl Processor for CoreTraceFragmentGenerator {
    type HelperRegisters = TraceGenerationHelpers;

    type AdviceProvider = AdviceReplay;

    type Memory = MemoryReadsReplay;

    type Hasher = HasherResponseReplay;

    open spec fn advice_of(rest: GeneratorModel) -> AdviceModel {
        rest.context.replay.advice
    }

    open spec fn with_advice(rest: GeneratorModel, s: AdviceModel) -> GeneratorModel {
        rest.with_replay(ReplayModel { advice: s, ..rest.context.replay })
    }

    open spec fn memory_of(rest: GeneratorModel) -> MemoryModel {
        rest.context.replay.memory_reads
    }

    open spec fn with_memory(rest: GeneratorModel, s: MemoryModel) -> GeneratorModel {
        rest.with_replay(ReplayModel { memory_reads: s, ..rest.context.replay })
    }

    open spec fn hasher_of(rest: GeneratorModel) -> HasherResponseModel {
        rest.context.replay.hasher
    }

    open spec fn with_hasher(rest: GeneratorModel, s: HasherResponseModel) -> GeneratorModel {
        rest.with_replay(ReplayModel { hasher: s, ..rest.context.replay })
    }

    fn advice_provider(&mut self) -> (r: &mut AdviceReplay)
        ensures
            r.state() == old(self)@.context.replay.advice,
            final(self)@ == old(self)@.with_replay(
                ReplayModel { advice: final(r).state(), ..old(self)@.context.replay },
            ),
    {
        &mut self.context.replay.advice
    }

    fn memory(&mut self) -> (r: &mut MemoryReadsReplay)
        ensures
            r.state() == old(self)@.context.replay.memory_reads,
            final(self)@ == old(self)@.with_replay(
                ReplayModel { memory_reads: final(r).state(), ..old(self)@.context.replay },
            ),
    {
        &mut self.context.replay.memory_reads
    }

    fn hasher(&mut self) -> (r: &mut HasherResponseReplay)
        ensures
            r.state() == old(self)@.context.replay.hasher,
            final(self)@ == old(self)@.with_replay(
                ReplayModel { hasher: final(r).state(), ..old(self)@.context.replay },
            ),
    {
        &mut self.context.replay.hasher
    }
}

} // verus!
