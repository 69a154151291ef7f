//! What the tracer records is what the generator needs: replaying the recordings, the generator
//! goes through the same states of the stack and of the decoder as the tracer did.

use crate::block_stack::top_addr;
use crate::block_stack::top_parent_addr;
use crate::block_stack::BlockType;
use crate::block_stack::ExecutionContextInfo;
use crate::context::RowIndex;
use crate::continuation::Continuation;
use crate::execution_tracer::begins_fragment;
use crate::execution_tracer::ExecutionTracer;
use crate::execution_tracer::ShimModel;
use crate::execution_tracer::TracerModel;
use crate::felt::felt;
use crate::felt::Felt;
use crate::layout::HASH_CYCLE_LEN;
use crate::layout::MIN_STACK_DEPTH;
use crate::mast::MastForest;
use crate::mast::MastNodeId;
use crate::parallel::model::node_ended;
use crate::parallel::model::node_started;
use crate::parallel::model::GeneratorModel;
use crate::trace_state::node_flags;
use crate::trace_state::AdviceModel;
use crate::trace_state::BlockStackReplayModel;
use crate::trace_state::DecoderState;
use crate::trace_state::HasherOpModel;
use crate::trace_state::HasherResponseModel;
use crate::trace_state::MemoryModel;
use crate::trace_state::NodeEndData;
use crate::trace_state::NodeExecutionState;
use crate::trace_state::NodeFlagsModel;
use crate::trace_state::ReplayModel;
use crate::trace_state::StackModel;
use crate::trace_state::StackOverflowModel;
use crate::trace_state::SystemState;
use crate::tracer::Tracer;
use crate::tracer::TracerEvent;
use crate::word::Word;
use std::sync::Arc;
use vstd::prelude::*;

verus! {

// OVERFLOW TABLE

/// Whether an event is about the overflow table.
pub open spec fn about_overflow(event: TracerEvent) -> bool {
    match event {
        TracerEvent::IncrementClk => true,
        TracerEvent::IncrementStackSize(_) => true,
        TracerEvent::DecrementStackSize => true,
        TracerEvent::StartContext => true,
        TracerEvent::RestoreContext => true,
        _ => false,
    }
}

/// Whether a tracer accepts events about the overflow table, one after the other, and the depth of
/// the stack can be counted all along.
pub open spec fn accepts_overflow(m: TracerModel, events: Seq<TracerEvent>) -> bool
    decreases events.len(),
{
    if events.len() == 0 {
        true
    } else {
        &&& about_overflow(events[0])
        &&& ExecutionTracer::allows(m, events[0])
        &&& events[0] is IncrementStackSize ==> MIN_STACK_DEPTH + m.overflow_table.current.len()
            < usize::MAX
        &&& accepts_overflow(ExecutionTracer::after(m, events[0]), events.drop_first())
    }
}

/// The tracer after events.
pub open spec fn traced(m: TracerModel, events: Seq<TracerEvent>) -> TracerModel
    decreases events.len(),
{
    if events.len() == 0 {
        m
    } else {
        traced(ExecutionTracer::after(m, events[0]), events.drop_first())
    }
}

/// A recording followed by another.
pub open spec fn followed_by(
    first: StackOverflowModel,
    second: StackOverflowModel,
) -> StackOverflowModel {
    StackOverflowModel {
        overflow_values: first.overflow_values + second.overflow_values,
        restore_context_info: first.restore_context_info + second.restore_context_info,
    }
}

/// What the tracer records of an event about the overflow table.
pub open spec fn overflow_record(m: TracerModel, event: TracerEvent) -> StackOverflowModel {
    let empty = StackOverflowModel::empty();
    match event {
        TracerEvent::DecrementStackSize => if m.overflow_table.current.len() > 0 {
            StackOverflowModel {
                overflow_values: seq![
                    (m.overflow_table.current.last().0, m.overflow_table.popped().last_update()),
                ],
                ..empty
            }
        } else {
            empty
        },
        TracerEvent::RestoreContext => {
            let restored = m.overflow_table.context_restored();
            StackOverflowModel {
                restore_context_info: seq![
                    ((MIN_STACK_DEPTH + restored.current.len()) as usize, restored.last_update()),
                ],
                ..empty
            }
        },
        _ => empty,
    }
}

/// What the tracer records of events about the overflow table.
pub open spec fn overflow_records(m: TracerModel, events: Seq<TracerEvent>) -> StackOverflowModel
    decreases events.len(),
{
    if events.len() == 0 {
        StackOverflowModel::empty()
    } else {
        followed_by(
            overflow_record(m, events[0]),
            overflow_records(ExecutionTracer::after(m, events[0]), events.drop_first()),
        )
    }
}

/// The state of the stack, the clock, the recordings that are left, and the elements that came
/// from the overflow table so far.
#[verifier::ext_equal]
pub struct StackReplay {
    pub stack: StackModel,
    pub clk: RowIndex,
    pub left: StackOverflowModel,
    pub popped: Seq<Option<Felt>>,
}

/// The stack follows an event about the overflow table with the help of the recordings; `None` if
/// they do not answer it.
pub open spec fn stack_followed(s: StackReplay, event: TracerEvent) -> Option<StackReplay> {
    match event {
        TracerEvent::IncrementClk => Some(StackReplay { clk: (s.clk + 1) as u32, ..s }),
        TracerEvent::IncrementStackSize(_) => Some(
            StackReplay { stack: s.stack.overflow_pushed(s.clk), ..s },
        ),
        TracerEvent::DecrementStackSize => if s.stack.can_pop_overflow(s.left) {
            let (value, stack, left) = s.stack.overflow_popped(s.left);
            Some(StackReplay { stack, left, popped: s.popped.push(value), ..s })
        } else {
            None
        },
        TracerEvent::StartContext => Some(
            StackReplay { stack: s.stack.context_started(), ..s },
        ),
        TracerEvent::RestoreContext => if s.left.restore_context_info.len() > 0 {
            let (stack, left) = s.stack.context_restored(s.left);
            Some(StackReplay { stack, left, ..s })
        } else {
            None
        },
        _ => Some(s),
    }
}

/// The stack follows events, one after the other.
pub open spec fn stack_followed_all(s: StackReplay, events: Seq<TracerEvent>) -> Option<StackReplay>
    decreases events.len(),
{
    if events.len() == 0 {
        Some(s)
    } else {
        match stack_followed(s, events[0]) {
            Some(t) => stack_followed_all(t, events.drop_first()),
            None => None,
        }
    }
}

/// Whether the stack has as many elements as the overflow table of the tracer and the topmost
/// ones together, and knows the clock cycle of the last update of the table.
pub open spec fn stack_in_step(m: TracerModel, s: StackReplay) -> bool {
    &&& s.stack.depth == MIN_STACK_DEPTH + m.overflow_table.current.len()
    &&& s.stack.overflow_addr == m.overflow_table.last_update()
    &&& s.clk == m.overflow_table.clk
}

/// What a tracer records about the overflow table comes after what it has recorded before.
pub proof fn law_overflow_recorded(m: TracerModel, events: Seq<TracerEvent>)
    requires
        accepts_overflow(m, events),
    ensures
        traced(m, events).replay.stack_overflow == followed_by(
            m.replay.stack_overflow,
            overflow_records(m, events),
        ),
    decreases events.len(),
{
    if events.len() > 0 {
        let next = ExecutionTracer::after(m, events[0]);
        law_overflow_recorded(next, events.drop_first());
        assert(next.replay.stack_overflow =~= followed_by(
            m.replay.stack_overflow,
            overflow_record(m, events[0]),
        ));
    }
    assert(traced(m, events).replay.stack_overflow =~= followed_by(
        m.replay.stack_overflow,
        overflow_records(m, events),
    ));
}

/// One event keeps the stack in step with the overflow table of the tracer, and an element that
/// the stack gets back is the one that the table gives.
proof fn lemma_stack_step(
    m: TracerModel,
    s: StackReplay,
    event: TracerEvent,
    later: StackOverflowModel,
)
    requires
        about_overflow(event),
        ExecutionTracer::allows(m, event),
        event is IncrementStackSize ==> MIN_STACK_DEPTH + m.overflow_table.current.len()
            < usize::MAX,
        stack_in_step(m, s),
        s.left == followed_by(overflow_record(m, event), later),
    ensures
        stack_followed(s, event) matches Some(t) && stack_in_step(
            ExecutionTracer::after(m, event),
            t,
        ) && t.left == later && t.popped == if event is DecrementStackSize {
            s.popped.push(
                if m.overflow_table.current.len() > 0 {
                    Some(m.overflow_table.current.last().0)
                } else {
                    None
                },
            )
        } else {
            s.popped
        },
{
    let t = stack_followed(s, event);
    match event {
        TracerEvent::DecrementStackSize => {
            if m.overflow_table.current.len() > 0 {
                assert(s.left.overflow_values[0] == overflow_record(m, event).overflow_values[0]);
                assert(s.left.overflow_values.drop_first() =~= later.overflow_values);
                assert(s.left.restore_context_info =~= later.restore_context_info);
            } else {
                assert(s.left =~= later);
            }
        },
        TracerEvent::RestoreContext => {
            assert(s.left.restore_context_info[0] == overflow_record(
                m,
                event,
            ).restore_context_info[0]);
            assert(s.left.restore_context_info.drop_first() =~= later.restore_context_info);
            assert(s.left.overflow_values =~= later.overflow_values);
        },
        _ => {
            assert(s.left =~= later);
        },
    }
}

/// The elements that leave the overflow table.
pub open spec fn elements_popped(m: TracerModel, events: Seq<TracerEvent>) -> Seq<Option<Felt>>
    decreases events.len(),
{
    if events.len() == 0 {
        Seq::empty()
    } else {
        let rest = elements_popped(ExecutionTracer::after(m, events[0]), events.drop_first());
        if events[0] is DecrementStackSize {
            seq![
                if m.overflow_table.current.len() > 0 {
                    Some(m.overflow_table.current.last().0)
                } else {
                    None
                },
            ] + rest
        } else {
            rest
        }
    }
}

/// Replaying what a tracer recorded about the overflow table, the stack stays in step with the
/// table: after the same events it has the same depth and the same overflow address, it has got
/// back the elements that left the table, in order, and no recording is left.
pub proof fn law_stack_keeps_step(m: TracerModel, s: StackReplay, events: Seq<TracerEvent>)
    requires
        accepts_overflow(m, events),
        stack_in_step(m, s),
        s.left == overflow_records(m, events),
    ensures
        stack_followed_all(s, events) matches Some(t) && stack_in_step(traced(m, events), t)
            && t.left == StackOverflowModel::empty() && t.popped == s.popped + elements_popped(
            m,
            events,
        ),
    decreases events.len(),
{
    if events.len() > 0 {
        let next = ExecutionTracer::after(m, events[0]);
        lemma_stack_step(m, s, events[0], overflow_records(next, events.drop_first()));
        let t = stack_followed(s, events[0]).unwrap();
        law_stack_keeps_step(next, t, events.drop_first());
        assert(stack_followed_all(t, events.drop_first()).unwrap().popped =~= s.popped
            + elements_popped(m, events));
    } else {
        assert(s.popped =~= s.popped + elements_popped(m, events));
    }
}

// BLOCK STACK

/// What happens to the block stack.
pub enum BlockEvent {
    /// A block begins: it is hashed with a number of permutations.
    Begin(HasherOpModel, int, BlockType, Option<ExecutionContextInfo>),
    /// A further batch of a basic block begins.
    Respan,
    /// The current block ends.
    End,
}

/// Whether the tracer can follow an event.
pub open spec fn allows_block(m: TracerModel, event: BlockEvent) -> bool {
    match event {
        BlockEvent::Begin(_, permutations, _, _) => permutations >= 0 && m.hasher.has_room(
            8 * permutations,
        ),
        BlockEvent::Respan => m.block_stack.len() > 0,
        BlockEvent::End => m.block_stack.len() > 0,
    }
}

/// The tracer after an event.
pub open spec fn block_traced(m: TracerModel, event: BlockEvent) -> TracerModel {
    match event {
        BlockEvent::Begin(request, permutations, block_type, ctx_info) => m.block_begun(
            request,
            permutations,
            block_type,
            ctx_info,
        ),
        BlockEvent::Respan => m.respanned(),
        BlockEvent::End => m.block_ended(),
    }
}

/// Whether a tracer can follow events, one after the other.
pub open spec fn allows_blocks(m: TracerModel, events: Seq<BlockEvent>) -> bool
    decreases events.len(),
{
    if events.len() == 0 {
        true
    } else {
        &&& allows_block(m, events[0])
        &&& allows_blocks(block_traced(m, events[0]), events.drop_first())
    }
}

/// The tracer after events.
pub open spec fn blocks_traced(m: TracerModel, events: Seq<BlockEvent>) -> TracerModel
    decreases events.len(),
{
    if events.len() == 0 {
        m
    } else {
        blocks_traced(block_traced(m, events[0]), events.drop_first())
    }
}

/// The recordings of blocks: the addresses of the blocks that begin, those of their parents, and
/// the blocks that end.
#[verifier::ext_equal]
pub struct BlockRecords {
    pub addresses: Seq<Felt>,
    pub parents: Seq<Felt>,
    pub ends: Seq<NodeEndData>,
}

impl BlockRecords {
    pub open spec fn empty() -> BlockRecords {
        BlockRecords { addresses: Seq::empty(), parents: Seq::empty(), ends: Seq::empty() }
    }

    /// The recordings followed by others.
    pub open spec fn followed_by(self, later: BlockRecords) -> BlockRecords {
        BlockRecords {
            addresses: self.addresses + later.addresses,
            parents: self.parents + later.parents,
            ends: self.ends + later.ends,
        }
    }
}

/// What a tracer has recorded of blocks.
pub open spec fn block_records(m: TracerModel) -> BlockRecords {
    BlockRecords {
        addresses: m.hasher.replay.block_addresses,
        parents: m.replay.block_stack.node_start,
        ends: m.replay.block_stack.node_end,
    }
}

/// The recordings of blocks that a generator has left.
pub open spec fn block_records_left(s: GeneratorModel) -> BlockRecords {
    BlockRecords {
        addresses: s.context.replay.hasher.block_addresses,
        parents: s.context.replay.block_stack.node_start,
        ends: s.context.replay.block_stack.node_end,
    }
}

/// What a tracer records of an event.
pub open spec fn block_record(m: TracerModel, event: BlockEvent) -> BlockRecords {
    let empty = BlockRecords::empty();
    match event {
        BlockEvent::Begin(_, _, _, _) => BlockRecords {
            addresses: seq![felt(m.hasher.addr as int)],
            parents: seq![top_addr(m.block_stack)],
            ..empty
        },
        BlockEvent::Respan => empty,
        BlockEvent::End => BlockRecords {
            ends: seq![m.block_ended().replay.block_stack.node_end.last()],
            ..empty
        },
    }
}

/// What a tracer records of events.
pub open spec fn blocks_record(m: TracerModel, events: Seq<BlockEvent>) -> BlockRecords
    decreases events.len(),
{
    if events.len() == 0 {
        BlockRecords::empty()
    } else {
        block_record(m, events[0]).followed_by(
            blocks_record(block_traced(m, events[0]), events.drop_first()),
        )
    }
}

/// The generator follows an event with the help of its recordings; `None` if they do not answer
/// it.
pub open spec fn block_followed(s: GeneratorModel, event: BlockEvent) -> Option<GeneratorModel> {
    match event {
        BlockEvent::Begin(_, _, _, _) => node_started(s),
        BlockEvent::Respan => Some(
            s.with_decoder(
                DecoderState {
                    current_addr: felt(s.context.decoder.current_addr@ + HASH_CYCLE_LEN),
                    ..s.context.decoder
                },
            ),
        ),
        BlockEvent::End => match node_ended(s) {
            Some((_, _, t)) => Some(t),
            None => None,
        },
    }
}

/// The generator follows events, one after the other.
pub open spec fn blocks_followed(s: GeneratorModel, events: Seq<BlockEvent>) -> Option<
    GeneratorModel,
>
    decreases events.len(),
{
    if events.len() == 0 {
        Some(s)
    } else {
        match block_followed(s, events[0]) {
            Some(t) => blocks_followed(t, events.drop_first()),
            None => None,
        }
    }
}

/// Whether the decoder of the generator has the addresses of the current block of the tracer and
/// of its parent.
pub open spec fn decoder_in_step(m: TracerModel, s: GeneratorModel) -> bool {
    s.context.decoder == DecoderState {
        current_addr: top_addr(m.block_stack),
        parent_addr: top_parent_addr(m.block_stack),
    }
}

/// What a tracer records of blocks comes after what it has recorded before.
pub proof fn law_blocks_recorded(m: TracerModel, events: Seq<BlockEvent>)
    requires
        allows_blocks(m, events),
    ensures
        block_records(blocks_traced(m, events)) == block_records(m).followed_by(
            blocks_record(m, events),
        ),
    decreases events.len(),
{
    if events.len() > 0 {
        let next = block_traced(m, events[0]);
        law_blocks_recorded(next, events.drop_first());
        assert(block_records(next) =~= block_records(m).followed_by(block_record(m, events[0])));
    }
    assert(block_records(blocks_traced(m, events)) =~= block_records(m).followed_by(
        blocks_record(m, events),
    ));
}

/// When a block ends, the generator finds its address and the flags that say what block it was.
pub proof fn law_block_end_replayed(m: TracerModel, s: GeneratorModel, later: BlockRecords)
    requires
        m.block_stack.len() > 0,
        block_records_left(s) == block_record(m, BlockEvent::End).followed_by(later),
    ensures
        node_ended(s) matches Some((addr, flags, _)) && addr == m.block_stack.last().addr && flags
            == node_flags(
            NodeFlagsModel {
                is_loop_body: m.block_stack.last().loop_body,
                loop_entered: m.block_stack.last().entered_loop(),
                is_call: m.block_stack.last().call(),
                is_syscall: m.block_stack.last().syscall(),
            },
        ),
{
    assert(block_records_left(s).ends[0] == block_record(m, BlockEvent::End).ends[0]);
}

proof fn lemma_block_step(
    m: TracerModel,
    s: GeneratorModel,
    event: BlockEvent,
    later: BlockRecords,
)
    requires
        allows_block(m, event),
        decoder_in_step(m, s),
        block_records_left(s) == block_record(m, event).followed_by(later),
    ensures
        block_followed(s, event) matches Some(t) && decoder_in_step(block_traced(m, event), t)
            && block_records_left(t) == later,
{
    let record = block_record(m, event);
    let left = block_records_left(s);
    match event {
        BlockEvent::Begin(_, _, _, _) => {
            assert(left.addresses[0] == record.addresses[0]);
            assert(left.parents[0] == record.parents[0]);
            assert(left.addresses.drop_first() =~= later.addresses);
            assert(left.parents.drop_first() =~= later.parents);
            assert(left.ends =~= later.ends);
        },
        BlockEvent::Respan => {
            assert(left =~= later);
        },
        BlockEvent::End => {
            assert(left.ends[0] == record.ends[0]);
            assert(left.ends.drop_first() =~= later.ends);
            assert(left.addresses =~= later.addresses);
            assert(left.parents =~= later.parents);
        },
    }
}

/// Replaying what a tracer recorded of blocks, the decoder of the generator stays in step with the
/// block stack of the tracer: after the same events it has the addresses of the same block and of
/// its parent, and no recording is left.
pub proof fn law_decoder_keeps_step(m: TracerModel, s: GeneratorModel, events: Seq<BlockEvent>)
    requires
        allows_blocks(m, events),
        decoder_in_step(m, s),
        block_records_left(s) == blocks_record(m, events),
    ensures
        blocks_followed(s, events) matches Some(t) && decoder_in_step(blocks_traced(m, events), t)
            && block_records_left(t) == BlockRecords::empty(),
    decreases events.len(),
{
    if events.len() > 0 {
        let next = block_traced(m, events[0]);
        lemma_block_step(m, s, events[0], blocks_record(next, events.drop_first()));
        let t = block_followed(s, events[0]).unwrap();
        law_decoder_keeps_step(next, t, events.drop_first());
    }
}

// ANSWERS

/// What the memory, the advice provider, the hasher or the search for a node in another forest
/// answers.
#[verifier::ext_equal]
pub enum Answer {
    Element(Felt),
    Word(Word),
    Words([Word; 2]),
    State(Felt, [Felt; 12]),
    Root(Felt, Word),
    Roots(Felt, Word, Word),
    Node(MastNodeId, Arc<MastForest>),
}

/// The answer that a tracer is told with an event, if the event is about an answer. The answers of
/// the hasher come with the address that the tracer gives to the request.
pub open spec fn answer_told(m: TracerModel, event: TracerEvent) -> Option<Answer> {
    let addr = felt(m.hasher.addr as int);
    match event {
        TracerEvent::MemoryReadElement(element, _, _, _) => Some(Answer::Element(element)),
        TracerEvent::MemoryReadWord(word, _, _, _) => Some(Answer::Word(word)),
        TracerEvent::AdvicePopStack(value) => Some(Answer::Element(value)),
        TracerEvent::AdvicePopStackWord(word) => Some(Answer::Word(word)),
        TracerEvent::AdvicePopStackDword(words) => Some(Answer::Words(words)),
        TracerEvent::HasherPermute(_, output) => Some(Answer::State(addr, output)),
        TracerEvent::HasherBuildMerkleRoot(_, _, _, root) => Some(Answer::Root(addr, root)),
        TracerEvent::HasherUpdateMerkleRoot(_, _, _, _, old_root, new_root) => Some(
            Answer::Roots(addr, old_root, new_root),
        ),
        TracerEvent::MastForestResolution(id, forest) => Some(Answer::Node(id, forest)),
        _ => None,
    }
}

/// The recorded answer to the request that an event is about, and what is left of the recordings;
/// `None` if there is none, or if memory was read at another address.
pub open spec fn answer_replayed(r: ReplayModel, event: TracerEvent) -> Option<
    (Answer, ReplayModel),
> {
    match event {
        TracerEvent::MemoryReadElement(_, addr, _, _) => if r.memory_reads.next_element_at(addr) {
            Some(
                (
                    Answer::Element(r.memory_reads.elements[0].0),
                    ReplayModel { memory_reads: r.memory_reads.element_taken(), ..r },
                ),
            )
        } else {
            None
        },
        TracerEvent::MemoryReadWord(_, addr, _, _) => if r.memory_reads.next_word_at(addr) {
            Some(
                (
                    Answer::Word(r.memory_reads.words[0].0),
                    ReplayModel { memory_reads: r.memory_reads.word_taken(), ..r },
                ),
            )
        } else {
            None
        },
        TracerEvent::AdvicePopStack(_) => if r.advice.pops.len() > 0 {
            let advice = AdviceModel { pops: r.advice.pops.drop_first(), ..r.advice };
            Some((Answer::Element(r.advice.pops[0]), ReplayModel { advice, ..r }))
        } else {
            None
        },
        TracerEvent::AdvicePopStackWord(_) => if r.advice.word_pops.len() > 0 {
            let advice = AdviceModel { word_pops: r.advice.word_pops.drop_first(), ..r.advice };
            Some((Answer::Word(r.advice.word_pops[0]), ReplayModel { advice, ..r }))
        } else {
            None
        },
        TracerEvent::AdvicePopStackDword(_) => if r.advice.dword_pops.len() > 0 {
            let advice = AdviceModel { dword_pops: r.advice.dword_pops.drop_first(), ..r.advice };
            Some((Answer::Words(r.advice.dword_pops[0]), ReplayModel { advice, ..r }))
        } else {
            None
        },
        TracerEvent::HasherPermute(_, _) => if r.hasher.permutations.len() > 0 {
            let (addr, state) = r.hasher.permutations[0];
            let hasher = HasherResponseModel {
                permutations: r.hasher.permutations.drop_first(),
                ..r.hasher
            };
            Some((Answer::State(addr, state), ReplayModel { hasher, ..r }))
        } else {
            None
        },
        TracerEvent::HasherBuildMerkleRoot(_, _, _, _) => if r.hasher.merkle_roots.len() > 0 {
            let (addr, root) = r.hasher.merkle_roots[0];
            let hasher = HasherResponseModel {
                merkle_roots: r.hasher.merkle_roots.drop_first(),
                ..r.hasher
            };
            Some((Answer::Root(addr, root), ReplayModel { hasher, ..r }))
        } else {
            None
        },
        TracerEvent::HasherUpdateMerkleRoot(_, _, _, _, _, _) => if r.hasher.merkle_updates.len()
            > 0 {
            let (addr, old_root, new_root) = r.hasher.merkle_updates[0];
            let hasher = HasherResponseModel {
                merkle_updates: r.hasher.merkle_updates.drop_first(),
                ..r.hasher
            };
            Some((Answer::Roots(addr, old_root, new_root), ReplayModel { hasher, ..r }))
        } else {
            None
        },
        TracerEvent::MastForestResolution(_, _) => if r.resolutions.len() > 0 {
            let (id, forest) = r.resolutions[0];
            Some(
                (
                    Answer::Node(id, forest),
                    ReplayModel { resolutions: r.resolutions.drop_first(), ..r },
                ),
            )
        } else {
            None
        },
        _ => None,
    }
}

/// All recordings of a tracer, the answers of the hasher among them.
pub open spec fn recordings(m: TracerModel) -> ReplayModel {
    ReplayModel { hasher: m.hasher.replay, ..m.replay }
}

/// Whether a tracer accepts events that are about answers, one after the other.
pub open spec fn accepts_answers(m: TracerModel, events: Seq<TracerEvent>) -> bool
    decreases events.len(),
{
    if events.len() == 0 {
        true
    } else {
        &&& answer_told(m, events[0]) is Some
        &&& ExecutionTracer::allows(m, events[0])
        &&& accepts_answers(ExecutionTracer::after(m, events[0]), events.drop_first())
    }
}

/// The answers that a tracer is told.
pub open spec fn answers_told(m: TracerModel, events: Seq<TracerEvent>) -> Seq<Answer>
    decreases events.len(),
{
    if events.len() == 0 {
        Seq::empty()
    } else {
        seq![answer_told(m, events[0]).unwrap()] + answers_told(
            ExecutionTracer::after(m, events[0]),
            events.drop_first(),
        )
    }
}

/// The recorded answers to the requests that events are about, and what is left of the recordings.
pub open spec fn answers_replayed(r: ReplayModel, events: Seq<TracerEvent>) -> Option<
    (Seq<Answer>, ReplayModel),
>
    decreases events.len(),
{
    if events.len() == 0 {
        Some((Seq::empty(), r))
    } else {
        match answer_replayed(r, events[0]) {
            Some((answer, left)) => match answers_replayed(left, events.drop_first()) {
                Some((answers, rest)) => Some((seq![answer] + answers, rest)),
                None => None,
            },
            None => None,
        }
    }
}

/// Recordings followed by others.
pub open spec fn recordings_followed_by(first: ReplayModel, later: ReplayModel) -> ReplayModel {
    ReplayModel {
        block_stack: BlockStackReplayModel {
            node_start: first.block_stack.node_start + later.block_stack.node_start,
            node_end: first.block_stack.node_end + later.block_stack.node_end,
            execution_contexts: first.block_stack.execution_contexts
                + later.block_stack.execution_contexts,
        },
        stack_overflow: followed_by(first.stack_overflow, later.stack_overflow),
        memory_reads: MemoryModel {
            elements: first.memory_reads.elements + later.memory_reads.elements,
            words: first.memory_reads.words + later.memory_reads.words,
        },
        advice: AdviceModel {
            pops: first.advice.pops + later.advice.pops,
            word_pops: first.advice.word_pops + later.advice.word_pops,
            dword_pops: first.advice.dword_pops + later.advice.dword_pops,
        },
        hasher: HasherResponseModel {
            block_addresses: first.hasher.block_addresses + later.hasher.block_addresses,
            permutations: first.hasher.permutations + later.hasher.permutations,
            merkle_roots: first.hasher.merkle_roots + later.hasher.merkle_roots,
            merkle_updates: first.hasher.merkle_updates + later.hasher.merkle_updates,
        },
        resolutions: first.resolutions + later.resolutions,
    }
}

/// What a tracer that has recorded nothing else records of an event.
pub open spec fn recording_of(m: TracerModel, event: TracerEvent) -> ReplayModel {
    let blank = TracerModel {
        replay: ReplayModel::empty(),
        hasher: ShimModel { replay: HasherResponseModel::empty(), ..m.hasher },
        ..m
    };
    recordings(ExecutionTracer::after(blank, event))
}

/// What a tracer records of events that are about answers.
pub open spec fn recordings_of(m: TracerModel, events: Seq<TracerEvent>) -> ReplayModel
    decreases events.len(),
{
    if events.len() == 0 {
        ReplayModel::empty()
    } else {
        recordings_followed_by(
            recording_of(m, events[0]),
            recordings_of(ExecutionTracer::after(m, events[0]), events.drop_first()),
        )
    }
}

/// What a tracer records of answers comes after what it has recorded before.
#[verifier::rlimit(30)]
pub proof fn law_answers_recorded(m: TracerModel, events: Seq<TracerEvent>)
    requires
        accepts_answers(m, events),
    ensures
        recordings(traced(m, events)) == recordings_followed_by(
            recordings(m),
            recordings_of(m, events),
        ),
    decreases events.len(),
{
    if events.len() > 0 {
        let next = ExecutionTracer::after(m, events[0]);
        law_answers_recorded(next, events.drop_first());
        assert(recordings(next) =~= recordings_followed_by(
            recordings(m),
            recording_of(m, events[0]),
        ));
    }
    assert(recordings(traced(m, events)) =~= recordings_followed_by(
        recordings(m),
        recordings_of(m, events),
    ));
}

/// The next recorded answer is the one that the tracer was told.
proof fn lemma_answer_step(m: TracerModel, event: TracerEvent, later: ReplayModel)
    requires
        answer_told(m, event) is Some,
    ensures
        answer_replayed(recordings_followed_by(recording_of(m, event), later), event) == Some(
            (answer_told(m, event).unwrap(), later),
        ),
{
    let first = recording_of(m, event);
    let r = recordings_followed_by(first, later);
    match event {
        TracerEvent::MemoryReadElement(_, _, _, _) => {
            assert(r.memory_reads.elements[0] == first.memory_reads.elements[0]);
        },
        TracerEvent::MemoryReadWord(_, _, _, _) => {
            assert(r.memory_reads.words[0] == first.memory_reads.words[0]);
        },
        TracerEvent::AdvicePopStack(_) => {
            assert(r.advice.pops[0] == first.advice.pops[0]);
        },
        TracerEvent::AdvicePopStackWord(_) => {
            assert(r.advice.word_pops[0] == first.advice.word_pops[0]);
        },
        TracerEvent::AdvicePopStackDword(_) => {
            assert(r.advice.dword_pops[0] == first.advice.dword_pops[0]);
        },
        TracerEvent::HasherPermute(_, _) => {
            assert(r.hasher.permutations[0] == first.hasher.permutations[0]);
        },
        TracerEvent::HasherBuildMerkleRoot(_, _, _, _) => {
            assert(r.hasher.merkle_roots[0] == first.hasher.merkle_roots[0]);
        },
        TracerEvent::HasherUpdateMerkleRoot(_, _, _, _, _, _) => {
            assert(r.hasher.merkle_updates[0] == first.hasher.merkle_updates[0]);
        },
        TracerEvent::MastForestResolution(_, _) => {
            assert(r.resolutions[0] == first.resolutions[0]);
        },
        _ => {},
    }
    assert(answer_replayed(r, event) is Some);
    assert(answer_replayed(r, event).unwrap().1 =~= later);
}

/// Replaying what a tracer recorded of the memory, the advice provider, the hasher and the nodes
/// of other forests gives back the answers that the tracer was told, in the same order of
/// requests, and no recording is left.
pub proof fn law_answers_come_back(m: TracerModel, events: Seq<TracerEvent>)
    requires
        accepts_answers(m, events),
    ensures
        answers_replayed(recordings_of(m, events), events) == Some(
            (answers_told(m, events), ReplayModel::empty()),
        ),
    decreases events.len(),
{
    if events.len() > 0 {
        let next = ExecutionTracer::after(m, events[0]);
        lemma_answer_step(m, events[0], recordings_of(next, events.drop_first()));
        law_answers_come_back(next, events.drop_first());
    }
}

// FRAGMENTS

/// A fragment begins in the state in which the tracer is: with the depth of the stack and the
/// overflow address of the overflow table, and the addresses of the current block and of its
/// parent.
pub proof fn law_fragment_begins_in_step(
    m: TracerModel,
    system: SystemState,
    stack_top: Seq<Felt>,
    continuation: Seq<Continuation>,
    execution_state: NodeExecutionState,
    forest: Arc<MastForest>,
)
    requires
        MIN_STACK_DEPTH + m.overflow_table.current.len() <= usize::MAX,
    ensures
        ({
            let begun = m.fragment_begun(system, stack_top, continuation, execution_state, forest);
            let snapshot = begun.snapshot.unwrap();
            &&& snapshot.stack.depth == MIN_STACK_DEPTH + begun.overflow_table.current.len()
            &&& snapshot.stack.overflow_addr == begun.overflow_table.last_update()
            &&& snapshot.decoder.current_addr == top_addr(begun.block_stack)
            &&& snapshot.decoder.parent_addr == top_parent_addr(begun.block_stack)
        }),
{
}

/// Whether every fragment of a tracer, completed or not, begins in a clock cycle that is a
/// multiple of the size of a fragment.
pub open spec fn fragments_aligned(m: TracerModel) -> bool {
    &&& forall|k: int|
        0 <= k < m.fragment_contexts.len() ==> begins_fragment(
            (#[trigger] m.fragment_contexts[k]).system.clk as int,
            m.fragment_size as int,
        )
    &&& m.snapshot matches Some(snapshot) ==> begins_fragment(
        snapshot.system.clk as int,
        m.fragment_size as int,
    )
}

/// Every event keeps it so that every fragment begins in a clock cycle that is a multiple of the
/// size of a fragment; and a fragment begins only when a clock cycle starts that is one.
pub proof fn law_fragments_aligned(m: TracerModel, event: TracerEvent)
    requires
        fragments_aligned(m),
        ExecutionTracer::allows(m, event),
    ensures
        fragments_aligned(ExecutionTracer::after(m, event)),
        ExecutionTracer::after(m, event).fragment_size == m.fragment_size,
        match event {
            TracerEvent::StartClockCycle(processor, _, _, _) if begins_fragment(
                processor.clk as int,
                m.fragment_size as int,
            ) => {
                let after = ExecutionTracer::after(m, event);
                &&& after.snapshot is Some
                &&& after.snapshot.unwrap().system.clk == processor.clk
                &&& after.fragment_contexts.len() == m.fragment_contexts.len()
                    + if m.snapshot is Some {
                    1int
                } else {
                    0int
                }
            },
            _ => {
                let after = ExecutionTracer::after(m, event);
                &&& after.snapshot == m.snapshot
                &&& after.fragment_contexts == m.fragment_contexts
            },
        },
{
    let after = ExecutionTracer::after(m, event);
    assert forall|k: int| 0 <= k < after.fragment_contexts.len() implies begins_fragment(
        (#[trigger] after.fragment_contexts[k]).system.clk as int,
        after.fragment_size as int,
    ) by {
        if k < m.fragment_contexts.len() {
            assert(after.fragment_contexts[k] == m.fragment_contexts[k]);
        }
    }
}

} // verus!
