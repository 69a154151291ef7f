//! What is recorded during execution so that fragments of the trace can be generated later.
//!
//! A fragment of the core trace is generated from the state in which it begins and from recordings
//! of everything that the generator cannot compute itself: values read from memory, answers of
//! the hasher, and so on. A recording keeps the order: what was recorded first is replayed first.

use crate::ace::CircuitEvaluation;
use crate::ace::CircuitModel;
use crate::context::ContextId;
use crate::context::RowIndex;
use crate::continuation::Continuation;
use crate::continuation::ContinuationStack;
use crate::errors::AdviceError;
use crate::errors::ExecutionError;
use crate::errors::MemoryError;
use crate::fast_processor::FastProcessor;
use crate::felt::felt;
use crate::felt::flag;
use crate::felt::Felt;
use crate::interfaces::AdviceProviderInterface;
use crate::interfaces::HasherInterface;
use crate::interfaces::MemoryInterface;
use crate::layout::MIN_STACK_DEPTH;
use crate::mast::batch_models;
use crate::mast::MastForest;
use crate::mast::MastNodeId;
use crate::mast::MerklePath;
use crate::mast::OpBatch;
use crate::mast::OpBatchModel;
use crate::word::Word;
use std::collections::VecDeque;
use std::sync::Arc;
use vstd::prelude::*;

verus! {

// TRACE FRAGMENT CONTEXT

/// Everything that is needed to build a fragment of the core trace.
///
/// The generator of the fragment changes the context as it goes, so that the context describes
/// the clock cycle that the generator has reached.
#[derive(Debug)]
pub struct CoreTraceFragmentContext {
    /// The state of the processor.
    pub state: CoreTraceState,
    /// What was recorded during the execution of the fragment.
    pub replay: ExecutionReplay,
    /// What remains to be executed once the current node is done.
    pub continuation: ContinuationStack,
    /// The forest that is executed when the fragment begins.
    pub initial_mast_forest: Arc<MastForest>,
    /// Where in the execution of a node the fragment begins.
    pub initial_execution_state: NodeExecutionState,
}

/// What a fragment context holds.
#[verifier::ext_equal]
pub struct ContextModel {
    pub system: SystemState,
    pub decoder: DecoderState,
    pub stack: StackModel,
    pub replay: ReplayModel,
    pub continuation: Seq<Continuation>,
    pub initial_mast_forest: Arc<MastForest>,
    pub initial_execution_state: NodeExecutionState,
}

impl View for CoreTraceFragmentContext {
    type V = ContextModel;

    open spec fn view(&self) -> ContextModel {
        ContextModel {
            system: self.state.system,
            decoder: self.state.decoder,
            stack: self.state.stack@,
            replay: self.replay@,
            continuation: self.continuation@,
            initial_mast_forest: self.initial_mast_forest,
            initial_execution_state: self.initial_execution_state,
        }
    }
}

// CORE TRACE STATE

/// The part of the state of the processor that the core trace shows.
#[derive(Debug)]
pub struct CoreTraceState {
    pub system: SystemState,
    pub decoder: DecoderState,
    pub stack: StackState,
}

// SYSTEM STATE

/// Everything that is needed to build one row of the system columns.
#[derive(Clone, Copy, PartialEq, Eq, Structural, Debug)]
pub struct SystemState {
    /// The clock cycle.
    pub clk: RowIndex,
    /// The execution context.
    pub ctx: ContextId,
    /// The free memory pointer.
    pub fmp: Felt,
    /// Whether a syscall is executed.
    pub in_syscall: bool,
    /// The digest of the procedure that began the execution context.
    pub fn_hash: Word,
}

/// The system state of a processor.
pub open spec fn system_state_of(processor: FastProcessor) -> SystemState {
    SystemState {
        clk: processor.clk,
        ctx: processor.ctx,
        fmp: processor.fmp,
        in_syscall: processor.in_syscall,
        fn_hash: processor.caller_hash,
    }
}

impl SystemState {
    /// The system state of a processor.
    pub fn from_processor(processor: &FastProcessor) -> (r: Self)
        ensures
            r == system_state_of(*processor),
    {
        Self {
            clk: processor.clk,
            ctx: processor.ctx,
            fmp: processor.fmp,
            in_syscall: processor.in_syscall,
            fn_hash: processor.caller_hash,
        }
    }
}

// DECODER STATE

/// The part of the state of the decoder that is needed to build the trace.
#[derive(Clone, Copy, PartialEq, Eq, Structural, Debug)]
pub struct DecoderState {
    /// The address of the current node.
    pub current_addr: Felt,
    /// The address of the parent of the current node.
    pub parent_addr: Felt,
}

// STACK STATE

/// The topmost 16 elements of the stack, which the trace shows, and what the helper columns of the
/// stack are computed from.
#[derive(Debug)]
pub struct StackState {
    /// The topmost 16 elements, the top of the stack last.
    pub stack_top: [Felt; 16],
    stack_depth: usize,
    last_overflow_addr: Felt,
}

/// What a stack state holds.
#[verifier::ext_equal]
pub struct StackModel {
    /// The topmost elements, the top of the stack last.
    pub top: Seq<Felt>,
    /// The number of elements on the stack.
    pub depth: usize,
    /// The clock cycle in which the topmost element of the overflow table was put there, or zero.
    pub overflow_addr: Felt,
}

impl View for StackState {
    type V = StackModel;

    closed spec fn view(&self) -> StackModel {
        StackModel {
            top: self.stack_top@,
            depth: self.stack_depth,
            overflow_addr: self.last_overflow_addr,
        }
    }
}

impl StackModel {
    /// The stack element at a distance from the top of the stack.
    pub open spec fn item(&self, idx: int) -> Felt {
        self.top[MIN_STACK_DEPTH - 1 - idx]
    }

    /// The stack once an element has moved to the overflow table in a clock cycle.
    pub open spec fn overflow_pushed(&self, clk: RowIndex) -> StackModel {
        StackModel {
            depth: (self.depth + 1) as usize,
            overflow_addr: felt(clk as int),
            ..*self
        }
    }

    /// Whether the recording answers a pop from the overflow table.
    pub open spec fn can_pop_overflow(&self, replay: StackOverflowModel) -> bool {
        &&& self.depth >= MIN_STACK_DEPTH
        &&& self.depth > MIN_STACK_DEPTH ==> replay.overflow_values.len() > 0
    }

    /// The element that is popped from the overflow table, if there is one, and the stack and the
    /// recording after that.
    pub open spec fn overflow_popped(&self, replay: StackOverflowModel) -> (
        Option<Felt>,
        StackModel,
        StackOverflowModel,
    ) {
        if self.depth > MIN_STACK_DEPTH {
            let (value, addr) = replay.overflow_values[0];
            (
                Some(value),
                StackModel { depth: (self.depth - 1) as usize, overflow_addr: addr, ..*self },
                StackOverflowModel {
                    overflow_values: replay.overflow_values.drop_first(),
                    ..replay
                },
            )
        } else {
            (None, StackModel { overflow_addr: felt(0), ..*self }, replay)
        }
    }

    /// The stack in a new context, in which nothing is in the overflow table.
    pub open spec fn context_started(&self) -> StackModel {
        StackModel { depth: MIN_STACK_DEPTH, overflow_addr: felt(0), ..*self }
    }

    /// The stack and the recording once the previous context has been restored.
    pub open spec fn context_restored(&self, replay: StackOverflowModel) -> (
        StackModel,
        StackOverflowModel,
    ) {
        let (depth, overflow_addr) = replay.restore_context_info[0];
        (
            StackModel { depth, overflow_addr, ..*self },
            StackOverflowModel {
                restore_context_info: replay.restore_context_info.drop_first(),
                ..replay
            },
        )
    }
}

/// There are 16 topmost elements.
pub broadcast proof fn lemma_stack_top_len(s: StackState)
    ensures
        (#[trigger] s@).top.len() == MIN_STACK_DEPTH,
{
}

impl StackState {
    /// A stack state with the given topmost elements (the top of the stack last), number of
    /// elements and overflow address.
    pub fn new(stack_top: [Felt; 16], stack_depth: usize, last_overflow_addr: Felt) -> (r: Self)
        ensures
            r@ == (StackModel {
                top: stack_top@,
                depth: stack_depth,
                overflow_addr: last_overflow_addr,
            }),
    {
        Self { stack_top, stack_depth, last_overflow_addr }
    }

    /// The topmost elements, the top of the stack last.
    pub fn top(&self) -> (r: [Felt; 16])
        ensures
            r@ == self@.top,
    {
        self.stack_top
    }

    /// The topmost elements, the top of the stack last, to be changed in place.
    pub fn top_mut(&mut self) -> (r: &mut [Felt; 16])
        ensures
            r@ == old(self)@.top,
            final(self)@ == (StackModel { top: final(r)@, ..old(self)@ }),
    {
        &mut self.stack_top
    }

    /// The stack element at a distance from the top of the stack, to be changed in place.
    pub fn get_mut(&mut self, index: usize) -> (r: &mut Felt)
        requires
            index < MIN_STACK_DEPTH,
        ensures
            *r == old(self)@.item(index as int),
            final(self)@ == (StackModel {
                top: old(self)@.top.update(MIN_STACK_DEPTH - 1 - index, *final(r)),
                ..old(self)@
            }),
    {
        &mut self.stack_top[MIN_STACK_DEPTH - index - 1]
    }

    /// The stack element at a distance from the top of the stack.
    pub fn get(&self, index: usize) -> (r: Felt)
        requires
            index < MIN_STACK_DEPTH,
        ensures
            r == self@.item(index as int),
    {
        self.stack_top[MIN_STACK_DEPTH - index - 1]
    }

    /// Puts an element at a distance from the top of the stack.
    pub fn set(&mut self, index: usize, element: Felt)
        requires
            index < MIN_STACK_DEPTH,
        ensures
            final(self)@ == (StackModel {
                top: old(self)@.top.update(MIN_STACK_DEPTH - 1 - index, element),
                ..old(self)@
            }),
    {
        self.stack_top[MIN_STACK_DEPTH - index - 1] = element;
    }

    /// The number of elements on the stack.
    pub fn stack_depth(&self) -> (r: usize)
        ensures
            r == self@.depth,
    {
        self.stack_depth
    }

    /// The overflow address.
    pub fn overflow_addr(&mut self) -> (r: Felt)
        ensures
            r == old(self)@.overflow_addr,
            final(self)@ == old(self)@,
    {
        self.last_overflow_addr
    }

    /// The number of elements in the overflow table of the current context.
    pub fn num_overflow_elements_in_current_ctx(&self) -> (r: usize)
        requires
            self@.depth >= MIN_STACK_DEPTH,
        ensures
            r == self@.depth - MIN_STACK_DEPTH,
    {
        self.stack_depth - MIN_STACK_DEPTH
    }

    /// Moves an element to the overflow table in the given clock cycle.
    pub fn push_overflow(&mut self, _element: Felt, clk: RowIndex)
        requires
            old(self)@.depth < usize::MAX,
        ensures
            final(self)@ == old(self)@.overflow_pushed(clk),
    {
        self.stack_depth = self.stack_depth + 1;
        self.last_overflow_addr = Felt::new(clk as u64);
    }

    /// Takes the topmost element out of the overflow table, if there is one.
    pub fn pop_overflow(&mut self, stack_overflow_replay: &mut StackOverflowReplay) -> (r: Option<
        Felt,
    >)
        requires
            old(self)@.can_pop_overflow(old(stack_overflow_replay)@),
        ensures
            (r, final(self)@, final(stack_overflow_replay)@) == old(self)@.overflow_popped(
                old(stack_overflow_replay)@,
            ),
    {
        if self.stack_depth > MIN_STACK_DEPTH {
            let (stack_value, new_overflow_addr) = stack_overflow_replay.replay_pop_overflow();
            self.stack_depth = self.stack_depth - 1;
            self.last_overflow_addr = new_overflow_addr;
            Some(stack_value)
        } else {
            self.last_overflow_addr = Felt::zero();
            None
        }
    }

    /// The denominator of the overflow helper: the number of elements in the overflow table.
    pub fn overflow_helper(&self) -> (r: Felt)
        requires
            self@.depth >= MIN_STACK_DEPTH,
        ensures
            r == felt(self@.depth - MIN_STACK_DEPTH),
    {
        let denominator: usize = self.stack_depth() - MIN_STACK_DEPTH;
        Felt::new(denominator as u64)
    }

    /// Starts a new context, in which the overflow table appears to be empty; returns the number
    /// of elements on the stack and the overflow address of the context that is left.
    pub fn start_context(&mut self) -> (r: (usize, Felt))
        ensures
            r == (old(self)@.depth, old(self)@.overflow_addr),
            final(self)@ == old(self)@.context_started(),
    {
        let current_depth: usize = self.stack_depth;
        let current_overflow_addr = self.last_overflow_addr;
        self.stack_depth = MIN_STACK_DEPTH;
        self.last_overflow_addr = Felt::zero();
        (current_depth, current_overflow_addr)
    }

    /// Restores the previous context.
    pub fn restore_context(&mut self, stack_overflow_replay: &mut StackOverflowReplay)
        requires
            old(stack_overflow_replay)@.restore_context_info.len() > 0,
        ensures
            (final(self)@, final(stack_overflow_replay)@) == old(self)@.context_restored(
                old(stack_overflow_replay)@,
            ),
    {
        let (stack_depth, last_overflow_addr) =
            stack_overflow_replay.replay_restore_context_overflow_addr();
        self.stack_depth = stack_depth;
        self.last_overflow_addr = last_overflow_addr;
    }
}

// EXECUTION REPLAY

/// The recordings that the generator of a fragment of the core trace replays.
#[derive(Debug)]
pub struct ExecutionReplay {
    pub block_stack: BlockStackReplay,
    pub stack_overflow: StackOverflowReplay,
    pub memory_reads: MemoryReadsReplay,
    pub advice: AdviceReplay,
    pub hasher: HasherResponseReplay,
    pub mast_forest_resolution: MastForestResolutionReplay,
}

/// What the recordings hold.
#[verifier::ext_equal]
pub struct ReplayModel {
    pub block_stack: BlockStackReplayModel,
    pub stack_overflow: StackOverflowModel,
    pub memory_reads: MemoryModel,
    pub advice: AdviceModel,
    pub hasher: HasherResponseModel,
    pub resolutions: Seq<(MastNodeId, Arc<MastForest>)>,
}

impl ReplayModel {
    /// Recordings of nothing.
    pub open spec fn empty() -> ReplayModel {
        ReplayModel {
            block_stack: BlockStackReplayModel::empty(),
            stack_overflow: StackOverflowModel::empty(),
            memory_reads: MemoryModel::empty(),
            advice: AdviceModel::empty(),
            hasher: HasherResponseModel::empty(),
            resolutions: Seq::empty(),
        }
    }

    /// The recordings, with later ones behind them.
    pub open spec fn followed_by(&self, later: ReplayModel) -> ReplayModel {
        ReplayModel {
            block_stack: BlockStackReplayModel {
                node_start: self.block_stack.node_start + later.block_stack.node_start,
                node_end: self.block_stack.node_end + later.block_stack.node_end,
                execution_contexts: self.block_stack.execution_contexts
                    + later.block_stack.execution_contexts,
            },
            stack_overflow: StackOverflowModel {
                overflow_values: self.stack_overflow.overflow_values
                    + later.stack_overflow.overflow_values,
                restore_context_info: self.stack_overflow.restore_context_info
                    + later.stack_overflow.restore_context_info,
            },
            memory_reads: self.memory_reads.followed_by(later.memory_reads),
            advice: AdviceModel {
                pops: self.advice.pops + later.advice.pops,
                word_pops: self.advice.word_pops + later.advice.word_pops,
                dword_pops: self.advice.dword_pops + later.advice.dword_pops,
            },
            hasher: HasherResponseModel {
                block_addresses: self.hasher.block_addresses + later.hasher.block_addresses,
                permutations: self.hasher.permutations + later.hasher.permutations,
                merkle_roots: self.hasher.merkle_roots + later.hasher.merkle_roots,
                merkle_updates: self.hasher.merkle_updates + later.hasher.merkle_updates,
            },
            resolutions: self.resolutions + later.resolutions,
        }
    }
}

impl View for ExecutionReplay {
    type V = ReplayModel;

    open spec fn view(&self) -> ReplayModel {
        ReplayModel {
            block_stack: self.block_stack@,
            stack_overflow: self.stack_overflow@,
            memory_reads: self.memory_reads@,
            advice: self.advice@,
            hasher: self.hasher@,
            resolutions: self.mast_forest_resolution@,
        }
    }
}

impl Default for ExecutionReplay {
    fn default() -> (r: Self)
        ensures
            r@ == ReplayModel::empty(),
    {
        Self {
            block_stack: BlockStackReplay::new(),
            stack_overflow: StackOverflowReplay::new(),
            memory_reads: MemoryReadsReplay::default(),
            advice: AdviceReplay::default(),
            hasher: HasherResponseReplay::default(),
            mast_forest_resolution: MastForestResolutionReplay::default(),
        }
    }
}

// BLOCK STACK REPLAY

/// The recording of the block stack.
#[derive(Debug)]
pub struct BlockStackReplay {
    node_start: VecDeque<Felt>,
    node_end: VecDeque<NodeEndData>,
    execution_contexts: VecDeque<ExecutionContextSystemInfo>,
}

/// What the recording of the block stack holds.
#[verifier::ext_equal]
pub struct BlockStackReplayModel {
    /// The address of the parent, for each node that starts.
    pub node_start: Seq<Felt>,
    /// The state to return to, for each node that ends.
    pub node_end: Seq<NodeEndData>,
    /// The context to return to, for each node that ends a context.
    pub execution_contexts: Seq<ExecutionContextSystemInfo>,
}

impl BlockStackReplayModel {
    /// A recording of nothing.
    pub open spec fn empty() -> BlockStackReplayModel {
        BlockStackReplayModel {
            node_start: Seq::empty(),
            node_end: Seq::empty(),
            execution_contexts: Seq::empty(),
        }
    }
}

impl View for BlockStackReplay {
    type V = BlockStackReplayModel;

    closed spec fn view(&self) -> BlockStackReplayModel {
        BlockStackReplayModel {
            node_start: self.node_start@,
            node_end: self.node_end@,
            execution_contexts: self.execution_contexts@,
        }
    }
}

impl Default for BlockStackReplay {
    fn default() -> (r: Self)
        ensures
            r@ == BlockStackReplayModel::empty(),
    {
        Self::new()
    }
}

impl BlockStackReplay {
    /// A recording of nothing.
    pub fn new() -> (r: Self)
        ensures
            r@ == BlockStackReplayModel::empty(),
    {
        Self {
            node_start: VecDeque::new(),
            node_end: VecDeque::new(),
            execution_contexts: VecDeque::new(),
        }
    }

    /// Records the address of the parent of a node that starts.
    pub fn record_node_start(&mut self, parent_addr: Felt)
        ensures
            final(self)@ == (BlockStackReplayModel {
                node_start: old(self)@.node_start.push(parent_addr),
                ..old(self)@
            }),
    {
        self.node_start.push_back(parent_addr);
    }

    /// Records the state to return to when a node ends.
    pub fn record_node_end(
        &mut self,
        ended_node_addr: Felt,
        flags: NodeFlags,
        prev_addr: Felt,
        prev_parent_addr: Felt,
    )
        ensures
            final(self)@ == (BlockStackReplayModel {
                node_end: old(self)@.node_end.push(
                    NodeEndData { ended_node_addr, flags, prev_addr, prev_parent_addr },
                ),
                ..old(self)@
            }),
    {
        self.node_end.push_back(
            NodeEndData { ended_node_addr, flags, prev_addr, prev_parent_addr },
        );
    }

    /// Records the context to return to when a context ends.
    pub fn record_execution_context(&mut self, ctx_info: ExecutionContextSystemInfo)
        ensures
            final(self)@ == (BlockStackReplayModel {
                execution_contexts: old(self)@.execution_contexts.push(ctx_info),
                ..old(self)@
            }),
    {
        self.execution_contexts.push_back(ctx_info);
    }

    /// Replays the address of the parent of a node that starts.
    pub fn replay_node_start(&mut self) -> (r: Felt)
        requires
            old(self)@.node_start.len() > 0,
        ensures
            r == old(self)@.node_start[0],
            final(self)@ == (BlockStackReplayModel {
                node_start: old(self)@.node_start.drop_first(),
                ..old(self)@
            }),
    {
        self.node_start.pop_front().unwrap()
    }

    /// Replays the state to return to when a node ends.
    pub fn replay_node_end(&mut self) -> (r: NodeEndData)
        requires
            old(self)@.node_end.len() > 0,
        ensures
            r == old(self)@.node_end[0],
            final(self)@ == (BlockStackReplayModel {
                node_end: old(self)@.node_end.drop_first(),
                ..old(self)@
            }),
    {
        self.node_end.pop_front().unwrap()
    }

    /// Replays the context to return to when a context ends.
    pub fn replay_execution_context(&mut self) -> (r: ExecutionContextSystemInfo)
        requires
            old(self)@.execution_contexts.len() > 0,
        ensures
            r == old(self)@.execution_contexts[0],
            final(self)@ == (BlockStackReplayModel {
                execution_contexts: old(self)@.execution_contexts.drop_first(),
                ..old(self)@
            }),
    {
        self.execution_contexts.pop_front().unwrap()
    }
}

/// The flags that the row of an END operation shows.
#[derive(Clone, Copy, PartialEq, Eq, Structural, Debug)]
pub struct NodeFlags {
    is_loop_body: bool,
    loop_entered: bool,
    is_call: bool,
    is_syscall: bool,
}

/// What the flags of a node say.
pub struct NodeFlagsModel {
    /// The node is the body of a loop.
    pub is_loop_body: bool,
    /// The node is a loop and its body was executed at least once.
    pub loop_entered: bool,
    /// The node is a CALL or a DYNCALL.
    pub is_call: bool,
    /// The node is a SYSCALL.
    pub is_syscall: bool,
}

impl View for NodeFlags {
    type V = NodeFlagsModel;

    closed spec fn view(&self) -> NodeFlagsModel {
        NodeFlagsModel {
            is_loop_body: self.is_loop_body,
            loop_entered: self.loop_entered,
            is_call: self.is_call,
            is_syscall: self.is_syscall,
        }
    }
}

/// The flags with the given meaning.
pub closed spec fn node_flags(m: NodeFlagsModel) -> NodeFlags {
    NodeFlags {
        is_loop_body: m.is_loop_body,
        loop_entered: m.loop_entered,
        is_call: m.is_call,
        is_syscall: m.is_syscall,
    }
}

/// The flags with a meaning have that meaning.
pub proof fn law_node_flags(m: NodeFlagsModel)
    ensures
        node_flags(m)@ == m,
{
}

impl NodeFlags {
    /// The flags of a node.
    pub fn new(is_loop_body: bool, loop_entered: bool, is_call: bool, is_syscall: bool) -> (r: Self)
        ensures
            r@ == (NodeFlagsModel { is_loop_body, loop_entered, is_call, is_syscall }),
            r == node_flags(NodeFlagsModel { is_loop_body, loop_entered, is_call, is_syscall }),
    {
        Self { is_loop_body, loop_entered, is_call, is_syscall }
    }

    /// One if the node is the body of a loop, zero otherwise.
    pub fn is_loop_body(&self) -> (r: Felt)
        ensures
            r == flag(self@.is_loop_body),
    {
        Felt::from_bool(self.is_loop_body)
    }

    /// One if the node is a loop and its body was executed at least once, zero otherwise.
    pub fn loop_entered(&self) -> (r: Felt)
        ensures
            r == flag(self@.loop_entered),
    {
        Felt::from_bool(self.loop_entered)
    }

    /// One if the node is a CALL or a DYNCALL, zero otherwise.
    pub fn is_call(&self) -> (r: Felt)
        ensures
            r == flag(self@.is_call),
    {
        Felt::from_bool(self.is_call)
    }

    /// One if the node is a SYSCALL, zero otherwise.
    pub fn is_syscall(&self) -> (r: Felt)
        ensures
            r == flag(self@.is_syscall),
    {
        Felt::from_bool(self.is_syscall)
    }

    /// The word that the row of an END operation shows.
    pub open spec fn word(&self) -> Word {
        Word {
            e0: flag(self@.is_loop_body),
            e1: flag(self@.loop_entered),
            e2: flag(self@.is_call),
            e3: flag(self@.is_syscall),
        }
    }

    /// The flags in the order in which the row of an END operation shows them.
    pub fn to_hasher_state_second_word(&self) -> (r: Word)
        ensures
            r == self.word(),
    {
        Word {
            e0: self.is_loop_body(),
            e1: self.loop_entered(),
            e2: self.is_call(),
            e3: self.is_syscall(),
        }
    }
}

/// The state to return to when a node ends.
#[derive(Clone, Copy, PartialEq, Eq, Structural, Debug)]
pub struct NodeEndData {
    /// The address of the node that ends.
    pub ended_node_addr: Felt,
    /// The flags of the node that ends.
    pub flags: NodeFlags,
    /// The address of the node on top of the block stack after the node has ended, or zero.
    pub prev_addr: Felt,
    /// The address of the parent of that node, or zero.
    pub prev_parent_addr: Felt,
}

/// The context to return to when a context ends.
#[derive(Clone, Copy, PartialEq, Eq, Structural, Debug)]
pub struct ExecutionContextSystemInfo {
    pub parent_ctx: ContextId,
    pub parent_fn_hash: Word,
    pub parent_fmp: Felt,
}

// MAST FOREST RESOLUTION REPLAY

/// The recording of the nodes in other forests that stand for external nodes, or that the digest
/// on the stack names for a dynamic node.
#[derive(Debug)]
pub struct MastForestResolutionReplay {
    mast_forest_resolutions: VecDeque<(MastNodeId, Arc<MastForest>)>,
}

impl View for MastForestResolutionReplay {
    type V = Seq<(MastNodeId, Arc<MastForest>)>;

    closed spec fn view(&self) -> Seq<(MastNodeId, Arc<MastForest>)> {
        self.mast_forest_resolutions@
    }
}

impl Default for MastForestResolutionReplay {
    fn default() -> (r: Self)
        ensures
            r@ == Seq::<(MastNodeId, Arc<MastForest>)>::empty(),
    {
        Self { mast_forest_resolutions: VecDeque::new() }
    }
}

impl MastForestResolutionReplay {
    /// Records a node and its forest.
    pub fn record_resolution(&mut self, node_id: MastNodeId, forest: Arc<MastForest>)
        ensures
            final(self)@ == old(self)@.push((node_id, forest)),
    {
        self.mast_forest_resolutions.push_back((node_id, forest));
    }

    /// Replays a node and its forest.
    pub fn replay_resolution(&mut self) -> (r: (MastNodeId, Arc<MastForest>))
        requires
            old(self)@.len() > 0,
        ensures
            r == old(self)@[0],
            final(self)@ == old(self)@.drop_first(),
    {
        self.mast_forest_resolutions.pop_front().unwrap()
    }
}

// MEMORY REPLAY

/// The recording of all reads from memory: value, address, context and clock cycle.
#[derive(Debug)]
pub struct MemoryReadsReplay {
    elements_read: VecDeque<(Felt, Felt, ContextId, RowIndex)>,
    words_read: VecDeque<(Word, Felt, ContextId, RowIndex)>,
}

/// What a recording of accesses to memory holds: value, address, context and clock cycle.
#[verifier::ext_equal]
pub struct MemoryModel {
    pub elements: Seq<(Felt, Felt, ContextId, RowIndex)>,
    pub words: Seq<(Word, Felt, ContextId, RowIndex)>,
}

impl MemoryModel {
    /// A recording of nothing.
    pub open spec fn empty() -> MemoryModel {
        MemoryModel { elements: Seq::empty(), words: Seq::empty() }
    }

    /// The recording, with a later one behind it.
    pub open spec fn followed_by(&self, later: MemoryModel) -> MemoryModel {
        MemoryModel { elements: self.elements + later.elements, words: self.words + later.words }
    }

    /// The recording with one more element.
    pub open spec fn with_element(
        &self,
        element: Felt,
        addr: Felt,
        ctx: ContextId,
        clk: RowIndex,
    ) -> MemoryModel {
        MemoryModel { elements: self.elements.push((element, addr, ctx, clk)), ..*self }
    }

    /// The recording with one more word.
    pub open spec fn with_word(&self, word: Word, addr: Felt, ctx: ContextId, clk: RowIndex) -> MemoryModel {
        MemoryModel { words: self.words.push((word, addr, ctx, clk)), ..*self }
    }

    /// Whether the next recorded element was read at the given address.
    pub open spec fn next_element_at(&self, addr: Felt) -> bool {
        self.elements.len() > 0 && self.elements[0].1 == addr
    }

    /// Whether the next recorded word was read at the given address.
    pub open spec fn next_word_at(&self, addr: Felt) -> bool {
        self.words.len() > 0 && self.words[0].1 == addr
    }

    /// The recording without its next element.
    pub open spec fn element_taken(&self) -> MemoryModel {
        MemoryModel { elements: self.elements.drop_first(), ..*self }
    }

    /// The recording without its next word.
    pub open spec fn word_taken(&self) -> MemoryModel {
        MemoryModel { words: self.words.drop_first(), ..*self }
    }
}

impl View for MemoryReadsReplay {
    type V = MemoryModel;

    closed spec fn view(&self) -> MemoryModel {
        MemoryModel { elements: self.elements_read@, words: self.words_read@ }
    }
}

impl Default for MemoryReadsReplay {
    fn default() -> (r: Self)
        ensures
            r@ == MemoryModel::empty(),
    {
        Self { elements_read: VecDeque::new(), words_read: VecDeque::new() }
    }
}

impl MemoryReadsReplay {
    /// Records an element that was read.
    pub fn record_read_element(&mut self, element: Felt, addr: Felt, ctx: ContextId, clk: RowIndex)
        ensures
            final(self)@ == old(self)@.with_element(element, addr, ctx, clk),
    {
        self.elements_read.push_back((element, addr, ctx, clk));
    }

    /// Records a word that was read.
    pub fn record_read_word(&mut self, word: Word, addr: Felt, ctx: ContextId, clk: RowIndex)
        ensures
            final(self)@ == old(self)@.with_word(word, addr, ctx, clk),
    {
        self.words_read.push_back((word, addr, ctx, clk));
    }

    /// Replays the read of an element, which must be at the address at which it was recorded.
    pub fn replay_read_element(&mut self, addr: Felt) -> (r: Felt)
        requires
            old(self)@.next_element_at(addr),
        ensures
            r == old(self)@.elements[0].0,
            final(self)@ == old(self)@.element_taken(),
    {
        let (element, _stored_addr, _ctx, _clk) = self.elements_read.pop_front().unwrap();
        element
    }

    /// Replays the read of a word, which must be at the address at which it was recorded.
    pub fn replay_read_word(&mut self, addr: Felt) -> (r: Word)
        requires
            old(self)@.next_word_at(addr),
        ensures
            r == old(self)@.words[0].0,
            final(self)@ == old(self)@.word_taken(),
    {
        let (word, _stored_addr, _ctx, _clk) = self.words_read.pop_front().unwrap();
        word
    }

    /// All recorded reads of elements: element, address, context and clock cycle.
    pub fn iter_read_elements(&self) -> (r: Vec<(Felt, Felt, ContextId, RowIndex)>)
        ensures
            r@ == self@.elements,
    {
        copied_elements(&self.elements_read)
    }

    /// All recorded reads of words: word, address, context and clock cycle.
    pub fn iter_read_words(&self) -> (r: Vec<(Word, Felt, ContextId, RowIndex)>)
        ensures
            r@ == self@.words,
    {
        copied_words(&self.words_read)
    }
}

fn copied_elements(entries: &VecDeque<(Felt, Felt, ContextId, RowIndex)>) -> (r: Vec<
    (Felt, Felt, ContextId, RowIndex),
>)
    ensures
        r@ == entries@,
{
    let mut r: Vec<(Felt, Felt, ContextId, RowIndex)> = Vec::new();
    for i in 0..entries.len()
        invariant
            r@ == entries@.take(i as int),
    {
        r.push(entries[i]);
        assert(entries@.take(i as int + 1) == entries@.take(i as int).push(entries@[i as int]));
    }
    assert(entries@.take(entries@.len() as int) == entries@);
    r
}

fn copied_words(entries: &VecDeque<(Word, Felt, ContextId, RowIndex)>) -> (r: Vec<
    (Word, Felt, ContextId, RowIndex),
>)
    ensures
        r@ == entries@,
{
    let mut r: Vec<(Word, Felt, ContextId, RowIndex)> = Vec::new();
    for i in 0..entries.len()
        invariant
            r@ == entries@.take(i as int),
    {
        r.push(entries[i]);
        assert(entries@.take(i as int + 1) == entries@.take(i as int).push(entries@[i as int]));
    }
    assert(entries@.take(entries@.len() as int) == entries@);
    r
}

/// The recording of all writes to memory: value, address, context and clock cycle.
///
/// The core trace does not depend on them; they are needed for the trace of the memory.
#[derive(Debug)]
pub struct MemoryWritesReplay {
    elements_written: VecDeque<(Felt, Felt, ContextId, RowIndex)>,
    words_written: VecDeque<(Word, Felt, ContextId, RowIndex)>,
}

impl View for MemoryWritesReplay {
    type V = MemoryModel;

    closed spec fn view(&self) -> MemoryModel {
        MemoryModel { elements: self.elements_written@, words: self.words_written@ }
    }
}

impl Default for MemoryWritesReplay {
    fn default() -> (r: Self)
        ensures
            r@ == MemoryModel::empty(),
    {
        Self { elements_written: VecDeque::new(), words_written: VecDeque::new() }
    }
}

impl MemoryWritesReplay {
    /// Records an element that was written.
    pub fn record_write_element(&mut self, element: Felt, addr: Felt, ctx: ContextId, clk: RowIndex)
        ensures
            final(self)@ == old(self)@.with_element(element, addr, ctx, clk),
    {
        self.elements_written.push_back((element, addr, ctx, clk));
    }

    /// Records a word that was written.
    pub fn record_write_word(&mut self, word: Word, addr: Felt, ctx: ContextId, clk: RowIndex)
        ensures
            final(self)@ == old(self)@.with_word(word, addr, ctx, clk),
    {
        self.words_written.push_back((word, addr, ctx, clk));
    }

    /// All recorded writes of elements: element, address, context and clock cycle.
    pub fn iter_elements_written(&self) -> (r: Vec<(Felt, Felt, ContextId, RowIndex)>)
        ensures
            r@ == self@.elements,
    {
        copied_elements(&self.elements_written)
    }

    /// All recorded writes of words: word, address, context and clock cycle.
    pub fn iter_words_written(&self) -> (r: Vec<(Word, Felt, ContextId, RowIndex)>)
        ensures
            r@ == self@.words,
    {
        copied_words(&self.words_written)
    }
}

impl MemoryInterface for MemoryReadsReplay {
    type State = MemoryModel;

    open spec fn state(&self) -> MemoryModel {
        self@
    }

    open spec fn can_read_element(s: MemoryModel, addr: Felt) -> bool {
        s.next_element_at(addr)
    }

    open spec fn element_read(s: MemoryModel, addr: Felt) -> Felt {
        s.elements[0].0
    }

    open spec fn after_element_read(s: MemoryModel, addr: Felt) -> MemoryModel {
        s.element_taken()
    }

    open spec fn can_read_word(s: MemoryModel, addr: Felt) -> bool {
        s.next_word_at(addr)
    }

    open spec fn word_read(s: MemoryModel, addr: Felt) -> Word {
        s.words[0].0
    }

    open spec fn after_word_read(s: MemoryModel, addr: Felt) -> MemoryModel {
        s.word_taken()
    }

    fn read_element(&mut self, _ctx: ContextId, addr: Felt) -> Result<Felt, MemoryError> {
        Ok(self.replay_read_element(addr))
    }

    fn read_word(&mut self, _ctx: ContextId, addr: Felt, _clk: RowIndex) -> Result<
        Word,
        MemoryError,
    > {
        Ok(self.replay_read_word(addr))
    }

    /// Does nothing: no recorded answer depends on a write.
    fn write_element(&mut self, _ctx: ContextId, _addr: Felt, _element: Felt) -> (r: Result<
        (),
        MemoryError,
    >)
        ensures
            r is Ok,
            final(self)@ == old(self)@,
    {
        Ok(())
    }

    /// Does nothing: no recorded answer depends on a write.
    fn write_word(&mut self, _ctx: ContextId, _addr: Felt, _clk: RowIndex, _word: Word) -> (r:
        Result<(), MemoryError>)
        ensures
            r is Ok,
            final(self)@ == old(self)@,
    {
        Ok(())
    }
}

// ADVICE REPLAY

/// The recording of everything that was taken off the advice stack.
#[derive(Debug)]
pub struct AdviceReplay {
    stack_pops: VecDeque<Felt>,
    stack_word_pops: VecDeque<Word>,
    stack_dword_pops: VecDeque<[Word; 2]>,
}

/// What the recording of the advice stack holds.
#[verifier::ext_equal]
pub struct AdviceModel {
    pub pops: Seq<Felt>,
    pub word_pops: Seq<Word>,
    pub dword_pops: Seq<[Word; 2]>,
}

impl AdviceModel {
    /// A recording of nothing.
    pub open spec fn empty() -> AdviceModel {
        AdviceModel { pops: Seq::empty(), word_pops: Seq::empty(), dword_pops: Seq::empty() }
    }
}

impl View for AdviceReplay {
    type V = AdviceModel;

    closed spec fn view(&self) -> AdviceModel {
        AdviceModel {
            pops: self.stack_pops@,
            word_pops: self.stack_word_pops@,
            dword_pops: self.stack_dword_pops@,
        }
    }
}

impl Default for AdviceReplay {
    fn default() -> (r: Self)
        ensures
            r@ == AdviceModel::empty(),
    {
        Self {
            stack_pops: VecDeque::new(),
            stack_word_pops: VecDeque::new(),
            stack_dword_pops: VecDeque::new(),
        }
    }
}

impl AdviceReplay {
    /// Records an element that was popped.
    pub fn record_pop_stack(&mut self, value: Felt)
        ensures
            final(self)@ == (AdviceModel { pops: old(self)@.pops.push(value), ..old(self)@ }),
    {
        self.stack_pops.push_back(value);
    }

    /// Records a word that was popped.
    pub fn record_pop_stack_word(&mut self, word: Word)
        ensures
            final(self)@ == (AdviceModel {
                word_pops: old(self)@.word_pops.push(word),
                ..old(self)@
            }),
    {
        self.stack_word_pops.push_back(word);
    }

    /// Records two words that were popped.
    pub fn record_pop_stack_dword(&mut self, dword: [Word; 2])
        ensures
            final(self)@ == (AdviceModel {
                dword_pops: old(self)@.dword_pops.push(dword),
                ..old(self)@
            }),
    {
        self.stack_dword_pops.push_back(dword);
    }

    /// Replays the pop of an element.
    pub fn replay_pop_stack(&mut self) -> (r: Felt)
        requires
            old(self)@.pops.len() > 0,
        ensures
            r == old(self)@.pops[0],
            final(self)@ == (AdviceModel { pops: old(self)@.pops.drop_first(), ..old(self)@ }),
    {
        self.stack_pops.pop_front().unwrap()
    }

    /// Replays the pop of a word.
    pub fn replay_pop_stack_word(&mut self) -> (r: Word)
        requires
            old(self)@.word_pops.len() > 0,
        ensures
            r == old(self)@.word_pops[0],
            final(self)@ == (AdviceModel {
                word_pops: old(self)@.word_pops.drop_first(),
                ..old(self)@
            }),
    {
        self.stack_word_pops.pop_front().unwrap()
    }

    /// Replays the pop of two words.
    pub fn replay_pop_stack_dword(&mut self) -> (r: [Word; 2])
        requires
            old(self)@.dword_pops.len() > 0,
        ensures
            r == old(self)@.dword_pops[0],
            final(self)@ == (AdviceModel {
                dword_pops: old(self)@.dword_pops.drop_first(),
                ..old(self)@
            }),
    {
        self.stack_dword_pops.pop_front().unwrap()
    }
}

impl AdviceProviderInterface for AdviceReplay {
    type State = AdviceModel;

    open spec fn state(&self) -> AdviceModel {
        self@
    }

    open spec fn can_pop(s: AdviceModel) -> bool {
        s.pops.len() > 0
    }

    open spec fn popped(s: AdviceModel) -> (Felt, AdviceModel) {
        (s.pops[0], AdviceModel { pops: s.pops.drop_first(), ..s })
    }

    open spec fn can_pop_word(s: AdviceModel) -> bool {
        s.word_pops.len() > 0
    }

    open spec fn popped_word(s: AdviceModel) -> (Word, AdviceModel) {
        (s.word_pops[0], AdviceModel { word_pops: s.word_pops.drop_first(), ..s })
    }

    open spec fn can_pop_dword(s: AdviceModel) -> bool {
        s.dword_pops.len() > 0
    }

    open spec fn popped_dword(s: AdviceModel) -> ([Word; 2], AdviceModel) {
        (s.dword_pops[0], AdviceModel { dword_pops: s.dword_pops.drop_first(), ..s })
    }

    fn pop_stack(&mut self) -> Result<Felt, AdviceError> {
        Ok(self.replay_pop_stack())
    }

    fn pop_stack_word(&mut self) -> Result<Word, AdviceError> {
        Ok(self.replay_pop_stack_word())
    }

    fn pop_stack_dword(&mut self) -> Result<[Word; 2], AdviceError> {
        Ok(self.replay_pop_stack_dword())
    }

    /// No path: the generation of the trace ignores Merkle paths.
    fn get_merkle_path(&self, _root: Word, _depth: &Felt, _index: &Felt) -> (r: Result<
        Option<MerklePath>,
        AdviceError,
    >)
        ensures
            r matches Ok(path) && path is None,
    {
        Ok(None)
    }

    /// No path: the generation of the trace ignores Merkle paths.
    fn update_merkle_node(
        &mut self,
        _root: Word,
        _depth: &Felt,
        _index: &Felt,
        _value: Word,
    ) -> (r: Result<Option<MerklePath>, AdviceError>)
        ensures
            r matches Ok(path) && path is None,
            final(self)@ == old(self)@,
    {
        Ok(None)
    }
}

// BITWISE REPLAY

/// The bitwise operations that are recorded.
#[derive(Clone, Copy, PartialEq, Eq, Structural, Debug)]
pub enum BitwiseOp {
    U32And,
    U32Xor,
}

/// The recording of the bitwise operations and their operands.
#[derive(Debug)]
pub struct BitwiseReplay {
    u32op_with_operands: VecDeque<(BitwiseOp, Felt, Felt)>,
}

impl View for BitwiseReplay {
    type V = Seq<(BitwiseOp, Felt, Felt)>;

    closed spec fn view(&self) -> Seq<(BitwiseOp, Felt, Felt)> {
        self.u32op_with_operands@
    }
}

impl Default for BitwiseReplay {
    fn default() -> (r: Self)
        ensures
            r@ == Seq::<(BitwiseOp, Felt, Felt)>::empty(),
    {
        Self { u32op_with_operands: VecDeque::new() }
    }
}

impl BitwiseReplay {
    /// Records the operands of a bitwise AND.
    pub fn record_u32and(&mut self, a: Felt, b: Felt)
        ensures
            final(self)@ == old(self)@.push((BitwiseOp::U32And, a, b)),
    {
        self.u32op_with_operands.push_back((BitwiseOp::U32And, a, b));
    }

    /// Records the operands of a bitwise XOR.
    pub fn record_u32xor(&mut self, a: Felt, b: Felt)
        ensures
            final(self)@ == old(self)@.push((BitwiseOp::U32Xor, a, b)),
    {
        self.u32op_with_operands.push_back((BitwiseOp::U32Xor, a, b));
    }

    /// All recorded operations, in order.
    pub fn into_entries(self) -> (r: VecDeque<(BitwiseOp, Felt, Felt)>)
        ensures
            r@ == self@,
    {
        self.u32op_with_operands
    }
}

// KERNEL REPLAY

/// The recording of the kernel procedures that were called.
#[derive(Debug)]
pub struct KernelReplay {
    kernel_proc_accesses: VecDeque<Word>,
}

impl View for KernelReplay {
    type V = Seq<Word>;

    closed spec fn view(&self) -> Seq<Word> {
        self.kernel_proc_accesses@
    }
}

impl Default for KernelReplay {
    fn default() -> (r: Self)
        ensures
            r@ == Seq::<Word>::empty(),
    {
        Self { kernel_proc_accesses: VecDeque::new() }
    }
}

impl KernelReplay {
    /// Records the digest of a kernel procedure that was called.
    pub fn record_kernel_proc_access(&mut self, proc_hash: Word)
        ensures
            final(self)@ == old(self)@.push(proc_hash),
    {
        self.kernel_proc_accesses.push_back(proc_hash);
    }

    /// All recorded digests, in order.
    pub fn into_entries(self) -> (r: VecDeque<Word>)
        ensures
            r@ == self@,
    {
        self.kernel_proc_accesses
    }
}

// ACE REPLAY

/// The recording of the circuits that were evaluated, with their clock cycles.
#[derive(Debug)]
pub struct AceReplay {
    circuit_evaluations: VecDeque<(RowIndex, CircuitEvaluation)>,
}

/// What each of the evaluations holds.
pub open spec fn circuit_models(entries: Seq<(RowIndex, CircuitEvaluation)>) -> Seq<
    (RowIndex, CircuitModel),
> {
    entries.map_values(|e: (RowIndex, CircuitEvaluation)| (e.0, e.1@))
}

impl View for AceReplay {
    type V = Seq<(RowIndex, CircuitModel)>;

    closed spec fn view(&self) -> Seq<(RowIndex, CircuitModel)> {
        circuit_models(self.circuit_evaluations@)
    }
}

impl Default for AceReplay {
    fn default() -> (r: Self)
        ensures
            r@ == Seq::<(RowIndex, CircuitModel)>::empty(),
    {
        Self { circuit_evaluations: VecDeque::new() }
    }
}

impl AceReplay {
    /// Records the evaluation of a circuit.
    pub fn record_circuit_evaluation(&mut self, clk: RowIndex, circuit_eval: CircuitEvaluation)
        ensures
            final(self)@ == old(self)@.push((clk, circuit_eval@)),
    {
        self.circuit_evaluations.push_back((clk, circuit_eval));
    }

    /// All recorded evaluations, in order.
    pub fn into_entries(self) -> (r: VecDeque<(RowIndex, CircuitEvaluation)>)
        ensures
            circuit_models(r@) == self@,
    {
        self.circuit_evaluations
    }
}

// RANGE CHECKER REPLAY

/// The recording of the 16-bit limbs that operations on 32-bit values range-check.
#[derive(Debug)]
pub struct RangeCheckerReplay {
    range_checks_u32_ops: VecDeque<(RowIndex, [u16; 4])>,
}

impl View for RangeCheckerReplay {
    type V = Seq<(RowIndex, [u16; 4])>;

    closed spec fn view(&self) -> Seq<(RowIndex, [u16; 4])> {
        self.range_checks_u32_ops@
    }
}

impl Default for RangeCheckerReplay {
    fn default() -> (r: Self)
        ensures
            r@ == Seq::<(RowIndex, [u16; 4])>::empty(),
    {
        Self { range_checks_u32_ops: VecDeque::new() }
    }
}

impl RangeCheckerReplay {
    /// Records the limbs that are range-checked in a clock cycle.
    pub fn record_range_check_u32(&mut self, row_index: RowIndex, u16_limbs: [u16; 4])
        ensures
            final(self)@ == old(self)@.push((row_index, u16_limbs)),
    {
        self.range_checks_u32_ops.push_back((row_index, u16_limbs));
    }

    /// All recorded limbs, in order.
    pub fn into_entries(self) -> (r: VecDeque<(RowIndex, [u16; 4])>)
        ensures
            r@ == self@,
    {
        self.range_checks_u32_ops
    }
}

// HASHER RESPONSE REPLAY

/// The recording of the answers of the hasher.
#[derive(Debug)]
pub struct HasherResponseReplay {
    block_addresses: VecDeque<Felt>,
    permutation_operations: VecDeque<(Felt, [Felt; 12])>,
    build_merkle_root_operations: VecDeque<(Felt, Word)>,
    mrupdate_operations: VecDeque<(Felt, Word, Word)>,
}

/// What the recording of the answers of the hasher holds.
#[verifier::ext_equal]
pub struct HasherResponseModel {
    /// The addresses of the nodes that were hashed.
    pub block_addresses: Seq<Felt>,
    /// The address and the result of each permutation.
    pub permutations: Seq<(Felt, [Felt; 12])>,
    /// The address and the computed root of each Merkle path that was checked.
    pub merkle_roots: Seq<(Felt, Word)>,
    /// The address, the old root and the new root of each Merkle root that was updated.
    pub merkle_updates: Seq<(Felt, Word, Word)>,
}

impl HasherResponseModel {
    /// A recording of nothing.
    pub open spec fn empty() -> HasherResponseModel {
        HasherResponseModel {
            block_addresses: Seq::empty(),
            permutations: Seq::empty(),
            merkle_roots: Seq::empty(),
            merkle_updates: Seq::empty(),
        }
    }
}

impl View for HasherResponseReplay {
    type V = HasherResponseModel;

    closed spec fn view(&self) -> HasherResponseModel {
        HasherResponseModel {
            block_addresses: self.block_addresses@,
            permutations: self.permutation_operations@,
            merkle_roots: self.build_merkle_root_operations@,
            merkle_updates: self.mrupdate_operations@,
        }
    }
}

impl Default for HasherResponseReplay {
    fn default() -> (r: Self)
        ensures
            r@ == HasherResponseModel::empty(),
    {
        Self {
            block_addresses: VecDeque::new(),
            permutation_operations: VecDeque::new(),
            build_merkle_root_operations: VecDeque::new(),
            mrupdate_operations: VecDeque::new(),
        }
    }
}

impl HasherResponseReplay {
    /// Records the address of a node that was hashed.
    pub fn record_block_address(&mut self, addr: Felt)
        ensures
            final(self)@ == (HasherResponseModel {
                block_addresses: old(self)@.block_addresses.push(addr),
                ..old(self)@
            }),
    {
        self.block_addresses.push_back(addr);
    }

    /// Records the address and the result of a permutation.
    pub fn record_permute(&mut self, addr: Felt, hashed_state: [Felt; 12])
        ensures
            final(self)@ == (HasherResponseModel {
                permutations: old(self)@.permutations.push((addr, hashed_state)),
                ..old(self)@
            }),
    {
        self.permutation_operations.push_back((addr, hashed_state));
    }

    /// Records the address and the computed root of a Merkle path that was checked.
    pub fn record_build_merkle_root(&mut self, addr: Felt, computed_root: Word)
        ensures
            final(self)@ == (HasherResponseModel {
                merkle_roots: old(self)@.merkle_roots.push((addr, computed_root)),
                ..old(self)@
            }),
    {
        self.build_merkle_root_operations.push_back((addr, computed_root));
    }

    /// Records the address, the old root and the new root of a Merkle root that was updated.
    pub fn record_update_merkle_root(&mut self, addr: Felt, old_root: Word, new_root: Word)
        ensures
            final(self)@ == (HasherResponseModel {
                merkle_updates: old(self)@.merkle_updates.push((addr, old_root, new_root)),
                ..old(self)@
            }),
    {
        self.mrupdate_operations.push_back((addr, old_root, new_root));
    }

    /// Replays the address of a node that was hashed.
    pub fn replay_block_address(&mut self) -> (r: Felt)
        requires
            old(self)@.block_addresses.len() > 0,
        ensures
            r == old(self)@.block_addresses[0],
            final(self)@ == (HasherResponseModel {
                block_addresses: old(self)@.block_addresses.drop_first(),
                ..old(self)@
            }),
    {
        self.block_addresses.pop_front().unwrap()
    }

    /// Replays the address and the result of a permutation.
    pub fn replay_permute(&mut self) -> (r: (Felt, [Felt; 12]))
        requires
            old(self)@.permutations.len() > 0,
        ensures
            r == old(self)@.permutations[0],
            final(self)@ == (HasherResponseModel {
                permutations: old(self)@.permutations.drop_first(),
                ..old(self)@
            }),
    {
        self.permutation_operations.pop_front().unwrap()
    }

    /// Replays the address and the computed root of a Merkle path that was checked.
    pub fn replay_build_merkle_root(&mut self) -> (r: (Felt, Word))
        requires
            old(self)@.merkle_roots.len() > 0,
        ensures
            r == old(self)@.merkle_roots[0],
            final(self)@ == (HasherResponseModel {
                merkle_roots: old(self)@.merkle_roots.drop_first(),
                ..old(self)@
            }),
    {
        self.build_merkle_root_operations.pop_front().unwrap()
    }

    /// Replays the address, the old root and the new root of a Merkle root that was updated.
    pub fn replay_update_merkle_root(&mut self) -> (r: (Felt, Word, Word))
        requires
            old(self)@.merkle_updates.len() > 0,
        ensures
            r == old(self)@.merkle_updates[0],
            final(self)@ == (HasherResponseModel {
                merkle_updates: old(self)@.merkle_updates.drop_first(),
                ..old(self)@
            }),
    {
        self.mrupdate_operations.pop_front().unwrap()
    }
}

impl HasherInterface for HasherResponseReplay {
    type State = HasherResponseModel;

    open spec fn state(&self) -> HasherResponseModel {
        self@
    }

    open spec fn can_permute(s: HasherResponseModel) -> bool {
        s.permutations.len() > 0
    }

    open spec fn permuted(s: HasherResponseModel) -> ((Felt, [Felt; 12]), HasherResponseModel) {
        (
            s.permutations[0],
            HasherResponseModel { permutations: s.permutations.drop_first(), ..s },
        )
    }

    open spec fn can_verify(s: HasherResponseModel) -> bool {
        s.merkle_roots.len() > 0
    }

    open spec fn verified(s: HasherResponseModel) -> ((Felt, Word), HasherResponseModel) {
        (
            s.merkle_roots[0],
            HasherResponseModel { merkle_roots: s.merkle_roots.drop_first(), ..s },
        )
    }

    open spec fn can_update(s: HasherResponseModel) -> bool {
        s.merkle_updates.len() > 0
    }

    open spec fn updated(s: HasherResponseModel) -> ((Felt, Word, Word), HasherResponseModel) {
        (
            s.merkle_updates[0],
            HasherResponseModel { merkle_updates: s.merkle_updates.drop_first(), ..s },
        )
    }

    fn permute(&mut self, _state: [Felt; 12]) -> (Felt, [Felt; 12]) {
        self.replay_permute()
    }

    fn verify_merkle_root<F: FnOnce() -> ExecutionError>(
        &mut self,
        claimed_root: Word,
        _value: Word,
        _path: Option<&MerklePath>,
        _index: Felt,
        on_err: F,
    ) -> Result<Felt, ExecutionError> {
        let (addr, computed_root) = self.replay_build_merkle_root();
        if claimed_root == computed_root {
            Ok(addr)
        } else {
            Err(on_err())
        }
    }

    fn update_merkle_root<F: FnOnce() -> ExecutionError>(
        &mut self,
        claimed_old_root: Word,
        _old_value: Word,
        _new_value: Word,
        _path: Option<&MerklePath>,
        _index: Felt,
        on_err: F,
    ) -> Result<(Felt, Word), ExecutionError> {
        let (address, old_root, new_root) = self.replay_update_merkle_root();
        if claimed_old_root == old_root {
            Ok((address, new_root))
        } else {
            Err(on_err())
        }
    }
}

// HASHER REQUEST REPLAY

/// A request to the hasher, with its operands.
#[derive(Debug)]
pub enum HasherOp {
    /// Apply the permutation to a state.
    Permute([Felt; 12]),
    /// Hash two words in a domain; the last word is the expected digest.
    HashControlBlock((Word, Word, Felt, Word)),
    /// Hash batches of operations; the word is the expected digest.
    HashBasicBlock((Vec<OpBatch>, Word)),
    /// Compute a Merkle root from a leaf, a path and the index of the leaf.
    BuildMerkleRoot((Word, MerklePath, Felt)),
    /// Compute two Merkle roots, from the old and the new value of a leaf.
    UpdateMerkleRoot((Word, Word, MerklePath, Felt)),
}

/// What a request to the hasher holds.
#[verifier::ext_equal]
pub enum HasherOpModel {
    Permute([Felt; 12]),
    HashControlBlock(Word, Word, Felt, Word),
    HashBasicBlock(Seq<OpBatchModel>, Word),
    BuildMerkleRoot(Word, Seq<Word>, Felt),
    UpdateMerkleRoot(Word, Word, Seq<Word>, Felt),
}

impl View for HasherOp {
    type V = HasherOpModel;

    open spec fn view(&self) -> HasherOpModel {
        match self {
            HasherOp::Permute(state) => HasherOpModel::Permute(*state),
            HasherOp::HashControlBlock((h1, h2, domain, hash)) => HasherOpModel::HashControlBlock(
                *h1,
                *h2,
                *domain,
                *hash,
            ),
            HasherOp::HashBasicBlock((batches, hash)) => HasherOpModel::HashBasicBlock(
                batch_models(batches@),
                *hash,
            ),
            HasherOp::BuildMerkleRoot((leaf, path, index)) => HasherOpModel::BuildMerkleRoot(
                *leaf,
                path@,
                *index,
            ),
            HasherOp::UpdateMerkleRoot((old_value, new_value, path, index)) => {
                HasherOpModel::UpdateMerkleRoot(*old_value, *new_value, path@, *index)
            },
        }
    }
}

/// What each of the requests holds.
pub open spec fn hasher_op_models(entries: Seq<HasherOp>) -> Seq<HasherOpModel> {
    entries.map_values(|e: HasherOp| e@)
}

/// The recording of all requests to the hasher, from which the trace of the hasher is built.
#[derive(Debug)]
pub struct HasherRequestReplay {
    hasher_ops: VecDeque<HasherOp>,
}

impl View for HasherRequestReplay {
    type V = Seq<HasherOpModel>;

    closed spec fn view(&self) -> Seq<HasherOpModel> {
        hasher_op_models(self.hasher_ops@)
    }
}

impl Default for HasherRequestReplay {
    fn default() -> (r: Self)
        ensures
            r@ == Seq::<HasherOpModel>::empty(),
    {
        Self { hasher_ops: VecDeque::new() }
    }
}

impl HasherRequestReplay {
    /// Records a request for a permutation.
    pub fn record_permute_input(&mut self, state: [Felt; 12])
        ensures
            final(self)@ == old(self)@.push(HasherOpModel::Permute(state)),
    {
        self.hasher_ops.push_back(HasherOp::Permute(state));
    }

    /// Records a request for the digest of a control block.
    pub fn record_hash_control_block(
        &mut self,
        h1: Word,
        h2: Word,
        domain: Felt,
        expected_hash: Word,
    )
        ensures
            final(self)@ == old(self)@.push(
                HasherOpModel::HashControlBlock(h1, h2, domain, expected_hash),
            ),
    {
        self.hasher_ops.push_back(HasherOp::HashControlBlock((h1, h2, domain, expected_hash)));
    }

    /// Records a request for the digest of a basic block.
    pub fn record_hash_basic_block(&mut self, op_batches: Vec<OpBatch>, expected_hash: Word)
        ensures
            final(self)@ == old(self)@.push(
                HasherOpModel::HashBasicBlock(batch_models(op_batches@), expected_hash),
            ),
    {
        self.hasher_ops.push_back(HasherOp::HashBasicBlock((op_batches, expected_hash)));
    }

    /// Records a request for a Merkle root.
    pub fn record_build_merkle_root(&mut self, leaf: Word, path: MerklePath, index: Felt)
        ensures
            final(self)@ == old(self)@.push(HasherOpModel::BuildMerkleRoot(leaf, path@, index)),
    {
        self.hasher_ops.push_back(HasherOp::BuildMerkleRoot((leaf, path, index)));
    }

    /// Records a request for the update of a Merkle root.
    pub fn record_update_merkle_root(
        &mut self,
        old_value: Word,
        new_value: Word,
        path: MerklePath,
        index: Felt,
    )
        ensures
            final(self)@ == old(self)@.push(
                HasherOpModel::UpdateMerkleRoot(old_value, new_value, path@, index),
            ),
    {
        self.hasher_ops.push_back(
            HasherOp::UpdateMerkleRoot((old_value, new_value, path, index)),
        );
    }

    /// All recorded requests, in order.
    pub fn into_entries(self) -> (r: VecDeque<HasherOp>)
        ensures
            hasher_op_models(r@) == self@,
    {
        self.hasher_ops
    }
}

// STACK OVERFLOW REPLAY

/// The recording of the overflow table: what was popped from it and what contexts were restored.
#[derive(Debug)]
pub struct StackOverflowReplay {
    overflow_values: VecDeque<(Felt, Felt)>,
    restore_context_info: VecDeque<(usize, Felt)>,
}

/// What the recording of the overflow table holds.
#[verifier::ext_equal]
pub struct StackOverflowModel {
    /// Each value that was popped, with the overflow address after the pop. For example, a pop
    /// from a table of the entries `(8, 14)`, `(2, 16)` and `(7, 18)`, of value and clock cycle
    /// each, is recorded as `(7, 16)`.
    pub overflow_values: Seq<(Felt, Felt)>,
    /// The stack depth and the overflow address of each context that was restored.
    pub restore_context_info: Seq<(usize, Felt)>,
}

impl StackOverflowModel {
    /// A recording of nothing.
    pub open spec fn empty() -> StackOverflowModel {
        StackOverflowModel { overflow_values: Seq::empty(), restore_context_info: Seq::empty() }
    }
}

impl View for StackOverflowReplay {
    type V = StackOverflowModel;

    closed spec fn view(&self) -> StackOverflowModel {
        StackOverflowModel {
            overflow_values: self.overflow_values@,
            restore_context_info: self.restore_context_info@,
        }
    }
}

impl Default for StackOverflowReplay {
    fn default() -> (r: Self)
        ensures
            r@ == StackOverflowModel::empty(),
    {
        Self::new()
    }
}

impl StackOverflowReplay {
    /// A recording of nothing.
    pub fn new() -> (r: Self)
        ensures
            r@ == StackOverflowModel::empty(),
    {
        Self { overflow_values: VecDeque::new(), restore_context_info: VecDeque::new() }
    }

    /// Records a value that was popped, with the overflow address after the pop.
    pub fn record_pop_overflow(&mut self, value: Felt, new_overflow_addr: Felt)
        ensures
            final(self)@ == (StackOverflowModel {
                overflow_values: old(self)@.overflow_values.push((value, new_overflow_addr)),
                ..old(self)@
            }),
    {
        self.overflow_values.push_back((value, new_overflow_addr));
    }

    /// Records the stack depth and the overflow address of a context that was restored.
    pub fn record_restore_context_overflow_addr(&mut self, stack_depth: usize, addr: Felt)
        ensures
            final(self)@ == (StackOverflowModel {
                restore_context_info: old(self)@.restore_context_info.push((stack_depth, addr)),
                ..old(self)@
            }),
    {
        self.restore_context_info.push_back((stack_depth, addr));
    }

    /// Replays a value that was popped, with the overflow address after the pop.
    pub fn replay_pop_overflow(&mut self) -> (r: (Felt, Felt))
        requires
            old(self)@.overflow_values.len() > 0,
        ensures
            r == old(self)@.overflow_values[0],
            final(self)@ == (StackOverflowModel {
                overflow_values: old(self)@.overflow_values.drop_first(),
                ..old(self)@
            }),
    {
        self.overflow_values.pop_front().unwrap()
    }

    /// Replays the stack depth and the overflow address of a context that was restored.
    pub fn replay_restore_context_overflow_addr(&mut self) -> (r: (usize, Felt))
        requires
            old(self)@.restore_context_info.len() > 0,
        ensures
            r == old(self)@.restore_context_info[0],
            final(self)@ == (StackOverflowModel {
                restore_context_info: old(self)@.restore_context_info.drop_first(),
                ..old(self)@
            }),
    {
        self.restore_context_info.pop_front().unwrap()
    }
}

// NODE EXECUTION STATE

/// A point in the execution of a node at which a fragment of the trace can begin.
#[derive(Clone, Copy, PartialEq, Eq, Structural, Debug)]
pub enum NodeExecutionState {
    /// Within a basic block, before an operation.
    BasicBlock {
        /// The basic block.
        node_id: MastNodeId,
        /// The batch of the operation.
        batch_index: usize,
        /// The position of the operation in its batch.
        op_idx_in_batch: usize,
    },
    /// At the start of a node.
    Start(MastNodeId),
    /// At the RESPAN before a batch of a basic block.
    Respan {
        /// The basic block.
        node_id: MastNodeId,
        /// The batch.
        batch_index: usize,
    },
    /// At a REPEAT of a loop node.
    LoopRepeat(MastNodeId),
    /// At the END of a node.
    End(MastNodeId),
}

} // verus!
