//! Recording of everything that the generation of the trace needs.

use crate::ace::CircuitEvaluation;
use crate::ace::CircuitModel;
use crate::block_stack::block_popped;
use crate::block_stack::block_pushed;
use crate::block_stack::top_addr;
use crate::block_stack::top_parent_addr;
use crate::block_stack::BlockInfo;
use crate::block_stack::BlockStack;
use crate::block_stack::BlockType;
use crate::block_stack::ExecutionContextInfo;
use crate::context::ContextId;
use crate::context::RowIndex;
use crate::continuation::Continuation;
use crate::continuation::ContinuationStack;
use crate::fast_processor::FastProcessor;
use crate::felt::felt;
use crate::felt::lemma_felt_small;
use crate::felt::Felt;
use crate::layout::HASH_CYCLE_LEN;
use crate::layout::MIN_STACK_DEPTH;
use crate::layout::OPCODE_JOIN;
use crate::layout::OPCODE_LOOP;
use crate::layout::OPCODE_SPLIT;
use crate::mast::batch_models;
use crate::mast::call_domain;
use crate::mast::duplicate_batches;
use crate::mast::dyn_domain;
use crate::mast::path_depth;
use crate::mast::BasicBlockNode;
use crate::mast::MastForest;
use crate::mast::MastNode;
use crate::mast::MastNodeId;
use crate::mast::MerklePath;
use crate::overflow::OverflowModel;
use crate::overflow::OverflowTable;
use crate::parallel::model::digest_of;
use crate::trace_state::node_flags;
use crate::trace_state::system_state_of;
use crate::trace_state::AceReplay;
use crate::trace_state::AdviceModel;
use crate::trace_state::AdviceReplay;
use crate::trace_state::BitwiseOp;
use crate::trace_state::BitwiseReplay;
use crate::trace_state::BlockStackReplay;
use crate::trace_state::BlockStackReplayModel;
use crate::trace_state::ContextModel;
use crate::trace_state::CoreTraceFragmentContext;
use crate::trace_state::CoreTraceState;
use crate::trace_state::DecoderState;
use crate::trace_state::ExecutionContextSystemInfo;
use crate::trace_state::ExecutionReplay;
use crate::trace_state::HasherOpModel;
use crate::trace_state::HasherRequestReplay;
use crate::trace_state::HasherResponseModel;
use crate::trace_state::HasherResponseReplay;
use crate::trace_state::KernelReplay;
use crate::trace_state::MastForestResolutionReplay;
use crate::trace_state::MemoryModel;
use crate::trace_state::MemoryReadsReplay;
use crate::trace_state::MemoryWritesReplay;
use crate::trace_state::NodeEndData;
use crate::trace_state::NodeExecutionState;
use crate::trace_state::NodeFlags;
use crate::trace_state::NodeFlagsModel;
use crate::trace_state::RangeCheckerReplay;
use crate::trace_state::ReplayModel;
use crate::trace_state::StackModel;
use crate::trace_state::StackOverflowModel;
use crate::trace_state::StackOverflowReplay;
use crate::trace_state::StackState;
use crate::trace_state::SystemState;
use crate::tracer::Tracer;
use crate::tracer::TracerEvent;
use crate::utils::split_u32_into_u16;
use crate::word::empty_word;
use crate::word::Word;
use std::sync::Arc;
use vstd::prelude::*;

verus! {

// HASHER CHIPLET SHIM

/// The number of rows that the hasher takes for one permutation.
pub const NUM_HASHER_ROWS_PER_PERMUTATION: u32 = 8;

/// Stands in for the hasher: gives the addresses that the hasher would give, and records its
/// answers.
#[derive(Debug)]
pub struct HasherChipletShim {
    addr: u32,
    replay: HasherResponseReplay,
}

/// What the stand-in for the hasher holds.
#[verifier::ext_equal]
pub struct ShimModel {
    /// The address of the next request.
    pub addr: u32,
    /// The recorded answers.
    pub replay: HasherResponseModel,
}

impl ShimModel {
    /// The stand-in once the hasher has taken a number of rows.
    pub open spec fn advanced(&self, rows: int) -> ShimModel {
        ShimModel { addr: (self.addr + rows) as u32, ..*self }
    }

    /// Whether the hasher can take a number of rows.
    pub open spec fn has_room(&self, rows: int) -> bool {
        self.addr + rows <= u32::MAX
    }

    /// A node is hashed, which takes the given number of permutations.
    pub open spec fn node_hashed(&self, permutations: int) -> ShimModel {
        ShimModel {
            replay: HasherResponseModel {
                block_addresses: self.replay.block_addresses.push(felt(self.addr as int)),
                ..self.replay
            },
            ..self.advanced(8 * permutations)
        }
    }

    /// A permutation is applied.
    pub open spec fn permuted(&self, state: [Felt; 12]) -> ShimModel {
        ShimModel {
            replay: HasherResponseModel {
                permutations: self.replay.permutations.push((felt(self.addr as int), state)),
                ..self.replay
            },
            ..self.advanced(8)
        }
    }

    /// A Merkle path is checked.
    pub open spec fn root_built(&self, path: Seq<Word>, root: Word) -> ShimModel {
        ShimModel {
            replay: HasherResponseModel {
                merkle_roots: self.replay.merkle_roots.push((felt(self.addr as int), root)),
                ..self.replay
            },
            ..self.advanced(8 * path_depth(path))
        }
    }

    /// A Merkle root is updated; the path is checked for the old and for the new root.
    pub open spec fn root_updated(&self, path: Seq<Word>, old_root: Word, new_root: Word) -> ShimModel {
        ShimModel {
            replay: HasherResponseModel {
                merkle_updates: self.replay.merkle_updates.push(
                    (felt(self.addr as int), old_root, new_root),
                ),
                ..self.replay
            },
            ..self.advanced(16 * path_depth(path))
        }
    }
}

impl View for HasherChipletShim {
    type V = ShimModel;

    closed spec fn view(&self) -> ShimModel {
        ShimModel { addr: self.addr, replay: self.replay@ }
    }
}

impl Default for HasherChipletShim {
    fn default() -> (r: Self)
        ensures
            r@ == (ShimModel { addr: 1, replay: HasherResponseModel::empty() }),
    {
        Self::new()
    }
}

impl HasherChipletShim {
    /// A stand-in for a hasher that has not been used.
    pub fn new() -> (r: Self)
        ensures
            r@ == (ShimModel { addr: 1, replay: HasherResponseModel::empty() }),
    {
        Self { addr: 1, replay: HasherResponseReplay::default() }
    }

    /// Records the hashing of a control block; returns its address.
    pub fn record_hash_control_block(&mut self) -> (r: Felt)
        requires
            old(self)@.has_room(8),
        ensures
            r == felt(old(self)@.addr as int),
            final(self)@ == old(self)@.node_hashed(1),
    {
        let block_addr = Felt::new(self.addr as u64);
        self.replay.record_block_address(block_addr);
        self.addr = self.addr + NUM_HASHER_ROWS_PER_PERMUTATION;
        block_addr
    }

    /// Records the hashing of a basic block, one permutation for each batch; returns its address.
    pub fn record_hash_basic_block(&mut self, basic_block_node: &BasicBlockNode) -> (r: Felt)
        requires
            old(self)@.has_room(8 * basic_block_node.spec_op_batches().len() as int),
        ensures
            r == felt(old(self)@.addr as int),
            final(self)@ == old(self)@.node_hashed(
                basic_block_node.spec_op_batches().len() as int,
            ),
    {
        let block_addr = Felt::new(self.addr as u64);
        self.replay.record_block_address(block_addr);
        self.addr = self.addr + NUM_HASHER_ROWS_PER_PERMUTATION * basic_block_node.num_op_batches();
        block_addr
    }

    /// Records the result of a permutation.
    pub fn record_permute_output(&mut self, hashed_state: [Felt; 12])
        requires
            old(self)@.has_room(8),
        ensures
            final(self)@ == old(self)@.permuted(hashed_state),
    {
        self.replay.record_permute(Felt::new(self.addr as u64), hashed_state);
        self.addr = self.addr + NUM_HASHER_ROWS_PER_PERMUTATION;
    }

    /// Records the root that a Merkle path leads to.
    pub fn record_build_merkle_root(&mut self, path: &MerklePath, computed_root: Word)
        requires
            old(self)@.has_room(8 * path_depth(path@)),
        ensures
            final(self)@ == old(self)@.root_built(path@, computed_root),
    {
        self.replay.record_build_merkle_root(Felt::new(self.addr as u64), computed_root);
        self.addr = self.addr + NUM_HASHER_ROWS_PER_PERMUTATION * path.depth() as u32;
    }

    /// Records the roots before and after an update.
    pub fn record_update_merkle_root(&mut self, path: &MerklePath, old_root: Word, new_root: Word)
        requires
            old(self)@.has_room(16 * path_depth(path@)),
        ensures
            final(self)@ == old(self)@.root_updated(path@, old_root, new_root),
    {
        self.replay.record_update_merkle_root(Felt::new(self.addr as u64), old_root, new_root);
        self.addr = self.addr + 2 * NUM_HASHER_ROWS_PER_PERMUTATION * path.depth() as u32;
    }

    /// Hands out the recorded answers; the recording starts anew, at the address reached.
    pub fn extract_replay(&mut self) -> (r: HasherResponseReplay)
        ensures
            r@ == old(self)@.replay,
            final(self)@ == (ShimModel { replay: HasherResponseModel::empty(), ..old(self)@ }),
    {
        let mut replay = HasherResponseReplay::default();
        std::mem::swap(&mut replay, &mut self.replay);
        replay
    }
}

// TRACE GENERATION CONTEXT

/// Everything that the generation of the trace needs.
pub struct TraceGenerationContext {
    /// The contexts in which the fragments of the core trace begin.
    pub core_trace_contexts: Vec<CoreTraceFragmentContext>,
    pub range_checker_replay: RangeCheckerReplay,
    pub memory_writes: MemoryWritesReplay,
    pub bitwise_replay: BitwiseReplay,
    pub hasher_for_chiplet: HasherRequestReplay,
    pub kernel_replay: KernelReplay,
    pub ace_replay: AceReplay,
    /// The number of rows of a fragment; the last one may have fewer.
    pub fragment_size: usize,
}

// EXECUTION TRACER

/// The state in which the current fragment began.
#[derive(Debug)]
struct StateSnapshot {
    state: CoreTraceState,
    continuation_stack: ContinuationStack,
    execution_state: NodeExecutionState,
    initial_mast_forest: Arc<MastForest>,
}

/// Records what the generation of the trace needs: the state in which each fragment begins, and
/// everything that is read during its execution.
#[derive(Debug)]
pub struct ExecutionTracer {
    state_snapshot: Option<StateSnapshot>,
    pub overflow_table: OverflowTable,
    pub overflow_replay: StackOverflowReplay,
    pub block_stack: BlockStack,
    pub block_stack_replay: BlockStackReplay,
    pub hasher_chiplet_shim: HasherChipletShim,
    pub memory_reads: MemoryReadsReplay,
    pub advice: AdviceReplay,
    pub external: MastForestResolutionReplay,
    pub range_checker: RangeCheckerReplay,
    pub memory_writes: MemoryWritesReplay,
    pub bitwise: BitwiseReplay,
    pub kernel: KernelReplay,
    pub hasher_for_chiplet: HasherRequestReplay,
    pub ace: AceReplay,
    fragment_contexts: Vec<CoreTraceFragmentContext>,
    fragment_size: usize,
}

/// The state in which a fragment begins.
#[verifier::ext_equal]
pub struct SnapshotModel {
    pub system: SystemState,
    pub decoder: DecoderState,
    pub stack: StackModel,
    pub continuation: Seq<Continuation>,
    pub execution_state: NodeExecutionState,
    pub initial_mast_forest: Arc<MastForest>,
}

/// What the tracer holds.
#[verifier::ext_equal]
pub struct TracerModel {
    /// The state in which the current fragment began, once one has begun.
    pub snapshot: Option<SnapshotModel>,
    pub overflow_table: OverflowModel,
    pub block_stack: Seq<BlockInfo>,
    pub hasher: ShimModel,
    /// What has been recorded for the current fragment, but for the answers of the hasher.
    pub replay: ReplayModel,
    /// The requests to the range checker and to the chiplets.
    pub range_checker: Seq<(RowIndex, [u16; 4])>,
    pub memory_writes: MemoryModel,
    pub bitwise: Seq<(BitwiseOp, Felt, Felt)>,
    pub kernel: Seq<Word>,
    pub hasher_for_chiplet: Seq<HasherOpModel>,
    pub ace: Seq<(RowIndex, CircuitModel)>,
    /// The fragments that have been completed.
    pub fragment_contexts: Seq<ContextModel>,
    pub fragment_size: usize,
}

spec fn snapshot_view(snapshot: Option<StateSnapshot>) -> Option<SnapshotModel> {
    match snapshot {
        Some(s) => Some(
            SnapshotModel {
                system: s.state.system,
                decoder: s.state.decoder,
                stack: s.state.stack@,
                continuation: s.continuation_stack@,
                execution_state: s.execution_state,
                initial_mast_forest: s.initial_mast_forest,
            },
        ),
        None => None,
    }
}

impl View for ExecutionTracer {
    type V = TracerModel;

    closed spec fn view(&self) -> TracerModel {
        TracerModel {
            snapshot: snapshot_view(self.state_snapshot),
            overflow_table: self.overflow_table@,
            block_stack: self.block_stack@,
            hasher: self.hasher_chiplet_shim@,
            replay: ReplayModel {
                block_stack: self.block_stack_replay@,
                stack_overflow: self.overflow_replay@,
                memory_reads: self.memory_reads@,
                advice: self.advice@,
                hasher: HasherResponseModel::empty(),
                resolutions: self.external@,
            },
            range_checker: self.range_checker@,
            memory_writes: self.memory_writes@,
            bitwise: self.bitwise@,
            kernel: self.kernel@,
            hasher_for_chiplet: self.hasher_for_chiplet@,
            ace: self.ace@,
            fragment_contexts: self.fragment_contexts@.map_values(
                |c: CoreTraceFragmentContext| c@,
            ),
            fragment_size: self.fragment_size,
        }
    }
}

impl TracerModel {
    /// A tracer that has recorded nothing.
    pub open spec fn fresh(fragment_size: usize) -> TracerModel {
        TracerModel {
            snapshot: None,
            overflow_table: OverflowModel::empty(),
            block_stack: Seq::empty(),
            hasher: ShimModel { addr: 1, replay: HasherResponseModel::empty() },
            replay: ReplayModel::empty(),
            range_checker: Seq::empty(),
            memory_writes: MemoryModel::empty(),
            bitwise: Seq::empty(),
            kernel: Seq::empty(),
            hasher_for_chiplet: Seq::empty(),
            ace: Seq::empty(),
            fragment_contexts: Seq::empty(),
            fragment_size,
        }
    }

    /// The current fragment, if one has begun, is completed: its state and everything recorded
    /// for it make a context, and the recording starts anew.
    pub open spec fn finished(&self) -> TracerModel {
        match self.snapshot {
            Some(snapshot) => TracerModel {
                snapshot: None,
                hasher: ShimModel { replay: HasherResponseModel::empty(), ..self.hasher },
                replay: ReplayModel::empty(),
                fragment_contexts: self.fragment_contexts.push(
                    ContextModel {
                        system: snapshot.system,
                        decoder: snapshot.decoder,
                        stack: snapshot.stack,
                        replay: ReplayModel { hasher: self.hasher.replay, ..self.replay },
                        continuation: snapshot.continuation,
                        initial_mast_forest: snapshot.initial_mast_forest,
                        initial_execution_state: snapshot.execution_state,
                    },
                ),
                ..*self
            },
            None => *self,
        }
    }

    /// A new fragment begins in the given state.
    pub open spec fn fragment_begun(
        &self,
        system: SystemState,
        stack_top: Seq<Felt>,
        continuation: Seq<Continuation>,
        execution_state: NodeExecutionState,
        forest: Arc<MastForest>,
    ) -> TracerModel {
        TracerModel {
            snapshot: Some(
                SnapshotModel {
                    system,
                    decoder: DecoderState {
                        current_addr: top_addr(self.block_stack),
                        parent_addr: top_parent_addr(self.block_stack),
                    },
                    stack: StackModel {
                        top: stack_top,
                        depth: (MIN_STACK_DEPTH + self.overflow_table.current.len()) as usize,
                        overflow_addr: self.overflow_table.last_update(),
                    },
                    continuation,
                    execution_state,
                    initial_mast_forest: forest,
                },
            ),
            ..self.finished()
        }
    }

    /// A block begins: it is hashed, and put on the block stack.
    pub open spec fn block_begun(
        &self,
        request: HasherOpModel,
        permutations: int,
        block_type: BlockType,
        ctx_info: Option<ExecutionContextInfo>,
    ) -> TracerModel {
        TracerModel {
            hasher_for_chiplet: self.hasher_for_chiplet.push(request),
            hasher: self.hasher.node_hashed(permutations),
            block_stack: block_pushed(
                self.block_stack,
                felt(self.hasher.addr as int),
                block_type,
                ctx_info,
            ),
            replay: ReplayModel {
                block_stack: BlockStackReplayModel {
                    node_start: self.replay.block_stack.node_start.push(
                        top_addr(self.block_stack),
                    ),
                    ..self.replay.block_stack
                },
                ..self.replay
            },
            ..*self
        }
    }

    /// The context that a call leaves, with the given number of elements on its stack.
    pub open spec fn left_context(&self, processor: FastProcessor, depth: u32) -> ExecutionContextInfo {
        ExecutionContextInfo {
            parent_ctx: processor.ctx,
            parent_fn_hash: processor.caller_hash,
            parent_fmp: processor.fmp,
            parent_stack_depth: depth,
            parent_next_overflow_addr: self.overflow_table.last_update(),
        }
    }

    /// A further batch of the current basic block begins, which is found at the next address of the
    /// hasher.
    pub open spec fn respanned(&self) -> TracerModel {
        TracerModel {
            block_stack: self.block_stack.update(
                self.block_stack.len() - 1,
                BlockInfo {
                    addr: felt(self.block_stack.last().addr@ + HASH_CYCLE_LEN),
                    ..self.block_stack.last()
                },
            ),
            ..*self
        }
    }

    /// The current block ends.
    pub open spec fn block_ended(&self) -> TracerModel {
        let block = self.block_stack.last();
        let rest = block_popped(self.block_stack);
        let replay = self.replay.block_stack;
        TracerModel {
            block_stack: rest,
            replay: ReplayModel {
                block_stack: BlockStackReplayModel {
                    node_end: replay.node_end.push(
                        NodeEndData {
                            ended_node_addr: block.addr,
                            flags: node_flags(
                                NodeFlagsModel {
                                    is_loop_body: block.loop_body,
                                    loop_entered: block.entered_loop(),
                                    is_call: block.call(),
                                    is_syscall: block.syscall(),
                                },
                            ),
                            prev_addr: top_addr(rest),
                            prev_parent_addr: top_parent_addr(rest),
                        },
                    ),
                    execution_contexts: match block.ctx_info {
                        Some(info) => replay.execution_contexts.push(
                            ExecutionContextSystemInfo {
                                parent_ctx: info.parent_ctx,
                                parent_fn_hash: info.parent_fn_hash,
                                parent_fmp: info.parent_fmp,
                            },
                        ),
                        None => replay.execution_contexts,
                    },
                    ..replay
                },
                ..self.replay
            },
            ..*self
        }
    }
}

/// What the start of a control node has hashed, what kind of block it is and what context it
/// leaves; `None` for a node that is no control node or whose children are not in the forest.
pub open spec fn control_block(
    m: TracerModel,
    node: MastNode,
    processor: FastProcessor,
    forest: MastForest,
) -> Option<(HasherOpModel, BlockType, Option<ExecutionContextInfo>)> {
    match node {
        MastNode::Join(n) => match (digest_of(forest, n.first), digest_of(forest, n.second)) {
            (Some(h1), Some(h2)) => Some(
                (
                    HasherOpModel::HashControlBlock(h1, h2, felt(OPCODE_JOIN as int), n.digest),
                    BlockType::Join(false),
                    None,
                ),
            ),
            _ => None,
        },
        MastNode::Split(n) => match (digest_of(forest, n.on_true), digest_of(forest, n.on_false)) {
            (Some(h1), Some(h2)) => Some(
                (
                    HasherOpModel::HashControlBlock(h1, h2, felt(OPCODE_SPLIT as int), n.digest),
                    BlockType::Split,
                    None,
                ),
            ),
            _ => None,
        },
        MastNode::Loop(n) => match digest_of(forest, n.body) {
            Some(h1) => Some(
                (
                    HasherOpModel::HashControlBlock(
                        h1,
                        empty_word(),
                        felt(OPCODE_LOOP as int),
                        n.digest,
                    ),
                    BlockType::Loop(processor.item(0) == felt(1)),
                    None,
                ),
            ),
            None => None,
        },
        MastNode::Call(n) => match digest_of(forest, n.callee) {
            Some(h1) => Some(
                (
                    HasherOpModel::HashControlBlock(
                        h1,
                        empty_word(),
                        call_domain(n.is_syscall),
                        n.digest,
                    ),
                    if n.is_syscall {
                        BlockType::SysCall
                    } else {
                        BlockType::Call
                    },
                    Some(m.left_context(processor, processor.stack_depth)),
                ),
            ),
            None => None,
        },
        MastNode::Dyn(n) => {
            let request = HasherOpModel::HashControlBlock(
                empty_word(),
                empty_word(),
                dyn_domain(n.is_dyncall),
                n.digest,
            );
            if !n.is_dyncall {
                Some((request, BlockType::Dyn, None))
            } else if processor.stack_depth > 0 {
                // the address of the callee is taken off the stack before the context is left
                Some(
                    (
                        request,
                        BlockType::Dyncall,
                        Some(m.left_context(processor, (processor.stack_depth - 1) as u32)),
                    ),
                )
            } else {
                None
            }
        },
        MastNode::Block(_) => None,
        MastNode::External(_) => None,
    }
}

/// Whether the start of a node can be recorded.
pub open spec fn start_allowed(
    m: TracerModel,
    node: MastNode,
    processor: FastProcessor,
    forest: MastForest,
) -> bool {
    match node {
        MastNode::Block(n) => m.hasher.has_room(8 * n.spec_op_batches().len() as int),
        MastNode::External(_) => false,
        _ => {
            &&& m.hasher.has_room(8)
            &&& control_block(m, node, processor, forest) is Some
        },
    }
}

/// The start of a node is recorded.
pub open spec fn start_recorded(
    m: TracerModel,
    node: MastNode,
    processor: FastProcessor,
    forest: MastForest,
) -> TracerModel {
    match node {
        MastNode::Block(n) => m.block_begun(
            HasherOpModel::HashBasicBlock(batch_models(n.spec_op_batches()), n.spec_digest()),
            n.spec_op_batches().len() as int,
            BlockType::BasicBlock,
            None,
        ),
        _ => match control_block(m, node, processor, forest) {
            Some((request, block_type, ctx_info)) => m.block_begun(
                request,
                1,
                block_type,
                ctx_info,
            ),
            None => m,
        },
    }
}

/// Whether a fragment begins in a clock cycle: the clock cycle is a multiple of the size of a
/// fragment.
pub open spec fn begins_fragment(clk: int, fragment_size: int) -> bool {
    if fragment_size == 0 {
        clk == 0
    } else {
        clk % fragment_size == 0
    }
}

/// The state once the fragment that begins in a clock cycle, if one does, has begun.
pub open spec fn cycle_begun(
    m: TracerModel,
    processor: FastProcessor,
    execution_state: NodeExecutionState,
    continuation: Seq<Continuation>,
    forest: Arc<MastForest>,
) -> TracerModel {
    if begins_fragment(processor.clk as int, m.fragment_size as int) {
        m.fragment_begun(
            system_state_of(processor),
            processor.stack_top@,
            continuation,
            execution_state,
            forest,
        )
    } else {
        m
    }
}

/// Whether the start of a clock cycle can be recorded.
pub open spec fn cycle_allowed(
    m: TracerModel,
    processor: FastProcessor,
    execution_state: NodeExecutionState,
    forest: MastForest,
) -> bool {
    &&& MIN_STACK_DEPTH + m.overflow_table.current.len() <= usize::MAX
    &&& match execution_state {
        NodeExecutionState::Start(id) => forest.has(id) && start_allowed(
            m,
            forest.node(id),
            processor,
            forest,
        ),
        NodeExecutionState::Respan { .. } => m.block_stack.len() > 0,
        NodeExecutionState::End(_) => m.block_stack.len() > 0,
        _ => true,
    }
}

/// The start of a clock cycle is recorded: a fragment begins if it is time, and the block stack
/// follows the execution.
pub open spec fn cycle_recorded(
    m: TracerModel,
    processor: FastProcessor,
    execution_state: NodeExecutionState,
    continuation: Seq<Continuation>,
    forest: Arc<MastForest>,
) -> TracerModel {
    let begun = cycle_begun(m, processor, execution_state, continuation, forest);
    match execution_state {
        NodeExecutionState::Start(id) => start_recorded(
            begun,
            (*forest).node(id),
            processor,
            *forest,
        ),
        NodeExecutionState::Respan { .. } => begun.respanned(),
        NodeExecutionState::End(_) => begun.block_ended(),
        _ => begun,
    }
}

/// The four 16-bit limbs of two 32-bit values, the lower limbs first.
pub open spec fn limbs_of(lo: Felt, hi: Felt) -> [u16; 4] {
    [
        (lo@ as int % 0x1_0000) as u16,
        (lo@ as int / 0x1_0000) as u16,
        (hi@ as int % 0x1_0000) as u16,
        (hi@ as int / 0x1_0000) as u16,
    ]
}

/// An element is taken off the overflow table, if there is one, and recorded together with the
/// address of the table after that.
pub open spec fn overflow_popped(m: TracerModel) -> TracerModel {
    if m.overflow_table.current.len() > 0 {
        let popped = m.overflow_table.popped();
        TracerModel {
            overflow_table: popped,
            replay: ReplayModel {
                stack_overflow: StackOverflowModel {
                    overflow_values: m.replay.stack_overflow.overflow_values.push(
                        (m.overflow_table.current.last().0, popped.last_update()),
                    ),
                    ..m.replay.stack_overflow
                },
                ..m.replay
            },
            ..m
        }
    } else {
        m
    }
}

/// The overflow table returns to the previous context; the depth of the stack and the address of
/// the table there are recorded.
pub open spec fn overflow_restored(m: TracerModel) -> TracerModel {
    let restored = m.overflow_table.context_restored();
    TracerModel {
        overflow_table: restored,
        replay: ReplayModel {
            stack_overflow: StackOverflowModel {
                restore_context_info: m.replay.stack_overflow.restore_context_info.push(
                    (
                        (MIN_STACK_DEPTH + restored.current.len()) as usize,
                        restored.last_update(),
                    ),
                ),
                ..m.replay.stack_overflow
            },
            ..m.replay
        },
        ..m
    }
}

/// The state with the given answers of the advice provider.
pub open spec fn with_advice(m: TracerModel, advice: AdviceModel) -> TracerModel {
    TracerModel { replay: ReplayModel { advice, ..m.replay }, ..m }
}

/// The state with the given reads of memory.
pub open spec fn with_memory_reads(m: TracerModel, memory_reads: MemoryModel) -> TracerModel {
    TracerModel { replay: ReplayModel { memory_reads, ..m.replay }, ..m }
}

impl ExecutionTracer {
    /// A tracer that has recorded nothing, for fragments of the given size.
    pub fn new(fragment_size: usize) -> (r: Self)
        ensures
            r@ == TracerModel::fresh(fragment_size),
    {
        Self {
            state_snapshot: None,
            overflow_table: OverflowTable::default(),
            overflow_replay: StackOverflowReplay::default(),
            block_stack: BlockStack::default(),
            block_stack_replay: BlockStackReplay::default(),
            hasher_chiplet_shim: HasherChipletShim::default(),
            memory_reads: MemoryReadsReplay::default(),
            range_checker: RangeCheckerReplay::default(),
            memory_writes: MemoryWritesReplay::default(),
            advice: AdviceReplay::default(),
            bitwise: BitwiseReplay::default(),
            kernel: KernelReplay::default(),
            hasher_for_chiplet: HasherRequestReplay::default(),
            ace: AceReplay::default(),
            external: MastForestResolutionReplay::default(),
            fragment_contexts: Vec::new(),
            fragment_size,
        }
    }

    /// Completes the current fragment and hands out everything that was recorded.
    pub fn into_trace_generation_context(self) -> (r: TraceGenerationContext)
        ensures
            ({
                let m = self@.finished();
                &&& r.core_trace_contexts@.map_values(|c: CoreTraceFragmentContext| c@)
                    == m.fragment_contexts
                &&& r.range_checker_replay@ == m.range_checker
                &&& r.memory_writes@ == m.memory_writes
                &&& r.bitwise_replay@ == m.bitwise
                &&& r.kernel_replay@ == m.kernel
                &&& r.hasher_for_chiplet@ == m.hasher_for_chiplet
                &&& r.ace_replay@ == m.ace
                &&& r.fragment_size == m.fragment_size
            }),
    {
        let mut tracer = self;
        tracer.finish_current_fragment_context();
        TraceGenerationContext {
            core_trace_contexts: tracer.fragment_contexts,
            range_checker_replay: tracer.range_checker,
            memory_writes: tracer.memory_writes,
            bitwise_replay: tracer.bitwise,
            kernel_replay: tracer.kernel,
            hasher_for_chiplet: tracer.hasher_for_chiplet,
            ace_replay: tracer.ace,
            fragment_size: tracer.fragment_size,
        }
    }

    /// Completes the current fragment, and begins a new one in the given state.
    pub fn start_new_fragment_context(
        &mut self,
        system_state: SystemState,
        stack_top: [Felt; 16],
        continuation_stack: ContinuationStack,
        execution_state: NodeExecutionState,
        current_forest: Arc<MastForest>,
    )
        requires
            MIN_STACK_DEPTH + old(self)@.overflow_table.current.len() <= usize::MAX,
        ensures
            final(self)@ == old(self)@.fragment_begun(
                system_state,
                stack_top@,
                continuation_stack@,
                execution_state,
                current_forest,
            ),
    {
        self.finish_current_fragment_context();

        let decoder_state = if self.block_stack.is_empty() {
            DecoderState { current_addr: Felt::zero(), parent_addr: Felt::zero() }
        } else {
            let block_info = self.block_stack.peek();
            DecoderState { current_addr: block_info.addr, parent_addr: block_info.parent_addr }
        };
        let stack_depth: usize = MIN_STACK_DEPTH
            + self.overflow_table.num_elements_in_current_ctx();
        let last_overflow_addr = self.overflow_table.last_update_clk_in_current_ctx();
        let stack = StackState::new(stack_top, stack_depth, last_overflow_addr);
        self.state_snapshot = Some(
            StateSnapshot {
                state: CoreTraceState { system: system_state, decoder: decoder_state, stack },
                continuation_stack,
                execution_state,
                initial_mast_forest: current_forest,
            },
        );
    }

    /// Records the start of a control node.
    pub fn record_control_node_start(
        &mut self,
        node: &MastNode,
        processor: &FastProcessor,
        current_forest: &MastForest,
    )
        requires
            old(self)@.hasher.has_room(8),
            control_block(old(self)@, *node, *processor, *current_forest) is Some,
        ensures
            ({
                let (request, block_type, ctx_info) = control_block(
                    old(self)@,
                    *node,
                    *processor,
                    *current_forest,
                ).unwrap();
                final(self)@ == old(self)@.block_begun(request, 1, block_type, ctx_info)
            }),
    {
        broadcast use lemma_felt_small;

        let ghost block = control_block(self@, *node, *processor, *current_forest).unwrap();
        let (ctx_info, block_type) = match node {
            MastNode::Join(node) => {
                let child1_hash = current_forest.get_node_by_id(node.first).unwrap().digest();
                let child2_hash = current_forest.get_node_by_id(node.second).unwrap().digest();
                self.hasher_for_chiplet.record_hash_control_block(
                    child1_hash,
                    child2_hash,
                    node.domain(),
                    node.digest,
                );
                (None, BlockType::Join(false))
            },
            MastNode::Split(node) => {
                let child1_hash = current_forest.get_node_by_id(node.on_true).unwrap().digest();
                let child2_hash = current_forest.get_node_by_id(node.on_false).unwrap().digest();
                self.hasher_for_chiplet.record_hash_control_block(
                    child1_hash,
                    child2_hash,
                    node.domain(),
                    node.digest,
                );
                (None, BlockType::Split)
            },
            MastNode::Loop(node) => {
                let body_hash = current_forest.get_node_by_id(node.body).unwrap().digest();
                self.hasher_for_chiplet.record_hash_control_block(
                    body_hash,
                    Word::empty(),
                    node.domain(),
                    node.digest,
                );
                let loop_entered = processor.stack_get(0) == Felt::one();
                (None, BlockType::Loop(loop_entered))
            },
            MastNode::Call(node) => {
                let callee_hash = current_forest.get_node_by_id(node.callee).unwrap().digest();
                self.hasher_for_chiplet.record_hash_control_block(
                    callee_hash,
                    Word::empty(),
                    node.domain(),
                    node.digest,
                );
                let exec_ctx = self.execution_context(processor, processor.stack_depth());
                let block_type = if node.is_syscall {
                    BlockType::SysCall
                } else {
                    BlockType::Call
                };
                (Some(exec_ctx), block_type)
            },
            MastNode::Dyn(node) => {
                self.hasher_for_chiplet.record_hash_control_block(
                    Word::empty(),
                    Word::empty(),
                    node.domain(),
                    node.digest,
                );
                if node.is_dyncall {
                    // the address of the callee is taken off the stack before the context is left
                    let stack_depth_after_drop: u32 = processor.stack_depth() - 1;
                    let exec_ctx = self.execution_context(processor, stack_depth_after_drop);
                    (Some(exec_ctx), BlockType::Dyncall)
                } else {
                    (None, BlockType::Dyn)
                }
            },
            MastNode::Block(_) => (None, BlockType::BasicBlock),
            MastNode::External(_) => (None, BlockType::BasicBlock),
        };
        assert(block_type == block.1 && ctx_info == block.2);

        let block_addr = self.hasher_chiplet_shim.record_hash_control_block();
        let parent_addr = self.block_stack.push(block_addr, block_type, ctx_info);
        self.block_stack_replay.record_node_start(parent_addr);
    }

    /// The context that a call leaves.
    fn execution_context(&self, processor: &FastProcessor, stack_depth: u32) -> (r:
        ExecutionContextInfo)
        ensures
            r == self@.left_context(*processor, stack_depth),
    {
        ExecutionContextInfo::new(
            processor.ctx,
            processor.caller_hash,
            processor.fmp,
            stack_depth,
            self.overflow_table.last_update_clk_in_current_ctx(),
        )
    }

    /// Records the end of a block that has been taken off the block stack.
    fn record_node_end(&mut self, block_info: &BlockInfo)
        ensures
            final(self)@ == (TracerModel {
                replay: ReplayModel {
                    block_stack: BlockStackReplayModel {
                        node_end: old(self)@.replay.block_stack.node_end.push(
                            NodeEndData {
                                ended_node_addr: block_info.addr,
                                flags: node_flags(
                                    NodeFlagsModel {
                                        is_loop_body: block_info.loop_body,
                                        loop_entered: block_info.entered_loop(),
                                        is_call: block_info.call(),
                                        is_syscall: block_info.syscall(),
                                    },
                                ),
                                prev_addr: top_addr(old(self)@.block_stack),
                                prev_parent_addr: top_parent_addr(old(self)@.block_stack),
                            },
                        ),
                        ..old(self)@.replay.block_stack
                    },
                    ..old(self)@.replay
                },
                ..old(self)@
            }),
    {
        broadcast use lemma_felt_small;

        let one = Felt::one();
        let flags = NodeFlags::new(
            block_info.is_loop_body() == one,
            block_info.is_entered_loop() == one,
            block_info.is_call() == one,
            block_info.is_syscall() == one,
        );
        let (prev_addr, prev_parent_addr) = if self.block_stack.is_empty() {
            (Felt::zero(), Felt::zero())
        } else {
            let prev_block = self.block_stack.peek();
            (prev_block.addr, prev_block.parent_addr)
        };
        self.block_stack_replay.record_node_end(
            block_info.addr,
            flags,
            prev_addr,
            prev_parent_addr,
        );
    }

    /// Records the context to return to when a context ends.
    fn record_execution_context(&mut self, ctx_info: ExecutionContextSystemInfo)
        ensures
            final(self)@ == (TracerModel {
                replay: ReplayModel {
                    block_stack: BlockStackReplayModel {
                        execution_contexts: old(
                            self,
                        )@.replay.block_stack.execution_contexts.push(ctx_info),
                        ..old(self)@.replay.block_stack
                    },
                    ..old(self)@.replay
                },
                ..old(self)@
            }),
    {
        self.block_stack_replay.record_execution_context(ctx_info);
    }

    /// Completes the current fragment, if one has begun.
    pub fn finish_current_fragment_context(&mut self)
        ensures
            final(self)@ == old(self)@.finished(),
    {
        let mut taken: Option<StateSnapshot> = None;
        std::mem::swap(&mut taken, &mut self.state_snapshot);
        if let Some(snapshot) = taken {
            let hasher = self.hasher_chiplet_shim.extract_replay();
            let mut memory_reads = MemoryReadsReplay::default();
            std::mem::swap(&mut memory_reads, &mut self.memory_reads);
            let mut advice = AdviceReplay::default();
            std::mem::swap(&mut advice, &mut self.advice);
            let mut mast_forest_resolution = MastForestResolutionReplay::default();
            std::mem::swap(&mut mast_forest_resolution, &mut self.external);
            let mut stack_overflow = StackOverflowReplay::default();
            std::mem::swap(&mut stack_overflow, &mut self.overflow_replay);
            let mut block_stack = BlockStackReplay::default();
            std::mem::swap(&mut block_stack, &mut self.block_stack_replay);

            let trace_state = CoreTraceFragmentContext {
                state: snapshot.state,
                replay: ExecutionReplay {
                    block_stack,
                    stack_overflow,
                    memory_reads,
                    advice,
                    hasher,
                    mast_forest_resolution,
                },
                continuation: snapshot.continuation_stack,
                initial_mast_forest: snapshot.initial_mast_forest,
                initial_execution_state: snapshot.execution_state,
            };
            self.fragment_contexts.push(trace_state);
        }
    }

    /// Records the start of a node.
    fn record_start(
        &mut self,
        node: &MastNode,
        processor: &FastProcessor,
        current_forest: &MastForest,
    )
        requires
            start_allowed(old(self)@, *node, *processor, *current_forest),
        ensures
            final(self)@ == start_recorded(old(self)@, *node, *processor, *current_forest),
    {
        match node {
            MastNode::Block(basic_block_node) => {
                self.hasher_for_chiplet.record_hash_basic_block(
                    duplicate_batches(basic_block_node.op_batches()),
                    basic_block_node.digest(),
                );
                let block_addr = self.hasher_chiplet_shim.record_hash_basic_block(
                    basic_block_node,
                );
                let parent_addr = self.block_stack.push(block_addr, BlockType::BasicBlock, None);
                self.block_stack_replay.record_node_start(parent_addr);
            },
            _ => {
                self.record_control_node_start(node, processor, current_forest);
            },
        }
    }

    /// Records the end of the current block.
    fn record_end(&mut self)
        requires
            old(self)@.block_stack.len() > 0,
        ensures
            final(self)@ == old(self)@.block_ended(),
    {
        let block_info = self.block_stack.pop();
        self.record_node_end(&block_info);
        if let Some(ctx_info) = block_info.ctx_info {
            self.record_execution_context(
                ExecutionContextSystemInfo {
                    parent_ctx: ctx_info.parent_ctx,
                    parent_fn_hash: ctx_info.parent_fn_hash,
                    parent_fmp: ctx_info.parent_fmp,
                },
            );
        }
    }
}

impl Tracer for ExecutionTracer {
    type State = TracerModel;

    open spec fn state(&self) -> TracerModel {
        self@
    }

    open spec fn allows(s: TracerModel, event: TracerEvent) -> bool {
        match event {
            TracerEvent::StartClockCycle(
                processor,
                execution_state,
                continuation,
                forest,
            ) => cycle_allowed(s, processor, execution_state, *forest),
            TracerEvent::HasherPermute(_, _) => s.hasher.has_room(8),
            TracerEvent::HasherBuildMerkleRoot(_, path, _, _) => {
                &&& path is Some
                &&& s.hasher.has_room(8 * path_depth(path.unwrap()))
            },
            TracerEvent::HasherUpdateMerkleRoot(_, _, path, _, _, _) => {
                &&& path is Some
                &&& s.hasher.has_room(16 * path_depth(path.unwrap()))
            },
            TracerEvent::U32RangeChecks(_, lo, hi) => lo@ <= u32::MAX && hi@ <= u32::MAX,
            TracerEvent::IncrementClk => s.overflow_table.clk < u32::MAX,
            TracerEvent::RestoreContext => {
                &&& s.overflow_table.saved.len() > 0
                &&& MIN_STACK_DEPTH + s.overflow_table.saved.last().len() <= usize::MAX
            },
            _ => true,
        }
    }

    open spec fn after(s: TracerModel, event: TracerEvent) -> TracerModel {
        match event {
            TracerEvent::StartClockCycle(
                processor,
                execution_state,
                continuation,
                forest,
            ) => cycle_recorded(s, processor, execution_state, continuation, forest),
            TracerEvent::MastForestResolution(node_id, forest) => TracerModel {
                replay: ReplayModel {
                    resolutions: s.replay.resolutions.push((node_id, forest)),
                    ..s.replay
                },
                ..s
            },
            TracerEvent::HasherPermute(input, output) => TracerModel {
                hasher_for_chiplet: s.hasher_for_chiplet.push(HasherOpModel::Permute(input)),
                hasher: s.hasher.permuted(output),
                ..s
            },
            TracerEvent::HasherBuildMerkleRoot(node, path, index, root) => TracerModel {
                hasher_for_chiplet: s.hasher_for_chiplet.push(
                    HasherOpModel::BuildMerkleRoot(node, path.unwrap(), index),
                ),
                hasher: s.hasher.root_built(path.unwrap(), root),
                ..s
            },
            TracerEvent::HasherUpdateMerkleRoot(
                old_value,
                new_value,
                path,
                index,
                old_root,
                new_root,
            ) => TracerModel {
                hasher_for_chiplet: s.hasher_for_chiplet.push(
                    HasherOpModel::UpdateMerkleRoot(old_value, new_value, path.unwrap(), index),
                ),
                hasher: s.hasher.root_updated(path.unwrap(), old_root, new_root),
                ..s
            },
            TracerEvent::MemoryReadElement(element, addr, ctx, clk) => with_memory_reads(
                s,
                s.replay.memory_reads.with_element(element, addr, ctx, clk),
            ),
            TracerEvent::MemoryReadWord(word, addr, ctx, clk) => with_memory_reads(
                s,
                s.replay.memory_reads.with_word(word, addr, ctx, clk),
            ),
            TracerEvent::MemoryWriteElement(element, addr, ctx, clk) => TracerModel {
                memory_writes: s.memory_writes.with_element(element, addr, ctx, clk),
                ..s
            },
            TracerEvent::MemoryWriteWord(word, addr, ctx, clk) => TracerModel {
                memory_writes: s.memory_writes.with_word(word, addr, ctx, clk),
                ..s
            },
            TracerEvent::AdvicePopStack(value) => with_advice(
                s,
                AdviceModel { pops: s.replay.advice.pops.push(value), ..s.replay.advice },
            ),
            TracerEvent::AdvicePopStackWord(word) => with_advice(
                s,
                AdviceModel {
                    word_pops: s.replay.advice.word_pops.push(word),
                    ..s.replay.advice
                },
            ),
            TracerEvent::AdvicePopStackDword(words) => with_advice(
                s,
                AdviceModel {
                    dword_pops: s.replay.advice.dword_pops.push(words),
                    ..s.replay.advice
                },
            ),
            TracerEvent::U32And(a, b) => TracerModel {
                bitwise: s.bitwise.push((BitwiseOp::U32And, a, b)),
                ..s
            },
            TracerEvent::U32Xor(a, b) => TracerModel {
                bitwise: s.bitwise.push((BitwiseOp::U32Xor, a, b)),
                ..s
            },
            TracerEvent::U32RangeChecks(clk, lo, hi) => TracerModel {
                range_checker: s.range_checker.push((clk, limbs_of(lo, hi))),
                ..s
            },
            TracerEvent::KernelProcAccess(proc_hash) => TracerModel {
                kernel: s.kernel.push(proc_hash),
                ..s
            },
            TracerEvent::CircuitEvaluated(clk, circuit) => TracerModel {
                ace: s.ace.push((clk, circuit)),
                ..s
            },
            TracerEvent::IncrementClk => TracerModel {
                overflow_table: OverflowModel {
                    clk: (s.overflow_table.clk + 1) as u32,
                    ..s.overflow_table
                },
                ..s
            },
            TracerEvent::IncrementStackSize(processor) => TracerModel {
                overflow_table: s.overflow_table.pushed(processor.item(15)),
                ..s
            },
            TracerEvent::DecrementStackSize => overflow_popped(s),
            TracerEvent::StartContext => TracerModel {
                overflow_table: s.overflow_table.context_started(),
                ..s
            },
            TracerEvent::RestoreContext => overflow_restored(s),
        }
    }

    /// Begins a new fragment if it is time, and lets the block stack follow the execution.
    fn start_clock_cycle(
        &mut self,
        processor: &FastProcessor,
        execution_state: NodeExecutionState,
        continuation_stack: &mut ContinuationStack,
        current_forest: &Arc<MastForest>,
    ) {
        broadcast use lemma_felt_small;

        let clk = processor.clk as usize;
        let is_multiple = if self.fragment_size == 0 {
            clk == 0
        } else {
            clk % self.fragment_size == 0
        };
        if is_multiple {
            self.start_new_fragment_context(
                SystemState::from_processor(processor),
                processor.stack_top,
                continuation_stack.duplicate(),
                execution_state,
                current_forest.clone(),
            );
        }
        match execution_state {
            NodeExecutionState::Start(mast_node_id) => {
                let node = current_forest.get_node_by_id(mast_node_id).unwrap();
                self.record_start(node, processor, current_forest);
            },
            NodeExecutionState::Respan { .. } => {
                let addr = self.block_stack.peek().addr;
                self.block_stack.set_top_addr(addr.add(Felt::new(HASH_CYCLE_LEN as u64)));
            },
            NodeExecutionState::End(_) => {
                self.record_end();
            },
            // operations in a basic block and repetitions of a loop leave the block stack alone
            _ => {},
        }
        assert(self@ =~= Self::after(
            old(self)@,
            TracerEvent::StartClockCycle(
                *processor,
                execution_state,
                old(continuation_stack)@,
                *current_forest,
            ),
        ));
    }

    fn record_mast_forest_resolution(&mut self, node_id: MastNodeId, forest: &Arc<MastForest>)
        ensures
            final(self)@.replay.resolutions.last() == (node_id, *forest),
    {
        self.external.record_resolution(node_id, forest.clone());
    }

    fn record_hasher_permute(&mut self, input_state: [Felt; 12], output_state: [Felt; 12])
        ensures
            final(self)@.hasher_for_chiplet.last() == HasherOpModel::Permute(input_state),
            final(self)@.hasher.replay.permutations.last().1 == output_state,
    {
        self.hasher_for_chiplet.record_permute_input(input_state);
        self.hasher_chiplet_shim.record_permute_output(output_state);
    }

    fn record_hasher_build_merkle_root(
        &mut self,
        node: Word,
        path: Option<&MerklePath>,
        index: Felt,
        output_root: Word,
    )
        ensures
            final(self)@.hasher_for_chiplet.last() == HasherOpModel::BuildMerkleRoot(
                node,
                path.unwrap()@,
                index,
            ),
            final(self)@.hasher.replay.merkle_roots.last().1 == output_root,
    {
        let path = path.unwrap();
        self.hasher_chiplet_shim.record_build_merkle_root(path, output_root);
        self.hasher_for_chiplet.record_build_merkle_root(node, path.duplicate(), index);
    }

    fn record_hasher_update_merkle_root(
        &mut self,
        old_value: Word,
        new_value: Word,
        path: Option<&MerklePath>,
        index: Felt,
        old_root: Word,
        new_root: Word,
    )
        ensures
            final(self)@.hasher_for_chiplet.last() == HasherOpModel::UpdateMerkleRoot(
                old_value,
                new_value,
                path.unwrap()@,
                index,
            ),
            final(self)@.hasher.replay.merkle_updates.last().1 == old_root,
            final(self)@.hasher.replay.merkle_updates.last().2 == new_root,
    {
        let path = path.unwrap();
        self.hasher_chiplet_shim.record_update_merkle_root(path, old_root, new_root);
        self.hasher_for_chiplet.record_update_merkle_root(
            old_value,
            new_value,
            path.duplicate(),
            index,
        );
    }

    fn record_memory_read_element(
        &mut self,
        element: Felt,
        addr: Felt,
        ctx: ContextId,
        clk: RowIndex,
    )
        ensures
            final(self)@.replay.memory_reads.elements.last() == (element, addr, ctx, clk),
    {
        self.memory_reads.record_read_element(element, addr, ctx, clk);
    }

    fn record_memory_read_word(&mut self, word: Word, addr: Felt, ctx: ContextId, clk: RowIndex)
        ensures
            final(self)@.replay.memory_reads.words.last() == (word, addr, ctx, clk),
    {
        self.memory_reads.record_read_word(word, addr, ctx, clk);
    }

    fn record_memory_write_element(
        &mut self,
        element: Felt,
        addr: Felt,
        ctx: ContextId,
        clk: RowIndex,
    )
        ensures
            final(self)@.memory_writes.elements.last() == (element, addr, ctx, clk),
    {
        self.memory_writes.record_write_element(element, addr, ctx, clk);
    }

    fn record_memory_write_word(&mut self, word: Word, addr: Felt, ctx: ContextId, clk: RowIndex)
        ensures
            final(self)@.memory_writes.words.last() == (word, addr, ctx, clk),
    {
        self.memory_writes.record_write_word(word, addr, ctx, clk);
    }

    fn record_advice_pop_stack(&mut self, value: Felt)
        ensures
            final(self)@.replay.advice.pops.last() == value,
    {
        self.advice.record_pop_stack(value);
    }

    fn record_advice_pop_stack_word(&mut self, word: Word)
        ensures
            final(self)@.replay.advice.word_pops.last() == word,
    {
        self.advice.record_pop_stack_word(word);
    }

    fn record_advice_pop_stack_dword(&mut self, words: [Word; 2])
        ensures
            final(self)@.replay.advice.dword_pops.last() == words,
    {
        self.advice.record_pop_stack_dword(words);
    }

    fn record_u32and(&mut self, a: Felt, b: Felt)
        ensures
            final(self)@.bitwise.last() == (BitwiseOp::U32And, a, b),
    {
        self.bitwise.record_u32and(a, b);
    }

    fn record_u32xor(&mut self, a: Felt, b: Felt)
        ensures
            final(self)@.bitwise.last() == (BitwiseOp::U32Xor, a, b),
    {
        self.bitwise.record_u32xor(a, b);
    }

    /// Records the four limbs of the two values, the lower limbs first.
    fn record_u32_range_checks(&mut self, clk: RowIndex, u32_lo: Felt, u32_hi: Felt)
        ensures
            final(self)@.range_checker.last().0 == clk,
            u32_lo@ == final(self)@.range_checker.last().1@[0] + 0x1_0000
                * final(self)@.range_checker.last().1@[1],
            u32_hi@ == final(self)@.range_checker.last().1@[2] + 0x1_0000
                * final(self)@.range_checker.last().1@[3],
    {
        let (t1, t0) = split_u32_into_u16(u32_lo.as_int());
        let (t3, t2) = split_u32_into_u16(u32_hi.as_int());
        let limbs = [t0, t1, t2, t3];
        assert(limbs =~= limbs_of(u32_lo, u32_hi));
        self.range_checker.record_range_check_u32(clk, limbs);
    }

    fn record_kernel_proc_access(&mut self, proc_hash: Word)
        ensures
            final(self)@.kernel.last() == proc_hash,
    {
        self.kernel.record_kernel_proc_access(proc_hash);
    }

    fn record_circuit_evaluation(&mut self, clk: RowIndex, circuit_eval: CircuitEvaluation)
        ensures
            final(self)@.ace.last() == (clk, circuit_eval@),
    {
        self.ace.record_circuit_evaluation(clk, circuit_eval);
    }

    fn increment_clk(&mut self) {
        self.overflow_table.advance_clock();
    }

    /// The element that falls out of the topmost 16 goes to the overflow table.
    fn increment_stack_size(&mut self, processor: &FastProcessor) {
        let new_overflow_value = processor.stack_get(15);
        self.overflow_table.push(new_overflow_value);
    }

    fn decrement_stack_size(&mut self) {
        if let Some(popped_value) = self.overflow_table.pop() {
            let new_overflow_addr = self.overflow_table.last_update_clk_in_current_ctx();
            self.overflow_replay.record_pop_overflow(popped_value, new_overflow_addr);
        }
        assert(self@ =~= Self::after(old(self)@, TracerEvent::DecrementStackSize));
    }

    fn start_context(&mut self) {
        self.overflow_table.start_context();
    }

    fn restore_context(&mut self) {
        self.overflow_table.restore_context();
        self.overflow_replay.record_restore_context_overflow_addr(
            MIN_STACK_DEPTH + self.overflow_table.num_elements_in_current_ctx(),
            self.overflow_table.last_update_clk_in_current_ctx(),
        );
    }
}

} // verus!
