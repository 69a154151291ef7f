//! What a tracer records of what it is told.
//!
//! Every law takes the tracer before and after an event and says what was added to which recording,
//! in terms of the values that the tracer was told, and that nothing else changed.

use crate::ace::CircuitModel;
use crate::block_stack::BlockType;
use crate::block_stack::ExecutionContextInfo;
use crate::context::ContextId;
use crate::context::RowIndex;
use crate::continuation::Continuation;
use crate::execution_tracer::start_allowed;
use crate::execution_tracer::start_recorded;
use crate::execution_tracer::ExecutionTracer;
use crate::execution_tracer::ShimModel;
use crate::execution_tracer::TracerModel;
use crate::fast_processor::FastProcessor;
use crate::felt::felt;
use crate::felt::Felt;
use crate::mast::BasicBlockNode;
use crate::mast::MastForest;
use crate::mast::MastNode;
use crate::mast::MastNodeId;
use crate::trace_state::law_node_flags;
use crate::trace_state::AdviceModel;
use crate::trace_state::BitwiseOp;
use crate::trace_state::BlockStackReplayModel;
use crate::trace_state::HasherOpModel;
use crate::trace_state::HasherResponseModel;
use crate::trace_state::MemoryModel;
use crate::trace_state::NodeExecutionState;
use crate::trace_state::NodeFlagsModel;
use crate::trace_state::ReplayModel;
use crate::trace_state::StackOverflowModel;
use crate::tracer::Tracer;
use crate::tracer::TracerEvent;
use crate::word::Word;
use std::sync::Arc;
use vstd::prelude::*;

verus! {

// HASHER

/// The request to the hasher that an event adds, if it adds just one.
pub open spec fn added_request(m: TracerModel, event: TracerEvent) -> Option<HasherOpModel> {
    let (before, after) = (
        m.hasher_for_chiplet,
        ExecutionTracer::after(m, event).hasher_for_chiplet,
    );
    if after.len() == before.len() + 1 && after.drop_last() == before {
        Some(after.last())
    } else {
        None
    }
}

/// Whether an event touches nothing but what concerns the hasher.
pub open spec fn only_hasher_changes(m: TracerModel, after: TracerModel) -> bool {
    after == TracerModel {
        hasher_for_chiplet: after.hasher_for_chiplet,
        hasher: after.hasher,
        ..m
    }
}

/// An update of a Merkle root is requested from the hasher with the value before the update as the
/// old one and the value after it as the new one, with the same path and at the same index. The
/// answer is recorded at the address of the request, the root before the update first. The hasher
/// goes over the path twice, with eight rows for each of its nodes.
///
/// The old value is the leaf of the request that checks the path against the old root, and the new
/// value that of the request that checks it against the new root.
pub proof fn law_merkle_update_recorded(
    m: TracerModel,
    old_value: Word,
    new_value: Word,
    path: Seq<Word>,
    index: Felt,
    old_root: Word,
    new_root: Word,
)
    requires
        ExecutionTracer::allows(
            m,
            TracerEvent::HasherUpdateMerkleRoot(
                old_value,
                new_value,
                Some(path),
                index,
                old_root,
                new_root,
            ),
        ),
    ensures
        ({
            let update = TracerEvent::HasherUpdateMerkleRoot(
                old_value,
                new_value,
                Some(path),
                index,
                old_root,
                new_root,
            );
            let check_old = TracerEvent::HasherBuildMerkleRoot(
                old_value,
                Some(path),
                index,
                old_root,
            );
            let check_new = TracerEvent::HasherBuildMerkleRoot(
                new_value,
                Some(path),
                index,
                new_root,
            );
            let after = ExecutionTracer::after(m, update);
            let answers = after.hasher.replay.merkle_updates;
            &&& added_request(m, update) matches Some(request) && request matches
                HasherOpModel::UpdateMerkleRoot(before, now, siblings, at) && {
                &&& before == old_value
                &&& now == new_value
                &&& siblings == path
                &&& at == index
                &&& added_request(m, check_old) == Some(
                    HasherOpModel::BuildMerkleRoot(before, siblings, at),
                )
                &&& added_request(m, check_new) == Some(
                    HasherOpModel::BuildMerkleRoot(now, siblings, at),
                )
            }
            &&& answers.len() == m.hasher.replay.merkle_updates.len() + 1
            &&& answers.drop_last() == m.hasher.replay.merkle_updates
            &&& answers.last().0 == felt(m.hasher.addr as int)
            &&& answers.last().1 == old_root
            &&& answers.last().2 == new_root
            &&& after.hasher.addr == m.hasher.addr + 16 * (path.len() as int % 256)
            &&& after.hasher.replay == (HasherResponseModel {
                merkle_updates: answers,
                ..m.hasher.replay
            })
            &&& only_hasher_changes(m, after)
        }),
{
    let update = TracerEvent::HasherUpdateMerkleRoot(
        old_value,
        new_value,
        Some(path),
        index,
        old_root,
        new_root,
    );
    let after = ExecutionTracer::after(m, update);
    assert(after.hasher_for_chiplet.drop_last() =~= m.hasher_for_chiplet);
    assert(after.hasher.replay.merkle_updates.drop_last() =~= m.hasher.replay.merkle_updates);
    let check_old = TracerEvent::HasherBuildMerkleRoot(old_value, Some(path), index, old_root);
    let check_new = TracerEvent::HasherBuildMerkleRoot(new_value, Some(path), index, new_root);
    assert(ExecutionTracer::after(m, check_old).hasher_for_chiplet.drop_last()
        =~= m.hasher_for_chiplet);
    assert(ExecutionTracer::after(m, check_new).hasher_for_chiplet.drop_last()
        =~= m.hasher_for_chiplet);
}

/// An update that is undone by another is requested the other way round, and so are its roots.
pub proof fn law_merkle_update_undone(
    m: TracerModel,
    first: Word,
    second: Word,
    path: Seq<Word>,
    index: Felt,
    first_root: Word,
    second_root: Word,
)
    ensures
        ({
            let there = ExecutionTracer::after(
                m,
                TracerEvent::HasherUpdateMerkleRoot(
                    first,
                    second,
                    Some(path),
                    index,
                    first_root,
                    second_root,
                ),
            );
            let back = ExecutionTracer::after(
                there,
                TracerEvent::HasherUpdateMerkleRoot(
                    second,
                    first,
                    Some(path),
                    index,
                    second_root,
                    first_root,
                ),
            );
            let n = m.hasher_for_chiplet.len() as int;
            let k = m.hasher.replay.merkle_updates.len() as int;
            &&& back.hasher_for_chiplet.len() == n + 2
            &&& back.hasher_for_chiplet[n] matches HasherOpModel::UpdateMerkleRoot(a, b, _, _)
                && back.hasher_for_chiplet[n + 1] matches HasherOpModel::UpdateMerkleRoot(
                c,
                d,
                _,
                _,
            ) && a == first && b == second && c == b && d == a
            &&& back.hasher.replay.merkle_updates[k + 1].1
                == back.hasher.replay.merkle_updates[k].2
            &&& back.hasher.replay.merkle_updates[k + 1].2
                == back.hasher.replay.merkle_updates[k].1
            &&& back.hasher.replay.merkle_updates[k].1 == first_root
        }),
{
}

/// A check of a Merkle path is requested from the hasher with the leaf, the path and the index, and
/// the root that it leads to is recorded at the address of the request. The hasher takes eight rows
/// for each node of the path.
pub proof fn law_merkle_check_recorded(
    m: TracerModel,
    leaf: Word,
    path: Seq<Word>,
    index: Felt,
    root: Word,
)
    requires
        ExecutionTracer::allows(
            m,
            TracerEvent::HasherBuildMerkleRoot(leaf, Some(path), index, root),
        ),
    ensures
        ({
            let event = TracerEvent::HasherBuildMerkleRoot(leaf, Some(path), index, root);
            let after = ExecutionTracer::after(m, event);
            let answers = after.hasher.replay.merkle_roots;
            &&& added_request(m, event) matches Some(request) && request matches
                HasherOpModel::BuildMerkleRoot(l, p, i) && l == leaf && p == path && i == index
            &&& answers.len() == m.hasher.replay.merkle_roots.len() + 1
            &&& answers.drop_last() == m.hasher.replay.merkle_roots
            &&& answers.last().0 == felt(m.hasher.addr as int)
            &&& answers.last().1 == root
            &&& after.hasher.addr == m.hasher.addr + 8 * (path.len() as int % 256)
            &&& after.hasher.replay == (HasherResponseModel {
                merkle_roots: answers,
                ..m.hasher.replay
            })
            &&& only_hasher_changes(m, after)
        }),
{
    let event = TracerEvent::HasherBuildMerkleRoot(leaf, Some(path), index, root);
    let after = ExecutionTracer::after(m, event);
    assert(after.hasher_for_chiplet.drop_last() =~= m.hasher_for_chiplet);
    assert(after.hasher.replay.merkle_roots.drop_last() =~= m.hasher.replay.merkle_roots);
}

/// A permutation is requested from the hasher on its input, and its output is recorded at the
/// address of the request. It takes eight rows.
pub proof fn law_permutation_recorded(m: TracerModel, input: [Felt; 12], output: [Felt; 12])
    requires
        ExecutionTracer::allows(m, TracerEvent::HasherPermute(input, output)),
    ensures
        ({
            let event = TracerEvent::HasherPermute(input, output);
            let after = ExecutionTracer::after(m, event);
            let answers = after.hasher.replay.permutations;
            &&& added_request(m, event) matches Some(request) && request matches
                HasherOpModel::Permute(state) && state == input
            &&& answers.len() == m.hasher.replay.permutations.len() + 1
            &&& answers.drop_last() == m.hasher.replay.permutations
            &&& answers.last().0 == felt(m.hasher.addr as int)
            &&& answers.last().1 == output
            &&& after.hasher.addr == m.hasher.addr + 8
            &&& after.hasher.replay == (HasherResponseModel {
                permutations: answers,
                ..m.hasher.replay
            })
            &&& only_hasher_changes(m, after)
        }),
{
    let after = ExecutionTracer::after(m, TracerEvent::HasherPermute(input, output));
    assert(after.hasher_for_chiplet.drop_last() =~= m.hasher_for_chiplet);
    assert(after.hasher.replay.permutations.drop_last() =~= m.hasher.replay.permutations);
}

// STARTS OF NODES

/// What the start of a control node asks the hasher for: the digests of two children, of one child
/// and zeros, or zeros, in the domain that is the code of the operation that starts the node; and
/// the digest that is expected is that of the node.
pub open spec fn asks_for(
    request: HasherOpModel,
    first: Word,
    second: Word,
    domain: int,
    digest: Word,
) -> bool {
    request matches HasherOpModel::HashControlBlock(h1, h2, d, h) && h1 == first && h2 == second
        && d == felt(domain) && h == digest
}

/// The word of four zeros.
pub open spec fn zeros() -> Word {
    Word { e0: felt(0), e1: felt(0), e2: felt(0), e3: felt(0) }
}

/// Whether the start of a node was recorded: the hasher is asked once, and the address it gives to
/// the node is recorded and put on the block stack, with the address of the node that was on top
/// before as that of the parent, which is recorded, too.
pub open spec fn node_recorded(m: TracerModel, after: TracerModel, rows: int) -> bool {
    let block = after.block_stack.last();
    let parent = if m.block_stack.len() > 0 {
        m.block_stack.last().addr
    } else {
        felt(0)
    };
    &&& after.hasher_for_chiplet.len() == m.hasher_for_chiplet.len() + 1
    &&& after.hasher_for_chiplet.drop_last() == m.hasher_for_chiplet
    &&& after.hasher.addr == m.hasher.addr + rows
    &&& after.hasher.replay == (HasherResponseModel {
        block_addresses: m.hasher.replay.block_addresses.push(block.addr),
        ..m.hasher.replay
    })
    &&& after.block_stack.len() == m.block_stack.len() + 1
    &&& after.block_stack.drop_last() == m.block_stack
    &&& block.addr == felt(m.hasher.addr as int)
    &&& block.parent_addr == parent
    &&& block.loop_body <==> (m.block_stack.len() > 0 && m.block_stack.last().block_type is Loop)
    &&& after.replay == (ReplayModel {
        block_stack: BlockStackReplayModel {
            node_start: m.replay.block_stack.node_start.push(parent),
            ..m.replay.block_stack
        },
        ..m.replay
    })
    &&& after == (TracerModel {
        hasher_for_chiplet: after.hasher_for_chiplet,
        hasher: after.hasher,
        block_stack: after.block_stack,
        replay: after.replay,
        ..m
    })
}

proof fn lemma_node_recorded(
    m: TracerModel,
    node: MastNode,
    processor: FastProcessor,
    forest: MastForest,
)
    requires
        start_allowed(m, node, processor, forest),
    ensures
        node_recorded(
            m,
            start_recorded(m, node, processor, forest),
            match node {
                MastNode::Block(n) => 8 * n.spec_op_batches().len() as int,
                _ => 8int,
            },
        ),
{
    let after = start_recorded(m, node, processor, forest);
    assert(after.hasher_for_chiplet.drop_last() =~= m.hasher_for_chiplet);
    assert(after.block_stack.drop_last() =~= m.block_stack);
}

/// The start of a join, of a split, of a loop, of a call or of a dynamic node is recorded: the
/// hasher is asked to hash the digests of the children in their order, in the domain of the
/// operation, and the block on the stack is of the kind of the node. A loop is entered if the
/// topmost element of the stack is one. A call and a dynamic call remember the context, the free
/// memory pointer and the digest of the caller, the depth of its stack, without the address of the
/// callee for a dynamic call, and the clock cycle of the topmost element of its overflow table.
pub proof fn law_control_node_recorded(
    m: TracerModel,
    node: MastNode,
    processor: FastProcessor,
    forest: MastForest,
)
    requires
        node !is Block,
        start_allowed(m, node, processor, forest),
    ensures
        ({
            let after = start_recorded(m, node, processor, forest);
            let request = after.hasher_for_chiplet.last();
            let block = after.block_stack.last();
            &&& node_recorded(m, after, 8)
            &&& match node {
                MastNode::Join(n) => {
                    &&& asks_for(
                        request,
                        forest.node(n.first).spec_digest(),
                        forest.node(n.second).spec_digest(),
                        0x57,
                        n.digest,
                    )
                    &&& block.block_type == BlockType::Join(false)
                    &&& block.ctx_info is None
                },
                MastNode::Split(n) => {
                    &&& asks_for(
                        request,
                        forest.node(n.on_true).spec_digest(),
                        forest.node(n.on_false).spec_digest(),
                        0x54,
                        n.digest,
                    )
                    &&& block.block_type == BlockType::Split
                    &&& block.ctx_info is None
                },
                MastNode::Loop(n) => {
                    &&& asks_for(
                        request,
                        forest.node(n.body).spec_digest(),
                        zeros(),
                        0x55,
                        n.digest,
                    )
                    &&& block.block_type == BlockType::Loop(processor.stack_top@[15] == felt(1))
                    &&& block.ctx_info is None
                },
                MastNode::Call(n) => {
                    &&& asks_for(
                        request,
                        forest.node(n.callee).spec_digest(),
                        zeros(),
                        if n.is_syscall {
                            0x68
                        } else {
                            0x6c
                        },
                        n.digest,
                    )
                    &&& block.block_type == if n.is_syscall {
                        BlockType::SysCall
                    } else {
                        BlockType::Call
                    }
                    &&& remembers(block.ctx_info, m, processor, processor.stack_depth as int)
                },
                MastNode::Dyn(n) => {
                    &&& asks_for(
                        request,
                        zeros(),
                        zeros(),
                        if n.is_dyncall {
                            0x5c
                        } else {
                            0x58
                        },
                        n.digest,
                    )
                    &&& block.block_type == if n.is_dyncall {
                        BlockType::Dyncall
                    } else {
                        BlockType::Dyn
                    }
                    &&& !n.is_dyncall ==> block.ctx_info is None
                    &&& n.is_dyncall ==> remembers(
                        block.ctx_info,
                        m,
                        processor,
                        processor.stack_depth - 1,
                    )
                },
                _ => false,
            }
        }),
{
    lemma_node_recorded(m, node, processor, forest);
}

/// Whether a context that is left is remembered.
pub open spec fn remembers(
    info: Option<ExecutionContextInfo>,
    m: TracerModel,
    processor: FastProcessor,
    depth: int,
) -> bool {
    info matches Some(left) && {
        &&& left.parent_ctx == processor.ctx
        &&& left.parent_fmp == processor.fmp
        &&& left.parent_fn_hash == processor.caller_hash
        &&& left.parent_stack_depth == depth
        &&& left.parent_next_overflow_addr == if m.overflow_table.current.len() > 0 {
            felt(m.overflow_table.current.last().1 as int)
        } else {
            felt(0)
        }
    }
}

/// The start of a basic block is recorded: the hasher is asked to hash its batches in order, with
/// eight rows for each, and the digest that is expected is that of the block.
pub proof fn law_basic_block_recorded(
    m: TracerModel,
    node: BasicBlockNode,
    processor: FastProcessor,
    forest: MastForest,
)
    requires
        start_allowed(m, MastNode::Block(node), processor, forest),
    ensures
        ({
            let after = start_recorded(m, MastNode::Block(node), processor, forest);
            let batches = node.spec_op_batches();
            &&& node_recorded(m, after, 8 * batches.len() as int)
            &&& after.block_stack.last().block_type == BlockType::BasicBlock
            &&& after.block_stack.last().ctx_info is None
            &&& after.hasher_for_chiplet.last() matches HasherOpModel::HashBasicBlock(
                hashed,
                digest,
            ) && {
                &&& digest == node.spec_digest()
                &&& hashed.len() == batches.len()
                &&& forall|i: int|
                    0 <= i < batches.len() ==> #[trigger] hashed[i] == batches[i]@
            }
        }),
{
    lemma_node_recorded(m, MastNode::Block(node), processor, forest);
}

// ENDS OF NODES

/// The end of a node is recorded: the address of the node that was on top of the block stack, what
/// kind of node it was, and the addresses of the node below it and of the parent of that. A join
/// below it has had its first child from then on. No other node on the stack changes.
pub proof fn law_node_end_recorded(m: TracerModel)
    requires
        m.block_stack.len() > 0,
    ensures
        ({
            let after = m.block_ended();
            let block = m.block_stack.last();
            let n = m.block_stack.len() - 1;
            let ends = after.replay.block_stack.node_end;
            let end = ends.last();
            &&& ends.len() == m.replay.block_stack.node_end.len() + 1
            &&& ends.drop_last() == m.replay.block_stack.node_end
            &&& end.ended_node_addr == block.addr
            &&& end.flags@.is_loop_body == block.loop_body
            &&& end.flags@.loop_entered == (block.block_type == BlockType::Loop(true))
            &&& end.flags@.is_call == (block.block_type == BlockType::Call || block.block_type
                == BlockType::Dyncall)
            &&& end.flags@.is_syscall == (block.block_type == BlockType::SysCall)
            &&& end.prev_addr == if n > 0 {
                m.block_stack[n - 1].addr
            } else {
                felt(0)
            }
            &&& end.prev_parent_addr == if n > 0 {
                m.block_stack[n - 1].parent_addr
            } else {
                felt(0)
            }
            &&& after.block_stack.len() == n
            &&& forall|i: int| 0 <= i < n - 1 ==> #[trigger] after.block_stack[i] == m.block_stack[i]
            &&& n > 0 ==> {
                let (below, now) = (m.block_stack[n - 1], after.block_stack[n - 1]);
                &&& now.addr == below.addr
                &&& now.parent_addr == below.parent_addr
                &&& now.ctx_info == below.ctx_info
                &&& now.loop_body == below.loop_body
                &&& now.block_type == if below.block_type is Join {
                    BlockType::Join(true)
                } else {
                    below.block_type
                }
            }
            &&& after.replay.block_stack.node_start == m.replay.block_stack.node_start
            &&& block.ctx_info is None ==> after.replay.block_stack.execution_contexts
                == m.replay.block_stack.execution_contexts
            &&& after == (TracerModel {
                block_stack: after.block_stack,
                replay: ReplayModel { block_stack: after.replay.block_stack, ..m.replay },
                ..m
            })
        }),
{
    let after = m.block_ended();
    assert(after.replay.block_stack.node_end.drop_last() =~= m.replay.block_stack.node_end);
    law_node_flags(
        NodeFlagsModel {
            is_loop_body: m.block_stack.last().loop_body,
            loop_entered: m.block_stack.last().entered_loop(),
            is_call: m.block_stack.last().call(),
            is_syscall: m.block_stack.last().syscall(),
        },
    );
}

/// A further batch of a basic block moves the block eight addresses on, and changes nothing else.
pub proof fn law_respan_recorded(m: TracerModel)
    requires
        m.block_stack.len() > 0,
    ensures
        ({
            let after = m.respanned();
            let n = m.block_stack.len() - 1;
            &&& after == (TracerModel { block_stack: after.block_stack, ..m })
            &&& after.block_stack.len() == n + 1
            &&& forall|i: int| 0 <= i < n ==> #[trigger] after.block_stack[i] == m.block_stack[i]
            &&& after.block_stack[n].addr == felt(m.block_stack[n].addr@ + 8)
            &&& after.block_stack[n].block_type == m.block_stack[n].block_type
            &&& after.block_stack[n].parent_addr == m.block_stack[n].parent_addr
            &&& after.block_stack[n].ctx_info == m.block_stack[n].ctx_info
            &&& after.block_stack[n].loop_body == m.block_stack[n].loop_body
        }),
{
}

// CLOCK CYCLES

/// A clock cycle that is a multiple of the size of a fragment begins a fragment, in the state of
/// the processor in that cycle, at the addresses of the node on top of the block stack, with what
/// is to be executed and what remains, and with nothing recorded yet. What was recorded before is
/// put aside, with the state in which the fragment before began. The addresses of the hasher go
/// on.
pub proof fn law_fragment_begins(
    m: TracerModel,
    processor: FastProcessor,
    execution_state: NodeExecutionState,
    continuation: Seq<Continuation>,
    forest: Arc<MastForest>,
)
    requires
        m.fragment_size > 0,
        processor.clk as int % m.fragment_size as int == 0,
        16 + m.overflow_table.current.len() <= usize::MAX,
        execution_state is BasicBlock || execution_state is LoopRepeat,
    ensures
        ({
            let after = ExecutionTracer::after(
                m,
                TracerEvent::StartClockCycle(processor, execution_state, continuation, forest),
            );
            &&& after.snapshot matches Some(begun) && {
                &&& begun.system.clk == processor.clk
                &&& begun.system.ctx == processor.ctx
                &&& begun.system.fmp == processor.fmp
                &&& begun.system.in_syscall == processor.in_syscall
                &&& begun.system.fn_hash == processor.caller_hash
                &&& begun.stack.top == processor.stack_top@
                &&& begun.stack.depth == 16 + m.overflow_table.current.len()
                &&& begun.stack.overflow_addr == if m.overflow_table.current.len() > 0 {
                    felt(m.overflow_table.current.last().1 as int)
                } else {
                    felt(0)
                }
                &&& begun.decoder.current_addr == if m.block_stack.len() > 0 {
                    m.block_stack.last().addr
                } else {
                    felt(0)
                }
                &&& begun.decoder.parent_addr == if m.block_stack.len() > 0 {
                    m.block_stack.last().parent_addr
                } else {
                    felt(0)
                }
                &&& begun.continuation == continuation
                &&& begun.execution_state == execution_state
                &&& begun.initial_mast_forest == forest
            }
            &&& m.snapshot is None ==> after.fragment_contexts == m.fragment_contexts
            &&& m.snapshot matches Some(old) ==> {
                let n = m.fragment_contexts.len() as int;
                let context = after.fragment_contexts[n];
                &&& after.fragment_contexts.len() == n + 1
                &&& after.fragment_contexts.take(n) == m.fragment_contexts
                &&& context.system == old.system
                &&& context.decoder == old.decoder
                &&& context.stack == old.stack
                &&& context.continuation == old.continuation
                &&& context.initial_mast_forest == old.initial_mast_forest
                &&& context.initial_execution_state == old.execution_state
                &&& context.replay.hasher == m.hasher.replay
                &&& context.replay.block_stack == m.replay.block_stack
                &&& context.replay.stack_overflow == m.replay.stack_overflow
                &&& context.replay.memory_reads == m.replay.memory_reads
                &&& context.replay.advice == m.replay.advice
                &&& context.replay.resolutions == m.replay.resolutions
                &&& after.replay == ReplayModel::empty()
                &&& after.hasher.replay == HasherResponseModel::empty()
            }
            &&& after.hasher.addr == m.hasher.addr
            &&& after == (TracerModel {
                snapshot: after.snapshot,
                fragment_contexts: after.fragment_contexts,
                hasher: after.hasher,
                replay: after.replay,
                ..m
            })
        }),
{
    let after = ExecutionTracer::after(
        m,
        TracerEvent::StartClockCycle(processor, execution_state, continuation, forest),
    );
    if m.snapshot is Some {
        assert(after.fragment_contexts.take(m.fragment_contexts.len() as int)
            =~= m.fragment_contexts);
    }
}

/// A recording that starts anew holds nothing.
pub proof fn law_fresh_recording(fragment_size: usize)
    ensures
        ({
            let m = TracerModel::fresh(fragment_size);
            let r = m.replay;
            &&& m.snapshot is None
            &&& m.hasher.addr == 1
            &&& m.block_stack.len() == 0
            &&& m.overflow_table.current.len() == 0
            &&& m.overflow_table.saved.len() == 0
            &&& m.overflow_table.clk == 0
            &&& m.hasher_for_chiplet.len() == 0
            &&& m.range_checker.len() == 0
            &&& m.bitwise.len() == 0
            &&& m.kernel.len() == 0
            &&& m.ace.len() == 0
            &&& m.memory_writes.elements.len() == 0
            &&& m.memory_writes.words.len() == 0
            &&& m.fragment_contexts.len() == 0
            &&& m.fragment_size == fragment_size
            &&& r.block_stack.node_start.len() == 0
            &&& r.block_stack.node_end.len() == 0
            &&& r.block_stack.execution_contexts.len() == 0
            &&& r.stack_overflow.overflow_values.len() == 0
            &&& r.stack_overflow.restore_context_info.len() == 0
            &&& r.memory_reads.elements.len() == 0
            &&& r.memory_reads.words.len() == 0
            &&& r.advice.pops.len() == 0
            &&& r.advice.word_pops.len() == 0
            &&& r.advice.dword_pops.len() == 0
            &&& r.resolutions.len() == 0
            &&& m.hasher.replay.block_addresses.len() == 0
            &&& m.hasher.replay.permutations.len() == 0
            &&& m.hasher.replay.merkle_roots.len() == 0
            &&& m.hasher.replay.merkle_updates.len() == 0
        }),
{
}

/// A clock cycle begins no fragment otherwise, and only the block stack follows: a node that starts
/// goes onto it, a further batch moves its block on, a node that ends goes off it, and within a
/// block or a loop nothing happens.
pub proof fn law_clock_cycle_recorded(
    m: TracerModel,
    processor: FastProcessor,
    execution_state: NodeExecutionState,
    continuation: Seq<Continuation>,
    forest: Arc<MastForest>,
)
    requires
        m.fragment_size > 0,
        processor.clk as int % m.fragment_size as int != 0,
    ensures
        ExecutionTracer::after(
            m,
            TracerEvent::StartClockCycle(processor, execution_state, continuation, forest),
        ) == match execution_state {
            NodeExecutionState::Start(id) => start_recorded(
                m,
                shared_forest(forest).node(id),
                processor,
                shared_forest(forest),
            ),
            NodeExecutionState::Respan { .. } => m.respanned(),
            NodeExecutionState::End(_) => m.block_ended(),
            NodeExecutionState::BasicBlock { .. } => m,
            NodeExecutionState::LoopRepeat(_) => m,
        },
{
}

/// What is left of a recording when a fragment begins: the recording of a fragment is put aside, and
/// nothing is recorded yet for the next one. The first fragment keeps what there is.
pub open spec fn put_aside(m: TracerModel, after: TracerModel) -> TracerModel {
    TracerModel {
        snapshot: after.snapshot,
        fragment_contexts: after.fragment_contexts,
        hasher: ShimModel {
            replay: if m.snapshot is Some {
                HasherResponseModel::empty()
            } else {
                m.hasher.replay
            },
            ..m.hasher
        },
        replay: if m.snapshot is Some {
            ReplayModel::empty()
        } else {
            m.replay
        },
        ..m
    }
}

/// A fragment begins before the node of its first clock cycle is recorded: the fragment begins with
/// the block stack as it was, and the node is the first thing that is recorded for it.
pub proof fn law_fragment_begins_before_its_node(
    m: TracerModel,
    processor: FastProcessor,
    execution_state: NodeExecutionState,
    continuation: Seq<Continuation>,
    forest: Arc<MastForest>,
)
    requires
        m.fragment_size > 0,
        processor.clk as int % m.fragment_size as int == 0,
        16 + m.overflow_table.current.len() <= usize::MAX,
    ensures
        ({
            let after = ExecutionTracer::after(
                m,
                TracerEvent::StartClockCycle(processor, execution_state, continuation, forest),
            );
            let begun = put_aside(m, after);
            &&& after.snapshot matches Some(first) && {
                &&& first.execution_state == execution_state
                &&& first.continuation == continuation
                &&& first.initial_mast_forest == forest
                &&& first.system.clk == processor.clk
                &&& first.stack.top == processor.stack_top@
                &&& first.decoder.current_addr == if m.block_stack.len() > 0 {
                    m.block_stack.last().addr
                } else {
                    felt(0)
                }
                &&& first.decoder.parent_addr == if m.block_stack.len() > 0 {
                    m.block_stack.last().parent_addr
                } else {
                    felt(0)
                }
            }
            &&& after == match execution_state {
                NodeExecutionState::Start(id) => start_recorded(
                    begun,
                    shared_forest(forest).node(id),
                    processor,
                    shared_forest(forest),
                ),
                NodeExecutionState::Respan { .. } => begun.respanned(),
                NodeExecutionState::End(_) => begun.block_ended(),
                NodeExecutionState::BasicBlock { .. } => begun,
                NodeExecutionState::LoopRepeat(_) => begun,
            }
            &&& m.snapshot is Some ==> after.fragment_contexts.len() == m.fragment_contexts.len()
                + 1
            &&& m.snapshot is None ==> after.fragment_contexts == m.fragment_contexts
        }),
{
}

/// Without a size, only the first clock cycle begins a fragment.
pub proof fn law_one_fragment(
    m: TracerModel,
    processor: FastProcessor,
    execution_state: NodeExecutionState,
    continuation: Seq<Continuation>,
    forest: Arc<MastForest>,
)
    requires
        m.fragment_size == 0,
        execution_state is BasicBlock || execution_state is LoopRepeat,
    ensures
        ({
            let after = ExecutionTracer::after(
                m,
                TracerEvent::StartClockCycle(processor, execution_state, continuation, forest),
            );
            &&& processor.clk == 0 ==> after.snapshot is Some && after.snapshot.unwrap().system.clk
                == 0
            &&& processor.clk != 0 ==> after == m
        }),
{
}

/// The forest that is shared.
pub open spec fn shared_forest(forest: Arc<MastForest>) -> MastForest {
    *forest
}

// ANSWERS AND REQUESTS

/// A read of memory is recorded for the current fragment, a write for the memory; each with the
/// value, the address, the context and the clock cycle that the tracer was told.
pub proof fn law_memory_access_recorded(
    m: TracerModel,
    element: Felt,
    word: Word,
    addr: Felt,
    ctx: ContextId,
    clk: RowIndex,
)
    ensures
        ({
            let after = |e: TracerEvent| ExecutionTracer::after(m, e);
            let a = after(TracerEvent::MemoryReadElement(element, addr, ctx, clk));
            let b = after(TracerEvent::MemoryReadWord(word, addr, ctx, clk));
            let c = after(TracerEvent::MemoryWriteElement(element, addr, ctx, clk));
            let d = after(TracerEvent::MemoryWriteWord(word, addr, ctx, clk));
            let reads = m.replay.memory_reads;
            let writes = m.memory_writes;
            &&& a == (TracerModel {
                replay: ReplayModel {
                    memory_reads: MemoryModel {
                        elements: reads.elements.push((element, addr, ctx, clk)),
                        words: reads.words,
                    },
                    ..m.replay
                },
                ..m
            })
            &&& b == (TracerModel {
                replay: ReplayModel {
                    memory_reads: MemoryModel {
                        elements: reads.elements,
                        words: reads.words.push((word, addr, ctx, clk)),
                    },
                    ..m.replay
                },
                ..m
            })
            &&& c == (TracerModel {
                memory_writes: MemoryModel {
                    elements: writes.elements.push((element, addr, ctx, clk)),
                    words: writes.words,
                },
                ..m
            })
            &&& d == (TracerModel {
                memory_writes: MemoryModel {
                    elements: writes.elements,
                    words: writes.words.push((word, addr, ctx, clk)),
                },
                ..m
            })
        }),
{
}

/// What comes off the advice stack is recorded in the order in which it comes: single elements,
/// words and pairs of words each by themselves.
pub proof fn law_advice_recorded(m: TracerModel, value: Felt, word: Word, words: [Word; 2])
    ensures
        ({
            let advice = m.replay.advice;
            let with = |a: AdviceModel|
                TracerModel { replay: ReplayModel { advice: a, ..m.replay }, ..m };
            &&& ExecutionTracer::after(m, TracerEvent::AdvicePopStack(value)) == with(
                AdviceModel {
                    pops: advice.pops.push(value),
                    word_pops: advice.word_pops,
                    dword_pops: advice.dword_pops,
                },
            )
            &&& ExecutionTracer::after(m, TracerEvent::AdvicePopStackWord(word)) == with(
                AdviceModel {
                    pops: advice.pops,
                    word_pops: advice.word_pops.push(word),
                    dword_pops: advice.dword_pops,
                },
            )
            &&& ExecutionTracer::after(m, TracerEvent::AdvicePopStackDword(words)) == with(
                AdviceModel {
                    pops: advice.pops,
                    word_pops: advice.word_pops,
                    dword_pops: advice.dword_pops.push(words),
                },
            )
        }),
{
}

/// A bitwise operation is requested with its operands in the order in which the tracer was told
/// them, a kernel procedure by its hash, an evaluation of a circuit with its clock cycle; a node of
/// another forest is recorded for the current fragment.
pub proof fn law_requests_recorded(
    m: TracerModel,
    a: Felt,
    b: Felt,
    proc_hash: Word,
    clk: RowIndex,
    circuit: CircuitModel,
    id: MastNodeId,
    forest: Arc<MastForest>,
)
    ensures
        ExecutionTracer::after(m, TracerEvent::U32And(a, b)) == (TracerModel {
            bitwise: m.bitwise.push((BitwiseOp::U32And, a, b)),
            ..m
        }),
        ExecutionTracer::after(m, TracerEvent::U32Xor(a, b)) == (TracerModel {
            bitwise: m.bitwise.push((BitwiseOp::U32Xor, a, b)),
            ..m
        }),
        ExecutionTracer::after(m, TracerEvent::KernelProcAccess(proc_hash)) == (TracerModel {
            kernel: m.kernel.push(proc_hash),
            ..m
        }),
        ExecutionTracer::after(m, TracerEvent::CircuitEvaluated(clk, circuit)) == (TracerModel {
            ace: m.ace.push((clk, circuit)),
            ..m
        }),
        ExecutionTracer::after(m, TracerEvent::MastForestResolution(id, forest)) == (TracerModel {
            replay: ReplayModel {
                resolutions: m.replay.resolutions.push((id, forest)),
                ..m.replay
            },
            ..m
        }),
{
}

/// A range check of two 32-bit values is recorded with its clock cycle and four limbs of 16 bits,
/// which make up the two values: the lower value first, and of each value the lower limb first.
pub proof fn law_range_checks_recorded(m: TracerModel, clk: RowIndex, lo: Felt, hi: Felt)
    requires
        ExecutionTracer::allows(m, TracerEvent::U32RangeChecks(clk, lo, hi)),
    ensures
        ({
            let after = ExecutionTracer::after(m, TracerEvent::U32RangeChecks(clk, lo, hi));
            let check = after.range_checker.last();
            &&& after.range_checker.len() == m.range_checker.len() + 1
            &&& after.range_checker.drop_last() == m.range_checker
            &&& after == (TracerModel { range_checker: after.range_checker, ..m })
            &&& check.0 == clk
            &&& check.1@[0] + 0x1_0000 * check.1@[1] == lo@
            &&& check.1@[2] + 0x1_0000 * check.1@[3] == hi@
        }),
{
    let after = ExecutionTracer::after(m, TracerEvent::U32RangeChecks(clk, lo, hi));
    assert(after.range_checker.drop_last() =~= m.range_checker);
}

// OVERFLOW TABLE

/// What happens to the overflow table. When the stack grows, the sixteenth element goes onto it,
/// with the clock cycle of the table. When the stack shrinks, the last element comes off it and is
/// recorded, together with the clock cycle of the one that is last then, or zero; an empty table
/// stays as it is, and nothing is recorded. A new context begins with an empty table. The context
/// that is returned to has its table back, and its depth and the clock cycle of its last element
/// are recorded. The clock of the table advances by one.
pub proof fn law_overflow_table(m: TracerModel, processor: FastProcessor)
    ensures
        ({
            let t = m.overflow_table;
            let grown = ExecutionTracer::after(m, TracerEvent::IncrementStackSize(processor));
            let shrunk = ExecutionTracer::after(m, TracerEvent::DecrementStackSize);
            let started = ExecutionTracer::after(m, TracerEvent::StartContext);
            let restored = ExecutionTracer::after(m, TracerEvent::RestoreContext);
            let ticked = ExecutionTracer::after(m, TracerEvent::IncrementClk);
            &&& grown == (TracerModel { overflow_table: grown.overflow_table, ..m })
            &&& grown.overflow_table.current == t.current.push((processor.stack_top@[0], t.clk))
            &&& grown.overflow_table.saved == t.saved
            &&& grown.overflow_table.clk == t.clk
            &&& t.current.len() == 0 ==> shrunk == m
            &&& t.current.len() > 0 ==> {
                let recorded = m.replay.stack_overflow;
                &&& shrunk.overflow_table.current == t.current.drop_last()
                &&& shrunk.overflow_table.saved == t.saved
                &&& shrunk.overflow_table.clk == t.clk
                &&& shrunk.replay == (ReplayModel {
                    stack_overflow: StackOverflowModel {
                        overflow_values: recorded.overflow_values.push(
                            (
                                t.current.last().0,
                                if t.current.len() > 1 {
                                    felt(t.current[t.current.len() - 2].1 as int)
                                } else {
                                    felt(0)
                                },
                            ),
                        ),
                        restore_context_info: recorded.restore_context_info,
                    },
                    ..m.replay
                })
                &&& shrunk == (TracerModel {
                    overflow_table: shrunk.overflow_table,
                    replay: shrunk.replay,
                    ..m
                })
            }
            &&& started == (TracerModel { overflow_table: started.overflow_table, ..m })
            &&& started.overflow_table.current.len() == 0
            &&& started.overflow_table.saved == t.saved.push(t.current)
            &&& started.overflow_table.clk == t.clk
            &&& t.saved.len() > 0 && 16 + t.saved.last().len() <= usize::MAX ==> {
                let back = t.saved.last();
                &&& restored.overflow_table.current == back
                &&& restored.overflow_table.saved == t.saved.drop_last()
                &&& restored.overflow_table.clk == t.clk
                &&& restored.replay == (ReplayModel {
                    stack_overflow: StackOverflowModel {
                        overflow_values: m.replay.stack_overflow.overflow_values,
                        restore_context_info: m.replay.stack_overflow.restore_context_info.push(
                            (
                                (16 + back.len()) as usize,
                                if back.len() > 0 {
                                    felt(back.last().1 as int)
                                } else {
                                    felt(0)
                                },
                            ),
                        ),
                    },
                    ..m.replay
                })
                &&& restored == (TracerModel {
                    overflow_table: restored.overflow_table,
                    replay: restored.replay,
                    ..m
                })
            }
            &&& t.clk < u32::MAX ==> {
                &&& ticked.overflow_table.clk == t.clk + 1
                &&& ticked.overflow_table.current == t.current
                &&& ticked.overflow_table.saved == t.saved
                &&& ticked == (TracerModel { overflow_table: ticked.overflow_table, ..m })
            }
        }),
{
}

/// A context that is started and left without a change has its overflow table back.
pub proof fn law_context_of_overflow_table(m: TracerModel)
    ensures
        ExecutionTracer::after(
            ExecutionTracer::after(m, TracerEvent::StartContext),
            TracerEvent::RestoreContext,
        ).overflow_table == m.overflow_table,
{
    let started = ExecutionTracer::after(m, TracerEvent::StartContext);
    assert(started.overflow_table.saved.drop_last() =~= m.overflow_table.saved);
}

} // verus!
