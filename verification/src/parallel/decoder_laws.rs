//! What the rows of the trace show of the nodes of a program.
//!
//! Rows are read off the columns: the address in column 8, the bits of the code of the operation in
//! columns 9 to 15, the hasher registers in columns 16 to 23, and in columns 24 to 29 what belongs
//! to basic blocks. The laws say which of the inputs a row shows where, and what the row leaves for
//! the next one.

use crate::block_stack::BasicBlockContext;
use crate::execution_tracer::TracerModel;
use crate::felt::felt;
use crate::felt::lemma_felt_small;
use crate::felt::Felt;
use crate::layout::OP_BITS_OFFSET;
use crate::lockstep::block_record;
use crate::lockstep::block_records_left;
use crate::lockstep::block_traced;
use crate::lockstep::decoder_in_step;
use crate::lockstep::BlockEvent;
use crate::lockstep::BlockRecords;
use crate::mast::CallNode;
use crate::mast::DynNode;
use crate::mast::JoinNode;
use crate::mast::LoopNode;
use crate::mast::MastForest;
use crate::mast::OpBatchModel;
use crate::mast::Operation;
use crate::mast::SplitNode;
use crate::parallel::execution::call_started;
use crate::parallel::execution::dyn_started;
use crate::parallel::execution::join_started;
use crate::parallel::execution::loop_started;
use crate::parallel::execution::split_started;
use crate::parallel::model::batch_flags;
use crate::parallel::model::batch_row;
use crate::parallel::model::call_context_started;
use crate::parallel::model::callee_read;
use crate::parallel::model::control_row;
use crate::parallel::model::decoder_cells;
use crate::parallel::model::decremented;
use crate::parallel::model::dyncall_context_started;
use crate::parallel::model::end_added;
use crate::parallel::model::first_groups;
use crate::parallel::model::last_groups;
use crate::parallel::model::left_context;
use crate::parallel::model::node_ended;
use crate::parallel::model::node_started;
use crate::parallel::model::operation_row;
use crate::parallel::model::repeat_row;
use crate::parallel::model::respanned;
use crate::parallel::model::row_added;
use crate::parallel::model::span_end_added;
use crate::parallel::model::span_row;
use crate::parallel::model::DecoderRow;
use crate::parallel::model::Flow;
use crate::parallel::model::GeneratorModel;
use crate::parallel::resume::final_state;
use crate::parallel::row_laws::law_op_bits;
use crate::parallel::row_laws::law_row_added;
use crate::trace_state::ReplayModel;
use crate::trace_state::StackModel;
use crate::trace_state::StackOverflowModel;
use crate::trace_state::SystemState;
use crate::word::Word;
use vstd::prelude::*;

verus! {

// WHAT A ROW SHOWS

/// Whether a row shows the code of an operation: its bits, the lowest one first, and the two
/// products of bits that tell groups of operations apart.
pub open spec fn shows_op(columns: Seq<Seq<Felt>>, r: int, op_code: int) -> bool {
    let bit = |i: int| columns[9 + i][r]@ as int;
    &&& forall|i: int| 0 <= i < 7 ==> #[trigger] bit(i) == 0 || bit(i) == 1
    &&& bit(0) + 2 * bit(1) + 4 * bit(2) + 8 * bit(3) + 16 * bit(4) + 32 * bit(5) + 64 * bit(6)
        == op_code
    &&& columns[30][r]@ == bit(6) * (1 - bit(5)) * bit(4)
    &&& columns[31][r]@ == bit(6) * bit(5)
}

/// Whether the hasher registers of a row show two words.
pub open spec fn shows_words(columns: Seq<Seq<Felt>>, r: int, first: Word, second: Word) -> bool {
    &&& columns[16][r] == first.e0
    &&& columns[17][r] == first.e1
    &&& columns[18][r] == first.e2
    &&& columns[19][r] == first.e3
    &&& columns[20][r] == second.e0
    &&& columns[21][r] == second.e1
    &&& columns[22][r] == second.e2
    &&& columns[23][r] == second.e3
}

/// Whether a row shows that it is outside of basic blocks.
pub open spec fn shows_no_block(columns: Seq<Seq<Felt>>, r: int) -> bool {
    forall|c: int| 24 <= c < 30 ==> (#[trigger] columns[c])[r]@ == 0
}

/// Whether a row shows an address, the code of an operation outside of basic blocks, and two
/// words.
pub open spec fn shows_control(
    columns: Seq<Seq<Felt>>,
    r: int,
    addr: Felt,
    op_code: int,
    first: Word,
    second: Word,
) -> bool {
    &&& columns[8][r] == addr
    &&& shows_op(columns, r, op_code)
    &&& shows_words(columns, r, first, second)
    &&& shows_no_block(columns, r)
}

/// The word of four integers.
pub open spec fn word_of(a: int, b: int, c: int, d: int) -> Word {
    Word { e0: felt(a), e1: felt(b), e2: felt(c), e3: felt(d) }
}

/// Whether one row was written, in the next clock cycle, and no other; and nothing of the program
/// that remains has been touched.
pub open spec fn one_row_written(s: GeneratorModel, t: GeneratorModel) -> bool {
    &&& t.rows_built() == s.rows_built() + 1
    &&& t.context.system.clk == s.context.system.clk + 1
    &&& t.fragment_start_clk == s.fragment_start_clk
    &&& t.fragment_size == s.fragment_size
    &&& t.columns.len() == s.columns.len()
    &&& forall|c: int, i: int|
        #![trigger t.columns[c][i]]
        0 <= c < 51 && 0 <= i < s.fragment_size && i != s.rows_built() ==> t.columns[c][i]
            == s.columns[c][i]
    &&& t.context.continuation == s.context.continuation
    &&& t.context.initial_mast_forest == s.context.initial_mast_forest
    &&& t.context.initial_execution_state == s.context.initial_execution_state
}

/// Whether the system registers are the same, but for the clock.
pub open spec fn same_system(a: SystemState, b: SystemState) -> bool {
    &&& a.ctx == b.ctx
    &&& a.fmp == b.fmp
    &&& a.in_syscall == b.in_syscall
    &&& a.fn_hash == b.fn_hash
}

/// Whether a node has started: the next recorded address is that of the node and the next recorded
/// parent that of its parent, and both are used up.
pub open spec fn node_entered(s: GeneratorModel, t: GeneratorModel) -> bool {
    let (before, after) = (s.context.replay, t.context.replay);
    &&& before.hasher.block_addresses.len() > 0
    &&& before.block_stack.node_start.len() > 0
    &&& t.context.decoder.current_addr == before.hasher.block_addresses[0]
    &&& t.context.decoder.parent_addr == before.block_stack.node_start[0]
    &&& after.hasher.block_addresses == before.hasher.block_addresses.drop_first()
    &&& after.block_stack.node_start == before.block_stack.node_start.drop_first()
    &&& after.block_stack.node_end == before.block_stack.node_end
    &&& after.block_stack.execution_contexts == before.block_stack.execution_contexts
    &&& after.hasher.permutations == before.hasher.permutations
    &&& after.hasher.merkle_roots == before.hasher.merkle_roots
    &&& after.hasher.merkle_updates == before.hasher.merkle_updates
    &&& after.advice == before.advice
    &&& after.resolutions == before.resolutions
}

/// Whether all elements below the topmost one moved up, and the last place is taken by the next
/// recorded element of the overflow table, or by zero if the table is empty.
pub open spec fn moved_up(
    before: StackModel,
    recorded: StackOverflowModel,
    top: Seq<Felt>,
    left: StackOverflowModel,
) -> bool {
    &&& forall|i: int| 0 <= i < 15 ==> #[trigger] top[i + 1] == before.top[i]
    &&& left.restore_context_info == recorded.restore_context_info
    &&& if before.depth > 16 {
        &&& recorded.overflow_values.len() > 0
        &&& top[0] == recorded.overflow_values[0].0
        &&& left.overflow_values == recorded.overflow_values.drop_first()
    } else {
        &&& before.depth == 16
        &&& top[0] == felt(0)
        &&& left.overflow_values == recorded.overflow_values
    }
}

/// Whether the topmost element was taken off the stack: the others moved up, and the depth and the
/// overflow address are those without it.
pub open spec fn top_removed(
    before: StackModel,
    recorded: StackOverflowModel,
    after: StackModel,
    left: StackOverflowModel,
) -> bool {
    &&& moved_up(before, recorded, after.top, left)
    &&& if before.depth > 16 {
        &&& after.overflow_addr == recorded.overflow_values[0].1
        &&& after.depth == before.depth - 1
    } else {
        &&& after.overflow_addr == felt(0)
        &&& after.depth == 16
    }
}

proof fn lemma_row_shown(s: GeneratorModel, row: DecoderRow)
    requires
        s.well_formed(),
        row.op_code < 0x80,
        row_added(s, row) !is Panic,
    ensures
        ({
            let t = final_state(row_added(s, row));
            let r = s.rows_built();
            &&& one_row_written(s, t)
            &&& t.context.stack == s.context.stack
            &&& t.context.decoder == s.context.decoder
            &&& t.context.replay == s.context.replay
            &&& t.span_context == s.span_context
            &&& same_system(s.context.system, t.context.system)
            &&& t.columns[8][r] == row.addr
            &&& shows_op(t.columns, r, row.op_code as int)
            &&& shows_words(t.columns, r, row.hasher_state.0, row.hasher_state.1)
            &&& t.columns[24][r] == row.in_span
            &&& t.columns[25][r] == row.group_count
            &&& t.columns[26][r] == row.op_idx
            &&& t.columns[27][r] == row.batch_flags.0
            &&& t.columns[28][r] == row.batch_flags.1
            &&& t.columns[29][r] == row.batch_flags.2
        }),
{
    law_row_added(s, row);
    law_op_bits(row);
    assert({
        let t = final_state(row_added(s, row));
        &&& t.fragment_size == s.fragment_size
        &&& t.span_context == s.span_context
        &&& same_system(s.context.system, t.context.system)
    }) by {
        reveal(row_added);
    }
    let t = final_state(row_added(s, row));
    let r = s.rows_built();
    let cells = decoder_cells(row);
    assert forall|c: int| 8 <= c < 32 implies (#[trigger] t.columns[c])[r] == cells[c - 8] by {
        reveal(row_added);
        assert(cells.len() == 24);
        assert(s.columns[c].len() == s.fragment_size);
    }
    let bit = |i: int| t.columns[9 + i][r]@ as int;
    let shown = |i: int| cells[OP_BITS_OFFSET + i]@ as int;
    assert forall|i: int| 0 <= i < 7 implies #[trigger] bit(i) == shown(i) by {
        let c = 9 + i;
        assert(t.columns[c][r] == cells[c - 8]);
    }
    assert forall|i: int| 0 <= i < 7 implies #[trigger] bit(i) == 0 || bit(i) == 1 by {
        assert(bit(i) == shown(i));
    }
    assert(bit(0) == shown(0) && bit(1) == shown(1) && bit(2) == shown(2) && bit(3) == shown(3));
    assert(bit(4) == shown(4) && bit(5) == shown(5) && bit(6) == shown(6));
    assert forall|c: int, i: int|
        #![trigger t.columns[c][i]]
        0 <= c < 51 && 0 <= i < s.fragment_size && i != s.rows_built() implies t.columns[c][i]
        == s.columns[c][i] by {
        assert(s.columns[c].len() == s.fragment_size);
        assert(s.columns[c][i] == t.columns[c][i]);
    }
}

proof fn lemma_control_shown(s: GeneratorModel, addr: Felt, op_code: u8, first: Word, second: Word)
    requires
        s.well_formed(),
        op_code < 0x80,
        row_added(s, control_row(addr, op_code, first, second)) !is Panic,
    ensures
        ({
            let t = final_state(row_added(s, control_row(addr, op_code, first, second)));
            &&& one_row_written(s, t)
            &&& t.context.stack == s.context.stack
            &&& t.context.decoder == s.context.decoder
            &&& t.context.replay == s.context.replay
            &&& t.span_context == s.span_context
            &&& same_system(s.context.system, t.context.system)
            &&& shows_control(t.columns, s.rows_built(), addr, op_code as int, first, second)
        }),
{
    lemma_row_shown(s, control_row(addr, op_code, first, second));
    lemma_felt_small(0);
    let t = final_state(row_added(s, control_row(addr, op_code, first, second)));
    let r = s.rows_built();
    assert forall|c: int| 24 <= c < 30 implies (#[trigger] t.columns[c])[r]@ == 0 by {
        assert(c == 24 || c == 25 || c == 26 || c == 27 || c == 28 || c == 29);
    }
}

// STARTS OF CONTROL NODES

/// The row that starts a join shows JOIN, the address of the parent of the join, and the digests
/// of its first and of its second child. Neither the stack nor the system changes.
pub proof fn law_join_row(s: GeneratorModel, node: JoinNode, forest: MastForest)
    requires
        s.well_formed(),
        join_started(s, node, forest) !is Panic,
    ensures
        ({
            let t = final_state(join_started(s, node, forest));
            &&& one_row_written(s, t)
            &&& node_entered(s, t)
            &&& shows_control(
                t.columns,
                s.rows_built(),
                s.context.replay.block_stack.node_start[0],
                0x57,
                forest.node(node.first).spec_digest(),
                forest.node(node.second).spec_digest(),
            )
            &&& t.context.stack == s.context.stack
            &&& t.context.replay.stack_overflow == s.context.replay.stack_overflow
            &&& t.context.replay.memory_reads == s.context.replay.memory_reads
            &&& same_system(s.context.system, t.context.system)
        }),
{
    let s0 = node_started(s).unwrap();
    lemma_control_shown(
        s0,
        s0.context.decoder.parent_addr,
        0x57,
        forest.node(node.first).spec_digest(),
        forest.node(node.second).spec_digest(),
    );
}

/// The row that starts a split shows SPLIT, the address of the parent of the split, and the
/// digests of the child for a condition of one and of the other child. The condition is taken off
/// the stack.
pub proof fn law_split_row(s: GeneratorModel, node: SplitNode, forest: MastForest)
    requires
        s.well_formed(),
        split_started(s, node, forest) !is Panic,
    ensures
        ({
            let t = final_state(split_started(s, node, forest));
            &&& one_row_written(s, t)
            &&& node_entered(s, t)
            &&& shows_control(
                t.columns,
                s.rows_built(),
                s.context.replay.block_stack.node_start[0],
                0x54,
                forest.node(node.on_true).spec_digest(),
                forest.node(node.on_false).spec_digest(),
            )
            &&& top_removed(
                s.context.stack,
                s.context.replay.stack_overflow,
                t.context.stack,
                t.context.replay.stack_overflow,
            )
            &&& t.context.replay.memory_reads == s.context.replay.memory_reads
            &&& same_system(s.context.system, t.context.system)
        }),
{
    let s0 = node_started(s).unwrap();
    let s1 = decremented(s0).unwrap();
    assert(s1.well_formed());
    lemma_control_shown(
        s1,
        s1.context.decoder.parent_addr,
        0x54,
        forest.node(node.on_true).spec_digest(),
        forest.node(node.on_false).spec_digest(),
    );
}

/// The row that starts a loop shows LOOP, the address of the parent of the loop, and the digest of
/// its body. The condition is taken off the stack.
pub proof fn law_loop_row(s: GeneratorModel, node: LoopNode, forest: MastForest)
    requires
        s.well_formed(),
        loop_started(s, node, forest) !is Panic,
    ensures
        ({
            let t = final_state(loop_started(s, node, forest));
            &&& one_row_written(s, t)
            &&& node_entered(s, t)
            &&& shows_control(
                t.columns,
                s.rows_built(),
                s.context.replay.block_stack.node_start[0],
                0x55,
                forest.node(node.body).spec_digest(),
                word_of(0, 0, 0, 0),
            )
            &&& top_removed(
                s.context.stack,
                s.context.replay.stack_overflow,
                t.context.stack,
                t.context.replay.stack_overflow,
            )
            &&& t.context.replay.memory_reads == s.context.replay.memory_reads
            &&& same_system(s.context.system, t.context.system)
        }),
{
    let s0 = node_started(s).unwrap();
    let s1 = decremented(s0).unwrap();
    assert(s1.well_formed());
    lemma_control_shown(
        s1,
        s1.context.decoder.parent_addr,
        0x55,
        forest.node(node.body).spec_digest(),
        word_of(0, 0, 0, 0),
    );
}

/// The row that repeats a loop shows REPEAT, the address at which the decoder is, the digest of
/// the body, and that the body is that of a loop. The decoder stays at that address, and nothing
/// else changes.
pub proof fn law_repeat_row(s: GeneratorModel, node: LoopNode, forest: MastForest)
    requires
        s.well_formed(),
        repeat_row(s, node, forest) !is Panic,
    ensures
        ({
            let t = final_state(repeat_row(s, node, forest));
            &&& one_row_written(s, t)
            &&& shows_control(
                t.columns,
                s.rows_built(),
                s.context.decoder.current_addr,
                0x74,
                forest.node(node.body).spec_digest(),
                word_of(1, 0, 0, 0),
            )
            &&& t.context.stack == s.context.stack
            &&& t.context.decoder == s.context.decoder
            &&& t.context.replay == s.context.replay
            &&& same_system(s.context.system, t.context.system)
        }),
{
    lemma_control_shown(
        s,
        s.context.decoder.current_addr,
        0x74,
        forest.node(node.body).spec_digest(),
        word_of(1, 0, 0, 0),
    );
}

/// The row that starts a call shows CALL, or SYSCALL for a syscall, the address of the parent of
/// the call, and the digest of the callee. The stack shows nothing in its overflow table from then
/// on; its topmost elements stay.
pub proof fn law_call_row(s: GeneratorModel, node: CallNode, forest: MastForest)
    requires
        s.well_formed(),
        call_started(s, node, forest) !is Panic,
    ensures
        ({
            let t = final_state(call_started(s, node, forest));
            &&& one_row_written(s, t)
            &&& node_entered(s, t)
            &&& shows_control(
                t.columns,
                s.rows_built(),
                s.context.replay.block_stack.node_start[0],
                if node.is_syscall {
                    0x68
                } else {
                    0x6c
                },
                forest.node(node.callee).spec_digest(),
                word_of(0, 0, 0, 0),
            )
            &&& t.context.stack.top == s.context.stack.top
            &&& t.context.stack.depth == 16
            &&& t.context.stack.overflow_addr == felt(0)
            &&& t.context.replay.stack_overflow == s.context.replay.stack_overflow
            &&& t.context.replay.memory_reads == s.context.replay.memory_reads
        }),
{
    let s0 = node_started(s).unwrap();
    let callee = forest.node(node.callee).spec_digest();
    let s1 = call_context_started(s0, node, callee);
    lemma_control_shown(
        s1,
        s1.context.decoder.parent_addr,
        if node.is_syscall {
            0x68
        } else {
            0x6c
        },
        callee,
        word_of(0, 0, 0, 0),
    );
}

/// The row that starts a dynamic node shows DYN, or DYNCALL for a dynamic call, the address of the
/// parent of the node, and the word that was read from memory at the address on top of the stack.
/// A dynamic call shows moreover the depth of the stack and the overflow address that it leaves,
/// once the address of the callee is off the stack.
pub proof fn law_dyn_row(s: GeneratorModel, node: DynNode)
    requires
        s.well_formed(),
        dyn_started(s, node) !is Panic,
    ensures
        ({
            let t = final_state(dyn_started(s, node));
            let reads = s.context.replay.memory_reads;
            let (before, recorded) = (s.context.stack, s.context.replay.stack_overflow);
            let left_depth = if before.depth > 16 {
                before.depth - 1
            } else {
                16
            };
            let left_addr = if before.depth > 16 {
                recorded.overflow_values[0].1
            } else {
                felt(0)
            };
            &&& one_row_written(s, t)
            &&& node_entered(s, t)
            &&& reads.words.len() > 0
            &&& reads.words[0].1 == s.context.stack.top[15]
            &&& t.context.replay.memory_reads.words == reads.words.drop_first()
            &&& t.context.replay.memory_reads.elements == reads.elements
            &&& !node.is_dyncall ==> {
                &&& shows_control(
                    t.columns,
                    s.rows_built(),
                    s.context.replay.block_stack.node_start[0],
                    0x58,
                    reads.words[0].0,
                    word_of(0, 0, 0, 0),
                )
                &&& top_removed(
                    before,
                    recorded,
                    t.context.stack,
                    t.context.replay.stack_overflow,
                )
                &&& same_system(s.context.system, t.context.system)
            }
            &&& node.is_dyncall ==> {
                &&& shows_control(
                    t.columns,
                    s.rows_built(),
                    s.context.replay.block_stack.node_start[0],
                    0x5c,
                    reads.words[0].0,
                    Word {
                        e0: felt(left_depth % 0x1_0000_0000),
                        e1: left_addr,
                        e2: felt(0),
                        e3: felt(0),
                    },
                )
                &&& moved_up(
                    before,
                    recorded,
                    t.context.stack.top,
                    t.context.replay.stack_overflow,
                )
                &&& t.context.stack.depth == 16
                &&& t.context.stack.overflow_addr == felt(0)
            }
        }),
{
    let s0 = node_started(s).unwrap();
    let (callee, s1) = callee_read(s0).unwrap();
    let s2 = decremented(s1).unwrap();
    assert(s2.well_formed());
    assert(top_removed(
        s.context.stack,
        s.context.replay.stack_overflow,
        s2.context.stack,
        s2.context.replay.stack_overflow,
    ));
    if node.is_dyncall {
        let s3 = dyncall_context_started(s2, callee);
        let info = left_context(s2);
        lemma_control_shown(
            s3,
            s3.context.decoder.parent_addr,
            0x5c,
            callee,
            Word {
                e0: felt(info.parent_stack_depth as int),
                e1: info.parent_next_overflow_addr,
                e2: felt(0),
                e3: felt(0),
            },
        );
    } else {
        lemma_control_shown(
            s2,
            s2.context.decoder.parent_addr,
            0x58,
            callee,
            word_of(0, 0, 0, 0),
        );
    }
}

// ENDS

/// The row that ends a node shows END, the recorded address of the node that ends, its digest, and
/// the recorded flags: whether it is the body of a loop, a loop that was entered, a call, and a
/// syscall. The decoder returns to the recorded address and parent.
pub proof fn law_end_row(s: GeneratorModel, digest: Word)
    requires
        s.well_formed(),
        end_added(s, digest) !is Panic,
    ensures
        ({
            let t = final_state(end_added(s, digest));
            let ends = s.context.replay.block_stack.node_end;
            let flag = |b: bool|
                if b {
                    1int
                } else {
                    0int
                };
            &&& one_row_written(s, t)
            &&& ends.len() > 0
            &&& shows_control(
                t.columns,
                s.rows_built(),
                ends[0].ended_node_addr,
                0x70,
                digest,
                word_of(
                    flag(ends[0].flags@.is_loop_body),
                    flag(ends[0].flags@.loop_entered),
                    flag(ends[0].flags@.is_call),
                    flag(ends[0].flags@.is_syscall),
                ),
            )
            &&& t.context.decoder.current_addr == ends[0].prev_addr
            &&& t.context.decoder.parent_addr == ends[0].prev_parent_addr
            &&& t.context.replay.block_stack.node_end == ends.drop_first()
            &&& t.context.replay == (ReplayModel {
                block_stack: t.context.replay.block_stack,
                ..s.context.replay
            })
            &&& t.context.replay.block_stack.node_start == s.context.replay.block_stack.node_start
            &&& t.context.replay.block_stack.execution_contexts
                == s.context.replay.block_stack.execution_contexts
            &&& t.context.stack == s.context.stack
            &&& same_system(s.context.system, t.context.system)
        }),
{
    let (addr, flags, s1) = node_ended(s).unwrap();
    lemma_control_shown(s1, addr, 0x70, digest, flags.word());
}

/// The row that ends a basic block is that of any other node, and no operation of a block is
/// decoded after it.
pub proof fn law_block_end_row(s: GeneratorModel, digest: Word)
    requires
        s.well_formed(),
        span_end_added(s, digest) !is Panic,
    ensures
        end_added(s, digest) !is Panic,
        final_state(span_end_added(s, digest)).columns == final_state(
            end_added(s, digest),
        ).columns,
        final_state(span_end_added(s, digest)).context == final_state(
            end_added(s, digest),
        ).context,
        span_end_added(s, digest) matches Flow::Continue(t) ==> t.span_context is None,
{
}

/// The row that repeats a loop and the row that ends it show the same address: the one at which
/// the loop is on the block stack. That address is the one that the hasher gave to the loop when
/// the loop began, and also the one that the parent address of its body is.
pub proof fn law_repeat_shows_the_address_of_the_loop(
    m: TracerModel,
    s: GeneratorModel,
    node: LoopNode,
    forest: MastForest,
    later: BlockRecords,
)
    requires
        s.well_formed(),
        m.block_stack.len() > 0,
        decoder_in_step(m, s),
        block_records_left(s) == block_record(m, BlockEvent::End).followed_by(later),
        repeat_row(s, node, forest) !is Panic,
        end_added(s, node.digest) !is Panic,
    ensures
        ({
            let r = s.rows_built();
            let repeated = final_state(repeat_row(s, node, forest));
            let ended = final_state(end_added(s, node.digest));
            &&& repeated.columns[8][r] == ended.columns[8][r]
            &&& repeated.columns[8][r] == m.block_stack.last().addr
            &&& shows_op(repeated.columns, r, 0x74)
            &&& shows_op(ended.columns, r, 0x70)
        }),
{
    law_repeat_row(s, node, forest);
    law_end_row(s, node.digest);
    assert(block_records_left(s).ends[0] == block_record(m, BlockEvent::End).ends[0]);
}

/// A node that begins is found on the block stack at the address that the hasher gives to it, under
/// the node that was there before; the generator that replays the recording is at the same
/// addresses when the node starts, and its parent is shown.
pub proof fn law_node_begins_at_its_address(
    m: TracerModel,
    s: GeneratorModel,
    event: BlockEvent,
    later: BlockRecords,
)
    requires
        event is Begin,
        block_records_left(s) == block_record(m, event).followed_by(later),
    ensures
        ({
            let after = block_traced(m, event);
            let parent = if m.block_stack.len() > 0 {
                m.block_stack.last().addr
            } else {
                felt(0)
            };
            &&& after.block_stack.len() == m.block_stack.len() + 1
            &&& after.block_stack.drop_last() == m.block_stack
            &&& after.block_stack.last().addr == felt(m.hasher.addr as int)
            &&& after.block_stack.last().parent_addr == parent
            &&& after.block_stack.last().loop_body <==> (m.block_stack.len() > 0
                && m.block_stack.last().block_type is Loop)
            &&& node_started(s) matches Some(t) && t.context.decoder.current_addr
                == after.block_stack.last().addr && t.context.decoder.parent_addr == parent
        }),
{
    let after = block_traced(m, event);
    assert(after.block_stack.drop_last() =~= m.block_stack);
    assert(block_records_left(s).addresses[0] == felt(m.hasher.addr as int));
    assert(block_records_left(s).parents[0] == block_record(m, event).parents[0]);
}

// BASIC BLOCKS

/// The flags of a batch tell how many groups it has: 8, 4, 2 or 1.
pub open spec fn shows_groups(columns: Seq<Seq<Felt>>, r: int, groups: int) -> bool {
    let flags = (columns[27][r]@ as int, columns[28][r]@ as int, columns[29][r]@ as int);
    ||| groups >= 8 && flags == (1int, 0int, 0int)
    ||| groups == 4 && flags == (0int, 1int, 0int)
    ||| groups == 2 && flags == (0int, 0int, 1int)
    ||| groups == 1 && flags == (0int, 1int, 1int)
}

/// Whether the hasher registers of a row show the groups of a batch.
pub open spec fn shows_batch(columns: Seq<Seq<Felt>>, r: int, batch: OpBatchModel) -> bool {
    forall|g: int| 0 <= g < 8 ==> #[trigger] columns[16 + g][r] == batch.groups[g]
}

/// The row that starts a basic block shows SPAN, the address of the parent of the block, the
/// groups of its first batch, the number of its groups and the flags for that number.
pub proof fn law_span_row(s: GeneratorModel, batch: OpBatchModel, group_count: Felt)
    requires
        s.well_formed(),
        span_row(s, batch, group_count) !is Panic,
    ensures
        ({
            let t = final_state(span_row(s, batch, group_count));
            let r = s.rows_built();
            &&& one_row_written(s, t)
            &&& t.columns[8][r] == s.context.decoder.parent_addr
            &&& shows_op(t.columns, r, 0x56)
            &&& shows_batch(t.columns, r, batch)
            &&& t.columns[24][r]@ == 0
            &&& t.columns[25][r] == group_count
            &&& t.columns[26][r]@ == 0
            &&& shows_groups(t.columns, r, group_count@ as int)
            &&& t.context.stack == s.context.stack
            &&& t.context.decoder == s.context.decoder
            &&& t.context.replay == s.context.replay
            &&& same_system(s.context.system, t.context.system)
        }),
{
    lemma_batch_shown(s, s.context.decoder.parent_addr, 0x56, batch, group_count);
}

proof fn lemma_batch_shown(
    s: GeneratorModel,
    addr: Felt,
    op_code: u8,
    batch: OpBatchModel,
    group_count: Felt,
)
    requires
        s.well_formed(),
        op_code < 0x80,
        batch_row(s, addr, op_code, batch, group_count) !is Panic,
    ensures
        ({
            let t = final_state(
                batch_row(s, addr, op_code, batch, group_count),
            );
            let r = s.rows_built();
            &&& one_row_written(s, t)
            &&& t.columns[8][r] == addr
            &&& shows_op(t.columns, r, op_code as int)
            &&& shows_batch(t.columns, r, batch)
            &&& t.columns[24][r]@ == 0
            &&& t.columns[25][r] == group_count
            &&& t.columns[26][r]@ == 0
            &&& shows_groups(t.columns, r, group_count@ as int)
            &&& t.context.stack == s.context.stack
            &&& t.context.decoder == s.context.decoder
            &&& t.context.replay == s.context.replay
            &&& t.span_context == s.span_context
            &&& same_system(s.context.system, t.context.system)
        }),
{
    let flags = batch_flags(group_count@ as int).unwrap();
    let row = DecoderRow {
        group_count,
        batch_flags: flags,
        ..control_row(
            addr,
            op_code,
            first_groups(batch),
            last_groups(batch),
        )
    };
    lemma_row_shown(s, row);
    lemma_felt_small(0);
    lemma_felt_small(1);
    let t = final_state(row_added(s, row));
    let r = s.rows_built();
    assert forall|g: int| 0 <= g < 8 implies #[trigger] t.columns[16 + g][r]
        == batch.groups[g] by {
        assert(g == 0 || g == 1 || g == 2 || g == 3 || g == 4 || g == 5 || g == 6 || g == 7);
    }
}

/// The row that starts a further batch of a basic block shows RESPAN, the address of the block,
/// the groups of the batch, the number of groups that are left and the flags for that number. The
/// block is found eight addresses further on, and one group is used up.
pub proof fn law_respan_row(s: GeneratorModel, batch: OpBatchModel)
    requires
        s.well_formed(),
        respanned(s, batch) !is Panic,
    ensures
        s.span_context matches Some(span) && {
            let t = final_state(respanned(s, batch));
            let r = s.rows_built();
            &&& one_row_written(s, t)
            &&& t.columns[8][r] == s.context.decoder.current_addr
            &&& shows_op(t.columns, r, 0x78)
            &&& shows_batch(t.columns, r, batch)
            &&& t.columns[24][r]@ == 0
            &&& t.columns[25][r] == span.num_groups_left
            &&& t.columns[26][r]@ == 0
            &&& shows_groups(t.columns, r, span.num_groups_left@ as int)
            &&& t.context.stack == s.context.stack
            &&& t.context.replay == s.context.replay
            &&& same_system(s.context.system, t.context.system)
            &&& respanned(s, batch) is Continue ==> {
                &&& t.context.decoder.current_addr == felt(s.context.decoder.current_addr@ + 8)
                &&& t.context.decoder.parent_addr == s.context.decoder.parent_addr
                &&& t.span_context == Some(
                    BasicBlockContext {
                        group_ops_left: batch.groups[0],
                        num_groups_left: felt(span.num_groups_left@ - 1),
                    },
                )
            }
        },
{
    let span = s.span_context.unwrap();
    lemma_batch_shown(s, s.context.decoder.current_addr, 0x78, batch, span.num_groups_left);
}

/// The row of an operation shows its code, the address of its block, what is left of the group
/// once the operation is shifted out, the address of the parent of the block, the helper registers,
/// the number of groups left before the operation and the place of the operation in its group. An
/// immediate value uses up one more group.
pub proof fn law_operation_row(
    s: GeneratorModel,
    op: Operation,
    op_idx_in_group: int,
    helpers: Option<Seq<Felt>>,
)
    requires
        s.well_formed(),
        op.op_code < 0x80,
        0 <= op_idx_in_group < 9,
        operation_row(s, op, op_idx_in_group, helpers) !is Panic,
    ensures
        s.span_context matches Some(span) && {
            let t = final_state(operation_row(s, op, op_idx_in_group, helpers));
            let r = s.rows_built();
            &&& one_row_written(s, t)
            &&& t.columns[8][r] == s.context.decoder.current_addr
            &&& shows_op(t.columns, r, op.op_code as int)
            &&& t.columns[16][r]@ == span.group_ops_left@ as int / 128
            &&& t.columns[17][r] == s.context.decoder.parent_addr
            &&& forall|i: int|
                0 <= i < 6 ==> #[trigger] t.columns[18 + i][r] == match helpers {
                    Some(h) => h[i],
                    None => felt(0),
                }
            &&& t.columns[24][r]@ == 1
            &&& t.columns[25][r] == span.num_groups_left
            &&& t.columns[26][r]@ == op_idx_in_group
            &&& t.columns[27][r]@ == 0
            &&& t.columns[28][r]@ == 0
            &&& t.columns[29][r]@ == 0
            &&& t.span_context matches Some(after) && {
                &&& after.group_ops_left == t.columns[16][r]
                &&& after.num_groups_left == if op.imm_value is Some {
                    felt(span.num_groups_left@ - 1)
                } else {
                    span.num_groups_left
                }
            }
            &&& t.context.stack == s.context.stack
            &&& t.context.decoder == s.context.decoder
            &&& t.context.replay == s.context.replay
            &&& same_system(s.context.system, t.context.system)
        },
{
    let span = s.span_context.unwrap();
    let left = felt(span.group_ops_left@ as int / 0x80);
    let h = match helpers {
        Some(h) => h,
        None => Seq::new(6, |i: int| felt(0)),
    };
    let num_groups_left = if op.imm_value is Some {
        felt(span.num_groups_left@ - 1)
    } else {
        span.num_groups_left
    };
    let s1 = s.with_span(Some(BasicBlockContext { group_ops_left: left, num_groups_left }));
    let row = DecoderRow {
        addr: s.context.decoder.current_addr,
        op_code: op.op_code,
        hasher_state: (
            Word { e0: left, e1: s.context.decoder.parent_addr, e2: h[0], e3: h[1] },
            Word { e0: h[2], e1: h[3], e2: h[4], e3: h[5] },
        ),
        in_span: felt(1),
        group_count: span.num_groups_left,
        op_idx: felt(op_idx_in_group),
        batch_flags: (felt(0), felt(0), felt(0)),
    };
    lemma_row_shown(s1, row);
    lemma_felt_small(0);
    lemma_felt_small(1);
    lemma_felt_small(op_idx_in_group);
    lemma_felt_small(span.group_ops_left@ as int / 0x80);
    let t = final_state(row_added(s1, row));
    let r = s.rows_built();
    assert forall|i: int| 0 <= i < 6 implies #[trigger] t.columns[18 + i][r] == match helpers {
        Some(h) => h[i],
        None => felt(0),
    } by {
        assert(i == 0 || i == 1 || i == 2 || i == 3 || i == 4 || i == 5);
    }
}

} // verus!
