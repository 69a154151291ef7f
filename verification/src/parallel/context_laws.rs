//! In which context the rows of a program run.
//!
//! The system columns are read off the rows: the clock in column 0, the free memory pointer in
//! column 1, the context in column 2, whether a syscall runs in column 3, and the digest of the
//! procedure that began the context in columns 4 to 7. What an operation does to them shows in the
//! row after it.

use crate::block_stack::BasicBlockContext;
use crate::execution_tracer::control_block;
use crate::execution_tracer::start_recorded;
use crate::execution_tracer::TracerModel;
use crate::fast_processor::FastProcessor;
use crate::felt::felt;
use crate::felt::lemma_felt_small;
use crate::felt::Felt;
use crate::felt::MODULUS;
use crate::layout::OPCODE_CALL;
use crate::layout::OPCODE_DYN;
use crate::layout::OPCODE_DYNCALL;
use crate::layout::OPCODE_END;
use crate::layout::OPCODE_RESPAN;
use crate::layout::OPCODE_SPAN;
use crate::layout::OPCODE_SYSCALL;
use crate::mast::BasicBlockNode;
use crate::mast::CallNode;
use crate::mast::DynNode;
use crate::mast::MastForest;
use crate::mast::MastNode;
use crate::mast::MastNodeId;
use crate::mast::OpBatch;
use crate::mast::OpBatchModel;
use crate::parallel::decoder_laws::law_call_row;
use crate::parallel::decoder_laws::law_dyn_row;
use crate::parallel::decoder_laws::law_end_row;
use crate::parallel::execution::batches_executed;
use crate::parallel::execution::block_executed;
use crate::parallel::execution::call_started;
use crate::parallel::execution::dyn_started;
use crate::parallel::execution::group_advanced;
use crate::parallel::execution::node_executed;
use crate::parallel::execution::op_executed;
use crate::parallel::execution::ops_executed;
use crate::parallel::execution::OpOutcome;
use crate::parallel::execution::SyncOps;
use crate::parallel::model::batch_flags;
use crate::parallel::model::batch_row;
use crate::parallel::model::call_context_started;
use crate::parallel::model::callee_read;
use crate::parallel::model::context_ended;
use crate::parallel::model::context_restored;
use crate::parallel::model::control_row;
use crate::parallel::model::decremented;
use crate::parallel::model::dyncall_context_started;
use crate::parallel::model::first_groups;
use crate::parallel::model::last_groups;
use crate::parallel::model::left_context;
use crate::parallel::model::lemma_row_fits;
use crate::parallel::model::node_ended;
use crate::parallel::model::node_started;
use crate::parallel::model::operation_row;
use crate::parallel::model::respanned;
use crate::parallel::model::row_added;
use crate::parallel::model::span_end_added;
use crate::parallel::model::span_row;
use crate::parallel::model::DecoderRow;
use crate::parallel::model::Flow;
use crate::parallel::model::GeneratorModel;
use crate::parallel::resume::final_state;
use crate::parallel::row_laws::law_row_added;
use crate::word::empty_word;
use crate::word::Word;
use vstd::prelude::*;

verus! {

/// Whether a row shows a context, whether a syscall runs in it, and the digest of the procedure
/// that began it.
pub open spec fn shows_context(
    columns: Seq<Seq<Felt>>,
    r: int,
    ctx: int,
    in_syscall: bool,
    fn_hash: Word,
) -> bool {
    &&& columns[2][r]@ == ctx
    &&& columns[3][r]@ == if in_syscall {
        1int
    } else {
        0int
    }
    &&& columns[4][r] == fn_hash.e0
    &&& columns[5][r] == fn_hash.e1
    &&& columns[6][r] == fn_hash.e2
    &&& columns[7][r] == fn_hash.e3
}

/// Whether the processor is in a context, and the next row, whatever it is, shows it.
pub open spec fn runs_in(s: GeneratorModel, ctx: int, in_syscall: bool, fn_hash: Word) -> bool {
    &&& s.context.system.ctx.id == ctx
    &&& s.context.system.in_syscall == in_syscall
    &&& s.context.system.fn_hash == fn_hash
    &&& forall|row: DecoderRow|
        (#[trigger] row_added(s, row)) !is Panic ==> shows_context(
            final_state(row_added(s, row)).columns,
            s.rows_built(),
            ctx,
            in_syscall,
            fn_hash,
        )
}

/// Whether the processor is in a context, and has it ready for the next row.
spec fn holds(s: GeneratorModel, ctx: int, in_syscall: bool, fn_hash: Word) -> bool {
    &&& s.context.system.ctx.id == ctx
    &&& s.context.system.in_syscall == in_syscall
    &&& s.context.system.fn_hash == fn_hash
    &&& s.system_rows matches Some(cells) && {
        &&& cells[2]@ == ctx
        &&& cells[3]@ == if in_syscall {
            1int
        } else {
            0int
        }
        &&& cells[4] == fn_hash.e0
        &&& cells[5] == fn_hash.e1
        &&& cells[6] == fn_hash.e2
        &&& cells[7] == fn_hash.e3
    }
}

proof fn lemma_system_shown(s: GeneratorModel, row: DecoderRow)
    requires
        s.well_formed(),
        s.system_rows is Some,
        row_added(s, row) !is Panic,
    ensures
        ({
            let columns = final_state(row_added(s, row)).columns;
            let (cells, r) = (s.system_rows.unwrap(), s.rows_built());
            &&& columns[0][r] == cells[0]
            &&& columns[1][r] == cells[1]
            &&& columns[2][r] == cells[2]
            &&& columns[3][r] == cells[3]
            &&& columns[4][r] == cells[4]
            &&& columns[5][r] == cells[5]
            &&& columns[6][r] == cells[6]
            &&& columns[7][r] == cells[7]
        }),
{
    reveal(row_added);
    assert(forall|c: int|
        0 <= c < 8 ==> (#[trigger] s.columns[c]).len() == s.fragment_size);
    assert(s.columns[0].len() == s.fragment_size && s.columns[1].len() == s.fragment_size);
    assert(s.columns[2].len() == s.fragment_size && s.columns[3].len() == s.fragment_size);
    assert(s.columns[4].len() == s.fragment_size && s.columns[5].len() == s.fragment_size);
    assert(s.columns[6].len() == s.fragment_size && s.columns[7].len() == s.fragment_size);
}

proof fn lemma_holds(s: GeneratorModel, ctx: int, in_syscall: bool, fn_hash: Word)
    requires
        s.well_formed(),
        holds(s, ctx, in_syscall, fn_hash),
    ensures
        runs_in(s, ctx, in_syscall, fn_hash),
{
    assert forall|next: DecoderRow| (#[trigger] row_added(s, next)) !is Panic implies shows_context(
        final_state(row_added(s, next)).columns,
        s.rows_built(),
        ctx,
        in_syscall,
        fn_hash,
    ) by {
        lemma_system_shown(s, next);
    }
}

/// Whether the next row, whatever it is, shows a clock cycle and a free memory pointer.
pub open spec fn next_shows(s: GeneratorModel, clk: int, fmp: int) -> bool {
    forall|row: DecoderRow|
        (#[trigger] row_added(s, row)) !is Panic ==> {
            &&& final_state(row_added(s, row)).columns[0][s.rows_built()]@ == clk
            &&& final_state(row_added(s, row)).columns[1][s.rows_built()]@ == fmp
        }
}

/// A row that is added shows the system registers that the row before has left, and leaves its
/// own to the next.
proof fn lemma_next_shows(s: GeneratorModel, row: DecoderRow)
    requires
        s.well_formed(),
        row_added(s, row) !is Panic,
    ensures
        ({
            let t = final_state(row_added(s, row));
            let system = s.context.system;
            &&& t.well_formed()
            &&& holds(t, system.ctx.id as int, system.in_syscall, system.fn_hash)
            &&& runs_in(t, system.ctx.id as int, system.in_syscall, system.fn_hash)
            &&& system.fmp@ < MODULUS ==> next_shows(
                t,
                system.clk + 1,
                system.fmp@ as int,
            )
            &&& t.context.system.fmp == system.fmp
        }),
{
    reveal(row_added);
    let t = final_state(row_added(s, row));
    let system = s.context.system;
    lemma_felt_small(system.ctx.id as int);
    lemma_felt_small(system.clk + 1);
    lemma_felt_small(0);
    lemma_felt_small(1);
    lemma_holds(t, system.ctx.id as int, system.in_syscall, system.fn_hash);
    assert forall|next: DecoderRow| (#[trigger] row_added(t, next)) !is Panic implies {
        let u = final_state(row_added(t, next));
        let r = t.rows_built();
        &&& u.columns[0][r]@ == system.clk + 1
        &&& u.columns[1][r] == system.fmp
    } by {
        lemma_system_shown(t, next);
    }
}

// CALLS

/// A syscall runs its callee in the root context, with the free memory pointer of syscalls, with
/// the flag that says so, and under the digest of the procedure that called. A call runs its
/// callee in a new context, which is numbered by the clock cycle after the call, with the initial
/// free memory pointer and under the digest of the callee; whether a syscall runs does not change.
pub proof fn law_call_starts_context(s: GeneratorModel, node: CallNode, forest: MastForest)
    requires
        s.well_formed(),
        call_started(s, node, forest) !is Panic,
    ensures
        ({
            let t = final_state(call_started(s, node, forest));
            let clk = s.context.system.clk;
            &&& node.is_syscall ==> {
                &&& runs_in(t, 0, true, s.context.system.fn_hash)
                &&& next_shows(t, clk + 1, 0xc000_0000)
            }
            &&& !node.is_syscall ==> {
                &&& runs_in(
                    t,
                    clk + 1,
                    s.context.system.in_syscall,
                    forest.node(node.callee).spec_digest(),
                )
                &&& next_shows(t, clk + 1, 0x4000_0000)
            }
        }),
{
    let s0 = node_started(s).unwrap();
    let callee = forest.node(node.callee).spec_digest();
    let s1 = call_context_started(s0, node, callee);
    lemma_felt_small(0xc000_0000);
    lemma_felt_small(0x4000_0000);
    law_call_row(s, node, forest);
    let row = control_row(
        s1.context.decoder.parent_addr,
        if node.is_syscall {
            OPCODE_SYSCALL
        } else {
            OPCODE_CALL
        },
        callee,
        empty_word(),
    );
    lemma_next_shows(s1, row);
}

/// A dynamic call runs its callee in a new context, which is numbered by the clock cycle after the
/// call, with the initial free memory pointer, and under the digest that was read from memory at
/// the address on top of the stack: the same word that its own row shows in the first four hasher
/// registers. A dynamic node that is no call stays in its context.
pub proof fn law_dyncall_starts_context(s: GeneratorModel, node: DynNode)
    requires
        s.well_formed(),
        dyn_started(s, node) !is Panic,
    ensures
        ({
            let t = final_state(dyn_started(s, node));
            let reads = s.context.replay.memory_reads;
            let system = s.context.system;
            let r = s.rows_built();
            let shown = Word {
                e0: t.columns[16][r],
                e1: t.columns[17][r],
                e2: t.columns[18][r],
                e3: t.columns[19][r],
            };
            &&& reads.words[0].1 == s.item(0)
            &&& shown == reads.words[0].0
            &&& node.is_dyncall ==> {
                &&& runs_in(t, system.clk + 1, system.in_syscall, shown)
                &&& next_shows(t, system.clk + 1, 0x4000_0000)
            }
            &&& !node.is_dyncall ==> runs_in(
                t,
                system.ctx.id as int,
                system.in_syscall,
                system.fn_hash,
            )
        }),
{
    let s0 = node_started(s).unwrap();
    let (callee, s1) = callee_read(s0).unwrap();
    let s2 = decremented(s1).unwrap();
    assert(s2.well_formed());
    lemma_felt_small(0x4000_0000);
    law_dyn_row(s, node);
    if node.is_dyncall {
        let s3 = dyncall_context_started(s2, callee);
        let info = left_context(s2);
        let row = control_row(
            s3.context.decoder.parent_addr,
            OPCODE_DYNCALL,
            callee,
            Word {
                e0: felt(info.parent_stack_depth as int),
                e1: info.parent_next_overflow_addr,
                ..empty_word()
            },
        );
        lemma_next_shows(s3, row);
    } else {
        let row = control_row(
            s2.context.decoder.parent_addr,
            OPCODE_DYN,
            callee,
            empty_word(),
        );
        lemma_next_shows(s2, row);
    }
}

// RETURNS

/// The end of a call returns to the recorded context: its number, its free memory pointer, its
/// digest, its stack depth and its overflow address. No syscall runs after it. The topmost
/// elements of the stack stay, and one recorded context is used up.
pub proof fn law_call_returns_to_context(s: GeneratorModel, digest: Word)
    requires
        s.well_formed(),
        context_ended(s, digest) !is Panic,
    ensures
        ({
            let t = final_state(context_ended(s, digest));
            let contexts = s.context.replay.block_stack.execution_contexts;
            let stacks = s.context.replay.stack_overflow.restore_context_info;
            &&& contexts.len() > 0
            &&& stacks.len() > 0
            &&& runs_in(t, contexts[0].parent_ctx.id as int, false, contexts[0].parent_fn_hash)
            &&& t.context.system.fmp == contexts[0].parent_fmp
            &&& contexts[0].parent_fmp@ < MODULUS ==> next_shows(
                t,
                s.context.system.clk + 1,
                contexts[0].parent_fmp@ as int,
            )
            &&& t.context.stack.depth == stacks[0].0
            &&& t.context.stack.overflow_addr == stacks[0].1
            &&& t.context.stack.top == s.context.stack.top
            &&& t.context.replay.block_stack.execution_contexts == contexts.drop_first()
            &&& t.context.replay.stack_overflow.restore_context_info == stacks.drop_first()
            &&& t.context.replay.stack_overflow.overflow_values
                == s.context.replay.stack_overflow.overflow_values
        }),
{
    let s1 = context_restored(s).unwrap();
    assert(s1.well_formed());
    law_end_row(s1, digest);
    let (addr, flags, s2) = node_ended(s1).unwrap();
    let row = control_row(
        addr,
        OPCODE_END,
        digest,
        flags.word(),
    );
    lemma_next_shows(s2, row);
}

/// A call that a tracer records leaves the context in which the processor is; when the call ends,
/// that very context is recorded to be returned to: its number, its free memory pointer and the
/// digest of the procedure that began it. Nodes that begin no context record none.
pub proof fn law_left_context_is_recorded(
    m: TracerModel,
    node: MastNode,
    processor: FastProcessor,
    forest: MastForest,
    later: TracerModel,
)
    requires
        node is Call || (node matches MastNode::Dyn(n) && n.is_dyncall),
        control_block(m, node, processor, forest) is Some,
        later.block_stack.len() > 0,
        later.block_stack.last() == start_recorded(m, node, processor, forest).block_stack.last(),
    ensures
        ({
            let before = later.replay.block_stack.execution_contexts;
            let after = later.block_ended().replay.block_stack.execution_contexts;
            &&& after.len() == before.len() + 1
            &&& after.drop_last() == before
            &&& after.last().parent_ctx == processor.ctx
            &&& after.last().parent_fmp == processor.fmp
            &&& after.last().parent_fn_hash == processor.caller_hash
        }),
{
    let before = later.replay.block_stack.execution_contexts;
    let after = later.block_ended().replay.block_stack.execution_contexts;
    assert(after.drop_last() =~= before);
}

/// A context that ends is the one to return to, as it was left: replaying what was recorded at the
/// end of a call, the processor is in the context in which the call was made.
pub proof fn law_context_comes_back(
    m: TracerModel,
    node: MastNode,
    processor: FastProcessor,
    forest: MastForest,
    later: TracerModel,
    s: GeneratorModel,
    digest: Word,
)
    requires
        s.well_formed(),
        context_ended(s, digest) !is Panic,
        node is Call || (node matches MastNode::Dyn(n) && n.is_dyncall),
        control_block(m, node, processor, forest) is Some,
        later.block_stack.len() > 0,
        later.block_stack.last() == start_recorded(m, node, processor, forest).block_stack.last(),
        s.context.replay.block_stack.execution_contexts.len() > 0,
        s.context.replay.block_stack.execution_contexts[0]
            == later.block_ended().replay.block_stack.execution_contexts.last(),
    ensures
        runs_in(
            final_state(context_ended(s, digest)),
            processor.ctx.id as int,
            false,
            processor.caller_hash,
        ),
        final_state(context_ended(s, digest)).context.system.fmp == processor.fmp,
{
    law_left_context_is_recorded(m, node, processor, forest, later);
    law_call_returns_to_context(s, digest);
}

// BASIC BLOCKS

/// Whether all rows between two states show a context, the rows before are untouched, and the
/// context goes on.
pub closed spec fn stays_in(
    s: GeneratorModel,
    t: GeneratorModel,
    ctx: int,
    in_syscall: bool,
    fn_hash: Word,
) -> bool {
    &&& t.well_formed()
    &&& t.rows_built() >= s.rows_built()
    &&& holds(t, ctx, in_syscall, fn_hash)
    &&& forall|r: int|
        s.rows_built() <= r < t.rows_built() ==> #[trigger] shows_context(
            t.columns,
            r,
            ctx,
            in_syscall,
            fn_hash,
        )
    &&& forall|c: int, r: int|
        2 <= c < 8 && 0 <= r < s.rows_built() ==> #[trigger] t.columns[c][r] == s.columns[c][r]
}

spec fn stays(s: GeneratorModel, f: Flow, ctx: int, in_syscall: bool, fn_hash: Word) -> bool {
    f !is Panic ==> stays_in(s, final_state(f), ctx, in_syscall, fn_hash)
}

proof fn lemma_stays_in_sequence(
    s: GeneratorModel,
    t: GeneratorModel,
    f: Flow,
    ctx: int,
    in_syscall: bool,
    fn_hash: Word,
)
    requires
        0 <= s.rows_built(),
        stays_in(s, t, ctx, in_syscall, fn_hash),
        stays(t, f, ctx, in_syscall, fn_hash),
    ensures
        stays(s, f, ctx, in_syscall, fn_hash),
{
    if f !is Panic {
        let u = final_state(f);
        assert forall|r: int| s.rows_built() <= r < u.rows_built() implies #[trigger] shows_context(
            u.columns,
            r,
            ctx,
            in_syscall,
            fn_hash,
        ) by {
            if r < t.rows_built() {
                assert(shows_context(t.columns, r, ctx, in_syscall, fn_hash));
                assert(u.columns[2][r] == t.columns[2][r]);
                assert(u.columns[3][r] == t.columns[3][r]);
                assert(u.columns[4][r] == t.columns[4][r]);
                assert(u.columns[5][r] == t.columns[5][r]);
                assert(u.columns[6][r] == t.columns[6][r]);
                assert(u.columns[7][r] == t.columns[7][r]);
            }
        }
        assert forall|c: int, r: int| 2 <= c < 8 && 0 <= r < s.rows_built() implies #[trigger]
            u.columns[c][r] == s.columns[c][r] by {
            assert(u.columns[c][r] == t.columns[c][r]);
        }
    }
}

proof fn lemma_row_stays(
    s: GeneratorModel,
    row: DecoderRow,
    ctx: int,
    in_syscall: bool,
    fn_hash: Word,
)
    requires
        s.well_formed(),
        holds(s, ctx, in_syscall, fn_hash),
    ensures
        stays(s, row_added(s, row), ctx, in_syscall, fn_hash),
{
    if row_added(s, row) !is Panic {
        lemma_next_shows(s, row);
        lemma_holds(s, ctx, in_syscall, fn_hash);
        let t = final_state(row_added(s, row));
        law_row_added(s, row);
        assert forall|c: int, r: int| 2 <= c < 8 && 0 <= r < s.rows_built() implies #[trigger]
            t.columns[c][r] == s.columns[c][r] by {
            assert(s.columns[c].len() == s.fragment_size);
            assert(s.columns[c][r] == t.columns[c][r]);
        }
    }
}

/// The operations of a batch stay in the context.
proof fn lemma_ops_stay<E: SyncOps>(
    ops: E,
    s: GeneratorModel,
    batch: OpBatchModel,
    op_idx: int,
    forest: MastForest,
    ctx: int,
    in_syscall: bool,
    fn_hash: Word,
)
    requires
        s.well_formed(),
        holds(s, ctx, in_syscall, fn_hash),
    ensures
        stays(s, ops_executed(ops, s, batch, op_idx, forest), ctx, in_syscall, fn_hash),
    decreases batch.ops.len() - op_idx,
{
    if op_idx < batch.ops.len() {
        let op = batch.ops[op_idx];
        ops.lemma_frame(s, op, forest);
        if let OpOutcome::Done(s1, helpers) = op_executed(ops, s, op, forest) {
            assert(s1.well_formed());
            let f = operation_row(s1, op, batch.idx_in_group(op_idx), helpers);
            if f !is Panic {
                let span = s1.span_context.unwrap();
                let left = felt(span.group_ops_left@ as int / 0x80);
                let h = match helpers {
                    Some(h) => h,
                    None => Seq::new(6, |i: int| felt(0)),
                };
                let num_groups_left = if op.imm_value is Some {
                    felt(span.num_groups_left@ - 1)
                } else {
                    span.num_groups_left
                };
                let row = DecoderRow {
                    addr: s1.context.decoder.current_addr,
                    op_code: op.op_code,
                    hasher_state: (
                        Word { e0: left, e1: s1.context.decoder.parent_addr, e2: h[0], e3: h[1] },
                        Word { e0: h[2], e1: h[3], e2: h[4], e3: h[5] },
                    ),
                    in_span: felt(1),
                    group_count: span.num_groups_left,
                    op_idx: felt(batch.idx_in_group(op_idx)),
                    batch_flags: (felt(0), felt(0), felt(0)),
                };
                let s2 = s1.with_span(
                    Some(BasicBlockContext { group_ops_left: left, num_groups_left }),
                );
                assert(f == row_added(s2, row));
                lemma_row_stays(s2, row, ctx, in_syscall, fn_hash);
                assert(stays(s, f, ctx, in_syscall, fn_hash));
                if let Flow::Continue(s3) = f {
                    if let Flow::Continue(s4) = group_advanced(s3, batch, op_idx) {
                        assert(stays_in(s, s4, ctx, in_syscall, fn_hash));
                        lemma_ops_stay(
                            ops,
                            s4,
                            batch,
                            op_idx + 1,
                            forest,
                            ctx,
                            in_syscall,
                            fn_hash,
                        );
                        lemma_stays_in_sequence(
                            s,
                            s4,
                            ops_executed(ops, s4, batch, op_idx + 1, forest),
                            ctx,
                            in_syscall,
                            fn_hash,
                        );
                    }
                }
            }
        }
    }
}

proof fn lemma_batch_row_stays(
    s: GeneratorModel,
    addr: Felt,
    op_code: u8,
    batch: OpBatchModel,
    group_count: Felt,
    ctx: int,
    in_syscall: bool,
    fn_hash: Word,
)
    requires
        s.well_formed(),
        holds(s, ctx, in_syscall, fn_hash),
    ensures
        stays(s, batch_row(s, addr, op_code, batch, group_count), ctx, in_syscall, fn_hash),
{
    if let Some(flags) = batch_flags(group_count@ as int) {
        let row = DecoderRow {
            group_count,
            batch_flags: flags,
            ..control_row(addr, op_code, first_groups(batch), last_groups(batch))
        };
        lemma_row_stays(s, row, ctx, in_syscall, fn_hash);
    }
}

/// The further batches of a basic block stay in the context.
proof fn lemma_batches_stay<E: SyncOps>(
    ops: E,
    s: GeneratorModel,
    batches: Seq<OpBatch>,
    i: int,
    forest: MastForest,
    ctx: int,
    in_syscall: bool,
    fn_hash: Word,
)
    requires
        s.well_formed(),
        holds(s, ctx, in_syscall, fn_hash),
    ensures
        stays(s, batches_executed(ops, s, batches, i, forest), ctx, in_syscall, fn_hash),
    decreases batches.len() - i,
{
    if i < batches.len() {
        let f = respanned(s, batches[i]@);
        if f !is Panic {
            lemma_batch_row_stays(
                s,
                s.context.decoder.current_addr,
                OPCODE_RESPAN,
                batches[i]@,
                s.span_context.unwrap().num_groups_left,
                ctx,
                in_syscall,
                fn_hash,
            );
            assert(stays(s, f, ctx, in_syscall, fn_hash));
            if let Flow::Continue(s1) = f {
                let g = ops_executed(ops, s1, batches[i]@, 0, forest);
                lemma_ops_stay(ops, s1, batches[i]@, 0, forest, ctx, in_syscall, fn_hash);
                lemma_stays_in_sequence(s, s1, g, ctx, in_syscall, fn_hash);
                if let Flow::Continue(s2) = g {
                    let h = batches_executed(ops, s2, batches, i + 1, forest);
                    lemma_batches_stay(
                        ops,
                        s2,
                        batches,
                        i + 1,
                        forest,
                        ctx,
                        in_syscall,
                        fn_hash,
                    );
                    lemma_stays_in_sequence(s, s2, h, ctx, in_syscall, fn_hash);
                }
            }
        }
    }
}

/// A basic block stays in the context in which it starts: all its rows show it, from the row that
/// starts the block to the row that ends it.
proof fn lemma_block_stays<E: SyncOps>(
    ops: E,
    s: GeneratorModel,
    node: BasicBlockNode,
    forest: MastForest,
    ctx: int,
    in_syscall: bool,
    fn_hash: Word,
)
    requires
        s.well_formed(),
        holds(s, ctx, in_syscall, fn_hash),
    ensures
        stays(s, block_executed(ops, s, node, forest), ctx, in_syscall, fn_hash),
{
    let first = node.spec_op_batches()[0]@;
    let num_groups = felt(node.spec_num_op_groups() % 0x1_0000_0000);
    if let Some(s0) = node_started(s) {
        let f = span_row(s0, first, num_groups);
        lemma_batch_row_stays(
            s0,
            s0.context.decoder.parent_addr,
            OPCODE_SPAN,
            first,
            num_groups,
            ctx,
            in_syscall,
            fn_hash,
        );
        assert(stays(s, f, ctx, in_syscall, fn_hash));
        if let Flow::Continue(s1) = f {
            let s2 = s1.with_span(
                Some(
                    BasicBlockContext {
                        group_ops_left: first.groups[0],
                        num_groups_left: felt(num_groups@ - 1),
                    },
                ),
            );
            let g = ops_executed(ops, s2, first, 0, forest);
            assert(stays_in(s, s2, ctx, in_syscall, fn_hash));
            lemma_ops_stay(ops, s2, first, 0, forest, ctx, in_syscall, fn_hash);
            lemma_stays_in_sequence(s, s2, g, ctx, in_syscall, fn_hash);
            if let Flow::Continue(s3) = g {
                let h = batches_executed(ops, s3, node.spec_op_batches(), 1, forest);
                lemma_batches_stay(
                    ops,
                    s3,
                    node.spec_op_batches(),
                    1,
                    forest,
                    ctx,
                    in_syscall,
                    fn_hash,
                );
                lemma_stays_in_sequence(s, s3, h, ctx, in_syscall, fn_hash);
                if let Flow::Continue(s4) = h {
                    let e = span_end_added(s4, node.spec_digest());
                    if let Some((addr, flags, s5)) = node_ended(s4) {
                        lemma_row_stays(
                            s5,
                            control_row(addr, OPCODE_END, node.spec_digest(), flags.word()),
                            ctx,
                            in_syscall,
                            fn_hash,
                        );
                        assert(stays(s4, e, ctx, in_syscall, fn_hash));
                        lemma_stays_in_sequence(s, s4, e, ctx, in_syscall, fn_hash);
                    }
                }
            }
        }
    }
}

/// All rows of a callee that is a basic block show the context that the call or the syscall
/// starts: the root context, the flag and the digest of the caller for a syscall; the clock cycle
/// after the call, the flag as before and the digest of the callee for a call.
pub proof fn law_rows_of_callee_show_its_context<E: SyncOps>(
    ops: E,
    s: GeneratorModel,
    node: CallNode,
    forest: MastForest,
    r: int,
)
    requires
        s.well_formed(),
        call_started(s, node, forest) matches Flow::Continue(s1) && {
            &&& forest.node(node.callee) is Block
            &&& node_executed(ops, s1, node.callee, forest) !is Panic
            &&& s1.rows_built() <= r < final_state(
                node_executed(ops, s1, node.callee, forest),
            ).rows_built()
        },
    ensures
        call_started(s, node, forest) matches Flow::Continue(s1) && shows_context(
            final_state(node_executed(ops, s1, node.callee, forest)).columns,
            r,
            if node.is_syscall {
                0
            } else {
                s.context.system.clk + 1
            },
            node.is_syscall || s.context.system.in_syscall,
            if node.is_syscall {
                s.context.system.fn_hash
            } else {
                forest.node(node.callee).spec_digest()
            },
        ),
{
    reveal(node_executed);
    let s1 = final_state(call_started(s, node, forest));
    let s0 = node_started(s).unwrap();
    let callee = forest.node(node.callee).spec_digest();
    let before = call_context_started(s0, node, callee);
    let row = control_row(
        before.context.decoder.parent_addr,
        if node.is_syscall {
            OPCODE_SYSCALL
        } else {
            OPCODE_CALL
        },
        callee,
        empty_word(),
    );
    lemma_next_shows(before, row);
    lemma_row_fits(before, row);
    let system = before.context.system;
    if let MastNode::Block(block) = forest.node(node.callee) {
        lemma_block_stays(
            ops,
            s1,
            block,
            forest,
            system.ctx.id as int,
            system.in_syscall,
            system.fn_hash,
        );
        let t = final_state(block_executed(ops, s1, block, forest));
        assert(node_executed(ops, s1, node.callee, forest) == block_executed(ops, s1, block, forest));
        assert(shows_context(
            t.columns,
            r,
            system.ctx.id as int,
            system.in_syscall,
            system.fn_hash,
        ));
    }
}

/// All rows of a callee that is a basic block show the context that a dynamic call starts: the
/// clock cycle after the call, and the digest that the call has read from memory.
pub proof fn law_rows_of_dynamic_callee_show_its_context<E: SyncOps>(
    ops: E,
    s: GeneratorModel,
    node: DynNode,
    id: MastNodeId,
    forest: MastForest,
    r: int,
)
    requires
        s.well_formed(),
        node.is_dyncall,
        dyn_started(s, node) matches Flow::Continue(s1) && {
            &&& forest.has(id)
            &&& forest.node(id) is Block
            &&& node_executed(ops, s1, id, forest) !is Panic
            &&& s1.rows_built() <= r < final_state(
                node_executed(ops, s1, id, forest),
            ).rows_built()
        },
    ensures
        dyn_started(s, node) matches Flow::Continue(s1) && shows_context(
            final_state(node_executed(ops, s1, id, forest)).columns,
            r,
            s.context.system.clk + 1,
            s.context.system.in_syscall,
            s.context.replay.memory_reads.words[0].0,
        ),
{
    reveal(node_executed);
    let s1 = final_state(dyn_started(s, node));
    let s0 = node_started(s).unwrap();
    let (callee, read) = callee_read(s0).unwrap();
    let popped = decremented(read).unwrap();
    assert(popped.well_formed());
    let before = dyncall_context_started(popped, callee);
    let info = left_context(popped);
    let row = control_row(
        before.context.decoder.parent_addr,
        OPCODE_DYNCALL,
        callee,
        Word {
            e0: felt(info.parent_stack_depth as int),
            e1: info.parent_next_overflow_addr,
            ..empty_word()
        },
    );
    lemma_next_shows(before, row);
    lemma_row_fits(before, row);
    let system = before.context.system;
    if let MastNode::Block(block) = forest.node(id) {
        lemma_block_stays(
            ops,
            s1,
            block,
            forest,
            system.ctx.id as int,
            system.in_syscall,
            system.fn_hash,
        );
        let t = final_state(block_executed(ops, s1, block, forest));
        assert(node_executed(ops, s1, id, forest) == block_executed(ops, s1, block, forest));
        assert(shows_context(
            t.columns,
            r,
            system.ctx.id as int,
            system.in_syscall,
            system.fn_hash,
        ));
    }
}

} // verus!
