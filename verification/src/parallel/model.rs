//! What the generator of a fragment does, step by step.
//!
//! A step takes the state of the generator to the next one and either continues or, once the
//! fragment is full, breaks off. Where the recording does not fit the program, a step panics: the
//! functions that carry out the steps leave such inputs out.

use crate::block_stack::BasicBlockContext;
use crate::block_stack::ExecutionContextInfo;
use crate::context::ContextId;
use crate::context::RowIndex;
use crate::felt::felt;
use crate::felt::flag;
use crate::felt::Felt;
use crate::felt::MODULUS;
use crate::layout::CORE_TRACE_WIDTH;
use crate::layout::DECODER_TRACE_OFFSET;
use crate::layout::FMP_MIN;
use crate::layout::HASH_CYCLE_LEN;
use crate::layout::MIN_STACK_DEPTH;
use crate::layout::OPCODE_CALL;
use crate::layout::OPCODE_DYN;
use crate::layout::OPCODE_DYNCALL;
use crate::layout::OPCODE_END;
use crate::layout::OPCODE_JOIN;
use crate::layout::OPCODE_LOOP;
use crate::layout::OPCODE_REPEAT;
use crate::layout::OPCODE_RESPAN;
use crate::layout::OPCODE_SPAN;
use crate::layout::OPCODE_SPLIT;
use crate::layout::OPCODE_SYSCALL;
use crate::layout::STACK_TRACE_OFFSET;
use crate::layout::SYSCALL_FMP_MIN;
use crate::mast::CallNode;
use crate::mast::JoinNode;
use crate::mast::LoopNode;
use crate::mast::MastForest;
use crate::mast::MastNodeId;
use crate::mast::OpBatchModel;
use crate::mast::Operation;
use crate::mast::SplitNode;
use crate::parallel::fragment::rectangular;
use crate::parallel::fragment::with_cells;
use crate::trace_state::BlockStackReplayModel;
use crate::trace_state::ContextModel;
use crate::trace_state::DecoderState;
use crate::trace_state::HasherResponseModel;
use crate::trace_state::NodeFlags;
use crate::trace_state::ReplayModel;
use crate::trace_state::StackModel;
use crate::trace_state::SystemState;
use crate::word::empty_word;
use crate::word::Word;
use vstd::prelude::*;

verus! {

// STATE

/// The state of the generator of a fragment.
#[verifier::ext_equal]
pub struct GeneratorModel {
    /// The clock cycle in which the fragment begins.
    pub fragment_start_clk: RowIndex,
    /// The columns of the fragment.
    pub columns: Seq<Seq<Felt>>,
    /// The state of the processor and what is left of the recordings.
    pub context: ContextModel,
    /// How far the decoding of the current basic block has come.
    pub span_context: Option<BasicBlockContext>,
    /// The next row of the stack columns.
    pub stack_rows: Option<Seq<Felt>>,
    /// The next row of the system columns.
    pub system_rows: Option<Seq<Felt>>,
    /// The number of rows after which the fragment is full.
    pub fragment_size: usize,
}

/// What a step leads to.
pub enum Flow {
    /// The fragment is not full yet.
    Continue(GeneratorModel),
    /// The fragment is full.
    Break(GeneratorModel),
    /// The recording does not fit the program.
    Panic,
}

impl Flow {
    /// What becomes of a step after which nothing more is to be done unless the fragment is full.
    pub open spec fn halted(self) -> Flow {
        match self {
            Flow::Continue(_) => Flow::Panic,
            f => f,
        }
    }

    /// The same, with later recordings behind those that are left.
    pub open spec fn with_later(self, later: ReplayModel) -> Flow {
        match self {
            Flow::Continue(s) => Flow::Continue(s.with_later(later)),
            Flow::Break(s) => Flow::Break(s.with_later(later)),
            Flow::Panic => Flow::Panic,
        }
    }
}

impl GeneratorModel {
    /// The number of rows built so far.
    pub open spec fn rows_built(&self) -> int {
        self.context.system.clk - self.fragment_start_clk
    }

    /// The number of rows that are left to build.
    pub open spec fn rows_left(&self) -> nat {
        if self.rows_built() < self.fragment_size {
            (self.fragment_size - self.rows_built()) as nat
        } else {
            0
        }
    }

    /// The number of recorded nodes of other forests that are left.
    pub open spec fn resolutions_left(&self) -> nat {
        self.context.replay.resolutions.len()
    }

    /// The fragment has room for all its rows, and no more rows than those have been built.
    pub open spec fn well_formed(&self) -> bool {
        &&& rectangular(self.columns, CORE_TRACE_WIDTH as int, self.fragment_size as int)
        &&& 0 <= self.rows_built() <= self.fragment_size
        &&& self.context.stack.top.len() == MIN_STACK_DEPTH
        &&& self.stack_rows matches Some(row) ==> row.len() == 19
        &&& self.system_rows matches Some(row) ==> row.len() == 8
    }

    /// The stack element at a distance from the top of the stack.
    pub open spec fn item(&self, idx: int) -> Felt {
        self.context.stack.item(idx)
    }

    pub open spec fn with_system(&self, system: SystemState) -> GeneratorModel {
        GeneratorModel { context: ContextModel { system, ..self.context }, ..*self }
    }

    pub open spec fn with_decoder(&self, decoder: DecoderState) -> GeneratorModel {
        GeneratorModel { context: ContextModel { decoder, ..self.context }, ..*self }
    }

    pub open spec fn with_stack(&self, stack: StackModel) -> GeneratorModel {
        GeneratorModel { context: ContextModel { stack, ..self.context }, ..*self }
    }

    pub open spec fn with_replay(&self, replay: ReplayModel) -> GeneratorModel {
        GeneratorModel { context: ContextModel { replay, ..self.context }, ..*self }
    }

    /// The state with later recordings behind those that are left.
    pub open spec fn with_later(&self, later: ReplayModel) -> GeneratorModel {
        self.with_replay(self.context.replay.followed_by(later))
    }

    pub open spec fn with_span(&self, span_context: Option<BasicBlockContext>) -> GeneratorModel {
        GeneratorModel { span_context, ..*self }
    }
}

// ROWS

/// What a row of the decoder columns shows, but for the columns that are computed from the code
/// of the operation.
pub struct DecoderRow {
    pub addr: Felt,
    pub op_code: u8,
    pub hasher_state: (Word, Word),
    pub in_span: Felt,
    pub group_count: Felt,
    pub op_idx: Felt,
    pub batch_flags: (Felt, Felt, Felt),
}

/// A bit of the code of an operation.
pub open spec fn op_bit(op_code: u8, i: int) -> int {
    ((op_code >> i) & 1) as int
}

/// The cells of a row of the decoder columns.
pub open spec fn decoder_cells(row: DecoderRow) -> Seq<Felt> {
    let c = row.op_code;
    seq![
        row.addr,
        felt(op_bit(c, 0)),
        felt(op_bit(c, 1)),
        felt(op_bit(c, 2)),
        felt(op_bit(c, 3)),
        felt(op_bit(c, 4)),
        felt(op_bit(c, 5)),
        felt(op_bit(c, 6)),
        row.hasher_state.0.e0,
        row.hasher_state.0.e1,
        row.hasher_state.0.e2,
        row.hasher_state.0.e3,
        row.hasher_state.1.e0,
        row.hasher_state.1.e1,
        row.hasher_state.1.e2,
        row.hasher_state.1.e3,
        row.in_span,
        row.group_count,
        row.op_idx,
        row.batch_flags.0,
        row.batch_flags.1,
        row.batch_flags.2,
        felt(op_bit(c, 6) * (1 - op_bit(c, 5)) * op_bit(c, 4)),
        felt(op_bit(c, 6) * op_bit(c, 5)),
    ]
}

/// The cells of the system columns in the row after the current one.
pub open spec fn system_cells(system: SystemState) -> Seq<Felt> {
    seq![
        felt(system.clk + 1),
        system.fmp,
        felt(system.ctx.id as int),
        flag(system.in_syscall),
        system.fn_hash.e0,
        system.fn_hash.e1,
        system.fn_hash.e2,
        system.fn_hash.e3,
    ]
}

/// The cells of the stack columns in the row after the current one: the topmost elements, the top
/// of the stack first, the depth, the overflow address and the number of elements in the overflow
/// table.
pub open spec fn stack_cells(stack: StackModel) -> Seq<Felt> {
    Seq::new(
        19,
        |i: int|
            if i < 16 {
                stack.item(i)
            } else if i == 16 {
                felt(stack.depth as int)
            } else if i == 17 {
                stack.overflow_addr
            } else {
                felt(stack.depth - MIN_STACK_DEPTH)
            },
    )
}

/// The columns with the cells of a row, if there are any, put in place.
pub open spec fn with_buffered(
    columns: Seq<Seq<Felt>>,
    first: int,
    row: int,
    cells: Option<Seq<Felt>>,
) -> Seq<Seq<Felt>> {
    match cells {
        Some(values) => with_cells(columns, first, row, values),
        None => columns,
    }
}

/// Writes the decoder columns of the current row. What an operation does to the system and to the
/// stack shows in the next row, so those columns get the state in which the row before left them.
/// Then the clock advances.
#[verifier::opaque]
pub open spec fn row_added(s: GeneratorModel, row: DecoderRow) -> Flow {
    let at = s.rows_built();
    if 0 <= at < s.fragment_size && s.context.system.clk < u32::MAX && s.context.stack.depth
        >= MIN_STACK_DEPTH {
        let columns = with_cells(s.columns, DECODER_TRACE_OFFSET as int, at, decoder_cells(row));
        let columns = with_buffered(columns, 0, at, s.system_rows);
        let columns = with_buffered(columns, STACK_TRACE_OFFSET as int, at, s.stack_rows);
        let next = GeneratorModel {
            columns,
            system_rows: Some(system_cells(s.context.system)),
            stack_rows: Some(stack_cells(s.context.stack)),
            ..s
        }.with_system(
            SystemState { clk: (s.context.system.clk + 1) as u32, ..s.context.system },
        );
        if next.rows_built() >= next.fragment_size {
            Flow::Break(next)
        } else {
            Flow::Continue(next)
        }
    } else {
        Flow::Panic
    }
}

/// A row can be added only within the fragment, before the clock has run out, and with no fewer
/// elements on the stack than there always are.
pub broadcast proof fn lemma_row_fits(s: GeneratorModel, row: DecoderRow)
    requires
        #[trigger] row_added(s, row) !is Panic,
    ensures
        0 <= s.rows_built() < s.fragment_size,
        s.context.system.clk < u32::MAX,
        s.context.stack.depth >= MIN_STACK_DEPTH,
{
    reveal(row_added);
}

/// A row outside of basic blocks.
pub open spec fn control_row(addr: Felt, op_code: u8, first: Word, second: Word) -> DecoderRow {
    DecoderRow {
        addr,
        op_code,
        hasher_state: (first, second),
        in_span: felt(0),
        group_count: felt(0),
        op_idx: felt(0),
        batch_flags: (felt(0), felt(0), felt(0)),
    }
}

/// The digest of a node, if the forest has it.
pub open spec fn digest_of(forest: MastForest, id: MastNodeId) -> Option<Word> {
    if forest.has(id) {
        Some(forest.node(id).spec_digest())
    } else {
        None
    }
}

/// The row that starts a join.
pub open spec fn join_row(s: GeneratorModel, node: JoinNode, forest: MastForest) -> Flow {
    match (digest_of(forest, node.first), digest_of(forest, node.second)) {
        (Some(first), Some(second)) => row_added(
            s,
            control_row(s.context.decoder.parent_addr, OPCODE_JOIN, first, second),
        ),
        _ => Flow::Panic,
    }
}

/// The row that starts a split.
pub open spec fn split_row(s: GeneratorModel, node: SplitNode, forest: MastForest) -> Flow {
    match (digest_of(forest, node.on_true), digest_of(forest, node.on_false)) {
        (Some(on_true), Some(on_false)) => row_added(
            s,
            control_row(s.context.decoder.parent_addr, OPCODE_SPLIT, on_true, on_false),
        ),
        _ => Flow::Panic,
    }
}

/// The row that starts a loop.
pub open spec fn loop_row(s: GeneratorModel, node: LoopNode, forest: MastForest) -> Flow {
    match digest_of(forest, node.body) {
        Some(body) => row_added(
            s,
            control_row(s.context.decoder.parent_addr, OPCODE_LOOP, body, empty_word()),
        ),
        None => Flow::Panic,
    }
}

/// The row that repeats the body of a loop.
pub open spec fn repeat_row(s: GeneratorModel, node: LoopNode, forest: MastForest) -> Flow {
    match digest_of(forest, node.body) {
        Some(body) => row_added(
            s,
            control_row(
                s.context.decoder.current_addr,
                OPCODE_REPEAT,
                body,
                Word { e0: felt(1), ..empty_word() },
            ),
        ),
        None => Flow::Panic,
    }
}

/// The row that starts a call or a syscall.
pub open spec fn call_row(s: GeneratorModel, node: CallNode, forest: MastForest) -> Flow {
    match digest_of(forest, node.callee) {
        Some(callee) => row_added(
            s,
            control_row(
                s.context.decoder.parent_addr,
                if node.is_syscall {
                    OPCODE_SYSCALL
                } else {
                    OPCODE_CALL
                },
                callee,
                empty_word(),
            ),
        ),
        None => Flow::Panic,
    }
}

/// The row that starts a dynamic execution in the same context.
pub open spec fn dyn_row(s: GeneratorModel, callee: Word) -> Flow {
    row_added(s, control_row(s.context.decoder.parent_addr, OPCODE_DYN, callee, empty_word()))
}

/// The row that starts a dynamic execution in a new context.
pub open spec fn dyncall_row(s: GeneratorModel, callee: Word, info: ExecutionContextInfo) -> Flow {
    row_added(
        s,
        control_row(
            s.context.decoder.parent_addr,
            OPCODE_DYNCALL,
            callee,
            Word {
                e0: felt(info.parent_stack_depth as int),
                e1: info.parent_next_overflow_addr,
                ..empty_word()
            },
        ),
    )
}

/// The row that ends a node.
pub open spec fn end_row(s: GeneratorModel, digest: Word, flags: NodeFlags, addr: Felt) -> Flow {
    row_added(s, control_row(addr, OPCODE_END, digest, flags.word()))
}

/// The flags that say how many groups a batch has; it has eight, four, two or one.
pub open spec fn batch_flags(num_groups_left: int) -> Option<(Felt, Felt, Felt)> {
    if num_groups_left >= 8 {
        Some((felt(1), felt(0), felt(0)))
    } else if num_groups_left == 4 {
        Some((felt(0), felt(1), felt(0)))
    } else if num_groups_left == 2 {
        Some((felt(0), felt(0), felt(1)))
    } else if num_groups_left == 1 {
        Some((felt(0), felt(1), felt(1)))
    } else {
        None
    }
}

/// The first four groups of a batch.
pub open spec fn first_groups(batch: OpBatchModel) -> Word {
    Word { e0: batch.groups[0], e1: batch.groups[1], e2: batch.groups[2], e3: batch.groups[3] }
}

/// The last four groups of a batch.
pub open spec fn last_groups(batch: OpBatchModel) -> Word {
    Word { e0: batch.groups[4], e1: batch.groups[5], e2: batch.groups[6], e3: batch.groups[7] }
}

/// A row that shows the groups of a batch.
pub open spec fn batch_row(
    s: GeneratorModel,
    addr: Felt,
    op_code: u8,
    batch: OpBatchModel,
    group_count: Felt,
) -> Flow {
    match batch_flags(group_count@ as int) {
        Some(batch_flags) => row_added(
            s,
            DecoderRow {
                group_count,
                batch_flags,
                ..control_row(addr, op_code, first_groups(batch), last_groups(batch))
            },
        ),
        None => Flow::Panic,
    }
}

/// The row that starts a basic block.
pub open spec fn span_row(s: GeneratorModel, batch: OpBatchModel, group_count: Felt) -> Flow {
    batch_row(s, s.context.decoder.parent_addr, OPCODE_SPAN, batch, group_count)
}

/// The row that starts a further batch of a basic block, after which the block is found at the
/// next address of the hasher and its first group is decoded.
pub open spec fn respanned(s: GeneratorModel, batch: OpBatchModel) -> Flow {
    match s.span_context {
        None => Flow::Panic,
        Some(span) => match batch_row(
            s,
            s.context.decoder.current_addr,
            OPCODE_RESPAN,
            batch,
            span.num_groups_left,
        ) {
            Flow::Continue(s1) => Flow::Continue(
                s1.with_decoder(
                    DecoderState {
                        current_addr: felt(s.context.decoder.current_addr@ + HASH_CYCLE_LEN),
                        ..s1.context.decoder
                    },
                ).with_span(
                    Some(
                        BasicBlockContext {
                            group_ops_left: batch.groups[0],
                            num_groups_left: felt(span.num_groups_left@ - 1),
                        },
                    ),
                ),
            ),
            f => f,
        },
    }
}

/// The row of an operation of a basic block. It shows what is left of the group after the
/// operation, and the helper registers of the operation. An operation with an immediate value
/// uses up one more group.
pub open spec fn operation_row(
    s: GeneratorModel,
    op: Operation,
    op_idx_in_group: int,
    helpers: Option<Seq<Felt>>,
) -> Flow {
    match s.span_context {
        None => Flow::Panic,
        Some(span) => {
            let left = felt(span.group_ops_left@ as int / 0x80);
            let h = match helpers {
                Some(h) => h,
                None => Seq::new(6, |i: int| felt(0)),
            };
            let num_groups_left = if op.imm_value is Some {
                felt(span.num_groups_left@ - 1)
            } else {
                span.num_groups_left
            };
            row_added(
                s.with_span(Some(BasicBlockContext { group_ops_left: left, num_groups_left })),
                DecoderRow {
                    addr: s.context.decoder.current_addr,
                    op_code: op.op_code,
                    hasher_state: (
                        Word { e0: left, e1: s.context.decoder.parent_addr, e2: h[0], e3: h[1] },
                        Word { e0: h[2], e1: h[3], e2: h[4], e3: h[5] },
                    ),
                    in_span: felt(1),
                    group_count: span.num_groups_left,
                    op_idx: felt(op_idx_in_group),
                    batch_flags: (felt(0), felt(0), felt(0)),
                },
            )
        },
    }
}

// STATE OF THE DECODER, THE STACK AND THE SYSTEM

/// A node starts: its address and that of its parent are the next recorded ones.
pub open spec fn node_started(s: GeneratorModel) -> Option<GeneratorModel> {
    let (hasher, block_stack) = (s.context.replay.hasher, s.context.replay.block_stack);
    if hasher.block_addresses.len() > 0 && block_stack.node_start.len() > 0 {
        Some(
            s.with_decoder(
                DecoderState {
                    current_addr: hasher.block_addresses[0],
                    parent_addr: block_stack.node_start[0],
                },
            ).with_replay(
                ReplayModel {
                    hasher: HasherResponseModel {
                        block_addresses: hasher.block_addresses.drop_first(),
                        ..hasher
                    },
                    block_stack: BlockStackReplayModel {
                        node_start: block_stack.node_start.drop_first(),
                        ..block_stack
                    },
                    ..s.context.replay
                },
            ),
        )
    } else {
        None
    }
}

/// A node ends: the next recorded state is returned to. The address and the flags are those of
/// the node that ends.
pub open spec fn node_ended(s: GeneratorModel) -> Option<(Felt, NodeFlags, GeneratorModel)> {
    let block_stack = s.context.replay.block_stack;
    if block_stack.node_end.len() > 0 {
        let end = block_stack.node_end[0];
        Some(
            (
                end.ended_node_addr,
                end.flags,
                s.with_decoder(
                    DecoderState {
                        current_addr: end.prev_addr,
                        parent_addr: end.prev_parent_addr,
                    },
                ).with_replay(
                    ReplayModel {
                        block_stack: BlockStackReplayModel {
                            node_end: block_stack.node_end.drop_first(),
                            ..block_stack
                        },
                        ..s.context.replay
                    },
                ),
            ),
        )
    } else {
        None
    }
}

/// A node ends, and the row that says so is added.
pub open spec fn end_added(s: GeneratorModel, digest: Word) -> Flow {
    match node_ended(s) {
        Some((addr, flags, s1)) => end_row(s1, digest, flags, addr),
        None => Flow::Panic,
    }
}

/// A basic block ends, and the row that says so is added.
pub open spec fn span_end_added(s: GeneratorModel, digest: Word) -> Flow {
    match end_added(s, digest) {
        Flow::Continue(s1) => Flow::Continue(s1.with_span(None)),
        f => f,
    }
}

/// The topmost stack element is removed and the others move up by one.
pub open spec fn decremented(s: GeneratorModel) -> Option<GeneratorModel> {
    let (stack, replay) = (s.context.stack, s.context.replay);
    if stack.can_pop_overflow(replay.stack_overflow) {
        let (value, popped, stack_overflow) = stack.overflow_popped(replay.stack_overflow);
        let bottom = match value {
            Some(v) => v,
            None => felt(0),
        };
        Some(
            s.with_stack(
                StackModel { top: seq![bottom] + stack.top.drop_last(), ..popped },
            ).with_replay(ReplayModel { stack_overflow, ..replay }),
        )
    } else {
        None
    }
}

/// All stack elements move down by one; the topmost one is a mark that is to be overwritten.
pub open spec fn incremented(s: GeneratorModel) -> Option<GeneratorModel> {
    let stack = s.context.stack;
    if stack.depth < usize::MAX {
        Some(
            s.with_stack(
                StackModel {
                    top: stack.top.drop_first().push(felt(MODULUS - 1)),
                    ..stack.overflow_pushed(s.context.system.clk)
                },
            ),
        )
    } else {
        None
    }
}

/// The topmost stack element is taken off as a condition.
pub open spec fn condition_taken(s: GeneratorModel) -> Option<(Felt, GeneratorModel)> {
    match decremented(s) {
        Some(s1) => Some((s.item(0), s1)),
        None => None,
    }
}

/// The next recorded context is returned to.
pub open spec fn context_restored(s: GeneratorModel) -> Option<GeneratorModel> {
    let replay = s.context.replay;
    if replay.block_stack.execution_contexts.len() > 0
        && replay.stack_overflow.restore_context_info.len() > 0 {
        let info = replay.block_stack.execution_contexts[0];
        let (stack, stack_overflow) = s.context.stack.context_restored(replay.stack_overflow);
        Some(
            s.with_system(
                SystemState {
                    ctx: info.parent_ctx,
                    fmp: info.parent_fmp,
                    fn_hash: info.parent_fn_hash,
                    in_syscall: false,
                    ..s.context.system
                },
            ).with_stack(stack).with_replay(
                ReplayModel {
                    block_stack: BlockStackReplayModel {
                        execution_contexts: replay.block_stack.execution_contexts.drop_first(),
                        ..replay.block_stack
                    },
                    stack_overflow,
                    ..replay
                },
            ),
        )
    } else {
        None
    }
}

/// The next recorded context is returned to, and a node ends.
pub open spec fn context_ended(s: GeneratorModel, digest: Word) -> Flow {
    match context_restored(s) {
        Some(s1) => end_added(s1, digest),
        None => Flow::Panic,
    }
}

/// The decoding of a group starts, once nothing is left of the group before.
pub open spec fn group_started(s: GeneratorModel, group: Felt) -> Flow {
    match s.span_context {
        Some(span) if span.group_ops_left@ == 0 => Flow::Continue(
            s.with_span(
                Some(
                    BasicBlockContext {
                        group_ops_left: group,
                        num_groups_left: felt(span.num_groups_left@ - 1),
                    },
                ),
            ),
        ),
        _ => Flow::Panic,
    }
}

/// A call starts a context: a new one, or the root context for a syscall.
pub open spec fn call_context_started(s: GeneratorModel, node: CallNode, callee: Word) -> GeneratorModel {
    let system = s.context.system;
    s.with_stack(s.context.stack.context_started()).with_system(
        if node.is_syscall {
            SystemState {
                ctx: ContextId { id: 0 },
                fmp: felt(SYSCALL_FMP_MIN as int),
                in_syscall: true,
                ..system
            }
        } else {
            SystemState {
                ctx: ContextId { id: (system.clk + 1) as u32 },
                fmp: felt(FMP_MIN as int),
                fn_hash: callee,
                ..system
            }
        },
    )
}

/// The context that a dynamic call leaves, once the address of the callee is off the stack.
pub open spec fn left_context(s: GeneratorModel) -> ExecutionContextInfo {
    ExecutionContextInfo {
        parent_ctx: s.context.system.ctx,
        parent_fn_hash: s.context.system.fn_hash,
        parent_fmp: s.context.system.fmp,
        parent_stack_depth: (s.context.stack.depth as int % 0x1_0000_0000) as u32,
        parent_next_overflow_addr: s.context.stack.overflow_addr,
    }
}

/// A dynamic call starts a new context.
pub open spec fn dyncall_context_started(s: GeneratorModel, callee: Word) -> GeneratorModel {
    let system = s.context.system;
    s.with_stack(s.context.stack.context_started()).with_system(
        SystemState {
            ctx: ContextId { id: (system.clk + 1) as u32 },
            fmp: felt(FMP_MIN as int),
            fn_hash: callee,
            ..system
        },
    )
}

/// The word at the address on top of the stack is read as the digest of the callee.
pub open spec fn callee_read(s: GeneratorModel) -> Option<(Word, GeneratorModel)> {
    let replay = s.context.replay;
    if replay.memory_reads.next_word_at(s.item(0)) {
        Some(
            (
                replay.memory_reads.words[0].0,
                s.with_replay(
                    ReplayModel { memory_reads: replay.memory_reads.word_taken(), ..replay },
                ),
            ),
        )
    } else {
        None
    }
}

} // verus!
