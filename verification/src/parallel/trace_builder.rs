//! Rows of the core trace.

use crate::block_stack::BasicBlockContext;
use crate::block_stack::ExecutionContextInfo;
use crate::felt::felt;
use crate::felt::lemma_felt_small;
use crate::felt::Felt;
use crate::layout::CORE_TRACE_WIDTH;
use crate::layout::DECODER_TRACE_OFFSET;
use crate::layout::HASHER_STATE_OFFSET;
use crate::layout::HASH_CYCLE_LEN;
use crate::layout::IN_SPAN_COL_IDX;
use crate::layout::MIN_STACK_DEPTH;
use crate::layout::OPCODE_CALL;
use crate::layout::OPCODE_DYN;
use crate::layout::OPCODE_DYNCALL;
use crate::layout::OPCODE_END;
use crate::layout::OPCODE_JOIN;
use crate::layout::OPCODE_LOOP;
use crate::layout::OPCODE_REPEAT;
use crate::layout::OPCODE_RESPAN;
use crate::layout::OPCODE_SPAN;
use crate::layout::OPCODE_SPLIT;
use crate::layout::OPCODE_SYSCALL;
use crate::layout::OP_BITS_EXTRA_COLS_OFFSET;
use crate::layout::OP_BITS_OFFSET;
use crate::layout::STACK_TRACE_OFFSET;
use crate::mast::BasicBlockNode;
use crate::mast::CallNode;
use crate::mast::JoinNode;
use crate::mast::LoopNode;
use crate::mast::MastForest;
use crate::mast::OpBatch;
use crate::mast::Operation;
use crate::mast::SplitNode;
use crate::parallel::fragment::with_cells;
use crate::parallel::generator::row_view;
use crate::parallel::generator::CoreTraceFragmentGenerator;
use crate::parallel::model::batch_flags;
use crate::parallel::model::batch_row;
use crate::parallel::model::call_row;
use crate::parallel::model::control_row;
use crate::parallel::model::decoder_cells;
use crate::parallel::model::dyn_row;
use crate::parallel::model::dyncall_row;
use crate::parallel::model::end_added;
use crate::parallel::model::end_row;
use crate::parallel::model::group_started;
use crate::parallel::model::join_row;
use crate::parallel::model::loop_row;
use crate::parallel::model::node_ended;
use crate::parallel::model::node_started;
use crate::parallel::model::op_bit;
use crate::parallel::model::operation_row;
use crate::parallel::model::repeat_row;
use crate::parallel::model::respanned;
use crate::parallel::model::row_added;
use crate::parallel::model::span_end_added;
use crate::parallel::model::span_row;
use crate::parallel::model::split_row;
use crate::parallel::model::stack_cells;
use crate::parallel::model::system_cells;
use crate::parallel::model::with_buffered;
use crate::parallel::model::DecoderRow;
use crate::parallel::model::Flow;
use crate::parallel::model::GeneratorModel;
use crate::processor::StackInterface;
use crate::trace_state::NodeFlags;
use crate::trace_state::SystemState;
use crate::word::Word;
use core::ops::ControlFlow;
use vstd::prelude::*;

verus! {

/// Whether a step came about: the state is the one that the step leads to, and the generation
/// continues or breaks off as the step says.
pub open spec fn came_to(flow: Flow, r: ControlFlow<()>, s: GeneratorModel) -> bool {
    match flow {
        Flow::Continue(next) => r is Continue && s == next,
        Flow::Break(next) => r is Break && s == next,
        Flow::Panic => true,
    }
}

/// The columns once the code of an operation has been written: its bits, and two products of bits
/// that keep the degree of the constraints low.
pub open spec fn opcode_written(
    columns: Seq<Seq<Felt>>,
    op_code: u8,
    row: int,
) -> Seq<Seq<Felt>> {
    with_cells(
        with_cells(
            columns,
            DECODER_TRACE_OFFSET + OP_BITS_OFFSET,
            row,
            Seq::new(7, |i: int| felt(op_bit(op_code, i))),
        ),
        DECODER_TRACE_OFFSET + OP_BITS_EXTRA_COLS_OFFSET,
        row,
        seq![
            felt(op_bit(op_code, 6) * (1 - op_bit(op_code, 5)) * op_bit(op_code, 4)),
            felt(op_bit(op_code, 6) * op_bit(op_code, 5)),
        ],
    )
}

fn bit(op_code: u8, i: u8) -> (r: Felt)
    requires
        i < 8,
    ensures
        r == felt(op_bit(op_code, i as int)),
        r@ == op_bit(op_code, i as int),
        r@ == 0 || r@ == 1,
{
    broadcast use lemma_felt_small;

    let b: u8 = (op_code >> i) & 1;
    assert(b == 0 || b == 1) by (bit_vector)
        requires
            b == (op_code >> i) & 1,
    ;
    Felt::new(b as u64)
}

/// The words with the groups of a batch.
fn batch_words(groups: &[Felt; 8]) -> (r: (Word, Word))
    ensures
        r.0 == (Word { e0: groups@[0], e1: groups@[1], e2: groups@[2], e3: groups@[3] }),
        r.1 == (Word { e0: groups@[4], e1: groups@[5], e2: groups@[6], e3: groups@[7] }),
{
    (
        Word { e0: groups[0], e1: groups[1], e2: groups[2], e3: groups[3] },
        Word { e0: groups[4], e1: groups[5], e2: groups[6], e3: groups[7] },
    )
}

/// The flags that say how many groups a batch has.
fn get_op_batch_flags(num_groups_left: Felt) -> (r: (Felt, Felt, Felt))
    requires
        batch_flags(num_groups_left@ as int) is Some,
    ensures
        Some(r) == batch_flags(num_groups_left@ as int),
{
    let (zero, one) = (Felt::zero(), Felt::one());
    let n: u64 = num_groups_left.as_int();
    if n >= 8 {
        (one, zero, zero)
    } else if n == 4 {
        (zero, one, zero)
    } else if n == 2 {
        (zero, zero, one)
    } else {
        (zero, one, one)
    }
}

fn new_control_row(addr: Felt, op_code: u8, first: Word, second: Word) -> (r: DecoderRow)
    ensures
        r == control_row(addr, op_code, first, second),
{
    let zero = Felt::zero();
    DecoderRow {
        addr,
        op_code,
        hasher_state: (first, second),
        in_span: zero,
        group_count: zero,
        op_idx: zero,
        batch_flags: (zero, zero, zero),
    }
}

impl CoreTraceFragmentGenerator {
    /// The number of rows built so far.
    pub fn num_rows_built(&self) -> (r: usize)
        requires
            self@.rows_built() >= 0,
        ensures
            r == self@.rows_built(),
    {
        (self.context.state.system.clk - self.fragment_start_clk) as usize
    }

    /// Whether the fragment is full.
    pub fn done_generating(&mut self) -> (r: bool)
        requires
            old(self)@.rows_built() >= 0,
        ensures
            r == (old(self)@.rows_built() >= old(self)@.fragment_size),
            final(self)@ == old(self)@,
    {
        self.num_rows_built() >= self.fragment_size
    }

    /// Advances the clock; the generation breaks off once the fragment is full.
    pub fn increment_clk(&mut self) -> (r: ControlFlow<()>)
        requires
            old(self)@.rows_built() >= 0,
            old(self)@.context.system.clk < u32::MAX,
        ensures
            final(self)@ == old(self)@.with_system(
                SystemState {
                    clk: (old(self)@.context.system.clk + 1) as u32,
                    ..old(self)@.context.system
                },
            ),
            r is Break <==> final(self)@.rows_built() >= final(self)@.fragment_size,
    {
        self.context.state.system.clk = self.context.state.system.clk + 1;
        if self.done_generating() {
            ControlFlow::Break(())
        } else {
            ControlFlow::Continue(())
        }
    }

    /// Writes the code of an operation to a row.
    pub fn append_opcode(&mut self, opcode: u8, row_idx: usize)
        requires
            old(self)@.columns.len() == CORE_TRACE_WIDTH,
            forall|c: int|
                0 <= c < CORE_TRACE_WIDTH ==> row_idx < (#[trigger] old(self)@.columns[c]).len(),
        ensures
            final(self)@ == (GeneratorModel {
                columns: opcode_written(old(self)@.columns, opcode, row_idx as int),
                ..old(self)@
            }),
    {
        broadcast use lemma_felt_small;

        let bits: [Felt; 7] = [
            bit(opcode, 0),
            bit(opcode, 1),
            bit(opcode, 2),
            bit(opcode, 3),
            bit(opcode, 4),
            bit(opcode, 5),
            bit(opcode, 6),
        ];
        assert(bits@ =~= Seq::new(7, |i: int| felt(op_bit(opcode, i))));
        self.fragment.write_cells(DECODER_TRACE_OFFSET + OP_BITS_OFFSET, row_idx, &bits);

        let extra: [Felt; 2] = [
            bits[6].mul(Felt::one().sub(bits[5])).mul(bits[4]),
            bits[6].mul(bits[5]),
        ];
        proof {
            let (b4, b5, b6) = (op_bit(opcode, 4), op_bit(opcode, 5), op_bit(opcode, 6));
            assert((0 <= b6 * (1 - b5) <= 1) && (0 <= b6 * b5 <= 1)) by (nonlinear_arith)
                requires
                    b6 == 0 || b6 == 1,
                    b5 == 0 || b5 == 1,
            ;
            assert(extra@ =~= seq![felt(b6 * (1 - b5) * b4), felt(b6 * b5)]);
        }
        self.fragment.write_cells(
            DECODER_TRACE_OFFSET + OP_BITS_EXTRA_COLS_OFFSET,
            row_idx,
            &extra,
        );
    }

    fn populate_decoder_trace_columns(&mut self, row_idx: usize, row: &DecoderRow)
        requires
            old(self)@.columns.len() == CORE_TRACE_WIDTH,
            forall|c: int|
                0 <= c < CORE_TRACE_WIDTH ==> row_idx < (#[trigger] old(self)@.columns[c]).len(),
        ensures
            final(self)@ == (GeneratorModel {
                columns: with_cells(
                    old(self)@.columns,
                    DECODER_TRACE_OFFSET as int,
                    row_idx as int,
                    decoder_cells(*row),
                ),
                ..old(self)@
            }),
    {
        let ghost before = self@.columns;
        let addr: [Felt; 1] = [row.addr];
        self.fragment.write_cells(DECODER_TRACE_OFFSET, row_idx, &addr);
        self.append_opcode(row.op_code, row_idx);
        let (first, second) = row.hasher_state;
        let hasher: [Felt; 8] = [
            first.e0,
            first.e1,
            first.e2,
            first.e3,
            second.e0,
            second.e1,
            second.e2,
            second.e3,
        ];
        self.fragment.write_cells(DECODER_TRACE_OFFSET + HASHER_STATE_OFFSET, row_idx, &hasher);
        let (flag0, flag1, flag2) = row.batch_flags;
        let span: [Felt; 6] = [row.in_span, row.group_count, row.op_idx, flag0, flag1, flag2];
        self.fragment.write_cells(DECODER_TRACE_OFFSET + IN_SPAN_COL_IDX, row_idx, &span);
        proof {
            let expected = with_cells(
                before,
                DECODER_TRACE_OFFSET as int,
                row_idx as int,
                decoder_cells(*row),
            );
            assert forall|c: int| 0 <= c < CORE_TRACE_WIDTH implies #[trigger] self@.columns[c]
                == expected[c] by {
            }
            assert(self@.columns =~= expected);
        }
    }

    fn populate_system_trace_columns(&mut self, row_idx: usize)
        requires
            old(self)@.columns.len() == CORE_TRACE_WIDTH,
            forall|c: int|
                0 <= c < CORE_TRACE_WIDTH ==> row_idx < (#[trigger] old(self)@.columns[c]).len(),
            old(self)@.context.system.clk < u32::MAX,
        ensures
            final(self)@ == (GeneratorModel {
                columns: with_buffered(
                    old(self)@.columns,
                    0,
                    row_idx as int,
                    old(self)@.system_rows,
                ),
                system_rows: Some(system_cells(old(self)@.context.system)),
                ..old(self)@
            }),
    {
        if let Some(cells) = self.system_rows {
            self.fragment.write_cells(0, row_idx, &cells);
        }
        let system = self.context.state.system;
        let cells: [Felt; 8] = [
            Felt::new(system.clk as u64 + 1),
            system.fmp,
            system.ctx.to_felt(),
            Felt::from_bool(system.in_syscall),
            system.fn_hash.e0,
            system.fn_hash.e1,
            system.fn_hash.e2,
            system.fn_hash.e3,
        ];
        assert(cells@ =~= system_cells(system));
        self.system_rows = Some(cells);
    }

    fn populate_stack_trace_columns(&mut self, row_idx: usize)
        requires
            old(self)@.columns.len() == CORE_TRACE_WIDTH,
            forall|c: int|
                0 <= c < CORE_TRACE_WIDTH ==> row_idx < (#[trigger] old(self)@.columns[c]).len(),
            old(self)@.context.stack.depth >= MIN_STACK_DEPTH,
        ensures
            final(self)@ == (GeneratorModel {
                columns: with_buffered(
                    old(self)@.columns,
                    STACK_TRACE_OFFSET as int,
                    row_idx as int,
                    old(self)@.stack_rows,
                ),
                stack_rows: Some(stack_cells(old(self)@.context.stack)),
                ..old(self)@
            }),
    {
        if let Some(cells) = self.stack_rows {
            self.fragment.write_cells(STACK_TRACE_OFFSET, row_idx, &cells);
        }
        let ghost stack = self@.context.stack;
        let mut cells: [Felt; 19] = [Felt::zero();19];
        for i in 0..MIN_STACK_DEPTH
            invariant
                stack == self@.context.stack,
                forall|j: int| 0 <= j < i ==> #[trigger] cells@[j] == stack.item(j),
        {
            cells[i] = self.get(i);
        }
        cells[16] = Felt::new(self.context.state.stack.stack_depth() as u64);
        cells[17] = self.context.state.stack.overflow_addr();
        cells[18] = self.context.state.stack.overflow_helper();
        assert(cells@ =~= stack_cells(stack));
        self.stack_rows = Some(cells);
    }

    /// Writes the current row and advances the clock.
    pub fn add_row(&mut self, row: DecoderRow) -> (r: ControlFlow<()>)
        requires
            old(self)@.well_formed(),
            row_added(old(self)@, row) !is Panic,
        ensures
            came_to(row_added(old(self)@, row), r, final(self)@),
            final(self)@.well_formed(),
    {
        proof {
            reveal(row_added);
        }
        let row_idx = self.num_rows_built();
        self.populate_decoder_trace_columns(row_idx, &row);
        self.populate_system_trace_columns(row_idx);
        self.populate_stack_trace_columns(row_idx);
        self.increment_clk()
    }

    /// Writes the row that starts a join.
    pub fn add_join_start_trace_row(&mut self, node: &JoinNode, forest: &MastForest) -> (r:
        ControlFlow<()>)
        requires
            old(self)@.well_formed(),
            join_row(old(self)@, *node, *forest) !is Panic,
        ensures
            came_to(join_row(old(self)@, *node, *forest), r, final(self)@),
            final(self)@.well_formed(),
    {
        let first = forest.get_node_by_id(node.first).unwrap().digest();
        let second = forest.get_node_by_id(node.second).unwrap().digest();
        self.add_row(
            new_control_row(self.context.state.decoder.parent_addr, OPCODE_JOIN, first, second),
        )
    }

    /// Writes the row that starts a split.
    pub fn add_split_start_trace_row(&mut self, node: &SplitNode, forest: &MastForest) -> (r:
        ControlFlow<()>)
        requires
            old(self)@.well_formed(),
            split_row(old(self)@, *node, *forest) !is Panic,
        ensures
            came_to(split_row(old(self)@, *node, *forest), r, final(self)@),
            final(self)@.well_formed(),
    {
        let on_true = forest.get_node_by_id(node.on_true).unwrap().digest();
        let on_false = forest.get_node_by_id(node.on_false).unwrap().digest();
        self.add_row(
            new_control_row(
                self.context.state.decoder.parent_addr,
                OPCODE_SPLIT,
                on_true,
                on_false,
            ),
        )
    }

    /// Writes the row that starts a loop.
    pub fn add_loop_start_trace_row(&mut self, node: &LoopNode, forest: &MastForest) -> (r:
        ControlFlow<()>)
        requires
            old(self)@.well_formed(),
            loop_row(old(self)@, *node, *forest) !is Panic,
        ensures
            came_to(loop_row(old(self)@, *node, *forest), r, final(self)@),
            final(self)@.well_formed(),
    {
        let body = forest.get_node_by_id(node.body).unwrap().digest();
        self.add_row(
            new_control_row(
                self.context.state.decoder.parent_addr,
                OPCODE_LOOP,
                body,
                Word::empty(),
            ),
        )
    }

    /// Writes the row that repeats the body of a loop.
    pub fn add_loop_repeat_trace_row(&mut self, node: &LoopNode, forest: &MastForest) -> (r:
        ControlFlow<()>)
        requires
            old(self)@.well_formed(),
            repeat_row(old(self)@, *node, *forest) !is Panic,
        ensures
            came_to(repeat_row(old(self)@, *node, *forest), r, final(self)@),
            final(self)@.well_formed(),
    {
        let body = forest.get_node_by_id(node.body).unwrap().digest();
        self.add_row(
            new_control_row(
                self.context.state.decoder.current_addr,
                OPCODE_REPEAT,
                body,
                Word { e0: Felt::one(), ..Word::empty() },
            ),
        )
    }

    /// Writes the row that starts a call or a syscall.
    pub fn add_call_start_trace_row(&mut self, node: &CallNode, forest: &MastForest) -> (r:
        ControlFlow<()>)
        requires
            old(self)@.well_formed(),
            call_row(old(self)@, *node, *forest) !is Panic,
        ensures
            came_to(call_row(old(self)@, *node, *forest), r, final(self)@),
            final(self)@.well_formed(),
    {
        let callee = forest.get_node_by_id(node.callee).unwrap().digest();
        let op_code: u8 = if node.is_syscall {
            OPCODE_SYSCALL
        } else {
            OPCODE_CALL
        };
        self.add_row(
            new_control_row(
                self.context.state.decoder.parent_addr,
                op_code,
                callee,
                Word::empty(),
            ),
        )
    }

    /// Writes the row that starts a dynamic execution in the same context.
    pub fn add_dyn_start_trace_row(&mut self, callee_hash: Word) -> (r: ControlFlow<()>)
        requires
            old(self)@.well_formed(),
            dyn_row(old(self)@, callee_hash) !is Panic,
        ensures
            came_to(dyn_row(old(self)@, callee_hash), r, final(self)@),
            final(self)@.well_formed(),
    {
        self.add_row(
            new_control_row(
                self.context.state.decoder.parent_addr,
                OPCODE_DYN,
                callee_hash,
                Word::empty(),
            ),
        )
    }

    /// Writes the row that starts a dynamic execution in a new context.
    pub fn add_dyncall_start_trace_row(
        &mut self,
        callee_hash: Word,
        ctx_info: ExecutionContextInfo,
    ) -> (r: ControlFlow<()>)
        requires
            old(self)@.well_formed(),
            dyncall_row(old(self)@, callee_hash, ctx_info) !is Panic,
        ensures
            came_to(dyncall_row(old(self)@, callee_hash, ctx_info), r, final(self)@),
            final(self)@.well_formed(),
    {
        let second = Word {
            e0: Felt::new(ctx_info.parent_stack_depth as u64),
            e1: ctx_info.parent_next_overflow_addr,
            ..Word::empty()
        };
        self.add_row(
            new_control_row(
                self.context.state.decoder.parent_addr,
                OPCODE_DYNCALL,
                callee_hash,
                second,
            ),
        )
    }

    /// Writes the row that ends the node with the given digest, flags and address.
    pub fn add_end_trace_row_impl(
        &mut self,
        node_digest: Word,
        flags: NodeFlags,
        ended_node_addr: Felt,
    ) -> (r: ControlFlow<()>)
        requires
            old(self)@.well_formed(),
            end_row(old(self)@, node_digest, flags, ended_node_addr) !is Panic,
        ensures
            came_to(end_row(old(self)@, node_digest, flags, ended_node_addr), r, final(self)@),
            final(self)@.well_formed(),
    {
        self.add_row(
            new_control_row(
                ended_node_addr,
                OPCODE_END,
                node_digest,
                flags.to_hasher_state_second_word(),
            ),
        )
    }

    /// Ends a node and writes the row that says so.
    pub fn add_end_trace_row(&mut self, node_digest: Word) -> (r: ControlFlow<()>)
        requires
            old(self)@.well_formed(),
            end_added(old(self)@, node_digest) !is Panic,
        ensures
            came_to(end_added(old(self)@, node_digest), r, final(self)@),
            final(self)@.well_formed(),
    {
        let (ended_node_addr, flags) = self.update_decoder_state_on_node_end();
        self.add_end_trace_row_impl(node_digest, flags, ended_node_addr)
    }

    /// Ends a basic block and writes the row that says so.
    pub fn add_span_end_trace_row(&mut self, basic_block_node: &BasicBlockNode) -> (r: ControlFlow<
        (),
    >)
        requires
            old(self)@.well_formed(),
            span_end_added(old(self)@, basic_block_node.spec_digest()) !is Panic,
        ensures
            came_to(span_end_added(old(self)@, basic_block_node.spec_digest()), r, final(self)@),
            final(self)@.well_formed(),
    {
        match self.add_end_trace_row(basic_block_node.digest()) {
            ControlFlow::Continue(()) => {
                self.span_context = None;
                ControlFlow::Continue(())
            },
            ControlFlow::Break(()) => ControlFlow::Break(()),
        }
    }

    fn add_batch_trace_row(
        &mut self,
        addr: Felt,
        op_code: u8,
        batch: &OpBatch,
        group_count: Felt,
    ) -> (r: ControlFlow<()>)
        requires
            old(self)@.well_formed(),
            batch_row(old(self)@, addr, op_code, batch@, group_count) !is Panic,
        ensures
            came_to(batch_row(old(self)@, addr, op_code, batch@, group_count), r, final(self)@),
            final(self)@.well_formed(),
    {
        let (first, second) = batch_words(batch.groups());
        let batch_flags = get_op_batch_flags(group_count);
        self.add_row(
            DecoderRow {
                group_count,
                batch_flags,
                ..new_control_row(addr, op_code, first, second)
            },
        )
    }

    /// Writes the row that starts a basic block.
    pub fn add_span_start_trace_row(&mut self, first_op_batch: &OpBatch, num_groups: Felt) -> (r:
        ControlFlow<()>)
        requires
            old(self)@.well_formed(),
            span_row(old(self)@, first_op_batch@, num_groups) !is Panic,
        ensures
            came_to(span_row(old(self)@, first_op_batch@, num_groups), r, final(self)@),
            final(self)@.well_formed(),
    {
        self.add_batch_trace_row(
            self.context.state.decoder.parent_addr,
            OPCODE_SPAN,
            first_op_batch,
            num_groups,
        )
    }

    /// Writes the row that starts a further batch of a basic block, and starts the batch.
    pub fn respan(&mut self, op_batch: &OpBatch) -> (r: ControlFlow<()>)
        requires
            old(self)@.well_formed(),
            respanned(old(self)@, op_batch@) !is Panic,
        ensures
            came_to(respanned(old(self)@, op_batch@), r, final(self)@),
            final(self)@.well_formed(),
    {
        let span = self.span_context.unwrap();
        let current_addr = self.context.state.decoder.current_addr;
        match self.add_batch_trace_row(
            current_addr,
            OPCODE_RESPAN,
            op_batch,
            span.num_groups_left,
        ) {
            ControlFlow::Continue(()) => {},
            ControlFlow::Break(()) => {
                return ControlFlow::Break(());
            },
        }
        self.context.state.decoder.current_addr = current_addr.add(Felt::new(HASH_CYCLE_LEN));
        proof {
            lemma_felt_small(HASH_CYCLE_LEN as int);
            lemma_felt_small(1);
        }
        self.span_context = Some(
            BasicBlockContext {
                group_ops_left: op_batch.groups()[0],
                num_groups_left: span.num_groups_left.sub(Felt::one()),
            },
        );
        ControlFlow::Continue(())
    }

    /// Writes the row of an operation of a basic block.
    pub fn add_operation_trace_row(
        &mut self,
        operation: Operation,
        op_idx_in_group: usize,
        user_op_helpers: Option<[Felt; 6]>,
    ) -> (r: ControlFlow<()>)
        requires
            old(self)@.well_formed(),
            operation_row(
                old(self)@,
                operation,
                op_idx_in_group as int,
                row_view(user_op_helpers),
            ) !is Panic,
        ensures
            came_to(
                operation_row(
                    old(self)@,
                    operation,
                    op_idx_in_group as int,
                    row_view(user_op_helpers),
                ),
                r,
                final(self)@,
            ),
            final(self)@.well_formed(),
    {
        broadcast use lemma_felt_small;

        let span = self.span_context.unwrap();
        let left = Felt::new(span.group_ops_left.as_int() / 0x80);
        let h: [Felt; 6] = match user_op_helpers {
            Some(helpers) => helpers,
            None => [Felt::zero();6],
        };
        let num_groups_left = if operation.imm_value.is_some() {
            span.num_groups_left.sub(Felt::one())
        } else {
            span.num_groups_left
        };
        self.span_context = Some(BasicBlockContext { group_ops_left: left, num_groups_left });
        let zero = Felt::zero();
        self.add_row(
            DecoderRow {
                addr: self.context.state.decoder.current_addr,
                op_code: operation.op_code,
                hasher_state: (
                    Word {
                        e0: left,
                        e1: self.context.state.decoder.parent_addr,
                        e2: h[0],
                        e3: h[1],
                    },
                    Word { e0: h[2], e1: h[3], e2: h[4], e3: h[5] },
                ),
                in_span: Felt::one(),
                group_count: span.num_groups_left,
                op_idx: Felt::new(op_idx_in_group as u64),
                batch_flags: (zero, zero, zero),
            },
        )
    }

    /// Starts a node: its address and that of its parent are the next recorded ones.
    pub fn update_decoder_state_on_node_start(&mut self)
        requires
            node_started(old(self)@) is Some,
        ensures
            Some(final(self)@) == node_started(old(self)@),
            old(self)@.well_formed() ==> final(self)@.well_formed(),
    {
        let current_addr = self.context.replay.hasher.replay_block_address();
        let parent_addr = self.context.replay.block_stack.replay_node_start();
        self.context.state.decoder.current_addr = current_addr;
        self.context.state.decoder.parent_addr = parent_addr;
    }

    /// Ends a node: returns to the next recorded state. The result is the address and the flags of
    /// the node that ends.
    pub fn update_decoder_state_on_node_end(&mut self) -> (r: (Felt, NodeFlags))
        requires
            node_ended(old(self)@) is Some,
        ensures
            Some((r.0, r.1, final(self)@)) == node_ended(old(self)@),
            old(self)@.well_formed() ==> final(self)@.well_formed(),
    {
        let node_end_data = self.context.replay.block_stack.replay_node_end();
        self.context.state.decoder.current_addr = node_end_data.prev_addr;
        self.context.state.decoder.parent_addr = node_end_data.prev_parent_addr;
        (node_end_data.ended_node_addr, node_end_data.flags)
    }

    /// Starts the decoding of a group, once nothing is left of the group before.
    pub fn start_op_group(&mut self, op_group: Felt)
        requires
            group_started(old(self)@, op_group) is Continue,
        ensures
            Flow::Continue(final(self)@) == group_started(old(self)@, op_group),
            old(self)@.well_formed() ==> final(self)@.well_formed(),
    {
        broadcast use lemma_felt_small;

        let span = self.span_context.unwrap();
        self.span_context = Some(
            BasicBlockContext {
                group_ops_left: op_group,
                num_groups_left: span.num_groups_left.sub(Felt::one()),
            },
        );
    }
}

} // verus!
