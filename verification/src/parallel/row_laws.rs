//! What holds of the rows of the trace.

use crate::felt::felt;
use crate::felt::lemma_felt_small;
use crate::felt::Felt;
use crate::layout::CHIPLETS_WIDTH;
use crate::layout::CLK_COL_IDX;
use crate::layout::CORE_TRACE_WIDTH;
use crate::layout::DECODER_TRACE_OFFSET;
use crate::layout::FMP_COL_IDX;
use crate::layout::H0_COL_IDX;
use crate::layout::HASHER_STATE_OFFSET;
use crate::layout::MIN_TRACE_LEN;
use crate::layout::NUM_OP_BITS;
use crate::layout::NUM_RAND_ROWS;
use crate::layout::OPCODE_HALT;
use crate::layout::OP_BITS_EXTRA_COLS_OFFSET;
use crate::layout::OP_BITS_OFFSET;
use crate::layout::PADDED_TRACE_WIDTH;
use crate::layout::RANGE_CHECK_TRACE_WIDTH;
use crate::layout::STACK_TRACE_OFFSET;
use crate::layout::TRACE_WIDTH;
use crate::parallel::combine::all_rectangular;
use crate::parallel::combine::combined;
use crate::parallel::combine::joined_column;
use crate::parallel::combine::lemma_joined_len;
use crate::parallel::combine::padding_cell;
use crate::parallel::combine::total_rows;
use crate::parallel::fragment::rectangular;
use crate::parallel::main_trace::assembled;
use crate::parallel::main_trace::larger;
use crate::parallel::main_trace::main_trace_len;
use crate::parallel::model::decoder_cells;
use crate::parallel::model::op_bit;
use crate::parallel::model::row_added;
use crate::parallel::model::stack_cells;
use crate::parallel::model::system_cells;
use crate::parallel::model::DecoderRow;
use crate::parallel::model::Flow;
use crate::parallel::model::GeneratorModel;
use crate::pow2::law_next_pow2;
use crate::trace_state::ContextModel;
use vstd::arithmetic::power2::lemma2_to64;
use vstd::arithmetic::power2::pow2;
use vstd::prelude::*;

verus! {

// A ROW

/// The bits in a row of the decoder make up the code of the operation, and the two extra columns
/// are the products of bits that tell groups of operations apart: bit 6, the complement of bit 5
/// and bit 4; and bits 6 and 5.
pub proof fn law_op_bits(row: DecoderRow)
    requires
        row.op_code < 0x80,
    ensures
        ({
            let cells = decoder_cells(row);
            let bit = |i: int| cells[OP_BITS_OFFSET + i]@ as int;
            &&& cells.len() == 24
            &&& forall|i: int| 0 <= i < NUM_OP_BITS ==> #[trigger] bit(i) == 0 || bit(i) == 1
            &&& bit(0) + 2 * bit(1) + 4 * bit(2) + 8 * bit(3) + 16 * bit(4) + 32 * bit(5) + 64
                * bit(6) == row.op_code
            &&& cells[OP_BITS_EXTRA_COLS_OFFSET as int]@ == bit(6) * (1 - bit(5)) * bit(4)
            &&& cells[OP_BITS_EXTRA_COLS_OFFSET + 1]@ == bit(6) * bit(5)
        }),
{
    let c = row.op_code;
    let cells = decoder_cells(row);
    let bit = |i: int| cells[OP_BITS_OFFSET + i]@ as int;
    assert(((c >> 0) & 1) <= 1 && ((c >> 1) & 1) <= 1 && ((c >> 2) & 1) <= 1 && ((c >> 3) & 1) <= 1
        && ((c >> 4) & 1) <= 1 && ((c >> 5) & 1) <= 1 && ((c >> 6) & 1) <= 1 && ((c >> 0) & 1) + 2
        * ((c >> 1) & 1) + 4 * ((c >> 2) & 1) + 8 * ((c >> 3) & 1) + 16 * ((c >> 4) & 1) + 32 * ((c
        >> 5) & 1) + 64 * ((c >> 6) & 1) == c) by (bit_vector)
        requires
            c < 0x80,
    ;
    lemma_felt_small(op_bit(c, 0));
    lemma_felt_small(op_bit(c, 1));
    lemma_felt_small(op_bit(c, 2));
    lemma_felt_small(op_bit(c, 3));
    lemma_felt_small(op_bit(c, 4));
    lemma_felt_small(op_bit(c, 5));
    lemma_felt_small(op_bit(c, 6));
    let (b4, b5, b6) = (op_bit(c, 4), op_bit(c, 5), op_bit(c, 6));
    assert(0 <= b6 * (1 - b5) * b4 <= 1 && 0 <= b6 * b5 <= 1) by (nonlinear_arith)
        requires
            b4 == 0 || b4 == 1,
            b5 == 0 || b5 == 1,
            b6 == 0 || b6 == 1,
    ;
    lemma_felt_small(b6 * (1 - b5) * b4);
    lemma_felt_small(b6 * b5);
    assert(bit(0) == op_bit(c, 0));
    assert(bit(1) == op_bit(c, 1));
    assert(bit(2) == op_bit(c, 2));
    assert(bit(3) == op_bit(c, 3));
    assert(bit(4) == b4);
    assert(bit(5) == b5);
    assert(bit(6) == b6);
    assert forall|i: int| 0 <= i < NUM_OP_BITS implies #[trigger] bit(i) == 0 || bit(i) == 1 by {
        assert(i == 0 || i == 1 || i == 2 || i == 3 || i == 4 || i == 5 || i == 6);
    }
}

/// Whether two sets of columns differ in one row at most.
pub open spec fn same_but_row(a: Seq<Seq<Felt>>, b: Seq<Seq<Felt>>, row: int) -> bool {
    &&& a.len() == b.len()
    &&& forall|c: int| 0 <= c < a.len() ==> (#[trigger] a[c]).len() == b[c].len()
    &&& forall|c: int, i: int|
        0 <= c < a.len() && 0 <= i < a[c].len() && i != row ==> #[trigger] a[c][i] == b[c][i]
}

/// A row that is added leaves all other rows alone. Its decoder columns show the row, its system
/// and stack columns the state in which the row before left them, if there was one; and the state
/// that the next row will show is that of the processor now. The clock advances by one, and
/// nothing else of the state of the processor or of the recordings changes.
pub proof fn law_row_added(s: GeneratorModel, row: DecoderRow)
    requires
        s.well_formed(),
        row_added(s, row) !is Panic,
    ensures
        ({
            let t = match row_added(s, row) {
                Flow::Continue(t) => t,
                Flow::Break(t) => t,
                Flow::Panic => s,
            };
            let at = s.rows_built();
            &&& same_but_row(s.columns, t.columns, at)
            &&& forall|d: int|
                0 <= d < 24 ==> #[trigger] t.columns[DECODER_TRACE_OFFSET + d][at]
                    == decoder_cells(row)[d]
            &&& s.system_rows matches Some(cells) ==> forall|c: int|
                0 <= c < 8 ==> #[trigger] t.columns[c][at] == cells[c]
            &&& s.stack_rows matches Some(cells) ==> forall|c: int|
                0 <= c < 19 ==> #[trigger] t.columns[STACK_TRACE_OFFSET + c][at] == cells[c]
            &&& t.system_rows == Some(system_cells(s.context.system))
            &&& t.stack_rows == Some(stack_cells(s.context.stack))
            &&& t.context.system.clk == s.context.system.clk + 1
            &&& t.context == (ContextModel {
                system: t.context.system,
                ..s.context
            })
            &&& t.rows_built() == at + 1
            &&& row_added(s, row) is Break <==> at + 1 >= s.fragment_size
        }),
{
    reveal(row_added);
}

// FRAGMENTS

/// The rows of the fragments come one fragment after the other: a row of a fragment is found
/// behind all rows of the fragments before.
pub proof fn law_rows_in_order(fragments: Seq<Seq<Seq<Felt>>>, k: int, c: int, i: int)
    requires
        all_rectangular(fragments),
        0 <= k < fragments.len(),
        0 <= c < CORE_TRACE_WIDTH,
        0 <= i < fragments[k][0].len(),
    ensures
        0 <= total_rows(fragments.take(k)) + i < joined_column(fragments, c).len(),
        joined_column(fragments, c)[total_rows(fragments.take(k)) + i] == fragments[k][c][i],
    decreases fragments.len(),
{
    let n = fragments.len() - 1;
    let before = fragments.drop_last();
    assert(rectangular(fragments[n], CORE_TRACE_WIDTH as int, fragments[n][0].len() as int));
    assert(rectangular(fragments[k], CORE_TRACE_WIDTH as int, fragments[k][0].len() as int));
    assert forall|j: int| 0 <= j < before.len() implies rectangular(
        #[trigger] before[j],
        CORE_TRACE_WIDTH as int,
        before[j][0].len() as int,
    ) by {
        assert(before[j] == fragments[j]);
    }
    lemma_joined_len(before, c);
    assert(fragments.last()[c].len() == fragments[n][0].len());
    if k == n {
        assert(fragments.take(k) =~= before);
    } else {
        law_rows_in_order(before, k, c, i);
        assert(before.take(k) =~= fragments.take(k));
    }
}

/// Joining the fragments and padding keeps the rows of the program, but for the overflow helpers,
/// which are inverted.
pub proof fn law_padding_keeps_rows(fragments: Seq<Seq<Seq<Felt>>>, rows: int, c: int, i: int)
    requires
        all_rectangular(fragments),
        total_rows(fragments) <= rows,
        0 <= c < CORE_TRACE_WIDTH,
        c != STACK_TRACE_OFFSET + H0_COL_IDX,
        0 <= i < total_rows(fragments),
    ensures
        combined(fragments, rows)[c][i] == joined_column(fragments, c)[i],
{
    lemma_joined_len(fragments, c);
}

/// After the program has ended, the clock goes on, the decoder shows HALT and the same digest, the
/// free memory pointer and the stack stay, and the rest of the system columns is zero.
pub proof fn law_padding_rows(fragments: Seq<Seq<Seq<Felt>>>, rows: int, i: int)
    requires
        all_rectangular(fragments),
        0 < total_rows(fragments) <= i < rows,
        rows <= 0x1_0000_0000,
    ensures
        ({
            let columns = combined(fragments, rows);
            let last = total_rows(fragments) - 1;
            &&& columns[CLK_COL_IDX as int][i]@ == i
            &&& columns[FMP_COL_IDX as int][i] == columns[FMP_COL_IDX as int][last]
            &&& forall|c: int| 2 <= c < 8 ==> (#[trigger] columns[c])[i]@ == 0
            &&& forall|d: int|
                0 <= d < NUM_OP_BITS ==> #[trigger] columns[DECODER_TRACE_OFFSET + OP_BITS_OFFSET
                    + d][i] == felt(op_bit(OPCODE_HALT, d))
            &&& forall|d: int|
                0 <= d < 4 ==> #[trigger] columns[DECODER_TRACE_OFFSET + HASHER_STATE_OFFSET
                    + d][i] == columns[DECODER_TRACE_OFFSET + HASHER_STATE_OFFSET + d][last]
            &&& forall|d: int|
                0 <= d < 18 ==> #[trigger] columns[STACK_TRACE_OFFSET + d][i]
                    == columns[STACK_TRACE_OFFSET + d][last]
        }),
{
    assert forall|c: int| 0 <= c < CORE_TRACE_WIDTH implies #[trigger] joined_column(
        fragments,
        c,
    ).len() == total_rows(fragments) by {
        lemma_joined_len(fragments, c);
    }
    lemma_felt_small(i);
    lemma_felt_small(0);
    let columns = combined(fragments, rows);
    assert forall|c: int| 0 <= c < CORE_TRACE_WIDTH && c != STACK_TRACE_OFFSET + H0_COL_IDX implies (
    #[trigger] columns[c])[i] == padding_cell(
        c,
        i,
        columns[c][total_rows(fragments) - 1],
    ) by {
        assert(joined_column(fragments, c).len() == total_rows(fragments));
    }
}

// MAIN TRACE

/// The main trace has a power of two of rows, no fewer than the least number there may be, with
/// room for the rows of every part and for the random rows; and no smaller power of two would do.
pub proof fn law_main_trace_len(core: int, range: int, chiplets: int)
    ensures
        exists|k: nat| #[trigger] pow2(k) == main_trace_len(core, range, chiplets),
        main_trace_len(core, range, chiplets) >= core + NUM_RAND_ROWS,
        main_trace_len(core, range, chiplets) >= range + NUM_RAND_ROWS,
        main_trace_len(core, range, chiplets) >= chiplets + NUM_RAND_ROWS,
        main_trace_len(core, range, chiplets) >= MIN_TRACE_LEN,
        forall|k: nat|
            {
                &&& #[trigger] pow2(k) >= core + NUM_RAND_ROWS
                &&& pow2(k) >= range + NUM_RAND_ROWS
                &&& pow2(k) >= chiplets + NUM_RAND_ROWS
                &&& pow2(k) >= MIN_TRACE_LEN
            } ==> main_trace_len(core, range, chiplets) <= pow2(k),
{
    lemma2_to64();
    assert(pow2(6) == MIN_TRACE_LEN);
    law_next_pow2(larger(larger(range, core), chiplets) + NUM_RAND_ROWS);
}

/// Every column of the main trace shows what the part it belongs to gives, in all rows but the
/// random ones: first the columns of the core trace, then those of the range checker and those of
/// the chiplets, then zeros.
pub proof fn law_columns_in_order(
    core: Seq<Seq<Felt>>,
    range: Seq<Seq<Felt>>,
    chiplets: Seq<Seq<Felt>>,
    rows: int,
    draws: Seq<u64>,
    c: int,
    i: int,
)
    requires
        core.len() == CORE_TRACE_WIDTH,
        range.len() == RANGE_CHECK_TRACE_WIDTH,
        chiplets.len() == CHIPLETS_WIDTH,
        0 <= c < PADDED_TRACE_WIDTH,
        0 <= i < rows,
    ensures
        assembled(core, range, chiplets, rows, draws).len() == PADDED_TRACE_WIDTH,
        assembled(core, range, chiplets, rows, draws)[c].len() == rows,
        assembled(core, range, chiplets, rows, draws)[c][i] == if i == rows - 1 {
            felt(draws[c] as int)
        } else if c < CORE_TRACE_WIDTH {
            core[c][i]
        } else if c < CORE_TRACE_WIDTH + RANGE_CHECK_TRACE_WIDTH {
            range[c - CORE_TRACE_WIDTH][i]
        } else if c < TRACE_WIDTH {
            chiplets[c - CORE_TRACE_WIDTH - RANGE_CHECK_TRACE_WIDTH][i]
        } else {
            felt(0)
        },
{
}

} // verus!
