//! Fragments joined to the columns of the core trace.

use crate::felt::felt;
use crate::felt::inverse_of;
use crate::felt::invert_all;
use crate::felt::is_inverse;
use crate::felt::lemma_inverse_of;
use crate::felt::Felt;
use crate::layout::halt_op_code;
use crate::layout::CLK_COL_IDX;
use crate::layout::CORE_TRACE_WIDTH;
use crate::layout::DECODER_TRACE_OFFSET;
use crate::layout::FMP_COL_IDX;
use crate::layout::H0_COL_IDX;
use crate::layout::HASHER_STATE_OFFSET;
use crate::layout::NUM_OP_BITS;
use crate::layout::NUM_RAND_ROWS;
use crate::layout::OPCODE_HALT;
use crate::layout::OP_BITS_EXTRA_COLS_OFFSET;
use crate::layout::OP_BITS_OFFSET;
use crate::layout::STACK_TRACE_OFFSET;
use crate::layout::SYS_TRACE_WIDTH;
use crate::parallel::fragment::column_values;
use crate::parallel::fragment::rectangular;
use crate::parallel::fragment::CoreTraceFragment;
use crate::parallel::model::op_bit;
use vstd::prelude::*;

verus! {

// PADDING

/// What the decoder columns show once the program has ended: the bits of HALT and one of the
/// products of its bits, the digest of the program as the last row shows it, and zeros. Columns
/// are counted from the first decoder column.
pub open spec fn decoder_padding(d: int, last: Felt) -> Felt {
    if OP_BITS_OFFSET <= d < OP_BITS_OFFSET + NUM_OP_BITS {
        felt(op_bit(OPCODE_HALT, d - OP_BITS_OFFSET))
    } else if HASHER_STATE_OFFSET <= d < HASHER_STATE_OFFSET + 4 {
        last
    } else if d == OP_BITS_EXTRA_COLS_OFFSET + 1 {
        felt(1)
    } else {
        felt(0)
    }
}

/// What a column of the core trace shows in a row after the program has ended, given its last
/// value: the clock goes on, the free memory pointer and the stack stay, the other system
/// registers are those of the root context, and the decoder shows HALT.
pub open spec fn padding_cell(c: int, row: int, last: Felt) -> Felt {
    if c == CLK_COL_IDX {
        felt(row % 0x1_0000_0000)
    } else if c == FMP_COL_IDX {
        last
    } else if c < SYS_TRACE_WIDTH {
        felt(0)
    } else if c < STACK_TRACE_OFFSET {
        decoder_padding(c - DECODER_TRACE_OFFSET, last)
    } else {
        last
    }
}

/// A column of the core trace, extended to the given number of rows.
pub open spec fn padded_column(column: Seq<Felt>, c: int, rows: int) -> Seq<Felt> {
    Seq::new(
        rows as nat,
        |i: int|
            if i < column.len() {
                column[i]
            } else {
                padding_cell(c, i, column.last())
            },
    )
}

/// The columns of the core trace, extended to the given number of rows.
pub open spec fn padded(columns: Seq<Seq<Felt>>, rows: int) -> Seq<Seq<Felt>> {
    Seq::new(columns.len(), |c: int| padded_column(columns[c], c, rows))
}

/// What a decoder column shows once the program has ended, given its last value.
pub fn decoder_padding_value(d: usize, last: Felt) -> (r: Felt)
    ensures
        r == decoder_padding(d as int, last),
{
    if OP_BITS_OFFSET <= d && d < OP_BITS_OFFSET + NUM_OP_BITS {
        let halt_opcode: u8 = halt_op_code();
        let bit_idx: u8 = (d - OP_BITS_OFFSET) as u8;
        Felt::new(((halt_opcode >> bit_idx) & 1) as u64)
    } else if HASHER_STATE_OFFSET <= d && d < HASHER_STATE_OFFSET + 4 {
        last
    } else if d == OP_BITS_EXTRA_COLS_OFFSET + 1 {
        Felt::one()
    } else {
        Felt::zero()
    }
}

fn padding_value(col: usize, row: usize, last: Felt) -> (r: Felt)
    ensures
        r == padding_cell(col as int, row as int, last),
{
    if col == CLK_COL_IDX {
        Felt::new(row as u64 % 0x1_0000_0000)
    } else if col == FMP_COL_IDX {
        last
    } else if col < SYS_TRACE_WIDTH {
        Felt::zero()
    } else if col < STACK_TRACE_OFFSET {
        decoder_padding_value(col - DECODER_TRACE_OFFSET, last)
    } else {
        last
    }
}

/// Extends the columns of the core trace from the rows of the program to the length of the trace.
pub fn pad_trace_columns(
    trace_columns: &mut Vec<Vec<Felt>>,
    total_program_rows: usize,
    trace_len: usize,
)
    requires
        total_program_rows != 0,
        total_program_rows + NUM_RAND_ROWS - 1 <= trace_len,
        rectangular(
            column_values(old(trace_columns)@),
            CORE_TRACE_WIDTH as int,
            total_program_rows as int,
        ),
    ensures
        column_values(final(trace_columns)@) == padded(
            column_values(old(trace_columns)@),
            trace_len as int,
        ),
{
    let ghost before = column_values(trace_columns@);
    for c in 0..CORE_TRACE_WIDTH
        invariant
            total_program_rows != 0,
            total_program_rows <= trace_len,
            rectangular(before, CORE_TRACE_WIDTH as int, total_program_rows as int),
            trace_columns@.len() == CORE_TRACE_WIDTH,
            forall|d: int|
                0 <= d < CORE_TRACE_WIDTH ==> #[trigger] trace_columns@[d]@ == if d < c {
                    padded_column(before[d], d, trace_len as int)
                } else {
                    before[d]
                },
    {
        let ghost prev = trace_columns@;
        let ghost column = before[c as int];
        assert(trace_columns@[c as int]@ == column);
        let last = trace_columns[c][total_program_rows - 1];
        let mut padded_col: Vec<Felt> = Vec::new();
        std::mem::swap(&mut padded_col, &mut trace_columns[c]);
        assert(padded_col@ == column);
        for row in total_program_rows..trace_len
            invariant
                column.len() == total_program_rows,
                total_program_rows != 0,
                last == column.last(),
                padded_col@.len() == row,
                forall|i: int|
                    0 <= i < row ==> #[trigger] padded_col@[i] == if i < column.len() {
                        column[i]
                    } else {
                        padding_cell(c as int, i, last)
                    },
        {
            padded_col.push(padding_value(c, row, last));
        }
        assert(padded_col@ =~= padded_column(column, c as int, trace_len as int));
        trace_columns.set(c, padded_col);
        assert(forall|d: int|
            0 <= d < CORE_TRACE_WIDTH && d != c ==> trace_columns@[d] == prev[d]);
    }
    assert(column_values(trace_columns@) =~= padded(before, trace_len as int));
}

// COMBINATION

/// The contents of fragments.
pub open spec fn fragment_values(fragments: Seq<CoreTraceFragment>) -> Seq<Seq<Seq<Felt>>> {
    fragments.map_values(|f: CoreTraceFragment| f@)
}

/// The number of rows of all fragments.
pub open spec fn total_rows(fragments: Seq<Seq<Seq<Felt>>>) -> int
    decreases fragments.len(),
{
    if fragments.len() == 0 {
        0
    } else {
        total_rows(fragments.drop_last()) + fragments.last()[0].len()
    }
}

/// The rows of a column over all fragments, in order.
pub open spec fn joined_column(fragments: Seq<Seq<Seq<Felt>>>, c: int) -> Seq<Felt>
    decreases fragments.len(),
{
    if fragments.len() == 0 {
        Seq::empty()
    } else {
        joined_column(fragments.drop_last(), c) + fragments.last()[c]
    }
}

/// Whether every fragment has all columns of the core trace, with equally many rows.
pub open spec fn all_rectangular(fragments: Seq<Seq<Seq<Felt>>>) -> bool {
    forall|k: int|
        0 <= k < fragments.len() ==> rectangular(
            #[trigger] fragments[k],
            CORE_TRACE_WIDTH as int,
            fragments[k][0].len() as int,
        )
}

/// The columns of the core trace: the rows of the fragments in order, padding up to the given
/// number of rows, and the overflow helpers inverted.
pub open spec fn combined(fragments: Seq<Seq<Seq<Felt>>>, rows: int) -> Seq<Seq<Felt>> {
    Seq::new(
        CORE_TRACE_WIDTH as nat,
        |c: int|
            {
                let column = padded_column(joined_column(fragments, c), c, rows);
                if c == STACK_TRACE_OFFSET + H0_COL_IDX {
                    column.map_values(|e: Felt| inverse_of(e))
                } else {
                    column
                }
            },
    )
}

/// The rows of the first fragments are no more than those of all.
pub proof fn lemma_total_rows_prefix(fragments: Seq<Seq<Seq<Felt>>>, k: int)
    requires
        0 <= k <= fragments.len(),
    ensures
        0 <= total_rows(fragments.take(k)) <= total_rows(fragments),
    decreases fragments.len(),
{
    if k < fragments.len() {
        lemma_total_rows_prefix(fragments.drop_last(), k);
        assert(fragments.drop_last().take(k) =~= fragments.take(k));
    } else {
        assert(fragments.take(k) =~= fragments);
        if k > 0 {
            lemma_total_rows_prefix(fragments.drop_last(), k - 1);
        }
    }
}

/// One more fragment adds its rows.
proof fn lemma_joined_step(fragments: Seq<Seq<Seq<Felt>>>, k: int, c: int)
    requires
        0 <= k < fragments.len(),
    ensures
        joined_column(fragments.take(k + 1), c) == joined_column(fragments.take(k), c)
            + fragments[k][c],
        total_rows(fragments.take(k + 1)) == total_rows(fragments.take(k)) + fragments[k][0].len(),
{
    assert(fragments.take(k + 1).drop_last() =~= fragments.take(k));
    assert(fragments.take(k + 1).last() == fragments[k]);
}

/// Every joined column has the rows of all fragments.
pub proof fn lemma_joined_len(fragments: Seq<Seq<Seq<Felt>>>, c: int)
    requires
        all_rectangular(fragments),
        0 <= c < CORE_TRACE_WIDTH,
    ensures
        joined_column(fragments, c).len() == total_rows(fragments),
    decreases fragments.len(),
{
    if fragments.len() > 0 {
        let n = fragments.len() - 1;
        assert(rectangular(fragments[n], CORE_TRACE_WIDTH as int, fragments[n][0].len() as int));
        assert(fragments.last() == fragments[n]);
        assert(fragments.last()[c].len() == fragments[n][0].len());
        assert forall|k: int| 0 <= k < fragments.drop_last().len() implies rectangular(
            #[trigger] fragments.drop_last()[k],
            CORE_TRACE_WIDTH as int,
            fragments.drop_last()[k][0].len() as int,
        ) by {
            assert(fragments.drop_last()[k] == fragments[k]);
        }
        lemma_joined_len(fragments.drop_last(), c);
    }
}

/// Appends all rows of a column.
fn append_rows(column: &mut Vec<Felt>, rows: &Vec<Felt>)
    ensures
        final(column)@ == old(column)@ + rows@,
{
    let ghost before = column@;
    for i in 0..rows.len()
        invariant
            column@ == before + rows@.take(i as int),
    {
        column.push(rows[i]);
        assert(rows@.take(i as int + 1) =~= rows@.take(i as int).push(rows@[i as int]));
    }
    assert(rows@.take(rows@.len() as int) =~= rows@);
}

/// The number of rows of all fragments.
pub fn count_rows(fragments: &Vec<CoreTraceFragment>) -> (r: usize)
    requires
        all_rectangular(fragment_values(fragments@)),
        total_rows(fragment_values(fragments@)) <= usize::MAX,
    ensures
        r == total_rows(fragment_values(fragments@)),
{
    let ghost views = fragment_values(fragments@);
    let mut total: usize = 0;
    for k in 0..fragments.len()
        invariant
            views == fragment_values(fragments@),
            all_rectangular(views),
            total_rows(views) <= usize::MAX,
            total == total_rows(views.take(k as int)),
    {
        proof {
            lemma_joined_step(views, k as int, 0);
            lemma_total_rows_prefix(views, k + 1);
            assert(rectangular(
                views[k as int],
                CORE_TRACE_WIDTH as int,
                views[k as int][0].len() as int,
            ));
        }
        total = total + fragments[k].row_count();
    }
    assert(views.take(fragments@.len() as int) =~= views);
    total
}

/// Joins fragments to the columns of the core trace, of the given number of rows.
pub fn combine_fragments(fragments: Vec<CoreTraceFragment>, trace_len: usize) -> (r: Vec<Vec<Felt>>)
    requires
        fragments@.len() > 0,
        all_rectangular(fragment_values(fragments@)),
        0 < total_rows(fragment_values(fragments@)) <= trace_len,
    ensures
        column_values(r@) == combined(fragment_values(fragments@), trace_len as int),
        forall|i: int|
            0 <= i < trace_len ==> is_inverse(
                padded_column(
                    joined_column(
                        fragment_values(fragments@),
                        STACK_TRACE_OFFSET + H0_COL_IDX,
                    ),
                    STACK_TRACE_OFFSET + H0_COL_IDX,
                    trace_len as int,
                )[i],
                #[trigger] column_values(r@)[STACK_TRACE_OFFSET + H0_COL_IDX][i],
            ),
{
    let ghost views = fragment_values(fragments@);
    let total_program_rows: usize = count_rows(&fragments);

    let mut trace_columns: Vec<Vec<Felt>> = Vec::new();
    for c in 0..CORE_TRACE_WIDTH
        invariant
            views == fragment_values(fragments@),
            all_rectangular(views),
            trace_columns@.len() == c,
            forall|d: int| 0 <= d < c ==> #[trigger] trace_columns@[d]@ == joined_column(views, d),
    {
        let mut column: Vec<Felt> = Vec::new();
        for k in 0..fragments.len()
            invariant
                0 <= c < CORE_TRACE_WIDTH,
                views == fragment_values(fragments@),
                all_rectangular(views),
                column@ == joined_column(views.take(k as int), c as int),
        {
            proof {
                lemma_joined_step(views, k as int, c as int);
                assert(rectangular(
                    views[k as int],
                    CORE_TRACE_WIDTH as int,
                    views[k as int][0].len() as int,
                ));
                assert(views[k as int] == fragments@[k as int]@);
            }
            append_rows(&mut column, &fragments[k].columns[c]);
        }
        assert(views.take(fragments@.len() as int) =~= views);
        trace_columns.push(column);
    }
    let ghost joined = column_values(trace_columns@);
    proof {
        assert forall|c: int| 0 <= c < CORE_TRACE_WIDTH implies (#[trigger] joined[c]).len()
            == total_program_rows && joined[c] == joined_column(views, c) by {
            assert(trace_columns@[c]@ == joined_column(views, c));
            lemma_joined_len(views, c);
        }
    }
    pad_trace_columns(&mut trace_columns, total_program_rows, trace_len);
    let ghost before = column_values(trace_columns@);

    // the overflow helpers are the inverses of what the rows hold so far
    let h0: usize = STACK_TRACE_OFFSET + H0_COL_IDX;
    assert(before == padded(joined, trace_len as int));
    assert(joined.len() == CORE_TRACE_WIDTH);
    assert(before.len() == CORE_TRACE_WIDTH);
    assert(before.len() == trace_columns@.len());
    assert(before[h0 as int] == trace_columns@[h0 as int]@);
    let inverted = invert_all(&trace_columns[h0]);
    proof {
        assert(inverted@ =~= before[h0 as int].map_values(|e: Felt| inverse_of(e))) by {
            assert forall|i: int| 0 <= i < inverted@.len() implies #[trigger] inverted@[i]
                == inverse_of(before[h0 as int][i]) by {
                lemma_inverse_of(before[h0 as int][i], inverted@[i]);
            }
        }
    }
    trace_columns.set(h0, inverted);
    assert(column_values(trace_columns@)[h0 as int] == inverted@);
    assert(before[h0 as int] == padded_column(
        joined_column(views, h0 as int),
        h0 as int,
        trace_len as int,
    )) by {
        assert(joined[h0 as int] == joined_column(views, h0 as int));
    }
    assert(column_values(trace_columns@) =~= combined(views, trace_len as int)) by {
        assert forall|c: int| 0 <= c < CORE_TRACE_WIDTH implies #[trigger] column_values(
            trace_columns@,
        )[c] == combined(views, trace_len as int)[c] by {
            assert(joined[c] == joined_column(views, c));
            assert(before[c] == padded_column(joined[c], c, trace_len as int));
        }
    }
    trace_columns
}

} // verus!
