//! Fragments of the core trace: the system, decoder and stack columns over a range of rows.

use crate::felt::felt;
use crate::felt::Felt;
use crate::layout::CORE_TRACE_WIDTH;
use vstd::prelude::*;

verus! {

/// The contents of a set of columns.
pub open spec fn column_values(columns: Seq<Vec<Felt>>) -> Seq<Seq<Felt>> {
    columns.map_values(|c: Vec<Felt>| c@)
}

/// Whether there are `width` columns of `rows` rows each.
pub open spec fn rectangular(columns: Seq<Seq<Felt>>, width: int, rows: int) -> bool {
    &&& columns.len() == width
    &&& forall|c: int| 0 <= c < width ==> (#[trigger] columns[c]).len() == rows
}

/// The columns with one row, from a column on, replaced by the given values.
pub open spec fn with_cells(
    columns: Seq<Seq<Felt>>,
    first: int,
    row: int,
    values: Seq<Felt>,
) -> Seq<Seq<Felt>> {
    Seq::new(
        columns.len(),
        |c: int|
            if first <= c < first + values.len() {
                columns[c].update(row, values[c - first])
            } else {
                columns[c]
            },
    )
}

/// The columns with all rows from `rows` on removed.
pub open spec fn truncated(columns: Seq<Seq<Felt>>, rows: int) -> Seq<Seq<Felt>> {
    Seq::new(columns.len(), |c: int| columns[c].take(rows))
}

/// The columns of a fragment of the core trace.
///
/// Only the last fragment of a trace may have fewer rows than the size of a fragment. It may also
/// have one row more: where its own rows fill it, the row that shows HALT still comes behind them.
pub struct CoreTraceFragment {
    pub columns: Vec<Vec<Felt>>,
}

impl View for CoreTraceFragment {
    type V = Seq<Seq<Felt>>;

    open spec fn view(&self) -> Seq<Seq<Felt>> {
        column_values(self.columns@)
    }
}

impl CoreTraceFragment {
    /// Whether all columns of the core trace are there, with the given number of rows.
    pub open spec fn has_rows(&self, rows: int) -> bool {
        rectangular(self@, CORE_TRACE_WIDTH as int, rows)
    }

    /// A fragment of `num_rows` rows of zeros, to be filled in.
    pub fn new_uninit(num_rows: usize) -> (r: CoreTraceFragment)
        ensures
            r.has_rows(num_rows as int),
            forall|c: int, i: int|
                0 <= c < CORE_TRACE_WIDTH && 0 <= i < num_rows ==> (#[trigger] r@[c][i]) == felt(0),
    {
        let mut columns: Vec<Vec<Felt>> = Vec::new();
        for c in 0..CORE_TRACE_WIDTH
            invariant
                columns@.len() == c,
                forall|d: int| 0 <= d < c ==> (#[trigger] columns@[d])@.len() == num_rows,
                forall|d: int, i: int|
                    0 <= d < c && 0 <= i < num_rows ==> #[trigger] columns@[d]@[i] == felt(0),
        {
            columns.push(zeros(num_rows));
        }
        CoreTraceFragment { columns }
    }

    /// The number of rows of the fragment.
    pub fn row_count(&self) -> (r: usize)
        requires
            self@.len() > 0,
        ensures
            r == self@[0].len(),
    {
        self.columns[0].len()
    }

    /// Replaces one row, from a column on, by the given values.
    pub fn write_cells<const N: usize>(&mut self, first: usize, row: usize, values: &[Felt; N])
        requires
            first + N <= old(self)@.len(),
            forall|c: int| first <= c < first + N ==> row < (#[trigger] old(self)@[c]).len(),
        ensures
            final(self)@ == with_cells(old(self)@, first as int, row as int, values@),
    {
        let ghost before = self@;
        let width = self.columns.len();
        for i in 0..N
            invariant
                first + N <= width,
                width == before.len(),
                self@.len() == before.len(),
                forall|c: int| first <= c < first + N ==> row < (#[trigger] before[c]).len(),
                forall|c: int|
                    0 <= c < before.len() ==> #[trigger] self@[c] == if first <= c < first + i {
                        before[c].update(row as int, values@[c - first])
                    } else {
                        before[c]
                    },
        {
            assert(self@[first + i] == before[first + i]);
            let ghost prev = self@;
            self.columns[first + i][row] = values[i];
            assert(self@ =~= prev.update(
                first + i,
                before[first + i].update(row as int, values@[i as int]),
            ));
        }
        assert(self@ =~= with_cells(before, first as int, row as int, values@));
    }

    /// Appends one value to a column.
    pub fn push_cell(&mut self, col: usize, value: Felt)
        requires
            col < old(self)@.len(),
        ensures
            final(self)@ == old(self)@.update(col as int, old(self)@[col as int].push(value)),
    {
        let ghost before = self@;
        self.columns[col].push(value);
        assert(self@ =~= before.update(col as int, before[col as int].push(value)));
    }

    /// Removes all rows from `num_rows` on.
    pub fn truncate(&mut self, num_rows: usize)
        requires
            forall|c: int| 0 <= c < old(self)@.len() ==> num_rows <= (#[trigger] old(self)@[c]).len(),
        ensures
            final(self)@ == truncated(old(self)@, num_rows as int),
    {
        let ghost before = self@;
        let n = self.columns.len();
        for i in 0..n
            invariant
                n == before.len(),
                self@.len() == before.len(),
                forall|c: int| 0 <= c < before.len() ==> num_rows <= (#[trigger] before[c]).len(),
                forall|c: int|
                    0 <= c < before.len() ==> #[trigger] self@[c] == if c < i {
                        before[c].take(num_rows as int)
                    } else {
                        before[c]
                    },
        {
            assert(self@[i as int] == before[i as int]);
            let ghost prev = self@;
            self.columns[i].truncate(num_rows);
            assert(self.columns@[i as int]@ =~= before[i as int].take(num_rows as int));
            assert(self@ =~= prev.update(i as int, before[i as int].take(num_rows as int)));
        }
        assert(self@ =~= truncated(before, num_rows as int));
    }
}

/// A column of zeros.
pub fn zeros(num_rows: usize) -> (r: Vec<Felt>)
    ensures
        r@.len() == num_rows,
        forall|i: int| 0 <= i < num_rows ==> r@[i] == felt(0),
{
    let mut column: Vec<Felt> = Vec::new();
    for i in 0..num_rows
        invariant
            column@.len() == i,
            forall|j: int| 0 <= j < i ==> column@[j] == felt(0),
    {
        column.push(Felt::zero());
    }
    column
}

} // verus!
