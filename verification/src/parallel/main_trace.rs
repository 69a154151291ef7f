//! Building of the main trace.

use crate::context::RowIndex;
use crate::execution_tracer::TraceGenerationContext;
use crate::felt::felt;
use crate::felt::Felt;
use crate::felt::MODULUS;
use crate::layout::CHIPLETS_WIDTH;
use crate::layout::CORE_TRACE_WIDTH;
use crate::layout::MIN_TRACE_LEN;
use crate::layout::NUM_RAND_ROWS;
use crate::layout::PADDED_TRACE_WIDTH;
use crate::layout::RANGE_CHECK_TRACE_WIDTH;
use crate::layout::TRACE_WIDTH;
use crate::parallel::chiplets::accepts_all;
use crate::parallel::chiplets::all_put;
use crate::parallel::chiplets::initialize_chiplets;
use crate::parallel::chiplets::initialize_range_checker;
use crate::parallel::chiplets::recorded_accesses;
use crate::parallel::chiplets::ChipletsInterface;
use crate::parallel::chiplets::RangeChecker;
use crate::parallel::combine::all_rectangular;
use crate::parallel::combine::combine_fragments;
use crate::parallel::combine::combined;
use crate::parallel::combine::count_rows;
use crate::parallel::combine::fragment_values;
use crate::parallel::combine::total_rows;
use crate::parallel::execution::SyncOps;
use crate::parallel::fragment::column_values;
use crate::parallel::fragment::rectangular;
use crate::parallel::fragment::zeros;
use crate::parallel::fragment::CoreTraceFragment;
use crate::parallel::stitch::all_generate;
use crate::parallel::stitch::context_models;
use crate::parallel::stitch::core_trace_fragments;
use crate::parallel::stitch::generate_core_trace_fragments;
use crate::pow2::law_next_pow2;
use crate::pow2::next_pow2;
use crate::pow2::next_power_of_two;
use crate::word::Word;
use miden_core::crypto::random::RandomCoin;
use vstd::prelude::*;

verus! {

// TRACE LENGTH

/// The larger of two numbers.
pub open spec fn larger(a: int, b: int) -> int {
    if a < b {
        b
    } else {
        a
    }
}

/// The number of rows of the main trace: a power of two that has room for the rows of all parts
/// and for the random rows.
pub open spec fn main_trace_len(
    core_trace_len: int,
    range_table_len: int,
    chiplets_trace_len: int,
) -> int {
    let max_len = larger(larger(range_table_len, core_trace_len), chiplets_trace_len);
    larger(next_pow2(max_len + NUM_RAND_ROWS), MIN_TRACE_LEN as int)
}

/// The number of rows of the main trace.
pub fn compute_main_trace_length(
    core_trace_len: usize,
    range_table_len: usize,
    chiplets_trace_len: usize,
) -> (r: usize)
    requires
        main_trace_len(
            core_trace_len as int,
            range_table_len as int,
            chiplets_trace_len as int,
        ) <= usize::MAX,
    ensures
        r == main_trace_len(
            core_trace_len as int,
            range_table_len as int,
            chiplets_trace_len as int,
        ),
{
    let mut max_len: usize = range_table_len;
    if max_len < core_trace_len {
        max_len = core_trace_len;
    }
    if max_len < chiplets_trace_len {
        max_len = chiplets_trace_len;
    }
    proof {
        law_next_pow2(max_len + NUM_RAND_ROWS);
    }
    let trace_len: usize = next_power_of_two(max_len + NUM_RAND_ROWS);
    if trace_len < MIN_TRACE_LEN {
        MIN_TRACE_LEN
    } else {
        trace_len
    }
}

// RANDOM ROWS

/// The first elements that a random coin of the RPO hash function, made with a seed, gives.
pub uninterp spec fn coin_draws(seed: Seq<u64>, n: int) -> Seq<u64>;

/// `RpoRandomCoin::new` of `miden_core`, and `draw` of a base field element on that coin, as often
/// as is asked: the elements depend on the seed alone, and their integers are reduced. What the
/// elements are is left to the hash function. A draw of a base field element does not fail.
#[verifier::external_body]
fn draw_elements(seed: [u64; 4], n: usize) -> (r: Vec<u64>)
    ensures
        r@ == coin_draws(seed@, n as int),
        r@.len() == n,
        forall|i: int| 0 <= i < n ==> #[trigger] r@[i] < MODULUS,
{
    let seed = miden_core::Word::new(seed.map(miden_core::Felt::new));
    let mut coin = miden_core::crypto::random::RpoRandomCoin::new(seed);
    (0..n).map(|_| coin.draw::<miden_core::Felt>().unwrap().as_int()).collect()
}

/// The columns of the trace with the given values in the random rows, one row after the other.
pub open spec fn randomized(columns: Seq<Seq<Felt>>, rows: int, draws: Seq<u64>) -> Seq<Seq<Felt>> {
    Seq::new(
        columns.len(),
        |c: int|
            Seq::new(
                rows as nat,
                |i: int|
                    if i < rows - NUM_RAND_ROWS {
                        columns[c][i]
                    } else {
                        felt(
                            draws[(i - (rows - NUM_RAND_ROWS)) * PADDED_TRACE_WIDTH + c] as int,
                        )
                    },
            ),
    )
}

/// Puts the given values into the random rows of the trace, one row after the other.
pub fn fill_random_rows(columns: &mut Vec<Vec<Felt>>, rows: usize, draws: &Vec<u64>)
    requires
        rows >= NUM_RAND_ROWS,
        rectangular(column_values(old(columns)@), PADDED_TRACE_WIDTH as int, rows as int),
        draws@.len() == NUM_RAND_ROWS * PADDED_TRACE_WIDTH,
    ensures
        column_values(final(columns)@) == randomized(
            column_values(old(columns)@),
            rows as int,
            draws@,
        ),
{
    let ghost before = column_values(columns@);
    let ghost wanted = randomized(before, rows as int, draws@);
    let start: usize = rows - NUM_RAND_ROWS;
    for i in start..rows
        invariant
            start == rows - NUM_RAND_ROWS,
            rectangular(before, PADDED_TRACE_WIDTH as int, rows as int),
            draws@.len() == NUM_RAND_ROWS * PADDED_TRACE_WIDTH,
            wanted == randomized(before, rows as int, draws@),
            rectangular(column_values(columns@), PADDED_TRACE_WIDTH as int, rows as int),
            forall|c: int, j: int|
                0 <= c < PADDED_TRACE_WIDTH && 0 <= j < rows ==> #[trigger] column_values(
                    columns@,
                )[c][j] == if j < i {
                    wanted[c][j]
                } else {
                    before[c][j]
                },
    {
        for c in 0..PADDED_TRACE_WIDTH
            invariant
                start == rows - NUM_RAND_ROWS,
                start <= i < rows,
                rectangular(before, PADDED_TRACE_WIDTH as int, rows as int),
                draws@.len() == NUM_RAND_ROWS * PADDED_TRACE_WIDTH,
                wanted == randomized(before, rows as int, draws@),
                rectangular(column_values(columns@), PADDED_TRACE_WIDTH as int, rows as int),
                forall|d: int, j: int|
                    0 <= d < PADDED_TRACE_WIDTH && 0 <= j < rows ==> #[trigger] column_values(
                        columns@,
                    )[d][j] == if j < i || (j == i && d < c) {
                        wanted[d][j]
                    } else {
                        before[d][j]
                    },
        {
            let ghost prev = column_values(columns@);
            assert(columns@[c as int]@ == prev[c as int]);
            let value = Felt::new(draws[(i - start) * PADDED_TRACE_WIDTH + c]);
            columns[c][i] = value;
            assert(column_values(columns@) =~= prev.update(
                c as int,
                prev[c as int].update(i as int, value),
            ));
        }
    }
    assert(column_values(columns@) =~= wanted) by {
        assert forall|c: int| 0 <= c < PADDED_TRACE_WIDTH implies #[trigger] column_values(
            columns@,
        )[c] == wanted[c] by {
            assert(column_values(columns@)[c] =~= wanted[c]);
        }
    }
}

// ASSEMBLY

/// The columns of the main trace: those of the core trace, of the range checker and of the
/// chiplets, and columns of zeros up to a multiple of the rate of the hash function, with random
/// rows at the end.
pub open spec fn assembled(
    core: Seq<Seq<Felt>>,
    range: Seq<Seq<Felt>>,
    chiplets: Seq<Seq<Felt>>,
    rows: int,
    draws: Seq<u64>,
) -> Seq<Seq<Felt>> {
    let zero_columns = Seq::new(
        (PADDED_TRACE_WIDTH - TRACE_WIDTH) as nat,
        |c: int| Seq::new(rows as nat, |i: int| felt(0)),
    );
    randomized(core + range + chiplets + zero_columns, rows, draws)
}

/// Appends columns to others.
fn append_columns(columns: &mut Vec<Vec<Felt>>, more: Vec<Vec<Felt>>)
    ensures
        column_values(final(columns)@) == column_values(old(columns)@) + column_values(more@),
{
    let mut more = more;
    columns.append(&mut more);
}

/// Puts the columns of all parts together, and fills the random rows with the given values.
pub fn assemble_columns(
    core: Vec<Vec<Felt>>,
    range: Vec<Vec<Felt>>,
    chiplets: Vec<Vec<Felt>>,
    rows: usize,
    draws: &Vec<u64>,
) -> (r: Vec<Vec<Felt>>)
    requires
        rows >= NUM_RAND_ROWS,
        rectangular(column_values(core@), CORE_TRACE_WIDTH as int, rows as int),
        rectangular(column_values(range@), RANGE_CHECK_TRACE_WIDTH as int, rows as int),
        rectangular(column_values(chiplets@), CHIPLETS_WIDTH as int, rows as int),
        draws@.len() == NUM_RAND_ROWS * PADDED_TRACE_WIDTH,
    ensures
        column_values(r@) == assembled(
            column_values(core@),
            column_values(range@),
            column_values(chiplets@),
            rows as int,
            draws@,
        ),
        rectangular(column_values(r@), PADDED_TRACE_WIDTH as int, rows as int),
{
    let ghost (core_values, range_values, chiplets_values) = (
        column_values(core@),
        column_values(range@),
        column_values(chiplets@),
    );
    let mut columns = core;
    append_columns(&mut columns, range);
    append_columns(&mut columns, chiplets);
    let ghost parts = column_values(columns@);
    let ghost zero_columns: Seq<Seq<Felt>> = Seq::new(
        (PADDED_TRACE_WIDTH - TRACE_WIDTH) as nat,
        |c: int| Seq::new(rows as nat, |i: int| felt(0)),
    );
    for k in 0..PADDED_TRACE_WIDTH - TRACE_WIDTH
        invariant
            zero_columns == Seq::new(
                (PADDED_TRACE_WIDTH - TRACE_WIDTH) as nat,
                |c: int| Seq::new(rows as nat, |i: int| felt(0)),
            ),
            column_values(columns@) == parts + zero_columns.take(k as int),
    {
        let column = zeros(rows);
        assert(column@ =~= zero_columns[k as int]);
        let ghost prev = column_values(columns@);
        columns.push(column);
        assert(column_values(columns@) =~= prev.push(column@));
        assert(zero_columns.take(k + 1) =~= zero_columns.take(k as int).push(column@));
    }
    assert(zero_columns.take(zero_columns.len() as int) =~= zero_columns);
    let ghost all = core_values + range_values + chiplets_values + zero_columns;
    assert(column_values(columns@) =~= all);
    assert(rectangular(all, PADDED_TRACE_WIDTH as int, rows as int)) by {
        assert forall|c: int| 0 <= c < all.len() implies (#[trigger] all[c]).len() == rows by {
            if c < CORE_TRACE_WIDTH {
                assert(all[c] == core_values[c]);
            } else if c < CORE_TRACE_WIDTH + RANGE_CHECK_TRACE_WIDTH {
                assert(all[c] == range_values[c - CORE_TRACE_WIDTH]);
            } else if c < TRACE_WIDTH {
                assert(all[c] == chiplets_values[c - CORE_TRACE_WIDTH - RANGE_CHECK_TRACE_WIDTH]);
            } else {
                assert(all[c] == zero_columns[c - TRACE_WIDTH]);
            }
        }
    }
    fill_random_rows(&mut columns, rows, draws);
    columns
}

// BUILD TRACE

/// The digests of the procedures of a kernel.
#[derive(Debug)]
pub struct Kernel {
    pub proc_hashes: Vec<Word>,
}

/// The main trace.
#[derive(Debug)]
pub struct MainTrace {
    /// The columns, all of the same power of two of rows.
    pub columns: Vec<Vec<Felt>>,
    /// The last row that shows the program.
    pub last_program_row: RowIndex,
}

/// The numbers of rows of the parts of the trace, before padding.
#[derive(Debug)]
pub struct TraceLenSummary<S> {
    pub main_trace_len: usize,
    pub range_trace_len: usize,
    pub chiplets_trace_len: S,
}

/// What builds the auxiliary columns of the decoder: it needs nothing but the main trace.
#[derive(Clone, Copy, Debug, PartialEq, Eq, Structural)]
pub struct DecoderAuxTraceBuilder;

/// What builds the auxiliary columns of the stack: it needs nothing but the main trace.
#[derive(Clone, Copy, Debug, PartialEq, Eq, Structural)]
pub struct StackAuxTraceBuilder;

/// What builds the auxiliary columns of the parts of the trace.
#[derive(Debug)]
pub struct AuxTraceBuilders<RA, CA> {
    pub decoder: DecoderAuxTraceBuilder,
    pub range: RA,
    pub chiplets: CA,
    pub stack: StackAuxTraceBuilder,
}

/// An execution trace.
#[derive(Debug)]
pub struct ExecutionTrace<O, S, RA, CA> {
    pub program_hash: Word,
    pub kernel: Kernel,
    pub execution_output: O,
    pub main_trace: MainTrace,
    pub aux_trace_builders: AuxTraceBuilders<RA, CA>,
    pub trace_len_summary: TraceLenSummary<S>,
}

/// How the chiplets and the range checker make their parts of the trace.
pub struct TraceTables<K, M, N, L, R, T> {
    /// Makes the chiplets for a kernel.
    pub chiplets: K,
    /// The range checks that the accesses to memory need.
    pub memory_checks: M,
    /// The number of rows that the range checker needs.
    pub range_table_len: N,
    /// The numbers of rows that the chiplets need, each and all together.
    pub chiplets_lengths: L,
    /// The columns of the range checker for a number of rows that it needs, of all rows and of
    /// random rows, and what builds its auxiliary columns.
    pub range_trace: R,
    /// The columns of the chiplets for a number of all rows and of random rows, and what builds
    /// their auxiliary columns.
    pub chiplets_trace: T,
}

/// What the chiplets and the range checker gave while a trace was built.
pub struct TraceStages<C, S, RA, CA> {
    /// The chiplets before any request.
    pub fresh: C,
    /// The chiplets after all requests.
    pub chiplets: C,
    pub memory_checks: Vec<(RowIndex, [u16; 2])>,
    pub range_checker: RangeChecker,
    pub range_table_len: usize,
    pub chiplets_lengths: (S, usize),
    pub range_trace: (Vec<Vec<Felt>>, RA),
    pub chiplets_trace: (Vec<Vec<Felt>>, CA),
}

/// Whether chiplets are those to which everything recorded was put.
pub open spec fn filled<C: ChipletsInterface>(
    fresh: C,
    chiplets: C,
    context: TraceGenerationContext,
) -> bool {
    all_put::<C>(
        fresh.state(),
        chiplets.state(),
        recorded_accesses(
            context_models(context.core_trace_contexts@),
            context.memory_writes@,
        ),
        context.hasher_for_chiplet@,
        context.bitwise_replay@,
        context.ace_replay@,
        context.kernel_replay@,
    )
}

/// Whether chiplets accept everything recorded.
pub open spec fn accepts<C: ChipletsInterface>(fresh: C, context: TraceGenerationContext) -> bool {
    accepts_all::<C>(
        fresh.state(),
        recorded_accesses(
            context_models(context.core_trace_contexts@),
            context.memory_writes@,
        ),
        context.hasher_for_chiplet@,
        context.bitwise_replay@,
        context.ace_replay@,
        context.kernel_replay@,
    )
}

/// The fragments of the core trace that the contexts lead to.
pub open spec fn fragments_of<E: SyncOps>(ops: E, context: TraceGenerationContext) -> Seq<
    Seq<Seq<Felt>>,
> {
    core_trace_fragments(
        ops,
        context_models(context.core_trace_contexts@),
        context.fragment_size,
    )
}

/// The number of rows of the core trace; the row that shows HALT at its end is not counted.
pub open spec fn core_trace_len<E: SyncOps>(ops: E, context: TraceGenerationContext) -> int {
    total_rows(fragments_of(ops, context)) - 1
}

/// Whether the range checks are those that were recorded and those of the memory.
pub open spec fn checks_of(
    range_checker: RangeChecker,
    memory_checks: Seq<(RowIndex, [u16; 2])>,
    context: TraceGenerationContext,
) -> bool {
    &&& range_checker.u32_checks@ == context.range_checker_replay@
    &&& range_checker.memory_checks@ == memory_checks
}

impl<K, M, N, L, R, T> TraceTables<K, M, N, L, R, T> {
    /// Whether chiplets and range checks are what the recordings lead to.
    pub open spec fn reaches<C: ChipletsInterface>(
        self,
        context: TraceGenerationContext,
        kernel: Kernel,
        fresh: C,
        chiplets: C,
        memory_checks: Vec<(RowIndex, [u16; 2])>,
        range_checker: RangeChecker,
    ) -> bool where K: FnOnce(&Kernel) -> C, M: Fn(&C) -> Vec<(RowIndex, [u16; 2])> {
        &&& self.chiplets.ensures((&kernel,), fresh)
        &&& filled(fresh, chiplets, context)
        &&& self.memory_checks.ensures((&chiplets,), memory_checks)
        &&& checks_of(range_checker, memory_checks@, context)
    }

    /// Whether the chiplets and the range checker can do all that building a trace asks of them:
    /// they accept what was recorded, their rows fit, and their columns have the shape that the
    /// trace has.
    pub open spec fn suit<E: SyncOps, C: ChipletsInterface, S, RA, CA>(
        self,
        ops: E,
        context: TraceGenerationContext,
        kernel: Kernel,
    ) -> bool where
        K: FnOnce(&Kernel) -> C,
        M: Fn(&C) -> Vec<(RowIndex, [u16; 2])>,
        N: Fn(&RangeChecker) -> usize,
        L: Fn(&C) -> (S, usize),
        R: FnOnce(RangeChecker, usize, usize, usize) -> (Vec<Vec<Felt>>, RA),
        T: FnOnce(C, usize, usize) -> (Vec<Vec<Felt>>, CA),
     {
        &&& self.chiplets.requires((&kernel,))
        &&& forall|fresh: C| #[trigger]
            self.chiplets.ensures((&kernel,), fresh) ==> accepts(fresh, context)
        &&& forall|fresh: C, chiplets: C|
            #![trigger filled(fresh, chiplets, context)]
            self.chiplets.ensures((&kernel,), fresh) && filled(fresh, chiplets, context)
                ==> self.memory_checks.requires((&chiplets,)) && self.chiplets_lengths.requires(
                (&chiplets,),
            )
        &&& forall|
            fresh: C,
            chiplets: C,
            memory_checks: Vec<(RowIndex, [u16; 2])>,
            range_checker: RangeChecker,
        | #[trigger]
            self.reaches(context, kernel, fresh, chiplets, memory_checks, range_checker)
                ==> self.range_table_len.requires((&range_checker,))
        &&& forall|
            fresh: C,
            chiplets: C,
            memory_checks: Vec<(RowIndex, [u16; 2])>,
            range_checker: RangeChecker,
            range_len: usize,
            lengths: (S, usize),
        |
            #![trigger self.reaches(context, kernel, fresh, chiplets, memory_checks, range_checker),
                self.range_table_len.ensures((&range_checker,), range_len),
                self.chiplets_lengths.ensures((&chiplets,), lengths)]
            self.reaches(context, kernel, fresh, chiplets, memory_checks, range_checker)
                && self.range_table_len.ensures((&range_checker,), range_len)
                && self.chiplets_lengths.ensures((&chiplets,), lengths) ==> {
                let rows = main_trace_len(
                    core_trace_len(ops, context),
                    range_len as int,
                    lengths.1 as int,
                );
                &&& rows <= usize::MAX
                &&& self.range_trace.requires(
                    (range_checker, range_len, rows as usize, NUM_RAND_ROWS),
                )
                &&& forall|columns: (Vec<Vec<Felt>>, RA)| #[trigger]
                    self.range_trace.ensures(
                        (range_checker, range_len, rows as usize, NUM_RAND_ROWS),
                        columns,
                    ) ==> rectangular(
                        column_values(columns.0@),
                        RANGE_CHECK_TRACE_WIDTH as int,
                        rows,
                    )
                &&& self.chiplets_trace.requires((chiplets, rows as usize, NUM_RAND_ROWS))
                &&& forall|columns: (Vec<Vec<Felt>>, CA)| #[trigger]
                    self.chiplets_trace.ensures(
                        (chiplets, rows as usize, NUM_RAND_ROWS),
                        columns,
                    ) ==> rectangular(column_values(columns.0@), CHIPLETS_WIDTH as int, rows)
            }
    }
}

/// `rayon::join`: both closures are called once, on one thread or on two, and their results come
/// back in the order of the closures.
pub assume_specification<A, B, RA, RB>[ rayon::join::<A, B, RA, RB> ](
    oper_a: A,
    oper_b: B,
) -> (r: (RA, RB)) where
    A: FnOnce() -> RA + Send,
    B: FnOnce() -> RB + Send,
    RA: Send,
    RB: Send,

    requires
        oper_a.requires(()),
        oper_b.requires(()),
    ensures
        oper_a.ensures((), r.0),
        oper_b.ensures((), r.1),
;

impl<C, S, RA, CA> TraceStages<C, S, RA, CA> {
    /// The number of rows of the main trace.
    pub open spec fn rows<E: SyncOps>(self, ops: E, context: TraceGenerationContext) -> int {
        main_trace_len(
            core_trace_len(ops, context),
            self.range_table_len as int,
            self.chiplets_lengths.1 as int,
        )
    }

    /// Whether the stages are those that building a trace goes through.
    pub open spec fn come_about<E: SyncOps, K, M, N, L, R, T>(
        self,
        tables: TraceTables<K, M, N, L, R, T>,
        ops: E,
        context: TraceGenerationContext,
        kernel: Kernel,
    ) -> bool where
        C: ChipletsInterface,
        K: FnOnce(&Kernel) -> C,
        M: Fn(&C) -> Vec<(RowIndex, [u16; 2])>,
        N: Fn(&RangeChecker) -> usize,
        L: Fn(&C) -> (S, usize),
        R: FnOnce(RangeChecker, usize, usize, usize) -> (Vec<Vec<Felt>>, RA),
        T: FnOnce(C, usize, usize) -> (Vec<Vec<Felt>>, CA),
     {
        let rows = self.rows(ops, context) as usize;
        &&& tables.reaches(
            context,
            kernel,
            self.fresh,
            self.chiplets,
            self.memory_checks,
            self.range_checker,
        )
        &&& tables.range_table_len.ensures((&self.range_checker,), self.range_table_len)
        &&& tables.chiplets_lengths.ensures((&self.chiplets,), self.chiplets_lengths)
        &&& tables.range_trace.ensures(
            (self.range_checker, self.range_table_len, rows, NUM_RAND_ROWS),
            self.range_trace,
        )
        &&& tables.chiplets_trace.ensures(
            (self.chiplets, rows, NUM_RAND_ROWS),
            self.chiplets_trace,
        )
    }

    /// Whether a trace is the one that the stages make.
    pub open spec fn make<E: SyncOps, O>(
        self,
        ops: E,
        context: TraceGenerationContext,
        kernel: Kernel,
        program_hash: Word,
        execution_output: O,
        r: ExecutionTrace<O, S, RA, CA>,
    ) -> bool {
        let rows = self.rows(ops, context);
        let core_len = core_trace_len(ops, context);
        &&& r.program_hash == program_hash
        &&& r.kernel == kernel
        &&& r.execution_output == execution_output
        &&& column_values(r.main_trace.columns@) == assembled(
            combined(fragments_of(ops, context), rows),
            column_values(self.range_trace.0@),
            column_values(self.chiplets_trace.0@),
            rows,
            coin_draws(seed_of(program_hash), NUM_RAND_ROWS * PADDED_TRACE_WIDTH),
        )
        &&& r.main_trace.last_program_row == last_row(core_len as usize)
        &&& r.aux_trace_builders == (AuxTraceBuilders {
            decoder: DecoderAuxTraceBuilder,
            range: self.range_trace.1,
            chiplets: self.chiplets_trace.1,
            stack: StackAuxTraceBuilder,
        })
        &&& r.trace_len_summary.main_trace_len == core_len
        &&& r.trace_len_summary.range_trace_len == self.range_table_len
        &&& r.trace_len_summary.chiplets_trace_len == self.chiplets_lengths.0
    }
}

/// The integers of the elements of a word.
pub open spec fn seed_of(word: Word) -> Seq<u64> {
    seq![word.e0@, word.e1@, word.e2@, word.e3@]
}

/// The last of a number of rows, counted from zero; the first one, if there is none.
pub open spec fn last_row(len: usize) -> RowIndex {
    if len as u32 == 0 {
        0
    } else {
        (len as u32 - 1) as u32
    }
}

/// Whether columns are those of the core trace.
spec fn are_combined(
    fragments: Seq<CoreTraceFragment>,
    rows: usize,
    columns: Vec<Vec<Felt>>,
) -> bool {
    column_values(columns@) == combined(fragment_values(fragments), rows as int)
}

/// The columns of the core trace have the rows that are asked for.
proof fn lemma_combined_shape(fragments: Seq<Seq<Seq<Felt>>>, rows: int)
    requires
        rows >= 0,
    ensures
        rectangular(combined(fragments, rows), CORE_TRACE_WIDTH as int, rows),
{
}

/// The rows of the main trace are at least those of every part and the random rows.
proof fn lemma_main_trace_len(core: int, range: int, chiplets: int)
    ensures
        main_trace_len(core, range, chiplets) >= core + NUM_RAND_ROWS,
        main_trace_len(core, range, chiplets) >= MIN_TRACE_LEN,
{
    law_next_pow2(larger(larger(range, core), chiplets) + NUM_RAND_ROWS);
}

/// Builds the execution trace from what was recorded during execution. The fragments of the core
/// trace are generated in parallel, and so are the three parts of the trace.
pub fn build_trace<E, C, O, S, RA, CA, K, M, N, L, R, T>(
    execution_output: O,
    trace_generation_context: TraceGenerationContext,
    program_hash: Word,
    kernel: Kernel,
    ops: &E,
    tables: TraceTables<K, M, N, L, R, T>,
) -> (r: ExecutionTrace<O, S, RA, CA>) where
    E: SyncOps + Sync,
    C: ChipletsInterface + Send,
    RA: Send,
    CA: Send,
    K: FnOnce(&Kernel) -> C,
    M: Fn(&C) -> Vec<(RowIndex, [u16; 2])>,
    N: Fn(&RangeChecker) -> usize,
    L: Fn(&C) -> (S, usize),
    R: FnOnce(RangeChecker, usize, usize, usize) -> (Vec<Vec<Felt>>, RA) + Send,
    T: FnOnce(C, usize, usize) -> (Vec<Vec<Felt>>, CA) + Send,

    requires
        trace_generation_context.core_trace_contexts@.len() > 0,
        all_generate(
            *ops,
            context_models(trace_generation_context.core_trace_contexts@),
            trace_generation_context.fragment_size,
        ),
        tables.suit(*ops, trace_generation_context, kernel),
    ensures
        exists|stages: TraceStages<C, S, RA, CA>|
            {
                &&& #[trigger] stages.come_about(tables, *ops, trace_generation_context, kernel)
                &&& stages.make(
                    *ops,
                    trace_generation_context,
                    kernel,
                    program_hash,
                    execution_output,
                    r,
                )
            },
{
    let ghost context = trace_generation_context;
    let TraceGenerationContext {
        core_trace_contexts,
        range_checker_replay,
        memory_writes,
        bitwise_replay,
        hasher_for_chiplet,
        kernel_replay,
        ace_replay,
        fragment_size,
    } = trace_generation_context;
    let ghost given = tables;
    let TraceTables {
        chiplets: make_chiplets,
        memory_checks,
        range_table_len,
        chiplets_lengths,
        range_trace,
        chiplets_trace,
    } = tables;

    let fresh = make_chiplets(&kernel);
    let ghost fresh_chiplets = fresh;
    let chiplets = initialize_chiplets(
        fresh,
        &core_trace_contexts,
        memory_writes,
        bitwise_replay,
        kernel_replay,
        hasher_for_chiplet,
        ace_replay,
    );
    let ghost full_chiplets = chiplets;
    assert(filled(fresh_chiplets, full_chiplets, context));
    let checks = memory_checks(&chiplets);
    let ghost given_checks = checks;
    let range_checker = initialize_range_checker(range_checker_replay, checks);
    let ghost given_range_checker = range_checker;
    assert(given.reaches(
        context,
        kernel,
        fresh_chiplets,
        full_chiplets,
        given_checks,
        given_range_checker,
    ));

    let fragments = generate_core_trace_fragments(core_trace_contexts, fragment_size, ops);
    assert(fragment_values(fragments@) == fragments_of(*ops, context));

    let range_len: usize = range_table_len(&range_checker);
    let lengths = chiplets_lengths(&chiplets);
    let ghost given_lengths = lengths;
    let chiplets_len: usize = lengths.1;
    proof {
        lemma_main_trace_len(
            core_trace_len(*ops, context),
            range_len as int,
            chiplets_len as int,
        );
    }

    // the row that shows HALT at the end of the last fragment is not counted
    let core_len: usize = count_rows(&fragments) - 1;
    let rows: usize = compute_main_trace_length(core_len, range_len, chiplets_len);
    let ghost built = fragments@;

    let combine = || -> (columns: Vec<Vec<Felt>>)
        requires
            fragments@.len() > 0,
            all_rectangular(fragment_values(fragments@)),
            0 < total_rows(fragment_values(fragments@)) <= rows,
        ensures
            are_combined(built, rows, columns),
        {
            combine_fragments(fragments, rows)
        };
    let make_range_part = || -> (part: (Vec<Vec<Felt>>, RA))
        requires
            range_trace.requires((range_checker, range_len, rows, NUM_RAND_ROWS)),
        ensures
            given.range_trace.ensures(
                (given_range_checker, range_len, rows, NUM_RAND_ROWS),
                part,
            ),
        {
            range_trace(range_checker, range_len, rows, NUM_RAND_ROWS)
        };
    let make_chiplets_part = || -> (part: (Vec<Vec<Felt>>, CA))
        requires
            chiplets_trace.requires((chiplets, rows, NUM_RAND_ROWS)),
        ensures
            given.chiplets_trace.ensures((full_chiplets, rows, NUM_RAND_ROWS), part),
        {
            chiplets_trace(chiplets, rows, NUM_RAND_ROWS)
        };
    let make_parts = || -> (parts: ((Vec<Vec<Felt>>, RA), (Vec<Vec<Felt>>, CA)))
        requires
            make_range_part.requires(()),
            make_chiplets_part.requires(()),
        ensures
            given.range_trace.ensures(
                (given_range_checker, range_len, rows, NUM_RAND_ROWS),
                parts.0,
            ),
            given.chiplets_trace.ensures((full_chiplets, rows, NUM_RAND_ROWS), parts.1),
        {
            rayon::join(make_range_part, make_chiplets_part)
        };
    let (core_columns, (range_part, chiplets_part)) = rayon::join(combine, make_parts);
    let ghost given_range_part = range_part;
    let ghost given_chiplets_part = chiplets_part;
    let (range_columns, range_aux) = range_part;
    let (chiplets_columns, chiplets_aux) = chiplets_part;

    let seed: [u64; 4] = [
        program_hash.e0.as_int(),
        program_hash.e1.as_int(),
        program_hash.e2.as_int(),
        program_hash.e3.as_int(),
    ];
    assert(seed@ =~= seed_of(program_hash));
    let draws = draw_elements(seed, NUM_RAND_ROWS * PADDED_TRACE_WIDTH);
    proof {
        lemma_combined_shape(fragments_of(*ops, context), rows as int);
    }
    let columns = assemble_columns(core_columns, range_columns, chiplets_columns, rows, &draws);

    let last_program_row: RowIndex = (#[verifier::truncate] (core_len as u32)).saturating_sub(1);
    let trace = ExecutionTrace {
        program_hash,
        kernel,
        execution_output,
        main_trace: MainTrace { columns, last_program_row },
        aux_trace_builders: AuxTraceBuilders {
            decoder: DecoderAuxTraceBuilder,
            range: range_aux,
            chiplets: chiplets_aux,
            stack: StackAuxTraceBuilder,
        },
        trace_len_summary: TraceLenSummary {
            main_trace_len: core_len,
            range_trace_len: range_len,
            chiplets_trace_len: lengths.0,
        },
    };
    proof {
        let stages = TraceStages::<C, S, RA, CA> {
            fresh: fresh_chiplets,
            chiplets: full_chiplets,
            memory_checks: given_checks,
            range_checker: given_range_checker,
            range_table_len: range_len,
            chiplets_lengths: given_lengths,
            range_trace: given_range_part,
            chiplets_trace: given_chiplets_part,
        };
        assert(stages.come_about(given, *ops, context, kernel));
        assert(stages.make(*ops, context, kernel, program_hash, execution_output, trace));
    }
    trace
}

} // verus!
