//! The dispatcher: it negotiates the data order, converts the schema,
//! prepares the source partitions, sizes and splits the destination and
//! copies every partition, cell by cell.

use crate::data_order::{cell_of, coordinate, is_first_mutual, lemma_position_inverts, no_mutual_order, DataOrder};
use crate::destinations::{
    lemma_total_rows_of_prefix, total_rows, Allocation, Destination, DestinationPartition,
    DestinationPartitionView, DestinationView, Parser, ParserView,
};
use crate::errors::ConnectorError;
use crate::sources::{prepared_from, Source, SourcePartition, SourcePartitionView};
use crate::text::{clone_strings, texts};
use crate::typesystem::{
    convert_schema, convertible, dst_schema_of, lemma_schema_converts, schema_converts,
    DestinationPartitionOf, DestinationPartitionViewOf, DestinationValueOf, ParserOf, SourcePartitionOf,
    SourcePartitionViewOf, SourceValueOf, Transport, TypeSystem,
};
use itertools::Itertools;
use rayon::prelude::{IndexedParallelIterator, IntoParallelRefMutIterator, ParallelIterator};
use std::marker::PhantomData;
use vstd::prelude::*;
use vstd::slice::slice_to_vec;

verus! {

/// The conversion plan `plan` is that of a partition with the schema
/// `schema`: one entry per column, whose source type is the column's
/// and whose destination type is the one the transport converts it to.
pub open spec fn plan_fits<TP: Transport>(plan: Seq<(TP::TSS, TP::TSD)>, schema: Seq<TP::TSS>) -> bool {
    &&& plan.len() == schema.len()
    &&& forall|c: int|
        0 <= c < plan.len() ==> (#[trigger] plan[c]).0 == schema[c] && TP::convert_type(plan[c].0) == Some(
            plan[c].1,
        )
}

/// The conversion plan of a source schema and its destination schema:
/// for every column the pair of its types.
pub open spec fn plan_of<TP: Transport>(src_schema: Seq<TP::TSS>, dst_schema: Seq<TP::TSD>) -> Seq<
    (TP::TSS, TP::TSD),
> {
    Seq::new(src_schema.len(), |c: int| (src_schema[c], dst_schema[c]))
}

/// What the copy of a partition writes: the source's cells in the
/// order in which the source hands them out, each converted as the
/// plan says for its column.
pub open spec fn converted<TP: Transport>(
    order: DataOrder,
    rows: nat,
    plan: Seq<(TP::TSS, TP::TSD)>,
    stream: Seq<SourceValueOf<TP>>,
) -> Seq<DestinationValueOf<TP>> {
    Seq::new(
        stream.len(),
        |k: int|
            {
                let col = order.col_at(rows, plan.len(), k);
                TP::convert_value(plan[col].0, plan[col].1, stream[k])
            },
    )
}

/// Copies every cell of a prepared source partition through a write
/// cursor. In row-major order the rows are the outer loop and the
/// columns the inner one; in column-major order the columns are the
/// outer loop. The bounds are the source partition's own row and
/// column counts. A cell that cannot be processed stops the copy,
/// with the error of that cell; a partition without cells cannot
/// fail.
pub fn copy_cells<TP: Transport>(
    order: DataOrder,
    plan: &[(TP::TSS, TP::TSD)],
    parser: &mut ParserOf<TP>,
    src: &mut SourcePartitionOf<TP>,
) -> (r: Result<(), ConnectorError>)
    requires
        old(src)@.ready(),
        old(src)@.order == order,
        plan_fits::<TP>(plan@, old(src)@.schema),
        old(parser)@.written.len() + old(src)@.stream.len() <= old(parser)@.capacity,
    ensures
        old(src)@.stream.len() == 0 ==> r is Ok,
        match r {
            Ok(_) => {
                &&& final(src)@ == (SourcePartitionView {
                    consumed: old(src)@.stream.len(),
                    ..old(src)@
                })
                &&& final(parser)@ == (ParserView {
                    written: old(parser)@.written + converted::<TP>(
                        order,
                        old(src)@.rows,
                        plan@,
                        old(src)@.stream,
                    ),
                    ..old(parser)@
                })
            },
            Err(e) => e == ConnectorError::ConversionError,
        },
{
    let ghost before = src@;
    let ghost cursor = parser@;
    let ghost cells = converted::<TP>(order, before.rows, plan@, before.stream);
    let nrows = src.nrows();
    let ncols = src.ncols();
    match order {
        DataOrder::RowMajor => {
            let mut row: usize = 0;
            while row < nrows
                invariant
                    order == DataOrder::RowMajor,
                    row <= nrows,
                    nrows == before.rows,
                    ncols == before.cols(),
                    before == old(src)@,
                    before.ready(),
                    before.order == order,
                    plan_fits::<TP>(plan@, before.schema),
                    cursor.written.len() + before.stream.len() <= cursor.capacity,
                    cells == converted::<TP>(order, before.rows, plan@, before.stream),
                    src@ == (SourcePartitionView { consumed: (row * ncols) as nat, ..before }),
                    parser@ == (ParserView {
                        written: cursor.written + cells.take(row * ncols),
                        ..cursor
                    }),
                decreases nrows - row,
            {
                let mut col: usize = 0;
                while col < ncols
                    invariant
                        order == DataOrder::RowMajor,
                        row < nrows,
                        col <= ncols,
                        nrows == before.rows,
                        ncols == before.cols(),
                        before == old(src)@,
                    before.ready(),
                        before.order == order,
                        plan_fits::<TP>(plan@, before.schema),
                        cursor.written.len() + before.stream.len() <= cursor.capacity,
                        cells == converted::<TP>(order, before.rows, plan@, before.stream),
                        src@ == (SourcePartitionView {
                            consumed: (row * ncols + col) as nat,
                            ..before
                        }),
                        parser@ == (ParserView {
                            written: cursor.written + cells.take(row * ncols + col),
                            ..cursor
                        }),
                    decreases ncols - col,
                {
                    let ghost k = row * ncols + col;
                    proof {
                        lemma_position_inverts(order, before.rows, before.cols(), row as int, col as int);
                        assert(cells.take(k).push(cells[k]) =~= cells.take(k + 1));
                    }
                    let (src_ty, dst_ty) = plan[col];
                    match TP::process(src_ty, dst_ty, parser, src) {
                        Ok(_) => {},
                        Err(e) => {
                            return Err(e);
                        },
                    }
                    col += 1;
                    assert(parser@.written =~= cursor.written + cells.take(row * ncols + col));
                }
                assert((row + 1) * ncols == row * ncols + ncols) by (nonlinear_arith);
                row += 1;
            }
            assert(nrows * ncols == before.stream.len());
            assert(cells.take(nrows * ncols) =~= cells);
        },
        DataOrder::ColumnMajor => {
            let mut col: usize = 0;
            while col < ncols
                invariant
                    order == DataOrder::ColumnMajor,
                    col <= ncols,
                    nrows == before.rows,
                    ncols == before.cols(),
                    before == old(src)@,
                    before.ready(),
                    before.order == order,
                    plan_fits::<TP>(plan@, before.schema),
                    cursor.written.len() + before.stream.len() <= cursor.capacity,
                    cells == converted::<TP>(order, before.rows, plan@, before.stream),
                    src@ == (SourcePartitionView { consumed: (col * nrows) as nat, ..before }),
                    parser@ == (ParserView {
                        written: cursor.written + cells.take(col * nrows),
                        ..cursor
                    }),
                decreases ncols - col,
            {
                let mut row: usize = 0;
                while row < nrows
                    invariant
                        order == DataOrder::ColumnMajor,
                        col < ncols,
                        row <= nrows,
                        nrows == before.rows,
                        ncols == before.cols(),
                        before == old(src)@,
                    before.ready(),
                        before.order == order,
                        plan_fits::<TP>(plan@, before.schema),
                        cursor.written.len() + before.stream.len() <= cursor.capacity,
                        cells == converted::<TP>(order, before.rows, plan@, before.stream),
                        src@ == (SourcePartitionView {
                            consumed: (col * nrows + row) as nat,
                            ..before
                        }),
                        parser@ == (ParserView {
                            written: cursor.written + cells.take(col * nrows + row),
                            ..cursor
                        }),
                    decreases nrows - row,
                {
                    let ghost k = col * nrows + row;
                    proof {
                        lemma_position_inverts(order, before.rows, before.cols(), row as int, col as int);
                        assert(cells.take(k).push(cells[k]) =~= cells.take(k + 1));
                    }
                    let (src_ty, dst_ty) = plan[col];
                    match TP::process(src_ty, dst_ty, parser, src) {
                        Ok(_) => {},
                        Err(e) => {
                            return Err(e);
                        },
                    }
                    row += 1;
                    assert(parser@.written =~= cursor.written + cells.take(col * nrows + row));
                }
                assert((col + 1) * nrows == col * nrows + nrows) by (nonlinear_arith);
                col += 1;
            }
            assert(ncols * nrows == before.stream.len()) by (nonlinear_arith)
                requires
                    before.stream.len() == nrows * ncols,
            ;
            assert(cells.take(ncols * nrows) =~= cells);
        },
    }
    Ok(())
}


/// A converted cell lands where its source cell stood: whatever the
/// order, cell (`row`, `col`) of what the copy writes is the converted
/// cell (`row`, `col`) of the source.
pub proof fn lemma_copy_is_cellwise<TP: Transport>(
    order: DataOrder,
    rows: nat,
    plan: Seq<(TP::TSS, TP::TSD)>,
    stream: Seq<SourceValueOf<TP>>,
    row: int,
    col: int,
)
    requires
        stream.len() == rows * plan.len(),
        0 <= row < rows,
        0 <= col < plan.len(),
    ensures
        cell_of(order, rows, plan.len(), converted::<TP>(order, rows, plan, stream), row, col)
            == TP::convert_value(plan[col].0, plan[col].1, cell_of(order, rows, plan.len(), stream, row, col)),
{
    lemma_position_inverts(order, rows, plan.len(), row, col);
}

/// Copying a table in row-major order and copying it in column-major
/// order give the same table. `by_rows` and `by_cols` list the cells of
/// one table, the first row by row and the second column by column;
/// what the two copies write differs only in the order of the writes.
pub proof fn lemma_orders_give_same_table<TP: Transport>(
    rows: nat,
    plan: Seq<(TP::TSS, TP::TSD)>,
    by_rows: Seq<SourceValueOf<TP>>,
    by_cols: Seq<SourceValueOf<TP>>,
)
    requires
        by_rows.len() == rows * plan.len(),
        by_cols.len() == rows * plan.len(),
        forall|row: int, col: int|
            0 <= row < rows && 0 <= col < plan.len() ==> #[trigger] cell_of(
                DataOrder::RowMajor,
                rows,
                plan.len(),
                by_rows,
                row,
                col,
            ) == cell_of(DataOrder::ColumnMajor, rows, plan.len(), by_cols, row, col),
    ensures
        forall|row: int, col: int|
            0 <= row < rows && 0 <= col < plan.len() ==> #[trigger] cell_of(
                DataOrder::RowMajor,
                rows,
                plan.len(),
                converted::<TP>(DataOrder::RowMajor, rows, plan, by_rows),
                row,
                col,
            ) == cell_of(
                DataOrder::ColumnMajor,
                rows,
                plan.len(),
                converted::<TP>(DataOrder::ColumnMajor, rows, plan, by_cols),
                row,
                col,
            ),
{
    assert forall|row: int, col: int| 0 <= row < rows && 0 <= col < plan.len() implies #[trigger] cell_of(
        DataOrder::RowMajor,
        rows,
        plan.len(),
        converted::<TP>(DataOrder::RowMajor, rows, plan, by_rows),
        row,
        col,
    ) == cell_of(
        DataOrder::ColumnMajor,
        rows,
        plan.len(),
        converted::<TP>(DataOrder::ColumnMajor, rows, plan, by_cols),
        row,
        col,
    ) by {
        lemma_copy_is_cellwise::<TP>(DataOrder::RowMajor, rows, plan, by_rows, row, col);
        lemma_copy_is_cellwise::<TP>(DataOrder::ColumnMajor, rows, plan, by_cols, row, col);
        assert(cell_of(DataOrder::RowMajor, rows, plan.len(), by_rows, row, col) == cell_of(
            DataOrder::ColumnMajor,
            rows,
            plan.len(),
            by_cols,
            row,
            col,
        ));
    }
}

/// `itertools::Itertools::zip_eq` on two slices of equal length, the
/// pairs collected: the i-th pair holds the i-th item of each slice.
/// The iterator panics where one slice ends before the other.
#[verifier::external_body]
fn zip_eq_pairs<A: Copy, B: Copy>(left: &[A], right: &[B]) -> (pairs: Vec<(A, B)>)
    requires
        left@.len() == right@.len(),
    ensures
        pairs@.len() == left@.len(),
        forall|i: int| 0 <= i < pairs@.len() ==> #[trigger] pairs@[i] == (left@[i], right@[i]),
{
    left.iter().zip_eq(right).map(|(&a, &b)| (a, b)).collect()
}

/// The conversion plan of a run: for every column its source type and
/// its destination type. It is computed once and shared by all
/// partitions.
pub fn conversion_plan<TP: Transport>(src_schema: &[TP::TSS], dst_schema: &[TP::TSD]) -> (plan: Vec<
    (TP::TSS, TP::TSD),
>)
    requires
        schema_converts::<TP>(src_schema@, dst_schema@),
    ensures
        plan@ == plan_of::<TP>(src_schema@, dst_schema@),
        plan_fits::<TP>(plan@, src_schema@),
{
    let plan = zip_eq_pairs(src_schema, dst_schema);
    assert(plan@ =~= plan_of::<TP>(src_schema@, dst_schema@));
    plan
}

/// The total number of rows of a transfer, or nothing where it is more
/// than the machine can count.
pub fn sum_rows(counts: &[usize]) -> (total: Option<usize>)
    ensures
        match total {
            Some(t) => t == total_rows(counts@),
            None => total_rows(counts@) > usize::MAX,
        },
{
    let mut total: usize = 0;
    let mut i: usize = 0;
    assert(counts@.take(0) =~= Seq::<usize>::empty());
    while i < counts.len()
        invariant
            i <= counts.len(),
            total == total_rows(counts@.take(i as int)),
        decreases counts.len() - i,
    {
        proof {
            assert(counts@.take(i + 1).drop_last() =~= counts@.take(i as int));
            lemma_total_rows_of_prefix(counts@, i + 1);
        }
        match total.checked_add(counts[i]) {
            Some(t) => {
                total = t;
            },
            None => {
                return None;
            },
        }
        i += 1;
    }
    assert(counts@.take(counts.len() as int) =~= counts@);
    Some(total)
}

/// The row counts of prepared partitions, in the partitions' order.
pub open spec fn row_counts<P: SourcePartition>(parts: Seq<P>) -> Seq<usize> {
    Seq::new(parts.len(), |i: int| parts[i]@.rows as usize)
}

/// Asks every partition for its row count.
pub fn count_rows<P: SourcePartition>(parts: &Vec<P>) -> (counts: Vec<usize>)
    requires
        forall|i: int| 0 <= i < parts@.len() ==> (#[trigger] parts@[i])@.prepared,
    ensures
        counts@ == row_counts(parts@),
        forall|i: int| 0 <= i < parts@.len() ==> (#[trigger] counts@[i]) == parts@[i]@.rows,
{
    let mut counts: Vec<usize> = Vec::new();
    let mut i: usize = 0;
    while i < parts.len()
        invariant
            i <= parts.len(),
            counts@.len() == i,
            forall|j: int| 0 <= j < parts@.len() ==> (#[trigger] parts@[j])@.prepared,
            forall|j: int| 0 <= j < i ==> (#[trigger] counts@[j]) == parts@[j]@.rows,
        decreases parts.len() - i,
    {
        counts.push(parts[i].nrows());
        i += 1;
    }
    assert(counts@ =~= row_counts(parts@));
    counts
}


/// A region as a destination hands it out: sized for `rows` rows of the
/// columns `dst_schema`, with nothing written into it.
pub open spec fn fresh_region<TP: Transport>(
    order: DataOrder,
    dst_schema: Seq<TP::TSD>,
    rows: nat,
) -> DestinationPartitionViewOf<TP> {
    DestinationPartitionView { order, schema: dst_schema, rows, written: Seq::empty() }
}

/// A prepared source partition and the destination partition it is
/// paired with can be copied under `plan`: the destination's region is
/// sized for the source's rows and columns, and nothing is written
/// into it yet.
pub open spec fn pairs_up<TP: Transport>(
    order: DataOrder,
    plan: Seq<(TP::TSS, TP::TSD)>,
    src: SourcePartitionViewOf<TP>,
    dst: DestinationPartitionViewOf<TP>,
) -> bool {
    &&& src.ready()
    &&& src.order == order
    &&& plan_fits::<TP>(plan, src.schema)
    &&& dst.rows == src.rows
    &&& dst.cols() == src.cols()
    &&& dst.written.len() == 0
}

/// What the copy of one pair leaves: the source partition has handed
/// out its last cell and is finalized, and the region holds, behind
/// what it held, the source's cells in the order in which they were
/// handed out, each converted as the plan says for its column.
pub open spec fn transferred<TP: Transport>(
    order: DataOrder,
    plan: Seq<(TP::TSS, TP::TSD)>,
    before: SourcePartitionViewOf<TP>,
    after: SourcePartitionViewOf<TP>,
    region: DestinationPartitionViewOf<TP>,
    filled: DestinationPartitionViewOf<TP>,
) -> bool {
    &&& after == (SourcePartitionView { consumed: before.stream.len(), finalized: true, ..before })
    &&& filled == (DestinationPartitionView {
        written: region.written + converted::<TP>(order, before.rows, plan, before.stream),
        ..region
    })
}

/// Every source partition is prepared for the order and goes by the
/// plan.
pub open spec fn ready_all<TP: Transport>(
    order: DataOrder,
    plan: Seq<(TP::TSS, TP::TSD)>,
    parts: Seq<SourcePartitionOf<TP>>,
) -> bool {
    forall|i: int|
        0 <= i < parts.len() ==> {
            &&& (#[trigger] parts[i])@.ready()
            &&& parts[i]@.order == order
            &&& plan_fits::<TP>(plan, parts[i]@.schema)
        }
}

/// What the copy of a whole transfer leaves: the i-th source partition
/// and the i-th region are as `transferred` says of a region that was
/// handed out for the source partition's rows.
pub open spec fn copied_all<TP: Transport>(
    order: DataOrder,
    plan: Seq<(TP::TSS, TP::TSD)>,
    dst_schema: Seq<TP::TSD>,
    before: Seq<SourcePartitionOf<TP>>,
    after: Seq<SourcePartitionOf<TP>>,
    filled: Seq<DestinationPartitionOf<TP>>,
) -> bool {
    &&& after.len() == before.len()
    &&& filled.len() == before.len()
    &&& forall|i: int|
        0 <= i < before.len() ==> transferred::<TP>(
            order,
            plan,
            (#[trigger] before[i])@,
            after[i]@,
            fresh_region::<TP>(order, dst_schema, before[i]@.rows),
            filled[i]@,
        )
}

/// A copied region holds the source partition's table, converted: cell
/// (`row`, `col`) of the region is the converted cell (`row`, `col`)
/// of the source partition, so every cell of the source is written
/// once, with the conversion of its column.
pub proof fn lemma_region_holds_converted_table<TP: Transport>(
    order: DataOrder,
    plan: Seq<(TP::TSS, TP::TSD)>,
    before: SourcePartitionViewOf<TP>,
    after: SourcePartitionViewOf<TP>,
    region: DestinationPartitionViewOf<TP>,
    filled: DestinationPartitionViewOf<TP>,
    row: int,
    col: int,
)
    requires
        pairs_up::<TP>(order, plan, before, region),
        transferred::<TP>(order, plan, before, after, region, filled),
        0 <= row < before.rows,
        0 <= col < before.cols(),
    ensures
        filled.written.len() == before.rows * before.cols(),
        cell_of(order, before.rows, before.cols(), filled.written, row, col) == TP::convert_value(
            plan[col].0,
            plan[col].1,
            cell_of(order, before.rows, before.cols(), before.stream, row, col),
        ),
{
    assert(filled.written =~= converted::<TP>(order, before.rows, plan, before.stream));
    lemma_copy_is_cellwise::<TP>(order, before.rows, plan, before.stream, row, col);
}

/// A transfer in row-major order and a transfer in column-major order
/// of one table leave regions that hold the same table: where the two
/// source partitions hold the same cell at every place, so do the two
/// copied regions. Only the order of the writes differs.
pub proof fn lemma_transfers_hold_same_table<TP: Transport>(
    plan: Seq<(TP::TSS, TP::TSD)>,
    by_rows: SourcePartitionViewOf<TP>,
    by_cols: SourcePartitionViewOf<TP>,
    after_rows: SourcePartitionViewOf<TP>,
    after_cols: SourcePartitionViewOf<TP>,
    region_rows: DestinationPartitionViewOf<TP>,
    region_cols: DestinationPartitionViewOf<TP>,
    filled_rows: DestinationPartitionViewOf<TP>,
    filled_cols: DestinationPartitionViewOf<TP>,
)
    requires
        pairs_up::<TP>(DataOrder::RowMajor, plan, by_rows, region_rows),
        pairs_up::<TP>(DataOrder::ColumnMajor, plan, by_cols, region_cols),
        transferred::<TP>(DataOrder::RowMajor, plan, by_rows, after_rows, region_rows, filled_rows),
        transferred::<TP>(DataOrder::ColumnMajor, plan, by_cols, after_cols, region_cols, filled_cols),
        by_rows.rows == by_cols.rows,
        forall|row: int, col: int|
            0 <= row < by_rows.rows && 0 <= col < plan.len() ==> #[trigger] cell_of(
                DataOrder::RowMajor,
                by_rows.rows,
                plan.len(),
                by_rows.stream,
                row,
                col,
            ) == cell_of(DataOrder::ColumnMajor, by_rows.rows, plan.len(), by_cols.stream, row, col),
    ensures
        forall|row: int, col: int|
            0 <= row < by_rows.rows && 0 <= col < plan.len() ==> #[trigger] cell_of(
                DataOrder::RowMajor,
                by_rows.rows,
                plan.len(),
                filled_rows.written,
                row,
                col,
            ) == cell_of(DataOrder::ColumnMajor, by_rows.rows, plan.len(), filled_cols.written, row, col),
{
    assert(filled_rows.written =~= converted::<TP>(DataOrder::RowMajor, by_rows.rows, plan, by_rows.stream));
    assert(filled_cols.written =~= converted::<TP>(
        DataOrder::ColumnMajor,
        by_rows.rows,
        plan,
        by_cols.stream,
    ));
    lemma_orders_give_same_table::<TP>(by_rows.rows, plan, by_rows.stream, by_cols.stream);
}

/// Copies one source partition into the destination partition it is
/// paired with: obtains the write cursor, copies every cell, then
/// finalizes the source partition. The first step that fails ends the
/// copy with its error.
pub fn transfer_partition<TP: Transport>(
    order: DataOrder,
    plan: &[(TP::TSS, TP::TSD)],
    src: &mut SourcePartitionOf<TP>,
    dst: &mut DestinationPartitionOf<TP>,
) -> (r: Result<(), ConnectorError>)
    requires
        pairs_up::<TP>(order, plan@, old(src)@, old(dst)@),
    ensures
        match r {
            Ok(_) => transferred::<TP>(order, plan@, old(src)@, final(src)@, old(dst)@, final(dst)@),
            Err(e) => e == ConnectorError::DestinationAllocationError || e == ConnectorError::ConversionError
                || e == ConnectorError::SourceFetchError,
        },
{
    let parser = match dst.parser() {
        Ok(parser) => parser,
        Err(e) => {
            return Err(e);
        },
    };
    match copy_cells::<TP>(order, plan, parser, src) {
        Ok(_) => {},
        Err(e) => {
            return Err(e);
        },
    }
    src.finalize()
}

/// Prepares one source partition: runs its query and establishes its
/// row count.
pub fn prepare_partition<P: SourcePartition>(part: &mut P) -> (r: Result<(), ConnectorError>)
    requires
        !old(part)@.prepared,
        !old(part)@.finalized,
    ensures
        match r {
            Ok(_) => prepared_from(old(part)@, final(part)@),
            Err(e) => e == ConnectorError::SourceFetchError,
        },
{
    part.prepare()
}

/// `rayon`'s `par_iter_mut` and `try_for_each` with
/// `prepare_partition` on every partition: every partition is asked at
/// most once, `Ok` comes back only where every partition was asked and
/// answered `Ok`, and an error that comes back is one that
/// `prepare_partition` returned.
#[verifier::external_body]
fn prepare_each<P: SourcePartition + Send>(parts: &mut Vec<P>) -> (r: Result<(), ConnectorError>)
    requires
        forall|i: int|
            0 <= i < old(parts)@.len() ==> !(#[trigger] old(parts)@[i])@.prepared && !old(parts)@[i]@.finalized,
    ensures
        final(parts)@.len() == old(parts)@.len(),
        match r {
            Ok(_) => forall|i: int|
                0 <= i < final(parts)@.len() ==> prepared_from(old(parts)@[i]@, (#[trigger] final(parts)@[i])@),
            Err(e) => e == ConnectorError::SourceFetchError,
        },
{
    parts.par_iter_mut().try_for_each(|part| prepare_partition(part))
}

/// `rayon`'s `par_iter_mut`, `zip_eq` and `try_for_each` with
/// `transfer_partition` on every pair: the i-th destination partition
/// goes with the i-th source partition, every pair is taken at most
/// once, `Ok` comes back only where every pair was taken and answered
/// `Ok`, and an error that comes back is one that `transfer_partition`
/// returned. `zip_eq` panics on lists of different lengths.
#[verifier::external_body]
fn transfer_each<TP: Transport>(
    order: DataOrder,
    plan: &[(TP::TSS, TP::TSD)],
    dst_parts: &mut Vec<DestinationPartitionOf<TP>>,
    src_parts: &mut Vec<SourcePartitionOf<TP>>,
) -> (r: Result<(), ConnectorError>)
    requires
        old(dst_parts)@.len() == old(src_parts)@.len(),
        forall|i: int|
            0 <= i < old(src_parts)@.len() ==> pairs_up::<TP>(
                order,
                plan@,
                (#[trigger] old(src_parts)@[i])@,
                old(dst_parts)@[i]@,
            ),
    ensures
        final(dst_parts)@.len() == old(dst_parts)@.len(),
        final(src_parts)@.len() == old(src_parts)@.len(),
        match r {
            Ok(_) => forall|i: int|
                0 <= i < old(src_parts)@.len() ==> transferred::<TP>(
                    order,
                    plan@,
                    (#[trigger] old(src_parts)@[i])@,
                    final(src_parts)@[i]@,
                    old(dst_parts)@[i]@,
                    final(dst_parts)@[i]@,
                ),
            Err(e) => e == ConnectorError::DestinationAllocationError || e == ConnectorError::ConversionError
                || e == ConnectorError::SourceFetchError,
        },
{
    dst_parts.par_iter_mut().zip_eq(src_parts.par_iter_mut()).try_for_each(
        |(dst, src)| transfer_partition::<TP>(order, plan, src, dst),
    )
}

/// The end of a run, from the outcome of splitting the destination
/// on: copies every source partition into the region of the same
/// index, in parallel, and gives the regions back as the copy left
/// them. Where the destination could not be split, its error is
/// handed on and no source partition is touched.
pub fn transfer_split<TP: Transport>(
    split: Result<Vec<DestinationPartitionOf<TP>>, ConnectorError>,
    order: DataOrder,
    plan: &[(TP::TSS, TP::TSD)],
    src_partitions: &mut Vec<SourcePartitionOf<TP>>,
) -> (r: Result<Vec<DestinationPartitionOf<TP>>, ConnectorError>)
    requires
        split matches Ok(regions) ==> {
            &&& regions@.len() == old(src_partitions)@.len()
            &&& forall|i: int|
                0 <= i < old(src_partitions)@.len() ==> pairs_up::<TP>(
                    order,
                    plan@,
                    (#[trigger] old(src_partitions)@[i])@,
                    regions@[i]@,
                )
        },
    ensures
        final(src_partitions)@.len() == old(src_partitions)@.len(),
        split matches Err(e) ==> r == Err::<Vec<DestinationPartitionOf<TP>>, ConnectorError>(e)
            && *final(src_partitions) == *old(src_partitions),
        match r {
            Ok(filled) => {
                &&& split is Ok
                &&& filled@.len() == old(src_partitions)@.len()
                &&& forall|i: int|
                    0 <= i < old(src_partitions)@.len() ==> transferred::<TP>(
                        order,
                        plan@,
                        (#[trigger] old(src_partitions)@[i])@,
                        final(src_partitions)@[i]@,
                        split->Ok_0@[i]@,
                        filled@[i]@,
                    )
            },
            Err(e) => split is Ok ==> e == ConnectorError::DestinationAllocationError || e
                == ConnectorError::ConversionError || e == ConnectorError::SourceFetchError,
        },
{
    match split {
        Err(e) => Err(e),
        Ok(regions) => {
            let mut regions = regions;
            match transfer_each::<TP>(order, plan, &mut regions, src_partitions) {
                Ok(_) => Ok(regions),
                Err(e) => Err(e),
            }
        },
    }
}

/// The destination `dst` was sized for the rows `counts` of the
/// columns that the plan leads to, in the order `order`, and is not
/// split yet.
pub open spec fn sized_for<T>(dst: DestinationView<T>, order: DataOrder, cols: nat, counts: Seq<usize>) -> bool {
    &&& dst.allocation matches Some(allocation)
    &&& allocation.rows == total_rows(counts)
    &&& allocation.order == order
    &&& allocation.schema.len() == cols
    &&& dst.partitions is None
}

/// The rest of a run, from the outcome of sizing the destination on:
/// splits the destination into one region per source partition, then
/// goes on as `transfer_split` does. Where the destination could not
/// be sized, its error is handed on and nothing is touched.
pub fn transfer_sized<TP: Transport>(
    allocated: Result<(), ConnectorError>,
    order: DataOrder,
    plan: &[(TP::TSS, TP::TSD)],
    counts: &[usize],
    src_partitions: &mut Vec<SourcePartitionOf<TP>>,
    dst: &mut TP::D,
) -> (r: Result<Vec<DestinationPartitionOf<TP>>, ConnectorError>)
    requires
        ready_all::<TP>(order, plan@, old(src_partitions)@),
        counts@ == row_counts(old(src_partitions)@),
        forall|i: int| 0 <= i < counts@.len() ==> (#[trigger] counts@[i]) == old(src_partitions)@[i]@.rows,
        allocated is Ok ==> sized_for(old(dst)@, order, plan@.len(), counts@),
    ensures
        final(src_partitions)@.len() == old(src_partitions)@.len(),
        allocated matches Err(e) ==> r == Err::<Vec<DestinationPartitionOf<TP>>, ConnectorError>(e)
            && *final(dst) == *old(dst) && *final(src_partitions) == *old(src_partitions),
        match r {
            Ok(filled) => {
                &&& allocated is Ok
                &&& final(dst)@ == (DestinationView { partitions: Some(counts@), ..old(dst)@ })
                &&& copied_all::<TP>(
                    order,
                    plan@,
                    old(dst)@.allocation->0.schema,
                    old(src_partitions)@,
                    final(src_partitions)@,
                    filled@,
                )
            },
            Err(e) => allocated is Ok ==> {
                &&& e == ConnectorError::DestinationAllocationError || e == ConnectorError::ConversionError
                    || e == ConnectorError::SourceFetchError
                &&& e != ConnectorError::DestinationAllocationError ==> final(dst)@ == (DestinationView {
                    partitions: Some(counts@),
                    ..old(dst)@
                })
            },
        },
{
    match allocated {
        Err(e) => Err(e),
        Ok(_) => {
            let split = dst.partition(counts);
            transfer_split::<TP>(split, order, plan, src_partitions)
        },
    }
}

/// What a run leaves in a destination that it sized and split: the
/// destination was sized for the sum of `counts`, for the given
/// columns and order, and split into one partition per count.
pub open spec fn filled_for<T>(
    dst: DestinationView<T>,
    order: DataOrder,
    names: Seq<Seq<char>>,
    schema: Seq<T>,
    counts: Seq<usize>,
) -> bool {
    &&& dst.allocation == Some(Allocation { rows: total_rows(counts), names, schema, order })
    &&& dst.partitions == Some(counts)
}

/// The rest of a run, from the outcome of preparing the source
/// partitions on: sizes the destination for the sum of the partitions'
/// row counts, then goes on as `transfer_sized` does.
///
/// Where a partition failed to prepare, its error is handed on and the
/// destination is not touched: it is not sized, no partition of it is
/// made, and no write cursor is obtained.
pub fn transfer_prepared<TP: Transport>(
    prepared: Result<(), ConnectorError>,
    order: DataOrder,
    names: &[String],
    plan: &[(TP::TSS, TP::TSD)],
    dst_schema: &[TP::TSD],
    src_partitions: &mut Vec<SourcePartitionOf<TP>>,
    dst: &mut TP::D,
) -> (r: Result<Vec<DestinationPartitionOf<TP>>, ConnectorError>)
    requires
        names@.len() == dst_schema@.len(),
        plan@.len() == dst_schema@.len(),
        prepared is Ok ==> ready_all::<TP>(order, plan@, old(src_partitions)@),
    ensures
        final(src_partitions)@.len() == old(src_partitions)@.len(),
        prepared matches Err(e) ==> r == Err::<Vec<DestinationPartitionOf<TP>>, ConnectorError>(e)
            && *final(dst) == *old(dst) && *final(src_partitions) == *old(src_partitions),
        prepared is Ok && total_rows(row_counts(old(src_partitions)@)) > usize::MAX ==> r == Err::<
            Vec<DestinationPartitionOf<TP>>,
            ConnectorError,
        >(ConnectorError::DestinationAllocationError) && *final(dst) == *old(dst) && *final(src_partitions)
            == *old(src_partitions),
        match r {
            Ok(filled) => {
                &&& prepared is Ok
                &&& filled_for(
                    final(dst)@,
                    order,
                    texts(names@),
                    dst_schema@,
                    row_counts(old(src_partitions)@),
                )
                &&& copied_all::<TP>(
                    order,
                    plan@,
                    dst_schema@,
                    old(src_partitions)@,
                    final(src_partitions)@,
                    filled@,
                )
            },
            Err(e) => prepared is Ok ==> {
                &&& e == ConnectorError::DestinationAllocationError || e == ConnectorError::ConversionError
                    || e == ConnectorError::SourceFetchError
                &&& e != ConnectorError::DestinationAllocationError ==> filled_for(
                    final(dst)@,
                    order,
                    texts(names@),
                    dst_schema@,
                    row_counts(old(src_partitions)@),
                )
            },
        },
{
    match prepared {
        Err(e) => {
            return Err(e);
        },
        Ok(_) => {},
    }
    let num_rows = count_rows(&*src_partitions);
    let total = match sum_rows(num_rows.as_slice()) {
        Some(total) => total,
        None => {
            return Err(ConnectorError::DestinationAllocationError);
        },
    };
    let allocated = dst.allocate(total, names, dst_schema, order);
    transfer_sized::<TP>(allocated, order, plan, num_rows.as_slice(), src_partitions, dst)
}

/// `ToString::to_string` on one query. What the text is, the query's
/// own `Display` decides.
#[verifier::external_body]
fn query_text<Q: ToString>(query: &Q) -> (text: String) {
    query.to_string()
}

/// `text` is a text that `query` was taken as: what `to_string`
/// answered for it.
pub closed spec fn is_text_of<Q: ToString>(query: Q, text: String) -> bool {
    call_ensures(query_text::<Q>, (&query,), text)
}

/// `source` is a source as a run leaves it once the metadata is
/// fetched: it was told the first order of its own that the
/// destination supports, it was given the queries, and it has one name
/// for every column.
pub open spec fn fetched_for<TP: Transport>(queries: Seq<Seq<char>>, source: TP::S) -> bool {
    &&& source@.fetched
    &&& source@.queried
    &&& source@.queries == queries
    &&& source@.order is Some
    &&& is_first_mutual(
        <TP::S as Source>::DATA_ORDERS@,
        <TP::D as Destination>::DATA_ORDERS@,
        source@.order->0,
    )
    &&& source@.names.len() == source@.schema.len()
}

/// `prepared` are the partitions of `source` as a run leaves them
/// once they are prepared: every column of the source has a
/// destination type, `fresh` are the partitions that the source
/// answered when it was asked to partition, and the i-th of `prepared`
/// is what a successful `prepare` made of the i-th of `fresh`.
pub open spec fn prepared_for<TP: Transport>(
    queries: Seq<Seq<char>>,
    source: TP::S,
    fresh: Vec<SourcePartitionOf<TP>>,
    prepared: Seq<SourcePartitionOf<TP>>,
) -> bool {
    &&& fetched_for::<TP>(queries, source)
    &&& convertible::<TP>(source@.schema)
    &&& call_ensures(
        <TP::S as Source>::partition,
        (source,),
        Ok::<Vec<SourcePartitionOf<TP>>, ConnectorError>(fresh),
    )
    &&& prepared.len() == fresh@.len()
    &&& forall|i: int| 0 <= i < prepared.len() ==> prepared_from(fresh@[i]@, (#[trigger] prepared[i])@)
}

/// The destination `dst` is sized and split for the prepared
/// partitions of `source`: for the source's names, for the destination
/// types of its columns, for its order and for the partitions' row
/// counts.
pub open spec fn split_for<TP: Transport>(
    queries: Seq<Seq<char>>,
    source: TP::S,
    fresh: Vec<SourcePartitionOf<TP>>,
    prepared: Seq<SourcePartitionOf<TP>>,
    dst: TP::D,
) -> bool {
    &&& prepared_for::<TP>(queries, source, fresh, prepared)
    &&& filled_for(
        dst@,
        source@.order->0,
        source@.names,
        dst_schema_of::<TP>(source@.schema),
        row_counts(prepared),
    )
}

/// The whole of a transfer: the destination is sized and split for the
/// prepared partitions of `source`, and the i-th region holds the
/// cells of the i-th partition, converted, while the partition has
/// handed out its last cell and is finalized.
pub open spec fn copied_for<TP: Transport>(
    queries: Seq<Seq<char>>,
    source: TP::S,
    fresh: Vec<SourcePartitionOf<TP>>,
    prepared: Seq<SourcePartitionOf<TP>>,
    finalized: Seq<SourcePartitionOf<TP>>,
    regions: Seq<DestinationPartitionOf<TP>>,
    dst: TP::D,
) -> bool {
    &&& split_for::<TP>(queries, source, fresh, prepared, dst)
    &&& copied_all::<TP>(
        source@.order->0,
        plan_of::<TP>(source@.schema, dst_schema_of::<TP>(source@.schema)),
        dst_schema_of::<TP>(source@.schema),
        prepared,
        finalized,
        regions,
    )
}

/// A dispatcher owns a source and the queries to issue to it, and
/// borrows the destination for the run.
pub struct Dispatcher<'a, S, W, TP> {
    src: S,
    dst: &'a mut W,
    queries: Vec<String>,
    _phantom: PhantomData<TP>,
}

impl<'w, S, TSS, W, TSD, TP> Dispatcher<'w, S, W, TP> where
    TSS: TypeSystem,
    TSD: TypeSystem,
    S: Source<TypeSystem = TSS>,
    W: Destination<TypeSystem = TSD>,
    TP: Transport<TSS = TSS, TSD = TSD, S = S, D = W>,
 {
    /// The source.
    pub closed spec fn source(self) -> S {
        self.src
    }

    /// The borrowed destination.
    pub closed spec fn destination(self) -> &'w mut W {
        self.dst
    }

    /// The queries as the dispatcher holds them, in their order.
    pub closed spec fn query_strings(self) -> Seq<String> {
        self.queries@
    }

    /// The texts of the queries, in their order.
    pub closed spec fn queries(self) -> Seq<Seq<char>> {
        texts(self.queries@)
    }

    /// A run got as far as the fetched metadata and found a column
    /// without destination type.
    pub open spec fn lacks_type(self) -> bool {
        exists|source: S| #[trigger] fetched_for::<TP>(self.queries(), source) && !convertible::<TP>(source@.schema)
    }

    /// A run got as far as the prepared partitions of the source.
    pub open spec fn prepared(self) -> bool {
        exists|source: S, fresh: Vec<S::Partition>, prepared: Seq<S::Partition>| #[trigger]
            prepared_for::<TP>(self.queries(), source, fresh, prepared)
    }

    /// A run got as far as the destination `dst`, sized and split for
    /// the prepared partitions of the source.
    pub open spec fn split(self, dst: W) -> bool {
        exists|source: S, fresh: Vec<S::Partition>, prepared: Seq<S::Partition>| #[trigger]
            split_for::<TP>(self.queries(), source, fresh, prepared, dst)
    }

    /// A run got to its end: it left the destination `dst` sized and
    /// split, every source partition read to its last cell and
    /// finalized, and in every region the converted cells of the
    /// source partition of the same index.
    pub open spec fn copied(self, dst: W) -> bool {
        exists|
            source: S,
            fresh: Vec<S::Partition>,
            prepared: Seq<S::Partition>,
            finalized: Seq<S::Partition>,
            regions: Seq<W::Partition>,
        | #[trigger]
            copied_for::<TP>(self.queries(), source, fresh, prepared, finalized, regions, dst)
    }

    /// Creates a dispatcher from a source, a destination and the texts
    /// of the queries to be issued to the source.
    pub fn with_queries(src: S, dst: &'w mut W, queries: Vec<String>) -> (d: Self)
        ensures
            d.source() == src,
            *d.destination() == *old(dst),
            *final(d.destination()) == *final(dst),
            d.query_strings() == queries@,
            d.queries() == texts(queries@),
    {
        Dispatcher { src, dst, queries, _phantom: PhantomData }
    }

    /// Creates a dispatcher from a source, a destination and the
    /// queries to be issued to the source, each taken as the text that
    /// it displays as: the dispatcher holds one text per query, in the
    /// queries' order, and the k-th text is that of the k-th query.
    pub fn new<Q: ToString>(src: S, dst: &'w mut W, queries: &[Q]) -> (d: Self)
        ensures
            d.source() == src,
            *d.destination() == *old(dst),
            *final(d.destination()) == *final(dst),
            d.query_strings().len() == queries@.len(),
            forall|k: int|
                0 <= k < queries@.len() ==> is_text_of(queries@[k], #[trigger] d.query_strings()[k]),
            d.queries() == texts(d.query_strings()),
    {
        let mut strings: Vec<String> = Vec::new();
        let mut i: usize = 0;
        while i < queries.len()
            invariant
                i <= queries.len(),
                strings@.len() == i,
                forall|k: int| 0 <= k < i ==> is_text_of(queries@[k], #[trigger] strings@[k]),
            decreases queries.len() - i,
        {
            strings.push(query_text(&queries[i]));
            i += 1;
        }
        Self::with_queries(src, dst, strings)
    }

    /// Runs the transfer: negotiates the data order, tells it to the
    /// source, hands the source the queries, fetches its metadata,
    /// converts the schema, creates and prepares the source
    /// partitions, sizes and splits the destination, copies every
    /// partition and finalizes the source partitions. The first step
    /// that fails ends the run with its error.
    ///
    /// The run fails for want of a mutual data order, and only then
    /// with that error. Where it fails before the destination is
    /// sized, the destination is untouched.
    pub fn run(self) -> (r: Result<(), ConnectorError>)
        ensures
            r == Err::<(), ConnectorError>(ConnectorError::DataOrderMismatch) <==> no_mutual_order(
                S::DATA_ORDERS@,
                W::DATA_ORDERS@,
            ),
            match r {
                Ok(_) => self.copied(*final(self.destination())),
                Err(ConnectorError::DataOrderMismatch) => *final(self.destination()) == *self.destination(),
                Err(ConnectorError::UnsupportedTypePair) => self.lacks_type() && *final(self.destination())
                    == *self.destination(),
                Err(ConnectorError::SourceFetchError) => *final(self.destination()) == *self.destination()
                    || self.split(*final(self.destination())),
                Err(ConnectorError::DestinationAllocationError) => self.prepared(),
                Err(ConnectorError::ConversionError) => self.split(*final(self.destination())),
            },
    {
        let Dispatcher { src, dst, queries, _phantom } = self;
        let mut src = src;
        let order = match coordinate(S::DATA_ORDERS, W::DATA_ORDERS) {
            Ok(order) => order,
            Err(e) => {
                return Err(e);
            },
        };
        proof {
            crate::data_order::lemma_first_mutual_unique(S::DATA_ORDERS@, W::DATA_ORDERS@, order, order);
        }
        match src.set_data_order(order) {
            Ok(_) => {},
            Err(e) => {
                return Err(e);
            },
        }
        src.set_queries(queries.as_slice());
        match src.fetch_metadata() {
            Ok(_) => {},
            Err(e) => {
                return Err(e);
            },
        }
        let ghost source = src;
        assert(fetched_for::<TP>(self.queries(), source));
        let src_schema = slice_to_vec(src.schema());
        let dst_schema = match convert_schema::<TP>(src_schema.as_slice()) {
            Ok(schema) => schema,
            Err(e) => {
                return Err(e);
            },
        };
        proof {
            lemma_schema_converts::<TP>(src_schema@, dst_schema@);
        }
        let names = clone_strings(src.names());
        let plan = conversion_plan::<TP>(src_schema.as_slice(), dst_schema.as_slice());
        let mut src_partitions = match src.partition() {
            Ok(parts) => parts,
            Err(e) => {
                return Err(e);
            },
        };
        let ghost fresh = src_partitions;
        let prepared = prepare_each(&mut src_partitions);
        let ghost ready = src_partitions@;
        assert(prepared is Ok ==> prepared_for::<TP>(self.queries(), source, fresh, ready));
        let r = transfer_prepared::<TP>(
            prepared,
            order,
            names.as_slice(),
            plan.as_slice(),
            dst_schema.as_slice(),
            &mut src_partitions,
            dst,
        );
        match r {
            Ok(regions) => {
                assert(copied_for::<TP>(
                    self.queries(),
                    source,
                    fresh,
                    ready,
                    src_partitions@,
                    regions@,
                    *final(self.destination()),
                ));
                Ok(())
            },
            Err(e) => {
                assert(prepared is Ok && e != ConnectorError::DestinationAllocationError ==> split_for::<TP>(
                    self.queries(),
                    source,
                    fresh,
                    ready,
                    *final(self.destination()),
                ));
                Err(e)
            },
        }
    }
}

} // verus!
