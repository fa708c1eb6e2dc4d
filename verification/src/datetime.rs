//! A block of nanosecond timestamps and its columns: mutable views of
//! one two-dimensional buffer, split without copying into regions that
//! never overlap.

use crate::destinations::{lemma_total_rows_of_prefix, total_rows};
use ndarray::{ArrayViewMut1, ArrayViewMut2, Axis, ShapeError};
use vstd::pervasive::unreached;
use vstd::prelude::*;

verus! {

/// The error of `ndarray`'s reshaping.
#[verifier::external_type_specification]
#[verifier::external_body]
pub struct ExShapeError(ShapeError);

/// A mutable view of a two-dimensional array of nanosecond timestamps.
/// Every row of the array is one column of the table.
#[verifier::external_body]
pub struct DateTimeBlock<'a> {
    /// The view.
    pub data: ArrayViewMut2<'a, i64>,
}

/// A mutable view of a one-dimensional array of nanosecond timestamps:
/// one column of the table, or a run of its rows.
#[verifier::external_body]
pub struct DateTimeColumn<'a> {
    /// The view.
    pub data: ArrayViewMut1<'a, i64>,
}

/// The cells that a block's view shows, row by row of the array.
pub uninterp spec fn block_rows(block: &DateTimeBlock<'_>) -> Seq<Seq<i64>>;

/// The length of the second axis of a block's view.
pub uninterp spec fn block_width(block: &DateTimeBlock<'_>) -> nat;

/// The stride of the second axis of a block's view: how many elements
/// lie from one cell of a row to the next.
pub uninterp spec fn block_inner_stride(block: &DateTimeBlock<'_>) -> int;

/// The cells that a column's view shows, in order.
pub uninterp spec fn column_cells(column: &DateTimeColumn<'_>) -> Seq<i64>;

/// What stands in a cell for a timestamp that may be missing: the
/// timestamp itself, or the least `i64` where there is none.
pub open spec fn stored(value: Option<i64>) -> i64 {
    match value {
        Some(nanos) => nanos,
        None => i64::MIN,
    }
}

/// What a cell stands for: no timestamp where it holds the least
/// `i64`, else the timestamp it holds.
pub open spec fn read_back(cell: i64) -> Option<i64> {
    if cell == i64::MIN {
        None
    } else {
        Some(cell)
    }
}

/// A missing timestamp is stored as the least `i64`, and so is the
/// timestamp of that value: the two cannot be told apart. Every other
/// timestamp is read back as it was written.
pub proof fn lemma_null_sentinel(value: Option<i64>)
    ensures
        stored(None) == i64::MIN,
        stored(Some(i64::MIN)) == stored(None),
        value != Some(i64::MIN) ==> read_back(stored(value)) == value,
        value == Some(i64::MIN) ==> read_back(stored(value)) == None::<i64>,
{
}

/// Where the `i`-th of the regions with the row counts `counts` starts.
pub open spec fn region_start(counts: Seq<usize>, i: int) -> nat {
    total_rows(counts.take(i))
}

impl<'a> DateTimeBlock<'a> {
    /// `ndarray`'s `nrows`: the length of the first axis.
    #[verifier::external_body]
    fn nrows(&self) -> (n: usize)
        ensures
            n == block_rows(self).len(),
    {
        self.data.nrows()
    }

    /// `ndarray`'s `ncols`: the length of the second axis, which is the
    /// length of every row.
    #[verifier::external_body]
    fn ncols(&self) -> (n: usize)
        ensures
            n == block_width(self),
            forall|i: int| 0 <= i < block_rows(self).len() ==> (#[trigger] block_rows(self)[i]).len() == n,
    {
        self.data.ncols()
    }

    /// `ndarray`'s `stride_of` for the second axis.
    #[verifier::external_body]
    fn inner_stride(&self) -> (stride: isize)
        ensures
            stride == block_inner_stride(self),
    {
        self.data.stride_of(Axis(1))
    }

    /// `ndarray`'s `split_at` along the first axis: the rows before
    /// `index` and the rows from `index` on, each with the width and
    /// the strides of the whole. It panics on an `index` beyond the
    /// last row.
    #[verifier::external_body]
    fn split_at_row(self, index: usize) -> (parts: (DateTimeBlock<'a>, DateTimeBlock<'a>))
        requires
            index <= block_rows(&self).len(),
        ensures
            block_rows(&parts.0) == block_rows(&self).take(index as int),
            block_rows(&parts.1) == block_rows(&self).skip(index as int),
            block_width(&parts.0) == block_width(&self),
            block_width(&parts.1) == block_width(&self),
            block_inner_stride(&parts.0) == block_inner_stride(&self),
            block_inner_stride(&parts.1) == block_inner_stride(&self),
    {
        let (head, rest) = self.data.split_at(Axis(0), index);
        (DateTimeBlock { data: head }, DateTimeBlock { data: rest })
    }

    /// `ndarray`'s `into_shape` on a view of one row, to one dimension
    /// of length `len`: it succeeds where `len` is the row's length
    /// and the row lies in one piece, which it does where it has at
    /// most one cell or its cells lie one element apart; what it gives
    /// shows the cells of that row.
    #[verifier::external_body]
    #[allow(deprecated)]
    fn into_shape(self, len: usize) -> (r: Result<DateTimeColumn<'a>, ShapeError>)
        requires
            block_rows(&self).len() == 1,
        ensures
            len == block_width(&self) && (len <= 1 || block_inner_stride(&self) == 1) ==> r is Ok,
            r matches Ok(column) ==> column_cells(&column) == block_rows(&self)[0],
    {
        match self.data.into_shape(len) {
            Ok(data) => Ok(DateTimeColumn { data }),
            Err(e) => Err(e),
        }
    }

    /// The columns of the table: the rows of the array.
    pub closed spec fn view(&self) -> Seq<Seq<i64>> {
        block_rows(self)
    }

    /// The number of rows of the table: the length of every column.
    pub closed spec fn width(&self) -> nat {
        block_width(self)
    }

    /// Every row of the block lies in one piece of memory: there is no
    /// row, or a row has at most one cell, or the cells of a row lie
    /// one element apart.
    pub closed spec fn contiguous(&self) -> bool {
        block_rows(self).len() == 0 || block_width(self) <= 1 || block_inner_stride(self) == 1
    }

    /// Whether every row of the block lies in one piece of memory.
    pub fn is_contiguous(&self) -> (contiguous: bool)
        ensures
            contiguous == self.contiguous(),
    {
        self.nrows() == 0 || self.ncols() <= 1 || self.inner_stride() == 1
    }

    /// Splits the block into one view per column of the table, where
    /// every row of the block lies in one piece. The views show
    /// disjoint memory: the i-th shows the i-th row of the array.
    pub fn split(self) -> (columns: Vec<DateTimeColumn<'a>>)
        requires
            self.contiguous(),
        ensures
            columns@.len() == self@.len(),
            forall|i: int| 0 <= i < columns@.len() ==> (#[trigger] columns@[i])@ == self@[i],
            forall|i: int| 0 <= i < columns@.len() ==> (#[trigger] columns@[i])@.len() == self.width(),
    {
        let ghost rows = block_rows(&self);
        let mut ret: Vec<DateTimeColumn<'a>> = Vec::new();
        let mut view = self;
        let nrows = view.ncols();
        while view.nrows() > 0
            invariant
                block_rows(&view).len() == 0 || nrows <= 1 || block_inner_stride(&view) == 1,
                block_width(&view) == nrows,
                ret@.len() + block_rows(&view).len() == rows.len(),
                block_rows(&view) == rows.skip(ret@.len() as int),
                forall|i: int| 0 <= i < rows.len() ==> (#[trigger] rows[i]).len() == nrows,
                forall|i: int| 0 <= i < ret@.len() ==> column_cells(#[trigger] &ret@[i]) == rows[i],
            decreases block_rows(&view).len(),
        {
            let (col, rest) = view.split_at_row(1);
            view = rest;
            let ghost done = ret@.len() as int;
            assert(block_rows(&col)[0] == rows[done]);
            assert(block_rows(&view) =~= rows.skip(done + 1));
            match col.into_shape(nrows) {
                Ok(column) => {
                    ret.push(column);
                },
                Err(_) => {
                    unreached::<()>();
                },
            }
        }
        ret
    }

    /// Splits the block as `split` does where every row lies in one
    /// piece, and hands it back as it is where one does not.
    pub fn try_split(self) -> (r: Result<Vec<DateTimeColumn<'a>>, DateTimeBlock<'a>>)
        ensures
            match r {
                Ok(columns) => {
                    &&& self.contiguous()
                    &&& columns@.len() == self@.len()
                    &&& forall|i: int| 0 <= i < columns@.len() ==> (#[trigger] columns@[i])@ == self@[i]
                    &&& forall|i: int| 0 <= i < columns@.len() ==> (#[trigger] columns@[i])@.len() == self.width()
                },
                Err(block) => !self.contiguous() && block == self,
            },
    {
        if self.is_contiguous() {
            Ok(self.split())
        } else {
            Err(self)
        }
    }
}

impl<'a> DateTimeColumn<'a> {
    /// `ndarray`'s `len`: the number of cells.
    #[verifier::external_body]
    fn data_len(&self) -> (n: usize)
        ensures
            n == column_cells(self).len(),
    {
        self.data.len()
    }

    /// `ndarray`'s `split_at` along the only axis: the cells before
    /// `index` and the cells from `index` on. It panics on an `index`
    /// beyond the last cell.
    #[verifier::external_body]
    fn split_at_cell(self, index: usize) -> (parts: (DateTimeColumn<'a>, DateTimeColumn<'a>))
        requires
            index <= column_cells(&self).len(),
        ensures
            column_cells(&parts.0) == column_cells(&self).take(index as int),
            column_cells(&parts.1) == column_cells(&self).skip(index as int),
    {
        let (head, rest) = self.data.split_at(Axis(0), index);
        (DateTimeColumn { data: head }, DateTimeColumn { data: rest })
    }

    /// `ndarray`'s indexed assignment: cell `i` takes `value`, the
    /// others stay. It panics on an `i` beyond the last cell.
    #[verifier::external_body]
    fn set(&mut self, i: usize, value: i64)
        requires
            i < column_cells(old(self)).len(),
        ensures
            column_cells(final(self)) == column_cells(old(self)).update(i as int, value),
    {
        self.data[i] = value;
    }

    /// The cells of the column, in order.
    pub closed spec fn view(&self) -> Seq<i64> {
        column_cells(self)
    }

    /// The number of cells.
    pub fn len(&self) -> (n: usize)
        ensures
            n == self@.len(),
    {
        self.data_len()
    }

    /// Writes a timestamp, in nanoseconds, into cell `i`.
    pub fn write(&mut self, i: usize, nanos: i64)
        requires
            i < old(self)@.len(),
        ensures
            final(self)@ == old(self)@.update(i as int, nanos),
    {
        self.set(i, nanos);
    }

    /// Writes a timestamp that may be missing into cell `i`. The column
    /// has no null of its own: a missing timestamp is written as the
    /// least `i64`.
    pub fn write_nullable(&mut self, i: usize, value: Option<i64>)
        requires
            i < old(self)@.len(),
        ensures
            final(self)@ == old(self)@.update(i as int, stored(value)),
    {
        let nanos = match value {
            Some(nanos) => nanos,
            None => i64::MIN,
        };
        self.set(i, nanos);
    }

    /// Splits the column into consecutive regions, the i-th of
    /// `counts[i]` cells. The regions never overlap; cells beyond the
    /// last region are in none.
    pub fn partition(self, counts: &[usize]) -> (partitions: Vec<DateTimeColumn<'a>>)
        requires
            total_rows(counts@) <= self@.len(),
        ensures
            partitions@.len() == counts@.len(),
            forall|i: int|
                0 <= i < partitions@.len() ==> (#[trigger] partitions@[i])@ == self@.subrange(
                    region_start(counts@, i) as int,
                    region_start(counts@, i) + counts@[i],
                ),
    {
        let ghost cells = column_cells(&self);
        let mut partitions: Vec<DateTimeColumn<'a>> = Vec::new();
        let mut data = self;
        let mut k: usize = 0;
        assert(counts@.take(0) =~= Seq::<usize>::empty());
        while k < counts.len()
            invariant
                k <= counts.len(),
                partitions@.len() == k,
                total_rows(counts@) <= cells.len(),
                region_start(counts@, k as int) <= cells.len(),
                column_cells(&data) == cells.skip(region_start(counts@, k as int) as int),
                forall|i: int|
                    0 <= i < k ==> column_cells(#[trigger] &partitions@[i]) == cells.subrange(
                        region_start(counts@, i) as int,
                        region_start(counts@, i) + counts@[i],
                    ),
            decreases counts.len() - k,
        {
            let c = counts[k];
            let ghost start = region_start(counts@, k as int) as int;
            proof {
                assert(counts@.take(k + 1).drop_last() =~= counts@.take(k as int));
                lemma_total_rows_of_prefix(counts@, k + 1);
            }
            let (splitted_data, rest) = data.split_at_cell(c);
            data = rest;
            assert(column_cells(&splitted_data) =~= cells.subrange(start, start + c));
            assert(column_cells(&data) =~= cells.skip(start + c));
            partitions.push(splitted_data);
            k += 1;
        }
        partitions
    }
}

/// The regions of a partition lie one after the other and never
/// overlap: a region ends where the next one starts, and an earlier
/// region ends no later than a later one starts.
pub proof fn lemma_regions_disjoint(counts: Seq<usize>, i: int, j: int)
    requires
        0 <= i < j < counts.len(),
    ensures
        region_start(counts, i) + counts[i] == region_start(counts, i + 1),
        region_start(counts, i) + counts[i] <= region_start(counts, j),
        region_start(counts, j) + counts[j] <= total_rows(counts),
    decreases j - i,
{
    assert(counts.take(i + 1).drop_last() =~= counts.take(i));
    assert(counts.take(j + 1).drop_last() =~= counts.take(j));
    lemma_total_rows_of_prefix(counts, j + 1);
    if i + 1 < j {
        lemma_regions_disjoint(counts, i + 1, j);
    }
}

} // verus!
