//! Row-major or column-major: the order in which the cells of a
//! partition are produced and written, and how the two sides agree on it.

use crate::errors::ConnectorError;
use vstd::arithmetic::div_mod::{
    lemma_div_pos_is_pos, lemma_fundamental_div_mod, lemma_fundamental_div_mod_converse,
    lemma_mod_pos_bound, lemma_multiply_divide_lt,
};
use vstd::prelude::*;

verus! {

/// The order in which the cells of a table are visited.
#[derive(Clone, Copy, Debug, PartialEq, Eq, Structural)]
pub enum DataOrder {
    /// Rows outer, columns inner.
    RowMajor,
    /// Columns outer, rows inner.
    ColumnMajor,
}

/// `order` is the source's most preferred order among those that the
/// destination supports: it stands at some index of `src`, `dst`
/// holds it, and `dst` holds none of the orders before that index.
pub open spec fn is_first_mutual(src: Seq<DataOrder>, dst: Seq<DataOrder>, order: DataOrder) -> bool {
    exists|i: int|
        0 <= i < src.len() && src[i] == order && dst.contains(order) && forall|j: int|
            0 <= j < i ==> !dst.contains(#[trigger] src[j])
}

/// No order of `src` is supported by `dst`.
pub open spec fn no_mutual_order(src: Seq<DataOrder>, dst: Seq<DataOrder>) -> bool {
    forall|i: int| 0 <= i < src.len() ==> !dst.contains(#[trigger] src[i])
}

/// Whether `orders` holds `order`.
pub fn supports(orders: &[DataOrder], order: DataOrder) -> (found: bool)
    ensures
        found == orders@.contains(order),
{
    let mut k: usize = 0;
    while k < orders.len()
        invariant
            k <= orders.len(),
            forall|j: int| 0 <= j < k ==> orders@[j] != order,
        decreases orders.len() - k,
    {
        if orders[k] == order {
            return true;
        }
        k += 1;
    }
    false
}

/// Picks the data order of a transfer. Both lists are ordered by
/// descending preference; the source's list is scanned in order and the
/// first order that the destination also supports wins.
pub fn coordinate(src: &[DataOrder], dst: &[DataOrder]) -> (r: Result<DataOrder, ConnectorError>)
    ensures
        match r {
            Ok(order) => is_first_mutual(src@, dst@, order),
            Err(e) => e == ConnectorError::DataOrderMismatch && no_mutual_order(src@, dst@),
        },
{
    let mut i: usize = 0;
    while i < src.len()
        invariant
            i <= src.len(),
            forall|j: int| 0 <= j < i ==> !dst@.contains(#[trigger] src@[j]),
        decreases src.len() - i,
    {
        if supports(dst, src[i]) {
            return Ok(src[i]);
        }
        i += 1;
    }
    Err(ConnectorError::DataOrderMismatch)
}

/// The negotiated order is unique, and negotiation fails exactly when
/// no order is shared: of `is_first_mutual` for some order and
/// `no_mutual_order`, exactly one holds, and at most one order is the
/// first mutual one.
pub proof fn lemma_first_mutual_unique(src: Seq<DataOrder>, dst: Seq<DataOrder>, a: DataOrder, b: DataOrder)
    ensures
        is_first_mutual(src, dst, a) && is_first_mutual(src, dst, b) ==> a == b,
        is_first_mutual(src, dst, a) ==> !no_mutual_order(src, dst),
        !no_mutual_order(src, dst) ==> exists|o: DataOrder| is_first_mutual(src, dst, o),
{
    if is_first_mutual(src, dst, a) && is_first_mutual(src, dst, b) {
        let i = choose|i: int|
            0 <= i < src.len() && src[i] == a && dst.contains(a) && forall|j: int|
                0 <= j < i ==> !dst.contains(#[trigger] src[j]);
        let k = choose|k: int|
            0 <= k < src.len() && src[k] == b && dst.contains(b) && forall|j: int|
                0 <= j < k ==> !dst.contains(#[trigger] src[j]);
        if i < k {
            assert(!dst.contains(src[i]));
        } else if k < i {
            assert(!dst.contains(src[k]));
        }
    }
    if is_first_mutual(src, dst, a) {
        let i = choose|i: int|
            0 <= i < src.len() && src[i] == a && dst.contains(a) && forall|j: int|
                0 <= j < i ==> !dst.contains(#[trigger] src[j]);
        assert(dst.contains(src[i]));
    }
    if !no_mutual_order(src, dst) {
        lemma_some_first_mutual(src, dst, src.len() as int);
    }
}

/// Among the first `n` orders of `src`, if one is supported by `dst`
/// then a first such one exists.
proof fn lemma_some_first_mutual(src: Seq<DataOrder>, dst: Seq<DataOrder>, n: int)
    requires
        0 <= n <= src.len(),
        exists|i: int| 0 <= i < n && dst.contains(#[trigger] src[i]),
    ensures
        exists|o: DataOrder| is_first_mutual(src, dst, o),
    decreases n,
{
    if exists|i: int| 0 <= i < n - 1 && dst.contains(#[trigger] src[i]) {
        lemma_some_first_mutual(src, dst, n - 1);
    } else {
        let i = n - 1;
        assert(dst.contains(src[i]));
        assert(forall|j: int| 0 <= j < i ==> !dst.contains(#[trigger] src[j]));
        assert(is_first_mutual(src, dst, src[i]));
    }
}

impl DataOrder {
    /// The row of the `k`-th cell of a table of `rows` by `cols` cells
    /// that is visited in this order.
    pub open spec fn row_at(self, rows: nat, cols: nat, k: int) -> int {
        match self {
            DataOrder::RowMajor => k / (cols as int),
            DataOrder::ColumnMajor => k % (rows as int),
        }
    }

    /// The column of the `k`-th cell.
    pub open spec fn col_at(self, rows: nat, cols: nat, k: int) -> int {
        match self {
            DataOrder::RowMajor => k % (cols as int),
            DataOrder::ColumnMajor => k / (rows as int),
        }
    }

    /// The place of cell (`row`, `col`) in the visit.
    pub open spec fn position(self, rows: nat, cols: nat, row: int, col: int) -> int {
        match self {
            DataOrder::RowMajor => row * cols + col,
            DataOrder::ColumnMajor => col * rows + row,
        }
    }
}

/// The cell of a table of `rows` by `cols` cells that stands at
/// (`row`, `col`), where `stream` lists the table's cells in `order`.
pub open spec fn cell_of<V>(order: DataOrder, rows: nat, cols: nat, stream: Seq<V>, row: int, col: int) -> V {
    stream[order.position(rows, cols, row, col)]
}

/// Every cell has a place in the visit, and `row_at` and `col_at` lead
/// back from the place to the cell.
pub proof fn lemma_position_inverts(order: DataOrder, rows: nat, cols: nat, row: int, col: int)
    requires
        0 <= row < rows,
        0 <= col < cols,
    ensures
        0 <= order.position(rows, cols, row, col) < rows * cols,
        order.row_at(rows, cols, order.position(rows, cols, row, col)) == row,
        order.col_at(rows, cols, order.position(rows, cols, row, col)) == col,
{
    match order {
        DataOrder::RowMajor => {
            let k = row * cols + col;
            assert(0 <= k < rows * cols) by (nonlinear_arith)
                requires
                    0 <= row < rows,
                    0 <= col < cols,
                    k == row * cols + col,
            ;
            lemma_fundamental_div_mod_converse(k, cols as int, row, col);
        },
        DataOrder::ColumnMajor => {
            let k = col * rows + row;
            assert(0 <= k < rows * cols) by (nonlinear_arith)
                requires
                    0 <= row < rows,
                    0 <= col < cols,
                    k == col * rows + row,
            ;
            lemma_fundamental_div_mod_converse(k, rows as int, col, row);
        },
    }
}

/// Every place of the visit holds a cell of the table, and `position`
/// leads back from the cell to the place.
pub proof fn lemma_cell_inverts(order: DataOrder, rows: nat, cols: nat, k: int)
    requires
        0 <= k < rows * cols,
    ensures
        0 <= order.row_at(rows, cols, k) < rows,
        0 <= order.col_at(rows, cols, k) < cols,
        order.position(rows, cols, order.row_at(rows, cols, k), order.col_at(rows, cols, k)) == k,
{
    assert(rows > 0 && cols > 0) by (nonlinear_arith)
        requires
            0 <= k < rows * cols,
    ;
    match order {
        DataOrder::RowMajor => {
            let d = cols as int;
            lemma_fundamental_div_mod(k, d);
            lemma_mod_pos_bound(k, d);
            lemma_div_pos_is_pos(k, d);
            assert(d * (rows as int) == rows * cols) by (nonlinear_arith)
                requires
                    d == cols,
            ;
            lemma_multiply_divide_lt(k, d, rows as int);
            assert((k / d) * cols == d * (k / d)) by (nonlinear_arith)
                requires
                    d == cols,
            ;
        },
        DataOrder::ColumnMajor => {
            let d = rows as int;
            lemma_fundamental_div_mod(k, d);
            lemma_mod_pos_bound(k, d);
            lemma_div_pos_is_pos(k, d);
            assert(d * (cols as int) == rows * cols) by (nonlinear_arith)
                requires
                    d == rows,
            ;
            lemma_multiply_divide_lt(k, d, cols as int);
            assert((k / d) * rows == d * (k / d)) by (nonlinear_arith)
                requires
                    d == rows,
            ;
        },
    }
}

} // verus!
