//! What the dispatcher asks of a destination, of its partitions and of
//! their write cursors.

use crate::data_order::DataOrder;
use crate::errors::ConnectorError;
use crate::text::texts;
use crate::typesystem::TypeSystem;
use vstd::prelude::*;

verus! {

/// What a destination was sized for.
pub struct Allocation<T> {
    /// The total number of rows.
    pub rows: nat,
    /// One name per column.
    pub names: Seq<Seq<char>>,
    /// One type per column.
    pub schema: Seq<T>,
    /// The order in which every partition is written.
    pub order: DataOrder,
}

/// The abstract state of a destination.
pub struct DestinationView<T> {
    /// What the destination was sized for, once allocated.
    pub allocation: Option<Allocation<T>>,
    /// The row counts of the partitions handed out, once split.
    pub partitions: Option<Seq<usize>>,
}

/// The abstract state of a destination partition.
pub struct DestinationPartitionView<T, V> {
    /// The order in which the partition is written.
    pub order: DataOrder,
    /// One type per column.
    pub schema: Seq<T>,
    /// The number of rows of the region.
    pub rows: nat,
    /// The cells written into the region so far, in the order in which
    /// they were written.
    pub written: Seq<V>,
}

impl<T, V> DestinationPartitionView<T, V> {
    /// The number of columns.
    pub open spec fn cols(self) -> nat {
        self.schema.len()
    }
}

/// The abstract state of a write cursor.
pub struct ParserView<V> {
    /// How many cells the cursor's region takes.
    pub capacity: nat,
    /// The cells written so far, in the order in which they were
    /// written.
    pub written: Seq<V>,
}

/// The sum of row counts.
pub open spec fn total_rows(counts: Seq<usize>) -> nat
    decreases counts.len(),
{
    if counts.len() == 0 {
        0
    } else {
        total_rows(counts.drop_last()) + counts.last() as nat
    }
}

/// The first `n` of the counts add up to no more than all of them.
pub proof fn lemma_total_rows_of_prefix(counts: Seq<usize>, n: int)
    requires
        0 <= n <= counts.len(),
    ensures
        total_rows(counts.take(n)) <= total_rows(counts),
    decreases counts.len() - n,
{
    if n == counts.len() {
        assert(counts.take(n) =~= counts);
    } else {
        lemma_total_rows_of_prefix(counts, n + 1);
        assert(counts.take(n + 1).drop_last() =~= counts.take(n));
    }
}

/// The write cursor of a destination partition. It advances by one
/// cell with every write, and nothing written is read back.
pub trait Parser: Sized {
    /// What stands for a cell in contracts.
    type Value;

    spec fn view(&self) -> ParserView<Self::Value>;
}

/// A write cursor that takes cells of the native type `T`.
pub trait Consume<T>: Parser {
    /// The cell that stands for `value` once written.
    spec fn stored(value: T) -> Self::Value;

    /// Writes `value` into cell `cell`, which is the cell at the cursor,
    /// and advances the cursor.
    fn write(&mut self, cell: usize, value: T) -> (r: Result<(), ConnectorError>)
        requires
            cell == old(self)@.written.len(),
            cell < old(self)@.capacity,
        ensures
            match r {
                Ok(_) => final(self)@ == (ParserView {
                    written: old(self)@.written.push(Self::stored(value)),
                    ..old(self)@
                }),
                Err(e) => e == ConnectorError::ConversionError,
            },
    ;
}

/// An exclusively owned region of a destination, sized for the rows of
/// one source partition. What is written through its cursor is
/// written into the region.
pub trait DestinationPartition: Sized {
    /// The destination's type system.
    type TypeSystem: TypeSystem;

    /// The partition's write cursor.
    type Parser: Parser;

    spec fn view(&self) -> DestinationPartitionView<Self::TypeSystem, <Self::Parser as Parser>::Value>;

    /// The number of rows of the region.
    fn nrows(&self) -> (n: usize)
        ensures
            n == self@.rows,
    ;

    /// The number of columns.
    fn ncols(&self) -> (n: usize)
        ensures
            n == self@.cols(),
    ;

    /// Hands out the cursor, behind the cells already written. When the
    /// cursor is given up, the region holds what the cursor wrote.
    fn parser(&mut self) -> (r: Result<&mut Self::Parser, ConnectorError>)
        ensures
            match r {
                Ok(parser) => {
                    &&& parser@ == (ParserView {
                        capacity: old(self)@.rows * old(self)@.cols(),
                        written: old(self)@.written,
                    })
                    &&& final(self)@ == (DestinationPartitionView {
                        written: final(parser)@.written,
                        ..old(self)@
                    })
                },
                Err(e) => e == ConnectorError::DestinationAllocationError && final(self)@ == old(self)@,
            },
    ;
}

/// A write target: it is sized once for the whole transfer and then
/// split, once, into one partition per source partition.
pub trait Destination: Sized {
    /// The destination's type system.
    type TypeSystem: TypeSystem;

    /// The destination's partitions.
    type Partition: DestinationPartition<TypeSystem = Self::TypeSystem> + Send;

    spec fn view(&self) -> DestinationView<Self::TypeSystem>;

    /// The data orders the destination can take, most preferred first.
    const DATA_ORDERS: &'static [DataOrder];

    /// Sizes the destination for `nrows` rows of the given columns.
    fn allocate(
        &mut self,
        nrows: usize,
        names: &[String],
        schema: &[Self::TypeSystem],
        order: DataOrder,
    ) -> (r: Result<(), ConnectorError>)
        requires
            names@.len() == schema@.len(),
        ensures
            match r {
                Ok(_) => final(self)@ == (DestinationView {
                    allocation: Some(
                        Allocation { rows: nrows as nat, names: texts(names@), schema: schema@, order },
                    ),
                    partitions: None,
                }),
                Err(e) => e == ConnectorError::DestinationAllocationError,
            },
    ;

    /// Splits the allocated storage into one region per row count. The
    /// i-th region is sized for `counts[i]` rows, and nothing is
    /// written into it yet.
    fn partition(&mut self, counts: &[usize]) -> (r: Result<Vec<Self::Partition>, ConnectorError>)
        requires
            old(self)@.allocation is Some,
            old(self)@.partitions is None,
            total_rows(counts@) == old(self)@.allocation->0.rows,
        ensures
            match r {
                Ok(parts) => {
                    &&& final(self)@ == (DestinationView { partitions: Some(counts@), ..old(self)@ })
                    &&& parts@.len() == counts@.len()
                    &&& forall|i: int|
                        0 <= i < parts@.len() ==> (#[trigger] parts@[i])@ == (DestinationPartitionView {
                            order: old(self)@.allocation->0.order,
                            schema: old(self)@.allocation->0.schema,
                            rows: counts@[i] as nat,
                            written: Seq::<<<Self::Partition as DestinationPartition>::Parser as Parser>::Value>::empty(),
                        })
                },
                Err(e) => e == ConnectorError::DestinationAllocationError,
            },
    ;
}

} // verus!
