//! What the dispatcher asks of a data source and of its partitions.

use crate::data_order::DataOrder;
use crate::errors::ConnectorError;
use crate::text::texts;
use crate::typesystem::TypeSystem;
use vstd::prelude::*;

verus! {

/// The abstract state of a source.
pub struct SourceView<T> {
    /// The data order the source was told to produce, once set.
    pub order: Option<DataOrder>,
    /// Whether the source was given its queries.
    pub queried: bool,
    /// The texts of the queries the source was given; meaningful once
    /// `queried`.
    pub queries: Seq<Seq<char>>,
    /// Whether the metadata has been fetched.
    pub fetched: bool,
    /// One type per column; meaningful once `fetched`.
    pub schema: Seq<T>,
    /// One name per column; meaningful once `fetched`.
    pub names: Seq<Seq<char>>,
}

/// The abstract state of a source partition.
pub struct SourcePartitionView<T, V> {
    /// The order in which the partition hands out its cells.
    pub order: DataOrder,
    /// One type per column.
    pub schema: Seq<T>,
    /// Whether `prepare` has succeeded.
    pub prepared: bool,
    /// Whether `finalize` has succeeded.
    pub finalized: bool,
    /// The number of rows; meaningful once `prepared`.
    pub rows: nat,
    /// The cells in the order in which they are handed out; meaningful
    /// once `prepared`.
    pub stream: Seq<V>,
    /// How many cells of `stream` have been handed out.
    pub consumed: nat,
}

impl<T, V> SourcePartitionView<T, V> {
    /// The number of columns.
    pub open spec fn cols(self) -> nat {
        self.schema.len()
    }

    /// The partition has been prepared and not yet finalized, and none
    /// of its cells has been handed out.
    pub open spec fn ready(self) -> bool {
        &&& self.prepared
        &&& !self.finalized
        &&& self.consumed == 0
        &&& self.stream.len() == self.rows * self.cols()
    }

    /// The column of the cell that is handed out next.
    pub open spec fn next_col(self) -> int {
        self.order.col_at(self.rows, self.cols(), self.consumed as int)
    }
}

/// What a successful `prepare` makes of a partition: it is ready, and
/// its order and schema are those it was created with.
pub open spec fn prepared_from<T, V>(
    before: SourcePartitionView<T, V>,
    after: SourcePartitionView<T, V>,
) -> bool {
    &&& after.ready()
    &&& after.order == before.order
    &&& after.schema == before.schema
}

/// An independent unit of work of a source: one query, or one shard of
/// one. It is created by `Source::partition`, prepared, read once from
/// the first cell to the last, and finalized.
pub trait SourcePartition: Sized {
    /// The source's type system.
    type TypeSystem: TypeSystem;

    /// What stands for a cell in contracts.
    type Value;

    spec fn view(&self) -> SourcePartitionView<Self::TypeSystem, Self::Value>;

    /// Runs the partition's query and establishes the row count. Safe
    /// to call on sibling partitions in parallel.
    fn prepare(&mut self) -> (r: Result<(), ConnectorError>)
        requires
            !old(self)@.prepared,
            !old(self)@.finalized,
        ensures
            match r {
                Ok(_) => prepared_from(old(self)@, final(self)@),
                Err(e) => e == ConnectorError::SourceFetchError,
            },
    ;

    /// The number of rows.
    fn nrows(&self) -> (n: usize)
        requires
            self@.prepared,
        ensures
            n == self@.rows,
    ;

    /// The number of columns: the length of the schema.
    fn ncols(&self) -> (n: usize)
        ensures
            n == self@.cols(),
    ;

    /// Releases what the partition holds on the source's side, once
    /// its last cell has been handed out.
    fn finalize(&mut self) -> (r: Result<(), ConnectorError>)
        requires
            old(self)@.prepared,
            !old(self)@.finalized,
            old(self)@.consumed == old(self)@.stream.len(),
        ensures
            match r {
                Ok(_) => final(self)@ == (SourcePartitionView { finalized: true, ..old(self)@ }),
                Err(e) => e == ConnectorError::SourceFetchError,
            },
    ;
}

/// A data source: it describes its schema and splits the work of
/// running its queries into partitions that can be fetched in parallel.
/// Whatever fails on the source's side is a `SourceFetchError`.
pub trait Source: Sized {
    /// The source's type system.
    type TypeSystem: TypeSystem;

    /// The source's partitions.
    type Partition: SourcePartition<TypeSystem = Self::TypeSystem> + Send;

    spec fn view(&self) -> SourceView<Self::TypeSystem>;

    /// The data orders the source can produce, most preferred first.
    const DATA_ORDERS: &'static [DataOrder];

    /// Tells the source in which order its partitions hand out cells.
    fn set_data_order(&mut self, order: DataOrder) -> (r: Result<(), ConnectorError>)
        ensures
            match r {
                Ok(_) => final(self)@ == (SourceView { order: Some(order), ..old(self)@ }),
                Err(e) => e == ConnectorError::SourceFetchError,
            },
    ;

    /// Hands the source the queries to run, once it was told the data
    /// order.
    fn set_queries(&mut self, queries: &[String])
        requires
            old(self)@.order is Some,
        ensures
            final(self)@ == (SourceView { queried: true, queries: texts(queries@), ..old(self)@ }),
    ;

    /// Fetches the schema and the column names, once the source was
    /// told the data order and given its queries.
    fn fetch_metadata(&mut self) -> (r: Result<(), ConnectorError>)
        requires
            old(self)@.order is Some,
            old(self)@.queried,
        ensures
            match r {
                Ok(_) => {
                    &&& final(self)@.fetched
                    &&& final(self)@.order == old(self)@.order
                    &&& final(self)@.queried
                    &&& final(self)@.queries == old(self)@.queries
                    &&& final(self)@.names.len() == final(self)@.schema.len()
                },
                Err(e) => e == ConnectorError::SourceFetchError,
            },
    ;

    /// One type per column.
    fn schema(&self) -> (schema: &[Self::TypeSystem])
        requires
            self@.fetched,
        ensures
            schema@ == self@.schema,
    ;

    /// One name per column.
    fn names(&self) -> (names: &[String])
        requires
            self@.fetched,
        ensures
            texts(names@) == self@.names,
    ;

    /// Splits the work into partitions, none of them prepared yet.
    fn partition(self) -> (r: Result<Vec<Self::Partition>, ConnectorError>)
        requires
            self@.fetched,
            self@.order is Some,
        ensures
            match r {
                Ok(parts) => forall|i: int|
                    0 <= i < parts@.len() ==> {
                        &&& !(#[trigger] parts@[i])@.prepared
                        &&& !parts@[i]@.finalized
                        &&& parts@[i]@.order == self@.order->0
                        &&& parts@[i]@.schema == self@.schema
                    },
                Err(e) => e == ConnectorError::SourceFetchError,
            },
    ;
}

} // verus!
