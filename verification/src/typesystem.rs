//! Type systems, and the transport that converts between the type
//! system of a source and that of a destination.

use crate::destinations::{Destination, DestinationPartition, DestinationPartitionView, Parser, ParserView};
use crate::errors::ConnectorError;
use crate::sources::{Source, SourcePartition, SourcePartitionView};
use vstd::prelude::*;

verus! {

/// A closed set of physical value types, each with its nullable
/// variant.
pub trait TypeSystem: Copy + Send + Sync {

}

/// The partitions of a transport's source.
pub type SourcePartitionOf<TP> = <<TP as Transport>::S as Source>::Partition;

/// The partitions of a transport's destination.
pub type DestinationPartitionOf<TP> = <<TP as Transport>::D as Destination>::Partition;

/// The write cursors of a transport's destination.
pub type ParserOf<TP> = <DestinationPartitionOf<TP> as DestinationPartition>::Parser;

/// The cells of a transport's source.
pub type SourceValueOf<TP> = <SourcePartitionOf<TP> as SourcePartition>::Value;

/// The cells of a transport's destination.
pub type DestinationValueOf<TP> = <ParserOf<TP> as Parser>::Value;

/// The abstract state of a partition of a transport's source.
pub type SourcePartitionViewOf<TP> = SourcePartitionView<<TP as Transport>::TSS, SourceValueOf<TP>>;

/// The abstract state of a partition of a transport's destination.
pub type DestinationPartitionViewOf<TP> = DestinationPartitionView<
    <TP as Transport>::TSD,
    DestinationValueOf<TP>,
>;

/// Binds the type system of one source to that of one destination.
pub trait Transport {
    /// The source's type system.
    type TSS: TypeSystem;

    /// The destination's type system.
    type TSD: TypeSystem;

    /// The source.
    type S: Source<TypeSystem = Self::TSS>;

    /// The destination.
    type D: Destination<TypeSystem = Self::TSD>;

    /// The destination type of a source type, where there is one.
    spec fn convert_type(ts: Self::TSS) -> Option<Self::TSD>;

    /// The destination cell that a source cell of type `src_ty` becomes
    /// in a column of type `dst_ty`.
    spec fn convert_value(src_ty: Self::TSS, dst_ty: Self::TSD, value: SourceValueOf<Self>) -> DestinationValueOf<Self>;

    /// The destination type of a source type.
    fn convert_typesystem(ts: Self::TSS) -> (r: Result<Self::TSD, ConnectorError>)
        ensures
            match r {
                Ok(dst_ty) => Self::convert_type(ts) == Some(dst_ty),
                Err(e) => e == ConnectorError::UnsupportedTypePair && Self::convert_type(ts) is None,
            },
    ;

    /// Takes the next cell from `src`, converts it from `src_ty` to
    /// `dst_ty` and writes it at the cursor. A cell that cannot be
    /// processed is a `ConversionError`.
    fn process(
        src_ty: Self::TSS,
        dst_ty: Self::TSD,
        parser: &mut ParserOf<Self>,
        src: &mut SourcePartitionOf<Self>,
    ) -> (r: Result<(), ConnectorError>)
        requires
            Self::convert_type(src_ty) == Some(dst_ty),
            old(src)@.prepared,
            !old(src)@.finalized,
            old(src)@.consumed < old(src)@.stream.len(),
            0 <= old(src)@.next_col() < old(src)@.cols(),
            old(src)@.schema[old(src)@.next_col()] == src_ty,
            old(parser)@.written.len() < old(parser)@.capacity,
        ensures
            match r {
                Ok(_) => {
                    &&& final(src)@ == (SourcePartitionView {
                        consumed: old(src)@.consumed + 1,
                        ..old(src)@
                    })
                    &&& final(parser)@ == (ParserView {
                        written: old(parser)@.written.push(
                            Self::convert_value(src_ty, dst_ty, old(src)@.stream[old(src)@.consumed as int]),
                        ),
                        ..old(parser)@
                    })
                },
                Err(e) => e == ConnectorError::ConversionError,
            },
    ;
}

/// `dst` is the destination schema of the source schema `src`: it has
/// as many columns, and every column's type is the destination type of
/// the source column's type.
pub open spec fn schema_converts<TP: Transport>(src: Seq<TP::TSS>, dst: Seq<TP::TSD>) -> bool {
    &&& dst.len() == src.len()
    &&& forall|i: int| 0 <= i < src.len() ==> TP::convert_type(#[trigger] src[i]) == Some(dst[i])
}

/// Every column of the source schema `src` has a destination type.
pub open spec fn convertible<TP: Transport>(src: Seq<TP::TSS>) -> bool {
    forall|i: int| 0 <= i < src.len() ==> TP::convert_type(#[trigger] src[i]) is Some
}

/// The destination schema of a source schema whose every column has a
/// destination type.
pub open spec fn dst_schema_of<TP: Transport>(src: Seq<TP::TSS>) -> Seq<TP::TSD> {
    Seq::new(src.len(), |i: int| TP::convert_type(src[i])->0)
}

/// A source schema has one destination schema, and has it exactly
/// when every column has a destination type.
pub proof fn lemma_schema_converts<TP: Transport>(src: Seq<TP::TSS>, dst: Seq<TP::TSD>)
    ensures
        schema_converts::<TP>(src, dst) <==> convertible::<TP>(src) && dst == dst_schema_of::<TP>(src),
{
    if schema_converts::<TP>(src, dst) {
        assert(dst =~= dst_schema_of::<TP>(src));
    }
    if convertible::<TP>(src) && dst == dst_schema_of::<TP>(src) {
        assert forall|i: int| 0 <= i < src.len() implies TP::convert_type(#[trigger] src[i]) == Some(
            dst[i],
        ) by {
            assert(TP::convert_type(src[i]) is Some);
        }
    }
}

/// Converts a source schema column by column. The conversion is total
/// or fails: one column without a destination type fails the whole
/// schema.
pub fn convert_schema<TP: Transport>(src: &[TP::TSS]) -> (r: Result<Vec<TP::TSD>, ConnectorError>)
    ensures
        match r {
            Ok(dst) => schema_converts::<TP>(src@, dst@),
            Err(e) => e == ConnectorError::UnsupportedTypePair && exists|i: int|
                0 <= i < src@.len() && TP::convert_type(#[trigger] src@[i]) is None,
        },
{
    let mut dst: Vec<TP::TSD> = Vec::new();
    let mut i: usize = 0;
    while i < src.len()
        invariant
            i <= src.len(),
            dst@.len() == i,
            forall|j: int| 0 <= j < i ==> TP::convert_type(#[trigger] src@[j]) == Some(dst@[j]),
        decreases src.len() - i,
    {
        match TP::convert_typesystem(src[i]) {
            Ok(dst_ty) => {
                dst.push(dst_ty);
            },
            Err(_) => {
                return Err(ConnectorError::UnsupportedTypePair);
            },
        }
        i += 1;
    }
    Ok(dst)
}

/// Schema conversion gives one answer: whatever two calls of
/// `convert_typesystem` return for the same source type, they return
/// the same.
pub proof fn lemma_convert_typesystem_repeats<TP: Transport>(
    ts: TP::TSS,
    first: Result<TP::TSD, ConnectorError>,
    second: Result<TP::TSD, ConnectorError>,
)
    requires
        call_ensures(TP::convert_typesystem, (ts,), first),
        call_ensures(TP::convert_typesystem, (ts,), second),
    ensures
        first == second,
{
}

/// Converting a schema gives one answer: whatever two calls of
/// `convert_schema` return for the same source schema, they return the
/// same.
pub proof fn lemma_convert_schema_repeats<TP: Transport>(
    src: &[TP::TSS],
    first: Result<Vec<TP::TSD>, ConnectorError>,
    second: Result<Vec<TP::TSD>, ConnectorError>,
)
    requires
        call_ensures(convert_schema::<TP>, (src,), first),
        call_ensures(convert_schema::<TP>, (src,), second),
    ensures
        first is Ok <==> second is Ok,
        first is Ok ==> first->Ok_0@ == second->Ok_0@,
        first is Err ==> first == second,
{
    if first is Ok && second is Ok {
        let a = first->Ok_0@;
        let b = second->Ok_0@;
        assert(a =~= b) by {
            assert forall|i: int| 0 <= i < a.len() implies a[i] == b[i] by {
                assert(TP::convert_type(src@[i]) == Some(a[i]));
                assert(TP::convert_type(src@[i]) == Some(b[i]));
            }
        }
    }
    if first is Ok && second is Err {
        let i = choose|i: int| 0 <= i < src@.len() && TP::convert_type(#[trigger] src@[i]) is None;
        assert(TP::convert_type(src@[i]) == Some(first->Ok_0@[i]));
    }
    if first is Err && second is Ok {
        let i = choose|i: int| 0 <= i < src@.len() && TP::convert_type(#[trigger] src@[i]) is None;
        assert(TP::convert_type(src@[i]) == Some(second->Ok_0@[i]));
    }
}

} // verus!
