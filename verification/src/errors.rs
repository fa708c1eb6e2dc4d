//! The ways a transfer can fail.

use vstd::prelude::*;

verus! {

/// Why a transfer stopped. Every error is fatal to the run in which it
/// is raised; nothing is retried, and a run hands the error of the
/// step that failed on as it is.
#[derive(Clone, Copy, Debug, PartialEq, Eq, Structural)]
pub enum ConnectorError {
    /// Source and destination support no common data order. Only the
    /// negotiation of the order raises it.
    DataOrderMismatch,
    /// A column's source type has no destination type. Only the
    /// transport raises it, when it converts a type.
    UnsupportedTypePair,
    /// What a source and its partitions raise: the order was refused,
    /// the metadata, the partitions or the rows of a partition could
    /// not be fetched, or a partition could not be finalized.
    SourceFetchError,
    /// What a destination and its partitions raise: the storage could
    /// not be sized or handed out. A run raises it too where the rows
    /// of the source partitions add up to more than the machine can
    /// count.
    DestinationAllocationError,
    /// What the transport raises where a cell cannot be processed: its
    /// value cannot be represented in the destination type.
    ConversionError,
}

impl ConnectorError {
    /// A short description of the error.
    pub fn message(&self) -> (text: &'static str)
        ensures
            text@ == (match *self {
                ConnectorError::DataOrderMismatch => "source and destination share no data order"@,
                ConnectorError::UnsupportedTypePair => "source type has no destination type"@,
                ConnectorError::SourceFetchError => "source fetch failed"@,
                ConnectorError::DestinationAllocationError => "destination allocation failed"@,
                ConnectorError::ConversionError => "value not representable in destination type"@,
            }),
    {
        match self {
            ConnectorError::DataOrderMismatch => "source and destination share no data order",
            ConnectorError::UnsupportedTypePair => "source type has no destination type",
            ConnectorError::SourceFetchError => "source fetch failed",
            ConnectorError::DestinationAllocationError => "destination allocation failed",
            ConnectorError::ConversionError => "value not representable in destination type",
        }
    }
}

} // verus!
