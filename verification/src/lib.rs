//! Dispatch and type-conversion engine for loading tabular data from a
//! source into a destination: layout negotiation, schema conversion,
//! partitioning and the cell-by-cell copy loop.

pub mod data_order;
pub mod datetime;
pub mod destinations;
pub mod dispatcher;
pub mod errors;
pub mod sources;
pub mod text;
pub mod typesystem;
