//! A benchmarking core for binary wire-format codecs: a mesh domain model,
//! a reproducible synthetic-data generator, a per-format serialization
//! capability interface with three formats, and the driver that prepares a
//! canonical encoded buffer and measures its size.

pub mod driver;
pub mod error;
pub mod format;
pub mod packed_be;
pub mod packed_le;
pub mod tagged;
pub mod view;
pub mod wire;
pub mod generate;
pub mod mesh;
