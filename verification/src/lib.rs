//! Zero-copy read path for a schema-based binary serialization format.
//!
//! Raw bytes are wrapped in a shared, immutable buffer; a family of
//! offset-resolution combinators decodes values in place, starting from a
//! root forward offset.  Object views resolve optional fields through a
//! per-object offset table, and sequence views give length-prefixed,
//! fixed-stride indexed access.  Every accessor is a cheap `(buffer,
//! location)` window over the same bytes; nothing is deserialized into
//! owned structures.

pub mod buffer;
pub mod endian;
pub mod follow;
pub mod primitives;
pub mod vtable;
pub mod table;
pub mod vector;
pub mod laws;
