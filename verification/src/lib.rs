//! Turning source documents into NGSI-LD ready records: the geometry lattice every `GeoProperty`
//! value passes through, and the format-specific rules that split a parsed source into records.
//!
//! Coordinates are IEEE-754 doubles. They are carried here by their bit patterns (`u64`), which
//! is how the library compares, deduplicates and orders them without floating-point arithmetic;
//! the module [`ieee`] states what the bit patterns mean.

pub mod geometry;
pub mod grib;
pub mod ieee;
pub mod ingest;
pub mod lists;
pub mod record;
pub mod text;
