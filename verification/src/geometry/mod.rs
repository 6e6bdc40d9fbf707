//! The NGSI-LD geometry domain: the six admissible `GeoJSON` geometry types and the conversion
//! lattice between them.

pub mod kind;
pub mod strategy;
pub mod error;
pub mod shape;
pub mod lattice;
pub mod ring;
pub mod selection;
pub mod line_derivation;
pub mod area_derivation;
pub mod vertex_derivation;
pub mod validity;
pub mod normalisation;
pub mod coordinates;
pub mod rfc7946;
pub mod convert;
