//! The format-specific rules that turn a parsed source into records.

pub mod lone_array;
pub mod json;
pub mod xml;
pub mod csv;
pub mod geometry_json;
pub mod kml;
pub mod shapefile;
pub mod geojson;
pub mod error;
