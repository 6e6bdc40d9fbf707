//! GRIB gridded data: the canonical parameter and level vocabularies both decoders share, and the
//! pivot of per-parameter fields into per-location records.

pub mod parameter;
pub mod level;
pub mod grid_slice;
pub mod message;
