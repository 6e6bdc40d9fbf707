//! The errors an ingestion can end in.

use crate::grib::message::GribIngestError;
use crate::ingest::csv::CsvIngestError;
use crate::ingest::geojson::GeoJsonIngestError;
use crate::ingest::json::JsonIngestError;
use crate::ingest::kml::KmlIngestError;
use crate::ingest::shapefile::ShapefileIngestError;
use crate::ingest::xml::XmlIngestError;
use vstd::prelude::*;

verus! {

/// Errors that can occur during ingestion.
///
/// Transport-level failures (the channel, opening a file, streaming twice) are modelled here
/// directly; each format's parsing failures live in that format's own error type.
#[derive(Debug)]
pub enum IngestorError {
    /// The ingestor has already been consumed and cannot be streamed again.
    CannotBeStreamedTwice,
    /// The downstream channel closed before a batch could be sent: the pipeline is shutting down.
    ChannelClosed,
    /// A file could not be opened; the operating system's reason and the path are kept.
    Io { reason: String, path: String },
    Csv(CsvIngestError),
    GeoJson(GeoJsonIngestError),
    Grib(GribIngestError),
    Json(JsonIngestError),
    Kml(KmlIngestError),
    Shapefile(ShapefileIngestError),
    Xml(XmlIngestError),
}

} // verus!
