//! `GeoJSON` features turned into records mirroring the source structure.

use crate::record::{inserted, json_model, JsonModel, JsonObject, JsonValue, Record};
use crate::text::owned;
use vstd::prelude::*;

verus! {

/// Errors that can occur while parsing `GeoJSON` input.
#[derive(Debug)]
pub enum GeoJsonIngestError {
    /// The `GeoJSON` ingestor was handed an in-memory byte payload; it needs a file.
    RequiresFile,
    /// The input is a bare geometry rather than a `Feature` or `FeatureCollection`.
    UnsupportedInput,
    /// The input is not valid `GeoJSON`; the parser's message is kept.
    Parse(String),
    /// A feature id could not be encoded; the serializer's message is kept.
    Encode(String),
}

/// A `GeoJSON` feature with its members already written as JSON: the id, the properties, the
/// geometry object and the bounding box, each when present.
#[derive(Debug)]
pub struct GeoJsonFeature {
    pub id: Option<JsonValue>,
    pub properties: Option<JsonObject>,
    pub geometry: Option<JsonValue>,
    pub bbox: Option<JsonValue>,
}

/// The record data of a feature: `id`, `properties`, `geometry` and `bbox`, each when present.
pub open spec fn feature_data(feature: GeoJsonFeature) -> Seq<(Seq<char>, JsonModel)> {
    let identified = match feature.id {
        Some(id) => inserted(Seq::empty(), "id"@, json_model(id)),
        None => Seq::empty(),
    };
    let described = match feature.properties {
        Some(properties) => inserted(identified, "properties"@, JsonModel::Object(properties@)),
        None => identified,
    };
    let located = match feature.geometry {
        Some(geometry) => inserted(described, "geometry"@, json_model(geometry)),
        None => described,
    };
    match feature.bbox {
        Some(bbox) => inserted(located, "bbox"@, json_model(bbox)),
        None => located,
    }
}

/// Converts a `GeoJSON` feature into a record with `id`, `properties`, `geometry` and `bbox`
/// keys mirroring the source structure. A `GeoJSON` source is one collection: the record carries
/// no collection name.
pub fn feature_to_record(feature: GeoJsonFeature) -> (record: Record)
    ensures
        record@ == (None::<Seq<char>>, feature_data(feature)),
{
    let ghost initial = feature;
    let GeoJsonFeature { id, properties, geometry, bbox } = feature;
    let mut data = JsonObject::new();
    if let Some(id) = id {
        data.insert(owned("id"), id);
    }
    if let Some(properties) = properties {
        data.insert(owned("properties"), JsonValue::Object(properties));
    }
    if let Some(geometry) = geometry {
        data.insert(owned("geometry"), geometry);
    }
    if let Some(bbox) = bbox {
        data.insert(owned("bbox"), bbox);
    }
    Record::new(None, data)
}

} // verus!
