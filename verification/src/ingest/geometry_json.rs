//! A geometry written as the JSON value of a `GeoJSON` geometry object.

use crate::geometry::kind::kind_token;
use crate::geometry::shape::{model_kind, GeometryModel, NgsiLdGeometry};
use crate::ieee::{finite, is_finite};
use crate::record::{
    inserted, items_model, json_model, lemma_array_model, JsonModel, JsonNumber, JsonObject, JsonValue,
};
use crate::text::owned;
use vstd::prelude::*;

verus! {

/// A coordinate as a JSON number, or null when it is not finite (JSON has no NaN or infinity).
pub open spec fn number_or_null(bits: u64) -> JsonModel {
    if is_finite(bits) {
        JsonModel::Number(JsonNumber::Float(bits))
    } else {
        JsonModel::Null
    }
}

/// A position as a JSON array of its components.
pub open spec fn position_json(position: Seq<u64>) -> JsonModel {
    JsonModel::Array(Seq::new(position.len(), |i: int| number_or_null(position[i])))
}

/// A list of positions as a JSON array.
pub open spec fn positions_json(positions: Seq<Seq<u64>>) -> JsonModel {
    JsonModel::Array(Seq::new(positions.len(), |i: int| position_json(positions[i])))
}

/// A list of position lists as a JSON array.
pub open spec fn rings_json(rings: Seq<Seq<Seq<u64>>>) -> JsonModel {
    JsonModel::Array(Seq::new(rings.len(), |i: int| positions_json(rings[i])))
}

/// A list of polygons as a JSON array.
pub open spec fn polygons_json(polygons: Seq<Seq<Seq<Seq<u64>>>>) -> JsonModel {
    JsonModel::Array(Seq::new(polygons.len(), |i: int| rings_json(polygons[i])))
}

/// The `coordinates` member of a geometry.
pub open spec fn coordinates_json(model: GeometryModel) -> JsonModel {
    match model {
        GeometryModel::Point(p) => position_json(p),
        GeometryModel::MultiPoint(ps) => positions_json(ps),
        GeometryModel::LineString(ps) => positions_json(ps),
        GeometryModel::MultiLineString(ls) => rings_json(ls),
        GeometryModel::Polygon(rs) => rings_json(rs),
        GeometryModel::MultiPolygon(ps) => polygons_json(ps),
    }
}

/// A geometry as a `GeoJSON` geometry object: its `type` and its `coordinates`.
pub open spec fn geometry_json(model: GeometryModel) -> JsonModel {
    JsonModel::Object(
        inserted(
            inserted(Seq::empty(), "type"@, JsonModel::Text(kind_token(model_kind(model)))),
            "coordinates"@,
            coordinates_json(model),
        ),
    )
}

/// A position as a JSON array.
fn position_value(position: &Vec<u64>) -> (value: JsonValue)
    ensures
        json_model(value) == position_json(position@),
{
    let mut items: Vec<JsonValue> = Vec::new();
    let mut i: usize = 0;
    while i < position.len()
        invariant
            i <= position@.len(),
            items_model(items@) == Seq::new(i as nat, |k: int| number_or_null(position@[k])),
        decreases position@.len() - i,
    {
        let bits = position[i];
        let item = if finite(bits) {
            JsonValue::Number(JsonNumber::Float(bits))
        } else {
            JsonValue::Null
        };
        let ghost old_items = items@;
        items.push(item);
        assert(items_model(items@) =~= items_model(old_items).push(json_model(item)));
        assert(items_model(items@) =~= Seq::new((i + 1) as nat, |k: int| number_or_null(position@[k])));
        i = i + 1;
    }
    proof {
        lemma_array_model(items);
    }
    JsonValue::Array(items)
}

/// A list of positions as a JSON array.
fn positions_value(positions: &Vec<Vec<u64>>) -> (value: JsonValue)
    ensures
        json_model(value) == positions_json(positions.deep_view()),
{
    let mut items: Vec<JsonValue> = Vec::new();
    let mut i: usize = 0;
    while i < positions.len()
        invariant
            i <= positions@.len(),
            items_model(items@) == Seq::new(i as nat, |k: int| position_json(positions.deep_view()[k])),
        decreases positions@.len() - i,
    {
        assert(positions.deep_view()[i as int] =~= positions@[i as int]@);
        let item = position_value(&positions[i]);
        let ghost old_items = items@;
        items.push(item);
        assert(items_model(items@) =~= items_model(old_items).push(json_model(item)));
        assert(items_model(items@) =~= Seq::new(
            (i + 1) as nat,
            |k: int| position_json(positions.deep_view()[k]),
        ));
        i = i + 1;
    }
    proof {
        lemma_array_model(items);
    }
    assert(Seq::new(i as nat, |k: int| position_json(positions.deep_view()[k])) =~= Seq::new(
        positions.deep_view().len(),
        |k: int| position_json(positions.deep_view()[k]),
    ));
    JsonValue::Array(items)
}

/// A list of position lists as a JSON array.
fn rings_value(rings: &Vec<Vec<Vec<u64>>>) -> (value: JsonValue)
    ensures
        json_model(value) == rings_json(rings.deep_view()),
{
    let mut items: Vec<JsonValue> = Vec::new();
    let mut i: usize = 0;
    while i < rings.len()
        invariant
            i <= rings@.len(),
            items_model(items@) == Seq::new(i as nat, |k: int| positions_json(rings.deep_view()[k])),
        decreases rings@.len() - i,
    {
        let item = positions_value(&rings[i]);
        let ghost old_items = items@;
        items.push(item);
        assert(items_model(items@) =~= items_model(old_items).push(json_model(item)));
        assert(items_model(items@) =~= Seq::new(
            (i + 1) as nat,
            |k: int| positions_json(rings.deep_view()[k]),
        ));
        i = i + 1;
    }
    proof {
        lemma_array_model(items);
    }
    assert(Seq::new(i as nat, |k: int| positions_json(rings.deep_view()[k])) =~= Seq::new(
        rings.deep_view().len(),
        |k: int| positions_json(rings.deep_view()[k]),
    ));
    JsonValue::Array(items)
}

/// A list of polygons as a JSON array.
fn polygons_value(polygons: &Vec<Vec<Vec<Vec<u64>>>>) -> (value: JsonValue)
    ensures
        json_model(value) == polygons_json(polygons.deep_view()),
{
    let mut items: Vec<JsonValue> = Vec::new();
    let mut i: usize = 0;
    while i < polygons.len()
        invariant
            i <= polygons@.len(),
            items_model(items@) == Seq::new(i as nat, |k: int| rings_json(polygons.deep_view()[k])),
        decreases polygons@.len() - i,
    {
        let item = rings_value(&polygons[i]);
        let ghost old_items = items@;
        items.push(item);
        assert(items_model(items@) =~= items_model(old_items).push(json_model(item)));
        assert(items_model(items@) =~= Seq::new(
            (i + 1) as nat,
            |k: int| rings_json(polygons.deep_view()[k]),
        ));
        i = i + 1;
    }
    proof {
        lemma_array_model(items);
    }
    assert(Seq::new(i as nat, |k: int| rings_json(polygons.deep_view()[k])) =~= Seq::new(
        polygons.deep_view().len(),
        |k: int| rings_json(polygons.deep_view()[k]),
    ));
    JsonValue::Array(items)
}

/// Writes a geometry as the JSON value of a `GeoJSON` geometry object.
pub fn geometry_value(geometry: &NgsiLdGeometry) -> (value: JsonValue)
    ensures
        json_model(value) == geometry_json(geometry@),
{
    let coordinates = match geometry {
        NgsiLdGeometry::Point { coordinates } => {
            assert(coordinates.deep_view() =~= coordinates@);
            position_value(coordinates)
        },
        NgsiLdGeometry::MultiPoint { coordinates } => positions_value(coordinates),
        NgsiLdGeometry::LineString { coordinates } => positions_value(coordinates),
        NgsiLdGeometry::MultiLineString { coordinates } => rings_value(coordinates),
        NgsiLdGeometry::Polygon { coordinates } => rings_value(coordinates),
        NgsiLdGeometry::MultiPolygon { coordinates } => polygons_value(coordinates),
    };
    let ghost coordinates_model = json_model(coordinates);
    assert(coordinates_model == coordinates_json(geometry@));
    let kind = geometry.kind();
    let token = kind.to_string();
    let mut object = JsonObject::new();
    object.insert(owned("type"), JsonValue::Text(token));
    object.insert(owned("coordinates"), coordinates);
    let value = JsonValue::Object(object);
    assert(json_model(value) == JsonModel::Object(object@));
    value
}

} // verus!
