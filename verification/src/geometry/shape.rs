use crate::geometry::kind::{GeometryKind, kind_cardinality, kind_dimension, Cardinality, Dimension};
use vstd::prelude::*;

verus! {

/// One RFC 7946 position: a longitude, a latitude and an optional altitude (clause 3.1.1), each
/// component carried as the bits of its `f64`.
pub type Position = Vec<u64>;

/// The positions of a curve, or of a `MultiPoint`'s members.
pub type LineStringType = Vec<Position>;

/// The rings of a polygon: the exterior one first, then the holes.
pub type PolygonType = Vec<LineStringType>;

/// A `GeoJSON` geometry restricted to the types an NGSI-LD `GeoProperty` admits.
///
/// The NGSI-LD information model admits exactly six of RFC 7946's geometry types, so the
/// seventh, `GeometryCollection` (RFC 7946 clause 3.1.8), has no variant here. A position keeps
/// the optional third element RFC 7946 clause 3.1.1 permits.
#[derive(Clone, Debug, PartialEq)]
pub enum NgsiLdGeometry {
    /// One position (RFC 7946 clause 3.1.2).
    Point { coordinates: Position },
    /// An array of positions (RFC 7946 clause 3.1.3).
    MultiPoint { coordinates: Vec<Position> },
    /// A curve through two or more positions (RFC 7946 clause 3.1.4).
    LineString { coordinates: LineStringType },
    /// An array of curves (RFC 7946 clause 3.1.5).
    MultiLineString { coordinates: Vec<LineStringType> },
    /// A surface bounded by an exterior linear ring and any number of holes (clause 3.1.6).
    Polygon { coordinates: PolygonType },
    /// An array of surfaces (RFC 7946 clause 3.1.7).
    MultiPolygon { coordinates: Vec<PolygonType> },
}

/// The mathematical content of a geometry: its type and its nested coordinate sequences.
pub enum GeometryModel {
    Point(Seq<u64>),
    MultiPoint(Seq<Seq<u64>>),
    LineString(Seq<Seq<u64>>),
    MultiLineString(Seq<Seq<Seq<u64>>>),
    Polygon(Seq<Seq<Seq<u64>>>),
    MultiPolygon(Seq<Seq<Seq<Seq<u64>>>>),
}

impl View for NgsiLdGeometry {
    type V = GeometryModel;

    open spec fn view(&self) -> GeometryModel {
        match self {
            NgsiLdGeometry::Point { coordinates } => GeometryModel::Point(coordinates.deep_view()),
            NgsiLdGeometry::MultiPoint { coordinates } => GeometryModel::MultiPoint(
                coordinates.deep_view(),
            ),
            NgsiLdGeometry::LineString { coordinates } => GeometryModel::LineString(
                coordinates.deep_view(),
            ),
            NgsiLdGeometry::MultiLineString { coordinates } => GeometryModel::MultiLineString(
                coordinates.deep_view(),
            ),
            NgsiLdGeometry::Polygon { coordinates } => GeometryModel::Polygon(coordinates.deep_view()),
            NgsiLdGeometry::MultiPolygon { coordinates } => GeometryModel::MultiPolygon(
                coordinates.deep_view(),
            ),
        }
    }
}

/// The geometry type of a model.
pub open spec fn model_kind(model: GeometryModel) -> GeometryKind {
    match model {
        GeometryModel::Point(_) => GeometryKind::Point,
        GeometryModel::MultiPoint(_) => GeometryKind::MultiPoint,
        GeometryModel::LineString(_) => GeometryKind::LineString,
        GeometryModel::MultiLineString(_) => GeometryKind::MultiLineString,
        GeometryModel::Polygon(_) => GeometryKind::Polygon,
        GeometryModel::MultiPolygon(_) => GeometryKind::MultiPolygon,
    }
}

/// How many members a model carries: one for a single geometry, the list's length for a multi one.
pub open spec fn model_members(model: GeometryModel) -> nat {
    match model {
        GeometryModel::MultiPoint(points) => points.len(),
        GeometryModel::MultiLineString(lines) => lines.len(),
        GeometryModel::MultiPolygon(polygons) => polygons.len(),
        _ => 1,
    }
}

/// The geometry type of a value.
pub open spec fn geometry_kind(geometry: NgsiLdGeometry) -> GeometryKind {
    model_kind(geometry@)
}

/// The multi-geometry of a single geometry's own dimension, holding it as its one member.
pub open spec fn promoted(model: GeometryModel) -> GeometryModel {
    match model {
        GeometryModel::Point(p) => GeometryModel::MultiPoint(seq![p]),
        GeometryModel::LineString(l) => GeometryModel::MultiLineString(seq![l]),
        GeometryModel::Polygon(r) => GeometryModel::MultiPolygon(seq![r]),
        _ => model,
    }
}

/// The single geometry a multi-geometry's member `index` is, as a geometry of its own.
pub open spec fn member_model(model: GeometryModel, index: int) -> GeometryModel {
    match model {
        GeometryModel::MultiPoint(points) => GeometryModel::Point(points[index]),
        GeometryModel::MultiLineString(lines) => GeometryModel::LineString(lines[index]),
        GeometryModel::MultiPolygon(polygons) => GeometryModel::Polygon(polygons[index]),
        _ => model,
    }
}

impl NgsiLdGeometry {
    /// Which of the six geometry types this value is.
    pub fn kind(&self) -> (kind: GeometryKind)
        ensures
            kind == model_kind(self@),
    {
        match self {
            NgsiLdGeometry::Point { .. } => GeometryKind::Point,
            NgsiLdGeometry::MultiPoint { .. } => GeometryKind::MultiPoint,
            NgsiLdGeometry::LineString { .. } => GeometryKind::LineString,
            NgsiLdGeometry::MultiLineString { .. } => GeometryKind::MultiLineString,
            NgsiLdGeometry::Polygon { .. } => GeometryKind::Polygon,
            NgsiLdGeometry::MultiPolygon { .. } => GeometryKind::MultiPolygon,
        }
    }

    /// How many members a multi-geometry carries; a single geometry always carries exactly one.
    pub fn members(&self) -> (members: usize)
        ensures
            members == model_members(self@),
    {
        match self {
            NgsiLdGeometry::Point { .. }
            | NgsiLdGeometry::LineString { .. }
            | NgsiLdGeometry::Polygon { .. } => 1,
            NgsiLdGeometry::MultiPoint { coordinates } => coordinates.len(),
            NgsiLdGeometry::MultiLineString { coordinates } => coordinates.len(),
            NgsiLdGeometry::MultiPolygon { coordinates } => coordinates.len(),
        }
    }
}

/// A single geometry's kind has cardinality `Single`, and the model's kind is determined by the
/// variant alone.
pub proof fn lemma_single_kinds(model: GeometryModel)
    ensures
        kind_cardinality(model_kind(model)) == Cardinality::Single <==> (model is Point
            || model is LineString || model is Polygon),
        kind_dimension(model_kind(model)) == Dimension::Point <==> (model is Point
            || model is MultiPoint),
{
}

} // verus!
