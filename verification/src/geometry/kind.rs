use vstd::prelude::*;
use vstd::string::StringExecFns;

verus! {

/// How many dimensions a geometry's coordinates span.
///
/// The lattice is organised around this: a conversion that keeps the dimension only regroups
/// coordinates, while one that changes it either discards extent or derives it from vertices.
#[derive(Clone, Copy, Debug, PartialEq, Eq, Structural, Hash)]
pub enum Dimension {
    /// A position, carrying no extent.
    Point,
    /// A curve, carrying length but no area.
    Line,
    /// A surface, carrying area.
    Area,
}

/// Whether a geometry type holds one member or an ordered list of them.
#[derive(Clone, Copy, Debug, PartialEq, Eq, Structural, Hash)]
pub enum Cardinality {
    /// One member: `Point`, `LineString`, `Polygon`.
    Single,
    /// Zero or more members: `MultiPoint`, `MultiLineString`, `MultiPolygon`.
    Multi,
}

/// Which of the six admissible geometry types a geometry is.
#[derive(Clone, Copy, Debug, PartialEq, Eq, Structural, Hash)]
pub enum GeometryKind {
    Point,
    MultiPoint,
    LineString,
    MultiLineString,
    Polygon,
    MultiPolygon,
}

/// What a mapping's `transformation` asks the geometry to become.
#[derive(Clone, Copy, Debug, PartialEq, Eq, Structural, Hash)]
pub enum GeometryTarget {
    /// Keep whatever admissible geometry the source carries, whichever of the six it is.
    Preserve,
    /// Produce exactly this geometry type.
    Coerce(GeometryKind),
}

/// The dimension a geometry type spans.
pub open spec fn kind_dimension(kind: GeometryKind) -> Dimension {
    match kind {
        GeometryKind::Point | GeometryKind::MultiPoint => Dimension::Point,
        GeometryKind::LineString | GeometryKind::MultiLineString => Dimension::Line,
        GeometryKind::Polygon | GeometryKind::MultiPolygon => Dimension::Area,
    }
}

/// Whether a geometry type holds one member or a list.
pub open spec fn kind_cardinality(kind: GeometryKind) -> Cardinality {
    match kind {
        GeometryKind::Point | GeometryKind::LineString | GeometryKind::Polygon => Cardinality::Single,
        _ => Cardinality::Multi,
    }
}

/// The geometry type of a dimension and a cardinality: every pair names exactly one type.
pub open spec fn kind_of(dimension: Dimension, cardinality: Cardinality) -> GeometryKind {
    match (dimension, cardinality) {
        (Dimension::Point, Cardinality::Single) => GeometryKind::Point,
        (Dimension::Point, Cardinality::Multi) => GeometryKind::MultiPoint,
        (Dimension::Line, Cardinality::Single) => GeometryKind::LineString,
        (Dimension::Line, Cardinality::Multi) => GeometryKind::MultiLineString,
        (Dimension::Area, Cardinality::Single) => GeometryKind::Polygon,
        (Dimension::Area, Cardinality::Multi) => GeometryKind::MultiPolygon,
    }
}

/// The RFC 7946 `type` token of a geometry type.
pub open spec fn kind_token(kind: GeometryKind) -> Seq<char> {
    match kind {
        GeometryKind::Point => "Point"@,
        GeometryKind::MultiPoint => "MultiPoint"@,
        GeometryKind::LineString => "LineString"@,
        GeometryKind::MultiLineString => "MultiLineString"@,
        GeometryKind::Polygon => "Polygon"@,
        GeometryKind::MultiPolygon => "MultiPolygon"@,
    }
}

/// The six kinds in declaration order.
pub open spec fn all_kinds() -> Seq<GeometryKind> {
    seq![
        GeometryKind::Point,
        GeometryKind::MultiPoint,
        GeometryKind::LineString,
        GeometryKind::MultiLineString,
        GeometryKind::Polygon,
        GeometryKind::MultiPolygon,
    ]
}

impl GeometryKind {
    /// How many dimensions this geometry type's coordinates span.
    pub fn dimension(self) -> (dimension: Dimension)
        ensures
            dimension == kind_dimension(self),
    {
        match self {
            GeometryKind::Point | GeometryKind::MultiPoint => Dimension::Point,
            GeometryKind::LineString | GeometryKind::MultiLineString => Dimension::Line,
            GeometryKind::Polygon | GeometryKind::MultiPolygon => Dimension::Area,
        }
    }

    /// Whether this geometry type holds one member or a list of them.
    pub fn cardinality(self) -> (cardinality: Cardinality)
        ensures
            cardinality == kind_cardinality(self),
    {
        match self {
            GeometryKind::Point | GeometryKind::LineString | GeometryKind::Polygon => Cardinality::Single,
            GeometryKind::MultiPoint | GeometryKind::MultiLineString | GeometryKind::MultiPolygon => Cardinality::Multi,
        }
    }

    /// The single-member type of the same dimension.
    pub fn singular(self) -> (kind: GeometryKind)
        ensures
            kind == kind_of(kind_dimension(self), Cardinality::Single),
    {
        match self {
            GeometryKind::Point | GeometryKind::MultiPoint => GeometryKind::Point,
            GeometryKind::LineString | GeometryKind::MultiLineString => GeometryKind::LineString,
            GeometryKind::Polygon | GeometryKind::MultiPolygon => GeometryKind::Polygon,
        }
    }

    /// The multi-member type of the same dimension.
    pub fn plural(self) -> (kind: GeometryKind)
        ensures
            kind == kind_of(kind_dimension(self), Cardinality::Multi),
    {
        match self {
            GeometryKind::Point | GeometryKind::MultiPoint => GeometryKind::MultiPoint,
            GeometryKind::LineString | GeometryKind::MultiLineString => GeometryKind::MultiLineString,
            GeometryKind::Polygon | GeometryKind::MultiPolygon => GeometryKind::MultiPolygon,
        }
    }

    /// The RFC 7946 `type` token this geometry type is written with.
    pub fn to_string(&self) -> (token: String)
        ensures
            token@ == kind_token(*self),
    {
        match self {
            GeometryKind::Point => String::from_str("Point"),
            GeometryKind::MultiPoint => String::from_str("MultiPoint"),
            GeometryKind::LineString => String::from_str("LineString"),
            GeometryKind::MultiLineString => String::from_str("MultiLineString"),
            GeometryKind::Polygon => String::from_str("Polygon"),
            GeometryKind::MultiPolygon => String::from_str("MultiPolygon"),
        }
    }

    /// Every geometry type, each once.
    pub fn all() -> (kinds: Vec<GeometryKind>)
        ensures
            kinds@ == all_kinds(),
    {
        let kinds = vec![
            GeometryKind::Point,
            GeometryKind::MultiPoint,
            GeometryKind::LineString,
            GeometryKind::MultiLineString,
            GeometryKind::Polygon,
            GeometryKind::MultiPolygon,
        ];
        assert(kinds@ =~= all_kinds());
        kinds
    }
}

/// Singular and plural pair every kind with its counterpart of the same dimension, and the pair
/// (dimension, cardinality) identifies a kind.
pub proof fn lemma_kind_is_its_dimension_and_cardinality(kind: GeometryKind)
    ensures
        kind_of(kind_dimension(kind), kind_cardinality(kind)) == kind,
        kind_dimension(kind_of(kind_dimension(kind), Cardinality::Single)) == kind_dimension(kind),
        kind_dimension(kind_of(kind_dimension(kind), Cardinality::Multi)) == kind_dimension(kind),
        kind_cardinality(kind_of(kind_dimension(kind), Cardinality::Single)) == Cardinality::Single,
        kind_cardinality(kind_of(kind_dimension(kind), Cardinality::Multi)) == Cardinality::Multi,
{
}

/// The six kinds are pairwise distinct, so the enumeration lists each exactly once.
pub proof fn lemma_all_kinds_are_distinct()
    ensures
        all_kinds().len() == 6,
        forall|i: int, j: int| 0 <= i < j < 6 ==> all_kinds()[i] != all_kinds()[j],
        forall|kind: GeometryKind| all_kinds().contains(kind),
{
    assert forall|kind: GeometryKind| all_kinds().contains(kind) by {
        match kind {
            GeometryKind::Point => assert(all_kinds()[0] == kind),
            GeometryKind::MultiPoint => assert(all_kinds()[1] == kind),
            GeometryKind::LineString => assert(all_kinds()[2] == kind),
            GeometryKind::MultiLineString => assert(all_kinds()[3] == kind),
            GeometryKind::Polygon => assert(all_kinds()[4] == kind),
            GeometryKind::MultiPolygon => assert(all_kinds()[5] == kind),
        }
    }
}

} // verus!
