use crate::geometry::kind::GeometryKind;
use crate::geometry::strategy::ConversionStrategy;
use vstd::prelude::*;

verus! {

/// A refusal raised while admitting, building, converting, or validating a geometry.
///
/// Every payload is a small, record-independent value on purpose: a refusal doubles as the
/// deduplication key a diagnostic groups by, so two records refused for the same reason produce
/// two equal errors.
#[derive(Clone, Copy, Debug, PartialEq, Eq, Structural, Hash)]
pub enum GeometryError {
    /// The source carried a `GeometryCollection`, which is not one of the six geometry types a
    /// `GeoProperty` admits.
    GeometryCollection,
    /// The source and target geometries differ in dimension, and no conversion was declared.
    Uncoercible { origin: GeometryKind, target: GeometryKind },
    /// A multi-geometry carrying several members was asked to become a single geometry.
    AmbiguousMultiGeometry { origin: GeometryKind, members: usize },
    /// The declared conversion cannot produce the declared target type.
    StrategyNotApplicable { strategy: ConversionStrategy, target: GeometryKind },
    /// The source coordinates are not nested the way the target geometry type requires.
    Unbuildable { target: GeometryKind },
    /// A position carried fewer than the two components RFC 7946 clause 3.1.1 requires.
    ShortPosition { components: usize },
    /// A `LineString` carried fewer than the two positions RFC 7946 clause 3.1.4 requires.
    ShortLineString { positions: usize },
    /// A linear ring carried fewer than the four positions RFC 7946 clause 3.1.6 requires.
    ShortRing { positions: usize },
    /// A linear ring did not end where it started; a ring is never closed on the source's behalf.
    UnclosedRing,
    /// A linear ring whose positions do not span a surface: fewer than three of them differ from
    /// one another, as in the bounding box of a lone position.
    DegenerateRing,
    /// A multi-geometry carrying no members was asked to become a single geometry.
    EmptyGeometry,
    /// A `GeometryCollection` whose members are of several geometry families.
    MixedCollection,
}

} // verus!
