use crate::geometry::area_derivation::{ring, spec_ring};
use crate::geometry::coordinates::{
    CoordinateShape, as_polygons, as_position, as_positions, as_rings, members_depth, shape_depth,
};
use crate::geometry::error::GeometryError;
use crate::geometry::kind::{GeometryKind, GeometryTarget};
use crate::geometry::lattice::{outcome_model, reconcile, spec_reconcile};
use crate::geometry::line_derivation::{
    boundary, connect, exterior_ring, spec_boundary, spec_connect, spec_exterior_ring,
};
use crate::geometry::normalisation::{normalise, normalised};
use crate::geometry::rfc7946::{
    GeometryValue, fold_collection, spec_fold_collection, value_model,
};
use crate::geometry::ring::areas_fit;
use crate::geometry::selection::{extents_fit, first, largest, largest_outcome, spec_first};
use crate::geometry::shape::{GeometryModel, NgsiLdGeometry};
use crate::geometry::strategy::{ConversionStrategy, GeometryPolicy};
use crate::geometry::validity::spec_validate;
use crate::geometry::vertex_derivation::{first_vertex, spec_first_position, spec_vertices, vertices};
use vstd::prelude::*;

verus! {

/// What a conversion needs measured in the plane or on the ellipsoid, supplied by the caller
/// because it is floating-point work: the geodesic extent of each member for `largest`, or the
/// whole planar derivation for the conversions computed from coordinates.
pub enum Measurements {
    /// The conversion needs nothing measured.
    Nothing,
    /// The bits of each member's geodesic extent, in member order.
    Extents(Vec<u64>),
    /// The outcome of the planar derivation the conversion names.
    Derived(Result<NgsiLdGeometry, GeometryError>),
}

/// The conversions computed in the plane from coordinates rather than by regrouping them.
pub open spec fn is_planar(strategy: ConversionStrategy) -> bool {
    match strategy {
        ConversionStrategy::Centroid
        | ConversionStrategy::PointOnSurface
        | ConversionStrategy::BboxCenter
        | ConversionStrategy::ConvexHull
        | ConversionStrategy::Envelope => true,
        _ => false,
    }
}

/// The measurements supplied are the ones the conversion needs.
pub open spec fn measurements_fit(
    model: GeometryModel,
    strategy: ConversionStrategy,
    measurements: Measurements,
) -> bool {
    &&& strategy == ConversionStrategy::Largest ==> (measurements matches Measurements::Extents(
        extents,
    ) && extents_fit(model, extents@))
    &&& is_planar(strategy) ==> measurements is Derived
}

/// The outcome of running one declared conversion.
pub open spec fn applied(
    model: GeometryModel,
    strategy: ConversionStrategy,
    measurements: Measurements,
    result: Result<GeometryModel, GeometryError>,
) -> bool {
    match strategy {
        ConversionStrategy::First => result == spec_first(model),
        ConversionStrategy::Largest => match measurements {
            Measurements::Extents(extents) => largest_outcome(model, extents@, result),
            _ => false,
        },
        ConversionStrategy::FirstVertex => result == (match spec_first_position(model) {
            Some(p) => Ok(GeometryModel::Point(p)),
            None => Err(GeometryError::EmptyGeometry),
        }),
        ConversionStrategy::ExteriorRing => result == spec_exterior_ring(model),
        ConversionStrategy::Boundary => result == spec_boundary(model),
        ConversionStrategy::Connect => result == spec_connect(model),
        ConversionStrategy::Ring => result == spec_ring(model),
        ConversionStrategy::Vertices => result == spec_vertices(model),
        ConversionStrategy::Flatten => result == Ok::<GeometryModel, GeometryError>(model),
        _ => match measurements {
            Measurements::Derived(derived) => result == outcome_model(derived),
            _ => false,
        },
    }
}

/// Raw coordinates read as the declared geometry type; a polygon accepts a bare ring as well as a
/// list of rings, and no type is built from an empty list.
pub open spec fn spec_build(shape: CoordinateShape, kind: GeometryKind) -> Result<
    GeometryModel,
    GeometryError,
> {
    let unbuildable = Err(GeometryError::Unbuildable { target: kind });
    match kind {
        GeometryKind::Point => match as_position(shape) {
            Some(p) => Ok(GeometryModel::Point(p)),
            None => unbuildable,
        },
        GeometryKind::MultiPoint => match as_positions(shape) {
            Some(ps) => if ps.len() > 0 {
                Ok(GeometryModel::MultiPoint(ps))
            } else {
                unbuildable
            },
            None => unbuildable,
        },
        GeometryKind::LineString => match as_positions(shape) {
            Some(ps) => if ps.len() > 0 {
                Ok(GeometryModel::LineString(ps))
            } else {
                unbuildable
            },
            None => unbuildable,
        },
        GeometryKind::MultiLineString => match as_rings(shape) {
            Some(ls) => if ls.len() > 0 {
                Ok(GeometryModel::MultiLineString(ls))
            } else {
                unbuildable
            },
            None => unbuildable,
        },
        GeometryKind::Polygon => match spec_polygon_rings(shape) {
            Some(rings) => if rings.len() > 0 && forall|i: int|
                0 <= i < rings.len() ==> #[trigger] rings[i].len() > 0 {
                Ok(GeometryModel::Polygon(rings))
            } else {
                unbuildable
            },
            None => unbuildable,
        },
        GeometryKind::MultiPolygon => match as_polygons(shape) {
            Some(ps) => if ps.len() > 0 {
                Ok(GeometryModel::MultiPolygon(ps))
            } else {
                unbuildable
            },
            None => unbuildable,
        },
    }
}

/// A polygon's rings read from raw coordinates: a list of rings when the coordinates nest more
/// than one level deep, else one bare ring.
pub open spec fn spec_polygon_rings(shape: CoordinateShape) -> Option<Seq<Seq<Seq<u64>>>> {
    if shape_depth(shape) > 1 {
        as_rings(shape)
    } else {
        match as_positions(shape) {
            Some(ring) => Some(seq![ring]),
            None => None,
        }
    }
}

/// A source geometry admitted, a `GeometryCollection` folded only when `flatten` was declared.
pub open spec fn spec_admit_source(value: GeometryValue, strategy: Option<ConversionStrategy>) -> Result<
    GeometryModel,
    GeometryError,
> {
    match value {
        GeometryValue::GeometryCollection { geometries } => if strategy == Some(
            ConversionStrategy::Flatten,
        ) {
            spec_fold_collection(geometries)
        } else {
            Err(GeometryError::GeometryCollection)
        },
        _ => value_model(value),
    }
}

/// The declared conversion followed by the lossless reconciliation with the target type.
pub open spec fn prepared(
    model: GeometryModel,
    target: GeometryTarget,
    policy: GeometryPolicy,
    measurements: Measurements,
    result: Result<GeometryModel, GeometryError>,
) -> bool {
    match policy.spec_convert() {
        None => result == reconciled_with(model, target),
        Some(strategy) => exists|converted: Result<GeometryModel, GeometryError>|
            applied(model, strategy, measurements, converted) && result == (match converted {
                Err(error) => Err(error),
                Ok(geometry) => reconciled_with(geometry, target),
            }),
    }
}

/// Reconciliation with a target, a preserved target taking the geometry as it is.
pub open spec fn reconciled_with(model: GeometryModel, target: GeometryTarget) -> Result<
    GeometryModel,
    GeometryError,
> {
    match target {
        GeometryTarget::Preserve => Ok(model),
        GeometryTarget::Coerce(kind) => spec_reconcile(model, kind),
    }
}

/// Normalisation followed by the structural check.
pub open spec fn finished(model: GeometryModel, policy: GeometryPolicy, areas: Seq<Seq<u64>>) -> Result<
    GeometryModel,
    GeometryError,
> {
    let normal = normalised(model, policy, areas);
    match spec_validate(normal) {
        Ok(()) => Ok(normal),
        Err(error) => Err(error),
    }
}

/// Admits one source geometry, folding a `GeometryCollection` only when the mapping declared the
/// conversion that folds one.
pub fn admit_source(value: GeometryValue, strategy: Option<ConversionStrategy>) -> (result: Result<
    NgsiLdGeometry,
    GeometryError,
>)
    ensures
        outcome_model(result) == spec_admit_source(value, strategy),
{
    match value {
        GeometryValue::GeometryCollection { geometries } => {
            if matches!(strategy, Some(ConversionStrategy::Flatten)) {
                fold_collection(geometries)
            } else {
                Err(GeometryError::GeometryCollection)
            }
        },
        other => NgsiLdGeometry::try_from(other),
    }
}

/// Runs one declared conversion.
///
/// `flatten` is a no-op here: a collection was already folded when the source geometry was
/// admitted, and a source that was not a collection is simply kept. `largest` ranks members by the
/// extents supplied; the planar derivations arrive already computed.
pub fn apply(geometry: NgsiLdGeometry, strategy: ConversionStrategy, measurements: Measurements) -> (result: Result<
    NgsiLdGeometry,
    GeometryError,
>)
    requires
        measurements_fit(geometry@, strategy, measurements),
    ensures
        applied(geometry@, strategy, measurements, outcome_model(result)),
{
    match strategy {
        ConversionStrategy::First => first(geometry),
        ConversionStrategy::Largest => match measurements {
            Measurements::Extents(extents) => largest(geometry, &extents),
            _ => Err(GeometryError::EmptyGeometry),
        },
        ConversionStrategy::FirstVertex => first_vertex(&geometry),
        ConversionStrategy::ExteriorRing => exterior_ring(geometry),
        ConversionStrategy::Boundary => boundary(geometry),
        ConversionStrategy::Connect => connect(geometry),
        ConversionStrategy::Ring => ring(geometry),
        ConversionStrategy::Vertices => vertices(geometry),
        ConversionStrategy::Flatten => Ok(geometry),
        ConversionStrategy::Centroid
        | ConversionStrategy::PointOnSurface
        | ConversionStrategy::BboxCenter
        | ConversionStrategy::ConvexHull
        | ConversionStrategy::Envelope => match measurements {
            Measurements::Derived(derived) => derived,
            _ => Err(GeometryError::EmptyGeometry),
        },
    }
}

/// The first half of a conversion: the declared conversion, then the lossless reconciliation with
/// the target type. What it yields is measured for winding before [`finish`] normalises it.
pub fn prepare(
    geometry: NgsiLdGeometry,
    target: GeometryTarget,
    policy: &GeometryPolicy,
    measurements: Measurements,
) -> (result: Result<NgsiLdGeometry, GeometryError>)
    requires
        policy.spec_convert() matches Some(strategy) ==> measurements_fit(
            geometry@,
            strategy,
            measurements,
        ),
    ensures
        prepared(geometry@, target, *policy, measurements, outcome_model(result)),
{
    let ghost model = geometry@;
    let converted = match policy.convert() {
        Some(strategy) => apply(geometry, *strategy, measurements),
        None => Ok(geometry),
    };
    let ghost converted_model = outcome_model(converted);
    let reconciled = match converted {
        Err(error) => Err(error),
        Ok(geometry) => match target {
            GeometryTarget::Preserve => Ok(geometry),
            GeometryTarget::Coerce(kind) => reconcile(geometry, kind),
        },
    };
    proof {
        if let Some(strategy) = policy.spec_convert() {
            assert(applied(model, strategy, measurements, converted_model));
        }
    }
    reconciled
}

/// The second half of a conversion: normalisation and the structural check.
///
/// `areas` holds, per surface, the bits of each ring's signed geodesic area.
pub fn finish(geometry: NgsiLdGeometry, policy: &GeometryPolicy, areas: &Vec<Vec<u64>>) -> (result: Result<
    NgsiLdGeometry,
    GeometryError,
>)
    requires
        areas_fit(geometry@, areas.deep_view()),
    ensures
        outcome_model(result) == finished(geometry@, *policy, areas.deep_view()),
{
    let mut normal = geometry;
    normalise(&mut normal, policy, areas);
    normal.validate_structure()?;
    Ok(normal)
}

/// Reads raw coordinates as the declared geometry type.
///
/// A polygon accepts either a bare ring or a list of rings, because a source that writes a single
/// ring as a flat list of positions is writing the common case of a polygon with no holes.
pub fn build(shape: CoordinateShape, kind: GeometryKind) -> (result: Result<NgsiLdGeometry, GeometryError>)
    ensures
        outcome_model(result) == spec_build(shape, kind),
{
    let unbuildable = GeometryError::Unbuildable { target: kind };
    match kind {
        GeometryKind::Point => match shape.into_position() {
            Some(coordinates) => Ok(NgsiLdGeometry::Point { coordinates }),
            None => Err(unbuildable),
        },
        GeometryKind::MultiPoint => match shape.into_positions() {
            Some(coordinates) => if coordinates.len() > 0 {
                Ok(NgsiLdGeometry::MultiPoint { coordinates })
            } else {
                Err(unbuildable)
            },
            None => Err(unbuildable),
        },
        GeometryKind::LineString => match shape.into_positions() {
            Some(coordinates) => if coordinates.len() > 0 {
                Ok(NgsiLdGeometry::LineString { coordinates })
            } else {
                Err(unbuildable)
            },
            None => Err(unbuildable),
        },
        GeometryKind::MultiLineString => match shape.into_rings() {
            Some(coordinates) => if coordinates.len() > 0 {
                Ok(NgsiLdGeometry::MultiLineString { coordinates })
            } else {
                Err(unbuildable)
            },
            None => Err(unbuildable),
        },
        GeometryKind::Polygon => match build_polygon(shape) {
            Some(geometry) => Ok(geometry),
            None => Err(unbuildable),
        },
        GeometryKind::MultiPolygon => match shape.into_polygons() {
            Some(coordinates) => if coordinates.len() > 0 {
                Ok(NgsiLdGeometry::MultiPolygon { coordinates })
            } else {
                Err(unbuildable)
            },
            None => Err(unbuildable),
        },
    }
}

/// Whether raw coordinates nest more than one level deep: a group holding a group.
fn nests_deeper_than_one(shape: &CoordinateShape) -> (deeper: bool)
    ensures
        deeper == (shape_depth(*shape) > 1),
{
    match shape {
        CoordinateShape::Position(_) => false,
        CoordinateShape::Group(members) => {
            let mut i: usize = 0;
            while i < members.len()
                invariant
                    *shape == CoordinateShape::Group(*members),
                    i <= members@.len(),
                    members_depth(*members, i as int) == 0,
                    forall|j: int| 0 <= j < i ==> #[trigger] members@[j] is Position,
                decreases members@.len() - i,
            {
                if let CoordinateShape::Group(_) = &members[i] {
                    proof {
                        lemma_members_depth_at_least(*members, i as int);
                    }
                    return true;
                }
                assert(shape_depth(members@[i as int]) == 0);
                assert(members_depth(*members, i + 1) == 0);
                i = i + 1;
            }
            false
        },
    }
}

/// A group among the members makes the greatest member depth at least one.
proof fn lemma_members_depth_at_least(members: Vec<CoordinateShape>, i: int)
    requires
        0 <= i < members@.len(),
        members@[i] is Group,
    ensures
        members_depth(members, members@.len() as int) >= 1,
{
    assert(shape_depth(members@[i]) >= 1);
    assert(members_depth(members, i + 1) >= shape_depth(members@[i]));
    lemma_members_depth_monotone(members, i + 1, members@.len() as int);
}

/// The greatest depth among a prefix never exceeds that among a longer prefix.
proof fn lemma_members_depth_monotone(members: Vec<CoordinateShape>, n: int, m: int)
    requires
        0 <= n <= m <= members@.len(),
    ensures
        members_depth(members, n) <= members_depth(members, m),
    decreases m - n,
{
    if n < m {
        lemma_members_depth_monotone(members, n, m - 1);
    }
}

/// Reads raw coordinates as a polygon, accepting a bare exterior ring as well as a list of rings.
fn build_polygon(shape: CoordinateShape) -> (result: Option<NgsiLdGeometry>)
    ensures
        match result {
            Some(geometry) => spec_build(shape, GeometryKind::Polygon) == Ok::<
                GeometryModel,
                GeometryError,
            >(geometry@),
            None => spec_build(shape, GeometryKind::Polygon) is Err,
        },
{
    let ghost initial = shape;
    let coordinates = if nests_deeper_than_one(&shape) {
        shape.into_rings()?
    } else {
        let ring = shape.into_positions()?;
        let rings = vec![ring];
        assert(rings.deep_view() =~= seq![ring.deep_view()]);
        rings
    };
    assert(spec_polygon_rings(initial) == Some(coordinates.deep_view()));
    if coordinates.len() == 0 {
        return None;
    }
    let mut i: usize = 0;
    while i < coordinates.len()
        invariant
            initial == shape,
            spec_polygon_rings(initial) == Some(coordinates.deep_view()),
            coordinates@.len() > 0,
            i <= coordinates@.len(),
            forall|j: int| 0 <= j < i ==> #[trigger] coordinates.deep_view()[j].len() > 0,
        decreases coordinates@.len() - i,
    {
        if coordinates[i].len() == 0 {
            assert(coordinates.deep_view()[i as int].len() == 0);
            return None;
        }
        i = i + 1;
    }
    Some(NgsiLdGeometry::Polygon { coordinates })
}

/// A conversion that succeeds ends in a geometry that passes the structural check, whatever the
/// policy and whatever areas were measured.
pub proof fn lemma_finished_is_valid(model: GeometryModel, policy: GeometryPolicy, areas: Seq<Seq<u64>>)
    ensures
        finished(model, policy, areas) matches Ok(result) ==> spec_validate(result) == Ok::<(), GeometryError>(()),
{
}

} // verus!
