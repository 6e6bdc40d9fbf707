use crate::geometry::error::GeometryError;
use crate::geometry::kind::GeometryKind;
use crate::geometry::lattice::outcome_model;
use crate::geometry::shape::{GeometryModel, LineStringType, NgsiLdGeometry, model_kind};
use crate::lists::{join, joined, take_at};
use vstd::prelude::*;

verus! {

/// The exterior ring of every surface that has one, in order.
pub open spec fn exteriors(polygons: Seq<Seq<Seq<Seq<u64>>>>) -> Seq<Seq<Seq<u64>>>
    decreases polygons.len(),
{
    if polygons.len() == 0 {
        Seq::empty()
    } else if polygons.last().len() > 0 {
        exteriors(polygons.drop_last()).push(polygons.last()[0])
    } else {
        exteriors(polygons.drop_last())
    }
}

/// A surface's exterior ring as a closed curve, one curve per surface of a `MultiPolygon`.
pub open spec fn spec_exterior_ring(model: GeometryModel) -> Result<GeometryModel, GeometryError> {
    match model {
        GeometryModel::Polygon(rings) => if rings.len() == 0 {
            Err(GeometryError::EmptyGeometry)
        } else {
            Ok(GeometryModel::LineString(rings[0]))
        },
        GeometryModel::MultiPolygon(polygons) => if exteriors(polygons).len() == 0 {
            Err(GeometryError::EmptyGeometry)
        } else {
            Ok(GeometryModel::MultiLineString(exteriors(polygons)))
        },
        _ => Err(GeometryError::Uncoercible { origin: model_kind(model), target: GeometryKind::LineString }),
    }
}

/// A surface's whole boundary, one curve per ring, exterior first.
pub open spec fn spec_boundary(model: GeometryModel) -> Result<GeometryModel, GeometryError> {
    match model {
        GeometryModel::Polygon(rings) => if rings.len() == 0 {
            Err(GeometryError::EmptyGeometry)
        } else {
            Ok(GeometryModel::MultiLineString(rings))
        },
        GeometryModel::MultiPolygon(polygons) => if joined(polygons).len() == 0 {
            Err(GeometryError::EmptyGeometry)
        } else {
            Ok(GeometryModel::MultiLineString(joined(polygons)))
        },
        _ => Err(
            GeometryError::Uncoercible {
                origin: model_kind(model),
                target: GeometryKind::MultiLineString,
            },
        ),
    }
}

/// A `MultiPoint`'s positions read as one curve, in coordinate-array order.
pub open spec fn spec_connect(model: GeometryModel) -> Result<GeometryModel, GeometryError> {
    match model {
        GeometryModel::MultiPoint(points) => if points.len() < 2 {
            Err(GeometryError::ShortLineString { positions: points.len() as usize })
        } else {
            Ok(GeometryModel::LineString(points))
        },
        _ => Err(GeometryError::Uncoercible { origin: model_kind(model), target: GeometryKind::LineString }),
    }
}

/// Takes a surface's exterior ring as a closed curve, discarding its holes.
///
/// The ring's positions are moved verbatim, so an altitude survives; what is lost is the holes,
/// and with them the surface interpretation. A `MultiPolygon` contributes one curve per surface.
pub fn exterior_ring(geometry: NgsiLdGeometry) -> (result: Result<NgsiLdGeometry, GeometryError>)
    ensures
        outcome_model(result) == spec_exterior_ring(geometry@),
{
    match geometry {
        NgsiLdGeometry::Polygon { mut coordinates } => {
            if coordinates.len() == 0 {
                return Err(GeometryError::EmptyGeometry);
            }
            let ghost before = coordinates.deep_view();
            let exterior = coordinates.swap_remove(0);
            assert(exterior.deep_view() == before[0]);
            Ok(NgsiLdGeometry::LineString { coordinates: exterior })
        },
        NgsiLdGeometry::MultiPolygon { mut coordinates } => {
            let ghost initial = coordinates.deep_view();
            let mut found: Vec<LineStringType> = Vec::new();
            let mut i: usize = 0;
            while i < coordinates.len()
                invariant
                    initial.len() == coordinates@.len(),
                    i <= coordinates@.len(),
                    forall|j: int| i <= j < coordinates@.len() ==> #[trigger] coordinates@[j].deep_view()
                        == initial[j],
                    found.deep_view() == exteriors(initial.take(i as int)),
                decreases coordinates@.len() - i,
            {
                let mut rings = take_at(&mut coordinates, i);
                let ghost taken = rings.deep_view();
                assert(taken == initial[i as int]);
                assert(initial.take(i + 1).drop_last() =~= initial.take(i as int));
                if rings.len() > 0 {
                    let exterior = rings.swap_remove(0);
                    assert(exterior.deep_view() == taken[0]);
                    found.push(exterior);
                    assert(found.deep_view() =~= exteriors(initial.take(i as int)).push(taken[0]));
                }
                i = i + 1;
            }
            assert(initial.take(i as int) =~= initial);
            if found.len() == 0 {
                return Err(GeometryError::EmptyGeometry);
            }
            Ok(NgsiLdGeometry::MultiLineString { coordinates: found })
        },
        other => Err(GeometryError::Uncoercible { origin: other.kind(), target: GeometryKind::LineString }),
    }
}

/// Takes a surface's whole boundary as one curve per ring, exterior first.
///
/// Every coordinate survives (this is a regrouping, not a derivation); only the reading of those
/// rings as a bounded surface is dropped.
pub fn boundary(geometry: NgsiLdGeometry) -> (result: Result<NgsiLdGeometry, GeometryError>)
    ensures
        outcome_model(result) == spec_boundary(geometry@),
{
    let rings: Vec<LineStringType> = match geometry {
        NgsiLdGeometry::Polygon { coordinates } => coordinates,
        NgsiLdGeometry::MultiPolygon { coordinates } => join(coordinates),
        other => {
            return Err(
                GeometryError::Uncoercible { origin: other.kind(), target: GeometryKind::MultiLineString },
            );
        },
    };
    if rings.len() == 0 {
        return Err(GeometryError::EmptyGeometry);
    }
    Ok(NgsiLdGeometry::MultiLineString { coordinates: rings })
}

/// Joins a `MultiPoint`'s positions into one curve, in coordinate-array order.
///
/// The order is the source's, not a route: the conversion draws the polyline the coordinate array
/// already implies and invents no other ordering.
pub fn connect(geometry: NgsiLdGeometry) -> (result: Result<NgsiLdGeometry, GeometryError>)
    ensures
        outcome_model(result) == spec_connect(geometry@),
{
    match geometry {
        NgsiLdGeometry::MultiPoint { coordinates } => {
            if coordinates.len() < 2 {
                return Err(GeometryError::ShortLineString { positions: coordinates.len() });
            }
            Ok(NgsiLdGeometry::LineString { coordinates })
        },
        other => Err(GeometryError::Uncoercible { origin: other.kind(), target: GeometryKind::LineString }),
    }
}

/// The boundary keeps every coordinate: the boundary of a polygon lists exactly its rings.
pub proof fn lemma_boundary_keeps_every_ring(rings: Seq<Seq<Seq<u64>>>)
    requires
        rings.len() > 0,
    ensures
        spec_boundary(GeometryModel::Polygon(rings)) == Ok::<GeometryModel, GeometryError>(
            GeometryModel::MultiLineString(rings),
        ),
        spec_exterior_ring(GeometryModel::Polygon(rings)) == Ok::<GeometryModel, GeometryError>(
            GeometryModel::LineString(rings[0]),
        ),
{
}

} // verus!
