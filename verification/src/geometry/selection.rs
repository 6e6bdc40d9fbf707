use crate::geometry::error::GeometryError;
use crate::geometry::kind::GeometryKind;
use crate::geometry::lattice::outcome_model;
use crate::geometry::shape::{GeometryModel, NgsiLdGeometry, member_model, model_members};
use crate::geometry::strategy::ConversionStrategy;
use crate::ieee::{lemma_total_order_key_is_injective, total_greater, total_gt};
use vstd::prelude::*;

verus! {

/// The first member of a multi-geometry; a single geometry is its own first member.
pub open spec fn spec_first(model: GeometryModel) -> Result<GeometryModel, GeometryError> {
    match model {
        GeometryModel::Point(_) | GeometryModel::LineString(_) | GeometryModel::Polygon(_) => Ok(model),
        _ => if model_members(model) == 0 {
            Err(GeometryError::EmptyGeometry)
        } else {
            Ok(member_model(model, 0))
        },
    }
}

/// `index` names the earliest member measuring greatest under `f64::total_cmp`.
pub open spec fn is_greatest_index(extents: Seq<u64>, index: int) -> bool {
    &&& 0 <= index < extents.len()
    &&& forall|j: int| 0 <= j < extents.len() ==> !total_gt(#[trigger] extents[j], extents[index])
    &&& forall|j: int| 0 <= j < index ==> #[trigger] extents[j] != extents[index]
}

/// The outcome of keeping the member of greatest extent, given each member's extent.
pub open spec fn largest_outcome(model: GeometryModel, extents: Seq<u64>, result: Result<
    GeometryModel,
    GeometryError,
>) -> bool {
    match model {
        GeometryModel::LineString(_) | GeometryModel::Polygon(_) => result == Ok::<
            GeometryModel,
            GeometryError,
        >(model),
        GeometryModel::Point(_) | GeometryModel::MultiPoint(_) => result == Err::<
            GeometryModel,
            GeometryError,
        >(
            GeometryError::StrategyNotApplicable {
                strategy: ConversionStrategy::Largest,
                target: GeometryKind::Point,
            },
        ),
        _ => if model_members(model) == 0 {
            result == Err::<GeometryModel, GeometryError>(GeometryError::EmptyGeometry)
        } else {
            exists|index: int|
                is_greatest_index(extents, index) && result == Ok::<GeometryModel, GeometryError>(
                    #[trigger] member_model(model, index),
                )
        },
    }
}

/// The extents supplied for a geometry line up with its members wherever `largest` ranks them.
pub open spec fn extents_fit(model: GeometryModel, extents: Seq<u64>) -> bool {
    match model {
        GeometryModel::MultiLineString(lines) => extents.len() == lines.len(),
        GeometryModel::MultiPolygon(polygons) => extents.len() == polygons.len(),
        _ => true,
    }
}

/// Keeps the first member of a multi-geometry, in coordinate-array order.
///
/// The member's coordinates are taken verbatim, so an altitude survives. A geometry that already
/// carries one member is its own first member.
pub fn first(geometry: NgsiLdGeometry) -> (result: Result<NgsiLdGeometry, GeometryError>)
    ensures
        outcome_model(result) == spec_first(geometry@),
{
    match geometry {
        NgsiLdGeometry::MultiPoint { mut coordinates } => {
            if coordinates.len() == 0 {
                return Err(GeometryError::EmptyGeometry);
            }
            let ghost before = coordinates.deep_view();
            let member = coordinates.swap_remove(0);
            assert(member.deep_view() == before[0]);
            Ok(NgsiLdGeometry::Point { coordinates: member })
        },
        NgsiLdGeometry::MultiLineString { mut coordinates } => {
            if coordinates.len() == 0 {
                return Err(GeometryError::EmptyGeometry);
            }
            let ghost before = coordinates.deep_view();
            let member = coordinates.swap_remove(0);
            assert(member.deep_view() == before[0]);
            Ok(NgsiLdGeometry::LineString { coordinates: member })
        },
        NgsiLdGeometry::MultiPolygon { mut coordinates } => {
            if coordinates.len() == 0 {
                return Err(GeometryError::EmptyGeometry);
            }
            let ghost before = coordinates.deep_view();
            let member = coordinates.swap_remove(0);
            assert(member.deep_view() == before[0]);
            Ok(NgsiLdGeometry::Polygon { coordinates: member })
        },
        single => Ok(single),
    }
}

/// Keeps the member of a multi-geometry with the greatest extent, its coordinates verbatim.
///
/// `extents` holds, per member, the bits of its geodesic extent: the area a surface encloses, the
/// length a curve runs (RFC 7946 clause 4 fixes WGS84 longitude/latitude, where a planar measure
/// would rank members differently at different latitudes). Ties keep the earlier member.
pub fn largest(geometry: NgsiLdGeometry, extents: &Vec<u64>) -> (result: Result<
    NgsiLdGeometry,
    GeometryError,
>)
    requires
        extents_fit(geometry@, extents@),
    ensures
        largest_outcome(geometry@, extents@, outcome_model(result)),
{
    match geometry {
        NgsiLdGeometry::Point { .. } | NgsiLdGeometry::MultiPoint { .. } => Err(
            GeometryError::StrategyNotApplicable {
                strategy: ConversionStrategy::Largest,
                target: GeometryKind::Point,
            },
        ),
        NgsiLdGeometry::MultiLineString { mut coordinates } => {
            let ghost model = NgsiLdGeometry::MultiLineString { coordinates }@;
            let ghost before = coordinates.deep_view();
            match index_of_greatest(extents) {
                Some(index) => {
                    let member = coordinates.swap_remove(index);
                    assert(member.deep_view() == before[index as int]);
                    let chosen = NgsiLdGeometry::LineString { coordinates: member };
                    assert(chosen@ == member_model(model, index as int));
                    Ok(chosen)
                },
                None => Err(GeometryError::EmptyGeometry),
            }
        },
        NgsiLdGeometry::MultiPolygon { mut coordinates } => {
            let ghost model = NgsiLdGeometry::MultiPolygon { coordinates }@;
            let ghost before = coordinates.deep_view();
            match index_of_greatest(extents) {
                Some(index) => {
                    let member = coordinates.swap_remove(index);
                    assert(member.deep_view() == before[index as int]);
                    let chosen = NgsiLdGeometry::Polygon { coordinates: member };
                    assert(chosen@ == member_model(model, index as int));
                    Ok(chosen)
                },
                None => Err(GeometryError::EmptyGeometry),
            }
        },
        single => Ok(single),
    }
}

/// The index of the member measuring greatest, or `None` when there are no members.
///
/// Ties keep the earlier member, so the choice is stable across runs over the same source.
pub fn index_of_greatest(extents: &Vec<u64>) -> (index: Option<usize>)
    ensures
        match index {
            Some(i) => is_greatest_index(extents@, i as int),
            None => extents@.len() == 0,
        },
{
    if extents.len() == 0 {
        return None;
    }
    let mut best: usize = 0;
    let mut i: usize = 1;
    while i < extents.len()
        invariant
            1 <= i <= extents@.len(),
            best < i,
            forall|j: int| 0 <= j < i ==> !total_gt(#[trigger] extents@[j], extents@[best as int]),
            forall|j: int| 0 <= j < best ==> #[trigger] extents@[j] != extents@[best as int],
        decreases extents@.len() - i,
    {
        if total_greater(extents[i], extents[best]) {
            let ghost previous = best;
            assert forall|j: int| 0 <= j < i + 1 implies !total_gt(
                #[trigger] extents@[j],
                extents@[i as int],
            ) by {
                if j < i {
                    assert(!total_gt(extents@[j], extents@[previous as int]));
                }
            }
            assert forall|j: int| 0 <= j < i implies #[trigger] extents@[j] != extents@[i as int] by {
                assert(!total_gt(extents@[j], extents@[previous as int]));
            }
            best = i;
        }
        i = i + 1;
    }
    Some(best)
}

/// The earliest greatest member is unique: `largest` picks one member whatever the extents.
pub proof fn lemma_greatest_index_is_unique(extents: Seq<u64>, a: int, b: int)
    requires
        is_greatest_index(extents, a),
        is_greatest_index(extents, b),
    ensures
        a == b,
{
    lemma_total_order_key_is_injective(extents[a], extents[b]);
    if a < b {
        assert(extents[a] != extents[b]);
    } else if b < a {
        assert(extents[b] != extents[a]);
    }
}

} // verus!
