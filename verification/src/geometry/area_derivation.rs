use crate::geometry::error::GeometryError;
use crate::geometry::kind::GeometryKind;
use crate::geometry::lattice::outcome_model;
use crate::geometry::ring::{positions_of, require_ring, spec_require_ring};
use crate::geometry::shape::{GeometryModel, NgsiLdGeometry, PolygonType, model_kind};
use crate::lists::take_at;
use vstd::prelude::*;

verus! {

/// The first curve, in order, that is not a linear ring, or `Ok` when every curve is one.
pub open spec fn first_ring_failure(curves: Seq<Seq<Seq<u64>>>) -> Result<(), GeometryError>
    decreases curves.len(),
{
    if curves.len() == 0 {
        Ok(())
    } else {
        match first_ring_failure(curves.drop_last()) {
            Err(error) => Err(error),
            Ok(()) => spec_require_ring(curves.last()),
        }
    }
}

/// A failure among the first `n` curves is the failure of the whole list.
proof fn lemma_failure_persists(curves: Seq<Seq<Seq<u64>>>, n: int)
    requires
        0 <= n <= curves.len(),
        first_ring_failure(curves.take(n)) is Err,
    ensures
        first_ring_failure(curves) == first_ring_failure(curves.take(n)),
    decreases curves.len(),
{
    if curves.len() > n {
        assert(curves.drop_last().take(n) =~= curves.take(n));
        lemma_failure_persists(curves.drop_last(), n);
    } else {
        assert(curves.take(n) =~= curves);
    }
}

/// A closed curve read as a surface whose exterior ring it becomes; a `MultiLineString` becomes
/// one single-ring surface per curve.
pub open spec fn spec_ring(model: GeometryModel) -> Result<GeometryModel, GeometryError> {
    match model {
        GeometryModel::LineString(curve) => match spec_require_ring(curve) {
            Err(error) => Err(error),
            Ok(()) => Ok(GeometryModel::Polygon(seq![curve])),
        },
        GeometryModel::MultiLineString(curves) => if curves.len() == 0 {
            Err(GeometryError::EmptyGeometry)
        } else {
            match first_ring_failure(curves) {
                Err(error) => Err(error),
                Ok(()) => Ok(
                    GeometryModel::MultiPolygon(Seq::new(curves.len(), |i: int| seq![curves[i]])),
                ),
            }
        },
        _ => Err(GeometryError::Uncoercible { origin: model_kind(model), target: GeometryKind::Polygon }),
    }
}

/// Reads a closed curve as a surface, the curve becoming the polygon's exterior ring.
///
/// The curve must already close and hold at least four positions (RFC 7946 clause 3.1.6). An open
/// curve is refused rather than closed: appending the first position would draw a segment the
/// source never drew. A `MultiLineString` becomes one single-ring surface per curve.
pub fn ring(geometry: NgsiLdGeometry) -> (result: Result<NgsiLdGeometry, GeometryError>)
    ensures
        outcome_model(result) == spec_ring(geometry@),
{
    let ghost model = geometry@;
    match geometry {
        NgsiLdGeometry::LineString { coordinates } => {
            assert(positions_of(coordinates@) =~= coordinates.deep_view());
            require_ring(coordinates.as_slice())?;
            let surface = vec![coordinates];
            assert(surface.deep_view() =~= seq![coordinates.deep_view()]);
            Ok(NgsiLdGeometry::Polygon { coordinates: surface })
        },
        NgsiLdGeometry::MultiLineString { mut coordinates } => {
            if coordinates.len() == 0 {
                return Err(GeometryError::EmptyGeometry);
            }
            let ghost initial = coordinates.deep_view();
            assert(model == GeometryModel::MultiLineString(initial));
            let mut i: usize = 0;
            while i < coordinates.len()
                invariant
                    model == geometry@,
                    model == GeometryModel::MultiLineString(initial),
                    initial.len() > 0,
                    initial == coordinates.deep_view(),
                    i <= coordinates@.len(),
                    first_ring_failure(initial.take(i as int)) == Ok::<(), GeometryError>(()),
                decreases coordinates@.len() - i,
            {
                assert(positions_of(coordinates@[i as int]@) =~= initial[i as int]);
                assert(initial.take(i + 1).drop_last() =~= initial.take(i as int));
                match require_ring(coordinates[i].as_slice()) {
                    Ok(()) => {},
                    Err(error) => {
                        proof {
                            assert(initial.take(i + 1).last() == initial[i as int]);
                            assert(first_ring_failure(initial.take(i + 1)) == Err::<(), GeometryError>(error));
                            lemma_failure_persists(initial, (i + 1) as int);
                        }
                        return Err(error);
                    },
                }
                i = i + 1;
            }
            assert(initial.take(i as int) =~= initial);
            let mut surfaces: Vec<PolygonType> = Vec::new();
            let mut k: usize = 0;
            while k < coordinates.len()
                invariant
                    initial.len() == coordinates@.len(),
                    k <= coordinates@.len(),
                    forall|j: int| k <= j < coordinates@.len() ==> #[trigger] coordinates@[j].deep_view()
                        == initial[j],
                    surfaces.deep_view() =~= Seq::new(k as nat, |j: int| seq![initial[j]]),
                decreases coordinates@.len() - k,
            {
                let curve = take_at(&mut coordinates, k);
                assert(curve.deep_view() == initial[k as int]);
                let surface = vec![curve];
                assert(surface.deep_view() =~= seq![initial[k as int]]);
                let ghost before = surfaces.deep_view();
                surfaces.push(surface);
                assert(surfaces.deep_view() =~= before.push(seq![initial[k as int]]));
                k = k + 1;
            }
            Ok(NgsiLdGeometry::MultiPolygon { coordinates: surfaces })
        },
        other => Err(GeometryError::Uncoercible { origin: other.kind(), target: GeometryKind::Polygon }),
    }
}

} // verus!
