use crate::geometry::error::GeometryError;
use crate::geometry::kind::{
    Cardinality, GeometryKind, GeometryTarget, kind_cardinality, kind_dimension,
};
use crate::geometry::shape::{
    GeometryModel, NgsiLdGeometry, member_model, model_kind, model_members, promoted,
};
use crate::geometry::strategy::{ConversionStrategy, strategy_admits};
use vstd::prelude::*;

verus! {

/// When a declared conversion and a declared target agree.
pub open spec fn spec_check(
    target: GeometryTarget,
    strategy: Option<ConversionStrategy>,
) -> Result<(), GeometryError> {
    match (target, strategy) {
        (GeometryTarget::Coerce(kind), Some(strategy)) => if strategy_admits(
            strategy,
            kind_dimension(kind),
        ) {
            Ok(())
        } else {
            Err(GeometryError::StrategyNotApplicable { strategy, target: kind })
        },
        _ => Ok(()),
    }
}

/// A geometry's outcome read as its model.
pub open spec fn outcome_model(
    outcome: Result<NgsiLdGeometry, GeometryError>,
) -> Result<GeometryModel, GeometryError> {
    match outcome {
        Ok(geometry) => Ok(geometry@),
        Err(error) => Err(error),
    }
}

/// Lossless reconciliation of a geometry with a target type: identity, promotion of a single
/// geometry to the multi-geometry of its dimension, and unwrapping a multi-geometry of exactly
/// one member pass; everything else is refused with the reason.
pub open spec fn spec_reconcile(
    model: GeometryModel,
    target: GeometryKind,
) -> Result<GeometryModel, GeometryError> {
    let origin = model_kind(model);
    if origin == target {
        Ok(model)
    } else if kind_dimension(origin) != kind_dimension(target) {
        Err(GeometryError::Uncoercible { origin, target })
    } else if kind_cardinality(target) == Cardinality::Multi {
        Ok(promoted(model))
    } else if model_members(model) == 1 {
        Ok(member_model(model, 0))
    } else if model_members(model) == 0 {
        Err(GeometryError::EmptyGeometry)
    } else {
        Err(GeometryError::AmbiguousMultiGeometry { origin, members: model_members(model) as usize })
    }
}

/// Checks that a declared conversion can produce a declared target type.
///
/// This runs when a mapping is loaded, so a target and a conversion that can never agree stop the
/// run before a single record is read rather than refusing every record in turn.
pub fn check(target: GeometryTarget, strategy: Option<ConversionStrategy>) -> (result: Result<
    (),
    GeometryError,
>)
    ensures
        result == spec_check(target, strategy),
{
    match (target, strategy) {
        (GeometryTarget::Coerce(kind), Some(strategy)) => {
            if strategy.admits(kind.dimension()) {
                Ok(())
            } else {
                Err(GeometryError::StrategyNotApplicable { strategy, target: kind })
            }
        },
        _ => Ok(()),
    }
}

/// Reconciles a geometry with the target type using only the conversions that lose nothing.
pub fn reconcile(geometry: NgsiLdGeometry, target: GeometryKind) -> (result: Result<
    NgsiLdGeometry,
    GeometryError,
>)
    ensures
        outcome_model(result) == spec_reconcile(geometry@, target),
{
    let origin = geometry.kind();
    if origin == target {
        return Ok(geometry);
    }
    if origin.dimension() != target.dimension() {
        return Err(GeometryError::Uncoercible { origin, target });
    }
    match target.cardinality() {
        Cardinality::Multi => Ok(promote(geometry)),
        Cardinality::Single => demote(geometry),
    }
}

/// Wraps a single geometry as the multi-geometry of its own dimension.
fn promote(geometry: NgsiLdGeometry) -> (promoted_geometry: NgsiLdGeometry)
    ensures
        promoted_geometry@ == promoted(geometry@),
{
    match geometry {
        NgsiLdGeometry::Point { coordinates } => {
            let wrapped = vec![coordinates];
            assert(wrapped.deep_view() =~= seq![coordinates.deep_view()]);
            NgsiLdGeometry::MultiPoint { coordinates: wrapped }
        },
        NgsiLdGeometry::LineString { coordinates } => {
            let wrapped = vec![coordinates];
            assert(wrapped.deep_view() =~= seq![coordinates.deep_view()]);
            NgsiLdGeometry::MultiLineString { coordinates: wrapped }
        },
        NgsiLdGeometry::Polygon { coordinates } => {
            let wrapped = vec![coordinates];
            assert(wrapped.deep_view() =~= seq![coordinates.deep_view()]);
            NgsiLdGeometry::MultiPolygon { coordinates: wrapped }
        },
        multi => multi,
    }
}

/// Unwraps a multi-geometry that carries exactly one member.
fn demote(geometry: NgsiLdGeometry) -> (result: Result<NgsiLdGeometry, GeometryError>)
    requires
        kind_cardinality(model_kind(geometry@)) == Cardinality::Multi,
    ensures
        outcome_model(result) == (if model_members(geometry@) == 1 {
            Ok(member_model(geometry@, 0))
        } else if model_members(geometry@) == 0 {
            Err(GeometryError::EmptyGeometry)
        } else {
            Err(
                GeometryError::AmbiguousMultiGeometry {
                    origin: model_kind(geometry@),
                    members: model_members(geometry@) as usize,
                },
            )
        }),
{
    let origin = geometry.kind();
    let members = geometry.members();
    if members == 0 {
        return Err(GeometryError::EmptyGeometry);
    }
    if members > 1 {
        return Err(GeometryError::AmbiguousMultiGeometry { origin, members });
    }
    match geometry {
        NgsiLdGeometry::MultiPoint { mut coordinates } => {
            let ghost before = coordinates.deep_view();
            let member = coordinates.swap_remove(0);
            assert(member.deep_view() == before[0]);
            Ok(NgsiLdGeometry::Point { coordinates: member })
        },
        NgsiLdGeometry::MultiLineString { mut coordinates } => {
            let ghost before = coordinates.deep_view();
            let member = coordinates.swap_remove(0);
            assert(member.deep_view() == before[0]);
            Ok(NgsiLdGeometry::LineString { coordinates: member })
        },
        NgsiLdGeometry::MultiPolygon { mut coordinates } => {
            let ghost before = coordinates.deep_view();
            let member = coordinates.swap_remove(0);
            assert(member.deep_view() == before[0]);
            Ok(NgsiLdGeometry::Polygon { coordinates: member })
        },
        single => Ok(single),
    }
}

/// Reconciling with the geometry's own kind is the identity, and reconciling a single geometry
/// with its plural kind and then back with its singular kind gives the geometry back.
pub proof fn lemma_reconcile_round_trip(model: GeometryModel)
    requires
        kind_cardinality(model_kind(model)) == Cardinality::Single,
    ensures
        spec_reconcile(model, model_kind(model)) == Ok::<GeometryModel, GeometryError>(model),
        spec_reconcile(model, model_kind(promoted(model))) == Ok::<GeometryModel, GeometryError>(
            promoted(model),
        ),
        spec_reconcile(promoted(model), model_kind(model)) == Ok::<GeometryModel, GeometryError>(
            model,
        ),
{
    match model {
        GeometryModel::Point(p) => {
            assert(member_model(promoted(model), 0) == model);
        },
        GeometryModel::LineString(l) => {
            assert(member_model(promoted(model), 0) == model);
        },
        GeometryModel::Polygon(r) => {
            assert(member_model(promoted(model), 0) == model);
        },
        _ => {},
    }
}

/// Whatever reconciliation yields has the requested kind.
pub proof fn lemma_reconcile_reaches_target(model: GeometryModel, target: GeometryKind)
    ensures
        spec_reconcile(model, target) matches Ok(result) ==> model_kind(result) == target,
{
}

/// A conversion that `check` accepts for a target admits the target's dimension; one it refuses
/// is named in the refusal together with the target.
pub proof fn lemma_check_is_admission(kind: GeometryKind, strategy: ConversionStrategy)
    ensures
        spec_check(GeometryTarget::Coerce(kind), Some(strategy)) is Ok <==> strategy_admits(
            strategy,
            kind_dimension(kind),
        ),
        spec_check(GeometryTarget::Preserve, Some(strategy)) is Ok,
        spec_check(GeometryTarget::Coerce(kind), None) is Ok,
{
}

} // verus!
