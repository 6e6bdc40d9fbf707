use cassiopeia::geometry::error::GeometryError;
use cassiopeia::geometry::kind::{Cardinality, Dimension, GeometryKind, GeometryTarget};
use cassiopeia::geometry::lattice::{check, reconcile};
use cassiopeia::geometry::shape::NgsiLdGeometry;
use cassiopeia::geometry::strategy::{Altitude, ConversionStrategy, GeometryPolicy, PolicyError, Winding};
use cassiopeia::record::{JsonObject, JsonValue};

fn pos(x: f64, y: f64) -> Vec<u64> {
    vec![x.to_bits(), y.to_bits()]
}

fn point() -> NgsiLdGeometry {
    NgsiLdGeometry::Point { coordinates: pos(1.0, 2.0) }
}

fn multi_point(count: usize) -> NgsiLdGeometry {
    NgsiLdGeometry::MultiPoint { coordinates: vec![pos(1.0, 2.0); count] }
}

#[test]
fn every_kind_names_its_rfc_7946_token() {
    assert_eq!(GeometryKind::MultiLineString.to_string(), "MultiLineString");
    assert_eq!(GeometryKind::all().len(), 6);
}

#[test]
fn singular_and_plural_pair_every_kind_with_its_counterpart_of_the_same_dimension() {
    for kind in GeometryKind::all() {
        assert_eq!(kind.singular().dimension(), kind.dimension());
        assert_eq!(kind.plural().dimension(), kind.dimension());
        assert_eq!(kind.singular().cardinality(), Cardinality::Single);
        assert_eq!(kind.plural().cardinality(), Cardinality::Multi);
    }
}

#[test]
fn dimension_groups_the_kinds_into_points_lines_and_areas() {
    assert_eq!(GeometryKind::Point.dimension(), Dimension::Point);
    assert_eq!(GeometryKind::MultiLineString.dimension(), Dimension::Line);
    assert_eq!(GeometryKind::Polygon.dimension(), Dimension::Area);
}

#[test]
fn every_kind_is_listed_once() {
    let kinds = GeometryKind::all();
    for i in 0..kinds.len() {
        for j in (i + 1)..kinds.len() {
            assert_ne!(kinds[i], kinds[j]);
        }
    }
    let tokens: Vec<String> = kinds.iter().map(|kind| kind.to_string()).collect();
    assert_eq!(
        tokens,
        vec!["Point", "MultiPoint", "LineString", "MultiLineString", "Polygon", "MultiPolygon"]
    );
}

#[test]
fn members_counts_a_multi_geometry_and_reads_one_for_a_single_one() {
    let single = point();
    let multi = NgsiLdGeometry::MultiPoint { coordinates: vec![pos(1.0, 2.0), pos(3.0, 4.0)] };

    assert_eq!(single.members(), 1);
    assert_eq!(multi.members(), 2);
    assert_eq!(single.kind(), GeometryKind::Point);
    assert_eq!(multi.kind(), GeometryKind::MultiPoint);
}

#[test]
fn strategies_write_their_kebab_case_tokens() {
    assert_eq!(ConversionStrategy::BboxCenter.to_string(), "bbox-center");
    assert_eq!(ConversionStrategy::ConvexHull.to_string(), "convex-hull");
    assert_eq!(ConversionStrategy::PointOnSurface.to_string(), "point-on-surface");
}

#[test]
fn strategies_read_and_write_their_kebab_case_tokens() {
    assert_eq!(ConversionStrategy::from_token("point-on-surface"), Some(ConversionStrategy::PointOnSurface));
    assert_eq!(ConversionStrategy::ConvexHull.to_string(), "convex-hull");
    assert_eq!(ConversionStrategy::BboxCenter.to_string(), "bbox-center");
}

#[test]
fn an_unrecognised_strategy_is_rejected() {
    assert_eq!(ConversionStrategy::from_token("buffer"), None);
}

#[test]
fn every_strategy_reads_back_from_the_token_it_writes() {
    let all = [
        ConversionStrategy::First,
        ConversionStrategy::Largest,
        ConversionStrategy::Centroid,
        ConversionStrategy::PointOnSurface,
        ConversionStrategy::FirstVertex,
        ConversionStrategy::BboxCenter,
        ConversionStrategy::ExteriorRing,
        ConversionStrategy::Boundary,
        ConversionStrategy::Connect,
        ConversionStrategy::Ring,
        ConversionStrategy::ConvexHull,
        ConversionStrategy::Envelope,
        ConversionStrategy::Vertices,
        ConversionStrategy::Flatten,
    ];
    for strategy in all {
        assert_eq!(ConversionStrategy::from_token(&strategy.to_string()), Some(strategy));
    }
}

#[test]
fn the_defaults_normalise_winding_and_keep_altitude() {
    assert_eq!(Winding::default(), Winding::Rfc7946);
    assert_eq!(Altitude::default(), Altitude::Keep);
    assert_eq!(Winding::from_token("rfc7946"), Some(Winding::Rfc7946));
    assert_eq!(Altitude::from_token("drop"), Some(Altitude::Drop));
}

#[test]
fn winding_and_altitude_tokens_read_back() {
    assert_eq!(Winding::Keep.to_string(), "keep");
    assert_eq!(Winding::from_token("keep"), Some(Winding::Keep));
    assert_eq!(Winding::from_token("clockwise"), None);
    assert_eq!(Altitude::Keep.to_string(), "keep");
    assert_eq!(Altitude::from_token("Drop"), None);
}

fn text(s: &str) -> JsonValue {
    JsonValue::Text(s.to_string())
}

fn block(entries: &[(&str, JsonValue)]) -> JsonValue {
    let mut object = JsonObject::new();
    for (name, value) in entries {
        let value = match value {
            JsonValue::Text(t) => JsonValue::Text(t.clone()),
            JsonValue::Null => JsonValue::Null,
            JsonValue::Bool(b) => JsonValue::Bool(*b),
            _ => JsonValue::Null,
        };
        object.insert(name.to_string(), value);
    }
    JsonValue::Object(object)
}

#[test]
fn a_policy_reads_its_three_keys() {
    let policy = GeometryPolicy::from_json(&block(&[
        ("convert", text("largest")),
        ("winding", text("keep")),
        ("altitude", text("drop")),
    ]))
    .unwrap();
    assert_eq!(*policy.convert(), Some(ConversionStrategy::Largest));
    assert_eq!(*policy.winding(), Winding::Keep);
    assert_eq!(*policy.altitude(), Altitude::Drop);
}

#[test]
fn a_mistyped_sub_key_is_rejected_rather_than_ignored() {
    let refused = GeometryPolicy::from_json(&block(&[("converts", text("largest"))]));
    assert_eq!(refused, Err(PolicyError::UnknownKey("converts".to_string())));
}

#[test]
fn an_empty_policy_block_reads_as_the_defaults() {
    assert_eq!(GeometryPolicy::from_json(&block(&[])), Ok(GeometryPolicy::default()));
    let cleared = GeometryPolicy::from_json(&block(&[("convert", JsonValue::Null)])).unwrap();
    assert_eq!(*cleared.convert(), None);
}

#[test]
fn a_policy_block_refuses_a_bad_value_and_a_non_object() {
    assert_eq!(
        GeometryPolicy::from_json(&block(&[("convert", text("buffer"))])),
        Err(PolicyError::InvalidValue("convert".to_string()))
    );
    assert_eq!(
        GeometryPolicy::from_json(&block(&[("winding", JsonValue::Bool(true))])),
        Err(PolicyError::InvalidValue("winding".to_string()))
    );
    assert_eq!(GeometryPolicy::from_json(&text("largest")), Err(PolicyError::NotAnObject));
}

#[test]
fn an_absent_policy_normalises_winding_keeps_altitude_and_declares_no_conversion() {
    let policy = GeometryPolicy::default();
    assert_eq!(*policy.convert(), None);
    assert_eq!(*policy.winding(), Winding::Rfc7946);
    assert_eq!(*policy.altitude(), Altitude::Keep);
    assert_eq!(GeometryPolicy::builder().build(), policy);
}

#[test]
fn a_policy_builder_sets_each_key_and_keeps_the_others() {
    let policy = GeometryPolicy::builder()
        .convert(Some(ConversionStrategy::Largest))
        .altitude(Altitude::Drop)
        .build();
    assert_eq!(*policy.convert(), Some(ConversionStrategy::Largest));
    assert_eq!(*policy.winding(), Winding::Rfc7946);
    assert_eq!(*policy.altitude(), Altitude::Drop);
    let kept = GeometryPolicy::builder().winding(Winding::Keep).build();
    assert_eq!(*kept.winding(), Winding::Keep);
    assert_eq!(*kept.convert(), None);
}

#[test]
fn a_strategy_that_follows_the_source_admits_every_target_dimension() {
    for dimension in [Dimension::Point, Dimension::Line, Dimension::Area] {
        assert!(ConversionStrategy::First.admits(dimension));
        assert!(ConversionStrategy::Flatten.admits(dimension));
    }
}

#[test]
fn largest_admits_every_dimension_that_has_an_extent_to_order_by() {
    assert!(!ConversionStrategy::Largest.admits(Dimension::Point));
    assert!(ConversionStrategy::Largest.admits(Dimension::Line));
    assert!(ConversionStrategy::Largest.admits(Dimension::Area));
}

#[test]
fn every_derivation_admits_only_the_dimension_it_produces() {
    assert!(ConversionStrategy::Centroid.admits(Dimension::Point));
    assert!(!ConversionStrategy::Centroid.admits(Dimension::Area));
    assert!(ConversionStrategy::Boundary.admits(Dimension::Line));
    assert!(!ConversionStrategy::Boundary.admits(Dimension::Point));
    assert!(ConversionStrategy::Envelope.admits(Dimension::Area));
    assert!(!ConversionStrategy::Envelope.admits(Dimension::Line));
}

#[test]
fn largest_toward_a_point_target_is_refused_when_the_mapping_loads() {
    assert_eq!(
        check(GeometryTarget::Coerce(GeometryKind::Point), Some(ConversionStrategy::Largest)),
        Err(GeometryError::StrategyNotApplicable {
            strategy: ConversionStrategy::Largest,
            target: GeometryKind::Point,
        })
    );
}

#[test]
fn a_conversion_matching_its_target_dimension_loads() {
    assert_eq!(check(GeometryTarget::Coerce(GeometryKind::Polygon), Some(ConversionStrategy::Largest)), Ok(()));
    assert_eq!(
        check(GeometryTarget::Coerce(GeometryKind::MultiPoint), Some(ConversionStrategy::Centroid)),
        Ok(())
    );
}

#[test]
fn a_preserved_target_or_an_absent_conversion_always_loads() {
    assert_eq!(check(GeometryTarget::Preserve, Some(ConversionStrategy::Largest)), Ok(()));
    assert_eq!(check(GeometryTarget::Coerce(GeometryKind::Point), None), Ok(()));
}

#[test]
fn identity_and_promotion_pass_without_a_declaration() {
    assert_eq!(reconcile(point(), GeometryKind::Point), Ok(point()));
    assert_eq!(reconcile(point(), GeometryKind::MultiPoint), Ok(multi_point(1)));
}

#[test]
fn a_multi_geometry_of_one_member_unwraps_without_a_declaration() {
    assert_eq!(reconcile(multi_point(1), GeometryKind::Point), Ok(point()));
}

#[test]
fn a_multi_geometry_of_several_members_names_what_it_would_throw_away() {
    assert_eq!(
        reconcile(multi_point(3), GeometryKind::Point),
        Err(GeometryError::AmbiguousMultiGeometry { origin: GeometryKind::MultiPoint, members: 3 })
    );
}

#[test]
fn an_empty_multi_geometry_is_refused_rather_than_fabricated() {
    assert_eq!(reconcile(multi_point(0), GeometryKind::Point), Err(GeometryError::EmptyGeometry));
}

#[test]
fn a_change_of_dimension_is_refused_without_a_declaration() {
    assert_eq!(
        reconcile(point(), GeometryKind::Polygon),
        Err(GeometryError::Uncoercible { origin: GeometryKind::Point, target: GeometryKind::Polygon })
    );
}

#[test]
fn promoting_then_unwrapping_gives_back_the_single_geometry() {
    let line = NgsiLdGeometry::LineString { coordinates: vec![pos(0.0, 0.0), pos(1.0, 1.0)] };
    let promoted = reconcile(line.clone(), GeometryKind::MultiLineString).unwrap();
    assert_eq!(promoted, NgsiLdGeometry::MultiLineString { coordinates: vec![vec![pos(0.0, 0.0), pos(1.0, 1.0)]] });
    assert_eq!(reconcile(promoted, GeometryKind::LineString), Ok(line));
}
