use cassiopeia::geometry::area_derivation::ring;
use cassiopeia::geometry::convert::{admit_source, apply, build, finish, prepare, Measurements};
use cassiopeia::geometry::coordinates::CoordinateShape;
use cassiopeia::geometry::error::GeometryError;
use cassiopeia::geometry::kind::{GeometryKind, GeometryTarget};
use cassiopeia::geometry::line_derivation::{boundary, connect, exterior_ring};
use cassiopeia::geometry::normalisation::normalise;
use cassiopeia::geometry::rfc7946::{fold, fold_collection, GeometryValue};
use cassiopeia::geometry::ring::{close_rings, is_closed, normalise_winding, require_ring};
use cassiopeia::geometry::selection::{first, index_of_greatest, largest};
use cassiopeia::geometry::shape::NgsiLdGeometry;
use cassiopeia::geometry::strategy::{Altitude, ConversionStrategy, GeometryPolicy, Winding};
use cassiopeia::geometry::vertex_derivation::{first_position, first_vertex, vertices};

fn pos(x: f64, y: f64) -> Vec<u64> {
    vec![x.to_bits(), y.to_bits()]
}

fn pos3(x: f64, y: f64, z: f64) -> Vec<u64> {
    vec![x.to_bits(), y.to_bits(), z.to_bits()]
}

/// The planar signed area of a ring, positive when it runs counterclockwise.
fn signed_area(ring: &[Vec<u64>]) -> f64 {
    let mut twice = 0.0;
    for i in 0..ring.len() {
        let (x0, y0) = (f64::from_bits(ring[i][0]), f64::from_bits(ring[i][1]));
        let next = &ring[(i + 1) % ring.len()];
        let (x1, y1) = (f64::from_bits(next[0]), f64::from_bits(next[1]));
        twice += x0 * y1 - x1 * y0;
    }
    twice / 2.0
}

fn polygon_areas(rings: &[Vec<Vec<u64>>]) -> Vec<u64> {
    rings.iter().map(|ring| signed_area(ring).to_bits()).collect()
}

fn areas_of(geometry: &NgsiLdGeometry) -> Vec<Vec<u64>> {
    match geometry {
        NgsiLdGeometry::Polygon { coordinates } => vec![polygon_areas(coordinates)],
        NgsiLdGeometry::MultiPolygon { coordinates } => coordinates.iter().map(|p| polygon_areas(p)).collect(),
        _ => Vec::new(),
    }
}

fn length(curve: &[Vec<u64>]) -> f64 {
    curve
        .windows(2)
        .map(|pair| {
            let dx = f64::from_bits(pair[1][0]) - f64::from_bits(pair[0][0]);
            let dy = f64::from_bits(pair[1][1]) - f64::from_bits(pair[0][1]);
            (dx * dx + dy * dy).sqrt()
        })
        .sum()
}

fn extents_of(geometry: &NgsiLdGeometry) -> Vec<u64> {
    match geometry {
        NgsiLdGeometry::MultiLineString { coordinates } => coordinates.iter().map(|c| length(c).to_bits()).collect(),
        NgsiLdGeometry::MultiPolygon { coordinates } => {
            coordinates.iter().map(|p| signed_area(&p[0]).abs().to_bits()).collect()
        }
        _ => Vec::new(),
    }
}

fn convert(geometry: NgsiLdGeometry, target: GeometryTarget, policy: &GeometryPolicy) -> Result<NgsiLdGeometry, GeometryError> {
    let measurements = match policy.convert() {
        Some(ConversionStrategy::Largest) => Measurements::Extents(extents_of(&geometry)),
        _ => Measurements::Nothing,
    };
    let prepared = prepare(geometry, target, policy, measurements)?;
    let areas = areas_of(&prepared);
    finish(prepared, policy, &areas)
}

fn from_geojson(value: GeometryValue, target: GeometryTarget, policy: &GeometryPolicy) -> Result<NgsiLdGeometry, GeometryError> {
    let admitted = admit_source(value, *policy.convert())?;
    convert(admitted, target, policy)
}

fn from_coordinates(shape: CoordinateShape, kind: GeometryKind, policy: &GeometryPolicy) -> Result<NgsiLdGeometry, GeometryError> {
    let built = build(shape, kind)?;
    convert(built, GeometryTarget::Coerce(kind), policy)
}

fn declaring(strategy: ConversionStrategy) -> GeometryPolicy {
    GeometryPolicy::builder().convert(Some(strategy)).build()
}

fn clockwise_ring() -> Vec<Vec<u64>> {
    vec![pos(0.0, 0.0), pos(0.0, 1.0), pos(1.0, 1.0), pos(1.0, 0.0), pos(0.0, 0.0)]
}

fn square(offset: f64, size: f64) -> Vec<Vec<u64>> {
    vec![
        pos(offset, 0.0),
        pos(offset + size, 0.0),
        pos(offset + size, size),
        pos(offset, size),
        pos(offset, 0.0),
    ]
}

fn triangle() -> Vec<Vec<u64>> {
    vec![pos(0.0, 0.0), pos(1.0, 0.0), pos(1.0, 1.0), pos(0.0, 0.0)]
}

fn wind(geometry: &mut NgsiLdGeometry) {
    let areas = areas_of(geometry);
    normalise_winding(geometry, &areas);
}

#[test]
fn a_clockwise_exterior_ring_is_rewound_counterclockwise() {
    let mut geometry = NgsiLdGeometry::Polygon { coordinates: vec![clockwise_ring()] };
    wind(&mut geometry);
    let mut expected = clockwise_ring();
    expected.reverse();
    assert_eq!(geometry, NgsiLdGeometry::Polygon { coordinates: vec![expected] });
}

#[test]
fn a_hole_is_rewound_clockwise_while_the_exterior_stays_counterclockwise() {
    let mut exterior = clockwise_ring();
    exterior.reverse();
    let hole = vec![pos(0.2, 0.2), pos(0.8, 0.2), pos(0.8, 0.8), pos(0.2, 0.2)];
    let mut geometry = NgsiLdGeometry::Polygon { coordinates: vec![exterior.clone(), hole.clone()] };
    wind(&mut geometry);
    let mut wound_hole = hole;
    wound_hole.reverse();
    assert_eq!(geometry, NgsiLdGeometry::Polygon { coordinates: vec![exterior, wound_hole] });
}

#[test]
fn rewinding_keeps_the_altitude_attached_to_the_position_that_carried_it() {
    let ring = vec![
        pos3(0.0, 0.0, 10.0),
        pos3(0.0, 1.0, 20.0),
        pos3(1.0, 1.0, 30.0),
        pos3(1.0, 0.0, 40.0),
        pos3(0.0, 0.0, 10.0),
    ];
    let mut geometry = NgsiLdGeometry::Polygon { coordinates: vec![ring.clone()] };
    wind(&mut geometry);
    let mut expected = ring;
    expected.reverse();
    assert_eq!(geometry, NgsiLdGeometry::Polygon { coordinates: vec![expected] });
}

#[test]
fn rewinding_a_well_wound_polygon_changes_nothing() {
    let mut exterior = clockwise_ring();
    exterior.reverse();
    let mut geometry = NgsiLdGeometry::MultiPolygon { coordinates: vec![vec![exterior.clone()]] };
    wind(&mut geometry);
    assert_eq!(geometry, NgsiLdGeometry::MultiPolygon { coordinates: vec![vec![exterior]] });
}

#[test]
fn a_ring_shorter_than_four_positions_is_refused() {
    let ring = vec![pos(0.0, 0.0), pos(1.0, 0.0), pos(0.0, 0.0)];
    assert_eq!(require_ring(&ring), Err(GeometryError::ShortRing { positions: 3 }));
}

#[test]
fn an_unclosed_polygon_ring_is_closed_by_repeating_its_first_position() {
    let mut geometry = NgsiLdGeometry::Polygon {
        coordinates: vec![vec![pos(0.0, 0.0), pos(1.0, 0.0), pos(1.0, 1.0), pos(0.0, 1.0)]],
    };
    close_rings(&mut geometry);
    let NgsiLdGeometry::Polygon { coordinates } = &geometry else {
        panic!("still a polygon");
    };
    assert_eq!(coordinates[0].len(), 5);
    assert!(is_closed(&coordinates[0]));
    assert_eq!(coordinates[0][4], pos(0.0, 0.0));
}

#[test]
fn closing_a_closed_ring_again_changes_nothing() {
    let mut geometry = NgsiLdGeometry::Polygon { coordinates: vec![triangle()] };
    close_rings(&mut geometry);
    assert_eq!(geometry, NgsiLdGeometry::Polygon { coordinates: vec![triangle()] });
}

#[test]
fn an_unclosed_ring_is_refused_rather_than_closed() {
    let ring = vec![pos(0.0, 0.0), pos(1.0, 0.0), pos(1.0, 1.0), pos(0.0, 1.0)];
    assert!(!is_closed(&ring));
    assert_eq!(require_ring(&ring), Err(GeometryError::UnclosedRing));
    assert_eq!(require_ring(&triangle()), Ok(()));
}

#[test]
fn a_ring_closes_on_equal_values_even_when_the_zero_signs_differ() {
    let ring = vec![pos(0.0, 0.0), pos(1.0, 0.0), pos(1.0, 1.0), pos(-0.0, 0.0)];
    assert!(is_closed(&ring));
}

#[test]
fn first_takes_the_member_the_coordinate_array_lists_first() {
    let multi = NgsiLdGeometry::MultiPoint { coordinates: vec![pos(1.0, 2.0), pos(3.0, 4.0)] };
    assert_eq!(first(multi), Ok(NgsiLdGeometry::Point { coordinates: pos(1.0, 2.0) }));
}

#[test]
fn first_keeps_an_altitude_verbatim() {
    let multi = NgsiLdGeometry::MultiPoint { coordinates: vec![pos3(1.0, 2.0, 300.0)] };
    assert_eq!(first(multi), Ok(NgsiLdGeometry::Point { coordinates: pos3(1.0, 2.0, 300.0) }));
}

#[test]
fn largest_takes_the_member_enclosing_the_greatest_area() {
    let multi = NgsiLdGeometry::MultiPolygon {
        coordinates: vec![vec![square(0.0, 1.0)], vec![square(0.0, 3.0)], vec![square(0.0, 2.0)]],
    };
    let extents = vec![1.0f64.to_bits(), 9.0f64.to_bits(), 4.0f64.to_bits()];
    assert_eq!(largest(multi, &extents), Ok(NgsiLdGeometry::Polygon { coordinates: vec![square(0.0, 3.0)] }));
}

#[test]
fn largest_takes_the_longest_curve() {
    let multi = NgsiLdGeometry::MultiLineString {
        coordinates: vec![vec![pos(0.0, 0.0), pos(1.0, 0.0)], vec![pos(0.0, 0.0), pos(5.0, 0.0)]],
    };
    let extents = extents_of(&multi);
    assert_eq!(
        largest(multi, &extents),
        Ok(NgsiLdGeometry::LineString { coordinates: vec![pos(0.0, 0.0), pos(5.0, 0.0)] })
    );
}

#[test]
fn largest_keeps_the_earlier_of_two_equal_members() {
    let extents = vec![2.0f64.to_bits(), 5.0f64.to_bits(), 5.0f64.to_bits(), 1.0f64.to_bits()];
    assert_eq!(index_of_greatest(&extents), Some(1));
    assert_eq!(index_of_greatest(&Vec::new()), None);
}

#[test]
fn largest_has_no_ordering_to_apply_to_positions() {
    let multi = NgsiLdGeometry::MultiPoint { coordinates: vec![pos(1.0, 2.0)] };
    assert!(matches!(largest(multi, &Vec::new()), Err(GeometryError::StrategyNotApplicable { .. })));
}

#[test]
fn selecting_from_an_empty_multi_geometry_fabricates_nothing() {
    assert_eq!(first(NgsiLdGeometry::MultiPolygon { coordinates: Vec::new() }), Err(GeometryError::EmptyGeometry));
    assert_eq!(
        largest(NgsiLdGeometry::MultiLineString { coordinates: Vec::new() }, &Vec::new()),
        Err(GeometryError::EmptyGeometry)
    );
}

#[test]
fn a_well_formed_geometry_of_each_kind_passes() {
    for geometry in [
        NgsiLdGeometry::Point { coordinates: pos(1.0, 2.0) },
        NgsiLdGeometry::MultiPoint { coordinates: vec![pos(1.0, 2.0)] },
        NgsiLdGeometry::LineString { coordinates: vec![pos(0.0, 0.0), pos(1.0, 1.0)] },
        NgsiLdGeometry::MultiLineString { coordinates: vec![vec![pos(0.0, 0.0), pos(1.0, 1.0)]] },
        NgsiLdGeometry::Polygon { coordinates: vec![triangle()] },
        NgsiLdGeometry::MultiPolygon { coordinates: vec![vec![triangle()]] },
    ] {
        assert_eq!(geometry.validate_structure(), Ok(()), "rejected {geometry:?}");
    }
}

#[test]
fn a_position_with_one_component_is_rejected() {
    let geometry = NgsiLdGeometry::Point { coordinates: vec![1.0f64.to_bits()] };
    assert_eq!(geometry.validate_structure(), Err(GeometryError::ShortPosition { components: 1 }));
}

#[test]
fn a_line_of_one_position_is_rejected() {
    let geometry = NgsiLdGeometry::LineString { coordinates: vec![pos(1.0, 2.0)] };
    assert_eq!(geometry.validate_structure(), Err(GeometryError::ShortLineString { positions: 1 }));
}

#[test]
fn a_polygon_whose_ring_is_open_is_rejected() {
    let geometry = NgsiLdGeometry::Polygon {
        coordinates: vec![vec![pos(0.0, 0.0), pos(1.0, 0.0), pos(1.0, 1.0), pos(0.0, 1.0)]],
    };
    assert_eq!(geometry.validate_structure(), Err(GeometryError::UnclosedRing));
}

#[test]
fn an_empty_multi_geometry_is_accepted_as_the_null_object_the_rfc_permits() {
    assert_eq!(NgsiLdGeometry::MultiPoint { coordinates: Vec::new() }.validate_structure(), Ok(()));
    assert_eq!(NgsiLdGeometry::Polygon { coordinates: Vec::new() }.validate_structure(), Ok(()));
}

fn exterior() -> Vec<Vec<u64>> {
    vec![pos(0.0, 0.0), pos(3.0, 0.0), pos(3.0, 3.0), pos(0.0, 0.0)]
}

fn hole() -> Vec<Vec<u64>> {
    vec![pos(1.0, 1.0), pos(2.0, 1.0), pos(2.0, 2.0), pos(1.0, 1.0)]
}

#[test]
fn the_exterior_ring_of_a_polygon_with_a_hole_keeps_only_the_outer_curve() {
    let polygon = NgsiLdGeometry::Polygon { coordinates: vec![exterior(), hole()] };
    assert_eq!(exterior_ring(polygon), Ok(NgsiLdGeometry::LineString { coordinates: exterior() }));
}

#[test]
fn the_exterior_rings_of_a_multipolygon_become_one_curve_each() {
    let multi = NgsiLdGeometry::MultiPolygon { coordinates: vec![vec![exterior(), hole()], vec![triangle()]] };
    assert_eq!(
        exterior_ring(multi),
        Ok(NgsiLdGeometry::MultiLineString { coordinates: vec![exterior(), triangle()] })
    );
    assert_eq!(exterior_ring(NgsiLdGeometry::Polygon { coordinates: Vec::new() }), Err(GeometryError::EmptyGeometry));
}

#[test]
fn the_boundary_of_a_polygon_with_a_hole_keeps_every_ring() {
    let polygon = NgsiLdGeometry::Polygon { coordinates: vec![exterior(), hole()] };
    assert_eq!(boundary(polygon), Ok(NgsiLdGeometry::MultiLineString { coordinates: vec![exterior(), hole()] }));
}

#[test]
fn a_curve_has_no_boundary_to_take() {
    let line = NgsiLdGeometry::LineString { coordinates: vec![pos(0.0, 0.0), pos(1.0, 1.0)] };
    assert_eq!(
        boundary(line),
        Err(GeometryError::Uncoercible { origin: GeometryKind::LineString, target: GeometryKind::MultiLineString })
    );
}

#[test]
fn connecting_positions_keeps_their_coordinate_array_order() {
    let multi = NgsiLdGeometry::MultiPoint { coordinates: vec![pos(0.0, 0.0), pos(1.0, 1.0)] };
    assert_eq!(connect(multi), Ok(NgsiLdGeometry::LineString { coordinates: vec![pos(0.0, 0.0), pos(1.0, 1.0)] }));
}

#[test]
fn connecting_a_single_position_draws_no_curve() {
    let multi = NgsiLdGeometry::MultiPoint { coordinates: vec![pos(0.0, 0.0)] };
    assert_eq!(connect(multi), Err(GeometryError::ShortLineString { positions: 1 }));
}

#[test]
fn a_closed_curve_reads_as_a_single_ring_surface() {
    let curve = NgsiLdGeometry::LineString { coordinates: triangle() };
    assert_eq!(ring(curve), Ok(NgsiLdGeometry::Polygon { coordinates: vec![triangle()] }));
}

#[test]
fn an_open_curve_is_refused_rather_than_closed() {
    let curve = NgsiLdGeometry::LineString {
        coordinates: vec![pos(0.0, 0.0), pos(1.0, 0.0), pos(1.0, 1.0), pos(0.0, 1.0)],
    };
    assert_eq!(ring(curve), Err(GeometryError::UnclosedRing));
}

#[test]
fn a_surface_has_no_curve_to_read_as_a_ring() {
    let polygon = NgsiLdGeometry::Polygon { coordinates: vec![triangle()] };
    assert_eq!(
        ring(polygon),
        Err(GeometryError::Uncoercible { origin: GeometryKind::Polygon, target: GeometryKind::Polygon })
    );
}

#[test]
fn closed_curves_read_as_one_single_ring_surface_each() {
    let curves = NgsiLdGeometry::MultiLineString { coordinates: vec![triangle(), exterior()] };
    assert_eq!(ring(curves), Ok(NgsiLdGeometry::MultiPolygon { coordinates: vec![vec![triangle()], vec![exterior()]] }));
    assert_eq!(
        ring(NgsiLdGeometry::MultiLineString { coordinates: Vec::new() }),
        Err(GeometryError::EmptyGeometry)
    );
}

#[test]
fn a_polygon_contributes_every_ring_with_the_closing_position_deduplicated() {
    let hole = vec![pos(0.2, 0.2), pos(0.4, 0.2), pos(0.4, 0.4), pos(0.2, 0.2)];
    let polygon = NgsiLdGeometry::Polygon { coordinates: vec![triangle(), hole] };
    assert_eq!(
        vertices(polygon),
        Ok(NgsiLdGeometry::MultiPoint {
            coordinates: vec![pos(0.0, 0.0), pos(1.0, 0.0), pos(1.0, 1.0), pos(0.2, 0.2), pos(0.4, 0.2), pos(0.4, 0.4)],
        })
    );
}

#[test]
fn an_altitude_survives_the_move_into_a_multipoint() {
    let line = NgsiLdGeometry::LineString { coordinates: vec![pos3(1.0, 2.0, 300.0), pos(3.0, 4.0)] };
    assert_eq!(
        vertices(line),
        Ok(NgsiLdGeometry::MultiPoint { coordinates: vec![pos3(1.0, 2.0, 300.0), pos(3.0, 4.0)] })
    );
}

#[test]
fn a_geometry_listing_no_position_yields_nothing() {
    assert_eq!(vertices(NgsiLdGeometry::MultiPoint { coordinates: Vec::new() }), Err(GeometryError::EmptyGeometry));
}

#[test]
fn the_first_position_is_read_from_the_deepest_first_member() {
    let multi = NgsiLdGeometry::MultiPolygon { coordinates: vec![vec![triangle()]] };
    assert_eq!(first_position(&multi), Some(&pos(0.0, 0.0)));
    assert_eq!(first_position(&NgsiLdGeometry::MultiPoint { coordinates: Vec::new() }), None);
}

#[test]
fn the_first_vertex_is_copied_with_its_altitude() {
    let line = NgsiLdGeometry::LineString { coordinates: vec![pos3(7.0, 8.0, 9.0), pos(1.0, 1.0)] };
    assert_eq!(first_vertex(&line), Ok(NgsiLdGeometry::Point { coordinates: pos3(7.0, 8.0, 9.0) }));
    assert_eq!(
        first_vertex(&NgsiLdGeometry::MultiLineString { coordinates: Vec::new() }),
        Err(GeometryError::EmptyGeometry)
    );
}

#[test]
fn the_default_policy_rewinds_a_clockwise_exterior_ring() {
    let mut geometry = NgsiLdGeometry::Polygon { coordinates: vec![clockwise_ring()] };
    let areas = areas_of(&geometry);
    normalise(&mut geometry, &GeometryPolicy::default(), &areas);
    let mut expected = clockwise_ring();
    expected.reverse();
    assert_eq!(geometry, NgsiLdGeometry::Polygon { coordinates: vec![expected] });
}

#[test]
fn keeping_the_winding_leaves_the_source_ring_alone() {
    let mut geometry = NgsiLdGeometry::Polygon { coordinates: vec![clockwise_ring()] };
    let policy = GeometryPolicy::builder().winding(Winding::Keep).build();
    let areas = areas_of(&geometry);
    normalise(&mut geometry, &policy, &areas);
    assert_eq!(geometry, NgsiLdGeometry::Polygon { coordinates: vec![clockwise_ring()] });
}

#[test]
fn dropping_the_altitude_truncates_every_position() {
    let mut geometry = NgsiLdGeometry::MultiPoint { coordinates: vec![pos3(1.0, 2.0, 300.0), pos(3.0, 4.0)] };
    let policy = GeometryPolicy::builder().altitude(Altitude::Drop).build();
    normalise(&mut geometry, &policy, &Vec::new());
    assert_eq!(geometry, NgsiLdGeometry::MultiPoint { coordinates: vec![pos(1.0, 2.0), pos(3.0, 4.0)] });
}

#[test]
fn the_default_policy_keeps_an_altitude() {
    let mut geometry = NgsiLdGeometry::Point { coordinates: pos3(1.0, 2.0, 300.0) };
    normalise(&mut geometry, &GeometryPolicy::default(), &Vec::new());
    assert_eq!(geometry, NgsiLdGeometry::Point { coordinates: pos3(1.0, 2.0, 300.0) });
}

fn position(x: f64, y: f64) -> CoordinateShape {
    CoordinateShape::Position(pos(x, y))
}

#[test]
fn depth_counts_the_nesting_levels() {
    assert_eq!(position(1.0, 2.0).depth(), 0);
    assert_eq!(CoordinateShape::Group(vec![position(1.0, 2.0)]).depth(), 1);
    assert_eq!(CoordinateShape::Group(vec![CoordinateShape::Group(vec![position(1.0, 2.0)])]).depth(), 2);
    assert_eq!(CoordinateShape::Group(Vec::new()).depth(), 1);
}

#[test]
fn a_flat_group_reads_as_positions_but_not_as_rings() {
    let shape = || CoordinateShape::Group(vec![position(1.0, 2.0), position(3.0, 4.0)]);
    assert_eq!(shape().into_positions().map(|positions| positions.len()), Some(2));
    assert!(shape().into_rings().is_none());
}

#[test]
fn a_bare_position_reads_only_as_a_position() {
    assert!(position(1.0, 2.0).into_position().is_some());
    assert!(position(1.0, 2.0).into_positions().is_none());
}

#[test]
fn a_doubly_nested_group_reads_as_rings() {
    let shape = CoordinateShape::Group(vec![CoordinateShape::Group(vec![position(1.0, 2.0), position(3.0, 4.0)])]);
    assert_eq!(shape.into_rings().map(|rings| rings.len()), Some(1));
}

#[test]
fn a_triply_nested_group_reads_as_polygons() {
    let shape = CoordinateShape::Group(vec![CoordinateShape::Group(vec![CoordinateShape::Group(vec![position(1.0, 2.0)])])]);
    assert_eq!(shape.into_polygons().map(|polygons| polygons.len()), Some(1));
}

fn value_point(x: f64, y: f64) -> GeometryValue {
    GeometryValue::Point { coordinates: pos(x, y) }
}

fn value_line() -> GeometryValue {
    GeometryValue::LineString { coordinates: vec![pos(0.0, 0.0), pos(1.0, 1.0)] }
}

#[test]
fn a_geometry_collection_is_refused_at_the_boundary() {
    let collection = GeometryValue::GeometryCollection { geometries: vec![value_point(1.0, 2.0)] };
    assert_eq!(NgsiLdGeometry::try_from(collection), Err(GeometryError::GeometryCollection));
    assert_eq!(NgsiLdGeometry::try_from(value_point(1.0, 2.0)), Ok(NgsiLdGeometry::Point { coordinates: pos(1.0, 2.0) }));
}

#[test]
fn folding_a_lone_member_yields_that_member_unchanged() {
    assert_eq!(
        fold_collection(vec![value_line()]),
        Ok(NgsiLdGeometry::LineString { coordinates: vec![pos(0.0, 0.0), pos(1.0, 1.0)] })
    );
}

#[test]
fn folding_homogeneous_members_yields_the_multi_geometry_of_their_dimension() {
    assert_eq!(
        fold_collection(vec![value_point(1.0, 2.0), value_point(3.0, 4.0)]),
        Ok(NgsiLdGeometry::MultiPoint { coordinates: vec![pos(1.0, 2.0), pos(3.0, 4.0)] })
    );
}

#[test]
fn folding_a_nested_collection_contributes_its_own_members() {
    let nested = GeometryValue::GeometryCollection { geometries: vec![value_point(3.0, 4.0), value_point(5.0, 6.0)] };
    assert_eq!(
        fold_collection(vec![value_point(1.0, 2.0), nested]),
        Ok(NgsiLdGeometry::MultiPoint { coordinates: vec![pos(1.0, 2.0), pos(3.0, 4.0), pos(5.0, 6.0)] })
    );
}

#[test]
fn folding_members_of_different_dimensions_is_refused() {
    assert_eq!(fold_collection(vec![value_point(1.0, 2.0), value_line()]), Err(GeometryError::MixedCollection));
}

#[test]
fn folding_an_empty_collection_fabricates_nothing() {
    assert_eq!(fold_collection(Vec::new()), Err(GeometryError::EmptyGeometry));
    assert_eq!(fold(Vec::new()), Err(GeometryError::EmptyGeometry));
}

#[test]
fn folding_multi_polygons_concatenates_their_surfaces() {
    let members = vec![
        NgsiLdGeometry::MultiPolygon { coordinates: vec![vec![triangle()]] },
        NgsiLdGeometry::Polygon { coordinates: vec![exterior()] },
    ];
    assert_eq!(fold(members), Ok(NgsiLdGeometry::MultiPolygon { coordinates: vec![vec![triangle()], vec![exterior()]] }));
}

fn multi_polygon() -> NgsiLdGeometry {
    NgsiLdGeometry::MultiPolygon { coordinates: vec![vec![square(0.0, 1.0)], vec![square(10.0, 3.0)]] }
}

#[test]
fn a_point_promotes_to_a_multipoint_without_a_declaration() {
    let point = NgsiLdGeometry::Point { coordinates: pos(1.0, 2.0) };
    assert_eq!(
        convert(point, GeometryTarget::Coerce(GeometryKind::MultiPoint), &GeometryPolicy::default()),
        Ok(NgsiLdGeometry::MultiPoint { coordinates: vec![pos(1.0, 2.0)] })
    );
}

#[test]
fn a_multipolygon_of_several_members_is_refused_toward_a_polygon_without_a_declaration() {
    assert_eq!(
        convert(multi_polygon(), GeometryTarget::Coerce(GeometryKind::Polygon), &GeometryPolicy::default()),
        Err(GeometryError::AmbiguousMultiGeometry { origin: GeometryKind::MultiPolygon, members: 2 })
    );
}

#[test]
fn declaring_largest_demotes_a_multipolygon_to_its_biggest_surface() {
    assert_eq!(
        convert(multi_polygon(), GeometryTarget::Coerce(GeometryKind::Polygon), &declaring(ConversionStrategy::Largest)),
        Ok(NgsiLdGeometry::Polygon { coordinates: vec![square(10.0, 3.0)] })
    );
}

#[test]
fn a_planar_derivation_is_taken_as_measured() {
    let derived = NgsiLdGeometry::Point { coordinates: pos(0.5, 0.5) };
    assert_eq!(
        apply(multi_polygon(), ConversionStrategy::Centroid, Measurements::Derived(Ok(derived.clone()))),
        Ok(derived)
    );
    assert_eq!(
        apply(multi_polygon(), ConversionStrategy::Envelope, Measurements::Derived(Err(GeometryError::EmptyGeometry))),
        Err(GeometryError::EmptyGeometry)
    );
}

#[test]
fn a_source_geometry_collection_is_refused_unless_flatten_is_declared() {
    let collection = || GeometryValue::GeometryCollection { geometries: vec![value_point(1.0, 2.0), value_point(3.0, 4.0)] };
    assert_eq!(
        from_geojson(collection(), GeometryTarget::Preserve, &GeometryPolicy::default()),
        Err(GeometryError::GeometryCollection)
    );
    assert_eq!(
        from_geojson(collection(), GeometryTarget::Preserve, &declaring(ConversionStrategy::Flatten)),
        Ok(NgsiLdGeometry::MultiPoint { coordinates: vec![pos(1.0, 2.0), pos(3.0, 4.0)] })
    );
}

#[test]
fn a_source_polygon_is_closed_and_rewound_on_the_way_in() {
    let source = GeometryValue::Polygon {
        coordinates: vec![vec![pos(0.0, 0.0), pos(0.0, 1.0), pos(1.0, 1.0), pos(1.0, 0.0)]],
    };
    assert_eq!(
        from_geojson(source, GeometryTarget::Preserve, &GeometryPolicy::default()),
        Ok(NgsiLdGeometry::Polygon {
            coordinates: vec![vec![pos(0.0, 0.0), pos(1.0, 0.0), pos(1.0, 1.0), pos(0.0, 1.0), pos(0.0, 0.0)]],
        })
    );
}

#[test]
fn a_bare_coordinate_pair_builds_the_declared_point() {
    let shape = CoordinateShape::Position(pos(14.5, 46.0));
    assert_eq!(
        from_coordinates(shape, GeometryKind::Point, &GeometryPolicy::default()),
        Ok(NgsiLdGeometry::Point { coordinates: pos(14.5, 46.0) })
    );
}

#[test]
fn a_bare_ring_builds_a_polygon_and_is_closed() {
    let shape = CoordinateShape::Group(vec![position(0.0, 0.0), position(1.0, 0.0), position(1.0, 1.0)]);
    assert_eq!(
        from_coordinates(shape, GeometryKind::Polygon, &GeometryPolicy::default()),
        Ok(NgsiLdGeometry::Polygon { coordinates: vec![triangle()] })
    );
}

#[test]
fn a_list_too_short_to_close_into_a_ring_is_refused() {
    let shape = CoordinateShape::Group(vec![position(0.0, 0.0), position(1.0, 0.0)]);
    assert_eq!(
        from_coordinates(shape, GeometryKind::Polygon, &GeometryPolicy::default()),
        Err(GeometryError::ShortRing { positions: 3 })
    );
}

#[test]
fn a_single_position_is_no_curve() {
    let shape = CoordinateShape::Group(vec![position(0.0, 0.0)]);
    assert_eq!(
        from_coordinates(shape, GeometryKind::LineString, &GeometryPolicy::default()),
        Err(GeometryError::ShortLineString { positions: 1 })
    );
}

#[test]
fn coordinates_nested_the_wrong_way_for_the_declared_type_are_refused() {
    let shape = CoordinateShape::Position(pos(0.0, 0.0));
    assert_eq!(
        from_coordinates(shape, GeometryKind::MultiPoint, &GeometryPolicy::default()),
        Err(GeometryError::Unbuildable { target: GeometryKind::MultiPoint })
    );
}

#[test]
fn a_list_of_rings_builds_a_polygon_with_its_holes() {
    let ring_shape = |ring: Vec<Vec<u64>>| CoordinateShape::Group(ring.into_iter().map(CoordinateShape::Position).collect());
    let shape = CoordinateShape::Group(vec![ring_shape(exterior()), ring_shape(hole())]);
    assert_eq!(build(shape, GeometryKind::Polygon), Ok(NgsiLdGeometry::Polygon { coordinates: vec![exterior(), hole()] }));
}

#[test]
fn declaring_a_point_on_surface_derives_a_point_from_a_multipolygon() {
    // The planar derivation itself is floating-point work done by the caller; here it found the
    // middle of the larger square, which lies inside the surface.
    let interior = NgsiLdGeometry::Point { coordinates: pos(11.5, 1.5) };
    let policy = declaring(ConversionStrategy::PointOnSurface);
    let prepared = prepare(
        multi_polygon(),
        GeometryTarget::Coerce(GeometryKind::Point),
        &policy,
        Measurements::Derived(Ok(interior)),
    )
    .expect("a surface has an interior point");
    let derived = finish(prepared, &policy, &Vec::new()).expect("a point is valid");

    assert_eq!(derived.kind(), GeometryKind::Point);
    assert_eq!(derived, NgsiLdGeometry::Point { coordinates: pos(11.5, 1.5) });
}

#[test]
fn the_envelope_of_a_lone_position_is_refused_as_a_degenerate_ring() {
    // The bounding box of a lone position collapses onto it: five equal corners.
    let corner = pos(1.0, 2.0);
    let collapsed = NgsiLdGeometry::Polygon { coordinates: vec![vec![corner.clone(); 5]] };
    let policy = declaring(ConversionStrategy::Envelope);
    let prepared = prepare(
        NgsiLdGeometry::Point { coordinates: pos(1.0, 2.0) },
        GeometryTarget::Coerce(GeometryKind::Polygon),
        &policy,
        Measurements::Derived(Ok(collapsed)),
    )
    .expect("a polygon is what the envelope gives");
    let areas = vec![vec![0.0f64.to_bits()]];
    assert_eq!(finish(prepared, &policy, &areas), Err(GeometryError::DegenerateRing));
}

#[test]
fn a_ring_collapsed_onto_a_segment_is_degenerate_and_a_triangle_is_not() {
    let segment = NgsiLdGeometry::Polygon {
        coordinates: vec![vec![pos(0.0, 0.0), pos(1.0, 1.0), pos(0.0, 0.0), pos(1.0, 1.0), pos(0.0, 0.0)]],
    };
    assert_eq!(segment.validate_structure(), Err(GeometryError::DegenerateRing));
    let signed_zero = NgsiLdGeometry::Polygon {
        coordinates: vec![vec![pos(0.0, 0.0), pos(-0.0, 0.0), pos(1.0, 1.0), pos(0.0, 0.0)]],
    };
    assert_eq!(signed_zero.validate_structure(), Err(GeometryError::DegenerateRing));
    let triangle = NgsiLdGeometry::Polygon { coordinates: vec![triangle()] };
    assert_eq!(triangle.validate_structure(), Ok(()));
}

#[test]
fn the_six_admissible_types_round_trip_through_their_rfc_7946_value() {
    for geometry in [
        NgsiLdGeometry::Point { coordinates: pos3(1.0, 2.0, 3.0) },
        NgsiLdGeometry::MultiPoint { coordinates: vec![pos(1.0, 2.0)] },
        NgsiLdGeometry::LineString { coordinates: vec![pos(0.0, 0.0), pos(1.0, 1.0)] },
        NgsiLdGeometry::MultiLineString { coordinates: vec![vec![pos(0.0, 0.0), pos(1.0, 1.0)]] },
        NgsiLdGeometry::Polygon { coordinates: vec![triangle()] },
        NgsiLdGeometry::MultiPolygon { coordinates: vec![vec![triangle()]] },
    ] {
        let borrowed = GeometryValue::from_ref(&geometry);
        let value = GeometryValue::from(geometry.clone());
        assert_eq!(borrowed, value);
        assert_eq!(NgsiLdGeometry::try_from(value), Ok(geometry));
    }
}

#[test]
fn winding_twice_by_the_measured_areas_changes_nothing_the_first_pass_did_not() {
    let hole = vec![pos(0.2, 0.2), pos(0.4, 0.2), pos(0.4, 0.4), pos(0.2, 0.2)];
    let mut geometry = NgsiLdGeometry::MultiPolygon {
        coordinates: vec![vec![clockwise_ring(), hole.clone()], vec![square(3.0, 1.0)]],
    };
    wind(&mut geometry);
    let once = geometry.clone();
    wind(&mut geometry);
    assert_eq!(geometry, once);
    if let NgsiLdGeometry::MultiPolygon { coordinates } = &once {
        assert!(signed_area(&coordinates[0][0]) >= 0.0);
        assert!(signed_area(&coordinates[0][1]) <= 0.0);
        assert!(signed_area(&coordinates[1][0]) >= 0.0);
    }
}
