use crate::geometry::error::GeometryError;
use crate::geometry::shape::{
    GeometryModel, LineStringType, NgsiLdGeometry, Position, PolygonType,
};
use crate::ieee::{equal, float_eq, greater_than_zero, is_greater_than_zero, is_less_than_zero, less_than_zero, sign_mask};
use vstd::prelude::*;

verus! {

/// Which role a linear ring plays inside a polygon.
///
/// RFC 7946 clause 3.1.6 states the right-hand rule as a producer requirement, and the rule reads
/// differently for the two roles: an exterior ring runs counterclockwise, a hole clockwise.
#[derive(Clone, Copy, Debug, PartialEq, Eq, Structural, Hash)]
pub enum RingRole {
    /// The ring bounding the surface, wound counterclockwise.
    Exterior,
    /// A ring bounding a hole in the surface, wound clockwise.
    Interior,
}

/// Two positions are equal as `f64` arrays: the same length, each component `==`.
pub open spec fn positions_equal(a: Seq<u64>, b: Seq<u64>) -> bool {
    a.len() == b.len() && forall|i: int| 0 <= i < a.len() ==> float_eq(#[trigger] a[i], b[i])
}

/// A ring's last position repeats its first.
pub open spec fn ring_closed(ring: Seq<Seq<u64>>) -> bool {
    ring.len() > 0 && positions_equal(ring[0], ring.last())
}

/// RFC 7946 clause 3.1.6: at least four positions, the last repeating the first.
pub open spec fn spec_require_ring(ring: Seq<Seq<u64>>) -> Result<(), GeometryError> {
    if ring.len() < 4 {
        Err(GeometryError::ShortRing { positions: ring.len() as usize })
    } else if !ring_closed(ring) {
        Err(GeometryError::UnclosedRing)
    } else {
        Ok(())
    }
}

/// A ring with its closing position made explicit: an open, nonempty ring gains a copy of its
/// first position; anything else is left alone.
pub open spec fn closed_ring(ring: Seq<Seq<u64>>) -> Seq<Seq<u64>> {
    if ring.len() == 0 || ring_closed(ring) {
        ring
    } else {
        ring.push(ring[0])
    }
}

/// Every ring of a polygon closed.
pub open spec fn closed_polygon(rings: Seq<Seq<Seq<u64>>>) -> Seq<Seq<Seq<u64>>> {
    Seq::new(rings.len(), |i: int| closed_ring(rings[i]))
}

/// Every ring of a geometry closed; geometries below dimension two carry none.
pub open spec fn closed_rings(model: GeometryModel) -> GeometryModel {
    match model {
        GeometryModel::Polygon(rings) => GeometryModel::Polygon(closed_polygon(rings)),
        GeometryModel::MultiPolygon(polygons) => GeometryModel::MultiPolygon(
            Seq::new(polygons.len(), |i: int| closed_polygon(polygons[i])),
        ),
        _ => model,
    }
}

/// Whether a ring of the given role, enclosing the given signed area, runs the wrong way.
pub open spec fn wound_backwards(role: RingRole, signed_area: u64) -> bool {
    match role {
        RingRole::Exterior => is_less_than_zero(signed_area),
        RingRole::Interior => is_greater_than_zero(signed_area),
    }
}

/// Every position of a ring carries a longitude and a latitude, so the ring has a planar reading
/// and with it a winding; a ring that does not measures zero and is never reversed.
pub open spec fn ring_readable(ring: Seq<Seq<u64>>) -> bool {
    forall|i: int| 0 <= i < ring.len() ==> #[trigger] ring[i].len() >= 2
}

/// A ring rewound to its role's direction.
pub open spec fn rewound_ring(ring: Seq<Seq<u64>>, role: RingRole, signed_area: u64) -> Seq<Seq<u64>> {
    if ring_readable(ring) && wound_backwards(role, signed_area) {
        ring.reverse()
    } else {
        ring
    }
}

/// The role of ring `index` of a polygon: the first is the exterior, every later one a hole.
pub open spec fn ring_role(index: int) -> RingRole {
    if index == 0 {
        RingRole::Exterior
    } else {
        RingRole::Interior
    }
}

/// Every ring of a polygon rewound, given the signed area of each.
pub open spec fn rewound_polygon(rings: Seq<Seq<Seq<u64>>>, areas: Seq<u64>) -> Seq<Seq<Seq<u64>>> {
    Seq::new(rings.len(), |i: int| rewound_ring(rings[i], ring_role(i), areas[i]))
}

/// The signed areas supplied for a geometry line up with its rings: one list per surface, one
/// area per ring.
pub open spec fn areas_fit(model: GeometryModel, areas: Seq<Seq<u64>>) -> bool {
    match model {
        GeometryModel::Polygon(rings) => areas.len() == 1 && areas[0].len() == rings.len(),
        GeometryModel::MultiPolygon(polygons) => areas.len() == polygons.len() && forall|i: int|
            0 <= i < polygons.len() ==> #[trigger] areas[i].len() == polygons[i].len(),
        _ => true,
    }
}

/// Every ring of a geometry rewound to RFC 7946 clause 3.1.6's right-hand rule.
pub open spec fn rewound_rings(model: GeometryModel, areas: Seq<Seq<u64>>) -> GeometryModel {
    match model {
        GeometryModel::Polygon(rings) => GeometryModel::Polygon(rewound_polygon(rings, areas[0])),
        GeometryModel::MultiPolygon(polygons) => GeometryModel::MultiPolygon(
            Seq::new(polygons.len(), |i: int| rewound_polygon(polygons[i], areas[i])),
        ),
        _ => model,
    }
}

/// The positions of a ring or curve, each read as its component sequence.
pub open spec fn positions_of(positions: Seq<Position>) -> Seq<Seq<u64>> {
    Seq::new(positions.len(), |i: int| positions[i].deep_view())
}

/// A copy of a position, component for component.
pub fn copy_position(position: &Position) -> (copy: Position)
    ensures
        copy@ == position@,
        copy.deep_view() == position.deep_view(),
{
    let mut copy: Position = Vec::new();
    let mut i: usize = 0;
    while i < position.len()
        invariant
            i <= position@.len(),
            copy@ == position@.subrange(0, i as int),
        decreases position@.len() - i,
    {
        copy.push(position[i]);
        i = i + 1;
    }
    assert(copy@ =~= position@);
    assert(copy.deep_view() =~= position.deep_view());
    copy
}

/// Whether two positions are equal as `f64` arrays.
pub fn same_position(a: &Position, b: &Position) -> (result: bool)
    ensures
        result == positions_equal(a.deep_view(), b.deep_view()),
{
    let ghost av = a.deep_view();
    let ghost bv = b.deep_view();
    if a.len() != b.len() {
        return false;
    }
    let mut i: usize = 0;
    while i < a.len()
        invariant
            a@.len() == b@.len(),
            av.len() == a@.len(),
            bv.len() == b@.len(),
            av == a.deep_view(),
            bv == b.deep_view(),
            i <= a@.len(),
            forall|j: int| 0 <= j < i ==> float_eq(#[trigger] av[j], bv[j]),
        decreases a@.len() - i,
    {
        assert(av[i as int] == a@[i as int] && bv[i as int] == b@[i as int]);
        if !equal(a[i], b[i]) {
            return false;
        }
        i = i + 1;
    }
    true
}

/// Whether a ring's last position repeats its first, as RFC 7946 clause 3.1.6 requires.
///
/// The clause asks for identical values, so an altitude carried on one end and not the other leaves
/// the ring open.
pub fn is_closed(ring: &[Position]) -> (closed: bool)
    ensures
        closed == ring_closed(positions_of(ring@)),
{
    if ring.len() == 0 {
        return false;
    }
    same_position(&ring[0], &ring[ring.len() - 1])
}

/// Checks that a list of positions is a linear ring: at least four positions, the last repeating
/// the first (RFC 7946 clause 3.1.6). A ring is never closed on the source's behalf.
pub fn require_ring(ring: &[Position]) -> (result: Result<(), GeometryError>)
    ensures
        result == spec_require_ring(positions_of(ring@)),
{
    if ring.len() < 4 {
        return Err(GeometryError::ShortRing { positions: ring.len() });
    }
    if !is_closed(ring) {
        return Err(GeometryError::UnclosedRing);
    }
    Ok(())
}

/// Closes a ring that does not already end where it starts, by repeating its first position.
///
/// A polygon ring is a linear ring by definition (RFC 7946 clause 3.1.6), so the closing segment is
/// implied by the source having written a polygon at all.
pub fn close(ring: &mut LineStringType)
    ensures
        final(ring).deep_view() == closed_ring(old(ring).deep_view()),
{
    if ring.len() == 0 || is_closed(ring.as_slice()) {
        return;
    }
    let first = copy_position(&ring[0]);
    ring.push(first);
    assert(ring.deep_view() =~= closed_ring(old(ring).deep_view()));
}

/// Closes every ring of one polygon.
pub fn close_polygon(rings: &mut PolygonType)
    ensures
        final(rings).deep_view() == closed_polygon(old(rings).deep_view()),
{
    let ghost initial = rings.deep_view();
    let mut i: usize = 0;
    while i < rings.len()
        invariant
            rings@.len() == initial.len(),
            i <= rings@.len(),
            forall|j: int| 0 <= j < i ==> #[trigger] rings@[j].deep_view() == closed_ring(initial[j]),
            forall|j: int| i <= j < rings@.len() ==> #[trigger] rings@[j].deep_view() == initial[j],
        decreases rings@.len() - i,
    {
        close(&mut rings[i]);
        i = i + 1;
    }
    assert(rings.deep_view() =~= closed_polygon(initial));
}

/// Closes every ring the geometry carries; geometries below dimension two carry none.
pub fn close_rings(geometry: &mut NgsiLdGeometry)
    ensures
        final(geometry)@ == closed_rings(old(geometry)@),
{
    match geometry {
        NgsiLdGeometry::Polygon { coordinates } => close_polygon(coordinates),
        NgsiLdGeometry::MultiPolygon { coordinates } => {
            let ghost initial = coordinates.deep_view();
            let mut i: usize = 0;
            while i < coordinates.len()
                invariant
                    coordinates@.len() == initial.len(),
                    i <= coordinates@.len(),
                    forall|j: int| 0 <= j < i ==> #[trigger] coordinates@[j].deep_view()
                        == closed_polygon(initial[j]),
                    forall|j: int| i <= j < coordinates@.len() ==> #[trigger] coordinates@[j].deep_view()
                        == initial[j],
                decreases coordinates@.len() - i,
            {
                close_polygon(&mut coordinates[i]);
                i = i + 1;
            }
            assert(coordinates.deep_view() =~= Seq::new(
                initial.len(),
                |i: int| closed_polygon(initial[i]),
            ));
        },
        _ => {},
    }
}

/// Reverses a ring's positions in place; each position moves whole, altitude included.
fn reverse_ring(ring: &mut LineStringType)
    ensures
        final(ring).deep_view() == old(ring).deep_view().reverse(),
{
    let ghost initial = ring.deep_view();
    let mut reversed: LineStringType = Vec::new();
    while ring.len() > 0
        invariant
            ring@.len() + reversed@.len() == initial.len(),
            forall|j: int| 0 <= j < ring@.len() ==> #[trigger] ring@[j].deep_view() == initial[j],
            forall|j: int| 0 <= j < reversed@.len() ==> #[trigger] reversed@[j].deep_view()
                == initial[initial.len() - 1 - j],
        decreases ring@.len(),
    {
        let position = ring.pop().unwrap();
        reversed.push(position);
    }
    *ring = reversed;
    assert(ring.deep_view() =~= initial.reverse());
}

/// Rewinds one ring to the direction its role requires, reversing it in place.
///
/// `signed_area` is the bits of the ring's signed geodesic area, positive for a counterclockwise
/// ring. A ring holding a position too short to read has no winding to fix and is left alone. Reversing the positions rather than rebuilding the ring is what keeps an altitude attached
/// to the position that carried it.
pub fn rewind(ring: &mut LineStringType, role: RingRole, signed_area: u64)
    ensures
        final(ring).deep_view() == rewound_ring(old(ring).deep_view(), role, signed_area),
{
    let ghost initial = ring.deep_view();
    let mut readable = true;
    let mut i: usize = 0;
    while i < ring.len()
        invariant
            initial == ring.deep_view(),
            i <= ring@.len(),
            readable <==> forall|j: int| 0 <= j < i ==> #[trigger] initial[j].len() >= 2,
        decreases ring@.len() - i,
    {
        assert(initial[i as int].len() == ring@[i as int]@.len());
        if ring[i].len() < 2 {
            readable = false;
        }
        i = i + 1;
    }
    let reversed = match role {
        RingRole::Exterior => less_than_zero(signed_area),
        RingRole::Interior => greater_than_zero(signed_area),
    };
    if readable && reversed {
        reverse_ring(ring);
    }
}

/// Rewinds every ring of one polygon: the exterior counterclockwise, each hole clockwise.
///
/// `areas` holds the bits of each ring's signed area, in ring order.
pub fn rewind_polygon(rings: &mut PolygonType, areas: &Vec<u64>)
    requires
        areas@.len() == old(rings)@.len(),
    ensures
        final(rings).deep_view() == rewound_polygon(old(rings).deep_view(), areas@),
{
    let ghost initial = rings.deep_view();
    let mut i: usize = 0;
    while i < rings.len()
        invariant
            rings@.len() == initial.len(),
            areas@.len() == initial.len(),
            i <= rings@.len(),
            forall|j: int| 0 <= j < i ==> #[trigger] rings@[j].deep_view() == rewound_ring(
                initial[j],
                ring_role(j),
                areas@[j],
            ),
            forall|j: int| i <= j < rings@.len() ==> #[trigger] rings@[j].deep_view() == initial[j],
        decreases rings@.len() - i,
    {
        let role = if i == 0 {
            RingRole::Exterior
        } else {
            RingRole::Interior
        };
        rewind(&mut rings[i], role, areas[i]);
        i = i + 1;
    }
    assert(rings.deep_view() =~= rewound_polygon(initial, areas@));
}

/// Rewinds every ring the geometry carries to RFC 7946 clause 3.1.6's right-hand rule.
///
/// `areas` holds, per surface, the bits of each ring's signed area. Geometries below dimension two
/// carry no ring and are left untouched.
pub fn normalise_winding(geometry: &mut NgsiLdGeometry, areas: &Vec<Vec<u64>>)
    requires
        areas_fit(old(geometry)@, areas.deep_view()),
    ensures
        final(geometry)@ == rewound_rings(old(geometry)@, areas.deep_view()),
{
    match geometry {
        NgsiLdGeometry::Polygon { coordinates } => {
            assert(areas.deep_view()[0] =~= areas@[0]@);
            rewind_polygon(coordinates, &areas[0]);
        },
        NgsiLdGeometry::MultiPolygon { coordinates } => {
            let ghost initial = coordinates.deep_view();
            let mut i: usize = 0;
            while i < coordinates.len()
                invariant
                    coordinates@.len() == initial.len(),
                    areas@.len() == initial.len(),
                    forall|j: int| 0 <= j < initial.len() ==> #[trigger] areas.deep_view()[j].len()
                        == initial[j].len(),
                    i <= coordinates@.len(),
                    forall|j: int| 0 <= j < i ==> #[trigger] coordinates@[j].deep_view()
                        == rewound_polygon(initial[j], areas.deep_view()[j]),
                    forall|j: int| i <= j < coordinates@.len() ==> #[trigger] coordinates@[j].deep_view()
                        == initial[j],
                decreases coordinates@.len() - i,
            {
                assert(areas.deep_view()[i as int] =~= areas@[i as int]@);
                assert(coordinates@[i as int].deep_view().len() == coordinates@[i as int]@.len());
                assert(areas@[i as int]@.len() == coordinates@[i as int]@.len());
                rewind_polygon(&mut coordinates[i], &areas[i]);
                i = i + 1;
            }
            assert(coordinates.deep_view() =~= Seq::new(
                initial.len(),
                |i: int| rewound_polygon(initial[i], areas.deep_view()[i]),
            ));
        },
        _ => {},
    }
}

/// Rewinding a ring of either role is idempotent when the area it is read with flips sign with the
/// ring: rewinding a ring that already runs the right way leaves it alone.
pub proof fn lemma_rewind_keeps_a_well_wound_ring(ring: Seq<Seq<u64>>, role: RingRole, signed_area: u64)
    requires
        !wound_backwards(role, signed_area),
    ensures
        rewound_ring(ring, role, signed_area) == ring,
{
}

/// Closing is idempotent: a closed ring stays as it is, and closing an open ring yields a closed
/// one whenever its first position equals itself (holds no NaN component).
pub proof fn lemma_close_is_idempotent(ring: Seq<Seq<u64>>)
    ensures
        ring_closed(ring) ==> closed_ring(ring) == ring,
        ring.len() > 0 && positions_equal(ring[0], ring[0]) ==> ring_closed(closed_ring(ring)),
{
    if ring.len() > 0 && !ring_closed(ring) {
        let closed = ring.push(ring[0]);
        assert(closed.last() == ring[0]);
        assert(closed[0] == ring[0]);
    }
}

/// The signed area a measure gives a ring flips its sign when the ring is reversed, for every ring
/// with a planar reading: what a planar or geodesic shoelace sum does.
pub open spec fn reversal_flips(area: spec_fn(Seq<Seq<u64>>) -> u64) -> bool {
    forall|ring: Seq<Seq<u64>>|
        ring_readable(ring) ==> {
            &&& (is_less_than_zero(area(ring)) <==> is_greater_than_zero(#[trigger] area(ring.reverse())))
            &&& (is_greater_than_zero(area(ring)) <==> is_less_than_zero(area(ring.reverse())))
        }
}

/// The areas a measure gives the rings of a geometry: one list per surface, one area per ring.
pub open spec fn measured(model: GeometryModel, area: spec_fn(Seq<Seq<u64>>) -> u64) -> Seq<Seq<u64>> {
    match model {
        GeometryModel::Polygon(rings) => seq![Seq::new(rings.len(), |i: int| area(rings[i]))],
        GeometryModel::MultiPolygon(polygons) => Seq::new(
            polygons.len(),
            |i: int| Seq::new(polygons[i].len(), |j: int| area(polygons[i][j])),
        ),
        _ => Seq::empty(),
    }
}

/// Every ring of a polygon runs its role's way under the measure: the exterior encloses no
/// negative area, a hole no positive one.
pub open spec fn polygon_wound(rings: Seq<Seq<Seq<u64>>>, area: spec_fn(Seq<Seq<u64>>) -> u64) -> bool {
    forall|i: int| 0 <= i < rings.len() && ring_readable(#[trigger] rings[i]) ==> !wound_backwards(ring_role(i), area(rings[i]))
}

/// Each ring of the second polygon is the matching ring of the first, or that ring reversed.
pub open spec fn kept_or_reversed(before: Seq<Seq<Seq<u64>>>, after: Seq<Seq<Seq<u64>>>) -> bool {
    before.len() == after.len() && forall|i: int| 0 <= i < before.len() ==> (#[trigger] after[i] == before[i] || after[i] == before[i].reverse())
}

/// Reading a ring backwards keeps every position, so a readable ring stays readable.
proof fn lemma_reverse_readable(ring: Seq<Seq<u64>>)
    ensures
        ring_readable(ring.reverse()) == ring_readable(ring),
{
    if ring_readable(ring) {
        assert forall|i: int| 0 <= i < ring.reverse().len() implies #[trigger] ring.reverse()[i].len() >= 2 by {
            assert(ring.reverse()[i] == ring[ring.len() - 1 - i]);
        }
    }
    if ring_readable(ring.reverse()) {
        assert forall|i: int| 0 <= i < ring.len() implies #[trigger] ring[i].len() >= 2 by {
            assert(ring.reverse()[ring.len() - 1 - i] == ring[i]);
        }
    }
}

/// One ring rewound by its own measured area runs its role's way, and rewinding it again by the
/// area of the result leaves it alone.
proof fn lemma_ring_wound(ring: Seq<Seq<u64>>, role: RingRole, area: spec_fn(Seq<Seq<u64>>) -> u64)
    requires
        reversal_flips(area),
    ensures
        ({
            let wound = rewound_ring(ring, role, area(ring));
            &&& wound == ring || wound == ring.reverse()
            &&& ring_readable(wound) ==> !wound_backwards(role, area(wound))
            &&& rewound_ring(wound, role, area(wound)) == wound
        }),
{
    lemma_reverse_readable(ring);
    if ring_readable(ring) {
        assert(is_less_than_zero(area(ring)) <==> is_greater_than_zero(area(ring.reverse())));
        assert(is_greater_than_zero(area(ring)) <==> is_less_than_zero(area(ring.reverse())));
    }
}

/// A polygon rewound by the measured areas of its rings: each ring kept or reversed, each running
/// its role's way, and a second rewinding changes nothing.
proof fn lemma_polygon_wound(rings: Seq<Seq<Seq<u64>>>, area: spec_fn(Seq<Seq<u64>>) -> u64)
    requires
        reversal_flips(area),
    ensures
        ({
            let wound = rewound_polygon(rings, Seq::new(rings.len(), |i: int| area(rings[i])));
            &&& kept_or_reversed(rings, wound)
            &&& polygon_wound(wound, area)
            &&& rewound_polygon(wound, Seq::new(wound.len(), |i: int| area(wound[i]))) == wound
        }),
{
    let areas = Seq::new(rings.len(), |i: int| area(rings[i]));
    let wound = rewound_polygon(rings, areas);
    assert forall|i: int| 0 <= i < rings.len() implies {
        &&& (#[trigger] wound[i] == rings[i] || wound[i] == rings[i].reverse())
        &&& ring_readable(wound[i]) ==> !wound_backwards(ring_role(i), area(wound[i]))
        &&& rewound_ring(wound[i], ring_role(i), area(wound[i])) == wound[i]
    } by {
        lemma_ring_wound(rings[i], ring_role(i), area);
    }
    let again = rewound_polygon(wound, Seq::new(wound.len(), |i: int| area(wound[i])));
    assert(again =~= wound);
}

/// What [`normalise_winding`] does (its result is [`rewound_rings`] of the areas it is handed)
/// when the areas are the signed areas a measure gives each ring, and the measure flips sign
/// with a reversed ring of readable positions (at least two components each), as the signed
/// shoelace area does: every ring is kept or exactly reversed (its positions, altitudes
/// included, unchanged), every exterior ring then encloses no negative area and every hole no
/// positive one, and a second call, handed the areas measured on the result, changes nothing.
/// A geometry below dimension two is left alone.
pub proof fn lemma_winding_is_normal(model: GeometryModel, area: spec_fn(Seq<Seq<u64>>) -> u64)
    requires
        reversal_flips(area),
    ensures
        areas_fit(model, measured(model, area)),
        ({
            let wound = rewound_rings(model, measured(model, area));
            &&& match (model, wound) {
                (GeometryModel::Polygon(before), GeometryModel::Polygon(after)) => kept_or_reversed(before, after)
                    && polygon_wound(after, area),
                (GeometryModel::MultiPolygon(before), GeometryModel::MultiPolygon(after)) => before.len()
                    == after.len() && forall|i: int|
                    0 <= i < before.len() ==> kept_or_reversed(before[i], #[trigger] after[i]) && polygon_wound(
                        after[i],
                        area,
                    ),
                (GeometryModel::Polygon(_), _) | (GeometryModel::MultiPolygon(_), _) => false,
                _ => wound == model,
            }
            &&& rewound_rings(wound, measured(wound, area)) == wound
        }),
{
    match model {
        GeometryModel::Polygon(rings) => {
            lemma_polygon_wound(rings, area);
        },
        GeometryModel::MultiPolygon(polygons) => {
            let wound = rewound_rings(model, measured(model, area));
            assert forall|i: int| 0 <= i < polygons.len() implies #[trigger] polygons[i].len() == measured(model, area)[i].len() by {}
            assert forall|i: int| 0 <= i < polygons.len() implies {
                let after = #[trigger] rewound_polygon(polygons[i], measured(model, area)[i]);
                &&& kept_or_reversed(polygons[i], after)
                &&& polygon_wound(after, area)
                &&& rewound_polygon(after, Seq::new(after.len(), |j: int| area(after[j]))) == after
            } by {
                assert(measured(model, area)[i] == Seq::new(polygons[i].len(), |j: int| area(polygons[i][j])));
                lemma_polygon_wound(polygons[i], area);
            }
            if let GeometryModel::MultiPolygon(after) = wound {
                assert(rewound_rings(wound, measured(wound, area)) =~= wound) by {
                    if let GeometryModel::MultiPolygon(again) = rewound_rings(wound, measured(wound, area)) {
                        assert forall|i: int| 0 <= i < after.len() implies #[trigger] again[i] == after[i] by {
                            assert(measured(wound, area)[i] == Seq::new(after[i].len(), |j: int| area(after[i][j])));
                        }
                        assert(again =~= after);
                    }
                }
            }
        },
        _ => {},
    }
}

/// The measure reverses a ring's signed area by flipping its sign bit, the exact negation of an
/// IEEE-754 double, for every ring of readable positions: what the signed shoelace area does.
pub open spec fn reversal_negates(area: spec_fn(Seq<Seq<u64>>) -> u64) -> bool {
    forall|ring: Seq<Seq<u64>>| ring_readable(ring) ==> #[trigger] area(ring.reverse()) == area(ring) ^ sign_mask()
}

/// Flipping the sign bit turns a value below zero into one above it and back; a zero or a NaN
/// stays neither.
proof fn lemma_negation_swaps_sign(bits: u64)
    ensures
        is_less_than_zero(bits) <==> is_greater_than_zero(bits ^ sign_mask()),
        is_greater_than_zero(bits) <==> is_less_than_zero(bits ^ sign_mask()),
{
    let flipped = bits ^ sign_mask();
    assert(flipped & 0x7fff_ffff_ffff_ffffu64 == bits & 0x7fff_ffff_ffff_ffffu64) by (bit_vector)
        requires
            flipped == bits ^ 0x8000_0000_0000_0000u64,
    ;
    assert(flipped & 0x7ff0_0000_0000_0000u64 == bits & 0x7ff0_0000_0000_0000u64) by (bit_vector)
        requires
            flipped == bits ^ 0x8000_0000_0000_0000u64,
    ;
    assert(flipped & 0x000f_ffff_ffff_ffffu64 == bits & 0x000f_ffff_ffff_ffffu64) by (bit_vector)
        requires
            flipped == bits ^ 0x8000_0000_0000_0000u64,
    ;
    assert((flipped & 0x8000_0000_0000_0000u64 != 0) == (bits & 0x8000_0000_0000_0000u64 == 0)) by (bit_vector)
        requires
            flipped == bits ^ 0x8000_0000_0000_0000u64,
    ;
}

/// The winding law for the signed area itself: when reversing a ring of readable positions
/// negates its signed area (its sign bit flipped), [`normalise_winding`] handed the areas of each
/// ring keeps or exactly reverses every ring, leaves every exterior ring with an area not below
/// zero and every hole with one not above it (a NaN area being neither), leaves a geometry below
/// dimension two alone, and a second call, handed the areas of its result, changes nothing.
pub proof fn lemma_winding_by_negated_areas(model: GeometryModel, area: spec_fn(Seq<Seq<u64>>) -> u64)
    requires
        reversal_negates(area),
    ensures
        areas_fit(model, measured(model, area)),
        ({
            let wound = rewound_rings(model, measured(model, area));
            &&& match (model, wound) {
                (GeometryModel::Polygon(before), GeometryModel::Polygon(after)) => kept_or_reversed(before, after)
                    && polygon_wound(after, area),
                (GeometryModel::MultiPolygon(before), GeometryModel::MultiPolygon(after)) => before.len()
                    == after.len() && forall|i: int|
                    0 <= i < before.len() ==> kept_or_reversed(before[i], #[trigger] after[i]) && polygon_wound(
                        after[i],
                        area,
                    ),
                (GeometryModel::Polygon(_), _) | (GeometryModel::MultiPolygon(_), _) => false,
                _ => wound == model,
            }
            &&& rewound_rings(wound, measured(wound, area)) == wound
        }),
{
    assert forall|ring: Seq<Seq<u64>>| ring_readable(ring) implies {
        &&& (is_less_than_zero(area(ring)) <==> is_greater_than_zero(#[trigger] area(ring.reverse())))
        &&& (is_greater_than_zero(area(ring)) <==> is_less_than_zero(area(ring.reverse())))
    } by {
        lemma_negation_swaps_sign(area(ring));
    }
    lemma_winding_is_normal(model, area);
}

} // verus!
