use crate::geometry::ring::{
    areas_fit, close_rings, closed_polygon, closed_ring, closed_rings, normalise_winding, ring_role, rewound_polygon,
    rewound_ring, rewound_rings,
};
use crate::geometry::shape::{GeometryModel, NgsiLdGeometry, Position, model_kind, model_members};
use crate::geometry::strategy::{Altitude, GeometryPolicy, Winding};
use vstd::prelude::*;

verus! {

/// A position cut down to a longitude and a latitude; a position too short to truncate is left
/// alone so the structural check reports it.
pub open spec fn truncated(position: Seq<u64>) -> Seq<u64> {
    if position.len() > 2 {
        position.take(2)
    } else {
        position
    }
}

/// Every position of a list truncated.
pub open spec fn truncated_all(positions: Seq<Seq<u64>>) -> Seq<Seq<u64>> {
    Seq::new(positions.len(), |i: int| truncated(positions[i]))
}

/// Every position of a list of lists truncated.
pub open spec fn truncated_nested(lists: Seq<Seq<Seq<u64>>>) -> Seq<Seq<Seq<u64>>> {
    Seq::new(lists.len(), |i: int| truncated_all(lists[i]))
}

/// Every position of a geometry truncated to a longitude and a latitude.
pub open spec fn without_altitude(model: GeometryModel) -> GeometryModel {
    match model {
        GeometryModel::Point(p) => GeometryModel::Point(truncated(p)),
        GeometryModel::MultiPoint(ps) => GeometryModel::MultiPoint(truncated_all(ps)),
        GeometryModel::LineString(ps) => GeometryModel::LineString(truncated_all(ps)),
        GeometryModel::MultiLineString(ls) => GeometryModel::MultiLineString(truncated_nested(ls)),
        GeometryModel::Polygon(rs) => GeometryModel::Polygon(truncated_nested(rs)),
        GeometryModel::MultiPolygon(pss) => GeometryModel::MultiPolygon(
            Seq::new(pss.len(), |i: int| truncated_nested(pss[i])),
        ),
    }
}

/// The producer form under a policy: altitude dropped when asked, every ring closed, every ring
/// rewound to the right-hand rule unless the source's winding is kept.
pub open spec fn normalised(model: GeometryModel, policy: GeometryPolicy, areas: Seq<Seq<u64>>) -> GeometryModel {
    let flat = match policy.spec_altitude() {
        Altitude::Keep => model,
        Altitude::Drop => without_altitude(model),
    };
    let closed = closed_rings(flat);
    match policy.spec_winding() {
        Winding::Rfc7946 => rewound_rings(closed, areas),
        Winding::Keep => closed,
    }
}

/// Brings a geometry into the producer form RFC 7946 asks for, under the mapping's policy.
///
/// Three passes, in order: an altitude is discarded when the mapping asked for that, every polygon
/// ring is closed (clause 3.1.6 defines a polygon over linear rings, so a source that left one open
/// wrote a malformed polygon rather than a different shape), and every ring is rewound to the
/// right-hand rule unless the mapping asked to keep the source's winding.
///
/// `areas` holds, per surface, the bits of each ring's signed geodesic area. Neither dropping an
/// altitude nor closing a ring changes a ring's area, so the areas may be measured on the geometry
/// as it arrives here.
pub fn normalise(geometry: &mut NgsiLdGeometry, policy: &GeometryPolicy, areas: &Vec<Vec<u64>>)
    requires
        areas_fit(old(geometry)@, areas.deep_view()),
    ensures
        final(geometry)@ == normalised(old(geometry)@, *policy, areas.deep_view()),
{
    match policy.altitude() {
        Altitude::Keep => {},
        Altitude::Drop => drop_altitude(geometry),
    }
    close_rings(geometry);
    proof {
        lemma_ring_counts_survive(old(geometry)@, areas.deep_view());
    }
    match policy.winding() {
        Winding::Rfc7946 => normalise_winding(geometry, areas),
        Winding::Keep => {},
    }
}

/// Neither truncation nor closing changes how many rings each surface has.
proof fn lemma_ring_counts_survive(model: GeometryModel, areas: Seq<Seq<u64>>)
    ensures
        areas_fit(model, areas) ==> areas_fit(without_altitude(model), areas),
        areas_fit(model, areas) ==> areas_fit(closed_rings(model), areas),
        areas_fit(model, areas) ==> areas_fit(closed_rings(without_altitude(model)), areas),
{
}

/// Truncates one position, leaving a position too short to truncate alone.
fn truncate(position: &mut Position)
    ensures
        final(position).deep_view() == truncated(old(position).deep_view()),
{
    if position.len() > 2 {
        position.truncate(2);
        assert(position.deep_view() =~= old(position).deep_view().take(2));
    }
}

/// Truncates every position of a list.
fn truncate_all(positions: &mut Vec<Position>)
    ensures
        final(positions).deep_view() == truncated_all(old(positions).deep_view()),
{
    let ghost initial = positions.deep_view();
    let mut i: usize = 0;
    while i < positions.len()
        invariant
            positions@.len() == initial.len(),
            i <= positions@.len(),
            forall|j: int| 0 <= j < i ==> #[trigger] positions@[j].deep_view() == truncated(initial[j]),
            forall|j: int| i <= j < positions@.len() ==> #[trigger] positions@[j].deep_view() == initial[j],
        decreases positions@.len() - i,
    {
        truncate(&mut positions[i]);
        i = i + 1;
    }
    assert(positions.deep_view() =~= truncated_all(initial));
}

/// Truncates every position of a list of lists.
fn truncate_nested(lists: &mut Vec<Vec<Position>>)
    ensures
        final(lists).deep_view() == truncated_nested(old(lists).deep_view()),
{
    let ghost initial = lists.deep_view();
    let mut i: usize = 0;
    while i < lists.len()
        invariant
            lists@.len() == initial.len(),
            i <= lists@.len(),
            forall|j: int| 0 <= j < i ==> #[trigger] lists@[j].deep_view() == truncated_all(initial[j]),
            forall|j: int| i <= j < lists@.len() ==> #[trigger] lists@[j].deep_view() == initial[j],
        decreases lists@.len() - i,
    {
        truncate_all(&mut lists[i]);
        i = i + 1;
    }
    assert(lists.deep_view() =~= truncated_nested(initial));
}

/// Truncates every position to a longitude and a latitude.
fn drop_altitude(geometry: &mut NgsiLdGeometry)
    ensures
        final(geometry)@ == without_altitude(old(geometry)@),
{
    match geometry {
        NgsiLdGeometry::Point { coordinates } => truncate(coordinates),
        NgsiLdGeometry::MultiPoint { coordinates } => truncate_all(coordinates),
        NgsiLdGeometry::LineString { coordinates } => truncate_all(coordinates),
        NgsiLdGeometry::MultiLineString { coordinates } => truncate_nested(coordinates),
        NgsiLdGeometry::Polygon { coordinates } => truncate_nested(coordinates),
        NgsiLdGeometry::MultiPolygon { coordinates } => {
            let ghost initial = coordinates.deep_view();
            let mut i: usize = 0;
            while i < coordinates.len()
                invariant
                    coordinates@.len() == initial.len(),
                    i <= coordinates@.len(),
                    forall|j: int| 0 <= j < i ==> #[trigger] coordinates@[j].deep_view()
                        == truncated_nested(initial[j]),
                    forall|j: int| i <= j < coordinates@.len() ==> #[trigger] coordinates@[j].deep_view()
                        == initial[j],
                decreases coordinates@.len() - i,
            {
                truncate_nested(&mut coordinates[i]);
                i = i + 1;
            }
            assert(coordinates.deep_view() =~= Seq::new(
                initial.len(),
                |i: int| truncated_nested(initial[i]),
            ));
        },
    }
}

/// Normalising twice changes nothing the first pass did not: dropping an altitude is idempotent.
pub proof fn lemma_truncation_is_idempotent(position: Seq<u64>)
    ensures
        truncated(truncated(position)) == truncated(position),
        truncated(position).len() <= 2 || truncated(position) == position,
{
}

/// Normalisation never changes a geometry's type, nor how many members it has: it only drops
/// altitudes, closes rings and reverses them.
pub proof fn lemma_normalisation_keeps_the_kind(model: GeometryModel, policy: GeometryPolicy, areas: Seq<Seq<u64>>)
    ensures
        model_kind(normalised(model, policy, areas)) == model_kind(model),
        model_members(normalised(model, policy, areas)) == model_members(model),
{
}

/// Every position of a ring holds at most a longitude and a latitude.
pub open spec fn flat_ring(ring: Seq<Seq<u64>>) -> bool {
    forall|j: int| 0 <= j < ring.len() ==> (#[trigger] ring[j]).len() <= 2
}

/// Every position of every ring of a polygon holds at most two components.
pub open spec fn flat_rings(rings: Seq<Seq<Seq<u64>>>) -> bool {
    forall|i: int| 0 <= i < rings.len() ==> flat_ring(#[trigger] rings[i])
}

/// No position of the geometry, whatever its kind, carries more than a longitude and a latitude.
pub open spec fn positions_flat(model: GeometryModel) -> bool {
    match model {
        GeometryModel::Point(p) => p.len() <= 2,
        GeometryModel::MultiPoint(ps) => flat_ring(ps),
        GeometryModel::LineString(ps) => flat_ring(ps),
        GeometryModel::MultiLineString(ls) => flat_rings(ls),
        GeometryModel::Polygon(rs) => flat_rings(rs),
        GeometryModel::MultiPolygon(pss) => forall|i: int| 0 <= i < pss.len() ==> flat_rings(#[trigger] pss[i]),
    }
}

/// Each position of `after` is the first two components of the position at the same place in
/// `before` (the whole position when it has fewer).
pub open spec fn leading_pair_of(before: Seq<u64>, after: Seq<u64>) -> bool {
    &&& after.len() == if before.len() < 2 { before.len() } else { 2 }
    &&& forall|k: int| 0 <= k < after.len() ==> after[k] == before[k]
}

/// Every position of the second geometry is the leading pair of the position at the same place
/// in the first, and the two have the same kind and shape.
pub open spec fn positions_cut_from(before: GeometryModel, after: GeometryModel) -> bool {
    match (before, after) {
        (GeometryModel::Point(p), GeometryModel::Point(q)) => leading_pair_of(p, q),
        (GeometryModel::MultiPoint(ps), GeometryModel::MultiPoint(qs)) => ps.len() == qs.len() && forall|j: int|
            0 <= j < ps.len() ==> leading_pair_of(ps[j], #[trigger] qs[j]),
        (GeometryModel::LineString(ps), GeometryModel::LineString(qs)) => ps.len() == qs.len() && forall|j: int|
            0 <= j < ps.len() ==> leading_pair_of(ps[j], #[trigger] qs[j]),
        (GeometryModel::MultiLineString(ls), GeometryModel::MultiLineString(ms)) => ls.len() == ms.len() && forall|
            i: int,
            j: int,
        |
            0 <= i < ls.len() ==> ls[i].len() == ms[i].len() && (0 <= j < ls[i].len() ==> leading_pair_of(
                ls[i][j],
                #[trigger] ms[i][j],
            )),
        (GeometryModel::Polygon(ls), GeometryModel::Polygon(ms)) => ls.len() == ms.len() && forall|i: int, j: int|
            0 <= i < ls.len() ==> ls[i].len() == ms[i].len() && (0 <= j < ls[i].len() ==> leading_pair_of(
                ls[i][j],
                #[trigger] ms[i][j],
            )),
        (GeometryModel::MultiPolygon(ps), GeometryModel::MultiPolygon(qs)) => ps.len() == qs.len() && forall|
            i: int,
            r: int,
            j: int,
        |
            0 <= i < ps.len() ==> ps[i].len() == qs[i].len() && (0 <= r < ps[i].len() ==> ps[i][r].len()
                == qs[i][r].len() && (0 <= j < ps[i][r].len() ==> leading_pair_of(
                ps[i][r][j],
                #[trigger] qs[i][r][j],
            ))),
        _ => false,
    }
}

/// Closing a ring adds only a copy of its first position, so a flat ring stays flat.
proof fn lemma_closing_keeps_flat(ring: Seq<Seq<u64>>)
    requires
        flat_ring(ring),
    ensures
        flat_ring(closed_ring(ring)),
{
    if !(ring.len() == 0 || crate::geometry::ring::ring_closed(ring)) {
        let closed = ring.push(ring[0]);
        assert forall|j: int| 0 <= j < closed.len() implies (#[trigger] closed[j]).len() <= 2 by {
            if j < ring.len() {
                assert(closed[j] == ring[j]);
            } else {
                assert(closed[j] == ring[0]);
            }
        }
    }
}

/// Rewinding a ring keeps or reverses it, so a flat ring stays flat.
proof fn lemma_rewinding_keeps_flat(ring: Seq<Seq<u64>>, role: crate::geometry::ring::RingRole, area: u64)
    requires
        flat_ring(ring),
    ensures
        flat_ring(rewound_ring(ring, role, area)),
{
    let wound = rewound_ring(ring, role, area);
    if wound != ring {
        assert forall|j: int| 0 <= j < wound.len() implies (#[trigger] wound[j]).len() <= 2 by {
            assert(wound[j] == ring[ring.len() - 1 - j]);
        }
    }
}

/// A polygon whose rings are flat stays flat through closing and rewinding.
proof fn lemma_polygon_stays_flat(rings: Seq<Seq<Seq<u64>>>, areas: Seq<u64>)
    requires
        flat_rings(rings),
    ensures
        flat_rings(closed_polygon(rings)),
        flat_rings(closed_polygon(rings)) ==> flat_rings(rewound_polygon(closed_polygon(rings), areas)),
{
    let closed = closed_polygon(rings);
    assert forall|i: int| 0 <= i < closed.len() implies flat_ring(#[trigger] closed[i]) by {
        lemma_closing_keeps_flat(rings[i]);
    }
    let wound = rewound_polygon(closed, areas);
    assert forall|i: int| 0 <= i < wound.len() implies flat_ring(#[trigger] wound[i]) by {
        lemma_rewinding_keeps_flat(closed[i], ring_role(i), areas[i]);
    }
}

/// Dropping the altitude cuts every position, at the same place, down to its leading pair.
pub proof fn lemma_dropping_cuts_every_position(model: GeometryModel)
    ensures
        positions_cut_from(model, without_altitude(model)),
        positions_flat(without_altitude(model)),
{
}

/// Under a policy that drops the altitude, no position of the normalised geometry, whatever its
/// kind and however its rings were closed and rewound, carries more than a longitude and a
/// latitude.
pub proof fn lemma_dropped_altitude_never_survives(model: GeometryModel, policy: GeometryPolicy, areas: Seq<Seq<u64>>)
    requires
        policy.spec_altitude() == Altitude::Drop,
    ensures
        positions_flat(normalised(model, policy, areas)),
{
    let flat = without_altitude(model);
    lemma_dropping_cuts_every_position(model);
    match flat {
        GeometryModel::Polygon(rs) => {
            lemma_polygon_stays_flat(rs, areas[0]);
        },
        GeometryModel::MultiPolygon(pss) => {
            let closed = closed_rings(flat);
            if let GeometryModel::MultiPolygon(cs) = closed {
                assert forall|i: int| 0 <= i < cs.len() implies flat_rings(#[trigger] cs[i]) by {
                    lemma_polygon_stays_flat(pss[i], areas[i]);
                }
            }
            if let GeometryModel::MultiPolygon(ws) = rewound_rings(closed, areas) {
                assert forall|i: int| 0 <= i < ws.len() implies flat_rings(#[trigger] ws[i]) by {
                    lemma_polygon_stays_flat(pss[i], areas[i]);
                }
            }
        },
        _ => {},
    }
}

} // verus!
