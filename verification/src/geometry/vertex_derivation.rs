use crate::geometry::error::GeometryError;
use crate::geometry::lattice::outcome_model;
use crate::geometry::ring::copy_position;
use crate::geometry::shape::{GeometryModel, NgsiLdGeometry, Position};
use crate::lists::{join, joined, take_at};
use vstd::prelude::*;

verus! {

/// Every position a geometry lists, in coordinate-array order; a polygon contributes all of its
/// rings, holes included.
pub open spec fn all_positions(model: GeometryModel) -> Seq<Seq<u64>> {
    match model {
        GeometryModel::Point(p) => seq![p],
        GeometryModel::MultiPoint(points) => points,
        GeometryModel::LineString(points) => points,
        GeometryModel::MultiLineString(lines) => joined(lines),
        GeometryModel::Polygon(rings) => joined(rings),
        GeometryModel::MultiPolygon(polygons) => joined(joined(polygons)),
    }
}

/// The positions with every repetition of an earlier one removed, order kept. Two positions are
/// the same vertex when their coordinates are bit-for-bit identical.
pub open spec fn distinct_positions(positions: Seq<Seq<u64>>) -> Seq<Seq<u64>>
    decreases positions.len(),
{
    if positions.len() == 0 {
        Seq::empty()
    } else {
        let kept = distinct_positions(positions.drop_last());
        if kept.contains(positions.last()) {
            kept
        } else {
            kept.push(positions.last())
        }
    }
}

/// Every distinct position a geometry lists, as a `MultiPoint`.
pub open spec fn spec_vertices(model: GeometryModel) -> Result<GeometryModel, GeometryError> {
    if distinct_positions(all_positions(model)).len() == 0 {
        Err(GeometryError::EmptyGeometry)
    } else {
        Ok(GeometryModel::MultiPoint(distinct_positions(all_positions(model))))
    }
}

/// The first position a geometry lists, in coordinate-array order.
pub open spec fn spec_first_position(model: GeometryModel) -> Option<Seq<u64>> {
    if all_positions(model).len() == 0 {
        None
    } else {
        Some(all_positions(model)[0])
    }
}

/// Whether two positions carry bit-for-bit identical components.
pub fn same_bits(a: &Position, b: &Position) -> (result: bool)
    ensures
        result == (a.deep_view() == b.deep_view()),
{
    if a.len() != b.len() {
        assert(a.deep_view().len() != b.deep_view().len());
        return false;
    }
    let mut i: usize = 0;
    while i < a.len()
        invariant
            a@.len() == b@.len(),
            i <= a@.len(),
            forall|j: int| 0 <= j < i ==> #[trigger] a@[j] == b@[j],
        decreases a@.len() - i,
    {
        if a[i] != b[i] {
            assert(a.deep_view()[i as int] != b.deep_view()[i as int]);
            return false;
        }
        i = i + 1;
    }
    assert(a.deep_view() =~= b.deep_view());
    true
}

/// Every position of the geometry, moved out in coordinate-array order.
fn into_positions(geometry: NgsiLdGeometry) -> (positions: Vec<Position>)
    ensures
        positions.deep_view() == all_positions(geometry@),
{
    match geometry {
        NgsiLdGeometry::Point { coordinates } => {
            let positions = vec![coordinates];
            assert(positions.deep_view() =~= seq![coordinates.deep_view()]);
            positions
        },
        NgsiLdGeometry::MultiPoint { coordinates } => coordinates,
        NgsiLdGeometry::LineString { coordinates } => coordinates,
        NgsiLdGeometry::MultiLineString { coordinates } => join(coordinates),
        NgsiLdGeometry::Polygon { coordinates } => join(coordinates),
        NgsiLdGeometry::MultiPolygon { coordinates } => join(join(coordinates)),
    }
}

/// Takes every distinct position the geometry lists, in coordinate-array order, as a `MultiPoint`.
///
/// A polygon contributes the positions of all its rings, holes included. The positions are moved
/// rather than recomputed, so an altitude survives. Two positions count as the same vertex when
/// their coordinates are bit-for-bit identical, which is what a repeated vertex (a ring's closing
/// position, a shared boundary) is in a source document.
pub fn vertices(geometry: NgsiLdGeometry) -> (result: Result<NgsiLdGeometry, GeometryError>)
    ensures
        outcome_model(result) == spec_vertices(geometry@),
{
    let ghost model = geometry@;
    let mut positions = into_positions(geometry);
    let ghost all = positions.deep_view();
    let mut kept: Vec<Position> = Vec::new();
    let mut i: usize = 0;
    while i < positions.len()
        invariant
            all.len() == positions@.len(),
            i <= positions@.len(),
            forall|j: int| i <= j < positions@.len() ==> #[trigger] positions@[j].deep_view() == all[j],
            kept.deep_view() == distinct_positions(all.take(i as int)),
        decreases positions@.len() - i,
    {
        let position = take_at(&mut positions, i);
        assert(position.deep_view() == all[i as int]);
        assert(all.take(i + 1).drop_last() =~= all.take(i as int));
        let mut seen = false;
        let mut k: usize = 0;
        while k < kept.len()
            invariant
                k <= kept@.len(),
                seen ==> kept.deep_view().contains(position.deep_view()),
                !seen ==> forall|j: int| 0 <= j < k ==> #[trigger] kept.deep_view()[j]
                    != position.deep_view(),
            decreases kept@.len() - k,
        {
            if same_bits(&kept[k], &position) {
                assert(kept.deep_view()[k as int] == position.deep_view());
                seen = true;
            }
            k = k + 1;
        }
        if !seen {
            let ghost before = kept.deep_view();
            kept.push(position);
            assert(kept.deep_view() =~= before.push(all[i as int]));
        }
        i = i + 1;
    }
    assert(all.take(i as int) =~= all);
    if kept.len() == 0 {
        return Err(GeometryError::EmptyGeometry);
    }
    Ok(NgsiLdGeometry::MultiPoint { coordinates: kept })
}

/// The first position the geometry lists, in coordinate-array order.
pub fn first_position(geometry: &NgsiLdGeometry) -> (position: Option<&Position>)
    ensures
        match position {
            Some(p) => spec_first_position(geometry@) == Some(p.deep_view()),
            None => spec_first_position(geometry@) is None,
        },
{
    match geometry {
        NgsiLdGeometry::Point { coordinates } => Some(coordinates),
        NgsiLdGeometry::MultiPoint { coordinates } => first_of(coordinates),
        NgsiLdGeometry::LineString { coordinates } => first_of(coordinates),
        NgsiLdGeometry::MultiLineString { coordinates } => first_of_nested(coordinates),
        NgsiLdGeometry::Polygon { coordinates } => first_of_nested(coordinates),
        NgsiLdGeometry::MultiPolygon { coordinates } => {
            let ghost polygons = coordinates.deep_view();
            let mut i: usize = 0;
            while i < coordinates.len()
                invariant
                    polygons == coordinates.deep_view(),
                    geometry@ == GeometryModel::MultiPolygon(polygons),
                    i <= coordinates@.len(),
                    joined(joined(polygons.take(i as int))).len() == 0,
                decreases coordinates@.len() - i,
            {
                proof {
                    lemma_joined_of_empty_prefix(polygons, i as int);
                    assert(coordinates@[i as int].deep_view() == polygons[i as int]);
                }
                match first_of_nested(&coordinates[i]) {
                    Some(p) => {
                        proof {
                            lemma_first_after_empty_prefix(polygons, i as int);
                        }
                        return Some(p);
                    },
                    None => {},
                }
                proof {
                    lemma_joined_extends(polygons, i as int);
                }
                i = i + 1;
            }
            assert(polygons.take(i as int) =~= polygons);
            None
        },
    }
}

/// The first position of a list of positions.
fn first_of(positions: &Vec<Position>) -> (position: Option<&Position>)
    ensures
        match position {
            Some(p) => positions.deep_view().len() > 0 && positions.deep_view()[0] == p.deep_view(),
            None => positions.deep_view().len() == 0,
        },
{
    if positions.len() == 0 {
        None
    } else {
        Some(&positions[0])
    }
}

/// The first position of a list of position lists, skipping empty lists.
fn first_of_nested(lists: &Vec<Vec<Position>>) -> (position: Option<&Position>)
    ensures
        match position {
            Some(p) => joined(lists.deep_view()).len() > 0 && joined(lists.deep_view())[0]
                == p.deep_view(),
            None => joined(lists.deep_view()).len() == 0,
        },
{
    let ghost all = lists.deep_view();
    let mut i: usize = 0;
    while i < lists.len()
        invariant
            all == lists.deep_view(),
            i <= lists@.len(),
            joined(all.take(i as int)).len() == 0,
        decreases lists@.len() - i,
    {
        assert(all.take(i + 1).drop_last() =~= all.take(i as int));
        if lists[i].len() > 0 {
            proof {
                lemma_joined_starts_after_empty(all, i as int);
            }
            return Some(&lists[i][0]);
        }
        i = i + 1;
    }
    assert(all.take(i as int) =~= all);
    None
}

/// Concatenation distributes over taking a prefix one list further.
proof fn lemma_joined_take_step<A>(lists: Seq<Seq<A>>, i: int)
    requires
        0 <= i < lists.len(),
    ensures
        joined(lists.take(i + 1)) == joined(lists.take(i)) + lists[i],
{
    assert(lists.take(i + 1).drop_last() =~= lists.take(i));
}

/// When the first `i` lists are empty and list `i` is not, the concatenation starts with list
/// `i`'s first element.
proof fn lemma_joined_starts_after_empty<A>(lists: Seq<Seq<A>>, i: int)
    requires
        0 <= i < lists.len(),
        joined(lists.take(i)).len() == 0,
        lists[i].len() > 0,
    ensures
        joined(lists).len() > 0,
        joined(lists)[0] == lists[i][0],
    decreases lists.len(),
{
    lemma_joined_take_step(lists, i);
    lemma_joined_prefix(lists, i + 1);
}

/// The concatenation of a prefix of the lists is a prefix of the concatenation of all of them.
proof fn lemma_joined_prefix<A>(lists: Seq<Seq<A>>, n: int)
    requires
        0 <= n <= lists.len(),
    ensures
        joined(lists.take(n)).len() <= joined(lists).len(),
        forall|k: int| 0 <= k < joined(lists.take(n)).len() ==> #[trigger] joined(lists)[k]
            == joined(lists.take(n))[k],
    decreases lists.len(),
{
    if n < lists.len() {
        assert(lists.drop_last().take(n) =~= lists.take(n));
        lemma_joined_prefix(lists.drop_last(), n);
    } else {
        assert(lists.take(n) =~= lists);
    }
}

/// Concatenating twice over a prefix of polygons with no position stays empty one step further
/// when the next polygon lists no position either.
proof fn lemma_joined_extends(polygons: Seq<Seq<Seq<Seq<u64>>>>, i: int)
    requires
        0 <= i < polygons.len(),
        joined(joined(polygons.take(i))).len() == 0,
        joined(polygons[i]).len() == 0,
    ensures
        joined(joined(polygons.take(i + 1))).len() == 0,
{
    lemma_joined_take_step(polygons, i);
    lemma_joined_append(joined(polygons.take(i)), polygons[i]);
}

/// Concatenating a concatenation of two list-of-lists is the concatenation of each.
proof fn lemma_joined_append<A>(a: Seq<Seq<A>>, b: Seq<Seq<A>>)
    ensures
        joined(a + b) == joined(a) + joined(b),
    decreases b.len(),
{
    if b.len() == 0 {
        assert(a + b =~= a);
        assert(joined(a) + joined(b) =~= joined(a));
    } else {
        assert((a + b).drop_last() =~= a + b.drop_last());
        lemma_joined_append(a, b.drop_last());
        assert(joined(a + b) =~= joined(a) + joined(b));
    }
}

/// A prefix of polygons listing no position contributes nothing before polygon `i`.
proof fn lemma_joined_of_empty_prefix(polygons: Seq<Seq<Seq<Seq<u64>>>>, i: int)
    requires
        0 <= i < polygons.len(),
        joined(joined(polygons.take(i))).len() == 0,
    ensures
        joined(joined(polygons.take(i + 1))) == joined(polygons[i]),
{
    lemma_joined_take_step(polygons, i);
    lemma_joined_append(joined(polygons.take(i)), polygons[i]);
    assert(joined(joined(polygons.take(i))) =~= Seq::<Seq<u64>>::empty());
    assert(joined(joined(polygons.take(i + 1))) =~= joined(polygons[i]));
}

/// When the polygons before `i` list no position and polygon `i` does, the first position of all
/// of them is polygon `i`'s first.
proof fn lemma_first_after_empty_prefix(polygons: Seq<Seq<Seq<Seq<u64>>>>, i: int)
    requires
        0 <= i < polygons.len(),
        joined(joined(polygons.take(i))).len() == 0,
        joined(polygons[i]).len() > 0,
    ensures
        joined(joined(polygons)).len() > 0,
        joined(joined(polygons))[0] == joined(polygons[i])[0],
{
    lemma_joined_of_empty_prefix(polygons, i);
    lemma_joined_prefix(polygons, i + 1);
    let rings = joined(polygons);
    let prefix_rings = joined(polygons.take(i + 1));
    assert(prefix_rings.len() <= rings.len());
    assert forall|k: int| 0 <= k < prefix_rings.len() implies #[trigger] rings[k] == prefix_rings[k] by {}
    assert(rings.take(prefix_rings.len() as int) =~= prefix_rings);
    lemma_joined_prefix(rings, prefix_rings.len() as int);
}

/// A copy of the first position the geometry lists, as a `Point`.
pub fn first_vertex(geometry: &NgsiLdGeometry) -> (result: Result<NgsiLdGeometry, GeometryError>)
    ensures
        outcome_model(result) == (match spec_first_position(geometry@) {
            Some(p) => Ok(GeometryModel::Point(p)),
            None => Err(GeometryError::EmptyGeometry),
        }),
{
    match first_position(geometry) {
        Some(position) => Ok(NgsiLdGeometry::Point { coordinates: copy_position(position) }),
        None => Err(GeometryError::EmptyGeometry),
    }
}

} // verus!
