use crate::geometry::error::GeometryError;
use crate::geometry::ring::{positions_equal, positions_of, require_ring, same_position, spec_require_ring};
use crate::geometry::shape::{GeometryModel, LineStringType, NgsiLdGeometry, PolygonType, Position};
use crate::lists::{first_failure, lemma_first_failure_persists, lemma_first_failure_step};
use vstd::prelude::*;

verus! {

/// A position carries at least a longitude and a latitude (RFC 7946 clause 3.1.1).
pub open spec fn spec_check_position(position: Seq<u64>) -> Result<(), GeometryError> {
    if position.len() < 2 {
        Err(GeometryError::ShortPosition { components: position.len() as usize })
    } else {
        Ok(())
    }
}

/// [`spec_check_position`] as a value.
pub open spec fn position_check() -> spec_fn(Seq<u64>) -> Result<(), GeometryError> {
    |position: Seq<u64>| spec_check_position(position)
}

/// A curve holds at least two readable positions (RFC 7946 clause 3.1.4), or none at all.
pub open spec fn spec_check_line(positions: Seq<Seq<u64>>) -> Result<(), GeometryError> {
    if positions.len() == 0 {
        Ok(())
    } else if positions.len() < 2 {
        Err(GeometryError::ShortLineString { positions: positions.len() as usize })
    } else {
        first_failure(positions, position_check())
    }
}

/// [`spec_check_line`] as a value.
pub open spec fn line_check() -> spec_fn(Seq<Seq<u64>>) -> Result<(), GeometryError> {
    |positions: Seq<Seq<u64>>| spec_check_line(positions)
}

/// Three positions of the ring, at three different places in it, no two of them equal: the ring
/// bounds a surface rather than collapsing onto a point or a segment.
pub open spec fn spans_surface(ring: Seq<Seq<u64>>) -> bool {
    exists|i: int, j: int, k: int|
        0 <= i < ring.len() && 0 <= j < ring.len() && 0 <= k < ring.len() && i != j && j != k && i
            != k && !positions_equal(#[trigger] ring[i], #[trigger] ring[j]) && !positions_equal(
            ring[j],
            #[trigger] ring[k],
        ) && !positions_equal(ring[i], ring[k])
}

/// A linear ring: long enough, closed, made of readable positions, and spanning a surface.
pub open spec fn spec_check_ring(ring: Seq<Seq<u64>>) -> Result<(), GeometryError> {
    match spec_require_ring(ring) {
        Err(error) => Err(error),
        Ok(()) => match first_failure(ring, position_check()) {
            Err(error) => Err(error),
            Ok(()) => if spans_surface(ring) {
                Ok(())
            } else {
                Err(GeometryError::DegenerateRing)
            },
        },
    }
}

/// [`spec_check_ring`] as a value.
pub open spec fn ring_check() -> spec_fn(Seq<Seq<u64>>) -> Result<(), GeometryError> {
    |ring: Seq<Seq<u64>>| spec_check_ring(ring)
}

/// Every ring of one polygon checked, in order.
pub open spec fn spec_check_rings(rings: Seq<Seq<Seq<u64>>>) -> Result<(), GeometryError> {
    first_failure(rings, ring_check())
}

/// [`spec_check_rings`] as a value.
pub open spec fn rings_check() -> spec_fn(Seq<Seq<Seq<u64>>>) -> Result<(), GeometryError> {
    |rings: Seq<Seq<Seq<u64>>>| spec_check_rings(rings)
}

/// The structural rules RFC 7946 clause 3.1 states but the type cannot encode, the first rule
/// broken named.
pub open spec fn spec_validate(model: GeometryModel) -> Result<(), GeometryError> {
    match model {
        GeometryModel::Point(position) => spec_check_position(position),
        GeometryModel::MultiPoint(positions) => first_failure(positions, position_check()),
        GeometryModel::LineString(positions) => spec_check_line(positions),
        GeometryModel::MultiLineString(lines) => first_failure(lines, line_check()),
        GeometryModel::Polygon(rings) => spec_check_rings(rings),
        GeometryModel::MultiPolygon(polygons) => first_failure(polygons, rings_check()),
    }
}

impl NgsiLdGeometry {
    /// Checks the structural rules RFC 7946 clause 3.1 states but the type itself cannot encode:
    /// how many components a position carries, how many positions a curve needs, and whether a
    /// linear ring is long enough and closed.
    ///
    /// An empty coordinates array is accepted rather than refused: clause 3.1 permits one and lets
    /// a processor read it as a null object. This is structural validity only; a ring that crosses
    /// itself passes here.
    pub fn validate_structure(&self) -> (result: Result<(), GeometryError>)
        ensures
            result == spec_validate(self@),
    {
        match self {
            NgsiLdGeometry::Point { coordinates } => check_position(coordinates),
            NgsiLdGeometry::MultiPoint { coordinates } => check_positions(coordinates),
            NgsiLdGeometry::LineString { coordinates } => check_line(coordinates),
            NgsiLdGeometry::MultiLineString { coordinates } => check_lines(coordinates),
            NgsiLdGeometry::Polygon { coordinates } => check_rings(coordinates),
            NgsiLdGeometry::MultiPolygon { coordinates } => check_polygons(coordinates),
        }
    }
}

/// Checks that a position carries at least a longitude and a latitude.
fn check_position(position: &Position) -> (result: Result<(), GeometryError>)
    ensures
        result == spec_check_position(position.deep_view()),
{
    if position.len() < 2 {
        return Err(GeometryError::ShortPosition { components: position.len() });
    }
    Ok(())
}

/// Checks every position of a list, in order.
fn check_positions(positions: &Vec<Position>) -> (result: Result<(), GeometryError>)
    ensures
        result == first_failure(positions.deep_view(), position_check()),
{
    let ghost all = positions.deep_view();
    let mut i: usize = 0;
    while i < positions.len()
        invariant
            all == positions.deep_view(),
            i <= positions@.len(),
            first_failure(all.take(i as int), position_check()) is Ok,
        decreases positions@.len() - i,
    {
        proof {
            lemma_first_failure_step(all, position_check(), i as int);
        }
        let outcome = check_position(&positions[i]);
        if outcome.is_err() {
            proof {
                lemma_first_failure_persists(all, position_check(), i + 1);
            }
            return outcome;
        }
        i = i + 1;
    }
    assert(all.take(i as int) =~= all);
    Ok(())
}

/// Checks that a curve holds at least two positions, or none at all, each readable.
fn check_line(positions: &LineStringType) -> (result: Result<(), GeometryError>)
    ensures
        result == spec_check_line(positions.deep_view()),
{
    if positions.len() == 0 {
        return Ok(());
    }
    if positions.len() < 2 {
        return Err(GeometryError::ShortLineString { positions: positions.len() });
    }
    check_positions(positions)
}

/// Checks every curve of a list, in order.
fn check_lines(lines: &Vec<LineStringType>) -> (result: Result<(), GeometryError>)
    ensures
        result == first_failure(lines.deep_view(), line_check()),
{
    let ghost all = lines.deep_view();
    let mut i: usize = 0;
    while i < lines.len()
        invariant
            all == lines.deep_view(),
            i <= lines@.len(),
            first_failure(all.take(i as int), line_check()) is Ok,
        decreases lines@.len() - i,
    {
        proof {
            lemma_first_failure_step(all, line_check(), i as int);
        }
        let outcome = check_line(&lines[i]);
        if outcome.is_err() {
            proof {
                lemma_first_failure_persists(all, line_check(), i + 1);
            }
            return outcome;
        }
        i = i + 1;
    }
    assert(all.take(i as int) =~= all);
    Ok(())
}

/// Checks one linear ring: long enough, closed, and made of readable positions.
fn check_ring(ring: &LineStringType) -> (result: Result<(), GeometryError>)
    ensures
        result == spec_check_ring(ring.deep_view()),
{
    assert(positions_of(ring@) =~= ring.deep_view());
    require_ring(ring.as_slice())?;
    check_positions(ring)?;
    if spans(ring) {
        Ok(())
    } else {
        Err(GeometryError::DegenerateRing)
    }
}

/// `==` on positions is symmetric and transitive.
proof fn lemma_positions_equal_per(a: Seq<u64>, b: Seq<u64>, c: Seq<u64>)
    ensures
        positions_equal(a, b) ==> positions_equal(b, a),
        positions_equal(a, b) && positions_equal(b, c) ==> positions_equal(a, c),
{
    if positions_equal(a, b) && positions_equal(b, c) {
        assert forall|i: int| 0 <= i < a.len() implies #[trigger] crate::ieee::float_eq(a[i], c[i]) by {
            assert(crate::ieee::float_eq(a[i], b[i]));
            assert(crate::ieee::float_eq(b[i], c[i]));
        }
    }
    if positions_equal(a, b) {
        assert forall|i: int| 0 <= i < b.len() implies #[trigger] crate::ieee::float_eq(b[i], a[i]) by {
            assert(crate::ieee::float_eq(a[i], b[i]));
        }
    }
}

/// Whether three positions of the ring, at different places, differ pairwise.
///
/// Equality of positions is symmetric and transitive, so every position differing from the first
/// one found equal to neither of two differing positions settles it: with the first position and
/// one differing from it in hand, a third differing from both exists exactly when a triple does.
fn spans(ring: &LineStringType) -> (spanning: bool)
    ensures
        spanning == spans_surface(ring.deep_view()),
{
    let ghost r = ring.deep_view();
    let n = ring.len();
    if n == 0 {
        return false;
    }
    let mut j: usize = 1;
    while j < n
        invariant
            r == ring.deep_view(),
            n == r.len(),
            1 <= j <= n,
            forall|m: int| 1 <= m < j ==> positions_equal(r[0], #[trigger] r[m]),
        ensures
            1 <= j <= n,
            forall|m: int| 1 <= m < j ==> positions_equal(r[0], #[trigger] r[m]),
            j < n ==> !positions_equal(r[0], r[j as int]),
        decreases n - j,
    {
        if !same_position(&ring[0], &ring[j]) {
            break;
        }
        j = j + 1;
    }
    if j == n {
        // Every later position equals the first, so any two positions equal each other.
        proof {
            if spans_surface(r) {
                let (a, b, c) = choose|a: int, b: int, c: int|
                    0 <= a < r.len() && 0 <= b < r.len() && 0 <= c < r.len() && a != b && b != c && a
                        != c && !positions_equal(#[trigger] r[a], #[trigger] r[b])
                        && !positions_equal(r[b], #[trigger] r[c]) && !positions_equal(r[a], r[c]);
                lemma_share(r, 0, a, b);
            }
        }
        return false;
    }
    assert(!positions_equal(r[0], r[j as int]));
    let mut k: usize = 1;
    while k < n
        invariant
            r == ring.deep_view(),
            n == r.len(),
            1 <= j < n,
            !positions_equal(r[0], r[j as int]),
            1 <= k <= n,
            forall|m: int|
                1 <= m < k ==> m == j || positions_equal(r[0], #[trigger] r[m]) || positions_equal(
                    r[j as int],
                    r[m],
                ),
        decreases n - k,
    {
        if k != j && !same_position(&ring[0], &ring[k]) && !same_position(&ring[j], &ring[k]) {
            proof {
                lemma_positions_equal_per(r[j as int], r[k as int], r[0]);
                lemma_positions_equal_per(r[k as int], r[j as int], r[0]);
                assert(!positions_equal(r[0], r[j as int]) && !positions_equal(r[j as int], r[k as int])
                    && !positions_equal(r[0], r[k as int]));
                assert(spans_surface(r));
            }
            return true;
        }
        k = k + 1;
    }
    proof {
        lemma_no_third_class(r, j as int);
    }
    false
}

/// When every position past the first is the second one found, or equals it or the first, no
/// three positions differ pairwise: two of any three fall on the same side and are equal.
proof fn lemma_no_third_class(r: Seq<Seq<u64>>, j: int)
    requires
        1 <= j < r.len(),
        forall|m: int|
            1 <= m < r.len() ==> m == j || positions_equal(r[0], #[trigger] r[m]) || positions_equal(r[j], r[m]),
    ensures
        !spans_surface(r),
{
    if spans_surface(r) {
        let (a, b, c) = choose|a: int, b: int, c: int|
            0 <= a < r.len() && 0 <= b < r.len() && 0 <= c < r.len() && a != b && b != c && a != c
                && !positions_equal(#[trigger] r[a], #[trigger] r[b]) && !positions_equal(r[b], #[trigger] r[c])
                && !positions_equal(r[a], r[c]);
        let xa = a == 0 || positions_equal(r[0], r[a]);
        let xb = b == 0 || positions_equal(r[0], r[b]);
        let xc = c == 0 || positions_equal(r[0], r[c]);
        if xa && xb {
            lemma_share(r, 0, a, b);
        } else if xb && xc {
            lemma_share(r, 0, b, c);
        } else if xa && xc {
            lemma_share(r, 0, a, c);
        } else if !xa && !xb {
            lemma_share(r, j, a, b);
        } else if !xb && !xc {
            lemma_share(r, j, b, c);
        } else {
            lemma_share(r, j, a, c);
        }
    }
}

/// Two positions at different places, each the one at `base` or equal to it, are equal.
proof fn lemma_share(r: Seq<Seq<u64>>, base: int, m1: int, m2: int)
    requires
        0 <= base < r.len(),
        0 <= m1 < r.len(),
        0 <= m2 < r.len(),
        m1 != m2,
        m1 == base || positions_equal(r[base], r[m1]),
        m2 == base || positions_equal(r[base], r[m2]),
    ensures
        positions_equal(r[m1], r[m2]),
{
    lemma_positions_equal_per(r[base], r[m1], r[m2]);
    lemma_positions_equal_per(r[m1], r[base], r[m2]);
    lemma_positions_equal_per(r[base], r[m2], r[m1]);
}

/// Checks every ring of one polygon (RFC 7946 clause 3.1.6).
fn check_rings(rings: &PolygonType) -> (result: Result<(), GeometryError>)
    ensures
        result == spec_check_rings(rings.deep_view()),
{
    let ghost all = rings.deep_view();
    let mut i: usize = 0;
    while i < rings.len()
        invariant
            all == rings.deep_view(),
            i <= rings@.len(),
            first_failure(all.take(i as int), ring_check()) is Ok,
        decreases rings@.len() - i,
    {
        proof {
            lemma_first_failure_step(all, ring_check(), i as int);
        }
        let outcome = check_ring(&rings[i]);
        if outcome.is_err() {
            proof {
                lemma_first_failure_persists(all, ring_check(), i + 1);
            }
            return outcome;
        }
        i = i + 1;
    }
    assert(all.take(i as int) =~= all);
    Ok(())
}

/// Checks every polygon of a list, in order.
fn check_polygons(polygons: &Vec<PolygonType>) -> (result: Result<(), GeometryError>)
    ensures
        result == first_failure(polygons.deep_view(), rings_check()),
{
    let ghost all = polygons.deep_view();
    let mut i: usize = 0;
    while i < polygons.len()
        invariant
            all == polygons.deep_view(),
            i <= polygons@.len(),
            first_failure(all.take(i as int), rings_check()) is Ok,
        decreases polygons@.len() - i,
    {
        proof {
            lemma_first_failure_step(all, rings_check(), i as int);
        }
        let outcome = check_rings(&polygons[i]);
        if outcome.is_err() {
            proof {
                lemma_first_failure_persists(all, rings_check(), i + 1);
            }
            return outcome;
        }
        i = i + 1;
    }
    assert(all.take(i as int) =~= all);
    Ok(())
}

/// A ring every position of which equals its first, such as the bounding box of a lone position,
/// never passes the structural check: it is refused as too short, open, unreadable, or degenerate.
pub proof fn lemma_collapsed_ring_is_refused(ring: Seq<Seq<u64>>)
    requires
        forall|m: int| 1 <= m < ring.len() ==> positions_equal(ring[0], #[trigger] ring[m]),
    ensures
        spec_check_ring(ring) is Err,
        !spans_surface(ring),
{
    if spans_surface(ring) {
        let (a, b, c) = choose|a: int, b: int, c: int|
            0 <= a < ring.len() && 0 <= b < ring.len() && 0 <= c < ring.len() && a != b && b != c && a != c
                && !positions_equal(#[trigger] ring[a], #[trigger] ring[b]) && !positions_equal(
                ring[b],
                #[trigger] ring[c],
            ) && !positions_equal(ring[a], ring[c]);
        lemma_share(ring, 0, a, b);
    }
}

} // verus!
