use crate::geometry::shape::{LineStringType, PolygonType, Position};
use crate::lists::take_at;
use vstd::prelude::*;

verus! {

/// Raw coordinates read out of a source value, before they carry a geometry type.
///
/// A source that writes its geometry as a bare coordinate array (a lon/lat pair in two CSV
/// columns, a list of pairs in a JSON field) says nothing about which geometry type it means. The
/// mapping's declared target supplies that, and this carries the nesting the target is matched
/// against.
#[derive(Debug, PartialEq)]
pub enum CoordinateShape {
    /// One position: `[x, y]`, or `[x, y, z]` carrying an altitude (RFC 7946 clause 3.1.1).
    Position(Position),
    /// An ordered group of shapes, one nesting level above its members.
    Group(Vec<CoordinateShape>),
}

impl Default for CoordinateShape {
    /// An empty group.
    fn default() -> (shape: CoordinateShape)
        ensures
            shape matches CoordinateShape::Group(members) && members@.len() == 0,
    {
        CoordinateShape::Group(Vec::new())
    }
}

impl DeepView for CoordinateShape {
    type V = CoordinateShape;

    open spec fn deep_view(&self) -> CoordinateShape {
        *self
    }
}

/// How deeply the coordinates nest: a position is zero, a list of positions one, a list of those
/// two, and so on; an empty group counts as one level with nothing under it.
pub open spec fn shape_depth(shape: CoordinateShape) -> nat
    decreases shape, 0nat,
{
    match shape {
        CoordinateShape::Position(_) => 0,
        CoordinateShape::Group(members) => 1 + members_depth(members, members@.len() as int),
    }
}

/// The greatest depth among the first `n` members, zero for none.
pub open spec fn members_depth(members: Vec<CoordinateShape>, n: int) -> nat
    decreases members, n,
{
    if n <= 0 || n > members@.len() {
        0
    } else {
        let rest = members_depth(members, n - 1);
        let last = shape_depth(members@[n - 1]);
        if last > rest {
            last
        } else {
            rest
        }
    }
}

/// The shape read as one position.
pub open spec fn as_position(shape: CoordinateShape) -> Option<Seq<u64>> {
    match shape {
        CoordinateShape::Position(position) => Some(position.deep_view()),
        CoordinateShape::Group(_) => None,
    }
}

/// The shape read as a list of positions, when every member is a position.
pub open spec fn as_positions(shape: CoordinateShape) -> Option<Seq<Seq<u64>>> {
    match shape {
        CoordinateShape::Group(members) => if forall|i: int|
            0 <= i < members@.len() ==> #[trigger] as_position(members@[i]) is Some {
            Some(Seq::new(members@.len(), |i: int| as_position(members@[i])->0))
        } else {
            None
        },
        CoordinateShape::Position(_) => None,
    }
}

/// The shape read as a list of position lists, when every member reads as positions.
pub open spec fn as_rings(shape: CoordinateShape) -> Option<Seq<Seq<Seq<u64>>>> {
    match shape {
        CoordinateShape::Group(members) => if forall|i: int|
            0 <= i < members@.len() ==> #[trigger] as_positions(members@[i]) is Some {
            Some(Seq::new(members@.len(), |i: int| as_positions(members@[i])->0))
        } else {
            None
        },
        CoordinateShape::Position(_) => None,
    }
}

/// The shape read as a list of ring lists, when every member reads as rings.
pub open spec fn as_polygons(shape: CoordinateShape) -> Option<Seq<Seq<Seq<Seq<u64>>>>> {
    match shape {
        CoordinateShape::Group(members) => if forall|i: int|
            0 <= i < members@.len() ==> #[trigger] as_rings(members@[i]) is Some {
            Some(Seq::new(members@.len(), |i: int| as_rings(members@[i])->0))
        } else {
            None
        },
        CoordinateShape::Position(_) => None,
    }
}

/// An optional list of coordinates read as its component sequences.
pub open spec fn option_view<T: DeepView>(value: Option<T>) -> Option<T::V> {
    match value {
        Some(v) => Some(v.deep_view()),
        None => None,
    }
}

impl CoordinateShape {
    /// How deeply the coordinates nest: a position is zero, a list of positions one, a list of
    /// those two, and so on. An empty group counts as one level with nothing under it.
    pub fn depth(&self) -> (depth: usize)
        requires
            shape_depth(*self) < usize::MAX,
        ensures
            depth == shape_depth(*self),
        decreases *self,
    {
        match self {
            CoordinateShape::Position(_) => 0,
            CoordinateShape::Group(members) => {
                proof {
                    lemma_members_depth_bounds(*members, members@.len() as int);
                }
                let mut deepest: usize = 0;
                let mut i: usize = 0;
                while i < members.len()
                    invariant
                        i <= members@.len(),
                        *self == CoordinateShape::Group(*members),
                        forall|j: int| 0 <= j < members@.len() ==> #[trigger] shape_depth(members@[j])
                            <= members_depth(*members, members@.len() as int),
                        1 + members_depth(*members, members@.len() as int) < usize::MAX,
                        deepest == members_depth(*members, i as int),
                    decreases members@.len() - i,
                {
                    proof {
                        vstd::std_specs::vec::axiom_vec_index_decreases(*members, i as int);
                        assert(decreases_to!(*self => (*self)->Group_0));
                        assert((*self)->Group_0 == *members);
                    }
                    let member = members[i].depth();
                    if member > deepest {
                        deepest = member;
                    }
                    i = i + 1;
                }
                1 + deepest
            },
        }
    }

    /// Reads the shape as one position.
    pub fn into_position(self) -> (position: Option<Position>)
        ensures
            option_view(position) == as_position(self),
    {
        match self {
            CoordinateShape::Position(position) => Some(position),
            CoordinateShape::Group(_) => None,
        }
    }

    /// Reads the shape as a list of positions: a curve, or a `MultiPoint`'s members.
    pub fn into_positions(self) -> (positions: Option<LineStringType>)
        ensures
            option_view(positions) == as_positions(self),
    {
        let ghost shape = self;
        let mut members = self.into_group()?;
        let ghost initial = members@;
        let mut positions: LineStringType = Vec::new();
        let mut i: usize = 0;
        while i < members.len()
            invariant
                shape == self,
                shape matches CoordinateShape::Group(m) && m@ == initial,
                members@.len() == initial.len(),
                i <= members@.len(),
                forall|j: int| i <= j < members@.len() ==> #[trigger] members@[j] == initial[j],
                forall|j: int| 0 <= j < i ==> #[trigger] as_position(initial[j]) is Some,
                positions.deep_view() =~= Seq::new(i as nat, |j: int| as_position(initial[j])->0),
            decreases members@.len() - i,
        {
            let member = take_at(&mut members, i);
            match member.into_position() {
                Some(position) => {
                    let ghost before = positions.deep_view();
                    positions.push(position);
                    assert(positions.deep_view() =~= before.push(as_position(initial[i as int])->0));
                },
                None => {
                    assert(as_position(initial[i as int]) is None);
                    return None;
                },
            }
            i = i + 1;
        }
        Some(positions)
    }

    /// Reads the shape as a list of position lists: a polygon's rings, or a `MultiLineString`'s
    /// curves.
    pub fn into_rings(self) -> (rings: Option<PolygonType>)
        ensures
            option_view(rings) == as_rings(self),
    {
        let ghost shape = self;
        let mut members = self.into_group()?;
        let ghost initial = members@;
        let mut rings: PolygonType = Vec::new();
        let mut i: usize = 0;
        while i < members.len()
            invariant
                shape == self,
                shape matches CoordinateShape::Group(m) && m@ == initial,
                members@.len() == initial.len(),
                i <= members@.len(),
                forall|j: int| i <= j < members@.len() ==> #[trigger] members@[j] == initial[j],
                forall|j: int| 0 <= j < i ==> #[trigger] as_positions(initial[j]) is Some,
                rings.deep_view() =~= Seq::new(i as nat, |j: int| as_positions(initial[j])->0),
            decreases members@.len() - i,
        {
            let member = take_at(&mut members, i);
            match member.into_positions() {
                Some(ring) => {
                    let ghost before = rings.deep_view();
                    rings.push(ring);
                    assert(rings.deep_view() =~= before.push(as_positions(initial[i as int])->0));
                },
                None => {
                    assert(as_positions(initial[i as int]) is None);
                    return None;
                },
            }
            i = i + 1;
        }
        Some(rings)
    }

    /// Reads the shape as a list of ring lists: a `MultiPolygon`'s surfaces.
    pub fn into_polygons(self) -> (polygons: Option<Vec<PolygonType>>)
        ensures
            option_view(polygons) == as_polygons(self),
    {
        let ghost shape = self;
        let mut members = self.into_group()?;
        let ghost initial = members@;
        let mut polygons: Vec<PolygonType> = Vec::new();
        let mut i: usize = 0;
        while i < members.len()
            invariant
                shape == self,
                shape matches CoordinateShape::Group(m) && m@ == initial,
                members@.len() == initial.len(),
                i <= members@.len(),
                forall|j: int| i <= j < members@.len() ==> #[trigger] members@[j] == initial[j],
                forall|j: int| 0 <= j < i ==> #[trigger] as_rings(initial[j]) is Some,
                polygons.deep_view() =~= Seq::new(i as nat, |j: int| as_rings(initial[j])->0),
            decreases members@.len() - i,
        {
            let member = take_at(&mut members, i);
            match member.into_rings() {
                Some(polygon) => {
                    let ghost before = polygons.deep_view();
                    polygons.push(polygon);
                    assert(polygons.deep_view() =~= before.push(as_rings(initial[i as int])->0));
                },
                None => {
                    assert(as_rings(initial[i as int]) is None);
                    return None;
                },
            }
            i = i + 1;
        }
        Some(polygons)
    }

    /// Reads the shape as a group, rejecting a bare position.
    fn into_group(self) -> (members: Option<Vec<CoordinateShape>>)
        ensures
            match self {
                CoordinateShape::Group(m) => members == Some(m),
                CoordinateShape::Position(_) => members is None,
            },
    {
        match self {
            CoordinateShape::Position(_) => None,
            CoordinateShape::Group(members) => Some(members),
        }
    }
}

/// Every member's depth is at most the greatest among the first `n`.
proof fn lemma_members_depth_bounds(members: Vec<CoordinateShape>, n: int)
    requires
        0 <= n <= members@.len(),
    ensures
        forall|j: int| 0 <= j < n ==> #[trigger] shape_depth(members@[j]) <= members_depth(members, n),
    decreases n,
{
    if n > 0 {
        lemma_members_depth_bounds(members, n - 1);
    }
}

} // verus!
