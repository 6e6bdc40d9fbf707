use crate::geometry::error::GeometryError;
use crate::geometry::kind::{Dimension, kind_dimension};
use crate::geometry::lattice::outcome_model;
use crate::geometry::ring::copy_position;
use crate::geometry::shape::{
    GeometryModel, LineStringType, NgsiLdGeometry, PolygonType, Position, model_kind,
};
use crate::lists::{joined, lemma_joined_push, take_at};
use vstd::prelude::*;

verus! {

/// A `GeoJSON` geometry as RFC 7946 clause 3.1 defines it: the six coordinate-bearing types and
/// the `GeometryCollection` (clause 3.1.8), whose members are geometries again.
#[derive(Debug, PartialEq)]
pub enum GeometryValue {
    Point { coordinates: Position },
    MultiPoint { coordinates: Vec<Position> },
    LineString { coordinates: LineStringType },
    MultiLineString { coordinates: Vec<LineStringType> },
    Polygon { coordinates: PolygonType },
    MultiPolygon { coordinates: Vec<PolygonType> },
    GeometryCollection { geometries: Vec<GeometryValue> },
}

impl Default for GeometryValue {
    /// An empty collection.
    fn default() -> (value: GeometryValue)
        ensures
            value matches GeometryValue::GeometryCollection { geometries } && geometries@.len() == 0,
    {
        GeometryValue::GeometryCollection { geometries: Vec::new() }
    }
}

impl DeepView for GeometryValue {
    type V = GeometryValue;

    open spec fn deep_view(&self) -> GeometryValue {
        *self
    }
}

/// The geometry a non-collection value is, or the refusal of a collection.
pub open spec fn value_model(value: GeometryValue) -> Result<GeometryModel, GeometryError> {
    match value {
        GeometryValue::Point { coordinates } => Ok(GeometryModel::Point(coordinates.deep_view())),
        GeometryValue::MultiPoint { coordinates } => Ok(GeometryModel::MultiPoint(coordinates.deep_view())),
        GeometryValue::LineString { coordinates } => Ok(GeometryModel::LineString(coordinates.deep_view())),
        GeometryValue::MultiLineString { coordinates } => Ok(
            GeometryModel::MultiLineString(coordinates.deep_view()),
        ),
        GeometryValue::Polygon { coordinates } => Ok(GeometryModel::Polygon(coordinates.deep_view())),
        GeometryValue::MultiPolygon { coordinates } => Ok(
            GeometryModel::MultiPolygon(coordinates.deep_view()),
        ),
        GeometryValue::GeometryCollection { .. } => Err(GeometryError::GeometryCollection),
    }
}

/// The positions a member of dimension zero contributes to a fold.
pub open spec fn point_part(model: GeometryModel) -> Seq<Seq<u64>> {
    match model {
        GeometryModel::Point(p) => seq![p],
        GeometryModel::MultiPoint(ps) => ps,
        _ => Seq::empty(),
    }
}

/// The curves a member of dimension one contributes to a fold.
pub open spec fn line_part(model: GeometryModel) -> Seq<Seq<Seq<u64>>> {
    match model {
        GeometryModel::LineString(l) => seq![l],
        GeometryModel::MultiLineString(ls) => ls,
        _ => Seq::empty(),
    }
}

/// The surfaces a member of dimension two contributes to a fold.
pub open spec fn area_part(model: GeometryModel) -> Seq<Seq<Seq<Seq<u64>>>> {
    match model {
        GeometryModel::Polygon(r) => seq![r],
        GeometryModel::MultiPolygon(rs) => rs,
        _ => Seq::empty(),
    }
}

/// The positions each member contributes to a fold, member by member.
pub open spec fn point_parts(members: Seq<GeometryModel>) -> Seq<Seq<Seq<u64>>> {
    Seq::new(members.len(), |i: int| point_part(members[i]))
}

/// The curves each member contributes to a fold, member by member.
pub open spec fn line_parts(members: Seq<GeometryModel>) -> Seq<Seq<Seq<Seq<u64>>>> {
    Seq::new(members.len(), |i: int| line_part(members[i]))
}

/// The surfaces each member contributes to a fold, member by member.
pub open spec fn area_parts(members: Seq<GeometryModel>) -> Seq<Seq<Seq<Seq<Seq<u64>>>>> {
    Seq::new(members.len(), |i: int| area_part(members[i]))
}

/// The dimension of a geometry model.
pub open spec fn model_dimension(model: GeometryModel) -> Dimension {
    kind_dimension(model_kind(model))
}

/// Already-admitted members merged into one geometry: a lone member keeps its own type, members
/// that all span one dimension become that dimension's multi-geometry, in member order.
pub open spec fn spec_fold(members: Seq<GeometryModel>) -> Result<GeometryModel, GeometryError> {
    if members.len() == 0 {
        Err(GeometryError::EmptyGeometry)
    } else if members.len() == 1 {
        Ok(members[0])
    } else if exists|i: int|
        0 <= i < members.len() && #[trigger] model_dimension(members[i]) != model_dimension(members[0]) {
        Err(GeometryError::MixedCollection)
    } else {
        match model_dimension(members[0]) {
            Dimension::Point => Ok(
                GeometryModel::MultiPoint(joined(point_parts(members))),
            ),
            Dimension::Line => Ok(
                GeometryModel::MultiLineString(joined(line_parts(members))),
            ),
            Dimension::Area => Ok(
                GeometryModel::MultiPolygon(joined(area_parts(members))),
            ),
        }
    }
}

/// One collection member admitted, a nested collection being folded first.
pub open spec fn spec_admit(value: GeometryValue) -> Result<GeometryModel, GeometryError>
    decreases value, 0int,
{
    match value {
        GeometryValue::GeometryCollection { geometries } => match admit_prefix(
            geometries,
            geometries@.len() as int,
        ) {
            Err(error) => Err(error),
            Ok(members) => spec_fold(members),
        },
        _ => value_model(value),
    }
}

/// The first `n` members admitted in order, or the first refusal among them.
pub open spec fn admit_prefix(geometries: Vec<GeometryValue>, n: int) -> Result<
    Seq<GeometryModel>,
    GeometryError,
>
    decreases geometries, n,
{
    if n <= 0 || n > geometries@.len() {
        Ok(Seq::empty())
    } else {
        match admit_prefix(geometries, n - 1) {
            Err(error) => Err(error),
            Ok(members) => match spec_admit(geometries@[n - 1]) {
                Err(error) => Err(error),
                Ok(member) => Ok(members.push(member)),
            },
        }
    }
}

/// A `GeometryCollection`'s members folded into one admissible geometry.
pub open spec fn spec_fold_collection(geometries: Vec<GeometryValue>) -> Result<
    GeometryModel,
    GeometryError,
> {
    match admit_prefix(geometries, geometries@.len() as int) {
        Err(error) => Err(error),
        Ok(members) => spec_fold(members),
    }
}

impl NgsiLdGeometry {
    /// Admits a `GeoJSON` geometry, refusing the one type a `GeoProperty` cannot hold.
    ///
    /// An NGSI-LD `GeoProperty` admits six of RFC 7946's seven geometry types; a
    /// `GeometryCollection` is refused here rather than being carried and rejected downstream.
    pub fn try_from(value: GeometryValue) -> (result: Result<NgsiLdGeometry, GeometryError>)
        ensures
            outcome_model(result) == value_model(value),
    {
        match value {
            GeometryValue::Point { coordinates } => Ok(NgsiLdGeometry::Point { coordinates }),
            GeometryValue::MultiPoint { coordinates } => Ok(NgsiLdGeometry::MultiPoint { coordinates }),
            GeometryValue::LineString { coordinates } => Ok(NgsiLdGeometry::LineString { coordinates }),
            GeometryValue::MultiLineString { coordinates } => Ok(
                NgsiLdGeometry::MultiLineString { coordinates },
            ),
            GeometryValue::Polygon { coordinates } => Ok(NgsiLdGeometry::Polygon { coordinates }),
            GeometryValue::MultiPolygon { coordinates } => Ok(NgsiLdGeometry::MultiPolygon { coordinates }),
            GeometryValue::GeometryCollection { .. } => Err(GeometryError::GeometryCollection),
        }
    }
}

/// The RFC 7946 value a geometry is written as: the same type, the same coordinates.
pub open spec fn value_of(geometry: NgsiLdGeometry) -> GeometryValue {
    match geometry {
        NgsiLdGeometry::Point { coordinates } => GeometryValue::Point { coordinates },
        NgsiLdGeometry::MultiPoint { coordinates } => GeometryValue::MultiPoint { coordinates },
        NgsiLdGeometry::LineString { coordinates } => GeometryValue::LineString { coordinates },
        NgsiLdGeometry::MultiLineString { coordinates } => GeometryValue::MultiLineString { coordinates },
        NgsiLdGeometry::Polygon { coordinates } => GeometryValue::Polygon { coordinates },
        NgsiLdGeometry::MultiPolygon { coordinates } => GeometryValue::MultiPolygon { coordinates },
    }
}

/// A copy of a list of positions, component for component.
fn copy_positions(positions: &Vec<Position>) -> (copy: Vec<Position>)
    ensures
        copy.deep_view() == positions.deep_view(),
{
    let mut copy: Vec<Position> = Vec::new();
    let mut i: usize = 0;
    while i < positions.len()
        invariant
            i <= positions@.len(),
            copy.deep_view() == positions.deep_view().take(i as int),
        decreases positions@.len() - i,
    {
        let position = copy_position(&positions[i]);
        let ghost before = copy.deep_view();
        copy.push(position);
        assert(copy.deep_view() =~= before.push(positions.deep_view()[i as int]));
        assert(positions.deep_view().take(i + 1) =~= positions.deep_view().take(i as int).push(
            positions.deep_view()[i as int],
        ));
        i = i + 1;
    }
    assert(positions.deep_view().take(i as int) =~= positions.deep_view());
    copy
}

/// A copy of a list of curves or rings.
fn copy_lines(lines: &Vec<LineStringType>) -> (copy: Vec<LineStringType>)
    ensures
        copy.deep_view() == lines.deep_view(),
{
    let mut copy: Vec<LineStringType> = Vec::new();
    let mut i: usize = 0;
    while i < lines.len()
        invariant
            i <= lines@.len(),
            copy.deep_view() == lines.deep_view().take(i as int),
        decreases lines@.len() - i,
    {
        let line = copy_positions(&lines[i]);
        let ghost before = copy.deep_view();
        copy.push(line);
        assert(copy.deep_view() =~= before.push(lines.deep_view()[i as int]));
        assert(lines.deep_view().take(i + 1) =~= lines.deep_view().take(i as int).push(lines.deep_view()[i as int]));
        i = i + 1;
    }
    assert(lines.deep_view().take(i as int) =~= lines.deep_view());
    copy
}

/// A copy of a list of surfaces.
fn copy_polygons(polygons: &Vec<PolygonType>) -> (copy: Vec<PolygonType>)
    ensures
        copy.deep_view() == polygons.deep_view(),
{
    let mut copy: Vec<PolygonType> = Vec::new();
    let mut i: usize = 0;
    while i < polygons.len()
        invariant
            i <= polygons@.len(),
            copy.deep_view() == polygons.deep_view().take(i as int),
        decreases polygons@.len() - i,
    {
        let polygon = copy_lines(&polygons[i]);
        let ghost before = copy.deep_view();
        copy.push(polygon);
        assert(copy.deep_view() =~= before.push(polygons.deep_view()[i as int]));
        assert(polygons.deep_view().take(i + 1) =~= polygons.deep_view().take(i as int).push(
            polygons.deep_view()[i as int],
        ));
        i = i + 1;
    }
    assert(polygons.deep_view().take(i as int) =~= polygons.deep_view());
    copy
}

impl GeometryValue {
    /// Writes a geometry as the RFC 7946 value of the same type and coordinates; admitting the
    /// value again with [`NgsiLdGeometry::try_from`] gives the geometry back.
    pub fn from(geometry: NgsiLdGeometry) -> (value: GeometryValue)
        ensures
            value == value_of(geometry),
            value_model(value) == Ok::<GeometryModel, GeometryError>(geometry@),
    {
        match geometry {
            NgsiLdGeometry::Point { coordinates } => GeometryValue::Point { coordinates },
            NgsiLdGeometry::MultiPoint { coordinates } => GeometryValue::MultiPoint { coordinates },
            NgsiLdGeometry::LineString { coordinates } => GeometryValue::LineString { coordinates },
            NgsiLdGeometry::MultiLineString { coordinates } => GeometryValue::MultiLineString { coordinates },
            NgsiLdGeometry::Polygon { coordinates } => GeometryValue::Polygon { coordinates },
            NgsiLdGeometry::MultiPolygon { coordinates } => GeometryValue::MultiPolygon { coordinates },
        }
    }

    /// Writes a borrowed geometry as its RFC 7946 value, copying the coordinates: the same value,
    /// as a model, that writing the geometry itself gives.
    pub fn from_ref(geometry: &NgsiLdGeometry) -> (value: GeometryValue)
        ensures
            value_model(value) == value_model(value_of(*geometry)),
            value_model(value) == Ok::<GeometryModel, GeometryError>(geometry@),
    {
        match geometry {
            NgsiLdGeometry::Point { coordinates } => GeometryValue::Point { coordinates: copy_position(coordinates) },
            NgsiLdGeometry::MultiPoint { coordinates } => GeometryValue::MultiPoint {
                coordinates: copy_positions(coordinates),
            },
            NgsiLdGeometry::LineString { coordinates } => GeometryValue::LineString {
                coordinates: copy_positions(coordinates),
            },
            NgsiLdGeometry::MultiLineString { coordinates } => GeometryValue::MultiLineString {
                coordinates: copy_lines(coordinates),
            },
            NgsiLdGeometry::Polygon { coordinates } => GeometryValue::Polygon { coordinates: copy_lines(coordinates) },
            NgsiLdGeometry::MultiPolygon { coordinates } => GeometryValue::MultiPolygon {
                coordinates: copy_polygons(coordinates),
            },
        }
    }
}

/// Writing a geometry as its RFC 7946 value and admitting that value again gives the geometry
/// back: the value is never a `GeometryCollection`, and it carries the same type and coordinates.
pub proof fn lemma_value_round_trip(geometry: NgsiLdGeometry)
    ensures
        value_model(value_of(geometry)) == Ok::<GeometryModel, GeometryError>(geometry@),
        !(value_of(geometry) is GeometryCollection),
{
}

/// The members gathered while folding a `GeometryCollection`, one bucket per dimension.
///
/// The bucket opened by the first member decides which later members are admissible: anything
/// landing in another bucket makes the collection mixed.
enum Fold {
    Points(Vec<Position>),
    Lines(Vec<LineStringType>),
    Areas(Vec<PolygonType>),
}

impl Fold {
    /// The dimension this bucket gathers.
    spec fn dimension(&self) -> Dimension {
        match self {
            Fold::Points(_) => Dimension::Point,
            Fold::Lines(_) => Dimension::Line,
            Fold::Areas(_) => Dimension::Area,
        }
    }

    /// The bucket holds exactly what these members contribute.
    spec fn holds(&self, members: Seq<GeometryModel>) -> bool {
        match self {
            Fold::Points(points) => points.deep_view() == joined(
                point_parts(members),
            ),
            Fold::Lines(lines) => lines.deep_view() == joined(
                line_parts(members),
            ),
            Fold::Areas(areas) => areas.deep_view() == joined(
                area_parts(members),
            ),
        }
    }

    /// Opens the bucket for a dimension.
    fn for_dimension(dimension: Dimension) -> (fold: Fold)
        ensures
            fold.dimension() == dimension,
            fold.holds(Seq::empty()),
    {
        proof {
            assert(point_parts(Seq::empty()) =~= Seq::empty());
            assert(line_parts(Seq::empty()) =~= Seq::empty());
            assert(area_parts(Seq::empty()) =~= Seq::empty());
        }
        match dimension {
            Dimension::Point => {
                let points: Vec<Position> = Vec::new();
                assert(points.deep_view() =~= Seq::empty());
                Fold::Points(points)
            },
            Dimension::Line => {
                let lines: Vec<LineStringType> = Vec::new();
                assert(lines.deep_view() =~= Seq::empty());
                Fold::Lines(lines)
            },
            Dimension::Area => {
                let areas: Vec<PolygonType> = Vec::new();
                assert(areas.deep_view() =~= Seq::empty());
                Fold::Areas(areas)
            },
        }
    }

    /// Adds one member's coordinates, refusing a member of another dimension.
    fn accept(&mut self, member: NgsiLdGeometry, Ghost(members): Ghost<Seq<GeometryModel>>) -> (result: Result<
        (),
        GeometryError,
    >)
        requires
            old(self).holds(members),
        ensures
            final(self).dimension() == old(self).dimension(),
            result is Ok <==> model_dimension(member@) == old(self).dimension(),
            result matches Err(error) ==> error == GeometryError::MixedCollection,
            result is Ok ==> final(self).holds(members.push(member@)),
    {
        let ghost model = member@;
        let ghost extended = members.push(model);
        proof {
            assert(point_parts(extended) =~= point_parts(members).push(point_part(model)));
            assert(line_parts(extended) =~= line_parts(members).push(line_part(model)));
            assert(area_parts(extended) =~= area_parts(members).push(area_part(model)));
            lemma_joined_push(point_parts(members), point_part(model));
            lemma_joined_push(line_parts(members), line_part(model));
            lemma_joined_push(area_parts(members), area_part(model));
        }
        match (self, member) {
            (Fold::Points(points), NgsiLdGeometry::Point { coordinates }) => {
                let ghost before = points.deep_view();
                points.push(coordinates);
                assert(points.deep_view() =~= before + point_part(model));
            },
            (Fold::Points(points), NgsiLdGeometry::MultiPoint { mut coordinates }) => {
                let ghost before = points.deep_view();
                points.append(&mut coordinates);
                assert(points.deep_view() =~= before + point_part(model));
            },
            (Fold::Lines(lines), NgsiLdGeometry::LineString { coordinates }) => {
                let ghost before = lines.deep_view();
                lines.push(coordinates);
                assert(lines.deep_view() =~= before + line_part(model));
            },
            (Fold::Lines(lines), NgsiLdGeometry::MultiLineString { mut coordinates }) => {
                let ghost before = lines.deep_view();
                lines.append(&mut coordinates);
                assert(lines.deep_view() =~= before + line_part(model));
            },
            (Fold::Areas(areas), NgsiLdGeometry::Polygon { coordinates }) => {
                let ghost before = areas.deep_view();
                areas.push(coordinates);
                assert(areas.deep_view() =~= before + area_part(model));
            },
            (Fold::Areas(areas), NgsiLdGeometry::MultiPolygon { mut coordinates }) => {
                let ghost before = areas.deep_view();
                areas.append(&mut coordinates);
                assert(areas.deep_view() =~= before + area_part(model));
            },
            _ => return Err(GeometryError::MixedCollection),
        }
        Ok(())
    }

    /// Closes the bucket into the multi-geometry of its dimension.
    fn into_geometry(self, Ghost(members): Ghost<Seq<GeometryModel>>) -> (geometry: NgsiLdGeometry)
        requires
            self.holds(members),
        ensures
            geometry@ == (match self.dimension() {
                Dimension::Point => GeometryModel::MultiPoint(
                    joined(point_parts(members)),
                ),
                Dimension::Line => GeometryModel::MultiLineString(
                    joined(line_parts(members)),
                ),
                Dimension::Area => GeometryModel::MultiPolygon(
                    joined(area_parts(members)),
                ),
            }),
    {
        match self {
            Fold::Points(coordinates) => NgsiLdGeometry::MultiPoint { coordinates },
            Fold::Lines(coordinates) => NgsiLdGeometry::MultiLineString { coordinates },
            Fold::Areas(coordinates) => NgsiLdGeometry::MultiPolygon { coordinates },
        }
    }
}

/// Merges already-admitted members into one geometry, keeping a lone member's own type.
pub fn fold(members: Vec<NgsiLdGeometry>) -> (result: Result<NgsiLdGeometry, GeometryError>)
    ensures
        outcome_model(result) == spec_fold(members@.map_values(|m: NgsiLdGeometry| m@)),
{
    let ghost models = members@.map_values(|m: NgsiLdGeometry| m@);
    let mut rest = members;
    if rest.len() == 0 {
        return Err(GeometryError::EmptyGeometry);
    }
    if rest.len() == 1 {
        return Ok(rest.swap_remove(0));
    }
    let dimension = rest[0].kind().dimension();
    let mut bucket = Fold::for_dimension(dimension);
    let mut i: usize = 0;
    while rest.len() > 0
        invariant
            models == members@.map_values(|m: NgsiLdGeometry| m@),
            models.len() > 1,
            models.len() <= usize::MAX,
            i + rest@.len() == models.len(),
            dimension == model_dimension(models[0]),
            bucket.dimension() == dimension,
            forall|j: int| 0 <= j < rest@.len() ==> #[trigger] rest@[j]@ == models[i + j],
            forall|j: int| 0 <= j < i ==> #[trigger] model_dimension(models[j]) == dimension,
            bucket.holds(models.take(i as int)),
        decreases rest@.len(),
    {
        let ghost before = rest@;
        let member = rest.remove(0);
        assert(member@ == models[i as int]);
        assert(models.take(i as int).push(member@) =~= models.take(i + 1));
        match bucket.accept(member, Ghost(models.take(i as int))) {
            Ok(()) => {},
            Err(error) => {
                assert(model_dimension(models[i as int]) != model_dimension(models[0]));
                assert(exists|k: int|
                    0 <= k < models.len() && #[trigger] model_dimension(models[k]) != model_dimension(
                        models[0],
                    ));
                return Err(error);
            },
        }
        i = i + 1;
        assert forall|j: int| 0 <= j < rest@.len() implies #[trigger] rest@[j]@ == models[i + j] by {
            assert(rest@[j] == before[j + 1]);
        }
    }
    assert(models.take(i as int) =~= models);
    Ok(bucket.into_geometry(Ghost(models)))
}

/// Folds a `GeometryCollection`'s members into one admissible geometry.
///
/// This is what the opt-in `flatten` conversion performs: a lone member becomes that geometry,
/// members that all span the same dimension become the multi-geometry of that dimension, and a
/// nested collection is folded first and contributes its own members.
pub fn fold_collection(geometries: Vec<GeometryValue>) -> (result: Result<NgsiLdGeometry, GeometryError>)
    ensures
        outcome_model(result) == spec_fold_collection(geometries),
    decreases geometries, 1int,
{
    let ghost initial = geometries;
    let mut remaining = geometries;
    let mut members: Vec<NgsiLdGeometry> = Vec::new();
    let mut i: usize = 0;
    assert(members@.map_values(|m: NgsiLdGeometry| m@) =~= Seq::empty());
    while i < remaining.len()
        invariant
            initial == geometries,
            initial@.len() == remaining@.len(),
            i <= remaining@.len(),
            forall|j: int| i <= j < remaining@.len() ==> #[trigger] remaining@[j] == initial@[j],
            admit_prefix(initial, i as int) == Ok::<Seq<GeometryModel>, GeometryError>(
                members@.map_values(|m: NgsiLdGeometry| m@),
            ),
        decreases remaining@.len() - i,
    {
        let member = take_at(&mut remaining, i);
        proof {
            vstd::std_specs::vec::axiom_vec_index_decreases(initial, i as int);
            assert(member == initial@[i as int]);
            assert(decreases_to!(geometries => member));
        }
        match admit_member(member) {
            Ok(geometry) => {
                let ghost before = members@.map_values(|m: NgsiLdGeometry| m@);
                members.push(geometry);
                assert(members@.map_values(|m: NgsiLdGeometry| m@) =~= before.push(geometry@));
            },
            Err(error) => {
                proof {
                    lemma_admit_failure_persists(initial, i as int + 1);
                }
                return Err(error);
            },
        }
        i = i + 1;
    }
    fold(members)
}

/// A refusal among the first `n` members is the refusal of the whole collection.
proof fn lemma_admit_failure_persists(geometries: Vec<GeometryValue>, n: int)
    requires
        0 <= n <= geometries@.len(),
        admit_prefix(geometries, n) is Err,
    ensures
        admit_prefix(geometries, geometries@.len() as int) == admit_prefix(geometries, n),
    decreases geometries@.len() - n,
{
    if n < geometries@.len() {
        lemma_admit_failure_persists(geometries, n + 1);
    }
}

/// Admits one collection member, folding it first when it is itself a collection.
fn admit_member(geometry: GeometryValue) -> (result: Result<NgsiLdGeometry, GeometryError>)
    ensures
        outcome_model(result) == spec_admit(geometry),
    decreases geometry, 0int,
{
    match geometry {
        GeometryValue::GeometryCollection { geometries } => {
            proof {
                assert(decreases_to!(geometry => geometries));
            }
            fold_collection(geometries)
        },
        value => NgsiLdGeometry::try_from(value),
    }
}

} // verus!
