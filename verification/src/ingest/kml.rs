//! KML documents turned into records: each placemark becomes a `GeoJSON`-shaped record carrying
//! its properties and geometry, tagged with the folder it sits in.

use crate::geometry::error::GeometryError;
use crate::geometry::lattice::outcome_model;
use crate::geometry::rfc7946::{fold, spec_fold};
use crate::geometry::shape::{GeometryModel, NgsiLdGeometry};
use crate::ingest::geometry_json::{geometry_json, geometry_value};
use crate::lists::reversed;
use crate::record::{inserted, json_model, JsonModel, JsonObject, JsonValue, Record};
use crate::text::{owned, same_text};
use vstd::prelude::*;

verus! {

/// Errors that can occur while parsing KML or KMZ input.
#[derive(Debug)]
pub enum KmlIngestError {
    /// The KML/KMZ ingestor was handed an in-memory byte payload; it needs a file.
    RequiresFile,
    /// The input could not be parsed as KML; the parser's message is kept.
    Read(String),
}

/// A generic KML element: its name, attributes, text content and child elements.
#[derive(Debug)]
pub struct KmlElement {
    pub name: String,
    pub attributes: Vec<(String, String)>,
    pub content: Option<String>,
    pub children: Vec<KmlElement>,
}

/// A KML geometry; coordinates are the bits of each `f64` longitude and latitude.
#[derive(Debug)]
pub enum KmlGeometry {
    Point { x: u64, y: u64 },
    LineString(Vec<(u64, u64)>),
    LinearRing(Vec<(u64, u64)>),
    Polygon { outer: Vec<(u64, u64)>, inner: Vec<Vec<(u64, u64)>> },
    MultiGeometry(Vec<KmlGeometry>),
    /// A geometry kind with no `GeoJSON` counterpart.
    Other,
}

/// A KML placemark: its name, description, attributes, geometry and other child elements.
#[derive(Debug)]
pub struct Placemark {
    pub name: Option<String>,
    pub description: Option<String>,
    pub attributes: Vec<(String, String)>,
    pub geometry: Option<KmlGeometry>,
    pub children: Vec<KmlElement>,
}

/// A node of a KML document tree: a container, a placemark, or anything else.
#[derive(Debug)]
pub enum KmlNode {
    /// The document root or a `Document` element.
    Document(Vec<KmlNode>),
    /// A `Folder`, with its name when it has one.
    Folder { name: Option<String>, elements: Vec<KmlNode> },
    Placemark(Placemark),
    /// An element that holds no placemarks.
    Other,
}

/// The value of the first attribute named `key`.
pub open spec fn attribute_value(attributes: Seq<(String, String)>, key: Seq<char>) -> Option<Seq<char>>
    decreases attributes.len(),
{
    if attributes.len() == 0 {
        None
    } else if attributes[0].0@ == key {
        Some(attributes[0].1@)
    } else {
        attribute_value(attributes.drop_first(), key)
    }
}

/// The value of the first attribute named `key`.
fn attribute<'a>(attributes: &'a Vec<(String, String)>, key: &str) -> (value: Option<&'a String>)
    ensures
        match value {
            Some(v) => attribute_value(attributes@, key@) == Some(v@),
            None => attribute_value(attributes@, key@) is None,
        },
{
    let mut i: usize = 0;
    assert(attributes@.skip(0) =~= attributes@);
    while i < attributes.len()
        invariant
            i <= attributes@.len(),
            attribute_value(attributes@.skip(i as int), key@) == attribute_value(attributes@, key@),
        decreases attributes@.len() - i,
    {
        assert(attributes@.skip(i as int).drop_first() =~= attributes@.skip(i + 1));
        if same_text(attributes[i].0.as_str(), key) {
            return Some(&attributes[i].1);
        }
        i = i + 1;
    }
    assert(attributes@.skip(i as int) =~= Seq::<(String, String)>::empty());
    None
}

/// An element's text content, or the empty text.
pub open spec fn content_text(content: Option<String>) -> Seq<char> {
    match content {
        Some(c) => c@,
        None => Seq::empty(),
    }
}

/// The properties after `SchemaData` children contribute each named `SimpleData`'s content.
pub open spec fn with_simple_data(properties: Seq<(Seq<char>, JsonModel)>, children: Seq<KmlElement>) -> Seq<
    (Seq<char>, JsonModel),
>
    decreases children.len(),
{
    if children.len() == 0 {
        properties
    } else {
        let before = with_simple_data(properties, children.drop_last());
        let child = children.last();
        match attribute_value(child.attributes@, "name"@) {
            Some(name) => if child.name@ == "SimpleData"@ {
                inserted(before, name, JsonModel::Text(content_text(child.content)))
            } else {
                before
            },
            None => before,
        }
    }
}

/// The properties after a `Data` element named `name` contributes each `value` child's content.
pub open spec fn with_data_values(
    properties: Seq<(Seq<char>, JsonModel)>,
    name: Seq<char>,
    children: Seq<KmlElement>,
) -> Seq<(Seq<char>, JsonModel)>
    decreases children.len(),
{
    if children.len() == 0 {
        properties
    } else {
        let before = with_data_values(properties, name, children.drop_last());
        let child = children.last();
        if child.name@ == "value"@ {
            inserted(before, name, JsonModel::Text(content_text(child.content)))
        } else {
            before
        }
    }
}

/// The properties after the children of one `ExtendedData` element contribute theirs.
pub open spec fn with_extended_children(properties: Seq<(Seq<char>, JsonModel)>, children: Seq<KmlElement>) -> Seq<
    (Seq<char>, JsonModel),
>
    decreases children.len(),
{
    if children.len() == 0 {
        properties
    } else {
        let before = with_extended_children(properties, children.drop_last());
        let child = children.last();
        let schema = if child.name@ == "SchemaData"@ {
            with_simple_data(before, child.children@)
        } else {
            before
        };
        if child.name@ == "Data"@ {
            match attribute_value(child.attributes@, "name"@) {
                Some(name) => with_data_values(schema, name, child.children@),
                None => schema,
            }
        } else {
            schema
        }
    }
}

/// The properties after every `ExtendedData` child of a placemark contributes its values.
pub open spec fn with_extended_data(properties: Seq<(Seq<char>, JsonModel)>, children: Seq<KmlElement>) -> Seq<
    (Seq<char>, JsonModel),
>
    decreases children.len(),
{
    if children.len() == 0 {
        properties
    } else {
        let before = with_extended_data(properties, children.drop_last());
        let child = children.last();
        if child.name@ == "ExtendedData"@ {
            with_extended_children(before, child.children@)
        } else {
            before
        }
    }
}

/// An element's text content, or the empty text, as an owned string.
fn content_of(content: &Option<String>) -> (text: String)
    ensures
        text@ == content_text(*content),
{
    match content {
        Some(c) => c.clone(),
        None => String::new(),
    }
}

/// Extracts properties from `ExtendedData` child elements into `properties`.
///
/// Handles both the `SchemaData`/`SimpleData` shape and direct `Data`/`value` elements, the two
/// ways KML attaches typed attributes to a placemark.
pub fn extract_extended_data(children: &Vec<KmlElement>, properties: &mut JsonObject)
    ensures
        final(properties)@ == with_extended_data(old(properties)@, children@),
{
    let ghost start = properties@;
    let mut i: usize = 0;
    while i < children.len()
        invariant
            i <= children@.len(),
            properties@ == with_extended_data(start, children@.take(i as int)),
        decreases children@.len() - i,
    {
        assert(children@.take(i + 1).drop_last() =~= children@.take(i as int));
        let child = &children[i];
        if same_text(child.name.as_str(), "ExtendedData") {
            let ghost outer = properties@;
            let mut j: usize = 0;
            while j < child.children.len()
                invariant
                    j <= child.children@.len(),
                    properties@ == with_extended_children(outer, child.children@.take(j as int)),
                decreases child.children@.len() - j,
            {
                assert(child.children@.take(j + 1).drop_last() =~= child.children@.take(j as int));
                let extended_child = &child.children[j];
                if same_text(extended_child.name.as_str(), "SchemaData") {
                    let ghost schema_start = properties@;
                    let mut k: usize = 0;
                    while k < extended_child.children.len()
                        invariant
                            k <= extended_child.children@.len(),
                            properties@ == with_simple_data(
                                schema_start,
                                extended_child.children@.take(k as int),
                            ),
                        decreases extended_child.children@.len() - k,
                    {
                        assert(extended_child.children@.take(k + 1).drop_last()
                            =~= extended_child.children@.take(k as int));
                        let schema_child = &extended_child.children[k];
                        if same_text(schema_child.name.as_str(), "SimpleData") {
                            if let Some(name) = attribute(&schema_child.attributes, "name") {
                                properties.insert(
                                    name.clone(),
                                    JsonValue::Text(content_of(&schema_child.content)),
                                );
                            }
                        }
                        k = k + 1;
                    }
                    assert(extended_child.children@.take(k as int) =~= extended_child.children@);
                }
                if same_text(extended_child.name.as_str(), "Data") {
                    if let Some(name) = attribute(&extended_child.attributes, "name") {
                        let ghost data_start = properties@;
                        let mut k: usize = 0;
                        while k < extended_child.children.len()
                            invariant
                                k <= extended_child.children@.len(),
                                properties@ == with_data_values(
                                    data_start,
                                    name@,
                                    extended_child.children@.take(k as int),
                                ),
                            decreases extended_child.children@.len() - k,
                        {
                            assert(extended_child.children@.take(k + 1).drop_last()
                                =~= extended_child.children@.take(k as int));
                            let data_child = &extended_child.children[k];
                            if same_text(data_child.name.as_str(), "value") {
                                properties.insert(
                                    name.clone(),
                                    JsonValue::Text(content_of(&data_child.content)),
                                );
                            }
                            k = k + 1;
                        }
                        assert(extended_child.children@.take(k as int) =~= extended_child.children@);
                    }
                }
                j = j + 1;
            }
            assert(child.children@.take(j as int) =~= child.children@);
        }
        i = i + 1;
    }
    assert(children@.take(i as int) =~= children@);
}

/// The placemarks under a node, in document order, each with the name of its nearest named
/// enclosing folder.
pub open spec fn placemarks_in(node: KmlNode, folder: Option<Seq<char>>) -> Seq<(Option<Seq<char>>, Placemark)>
    decreases node, 1int,
{
    match node {
        KmlNode::Document(elements) => placemarks_in_all(elements, elements@.len() as int, folder),
        KmlNode::Folder { name, elements } => placemarks_in_all(
            elements,
            elements@.len() as int,
            match name {
                Some(n) => Some(n@),
                None => folder,
            },
        ),
        KmlNode::Placemark(placemark) => seq![(folder, placemark)],
        KmlNode::Other => Seq::empty(),
    }
}

/// The placemarks under the first `n` nodes, in document order.
pub open spec fn placemarks_in_all(nodes: Vec<KmlNode>, n: int, folder: Option<Seq<char>>) -> Seq<
    (Option<Seq<char>>, Placemark),
>
    decreases nodes, n,
{
    if n <= 0 || n > nodes@.len() {
        Seq::empty()
    } else {
        placemarks_in_all(nodes, n - 1, folder) + placemarks_in(nodes@[n - 1], folder)
    }
}

/// Recursively collects all placemarks, tracking the enclosing folder name so it can be injected
/// as a property.
pub fn collect_placemarks(
    kml: KmlNode,
    folder_name: Option<String>,
    placemarks: &mut Vec<(Option<String>, Placemark)>,
)
    ensures
        Seq::new(final(placemarks)@.len(), |i: int| (optional_text(final(placemarks)@[i].0), final(placemarks)@[i].1))
            == Seq::new(old(placemarks)@.len(), |i: int| (optional_text(old(placemarks)@[i].0), old(placemarks)@[i].1))
            + placemarks_in(kml, optional_text(folder_name)),
    decreases kml, 1int,
{
    let ghost initial = kml;
    match kml {
        KmlNode::Document(elements) => {
            proof {
                assert(decreases_to!(initial => initial->Document_0));
            }
            collect_all(elements, folder_name, placemarks, Ghost(initial));
        },
        KmlNode::Folder { name, elements } => {
            proof {
                assert(decreases_to!(initial => initial->elements));
            }
            let inner = match name {
                Some(n) => Some(n),
                None => folder_name,
            };
            collect_all(elements, inner, placemarks, Ghost(initial));
        },
        KmlNode::Placemark(placemark) => {
            let ghost before = Seq::new(placemarks@.len(), |i: int| (optional_text(placemarks@[i].0), placemarks@[i].1));
            placemarks.push((folder_name, placemark));
            assert(Seq::new(placemarks@.len(), |i: int| (optional_text(placemarks@[i].0), placemarks@[i].1))
                =~= before + seq![(optional_text(folder_name), placemark)]);
        },
        KmlNode::Other => {
            assert(Seq::new(placemarks@.len(), |i: int| (optional_text(placemarks@[i].0), placemarks@[i].1))
                =~= Seq::new(placemarks@.len(), |i: int| (optional_text(placemarks@[i].0), placemarks@[i].1))
                + Seq::<(Option<Seq<char>>, Placemark)>::empty());
        },
    }
}

/// The text of an optional string.
pub open spec fn optional_text(text: Option<String>) -> Option<Seq<char>> {
    match text {
        Some(s) => Some(s@),
        None => None,
    }
}

/// Collects the placemarks under each node in turn.
fn collect_all(
    elements: Vec<KmlNode>,
    folder_name: Option<String>,
    placemarks: &mut Vec<(Option<String>, Placemark)>,
    Ghost(parent): Ghost<KmlNode>,
)
    requires
        decreases_to!(parent => elements),
    ensures
        Seq::new(final(placemarks)@.len(), |i: int| (optional_text(final(placemarks)@[i].0), final(placemarks)@[i].1))
            == Seq::new(old(placemarks)@.len(), |i: int| (optional_text(old(placemarks)@[i].0), old(placemarks)@[i].1))
            + placemarks_in_all(elements, elements@.len() as int, optional_text(folder_name)),
    decreases parent, 0int,
{
    let ghost initial = elements;
    let ghost folder = optional_text(folder_name);
    let ghost start = Seq::new(placemarks@.len(), |i: int| (optional_text(placemarks@[i].0), placemarks@[i].1));
    let total = elements.len();
    let mut rest = reversed(elements);
    let mut i: usize = 0;
    while i < total
        invariant
            total == initial@.len(),
            rest@.len() == total - i,
            forall|k: int| 0 <= k < rest@.len() ==> (#[trigger] rest@[k]) == initial@[total - 1 - k],
            folder == optional_text(folder_name),
            decreases_to!(parent => initial),
            Seq::new(placemarks@.len(), |j: int| (optional_text(placemarks@[j].0), placemarks@[j].1))
                == start + placemarks_in_all(initial, i as int, folder),
        decreases total - i,
    {
        let element = rest.pop().unwrap();
        assert(element == initial@[i as int]);
        proof {
            vstd::std_specs::vec::axiom_vec_index_decreases(initial, i as int);
        }
        let folder_copy = match &folder_name {
            Some(n) => Some(n.clone()),
            None => None,
        };
        let ghost before = Seq::new(placemarks@.len(), |j: int| (optional_text(placemarks@[j].0), placemarks@[j].1));
        collect_placemarks(element, folder_copy, placemarks);
        assert(placemarks_in_all(initial, i + 1, folder) == placemarks_in_all(initial, i as int, folder)
            + placemarks_in(initial@[i as int], folder));
        i = i + 1;
    }
}

/// A KML coordinate as a `GeoJSON` position: its longitude and latitude.
pub open spec fn coord_position(coord: (u64, u64)) -> Seq<u64> {
    seq![coord.0, coord.1]
}

/// KML coordinates as `GeoJSON` positions.
pub open spec fn coords_positions(coords: Seq<(u64, u64)>) -> Seq<Seq<u64>> {
    Seq::new(coords.len(), |i: int| coord_position(coords[i]))
}

/// The `GeoJSON` geometry a KML geometry converts to, if it has one.
///
/// A `LinearRing` maps to a `LineString`, matching a standalone ring's meaning. A `MultiGeometry`
/// folds into the multi-geometry of its members' family: a lone member keeps its own type, and
/// members mixing families, or none at all, have no counterpart.
pub open spec fn kml_geometry(geometry: KmlGeometry) -> Option<GeometryModel>
    decreases geometry, 1int,
{
    match geometry {
        KmlGeometry::Point { x, y } => Some(GeometryModel::Point(seq![x, y])),
        KmlGeometry::LineString(coords) => Some(GeometryModel::LineString(coords_positions(coords@))),
        KmlGeometry::LinearRing(coords) => Some(GeometryModel::LineString(coords_positions(coords@))),
        KmlGeometry::Polygon { outer, inner } => Some(
            GeometryModel::Polygon(
                seq![coords_positions(outer@)] + Seq::new(
                    inner@.len(),
                    |i: int| coords_positions(inner@[i]@),
                ),
            ),
        ),
        KmlGeometry::MultiGeometry(members) => match spec_fold(kml_members(members, members@.len() as int)) {
            Ok(model) => Some(model),
            Err(_) => None,
        },
        KmlGeometry::Other => None,
    }
}

/// The converted geometries of the first `n` members, skipping those with no counterpart.
pub open spec fn kml_members(members: Vec<KmlGeometry>, n: int) -> Seq<GeometryModel>
    decreases members, n,
{
    if n <= 0 || n > members@.len() {
        Seq::empty()
    } else {
        let rest = kml_members(members, n - 1);
        match kml_geometry(members@[n - 1]) {
            Some(model) => rest.push(model),
            None => rest,
        }
    }
}

/// KML coordinates as `GeoJSON` positions.
fn positions_of(coords: &Vec<(u64, u64)>) -> (positions: Vec<Vec<u64>>)
    ensures
        positions.deep_view() == coords_positions(coords@),
{
    let mut positions: Vec<Vec<u64>> = Vec::new();
    let mut i: usize = 0;
    while i < coords.len()
        invariant
            i <= coords@.len(),
            positions.deep_view() == coords_positions(coords@).take(i as int),
        decreases coords@.len() - i,
    {
        let (x, y) = coords[i];
        let mut position: Vec<u64> = Vec::new();
        position.push(x);
        position.push(y);
        assert(position.deep_view() =~= seq![x, y]);
        let ghost before = positions.deep_view();
        positions.push(position);
        assert(positions.deep_view() =~= before.push(seq![x, y]));
        assert(coords_positions(coords@).take(i + 1) =~= coords_positions(coords@).take(i as int).push(
            seq![x, y],
        ));
        i = i + 1;
    }
    assert(coords_positions(coords@).take(i as int) =~= coords_positions(coords@));
    positions
}

/// Converts a KML geometry into the geometry it corresponds to, folding a `MultiGeometry` as it
/// goes.
pub fn to_geometry_value(geometry: &KmlGeometry) -> (converted: Option<NgsiLdGeometry>)
    ensures
        match converted {
            Some(g) => kml_geometry(*geometry) == Some(g@),
            None => kml_geometry(*geometry) is None,
        },
    decreases geometry,
{
    match geometry {
        KmlGeometry::Point { x, y } => {
            let mut coordinates: Vec<u64> = Vec::new();
            coordinates.push(*x);
            coordinates.push(*y);
            assert(coordinates.deep_view() =~= seq![*x, *y]);
            Some(NgsiLdGeometry::Point { coordinates })
        },
        KmlGeometry::LineString(coords) => Some(NgsiLdGeometry::LineString { coordinates: positions_of(coords) }),
        KmlGeometry::LinearRing(coords) => Some(NgsiLdGeometry::LineString { coordinates: positions_of(coords) }),
        KmlGeometry::Polygon { outer, inner } => {
            let mut rings: Vec<Vec<Vec<u64>>> = Vec::new();
            rings.push(positions_of(outer));
            let ghost expected = seq![coords_positions(outer@)] + Seq::new(
                inner@.len(),
                |i: int| coords_positions(inner@[i]@),
            );
            let mut i: usize = 0;
            while i < inner.len()
                invariant
                    i <= inner@.len(),
                    expected == seq![coords_positions(outer@)] + Seq::new(
                        inner@.len(),
                        |i: int| coords_positions(inner@[i]@),
                    ),
                    rings.deep_view() == expected.take(i + 1),
                decreases inner@.len() - i,
            {
                let ring = positions_of(&inner[i]);
                let ghost before = rings.deep_view();
                rings.push(ring);
                assert(rings.deep_view() =~= before.push(coords_positions(inner@[i as int]@)));
                assert(expected.take(i + 2) =~= expected.take(i + 1).push(expected[i + 1]));
                i = i + 1;
            }
            assert(expected.take(i + 1) =~= expected);
            Some(NgsiLdGeometry::Polygon { coordinates: rings })
        },
        KmlGeometry::MultiGeometry(members) => {
            let mut converted: Vec<NgsiLdGeometry> = Vec::new();
            let mut i: usize = 0;
            while i < members.len()
                invariant
                    *geometry == KmlGeometry::MultiGeometry(*members),
                    i <= members@.len(),
                    converted@.map_values(|m: NgsiLdGeometry| m@) == kml_members(*members, i as int),
                decreases members@.len() - i,
            {
                proof {
                    vstd::std_specs::vec::axiom_vec_index_decreases(*members, i as int);
                    assert(decreases_to!(*geometry => (*geometry)->MultiGeometry_0));
                }
                let ghost before = converted@.map_values(|m: NgsiLdGeometry| m@);
                match to_geometry_value(&members[i]) {
                    Some(member) => {
                        converted.push(member);
                        assert(converted@.map_values(|m: NgsiLdGeometry| m@) =~= before.push(member@));
                    },
                    None => {},
                }
                i = i + 1;
            }
            match fold(converted) {
                Ok(folded) => Some(folded),
                Err(_) => None,
            }
        },
        KmlGeometry::Other => None,
    }
}

/// Converts a KML geometry into a `GeoJSON` geometry object, or nothing when it has no
/// `GeoJSON` counterpart.
pub fn kml_geometry_to_geojson(geometry: &KmlGeometry) -> (value: Option<JsonValue>)
    ensures
        match value {
            Some(v) => kml_geometry(*geometry) matches Some(model) && json_model(v) == geometry_json(model),
            None => kml_geometry(*geometry) is None,
        },
{
    match to_geometry_value(geometry) {
        Some(converted) => Some(geometry_value(&converted)),
        None => None,
    }
}

/// The `snake_case` form `convert_case` gives a text: a function of the text alone.
pub uninterp spec fn snake_cased(text: Seq<char>) -> Seq<char>;

/// The `snake_case` form of a folder name: `convert_case::Converter` set to `Case::Snake`, which
/// is what `ccase!(snake, ..)` builds. The contract claims only that the result is
/// [`snake_cased`] of the text; how words are split and joined is the crate's and is not stated.
#[verifier::external_body]
fn snake_case(text: &str) -> (snake: String)
    ensures
        snake@ == snake_cased(text@),
{
    convert_case::Converter::new().to_case(convert_case::Case::Snake).convert(text)
}

/// A placemark's `properties`: its folder, name and description, then its extended data.
pub open spec fn placemark_properties(folder: Option<Seq<char>>, placemark: Placemark) -> Seq<
    (Seq<char>, JsonModel),
> {
    let foldered = match folder {
        Some(f) => inserted(Seq::empty(), "folder"@, JsonModel::Text(f)),
        None => Seq::empty(),
    };
    let named = match placemark.name {
        Some(n) => inserted(foldered, "name"@, JsonModel::Text(n@)),
        None => foldered,
    };
    let described = match placemark.description {
        Some(d) => inserted(named, "description"@, JsonModel::Text(d@)),
        None => named,
    };
    with_extended_data(described, placemark.children@)
}

/// A placemark's record data: its `id`, `geometry` and `properties`, nested under `namespace`
/// when it has one.
pub open spec fn placemark_data(
    folder: Option<Seq<char>>,
    namespace: Option<Seq<char>>,
    placemark: Placemark,
) -> Seq<(Seq<char>, JsonModel)> {
    let identified = match attribute_value(placemark.attributes@, "id"@) {
        Some(id) => inserted(Seq::empty(), "id"@, JsonModel::Text(id)),
        None => Seq::empty(),
    };
    let located = match placemark.geometry {
        Some(geometry) => match kml_geometry(geometry) {
            Some(model) => inserted(identified, "geometry"@, geometry_json(model)),
            None => identified,
        },
        None => identified,
    };
    let inner = inserted(located, "properties"@, JsonModel::Object(placemark_properties(folder, placemark)));
    match namespace {
        Some(ns) => seq![(ns, JsonModel::Object(inner))],
        None => inner,
    }
}

/// Converts a KML placemark into a `GeoJSON`-style record.
///
/// When `namespace` is set (derived from the enclosing folder name), the record is nested under
/// that key so several folders can contribute different data to the same entity. The routing
/// `collection` keeps the folder name verbatim, while `namespace` is its `snake_case` form.
pub fn placemark_to_record(
    folder_name: Option<String>,
    namespace: Option<String>,
    placemark: Placemark,
    collection: Option<String>,
) -> (record: Record)
    ensures
        record@ == (
            optional_text(collection),
            placemark_data(optional_text(folder_name), optional_text(namespace), placemark),
        ),
{
    let ghost initial = placemark;
    let mut properties = JsonObject::new();
    if let Some(folder) = folder_name {
        properties.insert(owned("folder"), JsonValue::Text(folder));
    }
    let Placemark { name, description, attributes, geometry, children } = placemark;
    if let Some(name) = name {
        properties.insert(owned("name"), JsonValue::Text(name));
    }
    if let Some(description) = description {
        properties.insert(owned("description"), JsonValue::Text(description));
    }
    extract_extended_data(&children, &mut properties);
    let ghost properties_model = properties@;
    assert(properties_model == placemark_properties(optional_text(folder_name), initial));
    let mut inner = JsonObject::new();
    if let Some(id) = attribute(&attributes, "id") {
        inner.insert(owned("id"), JsonValue::Text(id.clone()));
    }
    if let Some(geometry) = &geometry {
        if let Some(geo_json) = kml_geometry_to_geojson(geometry) {
            inner.insert(owned("geometry"), geo_json);
        }
    }
    inner.insert(owned("properties"), JsonValue::Object(properties));
    let data = match namespace {
        Some(ns) => {
            let ghost inner_model = inner@;
            let mut root = JsonObject::new();
            root.insert(ns, JsonValue::Object(inner));
            root
        },
        None => inner,
    };
    Record::new(collection, data)
}

/// The records of a KML document's placemarks, in document order: each tagged with its folder's
/// verbatim name as its collection and nested under the folder name's `snake_case` form.
pub open spec fn placemark_records_model(kml: KmlNode) -> Seq<(Option<Seq<char>>, Seq<(Seq<char>, JsonModel)>)> {
    let found = placemarks_in(kml, None);
    Seq::new(
        found.len(),
        |i: int|
            (
                found[i].0,
                placemark_data(
                    found[i].0,
                    match found[i].0 {
                        Some(folder) => Some(snake_cased(folder)),
                        None => None,
                    },
                    found[i].1,
                ),
            ),
    )
}

/// Turns every placemark of a KML document into a record.
///
/// A placemark outside any folder carries no collection and is not nested.
pub fn placemark_records(kml: KmlNode) -> (records: Vec<Record>)
    ensures
        Seq::new(records@.len(), |i: int| records@[i]@) == placemark_records_model(kml),
{
    let ghost expected = placemark_records_model(kml);
    let mut placemarks: Vec<(Option<String>, Placemark)> = Vec::new();
    let ghost empty_model = Seq::new(placemarks@.len(), |i: int| (optional_text(placemarks@[i].0), placemarks@[i].1));
    assert(empty_model =~= Seq::<(Option<Seq<char>>, Placemark)>::empty());
    collect_placemarks(kml, None, &mut placemarks);
    let ghost found = Seq::new(placemarks@.len(), |i: int| (optional_text(placemarks@[i].0), placemarks@[i].1));
    assert(found =~= placemarks_in(kml, None));
    let total = placemarks.len();
    let mut rest = reversed(placemarks);
    let mut records: Vec<Record> = Vec::new();
    while rest.len() > 0
        invariant
            expected == placemark_records_model(kml),
            found == placemarks_in(kml, None),
            found.len() == total,
            records@.len() + rest@.len() == total,
            forall|k: int|
                0 <= k < rest@.len() ==> (optional_text((#[trigger] rest@[k]).0), rest@[k].1) == found[total
                    - 1 - k],
            Seq::new(records@.len(), |i: int| records@[i]@) == expected.take(records@.len() as int),
        decreases rest@.len(),
    {
        let ghost done = records@.len() as int;
        let (folder_name, placemark) = rest.pop().unwrap();
        let namespace = match &folder_name {
            Some(folder) => Some(snake_case(folder.as_str())),
            None => None,
        };
        let collection = match &folder_name {
            Some(folder) => Some(folder.clone()),
            None => None,
        };
        let ghost before = Seq::new(records@.len(), |i: int| records@[i]@);
        let record = placemark_to_record(folder_name, namespace, placemark, collection);
        records.push(record);
        assert(Seq::new(records@.len(), |i: int| records@[i]@) =~= before.push(expected[done]));
        assert(expected.take(done + 1) =~= expected.take(done).push(expected[done]));
    }
    assert(expected.take(total as int) =~= expected);
    records
}

} // verus!
