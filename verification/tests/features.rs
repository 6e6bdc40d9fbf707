use cassiopeia::geometry::shape::NgsiLdGeometry;
use cassiopeia::ingest::geojson::{feature_to_record, GeoJsonFeature};
use cassiopeia::ingest::geometry_json::geometry_value;
use cassiopeia::ingest::kml::{
    collect_placemarks, extract_extended_data, kml_geometry_to_geojson, placemark_records, placemark_to_record, to_geometry_value,
    KmlElement, KmlGeometry, KmlNode, Placemark,
};
use cassiopeia::ingest::shapefile::{
    bundle_members, field_value_to_json, label_of, layer_label, shape_and_record_to_record, zip_layers, DbfValue, ShapefileIngestError,
    ShapefileIngestor, ShapefileSource,
};
use cassiopeia::lists::{batches, reversed, Batcher};
use cassiopeia::record::{JsonNumber, JsonObject, JsonValue, Record};
use cassiopeia::text::{trim_text, owned};
use serde_json::Value;

fn from_json(value: &JsonValue) -> Value {
    match value {
        JsonValue::Null => Value::Null,
        JsonValue::Bool(flag) => Value::Bool(*flag),
        JsonValue::Number(JsonNumber::Integer(i)) => Value::from(*i),
        JsonValue::Number(JsonNumber::Unsigned(u)) => Value::from(*u),
        JsonValue::Number(JsonNumber::Float(bits)) => Value::from(f64::from_bits(*bits)),
        JsonValue::Text(text) => Value::String(text.clone()),
        JsonValue::Array(items) => Value::Array(items.iter().map(from_json).collect()),
        JsonValue::Object(object) => Value::Object(object_json(object)),
    }
}

fn object_json(object: &JsonObject) -> serde_json::Map<String, Value> {
    let mut map = serde_json::Map::new();
    for i in 0..object.len() {
        map.insert(object.name_at(i).to_string(), from_json(object.value_at(i)));
    }
    map
}

fn value(text: &str) -> Value {
    serde_json::from_str(text).unwrap()
}

fn data(record: &Record) -> Value {
    Value::Object(object_json(record.data()))
}

fn c(x: f64, y: f64) -> (u64, u64) {
    (x.to_bits(), y.to_bits())
}

fn point(x: f64, y: f64) -> KmlGeometry {
    KmlGeometry::Point { x: x.to_bits(), y: y.to_bits() }
}

fn line() -> KmlGeometry {
    KmlGeometry::LineString(vec![c(0.0, 0.0), c(1.0, 1.0)])
}

fn ring() -> Vec<(u64, u64)> {
    vec![c(0.0, 0.0), c(1.0, 0.0), c(1.0, 1.0), c(0.0, 0.0)]
}

fn geojson(geometry: &KmlGeometry) -> Value {
    from_json(&kml_geometry_to_geojson(geometry).expect("a GeoJSON geometry"))
}

#[test]
fn a_multi_geometry_of_points_folds_into_a_multipoint() {
    let json = geojson(&KmlGeometry::MultiGeometry(vec![point(1.0, 2.0), point(3.0, 4.0)]));
    assert_eq!(json["type"], "MultiPoint");
    assert_eq!(json["coordinates"].as_array().expect("coordinates").len(), 2);
    assert_eq!(json, value(r#"{ "type": "MultiPoint", "coordinates": [[1.0, 2.0], [3.0, 4.0]] }"#));
}

#[test]
fn a_multi_geometry_of_polygons_folds_into_a_multipolygon() {
    let polygon = KmlGeometry::Polygon { outer: ring(), inner: Vec::new() };
    let json = geojson(&KmlGeometry::MultiGeometry(vec![polygon]));
    assert_eq!(json["type"], "Polygon");
}

#[test]
fn a_nested_multi_geometry_contributes_to_the_same_fold() {
    let nested = KmlGeometry::MultiGeometry(vec![point(3.0, 4.0), point(5.0, 6.0)]);
    let json = geojson(&KmlGeometry::MultiGeometry(vec![point(1.0, 2.0), nested]));
    assert_eq!(json["type"], "MultiPoint");
    assert_eq!(json["coordinates"].as_array().expect("coordinates").len(), 3);
}

#[test]
fn a_multi_geometry_mixing_families_has_no_geojson_equivalent() {
    let multi = KmlGeometry::MultiGeometry(vec![point(1.0, 2.0), line()]);
    assert!(kml_geometry_to_geojson(&multi).is_none());
    assert!(to_geometry_value(&multi).is_none());
}

#[test]
fn no_multi_geometry_ever_produces_a_geometry_collection() {
    let json = geojson(&KmlGeometry::MultiGeometry(vec![line(), line()]));
    assert_eq!(json["type"], "MultiLineString");
}

#[test]
fn a_linear_ring_maps_to_a_line_string() {
    let json = geojson(&KmlGeometry::LinearRing(ring()));
    assert_eq!(json["type"], "LineString");
}

#[test]
fn a_polygon_keeps_its_holes_after_its_outer_ring() {
    let hole = vec![c(0.2, 0.2), c(0.4, 0.2), c(0.4, 0.4), c(0.2, 0.2)];
    let converted = to_geometry_value(&KmlGeometry::Polygon { outer: ring(), inner: vec![hole] }).unwrap();
    match converted {
        NgsiLdGeometry::Polygon { coordinates } => {
            assert_eq!(coordinates.len(), 2);
            assert_eq!(coordinates[1][1], vec![0.4f64.to_bits(), 0.2f64.to_bits()]);
        }
        other => panic!("expected a polygon, got {other:?}"),
    }
    assert!(kml_geometry_to_geojson(&KmlGeometry::Other).is_none());
    assert!(kml_geometry_to_geojson(&KmlGeometry::MultiGeometry(Vec::new())).is_none());
}

fn element(name: &str, attributes: &[(&str, &str)], content: Option<&str>, children: Vec<KmlElement>) -> KmlElement {
    KmlElement {
        name: name.to_string(),
        attributes: attributes.iter().map(|(k, v)| (k.to_string(), v.to_string())).collect(),
        content: content.map(str::to_string),
        children,
    }
}

fn data_element(name: &str, text: &str) -> KmlElement {
    element("Data", &[("name", name)], None, vec![element("value", &[], Some(text), Vec::new())])
}

fn placemark(name: &str, extended: Vec<KmlElement>, geometry: Option<KmlGeometry>) -> Placemark {
    Placemark {
        name: Some(name.to_string()),
        description: None,
        attributes: Vec::new(),
        geometry,
        children: vec![element("ExtendedData", &[], None, extended)],
    }
}

#[test]
fn extended_data_contributes_data_values_and_schema_fields() {
    let children = vec![element(
        "ExtendedData",
        &[],
        None,
        vec![
            data_element("deviceId", "cam-a"),
            element(
                "SchemaData",
                &[("schemaUrl", "#s")],
                None,
                vec![element("SimpleData", &[("name", "height")], Some("12"), Vec::new())],
            ),
        ],
    )];
    let mut properties = JsonObject::new();
    extract_extended_data(&children, &mut properties);
    assert_eq!(Value::Object(object_json(&properties)), value(r#"{ "deviceId": "cam-a", "height": "12" }"#));
}

#[test]
fn a_placemark_becomes_a_record_with_properties_and_geometry() {
    let mut station = placemark("Station A", vec![data_element("id", "7")], Some(point(14.5, 46.0)));
    station.attributes = vec![("id".to_string(), "p1".to_string())];
    station.description = Some("A station".to_string());
    let record = placemark_to_record(None, None, station, None);
    assert_eq!(record.collection(), &None);
    assert_eq!(
        data(&record),
        value(
            r#"{
                "id": "p1",
                "geometry": { "type": "Point", "coordinates": [14.5, 46.0] },
                "properties": { "name": "Station A", "description": "A station", "id": "7" }
            }"#
        )
    );
}

fn three_folders() -> KmlNode {
    let folder = |name: &str, count: usize| KmlNode::Folder {
        name: Some(name.to_string()),
        elements: (0..count)
            .map(|i| KmlNode::Placemark(placemark(&format!("{name} {i}"), vec![data_element("areaId", &format!("area-{i}"))], Some(point(4.3, 52.0)))))
            .collect(),
    };
    KmlNode::Document(vec![folder("Camera", 2), folder("Camera Area", 2), folder("Flowcount", 3), KmlNode::Other])
}

#[test]
fn each_placemark_is_tagged_with_its_verbatim_folder_name() {
    let records = placemark_records(three_folders());
    assert_eq!(records.len(), 7);
    let labels: Vec<String> = records.iter().map(|record| record.collection().clone().expect("a folder")).collect();
    assert_eq!(labels.iter().filter(|label| *label == "Camera").count(), 2);
    assert_eq!(labels.iter().filter(|label| *label == "Camera Area").count(), 2);
    assert_eq!(labels.iter().filter(|label| *label == "Flowcount").count(), 3);
}

#[test]
fn a_foldered_record_nests_its_data_under_the_snake_cased_namespace() {
    let records = placemark_records(three_folders());
    let area = records.iter().find(|record| record.collection().as_deref() == Some("Camera Area")).unwrap();
    let record = data(area);
    let nested = record["camera_area"].as_object().unwrap();
    let properties = nested["properties"].as_object().unwrap();
    assert_eq!(properties.get("folder"), Some(&Value::String("Camera Area".to_string())));
    assert_eq!(properties.get("areaId"), Some(&Value::String("area-0".to_string())));
    assert!(nested.contains_key("geometry"));
}

#[test]
fn a_placemark_outside_any_folder_carries_no_collection() {
    let kml = KmlNode::Document(vec![KmlNode::Placemark(placemark("Lone", Vec::new(), None))]);
    let records = placemark_records(kml);
    assert_eq!(records.len(), 1);
    assert_eq!(records[0].collection(), &None);
    assert_eq!(data(&records[0]), value(r#"{ "properties": { "name": "Lone" } }"#));
}

#[test]
fn placemarks_are_collected_in_document_order_with_their_innermost_folder() {
    let kml = KmlNode::Folder {
        name: Some("Outer".to_string()),
        elements: vec![
            KmlNode::Placemark(placemark("a", Vec::new(), None)),
            KmlNode::Folder { name: None, elements: vec![KmlNode::Placemark(placemark("b", Vec::new(), None))] },
            KmlNode::Folder { name: Some("Inner".to_string()), elements: vec![KmlNode::Placemark(placemark("c", Vec::new(), None))] },
        ],
    };
    let mut found = Vec::new();
    collect_placemarks(kml, None, &mut found);
    let seen: Vec<(Option<String>, Option<String>)> = found.into_iter().map(|(folder, placemark)| (folder, placemark.name)).collect();
    assert_eq!(
        seen,
        vec![
            (Some("Outer".to_string()), Some("a".to_string())),
            (Some("Outer".to_string()), Some("b".to_string())),
            (Some("Inner".to_string()), Some("c".to_string())),
        ]
    );
}

#[test]
fn dbf_field_kinds_map_to_their_json_types() {
    let attributes = vec![
        ("name".to_string(), DbfValue::Character(Some("Alpha".to_string()))),
        ("value".to_string(), DbfValue::Numeric(Some(1.5f64.to_bits()))),
        ("active".to_string(), DbfValue::Logical(Some(true))),
        ("day".to_string(), DbfValue::Date(Some((2026, 6, 3)))),
        ("count".to_string(), DbfValue::Integer(-4)),
        ("missing".to_string(), DbfValue::Character(None)),
        ("nan".to_string(), DbfValue::Double(f64::NAN.to_bits())),
        ("seen".to_string(), DbfValue::DateTime((2026, 6, 3), (7, 5, 9))),
    ];
    let geometry = geometry_value(&NgsiLdGeometry::Point { coordinates: vec![14.5f64.to_bits(), 46.05f64.to_bits()] });
    let record = shape_and_record_to_record(attributes, Some(geometry), None);
    assert_eq!(record.collection(), &None);
    assert_eq!(
        data(&record),
        value(
            r#"{
                "properties": { "name": "Alpha", "value": 1.5, "active": true, "day": "2026-06-03", "count": -4, "seen": "2026-06-03T07:05:09" },
                "geometry": { "type": "Point", "coordinates": [14.5, 46.05] }
            }"#
        )
    );
}

#[test]
fn an_absent_dbf_value_has_no_json() {
    assert!(field_value_to_json(DbfValue::Logical(None)).is_none());
    assert!(field_value_to_json(DbfValue::Float(Some(f64::INFINITY.to_bits()))).is_none());
    assert_eq!(from_json(&field_value_to_json(DbfValue::Memo("note".to_string())).unwrap()), value(r#""note""#));
    assert_eq!(from_json(&field_value_to_json(DbfValue::Date(Some((7, 1, 2)))).unwrap()), value(r#""0007-01-02""#));
}

#[test]
fn a_null_shape_keeps_only_its_properties() {
    let record = shape_and_record_to_record(Vec::new(), None, Some("roads".to_string()));
    assert_eq!(record.collection().as_deref(), Some("roads"));
    assert_eq!(data(&record), value(r#"{ "properties": {} }"#));
}

#[test]
fn a_carrier_is_recognized_by_its_leading_bytes() {
    assert!(matches!(
        ShapefileSource::from_header("a.zip".to_string(), &[0x50, 0x4B, 0x03, 0x04, 0x14]),
        Ok(ShapefileSource::Zip(path)) if path == "a.zip"
    ));
    assert!(matches!(
        ShapefileSource::from_header("b.shp".to_string(), &[0x00, 0x00, 0x27, 0x0A]),
        Ok(ShapefileSource::Bare(path)) if path == "b.shp"
    ));
    assert!(matches!(
        ShapefileSource::from_header("c.bin".to_string(), &[0x00, 0x00]),
        Err(ShapefileIngestError::UnknownCarrier)
    ));
}

#[test]
fn a_single_layer_zip_matches_the_bare_case() {
    let layers = zip_layers(vec![("dir/roads.shp".to_string(), Some("roads".to_string()))]).unwrap();
    assert_eq!(layers.len(), 1);
    assert_eq!(layers[0].shp_path, "dir/roads.shp");
    assert_eq!(layers[0].collection, None);
}

#[test]
fn a_multi_layer_zip_tags_records_with_their_layer_collection() {
    let layers = zip_layers(vec![
        ("a/roads.shp".to_string(), Some("roads".to_string())),
        ("a/rivers.shp".to_string(), Some("rivers".to_string())),
    ])
    .unwrap();
    assert_eq!(layers.len(), 2);
    assert_eq!(layers[0].collection.as_deref(), Some("roads"));
    assert_eq!(layers[1].collection.as_deref(), Some("rivers"));
    assert!(matches!(zip_layers(Vec::new()), Err(ShapefileIngestError::NoLayers)));
}

#[test]
fn a_bundle_lists_its_shp_members_in_name_order_with_their_stems() {
    let names = ["b.SHP", "a.shp", "a.dbf", ".shp", "readme", "c.d.shp", "B.shp"].iter().map(|name| name.to_string()).collect();
    let members = bundle_members(names);
    let expected: Vec<(String, String)> = [("B.shp", "B"), ("a.shp", "a"), ("b.SHP", "b"), ("c.d.shp", "c.d")]
        .iter()
        .map(|(name, stem)| (name.to_string(), stem.to_string()))
        .collect();
    assert_eq!(members, expected);
    assert!(bundle_members(vec!["notes.txt".to_string()]).is_empty());
}

#[test]
fn a_layer_is_labelled_by_its_file_stem() {
    assert_eq!(label_of("x/roads.shp", Some("roads".to_string())), "roads");
    assert_eq!(label_of("x/..", None), "x/..");
    assert_eq!(layer_label("data/roads.shp"), "roads");
}

#[test]
fn a_consumed_ingestor_cannot_be_streamed_again() {
    let mut ingestor = ShapefileIngestor::new(ShapefileSource::Bare("a.shp".to_string()), 16);
    assert_eq!(ingestor.batch_size(), 16);
    assert!(ingestor.take_source().is_some());
    assert!(ingestor.take_source().is_none());
}

#[test]
fn a_feature_collection_yields_one_record_per_feature() {
    let mut properties = JsonObject::new();
    properties.insert("name".to_string(), JsonValue::Text("Alpha".to_string()));
    let feature = GeoJsonFeature {
        id: Some(JsonValue::Number(JsonNumber::Unsigned(7))),
        properties: Some(properties),
        geometry: Some(geometry_value(&NgsiLdGeometry::Point { coordinates: vec![1.0f64.to_bits(), 2.0f64.to_bits()] })),
        bbox: None,
    };
    let record = feature_to_record(feature);
    assert_eq!(record.collection(), &None);
    assert_eq!(
        data(&record),
        value(r#"{ "id": 7, "properties": { "name": "Alpha" }, "geometry": { "type": "Point", "coordinates": [1.0, 2.0] } }"#)
    );
}

#[test]
fn a_feature_without_members_is_an_empty_record() {
    let record = feature_to_record(GeoJsonFeature { id: None, properties: None, geometry: None, bbox: None });
    assert_eq!(data(&record), value("{}"));
}

/// Writes a value as compact JSON text, object members in the order the object holds them.
fn render(value: &JsonValue) -> String {
    match value {
        JsonValue::Array(items) => format!("[{}]", items.iter().map(render).collect::<Vec<_>>().join(",")),
        JsonValue::Object(object) => {
            let members: Vec<String> = (0..object.len())
                .map(|i| format!("{}:{}", Value::String(object.name_at(i).to_string()), render(object.value_at(i))))
                .collect();
            format!("{{{}}}", members.join(","))
        }
        other => from_json(other).to_string(),
    }
}

#[test]
fn display_renders_the_geometry_as_its_geojson_document() {
    let geometry = NgsiLdGeometry::Point { coordinates: vec![1.5f64.to_bits(), 2.5f64.to_bits()] };
    assert_eq!(render(&geometry_value(&geometry)), r#"{"type":"Point","coordinates":[1.5,2.5]}"#);
}

#[test]
fn a_geometry_is_written_as_its_geojson_object() {
    let polygon = NgsiLdGeometry::Polygon {
        coordinates: vec![vec![
            vec![0.0f64.to_bits(), 0.0f64.to_bits(), 5.0f64.to_bits()],
            vec![1.0f64.to_bits(), 0.0f64.to_bits()],
            vec![1.0f64.to_bits(), 1.0f64.to_bits()],
            vec![0.0f64.to_bits(), 0.0f64.to_bits()],
        ]],
    };
    assert_eq!(
        from_json(&geometry_value(&polygon)),
        value(r#"{ "type": "Polygon", "coordinates": [[[0.0, 0.0, 5.0], [1.0, 0.0], [1.0, 1.0], [0.0, 0.0]]] }"#)
    );
    let odd = NgsiLdGeometry::Point { coordinates: vec![f64::NAN.to_bits(), 2.0f64.to_bits()] };
    assert_eq!(from_json(&geometry_value(&odd)), value(r#"{ "type": "Point", "coordinates": [null, 2.0] }"#));
}

#[test]
fn records_are_emitted_in_batches_of_the_configured_size() {
    let split = batches((1..=7).collect::<Vec<u32>>(), 3);
    assert_eq!(split, vec![vec![1, 2, 3], vec![4, 5, 6], vec![7]]);
    assert_eq!(batches(Vec::<u32>::new(), 3), Vec::<Vec<u32>>::new());
    assert_eq!(batches(vec![1u32, 2], 0), vec![vec![1], vec![2]]);
}

#[test]
fn a_batcher_hands_out_full_batches_then_the_remainder() {
    let mut batcher = Batcher::new(2);
    let mut out = Vec::new();
    for item in 1..=5u32 {
        if let Some(batch) = batcher.push(item) {
            out.push(batch);
        }
    }
    if let Some(last) = batcher.finish() {
        out.push(last);
    }
    assert_eq!(out, vec![vec![1, 2], vec![3, 4], vec![5]]);
    let empty: Batcher<u32> = Batcher::new(4);
    assert_eq!(empty.finish(), None);
}

#[test]
fn reversing_reverses() {
    assert_eq!(reversed(vec![1, 2, 3]), vec![3, 2, 1]);
}

#[test]
fn trimming_drops_surrounding_white_space_only() {
    assert_eq!(trim_text("  a b \n"), "a b");
    assert_eq!(trim_text("   "), "");
    assert_eq!(owned("x"), "x");
}

#[test]
fn a_layer_label_is_the_file_name_after_the_last_slash_without_its_extension() {
    assert_eq!(layer_label("roads.shp"), "roads");
    assert_eq!(layer_label("/srv/data//archive.tar.shp"), "archive.tar");
    assert_eq!(layer_label("layers/.hidden"), ".hidden");
    assert_eq!(layer_label("layers/plain"), "plain");
}
