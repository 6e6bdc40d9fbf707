use cassiopeia::ingest::csv::{clean_header, create_header_mapping, infer_value, keyed_by_header, keyed_by_position, CsvIngestError};
use cassiopeia::ingest::json::{geojson_candidate, is_geojson, split, JsonIngestError};
use cassiopeia::ingest::lone_array::{is_element_key, lone_array_member, CandidateKeys, LoneArrayMember};
use cassiopeia::ingest::xml::{
    decode_document, document_to_value, fold_reading, resolve_reference, split as split_xml_document, EntityReference, RawTag, XmlEvent,
    XmlIngestError,
};
use cassiopeia::record::{JsonNumber, JsonObject, JsonValue, Record};
use serde_json::Value;

fn to_json(value: Value) -> JsonValue {
    match value {
        Value::Null => JsonValue::Null,
        Value::Bool(flag) => JsonValue::Bool(flag),
        Value::Number(number) => {
            if let Some(u) = number.as_u64() {
                JsonValue::Number(JsonNumber::Unsigned(u))
            } else if let Some(i) = number.as_i64() {
                JsonValue::Number(JsonNumber::Integer(i))
            } else {
                JsonValue::Number(JsonNumber::Float(number.as_f64().unwrap().to_bits()))
            }
        }
        Value::String(text) => JsonValue::Text(text),
        Value::Array(items) => JsonValue::Array(items.into_iter().map(to_json).collect()),
        Value::Object(map) => {
            let mut object = JsonObject::new();
            for (name, value) in map {
                object.insert(name, to_json(value));
            }
            JsonValue::Object(object)
        }
    }
}

fn from_json(value: &JsonValue) -> Value {
    match value {
        JsonValue::Null => Value::Null,
        JsonValue::Bool(flag) => Value::Bool(*flag),
        JsonValue::Number(JsonNumber::Integer(i)) => Value::from(*i),
        JsonValue::Number(JsonNumber::Unsigned(u)) => Value::from(*u),
        JsonValue::Number(JsonNumber::Float(bits)) => Value::from(f64::from_bits(*bits)),
        JsonValue::Text(text) => Value::String(text.clone()),
        JsonValue::Array(items) => Value::Array(items.iter().map(from_json).collect()),
        JsonValue::Object(object) => Value::Object(object_json(object)),
    }
}

fn object_json(object: &JsonObject) -> serde_json::Map<String, Value> {
    let mut map = serde_json::Map::new();
    for i in 0..object.len() {
        map.insert(object.name_at(i).to_string(), from_json(object.value_at(i)));
    }
    map
}

fn parse(text: &str) -> JsonValue {
    to_json(serde_json::from_str(text).unwrap())
}

fn value(text: &str) -> Value {
    serde_json::from_str(text).unwrap()
}

fn field(record: &Record, name: &str) -> Option<Value> {
    record.data().get(name).map(from_json)
}

fn object(text: &str) -> JsonObject {
    match parse(text) {
        JsonValue::Object(object) => object,
        _ => panic!("expected an object"),
    }
}

fn json_records(document: JsonValue) -> Result<Vec<Record>, JsonIngestError> {
    let mut records = split(document)?;
    let mut out = Vec::new();
    while let Some(record) = records.next() {
        out.push(record?);
    }
    Ok(out)
}

#[test]
fn exactly_one_array_member_is_found() {
    let object = object(r#"{ "meta": { "n": 2 }, "data": [{ "a": 1 }] }"#);
    assert!(matches!(lone_array_member(&object, CandidateKeys::Any), LoneArrayMember::Found(key) if key == "data"));
}

#[test]
fn no_array_member_is_none_or_many() {
    let object = object(r#"{ "a": 1, "b": 2 }"#);
    assert!(matches!(lone_array_member(&object, CandidateKeys::Any), LoneArrayMember::NoneOrMany));
}

#[test]
fn two_array_members_is_none_or_many() {
    let object = object(r#"{ "a": [{ "x": 1 }], "b": [{ "y": 2 }] }"#);
    assert!(matches!(lone_array_member(&object, CandidateKeys::Any), LoneArrayMember::NoneOrMany));
}

#[test]
fn the_candidate_predicate_filters_out_rejected_keys() {
    let object = object(r##"{ "@attr": [1], "#text": [2], "child": [{ "a": 1 }] }"##);
    assert!(matches!(lone_array_member(&object, CandidateKeys::Elements), LoneArrayMember::Found(key) if key == "child"));
    assert!(matches!(lone_array_member(&object, CandidateKeys::Any), LoneArrayMember::NoneOrMany));
    assert!(is_element_key("child"));
    assert!(!is_element_key("@attr"));
    assert!(!is_element_key("#text"));
}

#[test]
fn an_array_of_objects_becomes_one_record_each() {
    let records = json_records(parse(r#"[{ "a": 1 }, { "b": 2 }]"#)).unwrap();
    assert_eq!(records.len(), 2);
    assert!(records.iter().all(|record| record.collection().is_none()));
    assert_eq!(field(&records[0], "a"), Some(value("1")));
    assert_eq!(field(&records[1], "b"), Some(value("2")));
}

#[test]
fn a_single_object_with_no_arrays_is_one_record() {
    let records = json_records(parse(r#"{ "a": 1, "b": 2 }"#)).unwrap();
    assert_eq!(records.len(), 1);
    assert_eq!(field(&records[0], "a"), Some(value("1")));
    assert_eq!(field(&records[0], "b"), Some(value("2")));
}

#[test]
fn an_envelope_with_a_lone_data_array_splits_on_it() {
    let records = json_records(parse(r#"{ "meta": { "n": 2 }, "data": [{ "a": 1 }, { "b": 2 }] }"#)).unwrap();
    assert_eq!(records.len(), 2);
    assert!(records.iter().all(|record| record.data().get("meta").is_none()));
}

#[test]
fn an_object_with_two_array_members_declines_and_stays_one_record() {
    let records = json_records(parse(r#"{ "a": [{ "x": 1 }], "b": [{ "y": 2 }] }"#)).unwrap();
    assert_eq!(records.len(), 1);
    assert_eq!(field(&records[0], "a"), Some(value(r#"[{ "x": 1 }]"#)));
    assert_eq!(field(&records[0], "b"), Some(value(r#"[{ "y": 2 }]"#)));
}

#[test]
fn an_all_scalar_object_is_one_record() {
    let records = json_records(parse(r#"{ "title": "feed", "count": 3 }"#)).unwrap();
    assert_eq!(records.len(), 1);
    assert_eq!(field(&records[0], "title"), Some(value(r#""feed""#)));
}

#[test]
fn a_lone_array_of_objects_field_is_read_as_an_envelope() {
    let records = json_records(parse(r#"{ "id": 1, "readings": [{ "t": 1 }] }"#)).unwrap();
    assert_eq!(records.len(), 1);
    assert_eq!(field(&records[0], "t"), Some(value("1")));
    assert!(records[0].data().get("id").is_none());
}

#[test]
fn an_empty_envelope_array_yields_no_records() {
    let records = json_records(parse(r#"{ "data": [] }"#)).unwrap();
    assert!(records.is_empty());
}

#[test]
fn a_non_object_array_element_is_rejected() {
    assert!(matches!(split(parse(r#"[{ "a": 1 }, 5]"#)), Err(JsonIngestError::ExpectedObject)));
}

#[test]
fn a_non_object_envelope_element_is_rejected() {
    assert!(matches!(split(parse(r#"{ "data": [{ "a": 1 }, 5] }"#)), Err(JsonIngestError::ExpectedObject)));
}

#[test]
fn a_scalar_root_is_rejected() {
    assert!(matches!(split(parse("5")), Err(JsonIngestError::ExpectedObjectOrArray)));
    assert!(matches!(split(parse("null")), Err(JsonIngestError::ExpectedObjectOrArray)));
}

#[test]
fn the_record_stream_counts_what_is_left() {
    let mut records = split(parse(r#"[{ "a": 1 }, { "b": 2 }, { "c": 3 }]"#)).unwrap();
    assert_eq!(records.len(), 3);
    assert!(records.next().is_some());
    assert_eq!(records.len(), 2);
}

#[test]
fn a_geojson_type_member_marks_a_candidate() {
    assert!(geojson_candidate(&parse(r#"{ "type": "FeatureCollection", "features": [] }"#)));
    assert!(!geojson_candidate(&parse(r#"{ "type": "Station", "id": 1 }"#)));
    assert!(!geojson_candidate(&parse(r#"[{ "type": "Point" }]"#)));
}

#[test]
fn error_a_read_failure_names_the_file_and_keeps_the_operating_system_reason() {
    let error = JsonIngestError::Read { reason: "input/output error".to_string(), path: "/data/stations.json".to_string() };
    assert!(error.describe().contains("/data/stations.json"));
    assert_eq!(error.cause().as_deref(), Some("input/output error"));
    let xml = XmlIngestError::Read { reason: "input/output error".to_string(), path: "/data/observations.xml".to_string() };
    assert!(xml.describe().contains("/data/observations.xml"));
    assert_eq!(xml.cause().as_deref(), Some("input/output error"));
    assert_eq!(XmlIngestError::UnknownEntity("foo".to_string()).describe(), "unknown XML entity: foo");
    assert!(XmlIngestError::EmptyDocument.cause().is_none());
}

#[test]
fn an_open_failure_names_the_file_and_keeps_the_operating_system_reason() {
    let error = CsvIngestError::Open { reason: "permission denied".to_string(), path: "/data/stations.csv".to_string() };
    assert!(error.describe().contains("/data/stations.csv"));
    assert_eq!(error.cause().as_deref(), Some("permission denied"));
}

fn fold_xml(text: &str) -> Result<JsonValue, XmlIngestError> {
    document_to_value(text.as_bytes())
}

#[test]
fn a_declared_windows_1252_document_decodes_via_the_encoding_feature() {
    let bytes = b"<?xml version=\"1.0\" encoding=\"windows-1252\"?><x>caf\xE9</x>";
    assert_eq!(from_json(&document_to_value(bytes).unwrap()), value(r#"{ "x": "caf\u00e9" }"#));
}

#[test]
fn bytes_invalid_for_the_declared_encoding_are_rejected_rather_than_replaced() {
    let bytes = b"<?xml version=\"1.0\" encoding=\"utf-8\"?><x>\xFF</x>";
    assert!(matches!(document_to_value(bytes), Err(XmlIngestError::Decode(_))));
    assert!(matches!(decode_document(bytes), Err(XmlIngestError::Decode(name)) if name == "UTF-8"));
}

#[test]
fn a_byte_order_mark_decides_the_encoding_and_is_dropped() {
    assert_eq!(decode_document(b"\xEF\xBB\xBF<x/>").unwrap(), "<x/>");
    assert_eq!(decode_document(b"\xFF\xFE<\x00x\x00/\x00>\x00").unwrap(), "<x/>");
    assert_eq!(decode_document(b"\xFE\xFF\x00<\x00x\x00/\x00>").unwrap(), "<x/>");
}

#[test]
fn an_unknown_declared_label_falls_back_to_utf_8() {
    let bytes = b"<?xml version=\"1.0\" encoding=\"no-such-encoding\"?><x>\xC3\xA9</x>";
    assert_eq!(from_json(&document_to_value(bytes).unwrap()), value(r#"{ "x": "\u00e9" }"#));
}

#[test]
fn the_first_refused_event_is_the_refusal_and_a_reference_outside_any_element_is_ignored() {
    let events = vec![
        XmlEvent::Reference("outside".to_string()),
        XmlEvent::Start(RawTag { name: "x".to_string(), attributes: Vec::new(), trailing: None }),
        XmlEvent::Reference("foo".to_string()),
        XmlEvent::Reference("#x0".to_string()),
        XmlEvent::End,
    ];
    let later = Some(XmlIngestError::Parse("later".to_string()));
    assert!(matches!(fold_reading(events, later), Err(XmlIngestError::UnknownEntity(name)) if name == "foo"));
    let clean = vec![XmlEvent::Markup, XmlEvent::Start(RawTag { name: "x".to_string(), attributes: Vec::new(), trailing: None }), XmlEvent::End];
    let refused = fold_reading(clean, Some(XmlIngestError::Parse("unclosed".to_string())));
    assert!(matches!(refused, Err(XmlIngestError::Parse(message)) if message == "unclosed"));
}

#[test]
fn references_resolve_to_their_characters_or_stay_unknown() {
    assert!(matches!(resolve_reference("#49"), Ok(EntityReference::Resolved(text)) if text == "1"));
    assert!(matches!(resolve_reference("#x30"), Ok(EntityReference::Resolved(text)) if text == "0"));
    assert!(matches!(resolve_reference("amp"), Ok(EntityReference::Resolved(text)) if text == "&"));
    assert!(matches!(resolve_reference("quot"), Ok(EntityReference::Resolved(text)) if text == "\""));
    assert!(matches!(resolve_reference("nbsp"), Ok(EntityReference::Unknown(name)) if name == "nbsp"));
    assert!(matches!(resolve_reference("#x0"), Err(XmlIngestError::Parse(_))));
}

#[test]
fn an_attribute_with_an_unknown_entity_is_refused_and_whitespace_is_normalized() {
    assert!(matches!(
        fold_xml(r#"<x a="&custom;"/>"#),
        Err(XmlIngestError::UnknownEntity(name)) if name == "custom"
    ));
    assert_eq!(xml("<x a=\"1\t2 &lt;\"/>"), value(r#"{ "x": { "@a": "1 2 <" } }"#));
}

fn xml(text: &str) -> Value {
    from_json(&fold_xml(text).unwrap())
}

fn split_xml(text: &str) -> Vec<Record> {
    split_xml_document(fold_xml(text).unwrap())
}

#[test]
fn a_pure_text_leaf_becomes_a_bare_string() {
    assert_eq!(xml("<x>hello</x>"), value(r#"{ "x": "hello" }"#));
}

#[test]
fn a_self_closing_element_becomes_null() {
    assert_eq!(xml("<x/>"), value(r#"{ "x": null }"#));
}

#[test]
fn an_empty_paired_element_becomes_null() {
    assert_eq!(xml("<x></x>"), value(r#"{ "x": null }"#));
}

#[test]
fn an_element_with_an_attribute_and_text_becomes_an_object() {
    assert_eq!(xml(r#"<t unit="degC">24</t>"#), value(r##"{ "t": { "#text": "24", "@unit": "degC" } }"##));
}

#[test]
fn nested_elements_become_a_nested_object() {
    assert_eq!(xml("<a><b>1</b></a>"), value(r#"{ "a": { "b": "1" } }"#));
}

#[test]
fn a_single_child_occurrence_is_an_object_not_an_array() {
    assert_eq!(xml("<a><item>1</item></a>"), value(r#"{ "a": { "item": "1" } }"#));
}

#[test]
fn a_repeated_child_name_becomes_an_array_in_document_order() {
    assert_eq!(xml("<a><item>1</item><item>2</item></a>"), value(r#"{ "a": { "item": ["1", "2"] } }"#));
}

#[test]
fn namespace_prefixes_are_retained_on_element_and_attribute_keys() {
    assert_eq!(
        xml(r#"<x:data xmlns:x="urn:e"><x:child x:id="7">v</x:child></x:data>"#),
        value(r##"{ "x:data": { "@xmlns:x": "urn:e", "x:child": { "#text": "v", "@x:id": "7" } } }"##)
    );
}

#[test]
fn cdata_content_is_taken_verbatim() {
    assert_eq!(xml("<x><![CDATA[a<b]]></x>"), value(r#"{ "x": "a<b" }"#));
}

#[test]
fn mixed_content_keeps_both_text_and_child_keys() {
    assert_eq!(xml("<p>Hello <b>x</b></p>"), value(r##"{ "p": { "#text": "Hello", "b": "x" } }"##));
}

#[test]
fn a_processing_instruction_inside_an_element_becomes_a_pi_entry() {
    assert_eq!(
        xml("<a><?target some data?></a>"),
        value(r##"{ "a": { "#pi": [ { "target": "target", "content": "some data" } ] } }"##)
    );
}

#[test]
fn a_comment_is_dropped() {
    assert_eq!(xml("<a><!-- note --><b>1</b></a>"), value(r#"{ "a": { "b": "1" } }"#));
}

#[test]
fn a_top_level_processing_instruction_is_attached_to_the_document() {
    assert_eq!(
        xml(r#"<?xml-stylesheet href="x.xsl"?><root/>"#),
        value(r##"{ "root": null, "#pi": [ { "target": "xml-stylesheet", "content": "href=\"x.xsl\"" } ] }"##)
    );
}

#[test]
fn predefined_and_numeric_entities_are_unescaped() {
    assert_eq!(xml("<x>a &amp; b &#233;</x>"), value("{ \"x\": \"a & b \u{e9}\" }"));
}

#[test]
fn an_unknown_entity_is_reported() {
    assert!(matches!(fold_xml("<x>&foo;</x>"), Err(XmlIngestError::UnknownEntity(name)) if name == "foo"));
}

#[test]
fn an_input_without_a_root_element_is_reported_as_empty() {
    assert!(matches!(fold_xml("<!-- only a comment -->"), Err(XmlIngestError::EmptyDocument)));
}

#[test]
fn a_root_with_a_repeated_child_yields_one_record_per_occurrence() {
    let records = split_xml("<data><metData><t>1</t></metData><metData><t>2</t></metData><metData><t>3</t></metData></data>");
    assert_eq!(records.len(), 3);
    assert!(records.iter().all(|record| record.collection().is_none()));
    assert_eq!(field(&records[0], "t"), Some(value(r#""1""#)));
    assert_eq!(field(&records[2], "t"), Some(value(r#""3""#)));
}

#[test]
fn a_single_occurrence_child_does_not_split_and_the_whole_root_is_one_record() {
    let records = split_xml("<data><title>Feed</title><metData><t>24</t></metData></data>");
    assert_eq!(records.len(), 1);
    assert_eq!(field(&records[0], "metData"), Some(value(r#"{ "t": "24" }"#)));
}

#[test]
fn a_repeated_grandchild_under_a_wrapper_does_not_split() {
    let records = split_xml("<data><stations><metData>1</metData><metData>2</metData><metData>3</metData></stations></data>");
    assert_eq!(records.len(), 1);
    assert_eq!(field(&records[0], "stations"), Some(value(r#"{ "metData": ["1", "2", "3"] }"#)));
}

#[test]
fn a_root_with_two_repeated_children_declines_to_pick_and_stays_one_record() {
    let records = split_xml("<data><a>1</a><a>2</a><b>3</b><b>4</b></data>");
    assert_eq!(records.len(), 1);
    assert_eq!(field(&records[0], "a"), Some(value(r#"["1", "2"]"#)));
    assert_eq!(field(&records[0], "b"), Some(value(r#"["3", "4"]"#)));
}

#[test]
fn an_all_scalar_root_object_is_one_record() {
    let records = split_xml("<data><title>Feed</title><count>3</count></data>");
    assert_eq!(records.len(), 1);
    assert_eq!(field(&records[0], "title"), Some(value(r#""Feed""#)));
}

#[test]
fn a_leaf_root_is_one_record_keyed_by_the_root_name() {
    let records = split_xml("<root>text</root>");
    assert_eq!(records.len(), 1);
    assert_eq!(field(&records[0], "root"), Some(value(r#""text""#)));
}

#[test]
fn an_empty_root_is_one_record_with_a_null_value() {
    let records = split_xml("<root/>");
    assert_eq!(records.len(), 1);
    assert_eq!(field(&records[0], "root"), Some(Value::Null));
}

#[test]
fn repeated_text_leaves_are_each_wrapped_under_text() {
    let records = split_xml("<data><item>a</item><item>b</item></data>");
    assert_eq!(records.len(), 2);
    assert_eq!(field(&records[0], "#text"), Some(value(r#""a""#)));
    assert_eq!(field(&records[1], "#text"), Some(value(r#""b""#)));
}

const ARSO_TWO_STATIONS: &str = r#"<?xml version="1.0" encoding="UTF-8"?>
<data>
  <metData>
    <domain_lat>46.0655</domain_lat>
    <domain_title>LJUBLJANA</domain_title>
    <t>24</t>
    <t_var_unit>&#176;C</t_var_unit>
    <rh>52</rh>
    <dd_val>180</dd_val>
    <tw/>
  </metData>
  <metData>
    <domain_lat>46.2389</domain_lat>
    <domain_title>MARIBOR</domain_title>
    <t>22</t>
    <t_var_unit>&#176;C</t_var_unit>
    <rh>60</rh>
    <dd_val>200</dd_val>
    <tw/>
  </metData>
</data>"#;

const ARSO_ONE_STATION: &str = r#"<?xml version="1.0" encoding="UTF-8"?>
<data>
  <metData>
    <domain_lat>46.0655</domain_lat>
    <domain_title>LJUBLJANA</domain_title>
    <t>24</t>
    <tw/>
  </metData>
</data>"#;

#[test]
fn a_single_station_feed_ingests_to_one_nested_record() {
    let records = split_xml(ARSO_ONE_STATION);
    assert_eq!(records.len(), 1);
    assert!(records[0].collection().is_none());
    let met_data = field(&records[0], "metData").unwrap();
    assert_eq!(met_data.get("t"), Some(&Value::String("24".to_owned())));
}

#[test]
fn a_multi_station_feed_splits_into_one_record_per_station() {
    let records = split_xml(ARSO_TWO_STATIONS);
    assert_eq!(records.len(), 2);
    assert!(records.iter().all(|record| record.collection().is_none()));
    assert_eq!(field(&records[0], "t"), Some(Value::String("24".to_owned())));
    assert_eq!(field(&records[1], "t"), Some(Value::String("22".to_owned())));
}

#[test]
fn a_split_record_addresses_fields_directly_and_reads_an_empty_tag_as_null() {
    let records = split_xml(ARSO_TWO_STATIONS);
    assert_eq!(field(&records[0], "domain_lat"), Some(Value::String("46.0655".to_owned())));
    assert_eq!(field(&records[0], "t_var_unit"), Some(Value::String("\u{b0}C".to_owned())));
    assert_eq!(field(&records[0], "tw"), Some(Value::Null));
}

/// What the JSON ingestor does with a document: refuse valid `GeoJSON`, else split it.
fn ingest_json(text: &str) -> Result<Vec<Record>, JsonIngestError> {
    let document = parse(text);
    if is_geojson(&document, text.as_bytes()) {
        return Err(JsonIngestError::WrongIngestorForGeoJson);
    }
    json_records(document)
}

#[test]
fn an_array_of_objects_becomes_records() {
    let records = ingest_json(r#"[{"a": 1}, {"b": 2}]"#).unwrap();
    assert_eq!(records.len(), 2);
}

#[test]
fn every_object_ingests_without_a_collection() {
    let records = ingest_json(r#"[{"a": 1}, {"b": 2}]"#).unwrap();
    assert!(records.iter().all(|record| record.collection().is_none()));
}

#[test]
fn a_top_level_object_becomes_one_record() {
    let records = ingest_json(r#"{"a": 1}"#).unwrap();
    assert_eq!(records.len(), 1);
    assert!(records[0].collection().is_none());
}

#[test]
fn an_envelope_ingests_the_data_array() {
    let records = ingest_json(r#"{"meta": 1, "data": [{"a": 1}, {"b": 2}]}"#).unwrap();
    assert_eq!(records.len(), 2);
}

#[test]
fn a_non_object_element_is_rejected() {
    assert!(matches!(ingest_json(r#"[{"a": 1}, 5]"#), Err(JsonIngestError::ExpectedObject)));
}

#[test]
fn valid_geojson_is_rejected_in_favour_of_its_ingestor() {
    assert!(matches!(
        ingest_json(r#"{"type": "Point", "coordinates": [1.0, 2.0]}"#),
        Err(JsonIngestError::WrongIngestorForGeoJson)
    ));
}

#[test]
fn geojson_with_a_repeated_member_is_read_as_its_last_value_and_still_rejected() {
    assert!(matches!(
        ingest_json(r#"{"type": "Point", "coordinates": [9.0], "coordinates": [1.0, 2.0]}"#),
        Err(JsonIngestError::WrongIngestorForGeoJson)
    ));
}

#[test]
fn a_malformed_geojson_candidate_remains_ordinary_json() {
    let records = ingest_json(r#"{"type": "Point", "name": "not a geometry"}"#).unwrap();
    assert_eq!(records.len(), 1);
    assert_eq!(field(&records[0], "name"), Some(value(r#""not a geometry""#)));
}

fn float_of(text: &str) -> Option<u64> {
    text.parse::<f64>().ok().map(f64::to_bits)
}

fn inferred(text: &str) -> Value {
    from_json(&infer_value(text, float_of))
}

#[test]
fn numeric_and_leading_zero_fields_are_inferred() {
    assert_eq!(inferred("36"), value("36"));
    assert_eq!(inferred("00123"), value(r#""00123""#));
    assert_eq!(inferred("04510"), value(r#""04510""#));
    assert_eq!(inferred("-7"), value("-7"));
    assert_eq!(inferred("0.5"), value("0.5"));
    assert_eq!(inferred("-0.25"), value("-0.25"));
    assert_eq!(inferred("  12  "), value("12"));
    assert_eq!(inferred("0"), value("0"));
    assert_eq!(inferred("+05"), value(r#""+05""#));
}

#[test]
fn boolean_words_are_inferred_as_bools() {
    assert_eq!(inferred("yes"), Value::Bool(true));
    assert_eq!(inferred("NO"), Value::Bool(false));
    assert_eq!(inferred("True"), Value::Bool(true));
    assert_eq!(inferred("off"), Value::Bool(false));
    assert_eq!(inferred("maybe"), value(r#""maybe""#));
}

#[test]
fn a_backslash_n_field_is_read_as_null() {
    assert_eq!(inferred("\\N"), Value::Null);
    assert_eq!(inferred(""), Value::Null);
    assert_eq!(inferred("   "), Value::Null);
}

#[test]
fn an_integer_too_wide_for_sixty_four_bits_reads_as_a_float() {
    assert_eq!(inferred("99999999999999999999"), value("1e20"));
    assert_eq!(inferred("NaN"), value(r#""NaN""#));
}

#[test]
fn an_infinite_or_nan_parse_is_no_number_and_stays_text() {
    assert_eq!(inferred("inf"), value(r#""inf""#));
    assert_eq!(inferred("-Infinity"), value(r#""-Infinity""#));
    assert_eq!(inferred("nan"), value(r#""nan""#));
}

fn row(fields: &[&str]) -> Vec<String> {
    fields.iter().map(|field| field.to_string()).collect()
}

#[test]
fn each_data_row_becomes_a_record() {
    let headers = row(&["name", "age", "zip"]);
    let mapping = create_header_mapping(&headers);
    let first = keyed_by_header(&headers, &mapping, &row(&["Ada", "36", "00123"]), &float_of);
    let second = keyed_by_header(&headers, &mapping, &row(&["Grace", "45", "04510"]), &float_of);
    assert_eq!(Value::Object(object_json(&first)), value(r#"{ "name": "Ada", "age": 36, "zip": "00123" }"#));
    assert_eq!(Value::Object(object_json(&second)), value(r#"{ "name": "Grace", "age": 45, "zip": "04510" }"#));
}

#[test]
fn a_short_row_keys_only_the_columns_it_has() {
    let headers = row(&["name", "age", "zip"]);
    let mapping = create_header_mapping(&headers);
    let data = keyed_by_header(&headers, &mapping, &row(&["Ada"]), &float_of);
    assert_eq!(Value::Object(object_json(&data)), value(r#"{ "name": "Ada" }"#));
}

#[test]
fn a_headerless_source_keys_columns_by_position() {
    let first = keyed_by_position(&row(&["1", "Goroka", "\\N"]), &float_of);
    assert_eq!(Value::Object(object_json(&first)), value(r#"{ "0": 1, "1": "Goroka", "2": null }"#));
    let second = keyed_by_position(&row(&["2", "Madang", "POM"]), &float_of);
    assert_eq!(from_json(second.get("2").unwrap()), value(r#""POM""#));
}

#[test]
fn a_header_with_an_embedded_newline_is_folded_onto_one_line() {
    assert_eq!(clean_header("first\nsecond"), "first second");
    let headers = row(&["wind\nspeed"]);
    let mapping = create_header_mapping(&headers);
    assert_eq!(mapping[0].0, "wind\nspeed");
    assert_eq!(mapping[0].1, "wind speed");
    let data = keyed_by_header(&headers, &mapping, &row(&["3.5"]), &float_of);
    assert_eq!(from_json(data.get("wind speed").unwrap()), value("3.5"));
}

#[test]
fn a_deeply_nested_feature_is_still_recognized_as_geojson() {
    let depth = 200;
    let nested = format!("{}1{}", "[".repeat(depth), "]".repeat(depth));
    let text = format!(r#"{{"type": "Feature", "geometry": null, "properties": {{"deep": {nested}}}}}"#);
    let mut document = JsonObject::new();
    document.insert("type".to_string(), JsonValue::Text("Feature".to_string()));
    assert!(is_geojson(&JsonValue::Object(document), text.as_bytes()));
}
