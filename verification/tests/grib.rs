use cassiopeia::grib::grid_slice::{pivot_slices, DecodedField, GridSlice, GridSliceKey, GridSliceSet};
use cassiopeia::grib::level::{GribLevel, LevelType, MISSING_SURFACE};
use cassiopeia::grib::message::{edition_from_indicator, format_timestamp, GribEdition, GribIngestError};
use cassiopeia::grib::parameter::{parameter_key_grib1, parameter_key_grib2, submessage_parameter, GribParameter, ParameterName};
use cassiopeia::record::{JsonNumber, JsonObject, JsonValue};

fn bits(x: f64) -> u64 {
    x.to_bits()
}

fn number(value: Option<&JsonValue>) -> Option<f64> {
    match value {
        Some(JsonValue::Number(JsonNumber::Float(bits))) => Some(f64::from_bits(*bits)),
        Some(JsonValue::Number(JsonNumber::Integer(i))) => Some(*i as f64),
        Some(JsonValue::Number(JsonNumber::Unsigned(u))) => Some(*u as f64),
        _ => None,
    }
}

fn text(value: Option<&JsonValue>) -> Option<&str> {
    match value {
        Some(JsonValue::Text(s)) => Some(s.as_str()),
        _ => None,
    }
}

fn level(surface_type: u8, value: f64) -> Option<GribLevel> {
    GribLevel::from_grib2(surface_type, bits(value), bits(value / 100.0))
}

fn eccodes(token: &str, raw: Option<i64>) -> GribLevel {
    let widened = raw.and_then(|r| i32::try_from(r).ok()).map(f64::from).unwrap_or(f64::NAN);
    GribLevel::from_eccodes(token, raw, bits(widened), bits(widened / 100.0))
}

#[test]
fn a_known_grib2_triple_resolves_to_its_canonical_key() {
    assert_eq!(parameter_key_grib2(0, 0, 0).as_str(), "temperature");
}

#[test]
fn total_precipitation_resolves_to_the_canonical_precip_key() {
    assert_eq!(parameter_key_grib2(0, 1, 8).as_str(), "precip");
}

#[test]
fn the_u_wind_component_resolves_to_its_canonical_key() {
    assert_eq!(parameter_key_grib2(0, 2, 2).as_str(), "wind_u");
}

#[test]
fn a_multiword_parameter_serializes_to_snake_case() {
    assert_eq!(GribParameter::PressureMsl.key(), "pressure_msl");
    assert_eq!(GribParameter::GeopotentialHeight.key(), "geopotential_height");
}

#[test]
fn an_unknown_grib2_triple_falls_back_to_a_synthetic_key() {
    assert_eq!(parameter_key_grib2(0, 99, 5).as_str(), "d0c99n5");
}

#[test]
fn a_known_grib1_indicator_resolves_to_its_canonical_key() {
    assert_eq!(parameter_key_grib1(2, 7, 11).as_str(), "temperature");
    assert_eq!(parameter_key_grib1(2, 7, 33).as_str(), "wind_u");
    assert_eq!(parameter_key_grib1(2, 7, 61).as_str(), "precip");
}

#[test]
fn an_unregistered_grib1_indicator_falls_back_to_a_synthetic_key() {
    assert_eq!(parameter_key_grib1(128, 250, 200).as_str(), "g1t128c250p200");
}

#[test]
fn a_negative_grib1_indicator_keeps_its_sign_in_the_synthetic_key() {
    assert_eq!(parameter_key_grib1(-1, 7, -3).as_str(), "g1t-1c7p-3");
}

#[test]
fn the_two_editions_agree_on_the_canonical_key_for_the_same_quantity() {
    assert_eq!(parameter_key_grib2(0, 0, 0).as_str(), parameter_key_grib1(2, 7, 11).as_str());
    assert_eq!(parameter_key_grib2(0, 0, 0).as_str(), "temperature");
}

#[test]
fn a_parameter_resolves_from_either_edition_to_the_same_variant() {
    assert_eq!(GribParameter::from_grib2(0, 0, 0), Some(GribParameter::Temperature));
    assert_eq!(GribParameter::from_grib1(11), Some(GribParameter::Temperature));
    assert_eq!(GribParameter::from_grib2(0, 99, 5), None);
    assert_eq!(GribParameter::from_grib1(250), None);
    assert_eq!(ParameterName::from("precip").as_str(), "precip");
}

#[test]
fn the_level_type_serializes_to_snake_case() {
    assert_eq!(LevelType::HeightAboveGround.key(), "height_above_ground");
    assert_eq!(LevelType::MeanSeaLevel.key(), "mean_sea_level");
    assert_eq!(LevelType::DepthBelowLand.key(), "depth_below_land");
}

#[test]
fn both_level_sources_name_the_same_type() {
    assert_eq!(LevelType::from_grib2(103), Some(LevelType::HeightAboveGround));
    assert_eq!(LevelType::from_eccodes("heightAboveGround"), Some(LevelType::HeightAboveGround));
    assert_eq!(LevelType::from_eccodes("isobaricInPa"), Some(LevelType::Isobaric));
    assert_eq!(LevelType::from_grib2(MISSING_SURFACE), None);
    assert!(LevelType::Isobaric.has_value());
    assert!(!LevelType::Surface.has_value());
}

#[test]
fn a_height_surface_type_normalizes_to_the_canonical_token_and_value() {
    let level = level(103, 2.0).unwrap();
    assert_eq!(level.type_token(), "height_above_ground");
    assert_eq!(level.value(), Some(bits(2.0)));
}

#[test]
fn eccodes_height_above_ground_matches_the_grib2_normalization() {
    let level = eccodes("heightAboveGround", Some(2));
    assert_eq!(level.type_token(), "height_above_ground");
    assert_eq!(level.value(), Some(bits(2.0)));
}

#[test]
fn isobaric_levels_normalize_to_the_same_hectopascal_number_across_backends() {
    let grib_rs = level(100, 85_000.0).unwrap();
    let from_pascals = eccodes("isobaricInPa", Some(85_000));
    let from_hectopascals = eccodes("isobaricInhPa", Some(850));
    assert_eq!(grib_rs.type_token(), "isobaric");
    assert_eq!(grib_rs.value(), Some(bits(850.0)));
    assert_eq!(from_pascals.value(), Some(bits(850.0)));
    assert_eq!(from_hectopascals.value(), Some(bits(850.0)));
}

#[test]
fn a_surface_level_type_carries_no_numeric_value() {
    let level = level(1, f64::NAN).unwrap();
    assert_eq!(level.type_token(), "surface");
    assert_eq!(level.value(), None);
}

#[test]
fn the_missing_surface_type_produces_no_level() {
    assert!(level(255, f64::NAN).is_none());
}

#[test]
fn an_unknown_grib2_surface_type_keeps_a_stable_fallback_token() {
    let level = level(240, 5.0).unwrap();
    assert_eq!(level.type_token(), "sfc240");
    assert_eq!(level.value(), Some(bits(5.0)));
}

#[test]
fn an_unknown_eccodes_type_of_level_keeps_the_raw_token() {
    let level = eccodes("someExoticLevel", Some(3));
    assert_eq!(level.type_token(), "someExoticLevel");
    assert_eq!(level.value(), Some(bits(3.0)));
}

#[test]
fn a_level_outside_the_i32_range_drops_its_value() {
    let level = GribLevel::from_eccodes("heightAboveGround", Some(i64::MAX), bits(1.0), bits(0.01));
    assert_eq!(level.type_token(), "height_above_ground");
    assert_eq!(level.value(), None);
}

#[test]
fn two_fields_at_the_same_level_share_a_group_key() {
    let a = level(103, 2.0).unwrap().group_key();
    let b = level(103, 2.0).unwrap().group_key();
    let c = level(103, 10.0).unwrap().group_key();
    assert!(a.same_as(&b));
    assert!(!a.same_as(&c));
}

fn slice() -> GridSlice {
    let mut slice = GridSlice::new(
        vec![(bits(46.25), bits(14.0)), (bits(46.25), bits(14.5))],
        level(103, 2.0),
        Some("2026-08-18T07:30:00+00:00".to_string()),
        Some("2026-08-18T13:30:00+00:00".to_string()),
    );
    slice.add_parameter(ParameterName::from("temperature"), vec![bits(280.5), bits(281.0)]);
    slice.add_parameter(ParameterName::from("precip"), vec![bits(0.25), bits(0.5)]);
    slice
}

#[test]
fn a_cell_becomes_one_location_record_with_every_parameter_as_a_column() {
    let slice = slice();
    assert_eq!(slice.level_value(), Some(bits(2.0)));
    let records = slice.into_records(Some(JsonValue::Number(JsonNumber::Integer(2))));
    assert_eq!(records.len(), 2);

    let first = records[0].data();
    assert_eq!(number(first.get("latitude")), Some(46.25));
    assert_eq!(number(first.get("longitude")), Some(14.0));
    assert_eq!(number(first.get("temperature")), Some(280.5));
    assert_eq!(number(first.get("precip")), Some(0.25));
    assert_eq!(text(first.get("level_type")), Some("height_above_ground"));
    assert!(matches!(first.get("level"), Some(JsonValue::Number(JsonNumber::Integer(2)))));
    assert_eq!(text(first.get("forecastTime")), Some("2026-08-18T13:30:00+00:00"));
    assert_eq!(text(first.get("referenceTime")), Some("2026-08-18T07:30:00+00:00"));
    assert_eq!(records[0].collection(), &None);
    assert_eq!(number(records[1].data().get("longitude")), Some(14.5));
    assert_eq!(number(records[1].data().get("precip")), Some(0.5));
}

#[test]
fn a_masked_parameter_is_omitted_but_the_cell_survives_on_its_other_values() {
    let mut slice = GridSlice::new(vec![(bits(46.25), bits(14.0))], None, None, None);
    slice.add_parameter(ParameterName::from("temperature"), vec![bits(f64::NAN)]);
    slice.add_parameter(ParameterName::from("precip"), vec![bits(0.5)]);
    let records = slice.into_records(None);

    assert_eq!(records.len(), 1);
    let data = records[0].data();
    assert!(data.get("temperature").is_none());
    assert_eq!(number(data.get("precip")), Some(0.5));
    assert!(data.get("level_type").is_none());
}

#[test]
fn grid_slice_a_cell_masked_in_every_parameter_produces_no_record() {
    let mut slice = GridSlice::new(vec![(bits(46.2), bits(14.0))], None, None, None);
    slice.add_parameter(ParameterName::from("temperature"), vec![bits(f64::NAN)]);
    slice.add_parameter(ParameterName::from("precip"), vec![bits(f64::NAN)]);
    assert!(slice.into_records(None).is_empty());
}

fn field(name: &str, forecast: &str, value: f64) -> DecodedField {
    DecodedField {
        grid: vec![1, 2, 3],
        parameter: ParameterName::from(name),
        latlons: vec![(bits(46.0), bits(14.0))],
        values: vec![bits(value)],
        level: level(103, 2.0),
        reference_time: Some("2026-08-18T00:00:00+00:00".to_string()),
        forecast_time: Some(forecast.to_string()),
    }
}

#[test]
fn the_grid_slice_set_groups_two_parameters_into_one_slice() {
    let mut set = GridSliceSet::new();
    set.add(field("temperature", "2026-08-18T06:00:00+00:00", 280.0));
    set.add(field("precip", "2026-08-18T06:00:00+00:00", 0.5));
    let slices = set.into_slices();
    assert_eq!(slices.len(), 1);
    let records = slices.into_iter().next().unwrap().into_records(Some(JsonValue::Number(JsonNumber::Integer(2))));
    assert_eq!(records.len(), 1);
    assert_eq!(number(records[0].data().get("temperature")), Some(280.0));
    assert_eq!(number(records[0].data().get("precip")), Some(0.5));
}

#[test]
fn the_same_parameter_at_different_forecast_times_yields_separate_slices() {
    let mut set = GridSliceSet::new();
    set.add(field("temperature", "2026-08-18T06:00:00+00:00", 280.0));
    set.add(field("temperature", "2026-08-18T12:00:00+00:00", 285.0));
    let slices = set.into_slices();
    assert_eq!(slices.len(), 2);
    let mut all = Vec::new();
    for slice in slices {
        all.extend(slice.into_records(Some(JsonValue::Number(JsonNumber::Integer(2)))));
    }
    assert_eq!(all.len(), 2);
    assert_eq!(text(all[0].data().get("forecastTime")), Some("2026-08-18T06:00:00+00:00"));
    assert_eq!(number(all[1].data().get("temperature")), Some(285.0));
}

#[test]
fn slice_keys_compare_every_component() {
    let a = GridSliceKey::new(vec![1], None, Some("t".to_string()), None);
    let b = GridSliceKey::new(vec![1], None, Some("t".to_string()), None);
    let c = GridSliceKey::new(vec![2], None, Some("t".to_string()), None);
    let d = GridSliceKey::new(vec![1], None, None, None);
    assert!(a.same_as(&b));
    assert!(!a.same_as(&c));
    assert!(!a.same_as(&d));
}

#[test]
fn packed_date_and_time_integers_become_an_rfc_3339_timestamp() {
    assert_eq!(format_timestamp(20260818, 730), "2026-08-18T07:30:00+00:00");
    assert_eq!(format_timestamp(19991231, 0), "1999-12-31T00:00:00+00:00");
}

#[test]
fn the_indicator_octet_names_the_edition() {
    assert_eq!(edition_from_indicator(1).ok(), Some(GribEdition::V1));
    assert_eq!(edition_from_indicator(2).ok(), Some(GribEdition::V2));
    assert!(matches!(edition_from_indicator(3), Err(GribIngestError::UnsupportedEdition(3))));
}

#[test]
fn an_empty_object_reads_nothing() {
    let object = JsonObject::new();
    assert_eq!(object.len(), 0);
    assert!(object.get("anything").is_none());
}

fn grid_field(category: u8, number: u8, forecast: &str, data: [f64; 4]) -> DecodedField {
    DecodedField {
        grid: vec![0, 3, 7],
        parameter: parameter_key_grib2(0, category, number),
        latlons: vec![
            (bits(46.2), bits(14.0)),
            (bits(46.2), bits(14.3)),
            (bits(46.0), bits(14.0)),
            (bits(46.0), bits(14.3)),
        ],
        values: data.iter().map(|value| bits(*value)).collect(),
        level: level(103, 2.0),
        reference_time: Some("2026-08-18T07:30:00+00:00".to_string()),
        forecast_time: Some(forecast.to_string()),
    }
}

const SIX_HOURS: &str = "2026-08-18T13:30:00+00:00";

fn pivot(fields: Vec<DecodedField>) -> Vec<cassiopeia::record::Record> {
    let mut set = GridSliceSet::new();
    for field in fields {
        set.add(field);
    }
    let slices = set.into_slices();
    let levels = slices.iter().map(|slice| slice.level_value().map(|_| JsonValue::Number(JsonNumber::Integer(2)))).collect();
    pivot_slices(slices, levels)
}

#[test]
fn co_located_parameters_pivot_into_columns_of_one_location_record() {
    let records = pivot(vec![
        grid_field(0, 0, SIX_HOURS, [280.0, 281.0, 282.0, 283.0]),
        grid_field(1, 8, SIX_HOURS, [0.1, 0.2, 0.3, 0.4]),
    ]);
    assert_eq!(records.len(), 4);
    for record in &records {
        assert_eq!(record.collection(), &None);
        let data = record.data();
        assert!(data.get("latitude").is_some());
        assert!(data.get("longitude").is_some());
        assert!(data.get("temperature").is_some());
        assert!(data.get("precip").is_some());
        assert_eq!(text(data.get("level_type")), Some("height_above_ground"));
        assert_eq!(number(data.get("level")), Some(2.0));
        assert_eq!(text(data.get("forecastTime")), Some(SIX_HOURS));
    }
}

#[test]
fn the_same_parameter_at_different_forecast_times_yields_separate_records() {
    let records = pivot(vec![
        grid_field(0, 0, SIX_HOURS, [280.0, 281.0, 282.0, 283.0]),
        grid_field(0, 0, "2026-08-18T19:30:00+00:00", [284.0, 285.0, 286.0, 287.0]),
    ]);
    assert_eq!(records.len(), 8);
    let at = |time: &str| records.iter().filter(|record| text(record.data().get("forecastTime")) == Some(time)).count();
    assert_eq!(at(SIX_HOURS), 4);
    assert_eq!(at("2026-08-18T19:30:00+00:00"), 4);
}

#[test]
fn a_masked_parameter_is_dropped_from_the_cell_but_co_located_values_remain() {
    let records = pivot(vec![
        grid_field(0, 0, SIX_HOURS, [280.0, f64::NAN, 282.0, 283.0]),
        grid_field(1, 8, SIX_HOURS, [0.1, 0.2, 0.3, 0.4]),
    ]);
    assert_eq!(records.len(), 4);
    assert_eq!(records.iter().filter(|record| record.data().get("temperature").is_none()).count(), 1);
    assert!(records.iter().all(|record| record.data().get("precip").is_some()));
}

#[test]
fn ingestor_a_cell_masked_in_every_parameter_produces_no_record() {
    let records = pivot(vec![grid_field(0, 0, SIX_HOURS, [280.0, f64::NAN, 282.0, 283.0])]);
    assert_eq!(records.len(), 3);
}

#[test]
fn longitude_and_latitude_are_emitted_in_the_correct_order() {
    let records = pivot(vec![grid_field(0, 0, SIX_HOURS, [280.0, 281.0, 282.0, 283.0])]);
    let first = records.iter().find(|record| number(record.data().get("temperature")) == Some(280.0)).unwrap();
    assert_eq!(number(first.data().get("latitude")), Some(46.2));
    assert_eq!(number(first.data().get("longitude")), Some(14.0));
}

#[test]
fn an_unknown_parameter_becomes_a_synthetic_column() {
    let records = pivot(vec![grid_field(99, 5, SIX_HOURS, [1.0, 2.0, 3.0, 4.0])]);
    assert!(!records.is_empty());
    assert!(records.iter().all(|record| record.data().get("d0c99n5").is_some()));
}

#[test]
fn an_unsupported_edition_is_rejected_from_the_header() {
    assert!(matches!(edition_from_indicator(9), Err(GribIngestError::UnsupportedEdition(9))));
}

#[test]
fn a_submessage_naming_its_parameter_contributes_its_column() {
    assert_eq!(submessage_parameter(0, Some(2), Some(2)).map(|name| name.as_str().to_string()), Some("wind_u".to_string()));
    assert_eq!(submessage_parameter(0, Some(99), Some(5)).map(|name| name.as_str().to_string()), Some("d0c99n5".to_string()));
    assert!(submessage_parameter(0, None, Some(2)).is_none());
    assert!(submessage_parameter(0, Some(0), None).is_none());
}

#[test]
fn the_three_isobaric_sources_agree_on_the_hectopascal_level() {
    let grib2 = level(100, 85000.0).unwrap();
    let in_pa = eccodes("isobaricInPa", Some(85000));
    let in_hpa = eccodes("isobaricInhPa", Some(850));
    for candidate in [&grib2, &in_pa, &in_hpa] {
        assert_eq!(candidate.type_token(), "isobaric");
        assert_eq!(candidate.value(), Some(bits(850.0)));
    }
}
