use geojson::error::Error;
use geojson::geojson::GeoJsonBase;
use geojson::json::{JsonNum, JsonObject, JsonValue};
use geojson::model::{Feature, Geometry, Id, Value};

fn num(x: f64) -> JsonNum {
    JsonNum::Float(x.to_bits())
}

fn jnum(x: f64) -> JsonValue {
    JsonValue::Num(num(x))
}

fn jstr(s: &str) -> JsonValue {
    JsonValue::Str(s.to_owned())
}

fn jobj(entries: Vec<(&str, JsonValue)>) -> JsonObject {
    JsonObject { entries: entries.into_iter().map(|(k, v)| (k.to_owned(), v)).collect() }
}

fn point_object(x: f64, y: f64) -> JsonObject {
    jobj(vec![
        ("type", jstr("Point")),
        ("coordinates", JsonValue::Arr(vec![jnum(x), jnum(y)])),
    ])
}

#[test]
fn test_geojson_from_value() {
    let json_value = JsonValue::Obj(jobj(vec![
        ("type", jstr("Feature")),
        ("geometry", JsonValue::Obj(point_object(102.0, 0.5))),
        ("properties", JsonValue::Null),
    ]));

    assert!(matches!(json_value, JsonValue::Obj(_)));

    let geojson = GeoJsonBase::from_json_value(json_value).unwrap();

    assert_eq!(
        geojson,
        GeoJsonBase::Feature(Feature {
            bbox: None,
            geometry: Some(Geometry::new(Value::Point(vec![num(102.0), num(0.5)]))),
            id: None,
            properties: None,
            foreign_members: None,
        })
    );
}

#[test]
fn test_null_properties_distinction() {
    let object = jobj(vec![
        ("type", jstr("Feature")),
        ("properties", JsonValue::Null),
        ("geometry", JsonValue::Null),
    ]);
    let feature = Feature::from_json_object(object).unwrap();
    assert_eq!(feature.properties, None);
    assert_eq!(feature.geometry, None);
    assert_eq!(feature.foreign_members, None);
}

#[test]
fn test_missing_properties_key_fails() {
    let object = jobj(vec![("type", jstr("Feature")), ("geometry", JsonValue::Null)]);
    let err = Feature::from_json_object(object).unwrap_err();
    assert_eq!(err, Error::ExpectedProperty("properties".to_owned()));
}

#[test]
fn test_multipolygon_depth() {
    let object = jobj(vec![
        ("type", jstr("MultiPolygon")),
        (
            "coordinates",
            JsonValue::Arr(vec![JsonValue::Arr(vec![JsonValue::Arr(vec![
                JsonValue::Arr(vec![jnum(1.0), jnum(2.0)]),
                JsonValue::Arr(vec![jnum(3.0), jnum(4.0)]),
            ])])]),
        ),
    ]);
    let geometry = Geometry::from_json_object(object).unwrap();
    let expected: Vec<Vec<Vec<Vec<JsonNum>>>> =
        vec![vec![vec![vec![num(1.0), num(2.0)], vec![num(3.0), num(4.0)]]]];
    assert_eq!(geometry.value, Value::MultiPolygon(expected));
}

#[test]
fn test_multipolygon_wrong_depth_fails() {
    let object = jobj(vec![
        ("type", jstr("MultiPolygon")),
        ("coordinates", JsonValue::Arr(vec![jnum(1.0), jnum(2.0)])),
    ]);
    let err = Geometry::from_json_object(object).unwrap_err();
    assert_eq!(err, Error::ExpectedArrayValue);
}

#[test]
fn test_unknown_type_tag_fails() {
    let object = jobj(vec![
        ("type", jstr("Circle")),
        ("coordinates", JsonValue::Arr(vec![jnum(0.0), jnum(0.0)])),
    ]);
    let err = GeoJsonBase::from_json_object(object).unwrap_err();
    assert_eq!(err, Error::GeoJsonUnknownType);
}

#[test]
fn test_missing_type_tag_fails() {
    let object = jobj(vec![("coordinates", JsonValue::Arr(vec![]))]);
    let err = GeoJsonBase::from_json_object(object).unwrap_err();
    assert_eq!(err, Error::ExpectedProperty("type".to_owned()));
}

#[test]
fn test_non_string_type_tag_fails() {
    let object = jobj(vec![("type", jnum(7.0)), ("coordinates", JsonValue::Arr(vec![]))]);
    let err = GeoJsonBase::from_json_object(object).unwrap_err();
    assert_eq!(err, Error::ExpectedProperty("type".to_owned()));
    let object = jobj(vec![("type", jnum(7.0)), ("coordinates", JsonValue::Arr(vec![]))]);
    let err = Geometry::from_json_object(object).unwrap_err();
    assert_eq!(err, Error::ExpectedStringValue);
}

#[test]
fn test_non_object_input_fails() {
    let err = GeoJsonBase::from_json_value(JsonValue::Null).unwrap_err();
    assert_eq!(err, Error::GeoJsonExpectedObject);
}

#[test]
fn test_point_coordinate_not_numeric_fails() {
    let object = jobj(vec![
        ("type", jstr("Point")),
        ("coordinates", JsonValue::Arr(vec![jstr("a")])),
    ]);
    let err = Geometry::from_json_object(object).unwrap_err();
    assert_eq!(err, Error::ExpectedF64Value);
}

#[test]
fn test_geometries_element_not_object_fails() {
    let object = jobj(vec![
        ("type", jstr("GeometryCollection")),
        ("geometries", JsonValue::Arr(vec![jnum(1.0)])),
    ]);
    let err = Geometry::from_json_object(object).unwrap_err();
    assert_eq!(err, Error::ExpectedObjectValue);
}

#[test]
fn test_invalid_geometry_value_fails() {
    let object = jobj(vec![
        ("type", jstr("Feature")),
        ("geometry", jnum(5.0)),
        ("properties", JsonValue::Null),
    ]);
    let err = Feature::from_json_object(object).unwrap_err();
    assert_eq!(err, Error::FeatureInvalidGeometryValue);
}

#[test]
fn test_properties_wrong_type_fails() {
    let object = jobj(vec![
        ("type", jstr("Feature")),
        ("geometry", JsonValue::Null),
        ("properties", jstr("nope")),
    ]);
    let err = Feature::from_json_object(object).unwrap_err();
    assert_eq!(err, Error::PropertiesExpectedObjectOrNull);
}

#[test]
fn test_bbox_not_array_fails() {
    let object = jobj(vec![
        ("type", jstr("Point")),
        ("coordinates", JsonValue::Arr(vec![jnum(1.0), jnum(2.0)])),
        ("bbox", jstr("nope")),
    ]);
    let err = Geometry::from_json_object(object).unwrap_err();
    assert_eq!(err, Error::BboxExpectedArray);
}

#[test]
fn test_bbox_non_numeric_element_fails() {
    let object = jobj(vec![
        ("type", jstr("Point")),
        ("coordinates", JsonValue::Arr(vec![jnum(1.0), jnum(2.0)])),
        ("bbox", JsonValue::Arr(vec![jnum(0.0), jstr("x")])),
    ]);
    let err = Geometry::from_json_object(object).unwrap_err();
    assert_eq!(err, Error::BboxExpectedNumericValues);
}

#[test]
fn test_bbox_decoded() {
    let object = jobj(vec![
        ("type", jstr("Point")),
        ("coordinates", JsonValue::Arr(vec![jnum(1.0), jnum(2.0)])),
        ("bbox", JsonValue::Arr(vec![jnum(0.0), jnum(0.0), jnum(2.0), jnum(3.0)])),
    ]);
    let geometry = Geometry::from_json_object(object).unwrap();
    assert_eq!(geometry.bbox, Some(vec![num(0.0), num(0.0), num(2.0), num(3.0)]));
}

#[test]
fn test_feature_ids() {
    let object = jobj(vec![
        ("type", jstr("Feature")),
        ("geometry", JsonValue::Null),
        ("properties", JsonValue::Null),
        ("id", JsonValue::Num(JsonNum::PosInt(7))),
    ]);
    let feature = Feature::from_json_object(object).unwrap();
    assert_eq!(feature.id, Some(Id::Number(JsonNum::PosInt(7))));

    let object = jobj(vec![
        ("type", jstr("Feature")),
        ("geometry", JsonValue::Null),
        ("properties", JsonValue::Null),
        ("id", jstr("alpha")),
    ]);
    let feature = Feature::from_json_object(object).unwrap();
    assert_eq!(feature.id, Some(Id::Str("alpha".to_owned())));

    let object = jobj(vec![
        ("type", jstr("Feature")),
        ("geometry", JsonValue::Null),
        ("properties", JsonValue::Null),
        ("id", JsonValue::Bool(true)),
    ]);
    let err = Feature::from_json_object(object).unwrap_err();
    assert_eq!(err, Error::FeatureInvalidIdentifierType);
}

#[test]
fn test_empty_properties_object_is_some() {
    let object = jobj(vec![
        ("type", jstr("Feature")),
        ("geometry", JsonValue::Null),
        ("properties", JsonValue::Obj(JsonObject { entries: vec![] })),
    ]);
    let feature = Feature::from_json_object(object).unwrap();
    assert_eq!(feature.properties, Some(JsonObject { entries: vec![] }));
}
