use geojson::error::Error;
use geojson::geojson::GeoJsonBase;
use geojson::json::{JsonNum, JsonObject, JsonValue};
use geojson::model::{Feature, FeatureCollection, Geometry, Id, Value};
use geojson::util::{expect_array, get_foreign_members, json_to_position};

fn num(x: f64) -> JsonNum {
    JsonNum::Float(x.to_bits())
}

fn jnum(x: f64) -> JsonValue {
    JsonValue::Num(num(x))
}

fn jstr(s: &str) -> JsonValue {
    JsonValue::Str(s.to_owned())
}

fn jobj(entries: Vec<(&str, JsonValue)>) -> JsonObject {
    JsonObject { entries: entries.into_iter().map(|(k, v)| (k.to_owned(), v)).collect() }
}

fn sample_point() -> Geometry {
    Geometry::new(Value::Point(vec![num(102.0), num(0.5)]))
}

#[test]
fn test_point_roundtrip() {
    let encoded = sample_point().to_json_object();
    let decoded = Geometry::from_json_object(encoded).unwrap();
    assert_eq!(decoded, sample_point());
}

#[test]
fn test_point_encoding_shape() {
    let encoded = sample_point().to_json_object();
    let expected = jobj(vec![
        ("type", jstr("Point")),
        ("coordinates", JsonValue::Arr(vec![jnum(102.0), jnum(0.5)])),
    ]);
    assert_eq!(encoded, expected);
}

#[test]
fn test_geometry_with_bbox_roundtrip() {
    let make = || Geometry {
        bbox: Some(vec![num(0.0), num(0.0), num(4.0), num(5.0)]),
        value: Value::MultiPoint(vec![
            vec![num(1.0), num(2.0)],
            vec![num(3.0), num(4.0)],
        ]),
        foreign_members: None,
    };
    let encoded = make().to_json_object();
    let decoded = Geometry::from_json_object(encoded).unwrap();
    assert_eq!(decoded, make());
}

#[test]
fn test_nested_geometry_collection_roundtrip() {
    let make = || {
        Geometry::new(Value::GeometryCollection(vec![Geometry::new(
            Value::GeometryCollection(vec![Geometry::new(Value::Point(vec![
                num(7.0),
                num(8.0),
            ]))]),
        )]))
    };
    let encoded = make().to_json_object();
    let decoded = Geometry::from_json_object(encoded).unwrap();
    assert_eq!(decoded, make());
    match decoded.value {
        Value::GeometryCollection(outer) => {
            assert_eq!(outer.len(), 1);
            match &outer[0].value {
                Value::GeometryCollection(inner) => {
                    assert_eq!(inner.len(), 1);
                    assert_eq!(
                        inner[0].value,
                        Value::Point(vec![num(7.0), num(8.0)])
                    );
                },
                other => panic!("expected nested collection, got {:?}", other),
            }
        },
        other => panic!("expected collection, got {:?}", other),
    }
}

#[test]
fn test_feature_roundtrip() {
    let make = || Feature {
        bbox: None,
        geometry: Some(sample_point()),
        id: Some(Id::Number(JsonNum::PosInt(42))),
        properties: Some(jobj(vec![("name", jstr("spot"))])),
        foreign_members: None,
    };
    let encoded = make().to_json_object();
    let decoded = Feature::from_json_object(encoded).unwrap();
    assert_eq!(decoded, make());
}

#[test]
fn test_feature_collection_roundtrip() {
    let make = || FeatureCollection {
        bbox: None,
        features: vec![
            Feature {
                bbox: None,
                geometry: Some(sample_point()),
                id: None,
                properties: None,
                foreign_members: None,
            },
            Feature {
                bbox: None,
                geometry: None,
                id: Some(Id::Str("two".to_owned())),
                properties: None,
                foreign_members: None,
            },
        ],
        foreign_members: None,
    };
    let encoded = make().to_json_object();
    let decoded = FeatureCollection::from_json_object(encoded).unwrap();
    assert_eq!(decoded, make());
}

#[test]
fn test_geojson_dispatch_roundtrip() {
    let make = || GeoJsonBase::Geometry(sample_point());
    let encoded = make().to_json_object();
    let decoded = GeoJsonBase::from_json_object(encoded).unwrap();
    assert_eq!(decoded, make());
}

#[test]
fn test_foreign_members_preserved() {
    let object = jobj(vec![
        ("type", jstr("Feature")),
        ("geometry", JsonValue::Null),
        ("properties", JsonValue::Null),
        ("custom", JsonValue::Num(JsonNum::PosInt(1))),
    ]);
    let feature = Feature::from_json_object(object).unwrap();
    assert_eq!(
        feature.foreign_members,
        Some(jobj(vec![("custom", JsonValue::Num(JsonNum::PosInt(1)))]))
    );
    let reencoded = feature.to_json_object();
    let expected = jobj(vec![
        ("type", jstr("Feature")),
        ("geometry", JsonValue::Null),
        ("properties", JsonValue::Null),
        ("custom", JsonValue::Num(JsonNum::PosInt(1))),
    ]);
    assert_eq!(reencoded, expected);
}

#[test]
fn test_no_foreign_members_is_absent_not_empty() {
    let object = jobj(vec![
        ("type", jstr("Feature")),
        ("geometry", JsonValue::Null),
        ("properties", JsonValue::Null),
    ]);
    let feature = Feature::from_json_object(object).unwrap();
    assert_eq!(feature.foreign_members, None);
    assert_eq!(get_foreign_members(JsonObject { entries: vec![] }).unwrap(), None);
}

#[test]
fn test_position_codec_roundtrip() {
    let json = JsonValue::Arr(vec![jnum(1.5), jnum(-2.5), jnum(3.0)]);
    let position = json_to_position(&json).unwrap();
    assert_eq!(position, vec![num(1.5), num(-2.5), num(3.0)]);
}

#[test]
fn test_expect_array_rejects_non_array() {
    let json = jstr("not an array");
    assert_eq!(expect_array(&json).unwrap_err(), Error::ExpectedArrayValue);
    let json = JsonValue::Arr(vec![jnum(9.0)]);
    assert_eq!(expect_array(&json).unwrap().len(), 1);
}

#[test]
fn test_integer_ids_roundtrip() {
    let make = || Feature {
        bbox: None,
        geometry: None,
        id: Some(Id::Number(JsonNum::NegInt(-3))),
        properties: None,
        foreign_members: None,
    };
    let encoded = make().to_json_object();
    let decoded = Feature::from_json_object(encoded).unwrap();
    assert_eq!(decoded, make());
}

#[test]
fn test_clone_then_encode_keeps_value() {
    let original = Geometry {
        bbox: Some(vec![num(0.0), num(1.0)]),
        value: Value::GeometryCollection(vec![sample_point()]),
        foreign_members: None,
    };
    let encoded = original.clone().to_json_object();
    let decoded = Geometry::from_json_object(encoded).unwrap();
    assert_eq!(decoded, original);
}
