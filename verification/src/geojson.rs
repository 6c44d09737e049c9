//! The top-level GeoJSON object: dispatch on the `type` tag.

use vstd::prelude::*;
use crate::json::{JsonValue, JsonObject, JsonObjectView, JsonView, obj_has_key, obj_lookup,
    key_first_index};
use crate::error::{Error, ErrorView};
use crate::model::{
    Geometry, Feature, FeatureCollection, GeometryView, FeatureView, FeatureCollectionView, gview,
    fview, fcview, g_no_foreign, f_no_foreign, fc_no_foreign,
};
use crate::codec::{
    sdec_geometry_obj, sdec_feature_obj, sdec_fc_obj, senc_geometry, senc_feature, senc_fc,
    lemma_roundtrip_geometry, lemma_roundtrip_feature, lemma_roundtrip_feature_collection,
    lemma_tags_distinct,
};
use crate::util::string_eq;

verus! {

/// A GeoJSON object: a geometry, a feature, or a feature collection.
#[derive(Debug, PartialEq)]
pub enum GeoJsonBase {
    Geometry(Geometry),
    Feature(Feature),
    FeatureCollection(FeatureCollection),
}

/// The mathematical shape of a [`GeoJsonBase`].
#[verifier::ext_equal]
pub enum GeoJsonView {
    Geometry(GeometryView),
    Feature(FeatureView),
    FeatureCollection(FeatureCollectionView),
}

/// The shape of a GeoJSON object.
pub open spec fn gjview(g: GeoJsonBase) -> GeoJsonView {
    match g {
        GeoJsonBase::Geometry(x) => GeoJsonView::Geometry(gview(x)),
        GeoJsonBase::Feature(x) => GeoJsonView::Feature(fview(x)),
        GeoJsonBase::FeatureCollection(x) => GeoJsonView::FeatureCollection(fcview(x)),
    }
}

impl View for GeoJsonBase {
    type V = GeoJsonView;

    open spec fn view(&self) -> GeoJsonView {
        gjview(*self)
    }
}

/// A GeoJSON shape without foreign members, recursively.
pub open spec fn gj_no_foreign(v: GeoJsonView) -> bool {
    match v {
        GeoJsonView::Geometry(g) => g_no_foreign(g),
        GeoJsonView::Feature(f) => f_no_foreign(f),
        GeoJsonView::FeatureCollection(fc) => fc_no_foreign(fc),
    }
}

/// The nine recognized `type` tags.
#[derive(Debug, PartialEq, Eq, Clone, Copy)]
pub enum Type {
    Point,
    MultiPoint,
    LineString,
    MultiLineString,
    Polygon,
    MultiPolygon,
    GeometryCollection,
    Feature,
    FeatureCollection,
}

/// The variant a tag string names, if any.
pub open spec fn stype_of(t: Seq<char>) -> Option<Type> {
    if t == "Point"@ {
        Option::Some(Type::Point)
    } else if t == "MultiPoint"@ {
        Option::Some(Type::MultiPoint)
    } else if t == "LineString"@ {
        Option::Some(Type::LineString)
    } else if t == "MultiLineString"@ {
        Option::Some(Type::MultiLineString)
    } else if t == "Polygon"@ {
        Option::Some(Type::Polygon)
    } else if t == "MultiPolygon"@ {
        Option::Some(Type::MultiPolygon)
    } else if t == "GeometryCollection"@ {
        Option::Some(Type::GeometryCollection)
    } else if t == "Feature"@ {
        Option::Some(Type::Feature)
    } else if t == "FeatureCollection"@ {
        Option::Some(Type::FeatureCollection)
    } else {
        Option::None
    }
}

impl Type {
    /// Reads a tag string.
    pub fn from_str(s: &str) -> (r: Option<Type>)
        ensures
            r == stype_of(s@),
    {
        let owned: String = s.to_owned();
        if string_eq(&owned, "Point") {
            Some(Type::Point)
        } else if string_eq(&owned, "MultiPoint") {
            Some(Type::MultiPoint)
        } else if string_eq(&owned, "LineString") {
            Some(Type::LineString)
        } else if string_eq(&owned, "MultiLineString") {
            Some(Type::MultiLineString)
        } else if string_eq(&owned, "Polygon") {
            Some(Type::Polygon)
        } else if string_eq(&owned, "MultiPolygon") {
            Some(Type::MultiPolygon)
        } else if string_eq(&owned, "GeometryCollection") {
            Some(Type::GeometryCollection)
        } else if string_eq(&owned, "Feature") {
            Some(Type::Feature)
        } else if string_eq(&owned, "FeatureCollection") {
            Some(Type::FeatureCollection)
        } else {
            None
        }
    }
}

/// A GeoJSON object from a JSON object: the `type` tag is read without
/// being taken out, and routes to the matching decoder; its absence or a
/// non-string value is `ExpectedProperty`, an unrecognized string is
/// `GeoJsonUnknownType`.
pub open spec fn sdec_geojson(s: JsonObjectView) -> Result<GeoJsonView, ErrorView> {
    if obj_has_key(s, "type"@) {
        match obj_lookup(s, "type"@) {
            JsonView::Str(t) => match stype_of(t) {
                Option::None => Err(ErrorView::GeoJsonUnknownType),
                Option::Some(ty) => match ty {
                    Type::Feature => match sdec_feature_obj(s) {
                        Ok(f) => Ok(GeoJsonView::Feature(f)),
                        Err(e) => Err(e),
                    },
                    Type::FeatureCollection => match sdec_fc_obj(s) {
                        Ok(c) => Ok(GeoJsonView::FeatureCollection(c)),
                        Err(e) => Err(e),
                    },
                    _ => match sdec_geometry_obj(s) {
                        Ok(g) => Ok(GeoJsonView::Geometry(g)),
                        Err(e) => Err(e),
                    },
                },
            },
            _ => Err(ErrorView::ExpectedProperty("type"@)),
        }
    } else {
        Err(ErrorView::ExpectedProperty("type"@))
    }
}

/// A GeoJSON object from any JSON value: the value must be an object.
pub open spec fn sdec_geojson_value(j: JsonView) -> Result<GeoJsonView, ErrorView> {
    match j {
        JsonView::Obj(o) => sdec_geojson(o),
        _ => Err(ErrorView::GeoJsonExpectedObject),
    }
}

/// A GeoJSON object as a JSON object, by variant.
pub open spec fn senc_geojson(v: GeoJsonView) -> JsonObjectView {
    match v {
        GeoJsonView::Geometry(g) => senc_geometry(g),
        GeoJsonView::Feature(f) => senc_feature(f),
        GeoJsonView::FeatureCollection(fc) => senc_fc(fc),
    }
}

impl GeoJsonBase {
    /// Decodes a GeoJSON object of any kind from a JSON object, routed
    /// by the `type` tag.
    pub fn from_json_object(object: JsonObject) -> (r: Result<GeoJsonBase, Error>)
        ensures
            match sdec_geojson(object@) {
                Ok(v) => r matches Ok(g) && g@ == v,
                Err(e) => r matches Err(er) && er@ == e,
            },
    {
        let ty: Option<Type> = match object.get("type") {
            Some(v) => match v {
                JsonValue::Str(t) => Type::from_str(t.as_str()),
                _ => {
                    return Err(Error::ExpectedProperty("type".to_owned()));
                },
            },
            None => {
                return Err(Error::ExpectedProperty("type".to_owned()));
            },
        };
        match ty {
            None => Err(Error::GeoJsonUnknownType),
            Some(Type::Feature) => match Feature::from_json_object(object) {
                Ok(f) => Ok(GeoJsonBase::Feature(f)),
                Err(e) => Err(e),
            },
            Some(Type::FeatureCollection) => match FeatureCollection::from_json_object(object) {
                Ok(c) => Ok(GeoJsonBase::FeatureCollection(c)),
                Err(e) => Err(e),
            },
            Some(_) => match Geometry::from_json_object(object) {
                Ok(g) => Ok(GeoJsonBase::Geometry(g)),
                Err(e) => Err(e),
            },
        }
    }

    /// Decodes a GeoJSON object from any JSON value; a value that is not
    /// an object is `GeoJsonExpectedObject`.
    pub fn from_json_value(value: JsonValue) -> (r: Result<GeoJsonBase, Error>)
        ensures
            match sdec_geojson_value(value@) {
                Ok(v) => r matches Ok(g) && g@ == v,
                Err(e) => r matches Err(er) && er@ == e,
            },
    {
        match value {
            JsonValue::Obj(o) => Self::from_json_object(o),
            _ => Err(Error::GeoJsonExpectedObject),
        }
    }

    /// Encodes the object as a JSON object, by variant.
    pub fn to_json_object(self) -> (r: JsonObject)
        ensures
            r@ == senc_geojson(self@),
    {
        match self {
            GeoJsonBase::Geometry(g) => g.to_json_object(),
            GeoJsonBase::Feature(f) => f.to_json_object(),
            GeoJsonBase::FeatureCollection(fc) => fc.to_json_object(),
        }
    }
}

impl Clone for GeoJsonBase {
    /// A deep copy with the same shape.
    fn clone(&self) -> (r: GeoJsonBase)
        ensures
            r@ == self@,
    {
        match self {
            GeoJsonBase::Geometry(g) => GeoJsonBase::Geometry(g.clone()),
            GeoJsonBase::Feature(f) => GeoJsonBase::Feature(f.clone()),
            GeoJsonBase::FeatureCollection(fc) => GeoJsonBase::FeatureCollection(fc.clone()),
        }
    }
}

/// The object inside a JSON value, if it holds one.
pub fn json_value_into_json_object(json_value: JsonValue) -> (r: Option<JsonObject>)
    ensures
        match json_value@ {
            JsonView::Obj(o) => r matches Some(m) && m@ == o,
            _ => r is None,
        },
{
    if let JsonValue::Obj(geo) = json_value {
        Some(geo)
    } else {
        None
    }
}

/// Decoding an encoded GeoJSON object of any kind gives it back, foreign
/// members absent: the dispatcher reads the tag the encoder wrote.
pub proof fn lemma_roundtrip_geojson(v: GeoJsonView)
    requires
        gj_no_foreign(v),
    ensures
        sdec_geojson(senc_geojson(v)) == Ok::<GeoJsonView, ErrorView>(v),
{
    lemma_tags_distinct();
    let enc = senc_geojson(v);
    match v {
        GeoJsonView::Geometry(g) => {
            let tag = crate::codec::senc_value_entries(g.value)[0].1->Str_0;
            assert(enc[0] == ("type"@, JsonView::Str(tag)));
            assert(key_first_index(enc, "type"@) == 0);
            assert(stype_of(tag) matches Option::Some(ty) && !(ty is Feature) && !(ty
                is FeatureCollection));
            lemma_roundtrip_geometry(g);
        },
        GeoJsonView::Feature(f) => {
            assert(enc[0] == ("type"@, JsonView::Str("Feature"@)));
            assert(key_first_index(enc, "type"@) == 0);
            lemma_roundtrip_feature(f);
        },
        GeoJsonView::FeatureCollection(fc) => {
            assert(enc[0] == ("type"@, JsonView::Str("FeatureCollection"@)));
            assert(key_first_index(enc, "type"@) == 0);
            lemma_roundtrip_feature_collection(fc);
        },
    }
}

} // verus!
