//! The decode and encode relations, stated as spec functions.
//!
//! Each executable decoder and encoder of the crate is proved equal to the
//! corresponding spec function here, so error attribution (first error,
//! left to right) and the exact shape of every result are pinned down once,
//! in one place.

use vstd::prelude::*;
use crate::json::{
    JsonNum, JsonView, JsonObjectView, obj_has_key, obj_lookup, obj_without, key_first_index,
    lemma_key_first_index,
};
use crate::error::ErrorView;
use crate::model::{IdView, ValueView, GeometryView, FeatureView, FeatureCollectionView,
    g_no_foreign, gs_no_foreign, f_no_foreign, fs_no_foreign, fc_no_foreign};

verus! {

/// Taking an entry out of an object leaves a strictly smaller value.
pub proof fn lemma_obj_without_decreases(s: JsonObjectView, k: Seq<char>)
    requires
        obj_has_key(s, k),
    ensures
        decreases_to!(s => obj_without(s, k)),
{
    lemma_key_first_index(s, k);
    let f = key_first_index(s, k);
    let s2 = s.remove(f);
    assert(s2.len() < s.len());
    assert forall|i2: int| 0 <= i2 < s2.len() && #[trigger] vstd::pervasive::trigger(s2[i2])
        implies exists|i1: int| 0 <= i1 < s.len() && (#[trigger] s[i1]) == s2[i2] by {
        if i2 < f {
            assert(s[i2] == s2[i2]);
        } else {
            assert(s[i2 + 1] == s2[i2]);
        }
    }
    vstd::seq::axiom_seq_len_decreases(s, s2);
}

/// The value looked up in an object is strictly smaller than the object.
pub proof fn lemma_obj_lookup_decreases(s: JsonObjectView, k: Seq<char>)
    requires
        obj_has_key(s, k),
    ensures
        decreases_to!(s => obj_lookup(s, k)),
{
    lemma_key_first_index(s, k);
    let f = key_first_index(s, k);
    assert(decreases_to!(s => s[f]));
    assert(decreases_to!(s[f] => s[f].1));
}

// ---------------------------------------------------------------------------
// Decoding: leaves
// ---------------------------------------------------------------------------

/// A number from a JSON value.
pub open spec fn sdec_num(j: JsonView) -> Result<JsonNum, ErrorView> {
    match j {
        JsonView::Num(n) => Ok(n),
        _ => Err(ErrorView::ExpectedF64Value),
    }
}

/// Numbers from the elements of a JSON array, left to right, first error
/// wins.
pub open spec fn sdec_num_seq(s: Seq<JsonView>) -> Result<Seq<JsonNum>, ErrorView>
    decreases s.len(),
{
    if s.len() == 0 {
        Ok(Seq::empty())
    } else {
        match sdec_num(s[0]) {
            Err(e) => Err(e),
            Ok(n) => match sdec_num_seq(s.skip(1)) {
                Err(e) => Err(e),
                Ok(r) => Ok(seq![n] + r),
            },
        }
    }
}

/// One position: a JSON array of numbers.  No arity is enforced.
pub open spec fn sdec_position(j: JsonView) -> Result<Seq<JsonNum>, ErrorView> {
    match j {
        JsonView::Arr(a) => sdec_num_seq(a),
        _ => Err(ErrorView::ExpectedArrayValue),
    }
}

/// Positions from the elements of a JSON array.
pub open spec fn sdec_1d_seq(s: Seq<JsonView>) -> Result<Seq<Seq<JsonNum>>, ErrorView>
    decreases s.len(),
{
    if s.len() == 0 {
        Ok(Seq::empty())
    } else {
        match sdec_position(s[0]) {
            Err(e) => Err(e),
            Ok(p) => match sdec_1d_seq(s.skip(1)) {
                Err(e) => Err(e),
                Ok(r) => Ok(seq![p] + r),
            },
        }
    }
}

/// A one-dimensional coordinate payload: an array of positions.
pub open spec fn sdec_1d(j: JsonView) -> Result<Seq<Seq<JsonNum>>, ErrorView> {
    match j {
        JsonView::Arr(a) => sdec_1d_seq(a),
        _ => Err(ErrorView::ExpectedArrayValue),
    }
}

/// Rows of positions from the elements of a JSON array.
pub open spec fn sdec_2d_seq(s: Seq<JsonView>) -> Result<Seq<Seq<Seq<JsonNum>>>, ErrorView>
    decreases s.len(),
{
    if s.len() == 0 {
        Ok(Seq::empty())
    } else {
        match sdec_1d(s[0]) {
            Err(e) => Err(e),
            Ok(p) => match sdec_2d_seq(s.skip(1)) {
                Err(e) => Err(e),
                Ok(r) => Ok(seq![p] + r),
            },
        }
    }
}

/// A two-dimensional coordinate payload.
pub open spec fn sdec_2d(j: JsonView) -> Result<Seq<Seq<Seq<JsonNum>>>, ErrorView> {
    match j {
        JsonView::Arr(a) => sdec_2d_seq(a),
        _ => Err(ErrorView::ExpectedArrayValue),
    }
}

/// Grids of positions from the elements of a JSON array.
pub open spec fn sdec_3d_seq(s: Seq<JsonView>) -> Result<Seq<Seq<Seq<Seq<JsonNum>>>>, ErrorView>
    decreases s.len(),
{
    if s.len() == 0 {
        Ok(Seq::empty())
    } else {
        match sdec_2d(s[0]) {
            Err(e) => Err(e),
            Ok(p) => match sdec_3d_seq(s.skip(1)) {
                Err(e) => Err(e),
                Ok(r) => Ok(seq![p] + r),
            },
        }
    }
}

/// A three-dimensional coordinate payload.
pub open spec fn sdec_3d(j: JsonView) -> Result<Seq<Seq<Seq<Seq<JsonNum>>>>, ErrorView> {
    match j {
        JsonView::Arr(a) => sdec_3d_seq(a),
        _ => Err(ErrorView::ExpectedArrayValue),
    }
}

// ---------------------------------------------------------------------------
// Decoding: field extraction
// ---------------------------------------------------------------------------

/// Takes the named key out of the object; its absence is an error.
pub open spec fn sexpect_property(s: JsonObjectView, k: Seq<char>) -> Result<
    (JsonView, JsonObjectView),
    ErrorView,
> {
    if obj_has_key(s, k) {
        Ok((obj_lookup(s, k), obj_without(s, k)))
    } else {
        Err(ErrorView::ExpectedProperty(k))
    }
}

/// Takes the `type` tag out of the object; it must be a string.
pub open spec fn sexpect_type(s: JsonObjectView) -> Result<(Seq<char>, JsonObjectView), ErrorView> {
    match sexpect_property(s, "type"@) {
        Err(e) => Err(e),
        Ok((v, rest)) => match v {
            JsonView::Str(t) => Ok((t, rest)),
            _ => Err(ErrorView::ExpectedStringValue),
        },
    }
}

/// Numbers from the elements of a `bbox` array.
pub open spec fn sdec_bbox_nums(s: Seq<JsonView>) -> Result<Seq<JsonNum>, ErrorView>
    decreases s.len(),
{
    if s.len() == 0 {
        Ok(Seq::empty())
    } else {
        match s[0] {
            JsonView::Num(n) => match sdec_bbox_nums(s.skip(1)) {
                Err(e) => Err(e),
                Ok(r) => Ok(seq![n] + r),
            },
            _ => Err(ErrorView::BboxExpectedNumericValues),
        }
    }
}

/// Takes `bbox` out of the object if present; it must then be an array of
/// numbers.  Absence is not an error.
pub open spec fn sget_bbox(s: JsonObjectView) -> Result<
    (Option<Seq<JsonNum>>, JsonObjectView),
    ErrorView,
> {
    if !obj_has_key(s, "bbox"@) {
        Ok((Option::None, s))
    } else {
        match obj_lookup(s, "bbox"@) {
            JsonView::Arr(a) => match sdec_bbox_nums(a) {
                Err(e) => Err(e),
                Ok(b) => Ok((Option::Some(b), obj_without(s, "bbox"@))),
            },
            _ => Err(ErrorView::BboxExpectedArray),
        }
    }
}

/// Takes `properties` out of the object; the key is mandatory but its
/// value may be null, and null decodes to `None`.
pub open spec fn sget_properties(s: JsonObjectView) -> Result<
    (Option<JsonObjectView>, JsonObjectView),
    ErrorView,
> {
    match sexpect_property(s, "properties"@) {
        Err(e) => Err(e),
        Ok((v, rest)) => match v {
            JsonView::Obj(m) => Ok((Option::Some(m), rest)),
            JsonView::Null => Ok((Option::None, rest)),
            _ => Err(ErrorView::PropertiesExpectedObjectOrNull),
        },
    }
}

/// Takes `id` out of the object if present; it must then be a number or a
/// string.  Absence is not an error.
pub open spec fn sget_id(s: JsonObjectView) -> Result<
    (Option<IdView>, JsonObjectView),
    ErrorView,
> {
    if !obj_has_key(s, "id"@) {
        Ok((Option::None, s))
    } else {
        match obj_lookup(s, "id"@) {
            JsonView::Num(n) => Ok((Option::Some(IdView::Number(n)), obj_without(s, "id"@))),
            JsonView::Str(t) => Ok((Option::Some(IdView::Str(t)), obj_without(s, "id"@))),
            _ => Err(ErrorView::FeatureInvalidIdentifierType),
        }
    }
}

/// The keys left after extraction become the foreign members; none left
/// means absent, not an empty mapping.
pub open spec fn sforeign(s: JsonObjectView) -> Option<JsonObjectView> {
    if s.len() == 0 {
        Option::None
    } else {
        Option::Some(s)
    }
}

// ---------------------------------------------------------------------------
// Decoding: geometries
// ---------------------------------------------------------------------------

/// A coordinate payload for a non-recursive geometry kind, from the
/// `coordinates` key of `rest`.
pub open spec fn sdec_coords(
    rest: JsonObjectView,
    t: Seq<char>,
) -> Result<(ValueView, JsonObjectView), ErrorView> {
    match sexpect_property(rest, "coordinates"@) {
        Err(e) => Err(e),
        Ok((c, rest2)) => {
            if t == "Point"@ {
                match sdec_position(c) {
                    Err(e) => Err(e),
                    Ok(p) => Ok((ValueView::Point(p), rest2)),
                }
            } else if t == "MultiPoint"@ {
                match sdec_1d(c) {
                    Err(e) => Err(e),
                    Ok(p) => Ok((ValueView::MultiPoint(p), rest2)),
                }
            } else if t == "LineString"@ {
                match sdec_1d(c) {
                    Err(e) => Err(e),
                    Ok(p) => Ok((ValueView::LineString(p), rest2)),
                }
            } else if t == "MultiLineString"@ {
                match sdec_2d(c) {
                    Err(e) => Err(e),
                    Ok(p) => Ok((ValueView::MultiLineString(p), rest2)),
                }
            } else if t == "Polygon"@ {
                match sdec_2d(c) {
                    Err(e) => Err(e),
                    Ok(p) => Ok((ValueView::Polygon(p), rest2)),
                }
            } else {
                match sdec_3d(c) {
                    Err(e) => Err(e),
                    Ok(p) => Ok((ValueView::MultiPolygon(p), rest2)),
                }
            }
        },
    }
}

/// The coordinate payload of a geometry whose `type` tag has already been
/// taken out and read as `t`.
pub open spec fn sdec_value(t: Seq<char>, rest: JsonObjectView) -> Result<
    (ValueView, JsonObjectView),
    ErrorView,
>
    decreases rest,
    via sdec_value_dec
{
    if t == "Point"@ || t == "MultiPoint"@ || t == "LineString"@ || t == "MultiLineString"@
        || t == "Polygon"@ || t == "MultiPolygon"@ {
        sdec_coords(rest, t)
    } else if t == "GeometryCollection"@ {
        match sexpect_property(rest, "geometries"@) {
            Err(e) => Err(e),
            Ok((gv, rest2)) => match gv {
                JsonView::Arr(a) => match sdec_geometry_seq(a) {
                    Err(e) => Err(e),
                    Ok(gs) => Ok((ValueView::GeometryCollection(gs), rest2)),
                },
                _ => Err(ErrorView::ExpectedArrayValue),
            },
        }
    } else {
        Err(ErrorView::GeoJsonUnknownType)
    }
}

#[via_fn]
proof fn sdec_value_dec(t: Seq<char>, rest: JsonObjectView) {
    if obj_has_key(rest, "geometries"@) {
        lemma_obj_lookup_decreases(rest, "geometries"@);
        let gv = obj_lookup(rest, "geometries"@);
        if gv is Arr {
            assert(decreases_to!(gv => gv->Arr_0));
        }
    }
}

/// Geometries from the elements of a JSON array; each element must be an
/// object.
pub open spec fn sdec_geometry_seq(a: Seq<JsonView>) -> Result<Seq<GeometryView>, ErrorView>
    decreases a,
{
    if a.len() == 0 {
        Ok(Seq::empty())
    } else {
        match a[0] {
            JsonView::Obj(o) => match sdec_geometry_obj(o) {
                Err(e) => Err(e),
                Ok(g) => match sdec_geometry_seq(a.subrange(1, a.len() as int)) {
                    Err(e) => Err(e),
                    Ok(r) => Ok(seq![g] + r),
                },
            },
            _ => Err(ErrorView::ExpectedObjectValue),
        }
    }
}

/// A geometry from an object: type tag and coordinates, then bounding
/// box, then the residual keys as foreign members.
pub open spec fn sdec_geometry_obj(s: JsonObjectView) -> Result<GeometryView, ErrorView>
    decreases s, 1nat,
    via sdec_geometry_obj_dec
{
    match sexpect_type(s) {
        Err(e) => Err(e),
        Ok((t, rest)) => match sdec_value(t, rest) {
            Err(e) => Err(e),
            Ok((v, rest2)) => match sget_bbox(rest2) {
                Err(e) => Err(e),
                Ok((b, rest3)) => Ok(
                    GeometryView { bbox: b, value: v, foreign_members: sforeign(rest3) },
                ),
            },
        },
    }
}

#[via_fn]
proof fn sdec_geometry_obj_dec(s: JsonObjectView) {
    if obj_has_key(s, "type"@) {
        lemma_obj_without_decreases(s, "type"@);
    }
}

// ---------------------------------------------------------------------------
// Decoding: features and collections
// ---------------------------------------------------------------------------

/// Takes `geometry` out of the object; the key is mandatory but its value
/// may be null, and null decodes to `None`.
pub open spec fn sget_geometry(s: JsonObjectView) -> Result<
    (Option<GeometryView>, JsonObjectView),
    ErrorView,
> {
    match sexpect_property(s, "geometry"@) {
        Err(e) => Err(e),
        Ok((v, rest)) => match v {
            JsonView::Obj(o) => match sdec_geometry_obj(o) {
                Err(e) => Err(e),
                Ok(g) => Ok((Option::Some(g), rest)),
            },
            JsonView::Null => Ok((Option::None, rest)),
            _ => Err(ErrorView::FeatureInvalidGeometryValue),
        },
    }
}

/// A feature from an object: the tag must be `Feature`; then geometry,
/// properties, identifier and bounding box, then the residual keys.
pub open spec fn sdec_feature_obj(s: JsonObjectView) -> Result<FeatureView, ErrorView> {
    match sexpect_type(s) {
        Err(e) => Err(e),
        Ok((t, rest)) => {
            if t != "Feature"@ {
                Err(ErrorView::GeoJsonUnknownType)
            } else {
                match sget_geometry(rest) {
                    Err(e) => Err(e),
                    Ok((geom, r2)) => match sget_properties(r2) {
                        Err(e) => Err(e),
                        Ok((props, r3)) => match sget_id(r3) {
                            Err(e) => Err(e),
                            Ok((id, r4)) => match sget_bbox(r4) {
                                Err(e) => Err(e),
                                Ok((b, r5)) => Ok(
                                    FeatureView {
                                        bbox: b,
                                        geometry: geom,
                                        id: id,
                                        properties: props,
                                        foreign_members: sforeign(r5),
                                    },
                                ),
                            },
                        },
                    },
                }
            }
        },
    }
}

/// Features from the elements of a JSON array; each element must be an
/// object.
pub open spec fn sdec_feature_seq(a: Seq<JsonView>) -> Result<Seq<FeatureView>, ErrorView>
    decreases a.len(),
{
    if a.len() == 0 {
        Ok(Seq::empty())
    } else {
        match a[0] {
            JsonView::Obj(o) => match sdec_feature_obj(o) {
                Err(e) => Err(e),
                Ok(f) => match sdec_feature_seq(a.skip(1)) {
                    Err(e) => Err(e),
                    Ok(r) => Ok(seq![f] + r),
                },
            },
            _ => Err(ErrorView::ExpectedObjectValue),
        }
    }
}

/// A feature collection from an object: the tag must be
/// `FeatureCollection`; then features and bounding box, then the residual
/// keys.
pub open spec fn sdec_fc_obj(s: JsonObjectView) -> Result<FeatureCollectionView, ErrorView> {
    match sexpect_type(s) {
        Err(e) => Err(e),
        Ok((t, rest)) => {
            if t != "FeatureCollection"@ {
                Err(ErrorView::GeoJsonUnknownType)
            } else {
                match sexpect_property(rest, "features"@) {
                    Err(e) => Err(e),
                    Ok((fv, r2)) => match fv {
                        JsonView::Arr(a) => match sdec_feature_seq(a) {
                            Err(e) => Err(e),
                            Ok(fs) => match sget_bbox(r2) {
                                Err(e) => Err(e),
                                Ok((b, r3)) => Ok(
                                    FeatureCollectionView {
                                        bbox: b,
                                        features: fs,
                                        foreign_members: sforeign(r3),
                                    },
                                ),
                            },
                        },
                        _ => Err(ErrorView::ExpectedArrayValue),
                    },
                }
            }
        },
    }
}

// ---------------------------------------------------------------------------
// Encoding
// ---------------------------------------------------------------------------

/// A position as a JSON array of numbers.
pub open spec fn senc_position(p: Seq<JsonNum>) -> JsonView {
    JsonView::Arr(p.map_values(|n: JsonNum| JsonView::Num(n)))
}

/// A one-dimensional coordinate payload as nested JSON arrays.
pub open spec fn senc_1d(s: Seq<Seq<JsonNum>>) -> JsonView {
    JsonView::Arr(s.map_values(|p: Seq<JsonNum>| senc_position(p)))
}

/// A two-dimensional coordinate payload as nested JSON arrays.
pub open spec fn senc_2d(s: Seq<Seq<Seq<JsonNum>>>) -> JsonView {
    JsonView::Arr(s.map_values(|p: Seq<Seq<JsonNum>>| senc_1d(p)))
}

/// A three-dimensional coordinate payload as nested JSON arrays.
pub open spec fn senc_3d(s: Seq<Seq<Seq<Seq<JsonNum>>>>) -> JsonView {
    JsonView::Arr(s.map_values(|p: Seq<Seq<Seq<JsonNum>>>| senc_2d(p)))
}

/// The `bbox` entry, if a bounding box is present.
pub open spec fn senc_bbox_entries(b: Option<Seq<JsonNum>>) -> JsonObjectView {
    match b {
        Option::None => Seq::empty(),
        Option::Some(v) => seq![("bbox"@, senc_position(v))],
    }
}

/// The foreign-member entries, spliced in last.  A foreign member whose
/// key coincides with a reserved key is emitted after the structural
/// entries, so on a later decode the structural entry, coming first,
/// wins.
pub open spec fn senc_fm_entries(m: Option<JsonObjectView>) -> JsonObjectView {
    match m {
        Option::None => Seq::empty(),
        Option::Some(s) => s,
    }
}

/// The `id` entry, if an identifier is present.
pub open spec fn senc_id_entries(id: Option<IdView>) -> JsonObjectView {
    match id {
        Option::None => Seq::empty(),
        Option::Some(IdView::Number(n)) => seq![("id"@, JsonView::Num(n))],
        Option::Some(IdView::Str(t)) => seq![("id"@, JsonView::Str(t))],
    }
}

/// The `type` and coordinate entries of a geometry, by variant.
pub open spec fn senc_value_entries(v: ValueView) -> JsonObjectView
    decreases v,
{
    match v {
        ValueView::Point(p) => seq![
            ("type"@, JsonView::Str("Point"@)),
            ("coordinates"@, senc_position(p)),
        ],
        ValueView::MultiPoint(s) => seq![
            ("type"@, JsonView::Str("MultiPoint"@)),
            ("coordinates"@, senc_1d(s)),
        ],
        ValueView::LineString(s) => seq![
            ("type"@, JsonView::Str("LineString"@)),
            ("coordinates"@, senc_1d(s)),
        ],
        ValueView::MultiLineString(s) => seq![
            ("type"@, JsonView::Str("MultiLineString"@)),
            ("coordinates"@, senc_2d(s)),
        ],
        ValueView::Polygon(s) => seq![
            ("type"@, JsonView::Str("Polygon"@)),
            ("coordinates"@, senc_2d(s)),
        ],
        ValueView::MultiPolygon(s) => seq![
            ("type"@, JsonView::Str("MultiPolygon"@)),
            ("coordinates"@, senc_3d(s)),
        ],
        ValueView::GeometryCollection(gs) => seq![
            ("type"@, JsonView::Str("GeometryCollection"@)),
            ("geometries"@, JsonView::Arr(senc_geometry_seq(gs))),
        ],
    }
}

/// A geometry as an object: tag and coordinates, then bounding box, then
/// foreign members.
pub open spec fn senc_geometry(g: GeometryView) -> JsonObjectView
    decreases g,
{
    senc_value_entries(g.value) + senc_bbox_entries(g.bbox) + senc_fm_entries(g.foreign_members)
}

/// Geometries as an array of objects.
pub open spec fn senc_geometry_seq(s: Seq<GeometryView>) -> Seq<JsonView>
    decreases s,
{
    if s.len() == 0 {
        Seq::empty()
    } else {
        seq![JsonView::Obj(senc_geometry(s[0]))] + senc_geometry_seq(s.subrange(1, s.len() as int))
    }
}

/// An optional geometry: null when absent.
pub open spec fn senc_opt_geometry(g: Option<GeometryView>) -> JsonView {
    match g {
        Option::None => JsonView::Null,
        Option::Some(gv) => JsonView::Obj(senc_geometry(gv)),
    }
}

/// An optional mapping: null when absent.
pub open spec fn senc_opt_obj(m: Option<JsonObjectView>) -> JsonView {
    match m {
        Option::None => JsonView::Null,
        Option::Some(s) => JsonView::Obj(s),
    }
}

/// A feature as an object: tag, geometry and properties (null when
/// absent), then identifier, bounding box and foreign members.
pub open spec fn senc_feature(f: FeatureView) -> JsonObjectView {
    seq![
        ("type"@, JsonView::Str("Feature"@)),
        ("geometry"@, senc_opt_geometry(f.geometry)),
        ("properties"@, senc_opt_obj(f.properties)),
    ] + senc_id_entries(f.id) + senc_bbox_entries(f.bbox) + senc_fm_entries(f.foreign_members)
}

/// Features as an array of objects.
pub open spec fn senc_feature_seq(s: Seq<FeatureView>) -> Seq<JsonView>
    decreases s.len(),
{
    if s.len() == 0 {
        Seq::empty()
    } else {
        seq![JsonView::Obj(senc_feature(s[0]))] + senc_feature_seq(s.skip(1))
    }
}

/// A feature collection as an object: tag and features, then bounding box
/// and foreign members.
pub open spec fn senc_fc(fc: FeatureCollectionView) -> JsonObjectView {
    seq![
        ("type"@, JsonView::Str("FeatureCollection"@)),
        ("features"@, JsonView::Arr(senc_feature_seq(fc.features))),
    ] + senc_bbox_entries(fc.bbox) + senc_fm_entries(fc.foreign_members)
}

// ---------------------------------------------------------------------------
// Round trip: decoding an encoded value gives the value back
// ---------------------------------------------------------------------------


/// The nine type tags are pairwise distinct strings, and the optional
/// keys `bbox` and `id` differ.
pub proof fn lemma_tags_distinct()
    ensures
        "Point"@ != "MultiPoint"@,
        "Point"@ != "LineString"@,
        "Point"@ != "MultiLineString"@,
        "Point"@ != "Polygon"@,
        "Point"@ != "MultiPolygon"@,
        "Point"@ != "GeometryCollection"@,
        "Point"@ != "Feature"@,
        "Point"@ != "FeatureCollection"@,
        "MultiPoint"@ != "LineString"@,
        "MultiPoint"@ != "MultiLineString"@,
        "MultiPoint"@ != "Polygon"@,
        "MultiPoint"@ != "MultiPolygon"@,
        "MultiPoint"@ != "GeometryCollection"@,
        "MultiPoint"@ != "Feature"@,
        "MultiPoint"@ != "FeatureCollection"@,
        "LineString"@ != "MultiLineString"@,
        "LineString"@ != "Polygon"@,
        "LineString"@ != "MultiPolygon"@,
        "LineString"@ != "GeometryCollection"@,
        "LineString"@ != "Feature"@,
        "LineString"@ != "FeatureCollection"@,
        "MultiLineString"@ != "Polygon"@,
        "MultiLineString"@ != "MultiPolygon"@,
        "MultiLineString"@ != "GeometryCollection"@,
        "MultiLineString"@ != "Feature"@,
        "MultiLineString"@ != "FeatureCollection"@,
        "Polygon"@ != "MultiPolygon"@,
        "Polygon"@ != "GeometryCollection"@,
        "Polygon"@ != "Feature"@,
        "Polygon"@ != "FeatureCollection"@,
        "MultiPolygon"@ != "GeometryCollection"@,
        "MultiPolygon"@ != "Feature"@,
        "MultiPolygon"@ != "FeatureCollection"@,
        "GeometryCollection"@ != "Feature"@,
        "GeometryCollection"@ != "FeatureCollection"@,
        "Feature"@ != "FeatureCollection"@,
        "bbox"@ != "id"@,
{
    reveal_strlit("Point");
    reveal_strlit("MultiPoint");
    reveal_strlit("LineString");
    reveal_strlit("MultiLineString");
    reveal_strlit("Polygon");
    reveal_strlit("MultiPolygon");
    reveal_strlit("GeometryCollection");
    reveal_strlit("Feature");
    reveal_strlit("FeatureCollection");
    reveal_strlit("bbox");
    reveal_strlit("id");
    assert("Point"@.len() == 5);
    assert("MultiPoint"@.len() == 10);
    assert("LineString"@.len() == 10);
    assert("MultiLineString"@.len() == 15);
    assert("Polygon"@.len() == 7);
    assert("MultiPolygon"@.len() == 12);
    assert("GeometryCollection"@.len() == 18);
    assert("Feature"@.len() == 7);
    assert("FeatureCollection"@.len() == 17);
    assert("bbox"@.len() == 4);
    assert("id"@.len() == 2);
    assert("MultiPoint"@[0] == 'M');
    assert("LineString"@[0] == 'L');
    assert("Polygon"@[0] == 'P');
    assert("Feature"@[0] == 'F');
}

/// Decoding the numbers of an encoded position gives them back.
pub proof fn lemma_rt_nums(p: Seq<JsonNum>)
    ensures
        sdec_num_seq(p.map_values(|n: JsonNum| JsonView::Num(n))) == Ok::<Seq<JsonNum>, ErrorView>(
            p,
        ),
    decreases p.len(),
{
    let s = p.map_values(|n: JsonNum| JsonView::Num(n));
    if p.len() == 0 {
        assert(Seq::<JsonNum>::empty() =~= p);
    } else {
        assert(s[0] == JsonView::Num(p[0]));
        assert(s.skip(1) =~= p.skip(1).map_values(|n: JsonNum| JsonView::Num(n)));
        lemma_rt_nums(p.skip(1));
        assert(seq![p[0]] + p.skip(1) =~= p);
    }
}

/// Decoding the numbers of an encoded bounding box gives them back.
pub proof fn lemma_rt_bbox_nums(p: Seq<JsonNum>)
    ensures
        sdec_bbox_nums(p.map_values(|n: JsonNum| JsonView::Num(n))) == Ok::<
            Seq<JsonNum>,
            ErrorView,
        >(p),
    decreases p.len(),
{
    let s = p.map_values(|n: JsonNum| JsonView::Num(n));
    if p.len() == 0 {
        assert(Seq::<JsonNum>::empty() =~= p);
    } else {
        assert(s[0] == JsonView::Num(p[0]));
        assert(s.skip(1) =~= p.skip(1).map_values(|n: JsonNum| JsonView::Num(n)));
        lemma_rt_bbox_nums(p.skip(1));
        assert(seq![p[0]] + p.skip(1) =~= p);
    }
}

/// Decoding an encoded position gives it back.
pub proof fn lemma_rt_position(p: Seq<JsonNum>)
    ensures
        sdec_position(senc_position(p)) == Ok::<Seq<JsonNum>, ErrorView>(p),
{
    lemma_rt_nums(p);
}

/// Decoding an encoded list of positions gives it back.
pub proof fn lemma_rt_1d(s: Seq<Seq<JsonNum>>)
    ensures
        sdec_1d(senc_1d(s)) == Ok::<Seq<Seq<JsonNum>>, ErrorView>(s),
    decreases s.len(),
{
    let a = s.map_values(|p: Seq<JsonNum>| senc_position(p));
    if s.len() == 0 {
        assert(Seq::<Seq<JsonNum>>::empty() =~= s);
    } else {
        assert(a[0] == senc_position(s[0]));
        lemma_rt_position(s[0]);
        assert(a.skip(1) =~= s.skip(1).map_values(|p: Seq<JsonNum>| senc_position(p)));
        lemma_rt_1d(s.skip(1));
        assert(seq![s[0]] + s.skip(1) =~= s);
    }
}

/// Decoding an encoded two-dimensional payload gives it back.
pub proof fn lemma_rt_2d(s: Seq<Seq<Seq<JsonNum>>>)
    ensures
        sdec_2d(senc_2d(s)) == Ok::<Seq<Seq<Seq<JsonNum>>>, ErrorView>(s),
    decreases s.len(),
{
    let a = s.map_values(|p: Seq<Seq<JsonNum>>| senc_1d(p));
    if s.len() == 0 {
        assert(Seq::<Seq<Seq<JsonNum>>>::empty() =~= s);
    } else {
        assert(a[0] == senc_1d(s[0]));
        lemma_rt_1d(s[0]);
        assert(a.skip(1) =~= s.skip(1).map_values(|p: Seq<Seq<JsonNum>>| senc_1d(p)));
        lemma_rt_2d(s.skip(1));
        assert(seq![s[0]] + s.skip(1) =~= s);
    }
}

/// Decoding an encoded three-dimensional payload gives it back.
pub proof fn lemma_rt_3d(s: Seq<Seq<Seq<Seq<JsonNum>>>>)
    ensures
        sdec_3d(senc_3d(s)) == Ok::<Seq<Seq<Seq<Seq<JsonNum>>>>, ErrorView>(s),
    decreases s.len(),
{
    let a = s.map_values(|p: Seq<Seq<Seq<JsonNum>>>| senc_2d(p));
    if s.len() == 0 {
        assert(Seq::<Seq<Seq<Seq<JsonNum>>>>::empty() =~= s);
    } else {
        assert(a[0] == senc_2d(s[0]));
        lemma_rt_2d(s[0]);
        assert(a.skip(1) =~= s.skip(1).map_values(|p: Seq<Seq<Seq<JsonNum>>>| senc_2d(p)));
        lemma_rt_3d(s.skip(1));
        assert(seq![s[0]] + s.skip(1) =~= s);
    }
}

/// Reading the bounding-box entry back gives the bounding box, with
/// nothing left over.
pub proof fn lemma_rt_bbox(b: Option<Seq<JsonNum>>)
    ensures
        sget_bbox(senc_bbox_entries(b)) == Ok::<
            (Option<Seq<JsonNum>>, JsonObjectView),
            ErrorView,
        >((b, Seq::empty())),
{
    match b {
        Option::None => {
            assert(senc_bbox_entries(b).len() == 0);
            assert(key_first_index(senc_bbox_entries(b), "bbox"@) == -1);
            assert(senc_bbox_entries(b) =~= Seq::<(Seq<char>, JsonView)>::empty());
        },
        Option::Some(v) => {
            let s = senc_bbox_entries(b);
            assert(s[0].0 == "bbox"@);
            assert(key_first_index(s, "bbox"@) == 0);
            lemma_rt_bbox_nums(v);
            assert(obj_without(s, "bbox"@) =~= Seq::<(Seq<char>, JsonView)>::empty());
        },
    }
}

/// Decoding an encoded geometry gives it back, foreign members absent.
pub proof fn lemma_roundtrip_geometry(g: GeometryView)
    requires
        g_no_foreign(g),
    ensures
        sdec_geometry_obj(senc_geometry(g)) == Ok::<GeometryView, ErrorView>(g),
    decreases g,
{
    lemma_tags_distinct();
    let enc = senc_geometry(g);
    let ve = senc_value_entries(g.value);
    let be = senc_bbox_entries(g.bbox);
    assert(enc =~= ve + be);
    assert(enc[0] == ve[0]);
    assert(key_first_index(enc, "type"@) == 0);
    let rest = obj_without(enc, "type"@);
    assert(rest =~= seq![ve[1]] + be);
    let coords_key = rest[0].0;
    let tag = ve[0].1->Str_0;
    assert(key_first_index(rest, coords_key) == 0);
    let rest2 = obj_without(rest, coords_key);
    assert(rest2 =~= be);
    match g.value {
        ValueView::Point(p) => {
            lemma_rt_position(p);
            assert(tag == "Point"@);
            assert(obj_lookup(rest, "coordinates"@) == senc_position(p));
            assert(sdec_coords(rest, tag) == Ok::<(ValueView, JsonObjectView), ErrorView>(
                (g.value, rest2),
            ));
            assert(sdec_value(tag, rest) == Ok::<(ValueView, JsonObjectView), ErrorView>(
                (g.value, rest2),
            ));
        },
        ValueView::MultiPoint(s) => {
            lemma_rt_1d(s);
            assert(obj_lookup(rest, "coordinates"@) == senc_1d(s));
            assert(sdec_coords(rest, tag) == Ok::<(ValueView, JsonObjectView), ErrorView>(
                (g.value, rest2),
            ));
            assert(sdec_value(tag, rest) == Ok::<(ValueView, JsonObjectView), ErrorView>(
                (g.value, rest2),
            ));
        },
        ValueView::LineString(s) => {
            lemma_rt_1d(s);
            assert(obj_lookup(rest, "coordinates"@) == senc_1d(s));
            assert(sdec_coords(rest, tag) == Ok::<(ValueView, JsonObjectView), ErrorView>(
                (g.value, rest2),
            ));
            assert(sdec_value(tag, rest) == Ok::<(ValueView, JsonObjectView), ErrorView>(
                (g.value, rest2),
            ));
        },
        ValueView::MultiLineString(s) => {
            lemma_rt_2d(s);
            assert(obj_lookup(rest, "coordinates"@) == senc_2d(s));
            assert(sdec_coords(rest, tag) == Ok::<(ValueView, JsonObjectView), ErrorView>(
                (g.value, rest2),
            ));
            assert(sdec_value(tag, rest) == Ok::<(ValueView, JsonObjectView), ErrorView>(
                (g.value, rest2),
            ));
        },
        ValueView::Polygon(s) => {
            lemma_rt_2d(s);
            assert(obj_lookup(rest, "coordinates"@) == senc_2d(s));
            assert(sdec_coords(rest, tag) == Ok::<(ValueView, JsonObjectView), ErrorView>(
                (g.value, rest2),
            ));
            assert(sdec_value(tag, rest) == Ok::<(ValueView, JsonObjectView), ErrorView>(
                (g.value, rest2),
            ));
        },
        ValueView::MultiPolygon(s) => {
            lemma_rt_3d(s);
            assert(obj_lookup(rest, "coordinates"@) == senc_3d(s));
            assert(sdec_coords(rest, tag) == Ok::<(ValueView, JsonObjectView), ErrorView>(
                (g.value, rest2),
            ));
            assert(sdec_value(tag, rest) == Ok::<(ValueView, JsonObjectView), ErrorView>(
                (g.value, rest2),
            ));
        },
        ValueView::GeometryCollection(gs) => {
            assert(decreases_to!(g => g.value));
            assert(decreases_to!(g.value => gs));
            lemma_roundtrip_geometry_seq(gs);
            assert(tag == "GeometryCollection"@);
            assert(obj_lookup(rest, "geometries"@) == JsonView::Arr(senc_geometry_seq(gs)));
            assert(sdec_value(tag, rest) == Ok::<(ValueView, JsonObjectView), ErrorView>(
                (g.value, rest2),
            ));
        },
    }
    assert(sdec_value(tag, rest) matches Ok(p2) && p2.0 == g.value && p2.1 == rest2);
    assert(sexpect_type(enc) == Ok::<(Seq<char>, JsonObjectView), ErrorView>((tag, rest)));
    lemma_rt_bbox(g.bbox);
    assert(rest2 == senc_bbox_entries(g.bbox));
    assert(sforeign(Seq::empty()) is None);
    let dec = sdec_geometry_obj(enc);
    assert(dec matches Ok(gg) && gg =~= g);
}

/// Decoding an encoded list of geometries gives it back.
pub proof fn lemma_roundtrip_geometry_seq(gs: Seq<GeometryView>)
    requires
        gs_no_foreign(gs),
    ensures
        sdec_geometry_seq(senc_geometry_seq(gs)) == Ok::<Seq<GeometryView>, ErrorView>(gs),
    decreases gs,
{
    if gs.len() == 0 {
        assert(Seq::<GeometryView>::empty() =~= gs);
    } else {
        let a = senc_geometry_seq(gs);
        assert(a[0] == JsonView::Obj(senc_geometry(gs[0])));
        assert(decreases_to!(gs => gs[0]));
        lemma_roundtrip_geometry(gs[0]);
        assert(a.subrange(1, a.len() as int) =~= senc_geometry_seq(
            gs.subrange(1, gs.len() as int),
        ));
        lemma_roundtrip_geometry_seq(gs.subrange(1, gs.len() as int));
        assert(seq![gs[0]] + gs.subrange(1, gs.len() as int) =~= gs);
    }
}

/// Decoding an encoded feature gives it back, foreign members absent.
pub proof fn lemma_roundtrip_feature(f: FeatureView)
    requires
        f_no_foreign(f),
    ensures
        sdec_feature_obj(senc_feature(f)) == Ok::<FeatureView, ErrorView>(f),
{
    lemma_tags_distinct();
    let enc = senc_feature(f);
    let ide = senc_id_entries(f.id);
    let be = senc_bbox_entries(f.bbox);
    let head = seq![
        ("type"@, JsonView::Str("Feature"@)),
        ("geometry"@, senc_opt_geometry(f.geometry)),
        ("properties"@, senc_opt_obj(f.properties)),
    ];
    assert(enc =~= head + ide + be);
    assert(enc[0] == head[0]);
    assert(key_first_index(enc, "type"@) == 0);
    let rest = obj_without(enc, "type"@);
    assert(rest =~= seq![head[1], head[2]] + ide + be);
    assert(key_first_index(rest, "geometry"@) == 0);
    match f.geometry {
        Option::None => {
        },
        Option::Some(gv) => {
            lemma_roundtrip_geometry(gv);
        },
    }
    let r2 = obj_without(rest, "geometry"@);
    assert(r2 =~= seq![head[2]] + ide + be);
    assert(key_first_index(r2, "properties"@) == 0);
    let r3 = obj_without(r2, "properties"@);
    assert(r3 =~= ide + be);
    match f.id {
        Option::None => {
            assert(r3 =~= be);
            match f.bbox {
                Option::None => {
                    assert(key_first_index(r3, "id"@) == -1);
                },
                Option::Some(v) => {
                    assert("bbox"@ != "id"@);
                    assert(r3[0].0 == "bbox"@);
                    assert(r3.skip(1) =~= Seq::<(Seq<char>, JsonView)>::empty());
                    assert(key_first_index(Seq::<(Seq<char>, JsonView)>::empty(), "id"@) == -1);
                    assert(key_first_index(r3.skip(1), "id"@) == -1);
                    assert(key_first_index(r3, "id"@) == -1);
                },
            }
            assert(sget_id(r3) == Ok::<(Option<IdView>, JsonObjectView), ErrorView>(
                (Option::None, r3),
            ));
        },
        Option::Some(idv) => {
            assert(r3[0].0 == "id"@);
            assert(key_first_index(r3, "id"@) == 0);
            assert(obj_without(r3, "id"@) =~= be);
        },
    }
    let r4 = match sget_id(r3) {
        Ok(p) => p.1,
        Err(_) => r3,
    };
    assert(r4 == be);
    lemma_rt_bbox(f.bbox);
    assert(sforeign(Seq::empty()) is None);
    let dec = sdec_feature_obj(enc);
    assert(dec matches Ok(ff) && ff =~= f);
}

/// Decoding an encoded list of features gives it back.
pub proof fn lemma_roundtrip_feature_seq(fs: Seq<FeatureView>)
    requires
        fs_no_foreign(fs),
    ensures
        sdec_feature_seq(senc_feature_seq(fs)) == Ok::<Seq<FeatureView>, ErrorView>(fs),
    decreases fs.len(),
{
    if fs.len() == 0 {
        assert(Seq::<FeatureView>::empty() =~= fs);
    } else {
        let a = senc_feature_seq(fs);
        assert(a[0] == JsonView::Obj(senc_feature(fs[0])));
        lemma_roundtrip_feature(fs[0]);
        assert(a.skip(1) =~= senc_feature_seq(fs.skip(1)));
        lemma_roundtrip_feature_seq(fs.skip(1));
        assert(seq![fs[0]] + fs.skip(1) =~= fs);
    }
}

/// Decoding an encoded feature collection gives it back, foreign members
/// absent.
pub proof fn lemma_roundtrip_feature_collection(fc: FeatureCollectionView)
    requires
        fc_no_foreign(fc),
    ensures
        sdec_fc_obj(senc_fc(fc)) == Ok::<FeatureCollectionView, ErrorView>(fc),
{
    let enc = senc_fc(fc);
    let be = senc_bbox_entries(fc.bbox);
    let head = seq![
        ("type"@, JsonView::Str("FeatureCollection"@)),
        ("features"@, JsonView::Arr(senc_feature_seq(fc.features))),
    ];
    assert(enc =~= head + be);
    assert(enc[0] == head[0]);
    assert(key_first_index(enc, "type"@) == 0);
    let rest = obj_without(enc, "type"@);
    assert(rest =~= seq![head[1]] + be);
    assert(key_first_index(rest, "features"@) == 0);
    lemma_roundtrip_feature_seq(fc.features);
    let r2 = obj_without(rest, "features"@);
    assert(r2 =~= be);
    lemma_rt_bbox(fc.bbox);
    assert(sforeign(Seq::empty()) is None);
    let dec = sdec_fc_obj(enc);
    assert(dec matches Ok(cc) && cc =~= fc);
}

} // verus!
