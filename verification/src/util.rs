//! Field extractors over a mutable JSON object.
//!
//! Extraction is destructive by design: each recognized key is taken out
//! of the object, so that whatever remains afterwards becomes the foreign
//! members.  Every function is proved equal to its spec counterpart in
//! [`crate::codec`].

use vstd::prelude::*;
use crate::json::{JsonNum, JsonValue, JsonObject, JsonView, jview_seq, lemma_jview_seq,
    obj_without, obj_after_remove};
use crate::error::{Error, ErrorView};
use crate::model::{Position, Bbox, Id, Geometry, Feature, id_view, bbox_view, fm_view,
    opt_geometry_view, gview_seq, fview_seq, geometries_from_array, features_from_array};
use crate::codec::{
    sexpect_property, sexpect_type, sget_bbox, sget_properties, sget_id, sget_geometry, sforeign,
    sdec_num_seq, sdec_bbox_nums, sdec_position, sdec_1d_seq, sdec_1d, sdec_2d_seq, sdec_2d,
    sdec_3d_seq, sdec_3d, sdec_geometry_seq, sdec_feature_seq,
};

verus! {

/// Whether a string equals a literal, by view.
pub fn string_eq(a: &String, b: &str) -> (r: bool)
    ensures
        r == (a@ == b@),
{
    let owned: String = b.to_owned();
    *a == owned
}

/// Takes the named key out of the object; its absence is the error
/// `ExpectedProperty`.
pub fn expect_property(obj: &mut JsonObject, name: &str) -> (r: Result<JsonValue, Error>)
    ensures
        match sexpect_property(old(obj)@, name@) {
            Ok(p) => r matches Ok(v) && v@ == p.0 && final(obj)@ == p.1,
            Err(e) => r matches Err(er) && er@ == e && final(obj)@ == old(obj)@,
        },
{
    match obj.remove(name) {
        Some(v) => Ok(v),
        None => Err(Error::ExpectedProperty(name.to_owned())),
    }
}

/// The string inside a JSON value; any other shape is an error.
pub fn expect_string(value: JsonValue) -> (r: Result<String, Error>)
    ensures
        match value@ {
            JsonView::Str(s) => r matches Ok(t) && t@ == s,
            _ => r matches Err(er) && er@ == ErrorView::ExpectedStringValue,
        },
{
    match value {
        JsonValue::Str(s) => Ok(s),
        _ => Err(Error::ExpectedStringValue),
    }
}

/// Takes the `type` tag out of the object and returns it as a string.
pub fn expect_type(value: &mut JsonObject) -> (r: Result<String, Error>)
    ensures
        match sexpect_type(old(value)@) {
            Ok(p) => r matches Ok(t) && t@ == p.0 && final(value)@ == p.1,
            Err(e) => r matches Err(er) && er@ == e && final(value)@ == obj_after_remove(
                old(value)@,
                "type"@,
            ),
        },
{
    let prop = expect_property(value, "type")?;
    expect_string(prop)
}

/// Borrows the array inside a JSON value; any other shape is an error.
pub fn expect_array(value: &JsonValue) -> (r: Result<&Vec<JsonValue>, Error>)
    ensures
        match value@ {
            JsonView::Arr(s) => r matches Ok(a) && jview_seq(a@) == s,
            _ => r matches Err(er) && er@ == ErrorView::ExpectedArrayValue,
        },
{
    match value {
        JsonValue::Arr(a) => Ok(a),
        _ => Err(Error::ExpectedArrayValue),
    }
}

/// The array inside a JSON value, owned.
pub fn expect_owned_array(value: JsonValue) -> (r: Result<Vec<JsonValue>, Error>)
    ensures
        match value@ {
            JsonView::Arr(s) => r matches Ok(a) && jview_seq(a@) == s,
            _ => r matches Err(er) && er@ == ErrorView::ExpectedArrayValue,
        },
{
    match value {
        JsonValue::Arr(a) => Ok(a),
        _ => Err(Error::ExpectedArrayValue),
    }
}

/// The object inside a JSON value, owned.
pub fn expect_owned_object(value: JsonValue) -> (r: Result<JsonObject, Error>)
    ensures
        match value@ {
            JsonView::Obj(o) => r matches Ok(m) && m@ == o,
            _ => r matches Err(er) && er@ == ErrorView::ExpectedObjectValue,
        },
{
    match value {
        JsonValue::Obj(o) => Ok(o),
        _ => Err(Error::ExpectedObjectValue),
    }
}

/// Takes the `coordinates` key out of the object.
pub fn get_coords_value(object: &mut JsonObject) -> (r: Result<JsonValue, Error>)
    ensures
        match sexpect_property(old(object)@, "coordinates"@) {
            Ok(p) => r matches Ok(v) && v@ == p.0 && final(object)@ == p.1,
            Err(e) => r matches Err(er) && er@ == e && final(object)@ == old(object)@,
        },
{
    expect_property(object, "coordinates")
}

/// Numbers from the tail of a JSON array, starting at `i`, with the
/// `bbox` error attribution.
fn bbox_nums_from(a: &Vec<JsonValue>, i: usize) -> (r: Result<Vec<JsonNum>, Error>)
    requires
        i <= a@.len(),
    ensures
        match sdec_bbox_nums(jview_seq(a@).skip(i as int)) {
            Ok(ns) => r matches Ok(v) && v@ == ns,
            Err(e) => r matches Err(er) && er@ == e,
        },
    decreases a@.len() - i,
{
    proof {
        lemma_jview_seq(a@);
    }
    let ghost s = jview_seq(a@).skip(i as int);
    if i == a.len() {
        let r: Vec<JsonNum> = Vec::new();
        proof {
            assert(s =~= Seq::<JsonView>::empty());
            assert(r@ =~= Seq::<JsonNum>::empty());
        }
        Ok(r)
    } else {
        proof {
            assert(s[0] == jview_seq(a@)[i as int]);
        }
        match &a[i] {
            JsonValue::Num(n) => {
                proof {
                    assert(jview_seq(a@).skip(i as int + 1) =~= s.skip(1));
                }
                let mut rest = bbox_nums_from(a, i + 1)?;
                let ghost r0 = rest@;
                rest.insert(0, *n);
                proof {
                    assert(rest@ =~= seq![*n] + r0);
                }
                Ok(rest)
            },
            _ => Err(Error::BboxExpectedNumericValues),
        }
    }
}

/// Takes `bbox` out of the object if present; it must then be an array
/// of numbers.  Absence yields `None`.
pub fn get_bbox(object: &mut JsonObject) -> (r: Result<Option<Bbox>, Error>)
    ensures
        match sget_bbox(old(object)@) {
            Ok(p) => r matches Ok(b) && bbox_view(b) == p.0 && final(object)@ == p.1,
            Err(e) => r matches Err(er) && er@ == e && final(object)@ == obj_without(
                old(object)@,
                "bbox"@,
            ),
        },
{
    let bbox_json = match object.remove("bbox") {
        Some(b) => b,
        None => {
            return Ok(None);
        },
    };
    let bbox_array = match bbox_json {
        JsonValue::Arr(a) => a,
        _ => {
            return Err(Error::BboxExpectedArray);
        },
    };
    proof {
        assert(jview_seq(bbox_array@).skip(0) =~= jview_seq(bbox_array@));
    }
    let nums = bbox_nums_from(&bbox_array, 0)?;
    Ok(Some(nums))
}

/// The keys left after extraction, as the foreign members: an empty
/// object yields `None`.
pub fn get_foreign_members(object: JsonObject) -> (r: Result<Option<JsonObject>, Error>)
    ensures
        r matches Ok(m) && fm_view(m) == sforeign(object@),
{
    if object.is_empty() {
        Ok(None)
    } else {
        Ok(Some(object))
    }
}

/// Takes `properties` out of the object.  The key is mandatory; null
/// yields `None`, an object yields `Some`, anything else is an error.
pub fn get_properties(object: &mut JsonObject) -> (r: Result<Option<JsonObject>, Error>)
    ensures
        match sget_properties(old(object)@) {
            Ok(p) => r matches Ok(m) && fm_view(m) == p.0 && final(object)@ == p.1,
            Err(e) => r matches Err(er) && er@ == e && final(object)@ == obj_after_remove(
                old(object)@,
                "properties"@,
            ),
        },
{
    let properties = expect_property(object, "properties")?;
    match properties {
        JsonValue::Obj(x) => Ok(Some(x)),
        JsonValue::Null => Ok(None),
        _ => Err(Error::PropertiesExpectedObjectOrNull),
    }
}

/// Takes `id` out of the object if present; a number or a string yields
/// the matching identifier variant, anything else is an error.
pub fn get_id(object: &mut JsonObject) -> (r: Result<Option<Id>, Error>)
    ensures
        match sget_id(old(object)@) {
            Ok(p) => r matches Ok(idv) && id_view(idv) == p.0 && final(object)@ == p.1,
            Err(e) => r matches Err(er) && er@ == e && final(object)@ == obj_without(
                old(object)@,
                "id"@,
            ),
        },
{
    match object.remove("id") {
        Some(JsonValue::Num(n)) => Ok(Some(Id::Number(n))),
        Some(JsonValue::Str(s)) => Ok(Some(Id::Str(s))),
        Some(_) => Err(Error::FeatureInvalidIdentifierType),
        None => Ok(None),
    }
}

/// One position from a JSON value: an array of numbers.
pub fn json_to_position(json: &JsonValue) -> (r: Result<Position, Error>)
    ensures
        match sdec_position(json@) {
            Ok(p) => r matches Ok(v) && v@ == p,
            Err(e) => r matches Err(er) && er@ == e,
        },
{
    match json {
        JsonValue::Arr(a) => {
            proof {
                assert(jview_seq(a@).skip(0) =~= jview_seq(a@));
            }
            let r = pos_nums_from(a, 0)?;
            Ok(r)
        },
        _ => Err(Error::ExpectedArrayValue),
    }
}

/// Numbers from the tail of a JSON array, starting at `i`, with the
/// coordinate error attribution.
fn pos_nums_from(a: &Vec<JsonValue>, i: usize) -> (r: Result<Vec<JsonNum>, Error>)
    requires
        i <= a@.len(),
    ensures
        match sdec_num_seq(jview_seq(a@).skip(i as int)) {
            Ok(ns) => r matches Ok(v) && v@ == ns,
            Err(e) => r matches Err(er) && er@ == e,
        },
    decreases a@.len() - i,
{
    proof {
        lemma_jview_seq(a@);
    }
    let ghost s = jview_seq(a@).skip(i as int);
    if i == a.len() {
        let r: Vec<JsonNum> = Vec::new();
        proof {
            assert(s =~= Seq::<JsonView>::empty());
            assert(r@ =~= Seq::<JsonNum>::empty());
        }
        Ok(r)
    } else {
        proof {
            assert(s[0] == jview_seq(a@)[i as int]);
        }
        match &a[i] {
            JsonValue::Num(n) => {
                proof {
                    assert(jview_seq(a@).skip(i as int + 1) =~= s.skip(1));
                }
                let mut rest = pos_nums_from(a, i + 1)?;
                let ghost r0 = rest@;
                rest.insert(0, *n);
                proof {
                    assert(rest@ =~= seq![*n] + r0);
                }
                Ok(rest)
            },
            _ => Err(Error::ExpectedF64Value),
        }
    }
}

/// Positions from the tail of a JSON array, starting at `i`.
fn positions_from(a: &Vec<JsonValue>, i: usize) -> (r: Result<Vec<Position>, Error>)
    requires
        i <= a@.len(),
    ensures
        match sdec_1d_seq(jview_seq(a@).skip(i as int)) {
            Ok(ps) => r matches Ok(v) && crate::model::view_1d(v@) == ps,
            Err(e) => r matches Err(er) && er@ == e,
        },
    decreases a@.len() - i,
{
    proof {
        lemma_jview_seq(a@);
    }
    let ghost s = jview_seq(a@).skip(i as int);
    if i == a.len() {
        let r: Vec<Position> = Vec::new();
        proof {
            assert(s =~= Seq::<JsonView>::empty());
            assert(crate::model::view_1d(r@) =~= Seq::<Seq<JsonNum>>::empty());
        }
        Ok(r)
    } else {
        proof {
            assert(s[0] == jview_seq(a@)[i as int]);
        }
        let p = json_to_position(&a[i])?;
        proof {
            assert(jview_seq(a@).skip(i as int + 1) =~= s.skip(1));
        }
        let mut rest = positions_from(a, i + 1)?;
        let ghost r0 = rest@;
        rest.insert(0, p);
        proof {
            assert(rest@ =~= seq![p] + r0);
            assert(crate::model::view_1d(rest@) =~= seq![p@] + crate::model::view_1d(r0));
        }
        Ok(rest)
    }
}

/// A one-dimensional payload: a JSON array of positions.
pub fn json_to_1d_positions(json: &JsonValue) -> (r: Result<Vec<Position>, Error>)
    ensures
        match sdec_1d(json@) {
            Ok(ps) => r matches Ok(v) && crate::model::view_1d(v@) == ps,
            Err(e) => r matches Err(er) && er@ == e,
        },
{
    match json {
        JsonValue::Arr(a) => {
            proof {
                assert(jview_seq(a@).skip(0) =~= jview_seq(a@));
            }
            let r = positions_from(a, 0)?;
            Ok(r)
        },
        _ => Err(Error::ExpectedArrayValue),
    }
}

/// Rows of positions from the tail of a JSON array, starting at `i`.
fn positions_2d_from(a: &Vec<JsonValue>, i: usize) -> (r: Result<Vec<Vec<Position>>, Error>)
    requires
        i <= a@.len(),
    ensures
        match sdec_2d_seq(jview_seq(a@).skip(i as int)) {
            Ok(ps) => r matches Ok(v) && crate::model::view_2d(v@) == ps,
            Err(e) => r matches Err(er) && er@ == e,
        },
    decreases a@.len() - i,
{
    proof {
        lemma_jview_seq(a@);
    }
    let ghost s = jview_seq(a@).skip(i as int);
    if i == a.len() {
        let r: Vec<Vec<Position>> = Vec::new();
        proof {
            assert(s =~= Seq::<JsonView>::empty());
            assert(crate::model::view_2d(r@) =~= Seq::<Seq<Seq<JsonNum>>>::empty());
        }
        Ok(r)
    } else {
        proof {
            assert(s[0] == jview_seq(a@)[i as int]);
        }
        let p = json_to_1d_positions(&a[i])?;
        proof {
            assert(jview_seq(a@).skip(i as int + 1) =~= s.skip(1));
        }
        let mut rest = positions_2d_from(a, i + 1)?;
        let ghost r0 = rest@;
        rest.insert(0, p);
        proof {
            assert(rest@ =~= seq![p] + r0);
            assert(crate::model::view_2d(rest@) =~= seq![crate::model::view_1d(p@)]
                + crate::model::view_2d(r0));
        }
        Ok(rest)
    }
}

/// A two-dimensional payload: a JSON array of arrays of positions.
pub fn json_to_2d_positions(json: &JsonValue) -> (r: Result<Vec<Vec<Position>>, Error>)
    ensures
        match sdec_2d(json@) {
            Ok(ps) => r matches Ok(v) && crate::model::view_2d(v@) == ps,
            Err(e) => r matches Err(er) && er@ == e,
        },
{
    match json {
        JsonValue::Arr(a) => {
            proof {
                assert(jview_seq(a@).skip(0) =~= jview_seq(a@));
            }
            let r = positions_2d_from(a, 0)?;
            Ok(r)
        },
        _ => Err(Error::ExpectedArrayValue),
    }
}

/// Grids of positions from the tail of a JSON array, starting at `i`.
fn positions_3d_from(a: &Vec<JsonValue>, i: usize) -> (r: Result<Vec<Vec<Vec<Position>>>, Error>)
    requires
        i <= a@.len(),
    ensures
        match sdec_3d_seq(jview_seq(a@).skip(i as int)) {
            Ok(ps) => r matches Ok(v) && crate::model::view_3d(v@) == ps,
            Err(e) => r matches Err(er) && er@ == e,
        },
    decreases a@.len() - i,
{
    proof {
        lemma_jview_seq(a@);
    }
    let ghost s = jview_seq(a@).skip(i as int);
    if i == a.len() {
        let r: Vec<Vec<Vec<Position>>> = Vec::new();
        proof {
            assert(s =~= Seq::<JsonView>::empty());
            assert(crate::model::view_3d(r@) =~= Seq::<Seq<Seq<Seq<JsonNum>>>>::empty());
        }
        Ok(r)
    } else {
        proof {
            assert(s[0] == jview_seq(a@)[i as int]);
        }
        let p = json_to_2d_positions(&a[i])?;
        proof {
            assert(jview_seq(a@).skip(i as int + 1) =~= s.skip(1));
        }
        let mut rest = positions_3d_from(a, i + 1)?;
        let ghost r0 = rest@;
        rest.insert(0, p);
        proof {
            assert(rest@ =~= seq![p] + r0);
            assert(crate::model::view_3d(rest@) =~= seq![crate::model::view_2d(p@)]
                + crate::model::view_3d(r0));
        }
        Ok(rest)
    }
}

/// A three-dimensional payload: a JSON array of arrays of arrays of
/// positions.
pub fn json_to_3d_positions(json: &JsonValue) -> (r: Result<Vec<Vec<Vec<Position>>>, Error>)
    ensures
        match sdec_3d(json@) {
            Ok(ps) => r matches Ok(v) && crate::model::view_3d(v@) == ps,
            Err(e) => r matches Err(er) && er@ == e,
        },
{
    match json {
        JsonValue::Arr(a) => {
            proof {
                assert(jview_seq(a@).skip(0) =~= jview_seq(a@));
            }
            let r = positions_3d_from(a, 0)?;
            Ok(r)
        },
        _ => Err(Error::ExpectedArrayValue),
    }
}

/// One position from the `coordinates` key.
pub fn get_coords_one_pos(object: &mut JsonObject) -> (r: Result<Position, Error>)
    ensures
        match sexpect_property(old(object)@, "coordinates"@) {
            Err(e) => r matches Err(er) && er@ == e && final(object)@ == old(object)@,
            Ok(p) => final(object)@ == p.1 && match sdec_position(p.0) {
                Ok(q) => r matches Ok(v) && v@ == q,
                Err(e) => r matches Err(er) && er@ == e,
            },
        },
{
    let coords_json = get_coords_value(object)?;
    json_to_position(&coords_json)
}

/// A one-dimensional payload from the `coordinates` key.
pub fn get_coords_1d_pos(object: &mut JsonObject) -> (r: Result<Vec<Position>, Error>)
    ensures
        match sexpect_property(old(object)@, "coordinates"@) {
            Err(e) => r matches Err(er) && er@ == e && final(object)@ == old(object)@,
            Ok(p) => final(object)@ == p.1 && match sdec_1d(p.0) {
                Ok(q) => r matches Ok(v) && crate::model::view_1d(v@) == q,
                Err(e) => r matches Err(er) && er@ == e,
            },
        },
{
    let coords_json = get_coords_value(object)?;
    json_to_1d_positions(&coords_json)
}

/// A two-dimensional payload from the `coordinates` key.
pub fn get_coords_2d_pos(object: &mut JsonObject) -> (r: Result<Vec<Vec<Position>>, Error>)
    ensures
        match sexpect_property(old(object)@, "coordinates"@) {
            Err(e) => r matches Err(er) && er@ == e && final(object)@ == old(object)@,
            Ok(p) => final(object)@ == p.1 && match sdec_2d(p.0) {
                Ok(q) => r matches Ok(v) && crate::model::view_2d(v@) == q,
                Err(e) => r matches Err(er) && er@ == e,
            },
        },
{
    let coords_json = get_coords_value(object)?;
    json_to_2d_positions(&coords_json)
}

/// A three-dimensional payload from the `coordinates` key.
pub fn get_coords_3d_pos(object: &mut JsonObject) -> (r: Result<Vec<Vec<Vec<Position>>>, Error>)
    ensures
        match sexpect_property(old(object)@, "coordinates"@) {
            Err(e) => r matches Err(er) && er@ == e && final(object)@ == old(object)@,
            Ok(p) => final(object)@ == p.1 && match sdec_3d(p.0) {
                Ok(q) => r matches Ok(v) && crate::model::view_3d(v@) == q,
                Err(e) => r matches Err(er) && er@ == e,
            },
        },
{
    let coords_json = get_coords_value(object)?;
    json_to_3d_positions(&coords_json)
}

/// Takes `geometries` out of the object and decodes each element as a
/// geometry.
pub fn get_geometries(object: &mut JsonObject) -> (r: Result<Vec<Geometry>, Error>)
    ensures
        match sexpect_property(old(object)@, "geometries"@) {
            Err(e) => r matches Err(er) && er@ == e && final(object)@ == old(object)@,
            Ok(p) => final(object)@ == p.1 && match p.0 {
                JsonView::Arr(a) => match sdec_geometry_seq(a) {
                    Ok(gs) => r matches Ok(v) && gview_seq(v@) == gs,
                    Err(e) => r matches Err(er) && er@ == e,
                },
                _ => r matches Err(er) && er@ == ErrorView::ExpectedArrayValue,
            },
        },
{
    let geometries_json = expect_property(object, "geometries")?;
    let geometries_array = expect_owned_array(geometries_json)?;
    geometries_from_array(geometries_array)
}

/// Takes `geometry` out of the object.  The key is mandatory; null
/// yields `None`, an object is decoded as a geometry, anything else is
/// an error.
pub fn get_geometry(object: &mut JsonObject) -> (r: Result<Option<Geometry>, Error>)
    ensures
        match sget_geometry(old(object)@) {
            Ok(p) => r matches Ok(og) && opt_geometry_view(og) == p.0 && final(object)@ == p.1,
            Err(e) => r matches Err(er) && er@ == e && final(object)@ == obj_after_remove(
                old(object)@,
                "geometry"@,
            ),
        },
{
    let geometry = expect_property(object, "geometry")?;
    match geometry {
        JsonValue::Obj(x) => {
            let geometry_object = Geometry::from_json_object(x)?;
            Ok(Some(geometry_object))
        },
        JsonValue::Null => Ok(None),
        _ => Err(Error::FeatureInvalidGeometryValue),
    }
}

/// Takes `features` out of the object and decodes each element as a
/// feature.
pub fn get_features(object: &mut JsonObject) -> (r: Result<Vec<Feature>, Error>)
    ensures
        match sexpect_property(old(object)@, "features"@) {
            Err(e) => r matches Err(er) && er@ == e && final(object)@ == old(object)@,
            Ok(p) => final(object)@ == p.1 && match p.0 {
                JsonView::Arr(a) => match sdec_feature_seq(a) {
                    Ok(fs) => r matches Ok(v) && fview_seq(v@) == fs,
                    Err(e) => r matches Err(er) && er@ == e,
                },
                _ => r matches Err(er) && er@ == ErrorView::ExpectedArrayValue,
            },
        },
{
    let prop = expect_property(object, "features")?;
    let features_json = expect_owned_array(prop)?;
    features_from_array(features_json)
}

} // verus!
