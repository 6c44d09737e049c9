//! The executable encoders: from the typed model back to a JSON tree.
//!
//! Each encoder is proved equal to its spec counterpart in
//! [`crate::codec`], which together with the round-trip lemmas there makes
//! the encode/decode pair lossless for values without foreign members.

use vstd::prelude::*;
use crate::json::{JsonValue, JsonObject, JsonView, jview_seq, lemma_jview_seq};
use crate::model::{
    Position, Id, Value, Geometry, Feature, FeatureCollection, view_1d, view_2d, view_3d,
    gview_seq, fview_seq, lemma_gview_seq, lemma_fview_seq,
};
use crate::codec::{
    senc_position, senc_1d, senc_2d, senc_3d, senc_geometry, senc_geometry_seq, senc_feature,
    senc_feature_seq, senc_fc, senc_value_entries, senc_bbox_entries, senc_id_entries,
    senc_fm_entries, senc_opt_geometry, senc_opt_obj,
};

verus! {

/// A position as a JSON array of numbers.
pub fn position_to_json(p: &Position) -> (r: JsonValue)
    ensures
        r@ == senc_position(p@),
{
    let mut out: Vec<JsonValue> = Vec::new();
    let n = p.len();
    let mut i: usize = 0;
    while i < n
        invariant
            i <= n,
            n == p@.len(),
            out@.len() == i,
            forall|j: int| 0 <= j < i ==> out@[j] == JsonValue::Num(p@[j]),
        decreases n - i,
    {
        out.push(JsonValue::Num(p[i]));
        i += 1;
    }
    proof {
        lemma_jview_seq(out@);
        assert(jview_seq(out@) =~= p@.map_values(|nn: crate::json::JsonNum| JsonView::Num(nn)));
    }
    JsonValue::Arr(out)
}

/// A list of positions as nested JSON arrays.
pub fn positions_1d_to_json(v: &Vec<Position>) -> (r: JsonValue)
    ensures
        r@ == senc_1d(view_1d(v@)),
{
    let mut out: Vec<JsonValue> = Vec::new();
    let n = v.len();
    let mut i: usize = 0;
    while i < n
        invariant
            i <= n,
            n == v@.len(),
            out@.len() == i,
            forall|j: int| 0 <= j < i ==> (#[trigger] out@[j])@ == senc_position(v@[j]@),
        decreases n - i,
    {
        out.push(position_to_json(&v[i]));
        i += 1;
    }
    proof {
        lemma_jview_seq(out@);
        assert(jview_seq(out@) =~= view_1d(v@).map_values(|p: Seq<crate::json::JsonNum>|
            senc_position(p)));
    }
    JsonValue::Arr(out)
}

/// A two-dimensional payload as nested JSON arrays.
pub fn positions_2d_to_json(v: &Vec<Vec<Position>>) -> (r: JsonValue)
    ensures
        r@ == senc_2d(view_2d(v@)),
{
    let mut out: Vec<JsonValue> = Vec::new();
    let n = v.len();
    let mut i: usize = 0;
    while i < n
        invariant
            i <= n,
            n == v@.len(),
            out@.len() == i,
            forall|j: int| 0 <= j < i ==> (#[trigger] out@[j])@ == senc_1d(view_1d(v@[j]@)),
        decreases n - i,
    {
        out.push(positions_1d_to_json(&v[i]));
        i += 1;
    }
    proof {
        lemma_jview_seq(out@);
        assert(jview_seq(out@) =~= view_2d(v@).map_values(
            |p: Seq<Seq<crate::json::JsonNum>>| senc_1d(p),
        ));
    }
    JsonValue::Arr(out)
}

/// A three-dimensional payload as nested JSON arrays.
pub fn positions_3d_to_json(v: &Vec<Vec<Vec<Position>>>) -> (r: JsonValue)
    ensures
        r@ == senc_3d(view_3d(v@)),
{
    let mut out: Vec<JsonValue> = Vec::new();
    let n = v.len();
    let mut i: usize = 0;
    while i < n
        invariant
            i <= n,
            n == v@.len(),
            out@.len() == i,
            forall|j: int| 0 <= j < i ==> (#[trigger] out@[j])@ == senc_2d(view_2d(v@[j]@)),
        decreases n - i,
    {
        out.push(positions_2d_to_json(&v[i]));
        i += 1;
    }
    proof {
        lemma_jview_seq(out@);
        assert(jview_seq(out@) =~= view_3d(v@).map_values(
            |p: Seq<Seq<Seq<crate::json::JsonNum>>>| senc_2d(p),
        ));
    }
    JsonValue::Arr(out)
}

/// Geometries as a JSON array of objects.
pub fn geometries_to_json(gs: Vec<Geometry>) -> (r: Vec<JsonValue>)
    ensures
        jview_seq(r@) == senc_geometry_seq(gview_seq(gs@)),
    decreases gs@,
{
    let ghost s0 = gs@;
    proof {
        lemma_gview_seq(s0);
    }
    if gs.len() == 0 {
        let r: Vec<JsonValue> = Vec::new();
        proof {
            assert(jview_seq(r@) =~= Seq::<JsonView>::empty());
            assert(gview_seq(s0) =~= Seq::<crate::model::GeometryView>::empty());
        }
        r
    } else {
        let mut gs = gs;
        let g = gs.remove(0);
        proof {
            assert(g == s0[0]);
            assert(decreases_to!(s0 => s0[0]));
            assert(gs@ =~= s0.subrange(1, s0.len() as int));
            assert(decreases_to!(s0 => s0.subrange(1, s0.len() as int)));
        }
        let jo = g.to_json_object();
        let mut rest = geometries_to_json(gs);
        let ghost r0 = rest@;
        rest.insert(0, JsonValue::Obj(jo));
        proof {
            assert(rest@ =~= seq![JsonValue::Obj(jo)] + r0);
            lemma_jview_seq(rest@);
            lemma_jview_seq(r0);
            assert(jview_seq(rest@) =~= seq![JsonView::Obj(jo@)] + jview_seq(r0));
            assert(gview_seq(s0) =~= seq![g@] + gview_seq(s0.subrange(1, s0.len() as int)));
            assert(gview_seq(s0)[0] == g@);
            assert(gview_seq(s0).subrange(1, gview_seq(s0).len() as int) =~= gview_seq(
                s0.subrange(1, s0.len() as int),
            ));
        }
        rest
    }
}

impl Geometry {
    /// Encodes the geometry as a JSON object: tag and coordinates, then
    /// the bounding box if present, then the foreign members.
    pub fn to_json_object(self) -> (r: JsonObject)
        ensures
            r@ == senc_geometry(self@),
        decreases self,
    {
        let Geometry { bbox, value, foreign_members } = self;
        let mut object = JsonObject::new();
        match value {
            Value::Point(p) => {
                object.insert("type".to_owned(), JsonValue::Str("Point".to_owned()));
                object.insert("coordinates".to_owned(), position_to_json(&p));
            },
            Value::MultiPoint(ps) => {
                object.insert("type".to_owned(), JsonValue::Str("MultiPoint".to_owned()));
                object.insert("coordinates".to_owned(), positions_1d_to_json(&ps));
            },
            Value::LineString(ps) => {
                object.insert("type".to_owned(), JsonValue::Str("LineString".to_owned()));
                object.insert("coordinates".to_owned(), positions_1d_to_json(&ps));
            },
            Value::MultiLineString(ls) => {
                object.insert("type".to_owned(), JsonValue::Str("MultiLineString".to_owned()));
                object.insert("coordinates".to_owned(), positions_2d_to_json(&ls));
            },
            Value::Polygon(ls) => {
                object.insert("type".to_owned(), JsonValue::Str("Polygon".to_owned()));
                object.insert("coordinates".to_owned(), positions_2d_to_json(&ls));
            },
            Value::MultiPolygon(ms) => {
                object.insert("type".to_owned(), JsonValue::Str("MultiPolygon".to_owned()));
                object.insert("coordinates".to_owned(), positions_3d_to_json(&ms));
            },
            Value::GeometryCollection(gs) => {
                object.insert("type".to_owned(), JsonValue::Str("GeometryCollection".to_owned()));
                proof {
                    assert(decreases_to!(self => self.value));
                    assert(self.value is GeometryCollection);
                    assert(decreases_to!(self.value => self.value->GeometryCollection_0));
                    assert(self.value->GeometryCollection_0 == gs);
                }
                let arr = geometries_to_json(gs);
                object.insert("geometries".to_owned(), JsonValue::Arr(arr));
            },
        }
        proof {
            assert(object@ =~= senc_value_entries(crate::model::vview(self.value)));
        }
        match bbox {
            Some(b) => {
                object.insert("bbox".to_owned(), position_to_json(&b));
            },
            None => {},
        }
        proof {
            assert(object@ =~= senc_value_entries(crate::model::vview(self.value))
                + senc_bbox_entries(crate::model::bbox_view(self.bbox)));
        }
        match foreign_members {
            Some(m) => {
                object.append(m);
            },
            None => {},
        }
        proof {
            assert(object@ =~= senc_geometry(self@));
        }
        object
    }
}

/// Features as a JSON array of objects.
pub fn features_to_json(fs: Vec<Feature>) -> (r: Vec<JsonValue>)
    ensures
        jview_seq(r@) == senc_feature_seq(fview_seq(fs@)),
    decreases fs@.len(),
{
    let ghost s0 = fs@;
    proof {
        lemma_fview_seq(s0);
    }
    if fs.len() == 0 {
        let r: Vec<JsonValue> = Vec::new();
        proof {
            assert(jview_seq(r@) =~= Seq::<JsonView>::empty());
            assert(fview_seq(s0) =~= Seq::<crate::model::FeatureView>::empty());
        }
        r
    } else {
        let mut fs = fs;
        let f = fs.remove(0);
        proof {
            assert(f == s0[0]);
            assert(fs@ =~= s0.subrange(1, s0.len() as int));
        }
        let jo = f.to_json_object();
        let mut rest = features_to_json(fs);
        let ghost r0 = rest@;
        rest.insert(0, JsonValue::Obj(jo));
        proof {
            assert(rest@ =~= seq![JsonValue::Obj(jo)] + r0);
            lemma_jview_seq(rest@);
            lemma_jview_seq(r0);
            assert(jview_seq(rest@) =~= seq![JsonView::Obj(jo@)] + jview_seq(r0));
            assert(fview_seq(s0) =~= seq![f@] + fview_seq(s0.subrange(1, s0.len() as int)));
            assert(fview_seq(s0).skip(1) =~= fview_seq(s0.subrange(1, s0.len() as int)));
        }
        rest
    }
}

impl Feature {
    /// Encodes the feature as a JSON object: tag, geometry and
    /// properties (null when absent), then identifier and bounding box
    /// if present, then the foreign members.
    pub fn to_json_object(self) -> (r: JsonObject)
        ensures
            r@ == senc_feature(self@),
    {
        let Feature { bbox, geometry, id, properties, foreign_members } = self;
        let mut object = JsonObject::new();
        object.insert("type".to_owned(), JsonValue::Str("Feature".to_owned()));
        match geometry {
            Some(g) => {
                let jo = g.to_json_object();
                object.insert("geometry".to_owned(), JsonValue::Obj(jo));
            },
            None => {
                object.insert("geometry".to_owned(), JsonValue::Null);
            },
        }
        match properties {
            Some(m) => {
                object.insert("properties".to_owned(), JsonValue::Obj(m));
            },
            None => {
                object.insert("properties".to_owned(), JsonValue::Null);
            },
        }
        proof {
            assert(object@ =~= seq![
                ("type"@, JsonView::Str("Feature"@)),
                ("geometry"@, senc_opt_geometry(self@.geometry)),
                ("properties"@, senc_opt_obj(self@.properties)),
            ]);
        }
        match id {
            Some(Id::Number(n)) => {
                object.insert("id".to_owned(), JsonValue::Num(n));
            },
            Some(Id::Str(s)) => {
                object.insert("id".to_owned(), JsonValue::Str(s));
            },
            None => {},
        }
        match bbox {
            Some(b) => {
                object.insert("bbox".to_owned(), position_to_json(&b));
            },
            None => {},
        }
        match foreign_members {
            Some(m) => {
                object.append(m);
            },
            None => {},
        }
        proof {
            assert(object@ =~= senc_feature(self@));
        }
        object
    }
}

impl FeatureCollection {
    /// Encodes the collection as a JSON object: tag and features, then
    /// the bounding box if present, then the foreign members.
    pub fn to_json_object(self) -> (r: JsonObject)
        ensures
            r@ == senc_fc(self@),
    {
        let FeatureCollection { bbox, features, foreign_members } = self;
        let mut object = JsonObject::new();
        object.insert("type".to_owned(), JsonValue::Str("FeatureCollection".to_owned()));
        let arr = features_to_json(features);
        object.insert("features".to_owned(), JsonValue::Arr(arr));
        match bbox {
            Some(b) => {
                object.insert("bbox".to_owned(), position_to_json(&b));
            },
            None => {},
        }
        match foreign_members {
            Some(m) => {
                object.append(m);
            },
            None => {},
        }
        proof {
            assert(object@ =~= senc_fc(self@));
        }
        object
    }
}

} // verus!
