//! The typed GeoJSON object model: geometries, features, collections.

use vstd::prelude::*;
use crate::json::{JsonNum, JsonValue, JsonObject, JsonObjectView, JsonView, jview_seq,
    lemma_jview_seq};
use crate::error::Error;
use crate::codec::{sdec_geometry_obj, sdec_geometry_seq, sdec_feature_obj, sdec_feature_seq,
    sdec_fc_obj, lemma_obj_without_decreases, lemma_obj_lookup_decreases};
use crate::util::{string_eq, expect_type, expect_property, expect_owned_array,
    expect_owned_object, get_coords_one_pos, get_coords_1d_pos, get_coords_2d_pos,
    get_coords_3d_pos, get_bbox, get_foreign_members, get_geometry, get_properties, get_id,
    get_features};

verus! {

/// One coordinate tuple.  The format fixes no arity: the codec accepts
/// whatever length is present and callers agree on a convention.
pub type Position = Vec<JsonNum>;

/// A bounding box: a flat list of numbers.  Its length is not validated.
pub type Bbox = Vec<JsonNum>;

/// A feature identifier: a JSON number or a string.
#[derive(Debug, PartialEq)]
pub enum Id {
    Number(JsonNum),
    Str(String),
}

/// The coordinate payload of a geometry, by variant.
#[derive(Debug, PartialEq)]
pub enum Value {
    Point(Position),
    MultiPoint(Vec<Position>),
    LineString(Vec<Position>),
    MultiLineString(Vec<Vec<Position>>),
    Polygon(Vec<Vec<Position>>),
    MultiPolygon(Vec<Vec<Vec<Position>>>),
    GeometryCollection(Vec<Geometry>),
}

/// A geometry object.
#[derive(Debug, PartialEq)]
pub struct Geometry {
    pub bbox: Option<Bbox>,
    pub value: Value,
    pub foreign_members: Option<JsonObject>,
}

/// A feature object.  `properties` is a mandatory key whose value may be
/// null; null and an absent value both decode to `None`.
#[derive(Debug, PartialEq)]
pub struct Feature {
    pub bbox: Option<Bbox>,
    pub geometry: Option<Geometry>,
    pub id: Option<Id>,
    pub properties: Option<JsonObject>,
    pub foreign_members: Option<JsonObject>,
}

/// An ordered collection of features.
#[derive(Debug, PartialEq)]
pub struct FeatureCollection {
    pub bbox: Option<Bbox>,
    pub features: Vec<Feature>,
    pub foreign_members: Option<JsonObject>,
}

/// The mathematical shape of an [`Id`].
#[verifier::ext_equal]
pub enum IdView {
    Number(JsonNum),
    Str(Seq<char>),
}

/// The mathematical shape of a [`Value`].
#[verifier::ext_equal]
pub enum ValueView {
    Point(Seq<JsonNum>),
    MultiPoint(Seq<Seq<JsonNum>>),
    LineString(Seq<Seq<JsonNum>>),
    MultiLineString(Seq<Seq<Seq<JsonNum>>>),
    Polygon(Seq<Seq<Seq<JsonNum>>>),
    MultiPolygon(Seq<Seq<Seq<Seq<JsonNum>>>>),
    GeometryCollection(Seq<GeometryView>),
}

/// The mathematical shape of a [`Geometry`].
#[verifier::ext_equal]
pub struct GeometryView {
    pub bbox: Option<Seq<JsonNum>>,
    pub value: ValueView,
    pub foreign_members: Option<JsonObjectView>,
}

/// The mathematical shape of a [`Feature`].
#[verifier::ext_equal]
pub struct FeatureView {
    pub bbox: Option<Seq<JsonNum>>,
    pub geometry: Option<GeometryView>,
    pub id: Option<IdView>,
    pub properties: Option<JsonObjectView>,
    pub foreign_members: Option<JsonObjectView>,
}

/// The mathematical shape of a [`FeatureCollection`].
#[verifier::ext_equal]
pub struct FeatureCollectionView {
    pub bbox: Option<Seq<JsonNum>>,
    pub features: Seq<FeatureView>,
    pub foreign_members: Option<JsonObjectView>,
}

/// The shape of an optional bounding box.
pub open spec fn bbox_view(b: Option<Bbox>) -> Option<Seq<JsonNum>> {
    match b {
        Option::None => Option::None,
        Option::Some(v) => Option::Some(v@),
    }
}

/// The shape of an optional foreign-member object.
pub open spec fn fm_view(m: Option<JsonObject>) -> Option<JsonObjectView> {
    match m {
        Option::None => Option::None,
        Option::Some(o) => Option::Some(o@),
    }
}

/// The shapes of a list of positions.
pub open spec fn view_1d(v: Seq<Position>) -> Seq<Seq<JsonNum>> {
    Seq::new(v.len(), |i: int| v[i]@)
}

/// The shapes of a list of lists of positions.
pub open spec fn view_2d(v: Seq<Vec<Position>>) -> Seq<Seq<Seq<JsonNum>>> {
    Seq::new(v.len(), |i: int| view_1d(v[i]@))
}

/// The shapes of a list of lists of lists of positions.
pub open spec fn view_3d(v: Seq<Vec<Vec<Position>>>) -> Seq<Seq<Seq<Seq<JsonNum>>>> {
    Seq::new(v.len(), |i: int| view_2d(v[i]@))
}

/// The shape of a coordinate payload.
pub open spec fn vview(v: Value) -> ValueView
    decreases v,
{
    match v {
        Value::Point(p) => ValueView::Point(p@),
        Value::MultiPoint(ps) => ValueView::MultiPoint(view_1d(ps@)),
        Value::LineString(ps) => ValueView::LineString(view_1d(ps@)),
        Value::MultiLineString(ls) => ValueView::MultiLineString(view_2d(ls@)),
        Value::Polygon(ls) => ValueView::Polygon(view_2d(ls@)),
        Value::MultiPolygon(ms) => ValueView::MultiPolygon(view_3d(ms@)),
        Value::GeometryCollection(gs) => ValueView::GeometryCollection(gview_seq(gs@)),
    }
}

/// The shape of a geometry.
pub open spec fn gview(g: Geometry) -> GeometryView
    decreases g,
{
    GeometryView {
        bbox: bbox_view(g.bbox),
        value: vview(g.value),
        foreign_members: fm_view(g.foreign_members),
    }
}

/// The shapes of a list of geometries, in order.
pub open spec fn gview_seq(s: Seq<Geometry>) -> Seq<GeometryView>
    decreases s,
{
    if s.len() == 0 {
        Seq::empty()
    } else {
        seq![gview(s[0])] + gview_seq(s.subrange(1, s.len() as int))
    }
}

/// `gview_seq` maps the geometry shape over the sequence pointwise.
pub proof fn lemma_gview_seq(s: Seq<Geometry>)
    ensures
        gview_seq(s).len() == s.len(),
        forall|i: int| 0 <= i < s.len() ==> gview_seq(s)[i] == gview(s[i]),
    decreases s.len(),
{
    if s.len() > 0 {
        lemma_gview_seq(s.subrange(1, s.len() as int));
        assert forall|i: int| 0 <= i < s.len() implies gview_seq(s)[i] == gview(s[i]) by {
            if i > 0 {
                assert(s.subrange(1, s.len() as int)[i - 1] == s[i]);
            }
        }
    }
}

/// The shape of an identifier.
pub open spec fn iview(id: Id) -> IdView {
    match id {
        Id::Number(n) => IdView::Number(n),
        Id::Str(s) => IdView::Str(s@),
    }
}

/// The shape of an optional identifier.
pub open spec fn id_view(id: Option<Id>) -> Option<IdView> {
    match id {
        Option::None => Option::None,
        Option::Some(i) => Option::Some(iview(i)),
    }
}

/// The shape of a feature.
pub open spec fn fview(f: Feature) -> FeatureView {
    FeatureView {
        bbox: bbox_view(f.bbox),
        geometry: match f.geometry {
            Option::None => Option::None,
            Option::Some(g) => Option::Some(gview(g)),
        },
        id: id_view(f.id),
        properties: match f.properties {
            Option::None => Option::None,
            Option::Some(o) => Option::Some(o@),
        },
        foreign_members: fm_view(f.foreign_members),
    }
}

/// The shapes of a list of features, in order.
pub open spec fn fview_seq(s: Seq<Feature>) -> Seq<FeatureView>
    decreases s,
{
    if s.len() == 0 {
        Seq::empty()
    } else {
        seq![fview(s[0])] + fview_seq(s.subrange(1, s.len() as int))
    }
}

/// `fview_seq` maps the feature shape over the sequence pointwise.
pub proof fn lemma_fview_seq(s: Seq<Feature>)
    ensures
        fview_seq(s).len() == s.len(),
        forall|i: int| 0 <= i < s.len() ==> fview_seq(s)[i] == fview(s[i]),
    decreases s.len(),
{
    if s.len() > 0 {
        lemma_fview_seq(s.subrange(1, s.len() as int));
        assert forall|i: int| 0 <= i < s.len() implies fview_seq(s)[i] == fview(s[i]) by {
            if i > 0 {
                assert(s.subrange(1, s.len() as int)[i - 1] == s[i]);
            }
        }
    }
}

/// The shape of a feature collection.
pub open spec fn fcview(fc: FeatureCollection) -> FeatureCollectionView {
    FeatureCollectionView {
        bbox: bbox_view(fc.bbox),
        features: fview_seq(fc.features@),
        foreign_members: fm_view(fc.foreign_members),
    }
}

impl View for Geometry {
    type V = GeometryView;

    open spec fn view(&self) -> GeometryView {
        gview(*self)
    }
}

impl View for Feature {
    type V = FeatureView;

    open spec fn view(&self) -> FeatureView {
        fview(*self)
    }
}

impl View for FeatureCollection {
    type V = FeatureCollectionView;

    open spec fn view(&self) -> FeatureCollectionView {
        fcview(*self)
    }
}

/// A geometry shape without foreign members, recursively.
pub open spec fn g_no_foreign(g: GeometryView) -> bool
    decreases g,
{
    g.foreign_members is None && v_no_foreign(g.value)
}

/// A payload shape whose nested geometries carry no foreign members.
pub open spec fn v_no_foreign(v: ValueView) -> bool
    decreases v,
{
    match v {
        ValueView::GeometryCollection(gs) => gs_no_foreign(gs),
        _ => true,
    }
}

/// All geometry shapes of the sequence carry no foreign members.
pub open spec fn gs_no_foreign(s: Seq<GeometryView>) -> bool
    decreases s,
{
    if s.len() == 0 {
        true
    } else {
        g_no_foreign(s[0]) && gs_no_foreign(s.subrange(1, s.len() as int))
    }
}

/// A feature shape without foreign members, recursively.
pub open spec fn f_no_foreign(f: FeatureView) -> bool {
    &&& f.foreign_members is None
    &&& match f.geometry {
        Option::None => true,
        Option::Some(g) => g_no_foreign(g),
    }
}

/// All feature shapes of the sequence carry no foreign members.
pub open spec fn fs_no_foreign(s: Seq<FeatureView>) -> bool
    decreases s,
{
    if s.len() == 0 {
        true
    } else {
        f_no_foreign(s[0]) && fs_no_foreign(s.subrange(1, s.len() as int))
    }
}

/// A feature-collection shape without foreign members, recursively.
pub open spec fn fc_no_foreign(fc: FeatureCollectionView) -> bool {
    fc.foreign_members is None && fs_no_foreign(fc.features)
}

impl Geometry {
    /// A geometry from its coordinate payload, without bounding box or
    /// foreign members.
    pub fn new(value: Value) -> (r: Geometry)
        ensures
            r@ == (GeometryView {
                bbox: Option::None,
                value: vview(value),
                foreign_members: Option::None,
            }),
    {
        Geometry { bbox: None, value, foreign_members: None }
    }
}

/// The shape of an optional geometry.
pub open spec fn opt_geometry_view(o: Option<Geometry>) -> Option<GeometryView> {
    match o {
        Option::None => Option::None,
        Option::Some(g) => Option::Some(gview(g)),
    }
}

/// Geometries from an owned JSON array; each element must be an object.
pub fn geometries_from_array(arr: Vec<JsonValue>) -> (r: Result<Vec<Geometry>, Error>)
    ensures
        match sdec_geometry_seq(jview_seq(arr@)) {
            Ok(gs) => r matches Ok(v) && gview_seq(v@) == gs,
            Err(e) => r matches Err(er) && er@ == e,
        },
    decreases jview_seq(arr@),
{
    let ghost s = jview_seq(arr@);
    proof {
        lemma_jview_seq(arr@);
    }
    if arr.len() == 0 {
        let r: Vec<Geometry> = Vec::new();
        proof {
            assert(s =~= Seq::<JsonView>::empty());
            assert(gview_seq(r@) =~= Seq::<GeometryView>::empty());
        }
        Ok(r)
    } else {
        let mut arr = arr;
        let x = arr.remove(0);
        proof {
            assert(x@ == s[0]);
            assert(jview_seq(arr@) =~= s.subrange(1, s.len() as int));
            assert(decreases_to!(s => s.subrange(1, s.len() as int)));
        }
        let o = expect_owned_object(x)?;
        proof {
            assert(decreases_to!(s => s[0]));
            assert(s[0] is Obj);
            assert(decreases_to!(s[0] => s[0]->Obj_0));
            assert(s[0]->Obj_0 == o@);
        }
        let g = Geometry::from_json_object(o)?;
        let mut rest = geometries_from_array(arr)?;
        let ghost r0 = rest@;
        rest.insert(0, g);
        proof {
            assert(rest@ =~= seq![g] + r0);
            lemma_gview_seq(rest@);
            lemma_gview_seq(r0);
            assert(gview_seq(rest@) =~= seq![g@] + gview_seq(r0));
        }
        Ok(rest)
    }
}

impl Geometry {
    /// Decodes a geometry from a JSON object: the `type` tag selects the
    /// variant, `coordinates` or `geometries` holds the payload, then the
    /// bounding box is read and the residual keys become foreign members.
    pub fn from_json_object(object: JsonObject) -> (r: Result<Geometry, Error>)
        ensures
            match sdec_geometry_obj(object@) {
                Ok(gv) => r matches Ok(g) && g@ == gv,
                Err(e) => r matches Err(er) && er@ == e,
            },
        decreases object@, 1nat,
    {
        let ghost s0 = object@;
        let mut object = object;
        let t = expect_type(&mut object)?;
        let ghost rest = object@;
        let value: Value = if string_eq(&t, "Point") {
            Value::Point(get_coords_one_pos(&mut object)?)
        } else if string_eq(&t, "MultiPoint") {
            Value::MultiPoint(get_coords_1d_pos(&mut object)?)
        } else if string_eq(&t, "LineString") {
            Value::LineString(get_coords_1d_pos(&mut object)?)
        } else if string_eq(&t, "MultiLineString") {
            Value::MultiLineString(get_coords_2d_pos(&mut object)?)
        } else if string_eq(&t, "Polygon") {
            Value::Polygon(get_coords_2d_pos(&mut object)?)
        } else if string_eq(&t, "MultiPolygon") {
            Value::MultiPolygon(get_coords_3d_pos(&mut object)?)
        } else if string_eq(&t, "GeometryCollection") {
            let geometries_json = expect_property(&mut object, "geometries")?;
            let ghost gjv = geometries_json@;
            let geometries_array = expect_owned_array(geometries_json)?;
            proof {
                lemma_obj_without_decreases(s0, "type"@);
                lemma_obj_lookup_decreases(rest, "geometries"@);
                assert(gjv is Arr);
                assert(decreases_to!(gjv => gjv->Arr_0));
                assert(gjv->Arr_0 == jview_seq(geometries_array@));
                assert(decreases_to!(s0 => jview_seq(geometries_array@)));
            }
            let geometries = geometries_from_array(geometries_array)?;
            Value::GeometryCollection(geometries)
        } else {
            return Err(Error::GeoJsonUnknownType);
        };
        let bbox = get_bbox(&mut object)?;
        let foreign_members = get_foreign_members(object)?;
        Ok(Geometry { bbox, value, foreign_members })
    }
}

/// Features from an owned JSON array; each element must be an object.
pub fn features_from_array(arr: Vec<JsonValue>) -> (r: Result<Vec<Feature>, Error>)
    ensures
        match sdec_feature_seq(jview_seq(arr@)) {
            Ok(fs) => r matches Ok(v) && fview_seq(v@) == fs,
            Err(e) => r matches Err(er) && er@ == e,
        },
    decreases arr@.len(),
{
    let ghost s = jview_seq(arr@);
    proof {
        lemma_jview_seq(arr@);
    }
    if arr.len() == 0 {
        let r: Vec<Feature> = Vec::new();
        proof {
            assert(s =~= Seq::<JsonView>::empty());
            assert(fview_seq(r@) =~= Seq::<FeatureView>::empty());
        }
        Ok(r)
    } else {
        let mut arr = arr;
        let x = arr.remove(0);
        proof {
            assert(x@ == s[0]);
            assert(jview_seq(arr@) =~= s.skip(1));
        }
        let o = expect_owned_object(x)?;
        let f = Feature::from_json_object(o)?;
        let mut rest = features_from_array(arr)?;
        let ghost r0 = rest@;
        rest.insert(0, f);
        proof {
            assert(rest@ =~= seq![f] + r0);
            lemma_fview_seq(rest@);
            lemma_fview_seq(r0);
            assert(fview_seq(rest@) =~= seq![f@] + fview_seq(r0));
        }
        Ok(rest)
    }
}

impl Feature {
    /// Decodes a feature from a JSON object: the tag must be `Feature`;
    /// then geometry, properties, identifier and bounding box are read,
    /// and the residual keys become foreign members.
    pub fn from_json_object(object: JsonObject) -> (r: Result<Feature, Error>)
        ensures
            match sdec_feature_obj(object@) {
                Ok(fv) => r matches Ok(f) && f@ == fv,
                Err(e) => r matches Err(er) && er@ == e,
            },
    {
        let mut object = object;
        let t = expect_type(&mut object)?;
        if !string_eq(&t, "Feature") {
            return Err(Error::GeoJsonUnknownType);
        }
        let geometry = get_geometry(&mut object)?;
        let properties = get_properties(&mut object)?;
        let id = get_id(&mut object)?;
        let bbox = get_bbox(&mut object)?;
        let foreign_members = get_foreign_members(object)?;
        Ok(Feature { bbox, geometry, id, properties, foreign_members })
    }
}

impl FeatureCollection {
    /// Decodes a feature collection from a JSON object: the tag must be
    /// `FeatureCollection`; then the features and the bounding box are
    /// read, and the residual keys become foreign members.
    pub fn from_json_object(object: JsonObject) -> (r: Result<FeatureCollection, Error>)
        ensures
            match sdec_fc_obj(object@) {
                Ok(cv) => r matches Ok(c) && c@ == cv,
                Err(e) => r matches Err(er) && er@ == e,
            },
    {
        let mut object = object;
        let t = expect_type(&mut object)?;
        if !string_eq(&t, "FeatureCollection") {
            return Err(Error::GeoJsonUnknownType);
        }
        let features = get_features(&mut object)?;
        let bbox = get_bbox(&mut object)?;
        let foreign_members = get_foreign_members(object)?;
        Ok(FeatureCollection { bbox, features, foreign_members })
    }
}

/// A copy of a flat list of numbers.
fn clone_nums(p: &Vec<JsonNum>) -> (r: Vec<JsonNum>)
    ensures
        r@ == p@,
{
    let mut out: Vec<JsonNum> = Vec::new();
    let n = p.len();
    let mut i: usize = 0;
    while i < n
        invariant
            i <= n,
            n == p@.len(),
            out@.len() == i,
            forall|j: int| 0 <= j < i ==> out@[j] == p@[j],
        decreases n - i,
    {
        out.push(p[i]);
        i += 1;
    }
    proof {
        assert(out@ =~= p@);
    }
    out
}

/// A copy of an optional bounding box.
fn clone_bbox(b: &Option<Bbox>) -> (r: Option<Bbox>)
    ensures
        bbox_view(r) == bbox_view(*b),
{
    match b {
        Some(v) => Some(clone_nums(v)),
        None => None,
    }
}

/// A deep copy of a list of positions.
fn clone_positions(v: &Vec<Position>) -> (r: Vec<Position>)
    ensures
        view_1d(r@) == view_1d(v@),
{
    let mut out: Vec<Position> = Vec::new();
    let n = v.len();
    let mut i: usize = 0;
    while i < n
        invariant
            i <= n,
            n == v@.len(),
            out@.len() == i,
            forall|j: int| 0 <= j < i ==> (#[trigger] out@[j])@ == v@[j]@,
        decreases n - i,
    {
        out.push(clone_nums(&v[i]));
        i += 1;
    }
    proof {
        assert(view_1d(out@) =~= view_1d(v@));
    }
    out
}

/// A deep copy of a list of lists of positions.
fn clone_positions_2d(v: &Vec<Vec<Position>>) -> (r: Vec<Vec<Position>>)
    ensures
        view_2d(r@) == view_2d(v@),
{
    let mut out: Vec<Vec<Position>> = Vec::new();
    let n = v.len();
    let mut i: usize = 0;
    while i < n
        invariant
            i <= n,
            n == v@.len(),
            out@.len() == i,
            forall|j: int| 0 <= j < i ==> view_1d((#[trigger] out@[j])@) == view_1d(v@[j]@),
        decreases n - i,
    {
        out.push(clone_positions(&v[i]));
        i += 1;
    }
    proof {
        assert(view_2d(out@) =~= view_2d(v@));
    }
    out
}

/// A deep copy of a three-dimensional payload.
fn clone_positions_3d(v: &Vec<Vec<Vec<Position>>>) -> (r: Vec<Vec<Vec<Position>>>)
    ensures
        view_3d(r@) == view_3d(v@),
{
    let mut out: Vec<Vec<Vec<Position>>> = Vec::new();
    let n = v.len();
    let mut i: usize = 0;
    while i < n
        invariant
            i <= n,
            n == v@.len(),
            out@.len() == i,
            forall|j: int| 0 <= j < i ==> view_2d((#[trigger] out@[j])@) == view_2d(v@[j]@),
        decreases n - i,
    {
        out.push(clone_positions_2d(&v[i]));
        i += 1;
    }
    proof {
        assert(view_3d(out@) =~= view_3d(v@));
    }
    out
}

/// Deep copies of the geometries of `gs` from index `i` on.
fn clone_geometries_from(gs: &Vec<Geometry>, i: usize) -> (r: Vec<Geometry>)
    requires
        i <= gs@.len(),
    ensures
        gview_seq(r@) == gview_seq(gs@).skip(i as int),
    decreases gview_seq(gs@), gs@.len() - i,
{
    proof {
        lemma_gview_seq(gs@);
    }
    let ghost s = gview_seq(gs@).skip(i as int);
    if i == gs.len() {
        let r: Vec<Geometry> = Vec::new();
        proof {
            assert(gview_seq(r@) =~= s);
        }
        r
    } else {
        proof {
            assert(s[0] == gview_seq(gs@)[i as int]);
            assert(decreases_to!(gview_seq(gs@) => gview_seq(gs@)[i as int]));
        }
        let x = gs[i].clone();
        let mut rest = clone_geometries_from(gs, i + 1);
        let ghost r0 = rest@;
        rest.insert(0, x);
        proof {
            assert(gview_seq(gs@).skip(i as int + 1) =~= s.skip(1));
            assert(rest@ =~= seq![x] + r0);
            lemma_gview_seq(rest@);
            lemma_gview_seq(r0);
            assert(gview_seq(rest@) =~= seq![x@] + gview_seq(r0));
            assert(seq![x@] + gview_seq(r0) =~= s);
        }
        rest
    }
}

impl Clone for Value {
    /// A deep copy with the same shape.
    fn clone(&self) -> (r: Value)
        ensures
            vview(r) == vview(*self),
        decreases vview(*self), 0nat,
    {
        match self {
            Value::Point(p) => Value::Point(clone_nums(p)),
            Value::MultiPoint(ps) => Value::MultiPoint(clone_positions(ps)),
            Value::LineString(ps) => Value::LineString(clone_positions(ps)),
            Value::MultiLineString(ls) => Value::MultiLineString(clone_positions_2d(ls)),
            Value::Polygon(ls) => Value::Polygon(clone_positions_2d(ls)),
            Value::MultiPolygon(ms) => Value::MultiPolygon(clone_positions_3d(ms)),
            Value::GeometryCollection(gs) => {
                proof {
                    assert(decreases_to!(vview(*self) => vview(*self)->GeometryCollection_0));
                }
                let r = clone_geometries_from(gs, 0);
                proof {
                    assert(gview_seq(gs@).skip(0) =~= gview_seq(gs@));
                }
                Value::GeometryCollection(r)
            },
        }
    }
}

impl Clone for Geometry {
    /// A deep copy with the same shape.
    fn clone(&self) -> (r: Geometry)
        ensures
            r@ == self@,
        decreases gview(*self), 1nat,
    {
        proof {
            assert(decreases_to!(gview(*self) => gview(*self).value));
        }
        let r = Geometry {
            bbox: clone_bbox(&self.bbox),
            value: self.value.clone(),
            foreign_members: match &self.foreign_members {
                Some(m) => Some(m.clone()),
                None => None,
            },
        };
        proof {
            assert(r@ =~= self@);
        }
        r
    }
}

impl Clone for Id {
    /// A copy with the same shape.
    fn clone(&self) -> (r: Id)
        ensures
            iview(r) == iview(*self),
    {
        match self {
            Id::Number(n) => Id::Number(*n),
            Id::Str(s) => Id::Str(s.clone()),
        }
    }
}

impl Clone for Feature {
    /// A deep copy with the same shape.
    fn clone(&self) -> (r: Feature)
        ensures
            r@ == self@,
    {
        let r = Feature {
            bbox: clone_bbox(&self.bbox),
            geometry: match &self.geometry {
                Some(g) => Some(g.clone()),
                None => None,
            },
            id: match &self.id {
                Some(i) => Some(i.clone()),
                None => None,
            },
            properties: match &self.properties {
                Some(m) => Some(m.clone()),
                None => None,
            },
            foreign_members: match &self.foreign_members {
                Some(m) => Some(m.clone()),
                None => None,
            },
        };
        proof {
            assert(r@ =~= self@);
        }
        r
    }
}

impl Clone for FeatureCollection {
    /// A deep copy with the same shape.
    fn clone(&self) -> (r: FeatureCollection)
        ensures
            r@ == self@,
    {
        let mut features: Vec<Feature> = Vec::new();
        let n = self.features.len();
        let mut i: usize = 0;
        while i < n
            invariant
                i <= n,
                n == self.features@.len(),
                features@.len() == i,
                forall|j: int| 0 <= j < i ==> (#[trigger] features@[j])@ == self.features@[j]@,
            decreases n - i,
        {
            features.push(self.features[i].clone());
            i += 1;
        }
        proof {
            lemma_fview_seq(features@);
            lemma_fview_seq(self.features@);
            assert(fview_seq(features@) =~= fview_seq(self.features@));
        }
        let r = FeatureCollection {
            bbox: clone_bbox(&self.bbox),
            features,
            foreign_members: match &self.foreign_members {
                Some(m) => Some(m.clone()),
                None => None,
            },
        };
        proof {
            assert(r@ =~= self@);
        }
        r
    }
}

} // verus!
