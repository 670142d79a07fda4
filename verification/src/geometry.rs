use vstd::prelude::*;

use crate::crs::{get_crs, lemma_crs_round_trip, spec_crs_to_object, spec_get_crs, Crs, CrsV};
use crate::json::{json_to_text, json_view, json_view_entries, json_view_seq, jv_entries_size,
    jv_seq_size, jv_size, lemma_jv_seq_size_index, lemma_sget_size, lemma_view_entries_index,
    lemma_view_entries_push, lemma_view_seq_index, lemma_view_seq_push, sget, text_of_json,
    EntryV, Json, JsonObject, JsonV};
use crate::util::{as_array, as_object, clone_json, collect_foreign, get_bbox, is_reserved,
    key_is, lemma_lines_rt, lemma_nonreserved_all, lemma_nonreserved_concat,
    lemma_nonreserved_empty, lemma_nums_rt, lemma_polys_rt, lemma_positions_rt, lemma_sget_absent,
    lemma_sget_concat, lemma_sget_single, lines_to_json, lines_view, nums_to_json, nums_view,
    polys_to_json, polys_view, poss_to_json, poss_view, position_json, positions_json, lines_json,
    polys_json, require, spec_as_array, spec_as_object, spec_foreign, spec_get_bbox,
    spec_lines_array, spec_nonreserved, spec_polys_array, spec_pos_array, spec_position,
    spec_require, spec_type_of, to_lines_array, to_polys_array, to_pos_array, to_position,
    type_of, ObjKind};
use crate::{Bbox, Error, ErrorV, LineStringType, PointType, PolygonType};

verus! {

/// The underlying geometry value: seven kinds, each with its coordinate
/// nesting depth, the collection holding whole geometries recursively.
#[derive(Debug, PartialEq)]
pub enum Value {
    Point(PointType),
    MultiPoint(Vec<PointType>),
    LineString(LineStringType),
    MultiLineString(Vec<LineStringType>),
    Polygon(PolygonType),
    MultiPolygon(Vec<PolygonType>),
    GeometryCollection(Vec<Geometry>),
}

/// Geometry object: the value plus optional bounding box, CRS, and
/// pass-through foreign members.
#[derive(Debug, PartialEq)]
pub struct Geometry {
    pub bbox: Option<Bbox>,
    pub foreign_members: Option<JsonObject>,
    pub value: Value,
    pub crs: Option<Crs>,
}

/// Mathematical model of a `Value`.
pub enum ValueV {
    Point(Seq<Seq<char>>),
    MultiPoint(Seq<Seq<Seq<char>>>),
    LineString(Seq<Seq<Seq<char>>>),
    MultiLineString(Seq<Seq<Seq<Seq<char>>>>),
    Polygon(Seq<Seq<Seq<Seq<char>>>>),
    MultiPolygon(Seq<Seq<Seq<Seq<Seq<char>>>>>),
    GeometryCollection(Seq<GeometryV>),
}

/// Mathematical model of a `Geometry`.
pub struct GeometryV {
    pub bbox: Option<Seq<Seq<char>>>,
    pub foreign_members: Option<Seq<EntryV>>,
    pub value: ValueV,
    pub crs: Option<CrsV>,
}

pub open spec fn geometry_view(g: Geometry) -> GeometryV
    decreases g,
{
    GeometryV {
        bbox: match g.bbox {
            Some(b) => Some(nums_view(b@)),
            None => None,
        },
        foreign_members: match g.foreign_members {
            Some(f) => Some(json_view_entries(f@)),
            None => None,
        },
        value: value_view(g.value),
        crs: match g.crs {
            Some(c) => Some(c@),
            None => None,
        },
    }
}

pub open spec fn value_view(v: Value) -> ValueV
    decreases v,
{
    match v {
        Value::Point(p) => ValueV::Point(nums_view(p@)),
        Value::MultiPoint(s) => ValueV::MultiPoint(poss_view(s@)),
        Value::LineString(s) => ValueV::LineString(poss_view(s@)),
        Value::MultiLineString(s) => ValueV::MultiLineString(lines_view(s@)),
        Value::Polygon(s) => ValueV::Polygon(lines_view(s@)),
        Value::MultiPolygon(s) => ValueV::MultiPolygon(polys_view(s@)),
        Value::GeometryCollection(gs) => ValueV::GeometryCollection(geoms_view(gs@)),
    }
}

pub open spec fn geoms_view(s: Seq<Geometry>) -> Seq<GeometryV>
    decreases s,
{
    if s.len() == 0 {
        Seq::empty()
    } else {
        seq![geometry_view(s[0])] + geoms_view(s.subrange(1, s.len() as int))
    }
}

impl View for Geometry {
    type V = GeometryV;

    open spec fn view(&self) -> GeometryV {
        geometry_view(*self)
    }
}

impl View for Value {
    type V = ValueV;

    open spec fn view(&self) -> ValueV {
        value_view(*self)
    }
}

pub proof fn lemma_geoms_view_index(s: Seq<Geometry>)
    ensures
        geoms_view(s).len() == s.len(),
        forall|i: int|
            #![trigger s[i]]
            #![trigger geoms_view(s)[i]]
            0 <= i < s.len() ==> geoms_view(s)[i] == geometry_view(s[i]),
    decreases s.len(),
{
    if s.len() > 0 {
        let sub = s.subrange(1, s.len() as int);
        lemma_geoms_view_index(sub);
        assert forall|i: int| 0 <= i < s.len() implies geoms_view(s)[i] == geometry_view(
            #[trigger] s[i],
        ) by {
            if i > 0 {
                assert(sub[i - 1] == s[i]);
                assert(geoms_view(s)[i] == geoms_view(sub)[i - 1]);
            }
        }
    }
}

pub proof fn lemma_geoms_view_push(s: Seq<Geometry>, x: Geometry)
    ensures
        geoms_view(s.push(x)) == geoms_view(s).push(geometry_view(x)),
{
    lemma_geoms_view_index(s);
    lemma_geoms_view_index(s.push(x));
    assert forall|i: int| 0 <= i < s.push(x).len() implies geoms_view(s.push(x))[i]
        == geoms_view(s).push(geometry_view(x))[i] by {
        assert(s.push(x)[i] == (if i < s.len() { s[i] } else { x }));
    }
    assert(geoms_view(s.push(x)) =~= geoms_view(s).push(geometry_view(x)));
}

// ---------------------------------------------------------------------
// Well-formedness: foreign members, when present, are non-empty and
// hold no reserved key; nested geometries are well-formed too.
// ---------------------------------------------------------------------
pub open spec fn geometry_wf(g: GeometryV) -> bool
    decreases g,
{
    &&& match g.foreign_members {
        Some(f) => f.len() > 0 && forall|i: int|
            0 <= i < f.len() ==> !is_reserved(ObjKind::Geometry, (#[trigger] f[i]).0),
        None => true,
    }
    &&& value_wf(g.value)
}

pub open spec fn value_wf(v: ValueV) -> bool
    decreases v,
{
    match v {
        ValueV::GeometryCollection(gs) => forall|i: int|
            0 <= i < gs.len() ==> geometry_wf(#[trigger] gs[i]),
        _ => true,
    }
}

// ---------------------------------------------------------------------
// Reading a geometry object.
// ---------------------------------------------------------------------
/// After the value is built: optional bbox, then foreign members, then
/// optional CRS.
pub open spec fn spec_geometry_finish(m: Seq<EntryV>, value: ValueV) -> Result<GeometryV, ErrorV> {
    match spec_get_bbox(m) {
        Err(e) => Err(e),
        Ok(bbox) => match spec_get_crs(m) {
            Err(e) => Err(e),
            Ok(crs) => Ok(
                GeometryV {
                    bbox,
                    foreign_members: spec_foreign(m, ObjKind::Geometry),
                    value,
                    crs,
                },
            ),
        },
    }
}

/// Reading a geometry: the `type` string selects the kind; the
/// coordinates are walked to the kind's nesting depth; a collection
/// reads whole geometry objects recursively; any other `type` string is
/// `GeometryUnknownType`.
pub open spec fn spec_geometry_from_object(m: Seq<EntryV>) -> Result<GeometryV, ErrorV>
    decreases jv_entries_size(m),
{
    match spec_type_of(m) {
        Err(e) => Err(e),
        Ok(t) => if t == "Point"@ {
            match spec_require(m, "coordinates"@) {
                Err(e) => Err(e),
                Ok(cv) => match spec_position(cv) {
                    Err(e) => Err(e),
                    Ok(p) => spec_geometry_finish(m, ValueV::Point(p)),
                },
            }
        } else if t == "MultiPoint"@ {
            match spec_require(m, "coordinates"@) {
                Err(e) => Err(e),
                Ok(cv) => match spec_pos_array(cv) {
                    Err(e) => Err(e),
                    Ok(p) => spec_geometry_finish(m, ValueV::MultiPoint(p)),
                },
            }
        } else if t == "LineString"@ {
            match spec_require(m, "coordinates"@) {
                Err(e) => Err(e),
                Ok(cv) => match spec_pos_array(cv) {
                    Err(e) => Err(e),
                    Ok(p) => spec_geometry_finish(m, ValueV::LineString(p)),
                },
            }
        } else if t == "MultiLineString"@ {
            match spec_require(m, "coordinates"@) {
                Err(e) => Err(e),
                Ok(cv) => match spec_lines_array(cv) {
                    Err(e) => Err(e),
                    Ok(p) => spec_geometry_finish(m, ValueV::MultiLineString(p)),
                },
            }
        } else if t == "Polygon"@ {
            match spec_require(m, "coordinates"@) {
                Err(e) => Err(e),
                Ok(cv) => match spec_lines_array(cv) {
                    Err(e) => Err(e),
                    Ok(p) => spec_geometry_finish(m, ValueV::Polygon(p)),
                },
            }
        } else if t == "MultiPolygon"@ {
            match spec_require(m, "coordinates"@) {
                Err(e) => Err(e),
                Ok(cv) => match spec_polys_array(cv) {
                    Err(e) => Err(e),
                    Ok(p) => spec_geometry_finish(m, ValueV::MultiPolygon(p)),
                },
            }
        } else if t == "GeometryCollection"@ {
            match spec_require(m, "geometries"@) {
                Err(e) => Err(e),
                Ok(gv) => match gv {
                    JsonV::Arr(a) => {
                        proof {
                            lemma_sget_size(m, "geometries"@);
                            assert(a.skip(0) =~= a);
                        }
                        match spec_geometries(a, 0) {
                            Err(e) => Err(e),
                            Ok(gs) => spec_geometry_finish(
                                m,
                                ValueV::GeometryCollection(gs),
                            ),
                        }
                    },
                    _ => Err(ErrorV::ExpectedArrayValue),
                },
            }
        } else {
            Err(ErrorV::GeometryUnknownType)
        },
    }
}

/// Reading the elements of a `geometries` array from index `i` on: each
/// must be an object holding a geometry.
pub open spec fn spec_geometries(a: Seq<JsonV>, i: int) -> Result<Seq<GeometryV>, ErrorV>
    decreases jv_seq_size(a.skip(i)),
{
    if i < 0 || i >= a.len() {
        Ok(Seq::empty())
    } else {
        match a[i] {
            JsonV::Obj(m0) => {
                proof {
                    assert(a.skip(i)[0] == a[i]);
                    assert(a.skip(i).subrange(1, a.skip(i).len() as int) =~= a.skip(i + 1));
                    assert(jv_seq_size(a.skip(i)) == jv_size(a[i]) + jv_seq_size(a.skip(i + 1)));
                    assert(jv_size(a[i]) == 1 + jv_entries_size(m0));
                }
                match spec_geometry_from_object(m0) {
                    Err(e) => Err(e),
                    Ok(g) => match spec_geometries(a, i + 1) {
                        Err(e) => Err(e),
                        Ok(r) => Ok(seq![g] + r),
                    },
                }
            },
            _ => Err(ErrorV::ExpectedObjectValue),
        }
    }
}

// ---------------------------------------------------------------------
// Writing a geometry object.
// ---------------------------------------------------------------------
pub open spec fn spec_type_name(v: ValueV) -> Seq<char> {
    match v {
        ValueV::Point(_) => "Point"@,
        ValueV::MultiPoint(_) => "MultiPoint"@,
        ValueV::LineString(_) => "LineString"@,
        ValueV::MultiLineString(_) => "MultiLineString"@,
        ValueV::Polygon(_) => "Polygon"@,
        ValueV::MultiPolygon(_) => "MultiPolygon"@,
        ValueV::GeometryCollection(_) => "GeometryCollection"@,
    }
}

pub open spec fn spec_payload_key(v: ValueV) -> Seq<char> {
    match v {
        ValueV::GeometryCollection(_) => "geometries"@,
        _ => "coordinates"@,
    }
}

pub open spec fn spec_payload(v: ValueV) -> JsonV
    decreases v,
{
    match v {
        ValueV::Point(p) => JsonV::Arr(nums_to_json(p)),
        ValueV::MultiPoint(s) => JsonV::Arr(poss_to_json(s)),
        ValueV::LineString(s) => JsonV::Arr(poss_to_json(s)),
        ValueV::MultiLineString(s) => JsonV::Arr(lines_to_json(s)),
        ValueV::Polygon(s) => JsonV::Arr(lines_to_json(s)),
        ValueV::MultiPolygon(s) => JsonV::Arr(polys_to_json(s)),
        ValueV::GeometryCollection(gs) => JsonV::Arr(spec_geoms_to_json(gs)),
    }
}

pub open spec fn spec_geoms_to_json(s: Seq<GeometryV>) -> Seq<JsonV>
    decreases s,
{
    if s.len() == 0 {
        Seq::empty()
    } else {
        seq![JsonV::Obj(spec_geometry_to_object(s[0]))] + spec_geoms_to_json(
            s.subrange(1, s.len() as int),
        )
    }
}

pub open spec fn opt_crs_entry(c: Option<CrsV>) -> Seq<EntryV> {
    match c {
        Some(c) => seq![("crs"@, JsonV::Obj(spec_crs_to_object(c)))],
        None => Seq::empty(),
    }
}

pub open spec fn opt_bbox_entry(b: Option<Seq<Seq<char>>>) -> Seq<EntryV> {
    match b {
        Some(p) => seq![("bbox"@, JsonV::Arr(nums_to_json(p)))],
        None => Seq::empty(),
    }
}

pub open spec fn opt_foreign_entries(f: Option<Seq<EntryV>>) -> Seq<EntryV> {
    match f {
        Some(f) => f,
        None => Seq::empty(),
    }
}

/// Writing a geometry object: `crs` if present, `bbox` if present, the
/// foreign members, then `type` and the payload member.
pub open spec fn spec_geometry_to_object(g: GeometryV) -> Seq<EntryV>
    decreases g,
{
    opt_crs_entry(g.crs) + opt_bbox_entry(g.bbox) + opt_foreign_entries(g.foreign_members)
        + seq![
        ("type"@, JsonV::Str(spec_type_name(g.value))),
        (spec_payload_key(g.value), spec_payload(g.value)),
    ]
}

pub proof fn lemma_geoms_to_json_index(s: Seq<GeometryV>)
    ensures
        spec_geoms_to_json(s).len() == s.len(),
        forall|i: int|
            #![trigger s[i]]
            #![trigger spec_geoms_to_json(s)[i]]
            0 <= i < s.len() ==> spec_geoms_to_json(s)[i] == JsonV::Obj(
                spec_geometry_to_object(s[i]),
            ),
    decreases s.len(),
{
    if s.len() > 0 {
        let sub = s.subrange(1, s.len() as int);
        lemma_geoms_to_json_index(sub);
        assert forall|i: int| 0 <= i < s.len() implies spec_geoms_to_json(s)[i] == JsonV::Obj(
            spec_geometry_to_object(#[trigger] s[i]),
        ) by {
            if i > 0 {
                assert(sub[i - 1] == s[i]);
                assert(spec_geoms_to_json(s)[i] == spec_geoms_to_json(sub)[i - 1]);
            }
        }
    }
}

pub proof fn lemma_geoms_to_json_push(s: Seq<GeometryV>, x: GeometryV)
    ensures
        spec_geoms_to_json(s.push(x)) == spec_geoms_to_json(s).push(
            JsonV::Obj(spec_geometry_to_object(x)),
        ),
{
    lemma_geoms_to_json_index(s);
    lemma_geoms_to_json_index(s.push(x));
    assert forall|i: int| 0 <= i < s.push(x).len() implies spec_geoms_to_json(s.push(x))[i]
        == spec_geoms_to_json(s).push(JsonV::Obj(spec_geometry_to_object(x)))[i] by {
        assert(s.push(x)[i] == (if i < s.len() { s[i] } else { x }));
    }
    assert(spec_geoms_to_json(s.push(x)) =~= spec_geoms_to_json(s).push(
        JsonV::Obj(spec_geometry_to_object(x)),
    ));
}

// ---------------------------------------------------------------------
// Executable conversions.
// ---------------------------------------------------------------------
impl Geometry {
    /// A new `Geometry` from a value; `bbox`, `foreign_members` and
    /// `crs` are absent.
    pub fn new(value: Value) -> (g: Geometry)
        ensures
            g@ == (GeometryV {
                bbox: None,
                foreign_members: None,
                value: value@,
                crs: None,
            }),
    {
        Geometry { bbox: None, foreign_members: None, value, crs: None }
    }

    /// Reads a geometry from a JSON object, exactly as
    /// `spec_geometry_from_object` says.
    pub fn from_object(object: &JsonObject) -> (r: Result<Geometry, Error>)
        ensures
            match r {
                Ok(g) => spec_geometry_from_object(json_view_entries(object@)) == Ok::<
                    GeometryV,
                    ErrorV,
                >(g@),
                Err(e) => spec_geometry_from_object(json_view_entries(object@)) == Err::<
                    GeometryV,
                    ErrorV,
                >(e@),
            },
        decreases jv_entries_size(json_view_entries(object@)),
    {
        let ghost vm = json_view_entries(object@);
        let t = match type_of(object) {
            Ok(t) => t,
            Err(e) => return Err(e),
        };
        let value: Value = if key_is(t, "Point") {
            let cv = match require(object, "coordinates") {
                Ok(v) => v,
                Err(e) => return Err(e),
            };
            match to_position(cv) {
                Ok(p) => Value::Point(p),
                Err(e) => return Err(e),
            }
        } else if key_is(t, "MultiPoint") {
            let cv = match require(object, "coordinates") {
                Ok(v) => v,
                Err(e) => return Err(e),
            };
            match to_pos_array(cv) {
                Ok(p) => Value::MultiPoint(p),
                Err(e) => return Err(e),
            }
        } else if key_is(t, "LineString") {
            let cv = match require(object, "coordinates") {
                Ok(v) => v,
                Err(e) => return Err(e),
            };
            match to_pos_array(cv) {
                Ok(p) => Value::LineString(p),
                Err(e) => return Err(e),
            }
        } else if key_is(t, "MultiLineString") {
            let cv = match require(object, "coordinates") {
                Ok(v) => v,
                Err(e) => return Err(e),
            };
            match to_lines_array(cv) {
                Ok(p) => Value::MultiLineString(p),
                Err(e) => return Err(e),
            }
        } else if key_is(t, "Polygon") {
            let cv = match require(object, "coordinates") {
                Ok(v) => v,
                Err(e) => return Err(e),
            };
            match to_lines_array(cv) {
                Ok(p) => Value::Polygon(p),
                Err(e) => return Err(e),
            }
        } else if key_is(t, "MultiPolygon") {
            let cv = match require(object, "coordinates") {
                Ok(v) => v,
                Err(e) => return Err(e),
            };
            match to_polys_array(cv) {
                Ok(p) => Value::MultiPolygon(p),
                Err(e) => return Err(e),
            }
        } else if key_is(t, "GeometryCollection") {
            let gv = match require(object, "geometries") {
                Ok(v) => v,
                Err(e) => return Err(e),
            };
            let ga = match as_array(gv) {
                Ok(a) => a,
                Err(e) => return Err(e),
            };
            proof {
                lemma_sget_size(vm, "geometries"@);
                assert(sget(vm, "geometries"@) == Some(gv@));
                assert(jv_size(gv@) == 1 + jv_seq_size(json_view_seq(ga@)));
                assert(json_view_seq(ga@).skip(0) =~= json_view_seq(ga@));
            }
            match get_geometries(ga) {
                Ok(gs) => Value::GeometryCollection(gs),
                Err(e) => return Err(e),
            }
        } else {
            return Err(Error::GeometryUnknownType);
        };
        let bbox = match get_bbox(object) {
            Ok(b) => b,
            Err(e) => return Err(e),
        };
        let foreign_members = collect_foreign(object, ObjKind::Geometry);
        let crs = match get_crs(object) {
            Ok(c) => c,
            Err(e) => return Err(e),
        };
        Ok(Geometry { bbox, foreign_members, value, crs })
    }

    /// Renders the geometry as JSON text: the written object, rendered
    /// by the external JSON library.
    pub fn to_json_string(&self) -> (r: String)
        ensures
            r@ == text_of_json(JsonV::Obj(spec_geometry_to_object(self@))),
    {
        let obj = self.to_object();
        json_to_text(&Json::Obj(obj))
    }

    /// Writes the geometry back as a JSON object, exactly as
    /// `spec_geometry_to_object` says.
    pub fn to_object(&self) -> (r: JsonObject)
        ensures
            json_view_entries(r@) == spec_geometry_to_object(self@),
        decreases *self,
    {
        let mut out: Vec<(String, Json)> = Vec::new();
        match &self.crs {
            Some(c) => {
                let e = ("crs".to_owned(), Json::Obj(c.to_object()));
                proof {
                    lemma_view_entries_push(out@, e);
                }
                out.push(e);
            },
            None => {},
        }
        proof {
            lemma_view_entries_index(out@);
            assert(json_view_entries(out@) =~= opt_crs_entry(self@.crs));
        }
        let ghost seg1 = json_view_entries(out@);
        match &self.bbox {
            Some(b) => {
                let e = ("bbox".to_owned(), position_json(b));
                proof {
                    lemma_view_entries_push(out@, e);
                }
                out.push(e);
                proof {
                    assert(seg1.push((e.0@, e.1@)) =~= seg1 + opt_bbox_entry(self@.bbox));
                }
            },
            None => {
                proof {
                    assert(seg1 + opt_bbox_entry(self@.bbox) =~= seg1);
                }
            },
        }
        let ghost seg2 = seg1 + opt_bbox_entry(self@.bbox);
        match &self.foreign_members {
            Some(f) => {
                let mut i: usize = 0;
                while i < f.len()
                    invariant
                        i <= f@.len(),
                        json_view_entries(out@) == seg2 + json_view_entries(f@.take(i as int)),
                    decreases f@.len() - i,
                {
                    let p = &f[i];
                    let c = (p.0.clone(), clone_json(&p.1));
                    proof {
                        lemma_view_entries_push(out@, c);
                        lemma_view_entries_push(f@.take(i as int), f@[i as int]);
                        assert(f@.take(i as int).push(f@[i as int]) =~= f@.take(i as int + 1));
                        assert((seg2 + json_view_entries(f@.take(i as int))).push(
                            (c.0@, c.1@),
                        ) =~= seg2 + json_view_entries(f@.take(i as int + 1)));
                    }
                    out.push(c);
                    i = i + 1;
                }
                proof {
                    assert(f@.take(f@.len() as int) =~= f@);
                }
            },
            None => {
                proof {
                    assert(seg2 + opt_foreign_entries(self@.foreign_members) =~= seg2);
                }
            },
        }
        let ghost seg3 = seg2 + opt_foreign_entries(self@.foreign_members);
        let tn: String = match &self.value {
            Value::Point(_) => "Point".to_owned(),
            Value::MultiPoint(_) => "MultiPoint".to_owned(),
            Value::LineString(_) => "LineString".to_owned(),
            Value::MultiLineString(_) => "MultiLineString".to_owned(),
            Value::Polygon(_) => "Polygon".to_owned(),
            Value::MultiPolygon(_) => "MultiPolygon".to_owned(),
            Value::GeometryCollection(_) => "GeometryCollection".to_owned(),
        };
        let pk: String = match &self.value {
            Value::GeometryCollection(_) => "geometries".to_owned(),
            _ => "coordinates".to_owned(),
        };
        let pj: Json = match &self.value {
            Value::Point(p) => position_json(p),
            Value::MultiPoint(s) => positions_json(s),
            Value::LineString(s) => positions_json(s),
            Value::MultiLineString(s) => lines_json(s),
            Value::Polygon(s) => lines_json(s),
            Value::MultiPolygon(s) => polys_json(s),
            Value::GeometryCollection(gs) => {
                proof {
                    assert(decreases_to!(*self => self.value));
                    assert(self.value->GeometryCollection_0 == *gs);
                    assert(decreases_to!(self.value => self.value->GeometryCollection_0));
                }
                Json::Arr(geometries_json(gs))
            },
        };
        proof {
            assert(tn@ == spec_type_name(self@.value));
            assert(pk@ == spec_payload_key(self@.value));
            assert(pj@ == spec_payload(self@.value));
        }
        let e1 = ("type".to_owned(), Json::Str(tn));
        proof {
            lemma_view_entries_push(out@, e1);
        }
        out.push(e1);
        let e2 = (pk, pj);
        proof {
            lemma_view_entries_push(out@, e2);
        }
        out.push(e2);
        proof {
            assert(json_view_entries(out@) =~= spec_geometry_to_object(self@));
        }
        out
    }
}

/// Reads a `geometries` array: each element must be an object holding a
/// geometry, in order.
pub fn get_geometries(a: &Vec<Json>) -> (r: Result<Vec<Geometry>, Error>)
    ensures
        match r {
            Ok(gs) => spec_geometries(json_view_seq(a@), 0) == Ok::<Seq<GeometryV>, ErrorV>(
                geoms_view(gs@),
            ),
            Err(e) => spec_geometries(json_view_seq(a@), 0) == Err::<Seq<GeometryV>, ErrorV>(e@),
        },
    decreases jv_seq_size(json_view_seq(a@)),
{
    let ghost va = json_view_seq(a@);
    proof {
        lemma_view_seq_index(a@);
    }
    let mut out: Vec<Geometry> = Vec::new();
    let mut i: usize = 0;
    while i < a.len()
        invariant
            i <= a@.len(),
            va == json_view_seq(a@),
            va.len() == a@.len(),
            forall|j: int| 0 <= j < va.len() ==> va[j] == json_view(#[trigger] a@[j]),
            match spec_geometries(va, i as int) {
                Ok(rest) => spec_geometries(va, 0) == Ok::<Seq<GeometryV>, ErrorV>(
                    geoms_view(out@) + rest,
                ),
                Err(e) => spec_geometries(va, 0) == Err::<Seq<GeometryV>, ErrorV>(e),
            },
        decreases a@.len() - i,
    {
        proof {
            assert(va.skip(i as int)[0] == va[i as int]);
            assert(va.skip(i as int).subrange(1, va.skip(i as int).len() as int) =~= va.skip(
                i as int + 1,
            ));
        }
        let mi = match as_object(&a[i]) {
            Ok(mi) => mi,
            Err(e) => {
                return Err(e);
            },
        };
        proof {
            lemma_jv_seq_size_index(va, i as int);
            assert(jv_size(va[i as int]) == 1 + jv_entries_size(json_view_entries(mi@)));
        }
        match Geometry::from_object(mi) {
            Ok(g) => {
                proof {
                    lemma_geoms_view_push(out@, g);
                    if spec_geometries(va, i as int + 1) is Ok {
                        assert(geoms_view(out@) + (seq![g@] + spec_geometries(
                            va,
                            i as int + 1,
                        )->Ok_0) =~= geoms_view(out@).push(g@) + spec_geometries(
                            va,
                            i as int + 1,
                        )->Ok_0);
                    }
                }
                out.push(g);
                i = i + 1;
            },
            Err(e) => {
                return Err(e);
            },
        }
    }
    proof {
        assert(spec_geometries(va, i as int) == Ok::<Seq<GeometryV>, ErrorV>(Seq::empty()));
        assert(geoms_view(out@) + Seq::<GeometryV>::empty() =~= geoms_view(out@));
    }
    Ok(out)
}

/// Writes a sequence of geometries as JSON objects, in order.
pub fn geometries_json(gs: &Vec<Geometry>) -> (r: Vec<Json>)
    ensures
        json_view_seq(r@) == spec_geoms_to_json(geoms_view(gs@)),
    decreases *gs,
{
    let mut out: Vec<Json> = Vec::new();
    let mut i: usize = 0;
    while i < gs.len()
        invariant
            i <= gs@.len(),
            json_view_seq(out@) == spec_geoms_to_json(geoms_view(gs@.take(i as int))),
        decreases gs@.len() - i,
    {
        proof {
            assert(decreases_to!(*gs => gs@));
            assert(decreases_to!(gs@ => gs@[i as int]));
        }
        let x = Json::Obj(gs[i].to_object());
        proof {
            lemma_view_seq_push(out@, x);
            lemma_geoms_view_push(gs@.take(i as int), gs@[i as int]);
            assert(gs@.take(i as int).push(gs@[i as int]) =~= gs@.take(i as int + 1));
            lemma_geoms_to_json_push(geoms_view(gs@.take(i as int)), geometry_view(gs@[i as int]));
        }
        out.push(x);
        i = i + 1;
    }
    proof {
        assert(gs@.take(gs@.len() as int) =~= gs@);
    }
    out
}

/// Law: a position holding any non-number element is rejected, never
/// silently coerced; in particular a nested array in a `Point`'s
/// coordinates fails.
pub proof fn lemma_position_shape_rejection(a: Seq<JsonV>, i: int)
    requires
        0 <= i < a.len(),
        !(a[i] is Num),
    ensures
        spec_position(JsonV::Arr(a)) is Err,
{
    crate::util::lemma_try_map_err(a, 0, i, crate::util::f_num(ErrorV::ExpectedF64Value));
}

/// Law: a geometry object whose `type` string is none of the seven
/// kind names is rejected as `GeometryUnknownType`.
pub proof fn lemma_unknown_geometry_type(m: Seq<EntryV>, t: Seq<char>)
    requires
        spec_type_of(m) == Ok::<Seq<char>, ErrorV>(t),
        !crate::geojson::is_geometry_type(t),
    ensures
        spec_geometry_from_object(m) == Err::<GeometryV, ErrorV>(ErrorV::GeometryUnknownType),
{
}

// ---------------------------------------------------------------------
// Law: a well-formed geometry written with `spec_geometry_to_object`
// reads back unchanged.
// ---------------------------------------------------------------------
/// The reserved keys of a geometry object written back are pairwise
/// distinct, and distinct from the seven kind names as used.
proof fn lemma_geometry_lit_facts()
    ensures
        "type"@.len() == 4,
        "bbox"@.len() == 4,
        "crs"@.len() == 3,
        "coordinates"@.len() == 11,
        "geometries"@.len() == 10,
        "type"@ != "bbox"@,
        "geometries"@ != "coordinates"@,
        "Point"@.len() == 5,
        "MultiPoint"@.len() == 10,
        "LineString"@.len() == 10,
        "MultiLineString"@.len() == 15,
        "Polygon"@.len() == 7,
        "MultiPolygon"@.len() == 12,
        "GeometryCollection"@.len() == 18,
        "MultiPoint"@ != "LineString"@,
{
    reveal_strlit("type");
    reveal_strlit("bbox");
    reveal_strlit("crs");
    reveal_strlit("coordinates");
    reveal_strlit("geometries");
    reveal_strlit("Point");
    reveal_strlit("MultiPoint");
    reveal_strlit("LineString");
    reveal_strlit("MultiLineString");
    reveal_strlit("Polygon");
    reveal_strlit("MultiPolygon");
    reveal_strlit("GeometryCollection");
    assert("type"@[0] == 't' && "bbox"@[0] == 'b');
    assert("MultiPoint"@[0] == 'M' && "LineString"@[0] == 'L');
}

/// What looking a reserved key up in a written geometry object yields.
pub proof fn lemma_to_object_get(g: GeometryV, k: Seq<char>)
    requires
        geometry_wf(g),
        is_reserved(ObjKind::Geometry, k),
    ensures
        sget(spec_geometry_to_object(g), k) == (if k == "crs"@ && g.crs is Some {
            Some(JsonV::Obj(spec_crs_to_object(g.crs->0)))
        } else if k == "bbox"@ && g.bbox is Some {
            Some(JsonV::Arr(nums_to_json(g.bbox->0)))
        } else if k == "type"@ {
            Some(JsonV::Str(spec_type_name(g.value)))
        } else if k == spec_payload_key(g.value) {
            Some(spec_payload(g.value))
        } else {
            None::<JsonV>
        }),
{
    lemma_geometry_lit_facts();
    let a = opt_crs_entry(g.crs);
    let b = opt_bbox_entry(g.bbox);
    let c = opt_foreign_entries(g.foreign_members);
    let t = seq![
        ("type"@, JsonV::Str(spec_type_name(g.value))),
        (spec_payload_key(g.value), spec_payload(g.value)),
    ];
    assert(spec_geometry_to_object(g) == ((a + b) + c) + t);
    lemma_sget_concat(a, b, k);
    lemma_sget_concat(a + b, c, k);
    lemma_sget_concat((a + b) + c, t, k);
    match g.crs {
        Some(cv) => {
            lemma_sget_single(("crs"@, JsonV::Obj(spec_crs_to_object(cv))), k);
        },
        None => {
            assert(sget(a, k) is None);
        },
    }
    match g.bbox {
        Some(p) => {
            lemma_sget_single(("bbox"@, JsonV::Arr(nums_to_json(p))), k);
        },
        None => {
            assert(sget(b, k) is None);
        },
    }
    assert forall|i: int| 0 <= i < c.len() implies (#[trigger] c[i]).0 != k by {}
    lemma_sget_absent(c, k);
    assert(t.len() == 2 && t[0].0 == "type"@ && t[1].0 == spec_payload_key(g.value));
    assert(t.subrange(1, 2) =~= seq![t[1]]);
    lemma_sget_single(t[1], k);
}

/// The bbox, foreign members and CRS of a written geometry object read
/// back unchanged, whatever the value.
proof fn lemma_finish_rt(g: GeometryV, value: ValueV)
    requires
        geometry_wf(g),
    ensures
        spec_geometry_finish(spec_geometry_to_object(g), value) == Ok::<GeometryV, ErrorV>(
            GeometryV {
                bbox: g.bbox,
                foreign_members: g.foreign_members,
                value,
                crs: g.crs,
            },
        ),
{
    lemma_geometry_lit_facts();
    let m = spec_geometry_to_object(g);
    lemma_to_object_get(g, "bbox"@);
    match g.bbox {
        Some(p) => {
            lemma_nums_rt(p, ErrorV::BboxExpectedNumericValues);
        },
        None => {},
    }
    lemma_to_object_get(g, "crs"@);
    match g.crs {
        Some(cv) => {
            lemma_crs_round_trip(cv);
        },
        None => {},
    }
    let a = opt_crs_entry(g.crs);
    let b = opt_bbox_entry(g.bbox);
    let c = opt_foreign_entries(g.foreign_members);
    let t = seq![
        ("type"@, JsonV::Str(spec_type_name(g.value))),
        (spec_payload_key(g.value), spec_payload(g.value)),
    ];
    assert(m == ((a + b) + c) + t);
    lemma_nonreserved_concat(a, b, ObjKind::Geometry);
    lemma_nonreserved_concat(a + b, c, ObjKind::Geometry);
    lemma_nonreserved_concat((a + b) + c, t, ObjKind::Geometry);
    assert forall|i: int| 0 <= i < a.len() implies is_reserved(
        ObjKind::Geometry,
        (#[trigger] a[i]).0,
    ) by {}
    lemma_nonreserved_empty(a, ObjKind::Geometry);
    assert forall|i: int| 0 <= i < b.len() implies is_reserved(
        ObjKind::Geometry,
        (#[trigger] b[i]).0,
    ) by {}
    lemma_nonreserved_empty(b, ObjKind::Geometry);
    assert forall|i: int| 0 <= i < t.len() implies is_reserved(
        ObjKind::Geometry,
        (#[trigger] t[i]).0,
    ) by {
        assert(spec_payload_key(g.value) == "coordinates"@ || spec_payload_key(g.value)
            == "geometries"@);
    }
    lemma_nonreserved_empty(t, ObjKind::Geometry);
    assert forall|i: int| 0 <= i < c.len() implies !is_reserved(
        ObjKind::Geometry,
        (#[trigger] c[i]).0,
    ) by {}
    lemma_nonreserved_all(c, ObjKind::Geometry);
    assert(spec_nonreserved(m, ObjKind::Geometry) =~= c);
    match g.foreign_members {
        Some(f) => {
            assert(spec_foreign(m, ObjKind::Geometry) == Some(f));
        },
        None => {
            assert(spec_foreign(m, ObjKind::Geometry) is None);
        },
    }
}

/// Law: reading back a written well-formed geometry yields the same
/// geometry, foreign members and nested geometries included.
pub proof fn lemma_geometry_round_trip(g: GeometryV)
    requires
        geometry_wf(g),
    ensures
        spec_geometry_from_object(spec_geometry_to_object(g)) == Ok::<GeometryV, ErrorV>(g),
    decreases g, 0int,
{
    lemma_geometry_lit_facts();
    let m = spec_geometry_to_object(g);
    lemma_to_object_get(g, "type"@);
    assert(spec_type_of(m) == Ok::<Seq<char>, ErrorV>(spec_type_name(g.value)));
    match g.value {
        ValueV::Point(p) => {
            lemma_to_object_get(g, "coordinates"@);
            lemma_nums_rt(p, ErrorV::ExpectedF64Value);
            lemma_finish_rt(g, ValueV::Point(p));
        },
        ValueV::MultiPoint(s) => {
            lemma_to_object_get(g, "coordinates"@);
            lemma_positions_rt(s);
            lemma_finish_rt(g, ValueV::MultiPoint(s));
        },
        ValueV::LineString(s) => {
            lemma_to_object_get(g, "coordinates"@);
            lemma_positions_rt(s);
            lemma_finish_rt(g, ValueV::LineString(s));
        },
        ValueV::MultiLineString(s) => {
            lemma_to_object_get(g, "coordinates"@);
            lemma_lines_rt(s);
            lemma_finish_rt(g, ValueV::MultiLineString(s));
        },
        ValueV::Polygon(s) => {
            lemma_to_object_get(g, "coordinates"@);
            lemma_lines_rt(s);
            lemma_finish_rt(g, ValueV::Polygon(s));
        },
        ValueV::MultiPolygon(s) => {
            lemma_to_object_get(g, "coordinates"@);
            lemma_polys_rt(s);
            lemma_finish_rt(g, ValueV::MultiPolygon(s));
        },
        ValueV::GeometryCollection(gs) => {
            lemma_to_object_get(g, "geometries"@);
            assert(decreases_to!(g => g.value));
            assert(g.value->GeometryCollection_0 == gs);
            assert(decreases_to!(g.value => g.value->GeometryCollection_0));
            lemma_geometries_round_trip(gs, 0);
            assert(gs.skip(0) =~= gs);
            lemma_finish_rt(g, ValueV::GeometryCollection(gs));
        },
    }
}

/// Law: a written sequence of well-formed geometries reads back in
/// order, from any starting index.
pub proof fn lemma_geometries_round_trip(s: Seq<GeometryV>, i: int)
    requires
        0 <= i <= s.len(),
        forall|j: int| i <= j < s.len() ==> geometry_wf(#[trigger] s[j]),
    ensures
        spec_geometries(spec_geoms_to_json(s), i) == Ok::<Seq<GeometryV>, ErrorV>(s.skip(i)),
    decreases s, s.len() - i,
{
    let a = spec_geoms_to_json(s);
    lemma_geoms_to_json_index(s);
    if i == s.len() {
        assert(s.skip(i) =~= Seq::<GeometryV>::empty());
    } else {
        assert(a[i] == JsonV::Obj(spec_geometry_to_object(s[i])));
        lemma_geometry_round_trip(s[i]);
        lemma_geometries_round_trip(s, i + 1);
        assert(seq![s[i]] + s.skip(i + 1) =~= s.skip(i));
    }
}

} // verus!
