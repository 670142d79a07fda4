use vstd::prelude::*;

use crate::crs::{get_crs, lemma_crs_round_trip, spec_crs_to_object, spec_get_crs, Crs, CrsV};
use crate::geometry::{geometry_wf, lemma_geometry_round_trip, opt_bbox_entry, opt_crs_entry,
    opt_foreign_entries, spec_geometry_from_object, spec_geometry_to_object, Geometry, GeometryV};
use crate::json::{json_view_entries, lemma_sget_size, lemma_view_entries_index,
    lemma_view_entries_push, sget, EntryV, Json, JsonObject, JsonV};
use crate::util::{clone_json, clone_object, collect_foreign, get_bbox, get_key, is_reserved,
    lemma_nonreserved_all, lemma_nonreserved_concat, lemma_nonreserved_empty, lemma_nums_rt,
    lemma_sget_absent, lemma_sget_concat, lemma_sget_single, nums_to_json, nums_view,
    position_json, spec_foreign, spec_get_bbox, spec_nonreserved, ObjKind};
use crate::{Bbox, Error, ErrorV, Number};

verus! {

/// A feature's identifier: a string or a number.
#[derive(Clone, Debug, PartialEq)]
pub enum Id {
    Str(String),
    Num(Number),
}

/// Mathematical model of an `Id`.
pub enum IdV {
    Str(Seq<char>),
    Num(Seq<char>),
}

impl View for Id {
    type V = IdV;

    open spec fn view(&self) -> IdV {
        match self {
            Id::Str(s) => IdV::Str(s@),
            Id::Num(n) => IdV::Num(n@),
        }
    }
}

/// Feature object: optional geometry, free-form properties, optional
/// identifier, plus the usual bbox, CRS and foreign members.
#[derive(Debug, PartialEq)]
pub struct Feature {
    pub bbox: Option<Bbox>,
    pub crs: Option<Crs>,
    pub geometry: Option<Geometry>,
    pub id: Option<Id>,
    pub properties: Option<JsonObject>,
    pub foreign_members: Option<JsonObject>,
}

/// Mathematical model of a `Feature`.
pub struct FeatureV {
    pub bbox: Option<Seq<Seq<char>>>,
    pub crs: Option<CrsV>,
    pub geometry: Option<GeometryV>,
    pub id: Option<IdV>,
    pub properties: Option<Seq<EntryV>>,
    pub foreign_members: Option<Seq<EntryV>>,
}

pub open spec fn feature_view(f: Feature) -> FeatureV {
    FeatureV {
        bbox: match f.bbox {
            Some(b) => Some(nums_view(b@)),
            None => None,
        },
        crs: match f.crs {
            Some(c) => Some(c@),
            None => None,
        },
        geometry: match f.geometry {
            Some(g) => Some(g@),
            None => None,
        },
        id: match f.id {
            Some(i) => Some(i@),
            None => None,
        },
        properties: match f.properties {
            Some(p) => Some(json_view_entries(p@)),
            None => None,
        },
        foreign_members: match f.foreign_members {
            Some(m) => Some(json_view_entries(m@)),
            None => None,
        },
    }
}

impl View for Feature {
    type V = FeatureV;

    open spec fn view(&self) -> FeatureV {
        feature_view(*self)
    }
}

pub open spec fn feature_wf(f: FeatureV) -> bool {
    &&& match f.foreign_members {
        Some(m) => m.len() > 0 && forall|i: int|
            0 <= i < m.len() ==> !is_reserved(ObjKind::Feature, (#[trigger] m[i]).0),
        None => true,
    }
    &&& match f.geometry {
        Some(g) => geometry_wf(g),
        None => true,
    }
}

// ---------------------------------------------------------------------
// Reading a feature object.
// ---------------------------------------------------------------------
/// The optional `geometry` member: absent or null mean no geometry; an
/// object is read as a geometry; anything else is rejected.
pub open spec fn spec_get_geometry(m: Seq<EntryV>) -> Result<Option<GeometryV>, ErrorV> {
    match sget(m, "geometry"@) {
        None => Ok(None),
        Some(v) => match v {
            JsonV::Null => Ok(None),
            JsonV::Obj(gm) => match spec_geometry_from_object(gm) {
                Ok(g) => Ok(Some(g)),
                Err(e) => Err(e),
            },
            _ => Err(ErrorV::FeatureInvalidGeometryValue),
        },
    }
}

/// The optional `properties` member: absent or null mean none; an
/// object is kept as it stands; anything else is rejected.
pub open spec fn spec_get_properties(m: Seq<EntryV>) -> Result<Option<Seq<EntryV>>, ErrorV> {
    match sget(m, "properties"@) {
        None => Ok(None),
        Some(v) => match v {
            JsonV::Null => Ok(None),
            JsonV::Obj(pm) => Ok(Some(pm)),
            _ => Err(ErrorV::PropertiesExpectedObjectOrNull),
        },
    }
}

/// The optional `id` member: a string or a number.
pub open spec fn spec_get_id(m: Seq<EntryV>) -> Result<Option<IdV>, ErrorV> {
    match sget(m, "id"@) {
        None => Ok(None),
        Some(v) => match v {
            JsonV::Str(s) => Ok(Some(IdV::Str(s))),
            JsonV::Num(n) => Ok(Some(IdV::Num(n))),
            _ => Err(ErrorV::ExpectedStringValue),
        },
    }
}

/// Reading a feature: geometry, properties and id first, then bbox,
/// foreign members and CRS.
pub open spec fn spec_feature_from_object(m: Seq<EntryV>) -> Result<FeatureV, ErrorV> {
    match spec_get_geometry(m) {
        Err(e) => Err(e),
        Ok(geometry) => match spec_get_properties(m) {
            Err(e) => Err(e),
            Ok(properties) => match spec_get_id(m) {
                Err(e) => Err(e),
                Ok(id) => match spec_get_bbox(m) {
                    Err(e) => Err(e),
                    Ok(bbox) => match spec_get_crs(m) {
                        Err(e) => Err(e),
                        Ok(crs) => Ok(
                            FeatureV {
                                bbox,
                                crs,
                                geometry,
                                id,
                                properties,
                                foreign_members: spec_foreign(m, ObjKind::Feature),
                            },
                        ),
                    },
                },
            },
        },
    }
}

// ---------------------------------------------------------------------
// Writing a feature object.
// ---------------------------------------------------------------------
pub open spec fn opt_id_entry(id: Option<IdV>) -> Seq<EntryV> {
    match id {
        Some(IdV::Str(s)) => seq![("id"@, JsonV::Str(s))],
        Some(IdV::Num(n)) => seq![("id"@, JsonV::Num(n))],
        None => Seq::empty(),
    }
}

pub open spec fn geometry_entry_json(g: Option<GeometryV>) -> JsonV {
    match g {
        Some(g) => JsonV::Obj(spec_geometry_to_object(g)),
        None => JsonV::Null,
    }
}

pub open spec fn properties_entry_json(p: Option<Seq<EntryV>>) -> JsonV {
    match p {
        Some(p) => JsonV::Obj(p),
        None => JsonV::Null,
    }
}

/// Writing a feature object: `crs` and `bbox` if present, the foreign
/// members, then `type`, `geometry`, `properties` (both written as
/// null when absent) and the identifier if present.
pub open spec fn spec_feature_to_object(f: FeatureV) -> Seq<EntryV> {
    opt_crs_entry(f.crs) + opt_bbox_entry(f.bbox) + opt_foreign_entries(f.foreign_members)
        + seq![
        ("type"@, JsonV::Str("Feature"@)),
        ("geometry"@, geometry_entry_json(f.geometry)),
        ("properties"@, properties_entry_json(f.properties)),
    ] + opt_id_entry(f.id)
}

// ---------------------------------------------------------------------
// Executable conversions.
// ---------------------------------------------------------------------
impl Feature {
    /// Reads a feature from a JSON object, exactly as
    /// `spec_feature_from_object` says.
    pub fn from_object(object: &JsonObject) -> (r: Result<Feature, Error>)
        ensures
            match r {
                Ok(f) => spec_feature_from_object(json_view_entries(object@)) == Ok::<
                    FeatureV,
                    ErrorV,
                >(f@),
                Err(e) => spec_feature_from_object(json_view_entries(object@)) == Err::<
                    FeatureV,
                    ErrorV,
                >(e@),
            },
    {
        let geometry: Option<Geometry> = match get_key(object, "geometry") {
            None => None,
            Some(v) => match v {
                Json::Null => None,
                Json::Obj(gm) => match Geometry::from_object(gm) {
                    Ok(g) => Some(g),
                    Err(e) => return Err(e),
                },
                _ => return Err(Error::FeatureInvalidGeometryValue),
            },
        };
        let properties: Option<JsonObject> = match get_key(object, "properties") {
            None => None,
            Some(v) => match v {
                Json::Null => None,
                Json::Obj(pm) => Some(clone_object(pm)),
                _ => return Err(Error::PropertiesExpectedObjectOrNull),
            },
        };
        let id: Option<Id> = match get_key(object, "id") {
            None => None,
            Some(v) => match v {
                Json::Str(s) => Some(Id::Str(s.clone())),
                Json::Num(n) => Some(Id::Num(Number { text: n.clone() })),
                _ => return Err(Error::ExpectedStringValue),
            },
        };
        let bbox = match get_bbox(object) {
            Ok(b) => b,
            Err(e) => return Err(e),
        };
        let foreign_members = collect_foreign(object, ObjKind::Feature);
        let crs = match get_crs(object) {
            Ok(c) => c,
            Err(e) => return Err(e),
        };
        Ok(Feature { bbox, crs, geometry, id, properties, foreign_members })
    }

    /// Writes the feature back as a JSON object, exactly as
    /// `spec_feature_to_object` says.
    #[verifier::rlimit(60)]
    pub fn to_object(&self) -> (r: JsonObject)
        ensures
            json_view_entries(r@) == spec_feature_to_object(self@),
    {
        let mut out: Vec<(String, Json)> = Vec::new();
        match &self.crs {
            Some(c) => {
                let e = ("crs".to_owned(), Json::Obj(c.to_object()));
                proof {
                    lemma_view_entries_push(out@, e);
                }
                out.push(e);
            },
            None => {},
        }
        proof {
            lemma_view_entries_index(out@);
            assert(json_view_entries(out@) =~= opt_crs_entry(self@.crs));
        }
        let ghost seg1 = json_view_entries(out@);
        match &self.bbox {
            Some(b) => {
                let e = ("bbox".to_owned(), position_json(b));
                proof {
                    lemma_view_entries_push(out@, e);
                }
                out.push(e);
                proof {
                    assert(seg1.push((e.0@, e.1@)) =~= seg1 + opt_bbox_entry(self@.bbox));
                }
            },
            None => {
                proof {
                    assert(seg1 + opt_bbox_entry(self@.bbox) =~= seg1);
                }
            },
        }
        let ghost seg2 = seg1 + opt_bbox_entry(self@.bbox);
        match &self.foreign_members {
            Some(f) => {
                let mut i: usize = 0;
                while i < f.len()
                    invariant
                        i <= f@.len(),
                        json_view_entries(out@) == seg2 + json_view_entries(f@.take(i as int)),
                    decreases f@.len() - i,
                {
                    let p = &f[i];
                    let c = (p.0.clone(), clone_json(&p.1));
                    proof {
                        lemma_view_entries_push(out@, c);
                        lemma_view_entries_push(f@.take(i as int), f@[i as int]);
                        assert(f@.take(i as int).push(f@[i as int]) =~= f@.take(i as int + 1));
                        assert((seg2 + json_view_entries(f@.take(i as int))).push(
                            (c.0@, c.1@),
                        ) =~= seg2 + json_view_entries(f@.take(i as int + 1)));
                    }
                    out.push(c);
                    i = i + 1;
                }
                proof {
                    assert(f@.take(f@.len() as int) =~= f@);
                }
            },
            None => {
                proof {
                    assert(seg2 + opt_foreign_entries(self@.foreign_members) =~= seg2);
                }
            },
        }
        let ghost seg3 = seg2 + opt_foreign_entries(self@.foreign_members);
        let e1 = ("type".to_owned(), Json::Str("Feature".to_owned()));
        proof {
            lemma_view_entries_push(out@, e1);
        }
        out.push(e1);
        let gj: Json = match &self.geometry {
            Some(g) => Json::Obj(g.to_object()),
            None => Json::Null,
        };
        let e2 = ("geometry".to_owned(), gj);
        proof {
            lemma_view_entries_push(out@, e2);
        }
        out.push(e2);
        let pj: Json = match &self.properties {
            Some(p) => Json::Obj(clone_object(p)),
            None => Json::Null,
        };
        let e3 = ("properties".to_owned(), pj);
        proof {
            lemma_view_entries_push(out@, e3);
        }
        out.push(e3);
        proof {
            assert(json_view_entries(out@) =~= seg3 + seq![
                ("type"@, JsonV::Str("Feature"@)),
                ("geometry"@, geometry_entry_json(self@.geometry)),
                ("properties"@, properties_entry_json(self@.properties)),
            ]);
        }
        let ghost seg4 = json_view_entries(out@);
        match &self.id {
            Some(Id::Str(s)) => {
                let e4 = ("id".to_owned(), Json::Str(s.clone()));
                proof {
                    lemma_view_entries_push(out@, e4);
                }
                out.push(e4);
            },
            Some(Id::Num(n)) => {
                let e4 = ("id".to_owned(), Json::Num(n.text.clone()));
                proof {
                    lemma_view_entries_push(out@, e4);
                }
                out.push(e4);
            },
            None => {},
        }
        proof {
            assert(json_view_entries(out@) =~= seg4 + opt_id_entry(self@.id));
            assert(seg4 + opt_id_entry(self@.id) =~= spec_feature_to_object(self@));
        }
        out
    }
}

// ---------------------------------------------------------------------
// Law: a well-formed feature written with `spec_feature_to_object`
// reads back unchanged.
// ---------------------------------------------------------------------
proof fn lemma_feature_lit_facts()
    ensures
        "type"@.len() == 4,
        "bbox"@.len() == 4,
        "crs"@.len() == 3,
        "geometry"@.len() == 8,
        "properties"@.len() == 10,
        "id"@.len() == 2,
        "Feature"@.len() == 7,
        "type"@ != "bbox"@,
{
    reveal_strlit("type");
    reveal_strlit("bbox");
    reveal_strlit("crs");
    reveal_strlit("geometry");
    reveal_strlit("properties");
    reveal_strlit("id");
    reveal_strlit("Feature");
    assert("type"@[0] == 't' && "bbox"@[0] == 'b');
}

/// What looking a reserved key up in a written feature object yields.
pub proof fn lemma_feature_to_object_get(f: FeatureV, k: Seq<char>)
    requires
        feature_wf(f),
        is_reserved(ObjKind::Feature, k),
    ensures
        sget(spec_feature_to_object(f), k) == (if k == "crs"@ && f.crs is Some {
            Some(JsonV::Obj(spec_crs_to_object(f.crs->0)))
        } else if k == "bbox"@ && f.bbox is Some {
            Some(JsonV::Arr(nums_to_json(f.bbox->0)))
        } else if k == "type"@ {
            Some(JsonV::Str("Feature"@))
        } else if k == "geometry"@ {
            Some(geometry_entry_json(f.geometry))
        } else if k == "properties"@ {
            Some(properties_entry_json(f.properties))
        } else if k == "id"@ && f.id is Some {
            Some(opt_id_entry(f.id)[0].1)
        } else {
            None::<JsonV>
        }),
{
    lemma_feature_lit_facts();
    reveal_with_fuel(sget, 5);
    let a = opt_crs_entry(f.crs);
    let b = opt_bbox_entry(f.bbox);
    let c = opt_foreign_entries(f.foreign_members);
    let t = seq![
        ("type"@, JsonV::Str("Feature"@)),
        ("geometry"@, geometry_entry_json(f.geometry)),
        ("properties"@, properties_entry_json(f.properties)),
    ];
    let d = opt_id_entry(f.id);
    assert(spec_feature_to_object(f) == (((a + b) + c) + t) + d);
    lemma_sget_concat(a, b, k);
    lemma_sget_concat(a + b, c, k);
    lemma_sget_concat((a + b) + c, t, k);
    lemma_sget_concat(((a + b) + c) + t, d, k);
    match f.crs {
        Some(cv) => {
            lemma_sget_single(("crs"@, JsonV::Obj(spec_crs_to_object(cv))), k);
        },
        None => {
            assert(sget(a, k) is None);
        },
    }
    match f.bbox {
        Some(p) => {
            lemma_sget_single(("bbox"@, JsonV::Arr(nums_to_json(p))), k);
        },
        None => {
            assert(sget(b, k) is None);
        },
    }
    assert forall|i: int| 0 <= i < c.len() implies (#[trigger] c[i]).0 != k by {}
    lemma_sget_absent(c, k);
    assert(t.subrange(1, 3) =~= seq![t[1], t[2]]);
    assert(seq![t[1], t[2]].subrange(1, 2) =~= seq![t[2]]);
    lemma_sget_single(t[2], k);
    match f.id {
        Some(idv) => {
            lemma_sget_single(d[0], k);
        },
        None => {
            assert(sget(d, k) is None);
        },
    }
}

/// Law: reading back a written well-formed feature yields the same
/// feature, properties, identifier and foreign members included.
pub proof fn lemma_feature_round_trip(f: FeatureV)
    requires
        feature_wf(f),
    ensures
        spec_feature_from_object(spec_feature_to_object(f)) == Ok::<FeatureV, ErrorV>(f),
{
    lemma_feature_lit_facts();
    let m = spec_feature_to_object(f);
    lemma_feature_to_object_get(f, "geometry"@);
    match f.geometry {
        Some(g) => {
            lemma_geometry_round_trip(g);
        },
        None => {},
    }
    lemma_feature_to_object_get(f, "properties"@);
    lemma_feature_to_object_get(f, "id"@);
    lemma_feature_to_object_get(f, "bbox"@);
    match f.bbox {
        Some(p) => {
            lemma_nums_rt(p, ErrorV::BboxExpectedNumericValues);
        },
        None => {},
    }
    lemma_feature_to_object_get(f, "crs"@);
    match f.crs {
        Some(cv) => {
            lemma_crs_round_trip(cv);
        },
        None => {},
    }
    let a = opt_crs_entry(f.crs);
    let b = opt_bbox_entry(f.bbox);
    let c = opt_foreign_entries(f.foreign_members);
    let t = seq![
        ("type"@, JsonV::Str("Feature"@)),
        ("geometry"@, geometry_entry_json(f.geometry)),
        ("properties"@, properties_entry_json(f.properties)),
    ];
    let d = opt_id_entry(f.id);
    assert(m == (((a + b) + c) + t) + d);
    lemma_nonreserved_concat(a, b, ObjKind::Feature);
    lemma_nonreserved_concat(a + b, c, ObjKind::Feature);
    lemma_nonreserved_concat((a + b) + c, t, ObjKind::Feature);
    lemma_nonreserved_concat(((a + b) + c) + t, d, ObjKind::Feature);
    assert forall|i: int| 0 <= i < a.len() implies is_reserved(
        ObjKind::Feature,
        (#[trigger] a[i]).0,
    ) by {}
    lemma_nonreserved_empty(a, ObjKind::Feature);
    assert forall|i: int| 0 <= i < b.len() implies is_reserved(
        ObjKind::Feature,
        (#[trigger] b[i]).0,
    ) by {}
    lemma_nonreserved_empty(b, ObjKind::Feature);
    assert forall|i: int| 0 <= i < t.len() implies is_reserved(
        ObjKind::Feature,
        (#[trigger] t[i]).0,
    ) by {}
    lemma_nonreserved_empty(t, ObjKind::Feature);
    assert forall|i: int| 0 <= i < d.len() implies is_reserved(
        ObjKind::Feature,
        (#[trigger] d[i]).0,
    ) by {}
    lemma_nonreserved_empty(d, ObjKind::Feature);
    assert forall|i: int| 0 <= i < c.len() implies !is_reserved(
        ObjKind::Feature,
        (#[trigger] c[i]).0,
    ) by {}
    lemma_nonreserved_all(c, ObjKind::Feature);
    assert(spec_nonreserved(m, ObjKind::Feature) =~= c);
    match f.foreign_members {
        Some(fm) => {
            assert(spec_foreign(m, ObjKind::Feature) == Some(fm));
        },
        None => {
            assert(spec_foreign(m, ObjKind::Feature) is None);
        },
    }
}

} // verus!
