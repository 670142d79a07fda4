use vstd::prelude::*;

use crate::crs::{get_crs, lemma_crs_round_trip, spec_crs_to_object, spec_get_crs, Crs, CrsV};
use crate::feature::{feature_wf, lemma_feature_round_trip, spec_feature_from_object,
    spec_feature_to_object, Feature, FeatureV};
use crate::geometry::{opt_bbox_entry, opt_crs_entry, opt_foreign_entries};
use crate::json::{json_view, json_view_entries, json_view_seq, lemma_view_entries_index,
    lemma_view_entries_push, lemma_view_seq_index, lemma_view_seq_push, sget, EntryV, Json,
    JsonObject, JsonV};
use crate::util::{as_array, as_object, clone_json, collect_foreign, get_bbox, is_reserved,
    lemma_nonreserved_all, lemma_nonreserved_concat, lemma_nonreserved_empty, lemma_nums_rt,
    lemma_sget_absent, lemma_sget_concat, lemma_sget_single, nums_to_json, nums_view,
    position_json, require, spec_as_array, spec_foreign, spec_get_bbox, spec_nonreserved,
    spec_require, ObjKind};
use crate::{Bbox, Error, ErrorV};

verus! {

/// Feature collection object: an ordered sequence of features, plus the
/// usual bbox, CRS and foreign members.
#[derive(Debug, PartialEq)]
pub struct FeatureCollection {
    pub bbox: Option<Bbox>,
    pub crs: Option<Crs>,
    pub features: Vec<Feature>,
    pub foreign_members: Option<JsonObject>,
}

/// Mathematical model of a `FeatureCollection`.
pub struct FeatureCollectionV {
    pub bbox: Option<Seq<Seq<char>>>,
    pub crs: Option<CrsV>,
    pub features: Seq<FeatureV>,
    pub foreign_members: Option<Seq<EntryV>>,
}

pub open spec fn features_view(s: Seq<Feature>) -> Seq<FeatureV> {
    Seq::new(s.len(), |i: int| s[i]@)
}

pub open spec fn collection_view(fc: FeatureCollection) -> FeatureCollectionV {
    FeatureCollectionV {
        bbox: match fc.bbox {
            Some(b) => Some(nums_view(b@)),
            None => None,
        },
        crs: match fc.crs {
            Some(c) => Some(c@),
            None => None,
        },
        features: features_view(fc.features@),
        foreign_members: match fc.foreign_members {
            Some(m) => Some(json_view_entries(m@)),
            None => None,
        },
    }
}

impl View for FeatureCollection {
    type V = FeatureCollectionV;

    open spec fn view(&self) -> FeatureCollectionV {
        collection_view(*self)
    }
}

pub open spec fn collection_wf(fc: FeatureCollectionV) -> bool {
    &&& match fc.foreign_members {
        Some(m) => m.len() > 0 && forall|i: int|
            0 <= i < m.len() ==> !is_reserved(ObjKind::Collection, (#[trigger] m[i]).0),
        None => true,
    }
    &&& forall|i: int| 0 <= i < fc.features.len() ==> feature_wf(#[trigger] fc.features[i])
}

// ---------------------------------------------------------------------
// Reading a feature collection object.
// ---------------------------------------------------------------------
/// Reading the elements of a `features` array from index `i` on: each
/// must be an object holding a feature.
pub open spec fn spec_features(a: Seq<JsonV>, i: int) -> Result<Seq<FeatureV>, ErrorV>
    decreases a.len() - i,
{
    if i < 0 || i >= a.len() {
        Ok(Seq::empty())
    } else {
        match a[i] {
            JsonV::Obj(m0) => match spec_feature_from_object(m0) {
                Err(e) => Err(e),
                Ok(f) => match spec_features(a, i + 1) {
                    Err(e) => Err(e),
                    Ok(r) => Ok(seq![f] + r),
                },
            },
            _ => Err(ErrorV::ExpectedObjectValue),
        }
    }
}

/// Reading a collection: `features` is required and must be an array
/// of feature objects; then bbox, foreign members and CRS.
pub open spec fn spec_collection_from_object(m: Seq<EntryV>) -> Result<
    FeatureCollectionV,
    ErrorV,
> {
    match spec_require(m, "features"@) {
        Err(e) => Err(e),
        Ok(fv) => match spec_as_array(fv) {
            Err(e) => Err(e),
            Ok(a) => match spec_features(a, 0) {
                Err(e) => Err(e),
                Ok(features) => match spec_get_bbox(m) {
                    Err(e) => Err(e),
                    Ok(bbox) => match spec_get_crs(m) {
                        Err(e) => Err(e),
                        Ok(crs) => Ok(
                            FeatureCollectionV {
                                bbox,
                                crs,
                                features,
                                foreign_members: spec_foreign(m, ObjKind::Collection),
                            },
                        ),
                    },
                },
            },
        },
    }
}

// ---------------------------------------------------------------------
// Writing a feature collection object.
// ---------------------------------------------------------------------
pub open spec fn spec_features_to_json(s: Seq<FeatureV>) -> Seq<JsonV> {
    Seq::new(s.len(), |i: int| JsonV::Obj(spec_feature_to_object(s[i])))
}

/// Writing a collection: `crs` and `bbox` if present, the foreign
/// members, then `type` and the `features` array.
pub open spec fn spec_collection_to_object(fc: FeatureCollectionV) -> Seq<EntryV> {
    opt_crs_entry(fc.crs) + opt_bbox_entry(fc.bbox) + opt_foreign_entries(fc.foreign_members)
        + seq![
        ("type"@, JsonV::Str("FeatureCollection"@)),
        ("features"@, JsonV::Arr(spec_features_to_json(fc.features))),
    ]
}

// ---------------------------------------------------------------------
// Executable conversions.
// ---------------------------------------------------------------------
/// Reads a `features` array: each element must be an object holding a
/// feature, in order.
pub fn get_features(a: &Vec<Json>) -> (r: Result<Vec<Feature>, Error>)
    ensures
        match r {
            Ok(fs) => spec_features(json_view_seq(a@), 0) == Ok::<Seq<FeatureV>, ErrorV>(
                features_view(fs@),
            ),
            Err(e) => spec_features(json_view_seq(a@), 0) == Err::<Seq<FeatureV>, ErrorV>(e@),
        },
{
    let ghost va = json_view_seq(a@);
    proof {
        lemma_view_seq_index(a@);
    }
    let mut out: Vec<Feature> = Vec::new();
    let mut i: usize = 0;
    while i < a.len()
        invariant
            i <= a@.len(),
            va == json_view_seq(a@),
            va.len() == a@.len(),
            forall|j: int| 0 <= j < va.len() ==> va[j] == json_view(#[trigger] a@[j]),
            match spec_features(va, i as int) {
                Ok(rest) => spec_features(va, 0) == Ok::<Seq<FeatureV>, ErrorV>(
                    features_view(out@) + rest,
                ),
                Err(e) => spec_features(va, 0) == Err::<Seq<FeatureV>, ErrorV>(e),
            },
        decreases a@.len() - i,
    {
        let mi = match as_object(&a[i]) {
            Ok(mi) => mi,
            Err(e) => {
                return Err(e);
            },
        };
        match Feature::from_object(mi) {
            Ok(f) => {
                proof {
                    assert(features_view(out@.push(f)) =~= features_view(out@).push(f@));
                    if spec_features(va, i as int + 1) is Ok {
                        assert(features_view(out@) + (seq![f@] + spec_features(
                            va,
                            i as int + 1,
                        )->Ok_0) =~= features_view(out@).push(f@) + spec_features(
                            va,
                            i as int + 1,
                        )->Ok_0);
                    }
                }
                out.push(f);
                i = i + 1;
            },
            Err(e) => {
                return Err(e);
            },
        }
    }
    proof {
        assert(spec_features(va, i as int) == Ok::<Seq<FeatureV>, ErrorV>(Seq::empty()));
        assert(features_view(out@) + Seq::<FeatureV>::empty() =~= features_view(out@));
    }
    Ok(out)
}

impl FeatureCollection {
    /// Reads a feature collection from a JSON object, exactly as
    /// `spec_collection_from_object` says.
    pub fn from_object(object: &JsonObject) -> (r: Result<FeatureCollection, Error>)
        ensures
            match r {
                Ok(fc) => spec_collection_from_object(json_view_entries(object@)) == Ok::<
                    FeatureCollectionV,
                    ErrorV,
                >(fc@),
                Err(e) => spec_collection_from_object(json_view_entries(object@)) == Err::<
                    FeatureCollectionV,
                    ErrorV,
                >(e@),
            },
    {
        let fv = match require(object, "features") {
            Ok(v) => v,
            Err(e) => return Err(e),
        };
        let fa = match as_array(fv) {
            Ok(a) => a,
            Err(e) => return Err(e),
        };
        let features = match get_features(fa) {
            Ok(fs) => fs,
            Err(e) => return Err(e),
        };
        let bbox = match get_bbox(object) {
            Ok(b) => b,
            Err(e) => return Err(e),
        };
        let foreign_members = collect_foreign(object, ObjKind::Collection);
        let crs = match get_crs(object) {
            Ok(c) => c,
            Err(e) => return Err(e),
        };
        Ok(FeatureCollection { bbox, crs, features, foreign_members })
    }

    /// Writes the collection back as a JSON object, exactly as
    /// `spec_collection_to_object` says.
    pub fn to_object(&self) -> (r: JsonObject)
        ensures
            json_view_entries(r@) == spec_collection_to_object(self@),
    {
        let mut out: Vec<(String, Json)> = Vec::new();
        match &self.crs {
            Some(c) => {
                let e = ("crs".to_owned(), Json::Obj(c.to_object()));
                proof {
                    lemma_view_entries_push(out@, e);
                }
                out.push(e);
            },
            None => {},
        }
        proof {
            lemma_view_entries_index(out@);
            assert(json_view_entries(out@) =~= opt_crs_entry(self@.crs));
        }
        let ghost seg1 = json_view_entries(out@);
        match &self.bbox {
            Some(b) => {
                let e = ("bbox".to_owned(), position_json(b));
                proof {
                    lemma_view_entries_push(out@, e);
                }
                out.push(e);
                proof {
                    assert(seg1.push((e.0@, e.1@)) =~= seg1 + opt_bbox_entry(self@.bbox));
                }
            },
            None => {
                proof {
                    assert(seg1 + opt_bbox_entry(self@.bbox) =~= seg1);
                }
            },
        }
        let ghost seg2 = seg1 + opt_bbox_entry(self@.bbox);
        match &self.foreign_members {
            Some(f) => {
                let mut i: usize = 0;
                while i < f.len()
                    invariant
                        i <= f@.len(),
                        json_view_entries(out@) == seg2 + json_view_entries(f@.take(i as int)),
                    decreases f@.len() - i,
                {
                    let p = &f[i];
                    let c = (p.0.clone(), clone_json(&p.1));
                    proof {
                        lemma_view_entries_push(out@, c);
                        lemma_view_entries_push(f@.take(i as int), f@[i as int]);
                        assert(f@.take(i as int).push(f@[i as int]) =~= f@.take(i as int + 1));
                        assert((seg2 + json_view_entries(f@.take(i as int))).push(
                            (c.0@, c.1@),
                        ) =~= seg2 + json_view_entries(f@.take(i as int + 1)));
                    }
                    out.push(c);
                    i = i + 1;
                }
                proof {
                    assert(f@.take(f@.len() as int) =~= f@);
                }
            },
            None => {
                proof {
                    assert(seg2 + opt_foreign_entries(self@.foreign_members) =~= seg2);
                }
            },
        }
        let ghost seg3 = seg2 + opt_foreign_entries(self@.foreign_members);
        let e1 = ("type".to_owned(), Json::Str("FeatureCollection".to_owned()));
        proof {
            lemma_view_entries_push(out@, e1);
        }
        out.push(e1);
        let mut fjs: Vec<Json> = Vec::new();
        let mut i: usize = 0;
        while i < self.features.len()
            invariant
                i <= self.features@.len(),
                json_view_seq(fjs@) == spec_features_to_json(
                    features_view(self.features@.take(i as int)),
                ),
            decreases self.features@.len() - i,
        {
            let x = Json::Obj(self.features[i].to_object());
            proof {
                lemma_view_seq_push(fjs@, x);
                assert(features_view(self.features@.take(i as int)).push(
                    self.features@[i as int]@,
                ) =~= features_view(self.features@.take(i as int + 1)));
                assert(spec_features_to_json(features_view(self.features@.take(i as int))).push(
                    JsonV::Obj(spec_feature_to_object(self.features@[i as int]@)),
                ) =~= spec_features_to_json(
                    features_view(self.features@.take(i as int + 1)),
                ));
            }
            fjs.push(x);
            i = i + 1;
        }
        proof {
            assert(self.features@.take(self.features@.len() as int) =~= self.features@);
            assert(spec_features_to_json(features_view(self.features@)) =~= spec_features_to_json(
                collection_view(*self).features,
            ));
        }
        let e2 = ("features".to_owned(), Json::Arr(fjs));
        proof {
            lemma_view_entries_push(out@, e2);
        }
        out.push(e2);
        proof {
            assert(json_view_entries(out@) =~= spec_collection_to_object(self@));
        }
        out
    }
}

// ---------------------------------------------------------------------
// Law: a well-formed collection written with
// `spec_collection_to_object` reads back unchanged, feature order
// included.
// ---------------------------------------------------------------------
proof fn lemma_collection_lit_facts()
    ensures
        "type"@.len() == 4,
        "bbox"@.len() == 4,
        "crs"@.len() == 3,
        "features"@.len() == 8,
        "FeatureCollection"@.len() == 17,
        "type"@ != "bbox"@,
{
    reveal_strlit("type");
    reveal_strlit("bbox");
    reveal_strlit("crs");
    reveal_strlit("features");
    reveal_strlit("FeatureCollection");
    assert("type"@[0] == 't' && "bbox"@[0] == 'b');
}

/// What looking a reserved key up in a written collection object
/// yields.
pub proof fn lemma_collection_to_object_get(fc: FeatureCollectionV, k: Seq<char>)
    requires
        collection_wf(fc),
        is_reserved(ObjKind::Collection, k),
    ensures
        sget(spec_collection_to_object(fc), k) == (if k == "crs"@ && fc.crs is Some {
            Some(JsonV::Obj(spec_crs_to_object(fc.crs->0)))
        } else if k == "bbox"@ && fc.bbox is Some {
            Some(JsonV::Arr(nums_to_json(fc.bbox->0)))
        } else if k == "type"@ {
            Some(JsonV::Str("FeatureCollection"@))
        } else if k == "features"@ {
            Some(JsonV::Arr(spec_features_to_json(fc.features)))
        } else {
            None::<JsonV>
        }),
{
    lemma_collection_lit_facts();
    reveal_with_fuel(sget, 4);
    let a = opt_crs_entry(fc.crs);
    let b = opt_bbox_entry(fc.bbox);
    let c = opt_foreign_entries(fc.foreign_members);
    let t = seq![
        ("type"@, JsonV::Str("FeatureCollection"@)),
        ("features"@, JsonV::Arr(spec_features_to_json(fc.features))),
    ];
    assert(spec_collection_to_object(fc) == ((a + b) + c) + t);
    lemma_sget_concat(a, b, k);
    lemma_sget_concat(a + b, c, k);
    lemma_sget_concat((a + b) + c, t, k);
    match fc.crs {
        Some(cv) => {
            lemma_sget_single(("crs"@, JsonV::Obj(spec_crs_to_object(cv))), k);
        },
        None => {
            assert(sget(a, k) is None);
        },
    }
    match fc.bbox {
        Some(p) => {
            lemma_sget_single(("bbox"@, JsonV::Arr(nums_to_json(p))), k);
        },
        None => {
            assert(sget(b, k) is None);
        },
    }
    assert forall|i: int| 0 <= i < c.len() implies (#[trigger] c[i]).0 != k by {}
    lemma_sget_absent(c, k);
    assert(t.subrange(1, 2) =~= seq![t[1]]);
    lemma_sget_single(t[1], k);
}

/// Law: a written sequence of well-formed features reads back in
/// order, from any starting index.
pub proof fn lemma_features_round_trip(s: Seq<FeatureV>, i: int)
    requires
        0 <= i <= s.len(),
        forall|j: int| i <= j < s.len() ==> feature_wf(#[trigger] s[j]),
    ensures
        spec_features(spec_features_to_json(s), i) == Ok::<Seq<FeatureV>, ErrorV>(s.skip(i)),
    decreases s.len() - i,
{
    let a = spec_features_to_json(s);
    if i == s.len() {
        assert(s.skip(i) =~= Seq::<FeatureV>::empty());
    } else {
        assert(a[i] == JsonV::Obj(spec_feature_to_object(s[i])));
        lemma_feature_round_trip(s[i]);
        lemma_features_round_trip(s, i + 1);
        assert(seq![s[i]] + s.skip(i + 1) =~= s.skip(i));
    }
}

/// Law: reading back a written well-formed collection yields the same
/// collection, its features in the same order.
pub proof fn lemma_collection_round_trip(fc: FeatureCollectionV)
    requires
        collection_wf(fc),
    ensures
        spec_collection_from_object(spec_collection_to_object(fc)) == Ok::<
            FeatureCollectionV,
            ErrorV,
        >(fc),
{
    lemma_collection_lit_facts();
    let m = spec_collection_to_object(fc);
    lemma_collection_to_object_get(fc, "features"@);
    lemma_features_round_trip(fc.features, 0);
    assert(fc.features.skip(0) =~= fc.features);
    lemma_collection_to_object_get(fc, "bbox"@);
    match fc.bbox {
        Some(p) => {
            lemma_nums_rt(p, ErrorV::BboxExpectedNumericValues);
        },
        None => {},
    }
    lemma_collection_to_object_get(fc, "crs"@);
    match fc.crs {
        Some(cv) => {
            lemma_crs_round_trip(cv);
        },
        None => {},
    }
    let a = opt_crs_entry(fc.crs);
    let b = opt_bbox_entry(fc.bbox);
    let c = opt_foreign_entries(fc.foreign_members);
    let t = seq![
        ("type"@, JsonV::Str("FeatureCollection"@)),
        ("features"@, JsonV::Arr(spec_features_to_json(fc.features))),
    ];
    assert(m == ((a + b) + c) + t);
    lemma_nonreserved_concat(a, b, ObjKind::Collection);
    lemma_nonreserved_concat(a + b, c, ObjKind::Collection);
    lemma_nonreserved_concat((a + b) + c, t, ObjKind::Collection);
    assert forall|i: int| 0 <= i < a.len() implies is_reserved(
        ObjKind::Collection,
        (#[trigger] a[i]).0,
    ) by {}
    lemma_nonreserved_empty(a, ObjKind::Collection);
    assert forall|i: int| 0 <= i < b.len() implies is_reserved(
        ObjKind::Collection,
        (#[trigger] b[i]).0,
    ) by {}
    lemma_nonreserved_empty(b, ObjKind::Collection);
    assert forall|i: int| 0 <= i < t.len() implies is_reserved(
        ObjKind::Collection,
        (#[trigger] t[i]).0,
    ) by {}
    lemma_nonreserved_empty(t, ObjKind::Collection);
    assert forall|i: int| 0 <= i < c.len() implies !is_reserved(
        ObjKind::Collection,
        (#[trigger] c[i]).0,
    ) by {}
    lemma_nonreserved_all(c, ObjKind::Collection);
    assert(spec_nonreserved(m, ObjKind::Collection) =~= c);
    match fc.foreign_members {
        Some(fm) => {
            assert(spec_foreign(m, ObjKind::Collection) == Some(fm));
        },
        None => {
            assert(spec_foreign(m, ObjKind::Collection) is None);
        },
    }
}

} // verus!
