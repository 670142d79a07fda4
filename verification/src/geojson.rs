use vstd::prelude::*;

use crate::feature::{feature_wf, lemma_feature_round_trip, lemma_feature_to_object_get, spec_feature_from_object,
    spec_feature_to_object, Feature, FeatureV};
use crate::feature_collection::{collection_wf, lemma_collection_round_trip,
    lemma_collection_to_object_get,
    spec_collection_from_object, spec_collection_to_object, FeatureCollection,
    FeatureCollectionV};
use crate::geometry::{geometry_wf, lemma_geometry_round_trip, lemma_to_object_get, spec_geometry_from_object,
    spec_geometry_to_object, spec_type_name, Geometry, GeometryV};
use crate::json::{json_from_text, json_of_text, json_to_text, json_view_entries, text_of_json,
    EntryV, Json, JsonObject, JsonV};
use crate::util::{key_is, spec_type_of, type_of};
use crate::{Error, ErrorV};

verus! {

/// A whole GeoJSON document: a geometry, a feature, or a feature
/// collection.
#[derive(Debug, PartialEq)]
pub enum GeoJson {
    Geometry(Geometry),
    Feature(Feature),
    FeatureCollection(FeatureCollection),
}

/// Mathematical model of a `GeoJson`.
pub enum GeoJsonV {
    Geometry(GeometryV),
    Feature(FeatureV),
    FeatureCollection(FeatureCollectionV),
}

impl View for GeoJson {
    type V = GeoJsonV;

    open spec fn view(&self) -> GeoJsonV {
        match self {
            GeoJson::Geometry(g) => GeoJsonV::Geometry(g@),
            GeoJson::Feature(f) => GeoJsonV::Feature(f@),
            GeoJson::FeatureCollection(fc) => GeoJsonV::FeatureCollection(fc@),
        }
    }
}

pub open spec fn geojson_wf(d: GeoJsonV) -> bool {
    match d {
        GeoJsonV::Geometry(g) => geometry_wf(g),
        GeoJsonV::Feature(f) => feature_wf(f),
        GeoJsonV::FeatureCollection(fc) => collection_wf(fc),
    }
}

/// The seven geometry kind names of the `type` discriminator.
pub open spec fn is_geometry_type(t: Seq<char>) -> bool {
    ||| t == "Point"@
    ||| t == "MultiPoint"@
    ||| t == "LineString"@
    ||| t == "MultiLineString"@
    ||| t == "Polygon"@
    ||| t == "MultiPolygon"@
    ||| t == "GeometryCollection"@
}

/// Reading a document object: the `type` string routes to the matching
/// model; any other string is `GeoJsonUnknownType`.
pub open spec fn spec_geojson_from_object(m: Seq<EntryV>) -> Result<GeoJsonV, ErrorV> {
    match spec_type_of(m) {
        Err(e) => Err(e),
        Ok(t) => if is_geometry_type(t) {
            match spec_geometry_from_object(m) {
                Ok(g) => Ok(GeoJsonV::Geometry(g)),
                Err(e) => Err(e),
            }
        } else if t == "Feature"@ {
            match spec_feature_from_object(m) {
                Ok(f) => Ok(GeoJsonV::Feature(f)),
                Err(e) => Err(e),
            }
        } else if t == "FeatureCollection"@ {
            match spec_collection_from_object(m) {
                Ok(fc) => Ok(GeoJsonV::FeatureCollection(fc)),
                Err(e) => Err(e),
            }
        } else {
            Err(ErrorV::GeoJsonUnknownType)
        },
    }
}

/// Writing a document object: each model writes its own object.
pub open spec fn spec_geojson_to_object(d: GeoJsonV) -> Seq<EntryV> {
    match d {
        GeoJsonV::Geometry(g) => spec_geometry_to_object(g),
        GeoJsonV::Feature(f) => spec_feature_to_object(f),
        GeoJsonV::FeatureCollection(fc) => spec_collection_to_object(fc),
    }
}

/// Reading a document from text: malformed JSON text, or a top-level
/// value that is not an object, is `MalformedJson`; an object is read
/// as `spec_geojson_from_object` says.
pub open spec fn spec_parse(s: Seq<char>) -> Result<GeoJsonV, ErrorV> {
    match json_of_text(s) {
        None => Err(ErrorV::MalformedJson),
        Some(j) => match j {
            JsonV::Obj(m) => spec_geojson_from_object(m),
            _ => Err(ErrorV::MalformedJson),
        },
    }
}

impl GeoJson {
    /// Reads a document from a JSON object, exactly as
    /// `spec_geojson_from_object` says.
    pub fn from_object(object: &JsonObject) -> (r: Result<GeoJson, Error>)
        ensures
            match r {
                Ok(d) => spec_geojson_from_object(json_view_entries(object@)) == Ok::<
                    GeoJsonV,
                    ErrorV,
                >(d@),
                Err(e) => spec_geojson_from_object(json_view_entries(object@)) == Err::<
                    GeoJsonV,
                    ErrorV,
                >(e@),
            },
    {
        let t = match type_of(object) {
            Ok(t) => t,
            Err(e) => return Err(e),
        };
        if key_is(t, "Point") || key_is(t, "MultiPoint") || key_is(t, "LineString") || key_is(
            t,
            "MultiLineString",
        ) || key_is(t, "Polygon") || key_is(t, "MultiPolygon") || key_is(
            t,
            "GeometryCollection",
        ) {
            match Geometry::from_object(object) {
                Ok(g) => Ok(GeoJson::Geometry(g)),
                Err(e) => Err(e),
            }
        } else if key_is(t, "Feature") {
            match Feature::from_object(object) {
                Ok(f) => Ok(GeoJson::Feature(f)),
                Err(e) => Err(e),
            }
        } else if key_is(t, "FeatureCollection") {
            match FeatureCollection::from_object(object) {
                Ok(fc) => Ok(GeoJson::FeatureCollection(fc)),
                Err(e) => Err(e),
            }
        } else {
            Err(Error::GeoJsonUnknownType)
        }
    }

    /// Writes the document as a JSON object, exactly as
    /// `spec_geojson_to_object` says.
    pub fn to_object(&self) -> (r: JsonObject)
        ensures
            json_view_entries(r@) == spec_geojson_to_object(self@),
    {
        match self {
            GeoJson::Geometry(g) => g.to_object(),
            GeoJson::Feature(f) => f.to_object(),
            GeoJson::FeatureCollection(fc) => fc.to_object(),
        }
    }

    /// Reads a document from JSON text, exactly as `spec_parse` says.
    pub fn from_str(s: &str) -> (r: Result<GeoJson, Error>)
        ensures
            match r {
                Ok(d) => spec_parse(s@) == Ok::<GeoJsonV, ErrorV>(d@),
                Err(e) => spec_parse(s@) == Err::<GeoJsonV, ErrorV>(e@),
            },
    {
        match json_from_text(s) {
            None => Err(Error::MalformedJson),
            Some(j) => match &j {
                Json::Obj(m) => GeoJson::from_object(m),
                _ => Err(Error::MalformedJson),
            },
        }
    }

    /// Renders the document as JSON text: the written object, rendered
    /// by the external JSON library.
    pub fn to_json_string(&self) -> (r: String)
        ensures
            r@ == text_of_json(JsonV::Obj(spec_geojson_to_object(self@))),
    {
        let obj = self.to_object();
        json_to_text(&Json::Obj(obj))
    }
}

impl From<Geometry> for GeoJson {
    /// A geometry is a document.
    fn from(geometry: Geometry) -> (d: GeoJson) {
        GeoJson::Geometry(geometry)
    }
}

impl vstd::std_specs::convert::FromSpecImpl<Geometry> for GeoJson {
    open spec fn obeys_from_spec() -> bool {
        true
    }

    open spec fn from_spec(geometry: Geometry) -> GeoJson {
        GeoJson::Geometry(geometry)
    }
}

impl From<Feature> for GeoJson {
    /// A feature is a document.
    fn from(feature: Feature) -> (d: GeoJson) {
        GeoJson::Feature(feature)
    }
}

impl vstd::std_specs::convert::FromSpecImpl<Feature> for GeoJson {
    open spec fn obeys_from_spec() -> bool {
        true
    }

    open spec fn from_spec(feature: Feature) -> GeoJson {
        GeoJson::Feature(feature)
    }
}

impl From<FeatureCollection> for GeoJson {
    /// A feature collection is a document.
    fn from(feature_collection: FeatureCollection) -> (d: GeoJson) {
        GeoJson::FeatureCollection(feature_collection)
    }
}

impl vstd::std_specs::convert::FromSpecImpl<FeatureCollection> for GeoJson {
    open spec fn obeys_from_spec() -> bool {
        true
    }

    open spec fn from_spec(feature_collection: FeatureCollection) -> GeoJson {
        GeoJson::FeatureCollection(feature_collection)
    }
}

/// Law: a top-level object whose `type` string names no model at all
/// is rejected as `GeoJsonUnknownType`.
pub proof fn lemma_unknown_top_level_type(m: Seq<EntryV>, t: Seq<char>)
    requires
        spec_type_of(m) == Ok::<Seq<char>, ErrorV>(t),
        !is_geometry_type(t),
        t != "Feature"@,
        t != "FeatureCollection"@,
    ensures
        spec_geojson_from_object(m) == Err::<GeoJsonV, ErrorV>(ErrorV::GeoJsonUnknownType),
{
}

/// Law: text that is not valid JSON, and JSON whose top-level value is
/// not an object, both read as `MalformedJson`.
pub proof fn lemma_malformed_input(s: Seq<char>)
    ensures
        json_of_text(s) is None ==> spec_parse(s) == Err::<GeoJsonV, ErrorV>(
            ErrorV::MalformedJson,
        ),
        json_of_text(s) is Some && !(json_of_text(s)->0 is Obj) ==> spec_parse(s) == Err::<
            GeoJsonV,
            ErrorV,
        >(ErrorV::MalformedJson),
{
}

// ---------------------------------------------------------------------
// Law: a well-formed document written with `spec_geojson_to_object`
// reads back unchanged, whichever of the three models is active.
// ---------------------------------------------------------------------
pub proof fn lemma_geojson_round_trip(d: GeoJsonV)
    requires
        geojson_wf(d),
    ensures
        spec_geojson_from_object(spec_geojson_to_object(d)) == Ok::<GeoJsonV, ErrorV>(d),
{
    reveal_strlit("Point");
    reveal_strlit("MultiPoint");
    reveal_strlit("LineString");
    reveal_strlit("MultiLineString");
    reveal_strlit("Polygon");
    reveal_strlit("MultiPolygon");
    reveal_strlit("GeometryCollection");
    reveal_strlit("Feature");
    reveal_strlit("FeatureCollection");
    reveal_strlit("type");
    reveal_strlit("crs");
    reveal_strlit("bbox");
    assert("type"@.len() == 4 && "crs"@.len() == 3 && "bbox"@.len() == 4);
    assert("type"@ != "bbox"@) by {
        assert("type"@[0] == 't' && "bbox"@[0] == 'b');
    }
    assert("Point"@.len() == 5 && "MultiPoint"@.len() == 10 && "LineString"@.len() == 10
        && "MultiLineString"@.len() == 15 && "Polygon"@.len() == 7 && "MultiPolygon"@.len() == 12
        && "GeometryCollection"@.len() == 18 && "Feature"@.len() == 7
        && "FeatureCollection"@.len() == 17);
    assert("Feature"@ != "Polygon"@) by {
        assert("Feature"@[0] == 'F' && "Polygon"@[0] == 'P');
    }
    match d {
        GeoJsonV::Geometry(g) => {
            lemma_geometry_round_trip(g);
            lemma_to_object_get(g, "type"@);
            let m = spec_geometry_to_object(g);
            assert(spec_type_of(m) == Ok::<Seq<char>, ErrorV>(spec_type_name(g.value)));
            assert(is_geometry_type(spec_type_name(g.value)));
        },
        GeoJsonV::Feature(f) => {
            lemma_feature_round_trip(f);
            lemma_feature_to_object_get(f, "type"@);
            let m = spec_feature_to_object(f);
            assert(spec_type_of(m) == Ok::<Seq<char>, ErrorV>("Feature"@));
        },
        GeoJsonV::FeatureCollection(fc) => {
            lemma_collection_round_trip(fc);
            lemma_collection_to_object_get(fc, "type"@);
            let m = spec_collection_to_object(fc);
            assert(spec_type_of(m) == Ok::<Seq<char>, ErrorV>("FeatureCollection"@));
        },
    }
}

} // verus!
