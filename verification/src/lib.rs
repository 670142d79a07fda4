use vstd::prelude::*;

mod crs;
mod feature;
mod feature_collection;
mod geojson;
mod geometry;
mod json;
mod util;

pub use crs::{Crs, CrsV};
pub use feature::{Feature, FeatureV, Id, IdV};
pub use feature_collection::{FeatureCollection, FeatureCollectionV};
pub use geojson::{GeoJson, GeoJsonV};
pub use geometry::{Geometry, GeometryV, Value, ValueV};
pub use json::{Json, JsonObject, JsonV, EntryV};

verus! {

/// A JSON number, carried as its canonical decimal text.
#[derive(Clone, Debug, PartialEq)]
pub struct Number {
    pub text: String,
}

impl View for Number {
    type V = Seq<char>;

    open spec fn view(&self) -> Seq<char> {
        self.text@
    }
}

/// Bounding box: a flat sequence of numbers, 2×N values for N dimensions.
pub type Bbox = Vec<Number>;

/// Position: an ordered sequence of numbers locating a point.
pub type Position = Vec<Number>;

pub type PointType = Position;

pub type LineStringType = Vec<Position>;

pub type PolygonType = Vec<Vec<Position>>;

/// Error when reading a GeoJSON object from a str or Object.
#[derive(Clone, Debug, PartialEq, Eq)]
pub enum Error {
    BboxExpectedArray,
    BboxExpectedNumericValues,
    CrsExpectedObject,
    CrsUnknownType(String),
    GeoJsonExpectedObject,
    GeoJsonUnknownType,
    GeometryUnknownType,
    MalformedJson,
    PropertiesExpectedObjectOrNull,
    FeatureInvalidGeometryValue,
    ExpectedStringValue,
    ExpectedProperty,
    ExpectedF64Value,
    ExpectedArrayValue,
    ExpectedObjectValue,
}

/// Mathematical model of an `Error` value.
pub enum ErrorV {
    BboxExpectedArray,
    BboxExpectedNumericValues,
    CrsExpectedObject,
    CrsUnknownType(Seq<char>),
    GeoJsonExpectedObject,
    GeoJsonUnknownType,
    GeometryUnknownType,
    MalformedJson,
    PropertiesExpectedObjectOrNull,
    FeatureInvalidGeometryValue,
    ExpectedStringValue,
    ExpectedProperty,
    ExpectedF64Value,
    ExpectedArrayValue,
    ExpectedObjectValue,
}

/// The short description of each error kind.
pub open spec fn spec_error_text(e: ErrorV) -> Seq<char> {
    match e {
        ErrorV::BboxExpectedArray => "non-array 'bbox' type"@,
        ErrorV::BboxExpectedNumericValues => "non-numeric 'bbox' array"@,
        ErrorV::CrsExpectedObject => "non-object 'crs' type"@,
        ErrorV::CrsUnknownType(_) => "unknown 'crs' type"@,
        ErrorV::GeoJsonExpectedObject => "non-object GeoJSON type"@,
        ErrorV::GeoJsonUnknownType => "unknown GeoJSON object type"@,
        ErrorV::GeometryUnknownType => "unknown 'geometry' object type"@,
        ErrorV::MalformedJson => "malformed JSON"@,
        ErrorV::PropertiesExpectedObjectOrNull => "neither object type nor null type for 'properties' object"@,
        ErrorV::FeatureInvalidGeometryValue => "neither object type nor null type for 'geometry' field on 'feature' object"@,
        ErrorV::ExpectedStringValue => "expected a string value"@,
        ErrorV::ExpectedProperty => "expected a GeoJSON 'property'"@,
        ErrorV::ExpectedF64Value => "expected a floating-point value"@,
        ErrorV::ExpectedArrayValue => "expected an array"@,
        ErrorV::ExpectedObjectValue => "expected an object"@,
    }
}

impl Error {
    /// A short description of the error.
    pub fn description(&self) -> (s: String)
        ensures
            s@ == spec_error_text(self@),
    {
        match self {
            Error::BboxExpectedArray => "non-array 'bbox' type".to_owned(),
            Error::BboxExpectedNumericValues => "non-numeric 'bbox' array".to_owned(),
            Error::CrsExpectedObject => "non-object 'crs' type".to_owned(),
            Error::CrsUnknownType(_) => "unknown 'crs' type".to_owned(),
            Error::GeoJsonExpectedObject => "non-object GeoJSON type".to_owned(),
            Error::GeoJsonUnknownType => "unknown GeoJSON object type".to_owned(),
            Error::GeometryUnknownType => "unknown 'geometry' object type".to_owned(),
            Error::MalformedJson => "malformed JSON".to_owned(),
            Error::PropertiesExpectedObjectOrNull => {
                "neither object type nor null type for 'properties' object".to_owned()
            },
            Error::FeatureInvalidGeometryValue => {
                "neither object type nor null type for 'geometry' field on 'feature' object".to_owned()
            },
            Error::ExpectedStringValue => "expected a string value".to_owned(),
            Error::ExpectedProperty => "expected a GeoJSON 'property'".to_owned(),
            Error::ExpectedF64Value => "expected a floating-point value".to_owned(),
            Error::ExpectedArrayValue => "expected an array".to_owned(),
            Error::ExpectedObjectValue => "expected an object".to_owned(),
        }
    }
}

impl View for Error {
    type V = ErrorV;

    open spec fn view(&self) -> ErrorV {
        match self {
            Error::BboxExpectedArray => ErrorV::BboxExpectedArray,
            Error::BboxExpectedNumericValues => ErrorV::BboxExpectedNumericValues,
            Error::CrsExpectedObject => ErrorV::CrsExpectedObject,
            Error::CrsUnknownType(t) => ErrorV::CrsUnknownType(t@),
            Error::GeoJsonExpectedObject => ErrorV::GeoJsonExpectedObject,
            Error::GeoJsonUnknownType => ErrorV::GeoJsonUnknownType,
            Error::GeometryUnknownType => ErrorV::GeometryUnknownType,
            Error::MalformedJson => ErrorV::MalformedJson,
            Error::PropertiesExpectedObjectOrNull => ErrorV::PropertiesExpectedObjectOrNull,
            Error::FeatureInvalidGeometryValue => ErrorV::FeatureInvalidGeometryValue,
            Error::ExpectedStringValue => ErrorV::ExpectedStringValue,
            Error::ExpectedProperty => ErrorV::ExpectedProperty,
            Error::ExpectedF64Value => ErrorV::ExpectedF64Value,
            Error::ExpectedArrayValue => ErrorV::ExpectedArrayValue,
            Error::ExpectedObjectValue => ErrorV::ExpectedObjectValue,
        }
    }
}

} // verus!
