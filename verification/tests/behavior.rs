use geojson::{Crs, Error, Feature, FeatureCollection, GeoJson, Geometry, Id, Json, JsonObject,
    Number, Value};

fn num(text: &str) -> Number {
    Number { text: text.to_string() }
}

fn parse(text: &str) -> Result<GeoJson, Error> {
    GeoJson::from_str(text)
}

#[test]
fn shape_rejection_nested_point() {
    // A Point whose coordinates are nested one level too deep.
    let r = parse("{\"type\":\"Point\",\"coordinates\":[[1,2]]}");
    assert_eq!(r, Err(Error::ExpectedF64Value));
}

#[test]
fn unknown_geometry_discriminant() {
    let object: JsonObject = vec![
        ("type".to_string(), Json::Str("Circle".to_string())),
        (
            "coordinates".to_string(),
            Json::Arr(vec![Json::Num("0".to_string()), Json::Num("0".to_string())]),
        ),
    ];
    assert_eq!(Geometry::from_object(&object), Err(Error::GeometryUnknownType));
    let nested = parse(
        "{\"type\":\"GeometryCollection\",\"geometries\":[{\"type\":\"Circle\",\"coordinates\":[0,0]}]}",
    );
    assert_eq!(nested, Err(Error::GeometryUnknownType));
}

#[test]
fn unknown_top_level_discriminant() {
    let r = parse("{\"type\":\"Foo\"}");
    assert_eq!(r, Err(Error::GeoJsonUnknownType));
}

#[test]
fn crs_round_trip() {
    let urn = "urn:ogc:def:crs:OGC:1.3:CRS84";
    let props: JsonObject = vec![("name".to_string(), Json::Str(urn.to_string()))];
    let object: JsonObject = vec![
        ("type".to_string(), Json::Str("name".to_string())),
        ("properties".to_string(), Json::Obj(props)),
    ];
    let crs = Crs::from_object(&object).unwrap();
    assert_eq!(crs, Crs::Named { name: urn.to_string() });
    let written = crs.to_object();
    let reread = Crs::from_object(&written).unwrap();
    assert_eq!(reread, crs);
}

#[test]
fn crs_in_geometry_text_round_trip() {
    let text = "{\"coordinates\":[1.0,2.0],\"crs\":{\"properties\":{\"name\":\"urn:ogc:def:crs:OGC:1.3:CRS84\"},\"type\":\"name\"},\"type\":\"Point\"}";
    let doc = parse(text).unwrap();
    match &doc {
        GeoJson::Geometry(g) => {
            assert_eq!(
                g.crs,
                Some(Crs::Named { name: "urn:ogc:def:crs:OGC:1.3:CRS84".to_string() })
            );
        },
        _ => unreachable!(),
    }
    assert_eq!(doc.to_json_string(), text);
}

#[test]
fn foreign_member_preservation() {
    let text = "{\"coordinates\":[1.1,2.1],\"foo\":\"bar\",\"type\":\"Point\"}";
    let doc = parse(text).unwrap();
    match &doc {
        GeoJson::Geometry(g) => {
            assert_eq!(
                g.foreign_members,
                Some(vec![("foo".to_string(), Json::Str("bar".to_string()))])
            );
        },
        _ => unreachable!(),
    }
    assert_eq!(doc.to_json_string(), text);
}

#[test]
fn recursive_collection_order_kept() {
    let text = "{\"geometries\":[{\"coordinates\":[100.0,0.0],\"type\":\"Point\"},{\"coordinates\":[[101.0,0.0],[102.0,1.0]],\"type\":\"LineString\"}],\"type\":\"GeometryCollection\"}";
    let doc = parse(text).unwrap();
    match &doc {
        GeoJson::Geometry(g) => match &g.value {
            Value::GeometryCollection(gs) => {
                assert_eq!(gs.len(), 2);
                assert!(matches!(gs[0].value, Value::Point(_)));
                assert!(matches!(gs[1].value, Value::LineString(_)));
            },
            _ => unreachable!(),
        },
        _ => unreachable!(),
    }
    assert_eq!(doc.to_json_string(), text);
}

#[test]
fn malformed_text() {
    assert_eq!(parse("this is not json"), Err(Error::MalformedJson));
}

#[test]
fn malformed_top_level_array() {
    assert_eq!(parse("[1,2]"), Err(Error::MalformedJson));
}

#[test]
fn malformed_top_level_number() {
    assert_eq!(parse("7"), Err(Error::MalformedJson));
}

#[test]
fn missing_type_member() {
    assert_eq!(parse("{}"), Err(Error::ExpectedProperty));
}

#[test]
fn non_string_type_member() {
    assert_eq!(parse("{\"type\":7}"), Err(Error::ExpectedStringValue));
}

#[test]
fn missing_coordinates() {
    assert_eq!(parse("{\"type\":\"Point\"}"), Err(Error::ExpectedProperty));
}

#[test]
fn non_array_coordinates() {
    assert_eq!(
        parse("{\"type\":\"Point\",\"coordinates\":5}"),
        Err(Error::ExpectedArrayValue)
    );
}

#[test]
fn non_object_collection_element() {
    assert_eq!(
        parse("{\"type\":\"GeometryCollection\",\"geometries\":[5]}"),
        Err(Error::ExpectedObjectValue)
    );
}

#[test]
fn bbox_must_be_array() {
    assert_eq!(
        parse("{\"type\":\"Point\",\"coordinates\":[1.0],\"bbox\":5}"),
        Err(Error::BboxExpectedArray)
    );
}

#[test]
fn bbox_must_hold_numbers() {
    assert_eq!(
        parse("{\"type\":\"Point\",\"coordinates\":[1.0],\"bbox\":[1.0,true]}"),
        Err(Error::BboxExpectedNumericValues)
    );
}

#[test]
fn crs_must_be_object() {
    assert_eq!(
        parse("{\"type\":\"Point\",\"coordinates\":[1.0],\"crs\":7}"),
        Err(Error::CrsExpectedObject)
    );
}

#[test]
fn crs_unknown_type_carries_payload() {
    let r = parse(
        "{\"type\":\"Point\",\"coordinates\":[1.0],\"crs\":{\"type\":\"weird\",\"properties\":{}}}",
    );
    assert_eq!(r, Err(Error::CrsUnknownType("weird".to_string())));
}

#[test]
fn linked_crs_round_trip() {
    let text = "{\"coordinates\":[1.0],\"crs\":{\"properties\":{\"href\":\"http://example.org/crs\",\"type\":\"proj4\"},\"type\":\"link\"},\"type\":\"Point\"}";
    let doc = parse(text).unwrap();
    match &doc {
        GeoJson::Geometry(g) => {
            assert_eq!(
                g.crs,
                Some(Crs::Linked {
                    href: "http://example.org/crs".to_string(),
                    type_: Some("proj4".to_string()),
                })
            );
        },
        _ => unreachable!(),
    }
    assert_eq!(doc.to_json_string(), text);
}

#[test]
fn feature_round_trip() {
    let text = "{\"geometry\":{\"coordinates\":[-120.66029,35.2812],\"type\":\"Point\"},\"id\":\"f1\",\"properties\":{\"name\":\"Firestone Grill\"},\"type\":\"Feature\"}";
    let doc = parse(text).unwrap();
    match &doc {
        GeoJson::Feature(f) => {
            assert_eq!(f.id, Some(Id::Str("f1".to_string())));
            assert_eq!(
                f.properties,
                Some(vec![(
                    "name".to_string(),
                    Json::Str("Firestone Grill".to_string()),
                )])
            );
            assert!(f.geometry.is_some());
        },
        _ => unreachable!(),
    }
    assert_eq!(doc.to_json_string(), text);
}

#[test]
fn feature_null_members_round_trip() {
    let text = "{\"geometry\":null,\"id\":7,\"properties\":null,\"type\":\"Feature\"}";
    let doc = parse(text).unwrap();
    match &doc {
        GeoJson::Feature(f) => {
            assert_eq!(f.geometry, None);
            assert_eq!(f.properties, None);
            assert_eq!(f.id, Some(Id::Num(num("7"))));
        },
        _ => unreachable!(),
    }
    assert_eq!(doc.to_json_string(), text);
}

#[test]
fn feature_invalid_geometry_member() {
    assert_eq!(
        parse("{\"type\":\"Feature\",\"geometry\":5}"),
        Err(Error::FeatureInvalidGeometryValue)
    );
}

#[test]
fn feature_invalid_properties_member() {
    assert_eq!(
        parse("{\"type\":\"Feature\",\"properties\":5}"),
        Err(Error::PropertiesExpectedObjectOrNull)
    );
}

#[test]
fn feature_collection_round_trip() {
    let text = "{\"features\":[{\"geometry\":{\"coordinates\":[1.5],\"type\":\"Point\"},\"properties\":null,\"type\":\"Feature\"}],\"type\":\"FeatureCollection\"}";
    let doc = parse(text).unwrap();
    match &doc {
        GeoJson::FeatureCollection(fc) => {
            assert_eq!(fc.features.len(), 1);
        },
        _ => unreachable!(),
    }
    assert_eq!(doc.to_json_string(), text);
}

#[test]
fn feature_collection_requires_features() {
    assert_eq!(
        parse("{\"type\":\"FeatureCollection\"}"),
        Err(Error::ExpectedProperty)
    );
}

#[test]
fn feature_collection_features_must_be_array() {
    assert_eq!(
        parse("{\"type\":\"FeatureCollection\",\"features\":5}"),
        Err(Error::ExpectedArrayValue)
    );
}

#[test]
fn feature_collection_element_must_be_object() {
    assert_eq!(
        parse("{\"type\":\"FeatureCollection\",\"features\":[5]}"),
        Err(Error::ExpectedObjectValue)
    );
}

#[test]
fn upcasts_pick_the_matching_variant() {
    let g = Geometry::new(Value::Point(vec![num("1.0"), num("2.0")]));
    assert!(matches!(GeoJson::from(g), GeoJson::Geometry(_)));
    let f = Feature {
        bbox: None,
        crs: None,
        geometry: None,
        id: None,
        properties: None,
        foreign_members: None,
    };
    assert!(matches!(GeoJson::from(f), GeoJson::Feature(_)));
    let fc = FeatureCollection {
        bbox: None,
        crs: None,
        features: vec![],
        foreign_members: None,
    };
    assert!(matches!(GeoJson::from(fc), GeoJson::FeatureCollection(_)));
}

#[test]
fn geometry_new_leaves_extras_absent() {
    let g = Geometry::new(Value::LineString(vec![]));
    assert_eq!(g.bbox, None);
    assert_eq!(g.foreign_members, None);
    assert_eq!(g.crs, None);
}

#[test]
fn bbox_round_trip() {
    let text = "{\"bbox\":[-1.0,-2.0,3.0,4.0],\"coordinates\":[1.0,2.0],\"type\":\"Point\"}";
    let doc = parse(text).unwrap();
    match &doc {
        GeoJson::Geometry(g) => {
            assert_eq!(
                g.bbox,
                Some(vec![num("-1.0"), num("-2.0"), num("3.0"), num("4.0")])
            );
        },
        _ => unreachable!(),
    }
    assert_eq!(doc.to_json_string(), text);
}

#[test]
fn multi_polygon_round_trip() {
    let text = "{\"coordinates\":[[[[102.0,2.0],[103.0,2.0],[102.0,2.0]]]],\"type\":\"MultiPolygon\"}";
    let doc = parse(text).unwrap();
    match &doc {
        GeoJson::Geometry(g) => {
            assert!(matches!(g.value, Value::MultiPolygon(_)));
        },
        _ => unreachable!(),
    }
    assert_eq!(doc.to_json_string(), text);
}

#[test]
fn error_description_text() {
    assert_eq!(Error::MalformedJson.description(), "malformed JSON");
    assert_eq!(
        Error::CrsUnknownType("weird".to_string()).description(),
        "unknown 'crs' type"
    );
}
