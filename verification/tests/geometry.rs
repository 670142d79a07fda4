use geojson::{GeoJson, Geometry, Json, Number, Value};

fn num(text: &str) -> Number {
    Number { text: text.to_string() }
}

fn encode(geometry: &Geometry) -> String {
    geometry.to_json_string()
}

fn decode(json_string: String) -> GeoJson {
    GeoJson::from_str(&json_string).unwrap()
}

#[test]
fn encode_decode_geometry() {
    let geometry_json_str = "{\"coordinates\":[1.1,2.1],\"type\":\"Point\"}";
    let geometry = Geometry {
        foreign_members: None,
        value: Value::Point(vec![num("1.1"), num("2.1")]),
        crs: None,
        bbox: None,
    };

    // Test encode
    let json_string = encode(&geometry);
    assert_eq!(json_string, geometry_json_str);

    // Test decode
    let decoded_geometry = match decode(json_string) {
        GeoJson::Geometry(g) => g,
        _ => unreachable!(),
    };
    assert_eq!(decoded_geometry, geometry);
}

#[test]
fn encode_decode_geometry_collection() {
    let geometry_collection = Geometry {
        bbox: None,
        foreign_members: None,
        value: Value::GeometryCollection(vec![
            Geometry {
                bbox: None,
                foreign_members: None,
                value: Value::Point(vec![num("100.0"), num("0.0")]),
                crs: None,
            },
            Geometry {
                bbox: None,
                foreign_members: None,
                value: Value::LineString(vec![
                    vec![num("101.0"), num("0.0")],
                    vec![num("102.0"), num("1.0")],
                ]),
                crs: None,
            },
        ]),
        crs: None,
    };

    let geometry_collection_string = "{\"geometries\":[{\"coordinates\":[100.0,0.0],\"type\":\"Point\"},{\"coordinates\":[[101.0,0.0],[102.0,1.0]],\"type\":\"LineString\"}],\"type\":\"GeometryCollection\"}";
    // Test encode
    let json_string = encode(&geometry_collection);
    assert_eq!(json_string, geometry_collection_string);

    // Test decode
    let decoded_geometry = match decode(geometry_collection_string.into()) {
        GeoJson::Geometry(g) => g,
        _ => unreachable!(),
    };
    assert_eq!(decoded_geometry, geometry_collection);
}

#[test]
fn encode_decode_foreign_members() {
    let geometry_json_str = "{\"coordinates\":[1.1,2.1],\"foo\":\"bar\",\"type\":\"Point\"}";

    let foreign_members = vec![("foo".to_string(), Json::Str("bar".to_string()))];
    let geometry = Geometry {
        foreign_members: Some(foreign_members),
        value: Value::Point(vec![num("1.1"), num("2.1")]),
        crs: None,
        bbox: None,
    };

    // Test encode
    let json_string = encode(&geometry);
    assert_eq!(json_string, geometry_json_str);

    // Test decode
    let decoded_geometry = match decode(json_string) {
        GeoJson::Geometry(g) => g,
        _ => unreachable!(),
    };
    assert_eq!(decoded_geometry, geometry);
}
