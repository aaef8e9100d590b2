use graph_schema::json::{PropMap, PropValue, ScalarValue};
use graph_schema::wire::{decode_wire_value, exec_encode_wire_vertex, WireDecodeError, WireValue};

fn str_val(s: &str) -> PropValue {
    PropValue::Scalar(ScalarValue::Str(s.to_owned()))
}

fn num_val(s: &str) -> PropValue {
    PropValue::Scalar(ScalarValue::Num(s.to_owned()))
}

fn get_str(m: &PropMap, key: &str) -> String {
    match m.get(key) {
        Some(PropValue::Scalar(ScalarValue::Str(s))) => s.clone(),
        other => panic!("expected a string for {}: {:?}", key, other.is_some()),
    }
}

#[test]
fn decodes_plain_vertex() {
    let raw = "{\"id\": 844424930131969, \"label\": \"PERSON\", \"properties\": {\"name\": \"Ada\", \"age\": 36}}::vertex";
    match decode_wire_value(raw) {
        Ok(WireValue::Vertex(v)) => {
            assert_eq!(v.label, "PERSON");
            assert_eq!(get_str(&v.properties, "name"), "Ada");
            match v.properties.get("age") {
                Some(PropValue::Scalar(ScalarValue::Num(t))) => assert_eq!(t, "36"),
                _ => panic!("age missing or not a number"),
            }
        }
        Err(e) => panic!("decode failed: {:?}", e),
    }
}

#[test]
fn decodes_vertex_with_leading_control_characters() {
    let raw = "\u{1}\u{2}{\"label\": \"CITY\", \"properties\": {}}::vertex";
    match decode_wire_value(raw) {
        Ok(WireValue::Vertex(v)) => {
            assert_eq!(v.label, "CITY");
            assert_eq!(v.properties.len(), 0);
        }
        Err(e) => panic!("decode failed: {:?}", e),
    }
}

#[test]
fn decodes_escapes_and_surrogate_pairs() {
    let raw = "{\"label\": \"NOTE\", \"properties\": {\"text\": \"a\\nb\\t\\\"q\\\" \\u0041 \\ud83d\\ude00\"}}::vertex";
    match decode_wire_value(raw) {
        Ok(WireValue::Vertex(v)) => {
            assert_eq!(get_str(&v.properties, "text"), "a\nb\t\"q\" A \u{1F600}");
        }
        Err(e) => panic!("decode failed: {:?}", e),
    }
}

#[test]
fn decodes_arrays_booleans_and_null() {
    let raw = "{\"label\": \"MIX\", \"properties\": {\"tags\": [\"a\", \"b\"], \"on\": true, \"off\": false, \"gone\": null}}::vertex";
    match decode_wire_value(raw) {
        Ok(WireValue::Vertex(v)) => {
            match v.properties.get("tags") {
                Some(PropValue::Arr(vs)) => {
                    assert_eq!(vs.len(), 2);
                    assert!(matches!(&vs[0], ScalarValue::Str(s) if s == "a"));
                    assert!(matches!(&vs[1], ScalarValue::Str(s) if s == "b"));
                }
                _ => panic!("tags missing or not an array"),
            }
            assert!(matches!(
                v.properties.get("on"),
                Some(PropValue::Scalar(ScalarValue::Bool(true)))
            ));
            assert!(matches!(
                v.properties.get("off"),
                Some(PropValue::Scalar(ScalarValue::Bool(false)))
            ));
            assert!(matches!(
                v.properties.get("gone"),
                Some(PropValue::Scalar(ScalarValue::Null))
            ));
        }
        Err(e) => panic!("decode failed: {:?}", e),
    }
}

#[test]
fn unknown_tag_is_unsupported() {
    assert_eq!(
        decode_wire_value("{}::edge").unwrap_err(),
        WireDecodeError::UnsupportedWireType
    );
    assert_eq!(
        decode_wire_value("{\"label\": \"X\", \"properties\": {}}::path").unwrap_err(),
        WireDecodeError::UnsupportedWireType
    );
}

#[test]
fn missing_delimiter_is_malformed() {
    assert_eq!(
        decode_wire_value("{\"label\": \"X\"}").unwrap_err(),
        WireDecodeError::MalformedWireValue
    );
    assert_eq!(
        decode_wire_value("").unwrap_err(),
        WireDecodeError::MalformedWireValue
    );
}

#[test]
fn bad_payload_is_malformed_payload() {
    assert_eq!(
        decode_wire_value("{\"label\": \"X\"::vertex").unwrap_err(),
        WireDecodeError::MalformedPayload
    );
    assert_eq!(
        decode_wire_value("{\"properties\": {}}::vertex").unwrap_err(),
        WireDecodeError::MalformedPayload
    );
    assert_eq!(
        decode_wire_value("{\"label\": 3, \"properties\": {}}::vertex").unwrap_err(),
        WireDecodeError::MalformedPayload
    );
}

#[test]
fn nested_structures_are_rejected() {
    assert_eq!(
        decode_wire_value("{\"label\": \"X\", \"properties\": {\"a\": [[1]]}}::vertex")
            .unwrap_err(),
        WireDecodeError::MalformedPayload
    );
    assert_eq!(
        decode_wire_value("{\"label\": \"X\", \"properties\": {\"a\": {\"b\": 1}}}::vertex")
            .unwrap_err(),
        WireDecodeError::MalformedPayload
    );
}

#[test]
fn encode_then_decode_round_trips_properties() {
    let mut props = PropMap::new();
    props.push("name".to_owned(), str_val("O'Brien"));
    props.push("count".to_owned(), num_val("3"));
    props.push("weird".to_owned(), str_val("line\nbreak \"and\" \\slash\\"));
    props.push(
        "tags".to_owned(),
        PropValue::Arr(vec![
            ScalarValue::Str("x".to_owned()),
            ScalarValue::Num("-1.5e3".to_owned()),
            ScalarValue::Bool(true),
            ScalarValue::Null,
        ]),
    );
    let wire = exec_encode_wire_vertex("PERSON", &props);
    match decode_wire_value(&wire) {
        Ok(WireValue::Vertex(v)) => {
            assert_eq!(v.label, "PERSON");
            assert_eq!(v.properties.len(), 4);
            assert_eq!(get_str(&v.properties, "name"), "O'Brien");
            assert_eq!(get_str(&v.properties, "weird"), "line\nbreak \"and\" \\slash\\");
            match v.properties.get("count") {
                Some(PropValue::Scalar(ScalarValue::Num(t))) => assert_eq!(t, "3"),
                _ => panic!("count lost"),
            }
            match v.properties.get("tags") {
                Some(PropValue::Arr(vs)) => {
                    assert_eq!(vs.len(), 4);
                    assert!(matches!(&vs[1], ScalarValue::Num(t) if t == "-1.5e3"));
                    assert!(matches!(&vs[2], ScalarValue::Bool(true)));
                    assert!(matches!(&vs[3], ScalarValue::Null));
                }
                _ => panic!("tags lost"),
            }
        }
        Err(e) => panic!("round trip failed: {:?}", e),
    }
}

#[test]
fn round_trip_keeps_content_with_double_colons() {
    let mut props = PropMap::new();
    props.push("link".to_owned(), str_val("age::rocks"));
    let wire = exec_encode_wire_vertex("DOC", &props);
    match decode_wire_value(&wire) {
        Ok(WireValue::Vertex(v)) => {
            assert_eq!(get_str(&v.properties, "link"), "age::rocks");
        }
        Err(e) => panic!("round trip failed: {:?}", e),
    }
}
