use graph_schema::json::{PropMap, PropValue, ScalarValue};
use graph_schema::schema::{
    AttributeDataType, AttributeDefinition, CreateNodeTypeRequest, EdgeType,
    EdgeTypeAttributeDataType, NewAttributeDefinition, NodeType, NodeTypeSummary, SchemaError,
    plan_create_node_type,
};
use graph_schema::text::normalize;
use graph_schema::validate::{
    validate_properties_against, AttributeValidationError, ValidationErrorList,
};

fn attr(name: &str, data_type: AttributeDataType, required: bool) -> AttributeDefinition {
    AttributeDefinition {
        id: String::new(),
        type_id: "v1".to_owned(),
        name: name.to_owned(),
        normalized_name: normalize(name),
        data_type,
        required,
        description: String::new(),
    }
}

fn errors(r: Result<(), ValidationErrorList>) -> Vec<AttributeValidationError> {
    match r {
        Ok(()) => Vec::new(),
        Err(l) => l.0,
    }
}

#[test]
fn required_number_missing_gives_exactly_one_error() {
    let attrs = vec![attr("age", AttributeDataType::Number, true)];
    let props = PropMap::new();
    let es = errors(validate_properties_against(&attrs, &props));
    assert_eq!(es.len(), 1);
    match &es[0] {
        AttributeValidationError::MissingAttribute { name } => assert_eq!(name, "age"),
        _ => panic!("expected a missing-attribute error"),
    }
}

#[test]
fn required_number_as_string_gives_exactly_one_wrong_type() {
    let attrs = vec![attr("age", AttributeDataType::Number, true)];
    let mut props = PropMap::new();
    props.push(
        "age".to_owned(),
        PropValue::Scalar(ScalarValue::Str("12".to_owned())),
    );
    let es = errors(validate_properties_against(&attrs, &props));
    assert_eq!(es.len(), 1);
    match &es[0] {
        AttributeValidationError::WrongType { name, expected } => {
            assert_eq!(name, "age");
            assert_eq!(expected, "number");
        }
        _ => panic!("expected a wrong-type error"),
    }
}

#[test]
fn required_number_as_number_gives_no_errors() {
    let attrs = vec![attr("age", AttributeDataType::Number, true)];
    let mut props = PropMap::new();
    props.push(
        "age".to_owned(),
        PropValue::Scalar(ScalarValue::Num("12".to_owned())),
    );
    assert!(validate_properties_against(&attrs, &props).is_ok());
}

#[test]
fn two_violations_come_in_declaration_order() {
    let attrs = vec![
        attr("first", AttributeDataType::String, true),
        attr("age", AttributeDataType::Number, true),
        attr("note", AttributeDataType::String, false),
    ];
    let mut props = PropMap::new();
    props.push(
        "age".to_owned(),
        PropValue::Scalar(ScalarValue::Bool(true)),
    );
    let es = errors(validate_properties_against(&attrs, &props));
    assert_eq!(es.len(), 2);
    match &es[0] {
        AttributeValidationError::MissingAttribute { name } => assert_eq!(name, "first"),
        _ => panic!("first error should be the missing first field"),
    }
    match &es[1] {
        AttributeValidationError::WrongType { name, expected } => {
            assert_eq!(name, "age");
            assert_eq!(expected, "number");
        }
        _ => panic!("second error should be the wrong-typed age"),
    }
}

#[test]
fn non_required_attributes_are_never_checked() {
    let attrs = vec![attr("age", AttributeDataType::Number, false)];
    let mut props = PropMap::new();
    props.push(
        "age".to_owned(),
        PropValue::Scalar(ScalarValue::Str("not a number".to_owned())),
    );
    assert!(validate_properties_against(&attrs, &props).is_ok());
}

#[test]
fn string_attribute_accepts_any_value() {
    let attrs = vec![attr("name", AttributeDataType::String, true)];
    let mut props = PropMap::new();
    props.push(
        "name".to_owned(),
        PropValue::Scalar(ScalarValue::Num("5".to_owned())),
    );
    assert!(validate_properties_against(&attrs, &props).is_ok());
}

#[test]
fn boolean_attribute_requires_boolean() {
    let attrs = vec![attr("flag", AttributeDataType::Boolean, true)];
    let mut props = PropMap::new();
    props.push(
        "flag".to_owned(),
        PropValue::Scalar(ScalarValue::Num("1".to_owned())),
    );
    let es = errors(validate_properties_against(&attrs, &props));
    assert_eq!(es.len(), 1);
    match &es[0] {
        AttributeValidationError::WrongType { name, expected } => {
            assert_eq!(name, "flag");
            assert_eq!(expected, "boolean");
        }
        _ => panic!("expected a wrong-type error"),
    }
}

#[test]
fn date_attribute_requires_rfc3339_text() {
    let attrs = vec![attr("when", AttributeDataType::Date, true)];
    let mut good = PropMap::new();
    good.push(
        "when".to_owned(),
        PropValue::Scalar(ScalarValue::Str("2024-01-15T10:00:00Z".to_owned())),
    );
    assert!(validate_properties_against(&attrs, &good).is_ok());

    let mut bad = PropMap::new();
    bad.push(
        "when".to_owned(),
        PropValue::Scalar(ScalarValue::Str("yesterday at noon".to_owned())),
    );
    let es = errors(validate_properties_against(&attrs, &bad));
    assert_eq!(es.len(), 1);
    match &es[0] {
        AttributeValidationError::WrongType { name, expected } => {
            assert_eq!(name, "when");
            assert_eq!(expected, "RFC3339 date string");
        }
        _ => panic!("expected a wrong-type error"),
    }

    let mut not_text = PropMap::new();
    not_text.push(
        "when".to_owned(),
        PropValue::Scalar(ScalarValue::Num("20240115".to_owned())),
    );
    let es = errors(validate_properties_against(&attrs, &not_text));
    assert_eq!(es.len(), 1);
}

#[test]
fn validation_error_messages_read_as_reports() {
    let attrs = vec![
        attr("age", AttributeDataType::Number, true),
        attr("when", AttributeDataType::Date, true),
    ];
    let props = PropMap::new();
    match validate_properties_against(&attrs, &props) {
        Err(l) => {
            let msgs = l.messages();
            assert_eq!(msgs[0], "Missing attribute: age");
            assert_eq!(msgs[1], "Missing attribute: when");
        }
        Ok(()) => panic!("expected errors"),
    }
}

#[test]
fn normalizing_power_plant() {
    assert_eq!(normalize("Power Plant"), "POWER_PLANT");
    assert_eq!(normalize("power plant"), "POWER_PLANT");
    assert_eq!(normalize("pOwEr pLaNt"), "POWER_PLANT");
}

#[test]
fn lookup_resolves_through_the_normalized_name() {
    let t = NodeType::new("g1", "Power Plant", "industry".to_owned(), "u1").unwrap();
    assert_eq!(t.normalized_name, "POWER_PLANT");
    let id = t.id.clone();
    let types = vec![t];
    let found = NodeType::find_by_name(&types, "g1", "power plant").expect("lookup should hit");
    assert_eq!(found.id, id);
    assert!(NodeType::find_by_name(&types, "g1", "power  plant").is_none());
    assert!(NodeType::find_by_name(&types, "g2", "power plant").is_none());
    let by_id = NodeType::find_by_id(&types, "g1", &id).expect("id lookup should hit");
    assert_eq!(by_id.name, "Power Plant");
}

#[test]
fn node_type_ids_carry_the_node_prefix() {
    let t = NodeType::new("g1", "City", String::new(), "u1").unwrap();
    assert_eq!(t.id.len(), 9);
    assert!(t.id.starts_with('v'));
    assert!(t.id[1..]
        .chars()
        .all(|c| c.is_ascii_uppercase() || c.is_ascii_digit()));
    let e = EdgeType::new("g1", "Feeds", String::new(), "u1").unwrap();
    assert!(e.id.starts_with('e'));
    assert_eq!(e.id.len(), 9);
}

#[test]
fn type_names_are_letters_and_whitespace_only() {
    assert_eq!(
        NodeType::new("g1", "Plant3", String::new(), "u1").unwrap_err(),
        SchemaError::InvalidCharacters
    );
    assert_eq!(
        NodeType::new("g1", "", String::new(), "u1").unwrap_err(),
        SchemaError::EmptyName
    );
    assert_eq!(
        NodeType::new("g1", "   ", String::new(), "u1").unwrap_err(),
        SchemaError::EmptyName
    );
    assert!(NodeType::new("g1", "Wind Farm", String::new(), "u1").is_ok());
}

#[test]
fn created_at_is_rfc3339_text() {
    let t = NodeType::new("g1", "City", String::new(), "u1").unwrap();
    assert!(chrono::DateTime::parse_from_rfc3339(&t.created_at).is_ok());
}

#[test]
fn planning_a_node_type_builds_its_attributes() {
    let request = CreateNodeTypeRequest {
        name: "Power Plant".to_owned(),
        description: "generation site".to_owned(),
        attributes: vec![
            NewAttributeDefinition {
                name: "Max Output".to_owned(),
                data_type: AttributeDataType::Number,
                required: true,
                description: "in megawatts".to_owned(),
            },
            NewAttributeDefinition {
                name: "name".to_owned(),
                data_type: AttributeDataType::String,
                required: true,
                description: String::new(),
            },
        ],
    };
    let (t, attrs) = plan_create_node_type("g1", &request, "u1", false).unwrap();
    assert_eq!(t.normalized_name, "POWER_PLANT");
    assert_eq!(t.created_by, "u1");
    assert_eq!(attrs.len(), 2);
    assert_eq!(attrs[0].type_id, t.id);
    assert_eq!(attrs[0].name, "Max Output");
    assert_eq!(attrs[0].normalized_name, "MAX_OUTPUT");
    assert_eq!(attrs[0].data_type, AttributeDataType::Number);
    assert!(attrs[0].required);
    assert_eq!(attrs[0].id.len(), 36);
    assert_eq!(attrs[1].name, "name");

    assert_eq!(
        plan_create_node_type("g1", &request, "u1", true).unwrap_err(),
        SchemaError::DuplicateType
    );
}

#[test]
fn data_type_names_round_trip() {
    assert_eq!(AttributeDataType::String.as_str(), "string");
    assert_eq!(AttributeDataType::Number.as_str(), "number");
    assert_eq!(AttributeDataType::Boolean.as_str(), "boolean");
    assert_eq!(AttributeDataType::Date.as_str(), "date");
    assert_eq!(
        AttributeDataType::parse("date"),
        Some(AttributeDataType::Date)
    );
    assert_eq!(AttributeDataType::parse("decimal"), None);
    assert_eq!(
        EdgeTypeAttributeDataType::Date.to_attribute_data_type(),
        AttributeDataType::Date
    );
}

#[test]
fn edge_types_normalize_and_resolve_like_node_types() {
    let t = EdgeType::new("g1", "Feeds Into", String::new(), "u1").unwrap();
    assert_eq!(t.normalized_name, "FEEDS_INTO");
    let id = t.id.clone();
    let types = vec![t];
    let found = EdgeType::find_by_name(&types, "g1", "feeds into").expect("lookup should hit");
    assert_eq!(found.id, id);
    assert_eq!(
        EdgeType::new("g1", "", String::new(), "u1").unwrap_err(),
        SchemaError::EmptyName
    );
}

#[test]
fn summaries_carry_id_name_description() {
    let t = NodeType::new("g1", "City", "a place".to_owned(), "u1").unwrap();
    let s = NodeTypeSummary::from(&t);
    assert_eq!(s.id, t.id);
    assert_eq!(s.name, "City");
    assert_eq!(s.description, "a place");
}
