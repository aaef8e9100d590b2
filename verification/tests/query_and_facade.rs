use graph_schema::graph::{CreateGraphRequest, GraphInfo, GraphError, GraphRequestError, GraphRole};
use graph_schema::json::{PropMap, PropValue, ScalarValue};
use graph_schema::label::{CreateLabelRequest, LabelError, PropertyRuleError, validate_edge_type,
    validate_label, validate_properties};
use graph_schema::node::{begin_create_node, finish_create_node, node_from_vertex, CreateNodeError,
    CreateNodeRequest, FieldError, render_nodes_listing};
use graph_schema::query::{generate_props_clause, render_match_by_name_query};
use graph_schema::responses::{NodeTypeResponse, summarize_for_graph};
use graph_schema::schema::{AttributeDataType, AttributeDefinition, NodeType};
use graph_schema::text::normalize;
use graph_schema::validate::AttributeValidationError;
use graph_schema::wire::Vertex;

fn str_val(s: &str) -> PropValue {
    PropValue::Scalar(ScalarValue::Str(s.to_owned()))
}

fn num_val(s: &str) -> PropValue {
    PropValue::Scalar(ScalarValue::Num(s.to_owned()))
}

#[test]
fn props_clause_escapes_quotes_and_leaves_numbers_bare() {
    let mut props = PropMap::new();
    props.push("name".to_owned(), str_val("O'Brien"));
    props.push("count".to_owned(), num_val("3"));
    let clause = generate_props_clause(&props);
    assert_eq!(clause, "{name: 'O\\'Brien', count: 3}");
}

#[test]
fn props_clause_renders_every_kind() {
    let mut props = PropMap::new();
    props.push("on".to_owned(), PropValue::Scalar(ScalarValue::Bool(true)));
    props.push("gone".to_owned(), PropValue::Scalar(ScalarValue::Null));
    props.push(
        "tags".to_owned(),
        PropValue::Arr(vec![
            ScalarValue::Str("a'b".to_owned()),
            ScalarValue::Num("2".to_owned()),
        ]),
    );
    let clause = generate_props_clause(&props);
    assert_eq!(clause, "{on: true, gone: null, tags: ['a\\'b', 2]}");
}

#[test]
fn match_by_name_doubles_quotes() {
    let q = render_match_by_name_query("g1", "PERSON", "O'Brien");
    assert_eq!(
        q,
        "SELECT * FROM cypher('g1', $$ MATCH (n:PERSON {name: 'O''Brien'}) RETURN n $$) as (row agtype)"
    );
}

#[test]
fn listing_queries_compute_their_offset() {
    let q = render_nodes_listing("g1", Some("CITY"), Some(3));
    assert_eq!(
        q,
        "SELECT * FROM cypher('g1', $$ MATCH (v:CITY) RETURN v ORDER BY v.name SKIP 10 LIMIT 5 $$) as (row agtype)"
    );
    let q2 = render_nodes_listing("g1", None, None);
    assert_eq!(
        q2,
        "SELECT * FROM cypher('g1', $$ MATCH (v) RETURN v ORDER BY v.name SKIP 0 LIMIT 5 $$) as (row agtype)"
    );
}

fn sample_type() -> NodeType {
    NodeType::new("g1", "Person", "people".to_owned(), "u1").unwrap()
}

fn sample_attrs(type_id: &str) -> Vec<AttributeDefinition> {
    vec![AttributeDefinition {
        id: String::new(),
        type_id: type_id.to_owned(),
        name: "age".to_owned(),
        normalized_name: "AGE".to_owned(),
        data_type: AttributeDataType::Number,
        required: true,
        description: String::new(),
    }]
}

#[test]
fn unknown_type_fails_before_any_query_exists() {
    let request = CreateNodeRequest {
        node_type: "vMISSING1".to_owned(),
        properties: PropMap::new(),
    };
    // No type resolved: the request is rejected at once and no query text
    // is ever produced, so nothing can have been executed.
    match begin_create_node(&request, None) {
        Err(CreateNodeError::UnknownType) => {}
        _ => panic!("expected UnknownType"),
    }
}

#[test]
fn name_property_is_required_for_creation() {
    let t = sample_type();
    let request = CreateNodeRequest {
        node_type: t.id.clone(),
        properties: PropMap::new(),
    };
    match begin_create_node(&request, Some(&t)) {
        Err(CreateNodeError::MissingNameProperty) => {}
        _ => panic!("expected MissingNameProperty"),
    }
    let mut props = PropMap::new();
    props.push("name".to_owned(), num_val("7"));
    let request = CreateNodeRequest {
        node_type: t.id.clone(),
        properties: props,
    };
    match begin_create_node(&request, Some(&t)) {
        Err(CreateNodeError::NameNotAString) => {}
        _ => panic!("expected NameNotAString"),
    }
}

#[test]
fn begin_create_node_hands_back_the_uniqueness_query() {
    let t = sample_type();
    let mut props = PropMap::new();
    props.push("name".to_owned(), str_val("Ada"));
    let request = CreateNodeRequest {
        node_type: t.id.clone(),
        properties: props,
    };
    let q = begin_create_node(&request, Some(&t)).unwrap();
    assert_eq!(
        q,
        "SELECT * FROM cypher('g1', $$ MATCH (n:PERSON {name: 'Ada'}) RETURN n $$) as (row agtype)"
    );
}

#[test]
fn finish_create_node_validates_and_enriches() {
    let t = sample_type();
    let attrs = sample_attrs(&t.id);

    // a taken name is refused
    let mut props = PropMap::new();
    props.push("name".to_owned(), str_val("Ada"));
    props.push("age".to_owned(), num_val("36"));
    let request = CreateNodeRequest {
        node_type: t.id.clone(),
        properties: props,
    };
    match finish_create_node(true, &t, &attrs, request, "u1", "2024-01-15T10:00:00Z") {
        Err(CreateNodeError::DuplicateName) => {}
        _ => panic!("expected DuplicateName"),
    }

    // a violated attribute is collected
    let mut props = PropMap::new();
    props.push("name".to_owned(), str_val("Ada"));
    let request = CreateNodeRequest {
        node_type: t.id.clone(),
        properties: props,
    };
    match finish_create_node(false, &t, &attrs, request, "u1", "2024-01-15T10:00:00Z") {
        Err(CreateNodeError::ValidationError(l)) => {
            assert_eq!(l.0.len(), 1);
            match &l.0[0] {
                AttributeValidationError::MissingAttribute { name } => assert_eq!(name, "age"),
                _ => panic!("expected the missing age"),
            }
        }
        _ => panic!("expected a validation error"),
    }

    // a good request yields the enriched node and its creation query
    let mut props = PropMap::new();
    props.push("name".to_owned(), str_val("Ada"));
    props.push("age".to_owned(), num_val("36"));
    let request = CreateNodeRequest {
        node_type: t.id.clone(),
        properties: props,
    };
    let (node, q) =
        finish_create_node(false, &t, &attrs, request, "u1", "2024-01-15T10:00:00Z").unwrap();
    assert_eq!(node.graph_id, "g1");
    assert_eq!(node.node_type, t.id);
    assert!(matches!(
        node.properties.get("created_by"),
        Some(PropValue::Scalar(ScalarValue::Str(s))) if s == "u1"
    ));
    assert!(matches!(
        node.properties.get("created_at"),
        Some(PropValue::Scalar(ScalarValue::Str(s))) if s == "2024-01-15T10:00:00Z"
    ));
    assert_eq!(
        q,
        "SELECT * FROM cypher('g1', $$ CREATE (n:PERSON {name: 'Ada', age: 36, created_by: 'u1', created_at: '2024-01-15T10:00:00Z'}) RETURN n $$) as (row agtype)"
    );
}

#[test]
fn nodes_come_back_from_vertices_through_the_label() {
    let t = sample_type();
    let tid = t.id.clone();
    let types = vec![t];
    let mut props = PropMap::new();
    props.push("name".to_owned(), str_val("Ada"));
    let vertex = Vertex {
        label: "PERSON".to_owned(),
        properties: props,
    };
    let node = node_from_vertex(vertex, &types, "g1").expect("label should resolve");
    assert_eq!(node.node_type, tid);

    let stray = Vertex {
        label: "ROBOT".to_owned(),
        properties: PropMap::new(),
    };
    assert!(node_from_vertex(stray, &types, "g1").is_none());
}

#[test]
fn field_errors_report_per_field() {
    let e = AttributeValidationError::WrongType {
        name: "age".to_owned(),
        expected: "number".to_owned(),
    };
    let f: FieldError = FieldError::from_validation(&e);
    assert_eq!(f.field, "age");
    assert_eq!(f.message, "must be of type number");
    let m = AttributeValidationError::MissingAttribute {
        name: "age".to_owned(),
    };
    let f = FieldError::from_validation(&m);
    assert_eq!(f.message, "required");
}

#[test]
fn label_requests_report_the_first_broken_rule() {
    let ok = CreateLabelRequest { label: "Power_1".to_owned() };
    assert!(ok.validate().is_ok());
    let empty = CreateLabelRequest { label: String::new() };
    assert_eq!(empty.validate().unwrap_err(), LabelError::Empty);
    let long = CreateLabelRequest { label: "x".repeat(51) };
    assert_eq!(long.validate().unwrap_err(), LabelError::TooLong);
    let digit_first = CreateLabelRequest { label: "1x".to_owned() };
    assert_eq!(
        digit_first.validate().unwrap_err(),
        LabelError::MustStartWithLetter
    );
    let bad = CreateLabelRequest { label: "a-b".to_owned() };
    assert_eq!(bad.validate().unwrap_err(), LabelError::InvalidCharacters);
    assert_eq!(bad.validate().unwrap_err().message(),
        "Label can only contain letters, numbers, and underscores");
}

#[test]
fn label_rules_carry_their_codes() {
    assert!(validate_label("ab_1").is_ok());
    assert_eq!(
        validate_label("_x").unwrap_err(),
        PropertyRuleError::LabelMustStartWithLetter
    );
    assert_eq!(
        validate_label("a b").unwrap_err(),
        PropertyRuleError::InvalidLabelCharacters
    );
    assert_eq!(
        validate_label("a b").unwrap_err().code(),
        "invalid_label_characters"
    );
    assert_eq!(
        validate_edge_type(&"x".repeat(51)).unwrap_err(),
        PropertyRuleError::EdgeLabelTooLong
    );
    assert!(validate_edge_type("FEEDS").is_ok());
}

#[test]
fn property_shape_rules_fire_in_order() {
    let mut too_many = PropMap::new();
    for i in 0..101 {
        too_many.push(format!("k{}", i), num_val("1"));
    }
    assert_eq!(
        validate_properties(&too_many).unwrap_err(),
        PropertyRuleError::TooManyProperties
    );

    let mut long_key = PropMap::new();
    long_key.push("k".repeat(51), num_val("1"));
    assert_eq!(
        validate_properties(&long_key).unwrap_err(),
        PropertyRuleError::PropertyKeyTooLong
    );

    let mut bad_key = PropMap::new();
    bad_key.push("a b".to_owned(), num_val("1"));
    assert_eq!(
        validate_properties(&bad_key).unwrap_err(),
        PropertyRuleError::InvalidPropertyKeyCharacters
    );

    let mut long_string = PropMap::new();
    long_string.push("a".to_owned(), str_val(&"s".repeat(1001)));
    assert_eq!(
        validate_properties(&long_string).unwrap_err(),
        PropertyRuleError::StringValueTooLong
    );

    let mut big_array = PropMap::new();
    let mut elems = Vec::new();
    for _ in 0..101 {
        elems.push(ScalarValue::Num("1".to_owned()));
    }
    big_array.push("a".to_owned(), PropValue::Arr(elems));
    assert_eq!(
        validate_properties(&big_array).unwrap_err(),
        PropertyRuleError::ArrayTooLarge
    );

    let mut long_elem = PropMap::new();
    long_elem.push(
        "a".to_owned(),
        PropValue::Arr(vec![ScalarValue::Str("s".repeat(1001))]),
    );
    assert_eq!(
        validate_properties(&long_elem).unwrap_err(),
        PropertyRuleError::ArrayStringTooLong
    );

    let mut null_value = PropMap::new();
    null_value.push("a".to_owned(), PropValue::Scalar(ScalarValue::Null));
    assert_eq!(
        validate_properties(&null_value).unwrap_err(),
        PropertyRuleError::NullValuesNotAllowed
    );

    let mut fine = PropMap::new();
    fine.push("a".to_owned(), str_val("ok"));
    fine.push("b".to_owned(), num_val("2"));
    assert!(validate_properties(&fine).is_ok());
}

#[test]
fn graphs_get_letter_prefixed_engine_names() {
    let g = GraphInfo::new("org1", "grid", Some("the grid")).unwrap();
    assert!(g.graph_id.starts_with('g'));
    assert_eq!(g.graph_id.len(), 9);
    assert_eq!(g.name, "grid");
    assert_eq!(g.created_at, g.updated_at);
    match GraphInfo::new("org1", "", None).unwrap_err() {
        GraphError::ValidationError(m) => assert_eq!(m, "Name cannot be empty"),
    }
}

#[test]
fn graph_requests_collect_every_broken_rule() {
    let ok = CreateGraphRequest {
        name: "grid7".to_owned(),
        description: None,
    };
    assert!(ok.validate().is_ok());
    let bad = CreateGraphRequest {
        name: "has space and is far far far too long".to_owned(),
        description: Some("d".repeat(101)),
    };
    let es = bad.validate().unwrap_err();
    assert_eq!(
        es,
        vec![
            GraphRequestError::NameNotAlphanumeric,
            GraphRequestError::NameTooLong,
            GraphRequestError::DescriptionTooLong,
        ]
    );
    assert_eq!(GraphRole::Admin.as_str(), "admin");
}

#[test]
fn responses_and_summaries_mirror_the_type() {
    let t = NodeType::new("g1", "Person", "people".to_owned(), "u1").unwrap();
    let attrs = sample_attrs(&t.id);
    let r = NodeTypeResponse::from(&t, &attrs);
    assert_eq!(r.id, t.id);
    assert_eq!(r.attributes.len(), 1);
    assert_eq!(r.attributes[0].name, "age");
    assert_eq!(r.attributes[0].data_type, AttributeDataType::Number);

    let other = NodeType::new("g2", "City", String::new(), "u1").unwrap();
    let types = vec![t, other];
    let sums = summarize_for_graph(&types, "g1");
    assert_eq!(sums.len(), 1);
    assert_eq!(sums[0].name, "Person");
}

#[test]
fn normalization_is_spacing_and_case_insensitive() {
    assert_eq!(normalize("wind farm"), normalize("WIND FARM"));
    assert_eq!(normalize("a"), "A");
    assert_eq!(normalize(""), "");
}
