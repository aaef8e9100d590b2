//! The entity façade for nodes. One creation request moves through fixed
//! stages: the type is resolved, the properties are validated, the query
//! text is synthesized, and only then may anything be written. The
//! decisions of each stage are here; reads and writes against the engine
//! happen outside, between the stages.

use vstd::prelude::*;
use crate::json::{PropMap, PropValue, PropValueV, ScalarV, ScalarValue, spec_lookup, spec_set};
use crate::schema::{NodeType, AttributeDefinition};
use crate::validate::{ValidationErrorList, AttributeValidationError, spec_validation_errors,
    AttrErrV};
use crate::query::{spec_props_clause, spec_create_node_query, spec_match_by_name_query,
    spec_list_query, render_create_query, render_match_by_name_query, render_list_query,
    page_size};
use crate::wire::Vertex;

verus! {

/// A node to be written into, or read back from, the graph: the owning
/// graph, the id of its declared type, and its properties.
#[derive(Debug)]
pub struct Node {
    pub graph_id: String,
    pub node_type: String,
    pub properties: PropMap,
}

/// A request to create one node of a declared type.
#[derive(Debug)]
pub struct CreateNodeRequest {
    pub node_type: String,
    pub properties: PropMap,
}

/// Why a node could not be created.
#[derive(Debug)]
pub enum CreateNodeError {
    /// The named node type does not exist in the graph.
    UnknownType,
    /// The request carries no `name` property.
    MissingNameProperty,
    /// The `name` property is not a string.
    NameNotAString,
    /// A node of the same type already carries the same name.
    DuplicateName,
    /// The properties violate the type's attribute definitions; every
    /// violation is carried.
    ValidationError(ValidationErrorList),
    /// The engine or its store failed.
    DatabaseError,
}

/// The `name` property of the request, which the uniqueness pre-check
/// reads: it must be present and a string.
pub open spec fn spec_request_name(props: Seq<(Seq<char>, PropValueV)>) -> Result<
    Seq<char>,
    CreateNodeError,
> {
    match spec_lookup(props, "name"@) {
        None => Err(CreateNodeError::MissingNameProperty),
        Some(v) => match v {
            PropValueV::Scalar(ScalarV::Str(s)) => Ok(s),
            _ => Err(CreateNodeError::NameNotAString),
        },
    }
}

/// Begin one creation request: resolve the type and take the `name`
/// property. Where the type lookup came back empty the request is refused
/// with `UnknownType` at once — no query text exists yet, so nothing can
/// have been written. Success hands back the uniqueness pre-check query.
pub fn begin_create_node(request: &CreateNodeRequest, type_lookup: Option<&NodeType>) -> (r: Result<
    String,
    CreateNodeError,
>)
    ensures
        match r {
            Ok(q) => {
                &&& type_lookup matches Some(t)
                &&& spec_request_name(request.properties@) matches Ok(name)
                &&& q@ == spec_match_by_name_query(t.graph_id@, t.normalized_name@, name)
            },
            Err(CreateNodeError::UnknownType) => type_lookup is None,
            Err(CreateNodeError::MissingNameProperty) => type_lookup is Some && spec_request_name(
                request.properties@,
            ) == Err::<Seq<char>, CreateNodeError>(CreateNodeError::MissingNameProperty),
            Err(CreateNodeError::NameNotAString) => type_lookup is Some && spec_request_name(
                request.properties@,
            ) == Err::<Seq<char>, CreateNodeError>(CreateNodeError::NameNotAString),
            Err(_) => false,
        },
{
    let t = match type_lookup {
        None => {
            return Err(CreateNodeError::UnknownType);
        },
        Some(t) => t,
    };
    match request.properties.get("name") {
        None => Err(CreateNodeError::MissingNameProperty),
        Some(v) => match v {
            PropValue::Scalar(ScalarValue::Str(name)) => Ok(
                render_match_by_name_query(
                    t.graph_id.as_str(),
                    t.normalized_name.as_str(),
                    name.as_str(),
                ),
            ),
            _ => Err(CreateNodeError::NameNotAString),
        },
    }
}

/// The properties as they are persisted: the request's, with `created_by`
/// and `created_at` bound last.
pub open spec fn spec_enriched_props(
    props: Seq<(Seq<char>, PropValueV)>,
    created_by: Seq<char>,
    created_at: Seq<char>,
) -> Seq<(Seq<char>, PropValueV)> {
    spec_set(
        spec_set(props, "created_by"@, PropValueV::Scalar(ScalarV::Str(created_by))),
        "created_at"@,
        PropValueV::Scalar(ScalarV::Str(created_at)),
    )
}

/// Finish one creation request after the uniqueness pre-check: a taken
/// name is refused; otherwise the properties are validated against the
/// type's attributes, every violation is reported together, and a valid
/// request yields the node as it will be persisted — its properties
/// enriched with the creator and the timestamp — and the creation query.
pub fn finish_create_node(
    name_taken: bool,
    node_type: &NodeType,
    attributes: &Vec<AttributeDefinition>,
    request: CreateNodeRequest,
    created_by: &str,
    created_at: &str,
) -> (r: Result<(Node, String), CreateNodeError>)
    ensures
        match r {
            Ok((node, q)) => {
                &&& !name_taken
                &&& spec_validation_errors(attributes@, request.properties@).len() == 0
                &&& node.graph_id@ == node_type.graph_id@
                &&& node.node_type@ == node_type.id@
                &&& node.properties@ == spec_enriched_props(
                    request.properties@,
                    created_by@,
                    created_at@,
                )
                &&& q@ == spec_create_node_query(
                    node_type.graph_id@,
                    node_type.normalized_name@,
                    spec_props_clause(node.properties@),
                )
            },
            Err(CreateNodeError::DuplicateName) => name_taken,
            Err(CreateNodeError::ValidationError(l)) => !name_taken && l@
                == spec_validation_errors(attributes@, request.properties@) && l@.len() > 0,
            Err(_) => false,
        },
{
    if name_taken {
        return Err(CreateNodeError::DuplicateName);
    }
    match crate::validate::validate_properties_against(attributes, &request.properties) {
        Err(l) => Err(CreateNodeError::ValidationError(l)),
        Ok(_) => {
            let mut properties = request.properties;
            properties.set("created_by".to_owned(), PropValue::Scalar(ScalarValue::Str(
                created_by.to_owned(),
            )));
            properties.set("created_at".to_owned(), PropValue::Scalar(ScalarValue::Str(
                created_at.to_owned(),
            )));
            let q = render_create_query(
                node_type.graph_id.as_str(),
                node_type.normalized_name.as_str(),
                &properties,
            );
            let node = Node {
                graph_id: node_type.graph_id.clone(),
                node_type: node_type.id.clone(),
                properties,
            };
            Ok((node, q))
        },
    }
}

/// A node from a decoded vertex: the vertex's label is the persisted
/// label, so the node's type is the type of the graph whose normalized
/// name it is; a label naming no declared type yields nothing.
pub fn node_from_vertex(vertex: Vertex, types: &Vec<NodeType>, graph_id: &str) -> (r: Option<Node>)
    ensures
        match crate::schema::find_node_type_from(types@, graph_id@, vertex.label@, 0) {
            Some(i) => {
                &&& r matches Some(node)
                &&& node.graph_id@ == graph_id@
                &&& 0 <= i < types@.len()
                &&& node.node_type@ == types@[i].id@
                &&& node.properties@ == vertex.properties@
            },
            None => r is None,
        },
{
    let n = types.len();
    let mut i: usize = 0;
    while i < n
        invariant
            i <= n,
            n == types@.len(),
            crate::schema::find_node_type_from(types@, graph_id@, vertex.label@, 0)
                == crate::schema::find_node_type_from(types@, graph_id@, vertex.label@, i as int),
        decreases n - i,
    {
        if crate::text::str_eq(types[i].graph_id.as_str(), graph_id) && crate::text::str_eq(
            types[i].normalized_name.as_str(),
            vertex.label.as_str(),
        ) {
            return Some(
                Node {
                    graph_id: graph_id.to_owned(),
                    node_type: types[i].id.clone(),
                    properties: vertex.properties,
                },
            );
        }
        i = i + 1;
    }
    None
}

/// The page and type filter of a node listing request.
#[derive(Debug)]
pub struct GetNodesQueryParams {
    pub page: Option<u32>,
    pub node_type: Option<String>,
}

/// The listing query for a page of nodes: the label filter is the type's
/// normalized name, pages are numbered from one and an absent page means
/// the first.
pub fn render_nodes_listing(graph_id: &str, label: Option<&str>, page: Option<u32>) -> (r: String)
    requires
        page matches Some(p) ==> p >= 1,
    ensures
        r@ == spec_list_query(
            graph_id@,
            match label {
                Some(l) => Some(l@),
                None => None,
            },
            (match page {
                Some(p) => p - 1,
                None => 0,
            }) * page_size(),
        ),
{
    let p = match page {
        Some(p) => p,
        None => 1,
    };
    render_list_query(graph_id, label, p)
}

/// One reported field problem of a refused request.
#[derive(Debug)]
pub struct FieldError {
    pub field: String,
    pub message: String,
}

/// The report text of one validation failure, keyed by its field: a
/// missing attribute reads `required`, a wrong one names the type it must
/// have.
pub open spec fn spec_field_error(e: AttrErrV) -> (Seq<char>, Seq<char>) {
    match e {
        AttrErrV::Missing(name) => (name, "required"@),
        AttrErrV::WrongType(name, expected) => (name, "must be of type "@ + expected),
    }
}

impl FieldError {
    /// The field report of one validation failure.
    pub fn from_validation(e: &AttributeValidationError) -> (r: FieldError)
        ensures
            r.field@ == spec_field_error(e@).0,
            r.message@ == spec_field_error(e@).1,
    {
        match e {
            AttributeValidationError::MissingAttribute { name } => FieldError {
                field: name.clone(),
                message: "required".to_owned(),
            },
            AttributeValidationError::WrongType { name, expected } => {
                let mut message = String::new();
                message.append("must be of type ");
                message.append(expected.as_str());
                FieldError { field: name.clone(), message }
            },
        }
    }
}

} // verus!
