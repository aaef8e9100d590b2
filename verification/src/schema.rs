//! The schema model: named node and edge types with attribute definitions.
//! A type's display name is restricted to letters and whitespace; its
//! normalized form (uppercase, spaces to underscores) is the label pushed
//! into the graph engine, and lookups by name go through the same
//! normalization.

use vstd::prelude::*;
use crate::text::{spec_normalize, normalize, is_ascii_letter, str_chars, str_eq};
use crate::ids::{type_id_ok, create_type_id, new_uuid_string, now_rfc3339};

verus! {

/// Whether a character has the Unicode `Alphabetic` property, as
/// `char::is_alphabetic` decides it.
pub uninterp spec fn char_alphabetic(c: char) -> bool;

/// Whether a character has the Unicode `White_Space` property, as
/// `char::is_whitespace` decides it.
pub uninterp spec fn char_whitespace(c: char) -> bool;

/// Relies on `char::is_alphabetic`: the `Alphabetic` property; on ASCII
/// characters it holds exactly of the letters.
pub assume_specification[ char::is_alphabetic ](c: char) -> (r: bool)
    ensures
        r == char_alphabetic(c),
        (c as u32) < 128 ==> (r <==> is_ascii_letter(c)),
;

/// Relies on `char::is_whitespace`: the `White_Space` property; on ASCII
/// characters it holds exactly of space, tab, line feed, vertical tab,
/// form feed and carriage return.
pub assume_specification[ char::is_whitespace ](c: char) -> (r: bool)
    ensures
        r == char_whitespace(c),
        (c as u32) < 128 ==> (r <==> (c == ' ' || c == '\t' || c == '\n' || (c as u32) == 0xB || (
        c as u32) == 0xC || c == '\r')),
;

/// Every character of a type name is a letter or whitespace.
pub open spec fn name_chars_ok(s: Seq<char>) -> bool {
    forall|i: int| 0 <= i < s.len() ==> char_alphabetic(#[trigger] s[i]) || char_whitespace(s[i])
}

/// The name holds at least one non-whitespace character.
pub open spec fn name_nonblank(s: Seq<char>) -> bool {
    exists|i: int| 0 <= i < s.len() && !char_whitespace(#[trigger] s[i])
}

/// A valid type name: letters and whitespace only, not blank.
pub open spec fn type_name_ok(s: Seq<char>) -> bool {
    name_chars_ok(s) && name_nonblank(s)
}

/// Why a type definition could not be made.
#[derive(Debug, PartialEq, Eq, Structural, Clone, Copy)]
pub enum SchemaError {
    /// The name holds a character that is neither a letter nor whitespace.
    InvalidCharacters,
    /// The name is empty or all whitespace.
    EmptyName,
    /// A type of the same normalized name already exists in the graph.
    DuplicateType,
}

/// Check a type name: every character a letter or whitespace, and at least
/// one character that is neither.
pub fn check_type_name(name: &str) -> (r: Option<SchemaError>)
    ensures
        match r {
            None => type_name_ok(name@),
            Some(SchemaError::InvalidCharacters) => !name_chars_ok(name@),
            Some(SchemaError::EmptyName) => name_chars_ok(name@) && !name_nonblank(name@),
            Some(_) => false,
        },
{
    let chars = str_chars(name);
    let n = chars.len();
    let mut i: usize = 0;
    while i < n
        invariant
            i <= n,
            n == chars@.len(),
            chars@ == name@,
            forall|q: int|
                0 <= q < i ==> char_alphabetic(#[trigger] chars@[q]) || char_whitespace(chars@[q]),
        decreases n - i,
    {
        let c = chars[i];
        if !(c.is_alphabetic() || c.is_whitespace()) {
            return Some(SchemaError::InvalidCharacters);
        }
        i = i + 1;
    }
    let mut j: usize = 0;
    while j < n
        invariant
            j <= n,
            n == chars@.len(),
            chars@ == name@,
            name_chars_ok(name@),
            forall|q: int| 0 <= q < j ==> char_whitespace(#[trigger] chars@[q]),
        decreases n - j,
    {
        if !chars[j].is_whitespace() {
            return None;
        }
        j = j + 1;
    }
    Some(SchemaError::EmptyName)
}

/// The data type an attribute declares for its values.
#[derive(Debug, PartialEq, Eq, Structural, Clone, Copy)]
pub enum AttributeDataType {
    String,
    Number,
    Boolean,
    Date,
}

pub type NodeTypeAttributeDataType = AttributeDataType;

/// The data type of an edge type's attribute.
#[derive(Debug, PartialEq, Eq, Structural, Clone, Copy)]
pub enum EdgeTypeAttributeDataType {
    String,
    Number,
    Boolean,
    Date,
}

impl AttributeDataType {
    /// The lowercase name under which the data type is stored.
    pub open spec fn spec_name(&self) -> Seq<char> {
        match self {
            AttributeDataType::String => seq!['s', 't', 'r', 'i', 'n', 'g'],
            AttributeDataType::Number => seq!['n', 'u', 'm', 'b', 'e', 'r'],
            AttributeDataType::Boolean => seq!['b', 'o', 'o', 'l', 'e', 'a', 'n'],
            AttributeDataType::Date => seq!['d', 'a', 't', 'e'],
        }
    }

    /// The stored, lowercase name of the data type.
    pub fn as_str(&self) -> (r: &'static str)
        ensures
            r@ == self.spec_name(),
    {
        match self {
            AttributeDataType::String => {
                proof {
                    reveal_strlit("string");
                    assert("string"@ =~= self.spec_name());
                }
                "string"
            },
            AttributeDataType::Number => {
                proof {
                    reveal_strlit("number");
                    assert("number"@ =~= self.spec_name());
                }
                "number"
            },
            AttributeDataType::Boolean => {
                proof {
                    reveal_strlit("boolean");
                    assert("boolean"@ =~= self.spec_name());
                }
                "boolean"
            },
            AttributeDataType::Date => {
                proof {
                    reveal_strlit("date");
                    assert("date"@ =~= self.spec_name());
                }
                "date"
            },
        }
    }

    /// Read a stored data type name back; anything else is unknown.
    pub fn parse(s: &str) -> (r: Option<AttributeDataType>)
        ensures
            match r {
                Some(d) => s@ == d.spec_name(),
                None => s@ != AttributeDataType::String.spec_name() && s@
                    != AttributeDataType::Number.spec_name() && s@
                    != AttributeDataType::Boolean.spec_name() && s@
                    != AttributeDataType::Date.spec_name(),
            },
    {
        proof {
            reveal_strlit("string");
            reveal_strlit("number");
            reveal_strlit("boolean");
            reveal_strlit("date");
            assert("string"@ =~= AttributeDataType::String.spec_name());
            assert("number"@ =~= AttributeDataType::Number.spec_name());
            assert("boolean"@ =~= AttributeDataType::Boolean.spec_name());
            assert("date"@ =~= AttributeDataType::Date.spec_name());
        }
        if str_eq(s, "string") {
            Some(AttributeDataType::String)
        } else if str_eq(s, "number") {
            Some(AttributeDataType::Number)
        } else if str_eq(s, "boolean") {
            Some(AttributeDataType::Boolean)
        } else if str_eq(s, "date") {
            Some(AttributeDataType::Date)
        } else {
            None
        }
    }
}

impl EdgeTypeAttributeDataType {
    /// The same data type on the shared attribute model.
    pub fn to_attribute_data_type(&self) -> (r: AttributeDataType)
        ensures
            r == match self {
                EdgeTypeAttributeDataType::String => AttributeDataType::String,
                EdgeTypeAttributeDataType::Number => AttributeDataType::Number,
                EdgeTypeAttributeDataType::Boolean => AttributeDataType::Boolean,
                EdgeTypeAttributeDataType::Date => AttributeDataType::Date,
            },
    {
        match self {
            EdgeTypeAttributeDataType::String => AttributeDataType::String,
            EdgeTypeAttributeDataType::Number => AttributeDataType::Number,
            EdgeTypeAttributeDataType::Boolean => AttributeDataType::Boolean,
            EdgeTypeAttributeDataType::Date => AttributeDataType::Date,
        }
    }
}

/// A requested attribute for a new node type.
#[derive(Debug)]
pub struct NewAttributeDefinition {
    pub name: String,
    pub data_type: AttributeDataType,
    pub required: bool,
    pub description: String,
}

/// A requested attribute for a new edge type.
#[derive(Debug)]
pub struct NewEdgeTypeAttributeDefinition {
    pub name: String,
    pub data_type: EdgeTypeAttributeDataType,
    pub required: bool,
    pub description: String,
}

/// A stored attribute definition of a node type.
#[derive(Debug)]
pub struct AttributeDefinition {
    pub id: String,
    pub type_id: String,
    pub name: String,
    pub normalized_name: String,
    pub data_type: AttributeDataType,
    pub required: bool,
    pub description: String,
}

pub type NodeTypeAttributeDefinition = AttributeDefinition;

/// A stored attribute definition of an edge type.
#[derive(Debug)]
pub struct EdgeTypeAttributeDefinition {
    pub id: String,
    pub type_id: String,
    pub name: String,
    pub normalized_name: String,
    pub data_type: EdgeTypeAttributeDataType,
    pub required: bool,
    pub description: String,
}

impl AttributeDefinition {
    /// An attribute definition from a request, bound to its owning type.
    /// The id is freshly generated; everything else is pinned.
    pub fn from_request(req: &NewAttributeDefinition, type_id: &str) -> (r: AttributeDefinition)
        ensures
            r.type_id@ == type_id@,
            r.name@ == req.name@,
            r.normalized_name@ == spec_normalize(req.name@),
            r.data_type == req.data_type,
            r.required == req.required,
            r.description@ == req.description@,
    {
        AttributeDefinition {
            id: new_uuid_string(),
            type_id: type_id.to_owned(),
            name: req.name.clone(),
            normalized_name: normalize(req.name.as_str()),
            data_type: req.data_type,
            required: req.required,
            description: req.description.clone(),
        }
    }
}

impl EdgeTypeAttributeDefinition {
    /// An edge attribute definition from a request, bound to its owning
    /// type. The id is freshly generated; everything else is pinned.
    pub fn from_request(req: &NewEdgeTypeAttributeDefinition, type_id: &str) -> (r:
        EdgeTypeAttributeDefinition)
        ensures
            r.type_id@ == type_id@,
            r.name@ == req.name@,
            r.normalized_name@ == spec_normalize(req.name@),
            r.data_type == req.data_type,
            r.required == req.required,
            r.description@ == req.description@,
    {
        EdgeTypeAttributeDefinition {
            id: new_uuid_string(),
            type_id: type_id.to_owned(),
            name: req.name.clone(),
            normalized_name: normalize(req.name.as_str()),
            data_type: req.data_type,
            required: req.required,
            description: req.description.clone(),
        }
    }
}

/// A declared node type.
#[derive(Debug)]
pub struct NodeType {
    pub id: String,
    pub graph_id: String,
    pub name: String,
    pub normalized_name: String,
    pub description: String,
    pub created_by: String,
    pub created_at: String,
}

/// A declared edge type.
#[derive(Debug)]
pub struct EdgeType {
    pub id: String,
    pub graph_id: String,
    pub name: String,
    pub normalized_name: String,
    pub description: String,
    pub created_by: String,
    pub created_at: String,
}

impl NodeType {
    /// A new node type: the name is checked (letters and whitespace only,
    /// not blank), normalized into the label, and given a fresh id with the
    /// node prefix. The creation timestamp is the clock's.
    pub fn new(graph_id: &str, name: &str, description: String, created_by: &str) -> (r: Result<
        NodeType,
        SchemaError,
    >)
        ensures
            match r {
                Ok(t) => type_name_ok(name@) && t.graph_id@ == graph_id@ && t.name@ == name@
                    && t.normalized_name@ == spec_normalize(name@) && t.description@
                    == description@ && t.created_by@ == created_by@ && type_id_ok(t.id@, 'v'),
                Err(SchemaError::InvalidCharacters) => !name_chars_ok(name@),
                Err(SchemaError::EmptyName) => name_chars_ok(name@) && !name_nonblank(name@),
                Err(_) => false,
            },
    {
        match check_type_name(name) {
            Some(e) => Err(e),
            None => Ok(
                NodeType {
                    id: create_type_id('v'),
                    graph_id: graph_id.to_owned(),
                    name: name.to_owned(),
                    normalized_name: normalize(name),
                    description,
                    created_by: created_by.to_owned(),
                    created_at: now_rfc3339(),
                },
            ),
        }
    }
}

impl EdgeType {
    /// A new edge type: checked and normalized as a node type is, with the
    /// edge prefix on its fresh id.
    pub fn new(graph_id: &str, name: &str, description: String, created_by: &str) -> (r: Result<
        EdgeType,
        SchemaError,
    >)
        ensures
            match r {
                Ok(t) => type_name_ok(name@) && t.graph_id@ == graph_id@ && t.name@ == name@
                    && t.normalized_name@ == spec_normalize(name@) && t.description@
                    == description@ && t.created_by@ == created_by@ && type_id_ok(t.id@, 'e'),
                Err(SchemaError::InvalidCharacters) => !name_chars_ok(name@),
                Err(SchemaError::EmptyName) => name_chars_ok(name@) && !name_nonblank(name@),
                Err(_) => false,
            },
    {
        match check_type_name(name) {
            Some(e) => Err(e),
            None => Ok(
                EdgeType {
                    id: create_type_id('e'),
                    graph_id: graph_id.to_owned(),
                    name: name.to_owned(),
                    normalized_name: normalize(name),
                    description,
                    created_by: created_by.to_owned(),
                    created_at: now_rfc3339(),
                },
            ),
        }
    }
}

/// The first index among the node types of the graph whose normalized name
/// is `norm`, from `i` on.
pub open spec fn find_node_type_from(
    types: Seq<NodeType>,
    gid: Seq<char>,
    norm: Seq<char>,
    i: int,
) -> Option<int>
    decreases types.len() - i when 0 <= i <= types.len()
{
    if i >= types.len() {
        None
    } else if types[i].graph_id@ == gid && types[i].normalized_name@ == norm {
        Some(i)
    } else {
        find_node_type_from(types, gid, norm, i + 1)
    }
}

/// The first index among the node types of the graph with the given id,
/// from `i` on.
pub open spec fn find_node_type_by_id_from(
    types: Seq<NodeType>,
    gid: Seq<char>,
    id: Seq<char>,
    i: int,
) -> Option<int>
    decreases types.len() - i when 0 <= i <= types.len()
{
    if i >= types.len() {
        None
    } else if types[i].graph_id@ == gid && types[i].id@ == id {
        Some(i)
    } else {
        find_node_type_by_id_from(types, gid, id, i + 1)
    }
}

impl NodeType {
    /// Look a node type up by display name: the name is normalized first,
    /// so any name with the same normalized form finds the same type.
    pub fn find_by_name<'a>(types: &'a Vec<NodeType>, graph_id: &str, name: &str) -> (r: Option<
        &'a NodeType,
    >)
        ensures
            match r {
                Some(t) => {
                    &&& find_node_type_from(types@, graph_id@, spec_normalize(name@), 0)
                        matches Some(i)
                    &&& 0 <= i < types@.len() && t == types@[i]
                },
                None => find_node_type_from(types@, graph_id@, spec_normalize(name@), 0) is None,
            },
    {
        let key = normalize(name);
        let n = types.len();
        let mut i: usize = 0;
        while i < n
            invariant
                i <= n,
                n == types@.len(),
                key@ == spec_normalize(name@),
                find_node_type_from(types@, graph_id@, key@, 0) == find_node_type_from(
                    types@,
                    graph_id@,
                    key@,
                    i as int,
                ),
            decreases n - i,
        {
            if str_eq(types[i].graph_id.as_str(), graph_id) && str_eq(
                types[i].normalized_name.as_str(),
                key.as_str(),
            ) {
                return Some(&types[i]);
            }
            i = i + 1;
        }
        None
    }

    /// Look a node type up by its id within a graph.
    pub fn find_by_id<'a>(types: &'a Vec<NodeType>, graph_id: &str, id: &str) -> (r: Option<
        &'a NodeType,
    >)
        ensures
            match r {
                Some(t) => {
                    &&& find_node_type_by_id_from(types@, graph_id@, id@, 0) matches Some(i)
                    &&& 0 <= i < types@.len() && t == types@[i]
                },
                None => find_node_type_by_id_from(types@, graph_id@, id@, 0) is None,
            },
    {
        let n = types.len();
        let mut i: usize = 0;
        while i < n
            invariant
                i <= n,
                n == types@.len(),
                find_node_type_by_id_from(types@, graph_id@, id@, 0) == find_node_type_by_id_from(
                    types@,
                    graph_id@,
                    id@,
                    i as int,
                ),
            decreases n - i,
        {
            if str_eq(types[i].graph_id.as_str(), graph_id) && str_eq(types[i].id.as_str(), id) {
                return Some(&types[i]);
            }
            i = i + 1;
        }
        None
    }
}

/// A lookup by display name sees the name only through its normalized
/// form: two names that normalize alike resolve to the same type.
pub proof fn lemma_lookup_by_equivalent_names(
    types: Seq<NodeType>,
    gid: Seq<char>,
    n1: Seq<char>,
    n2: Seq<char>,
)
    requires
        spec_normalize(n1) == spec_normalize(n2),
    ensures
        find_node_type_from(types, gid, spec_normalize(n1), 0) == find_node_type_from(
            types,
            gid,
            spec_normalize(n2),
            0,
        ),
{
}

/// The first index among the edge types of the graph whose normalized
/// name is `norm`, from `i` on.
pub open spec fn find_edge_type_from(
    types: Seq<EdgeType>,
    gid: Seq<char>,
    norm: Seq<char>,
    i: int,
) -> Option<int>
    decreases types.len() - i when 0 <= i <= types.len()
{
    if i >= types.len() {
        None
    } else if types[i].graph_id@ == gid && types[i].normalized_name@ == norm {
        Some(i)
    } else {
        find_edge_type_from(types, gid, norm, i + 1)
    }
}

impl EdgeType {
    /// Look an edge type up by display name through its normalized form.
    pub fn find_by_name<'a>(types: &'a Vec<EdgeType>, graph_id: &str, name: &str) -> (r: Option<
        &'a EdgeType,
    >)
        ensures
            match r {
                Some(t) => {
                    &&& find_edge_type_from(types@, graph_id@, spec_normalize(name@), 0)
                        matches Some(i)
                    &&& 0 <= i < types@.len() && t == types@[i]
                },
                None => find_edge_type_from(types@, graph_id@, spec_normalize(name@), 0) is None,
            },
    {
        let key = normalize(name);
        let n = types.len();
        let mut i: usize = 0;
        while i < n
            invariant
                i <= n,
                n == types@.len(),
                key@ == spec_normalize(name@),
                find_edge_type_from(types@, graph_id@, key@, 0) == find_edge_type_from(
                    types@,
                    graph_id@,
                    key@,
                    i as int,
                ),
            decreases n - i,
        {
            if str_eq(types[i].graph_id.as_str(), graph_id) && str_eq(
                types[i].normalized_name.as_str(),
                key.as_str(),
            ) {
                return Some(&types[i]);
            }
            i = i + 1;
        }
        None
    }
}

/// The first index among the edge types of the graph with the given id,
/// from `i` on.
pub open spec fn find_edge_type_by_id_from(
    types: Seq<EdgeType>,
    gid: Seq<char>,
    id: Seq<char>,
    i: int,
) -> Option<int>
    decreases types.len() - i when 0 <= i <= types.len()
{
    if i >= types.len() {
        None
    } else if types[i].graph_id@ == gid && types[i].id@ == id {
        Some(i)
    } else {
        find_edge_type_by_id_from(types, gid, id, i + 1)
    }
}

impl EdgeType {
    /// Look an edge type up by its id within a graph.
    pub fn find_by_id<'a>(types: &'a Vec<EdgeType>, graph_id: &str, id: &str) -> (r: Option<
        &'a EdgeType,
    >)
        ensures
            match r {
                Some(t) => {
                    &&& find_edge_type_by_id_from(types@, graph_id@, id@, 0) matches Some(i)
                    &&& 0 <= i < types@.len() && t == types@[i]
                },
                None => find_edge_type_by_id_from(types@, graph_id@, id@, 0) is None,
            },
    {
        let n = types.len();
        let mut i: usize = 0;
        while i < n
            invariant
                i <= n,
                n == types@.len(),
                find_edge_type_by_id_from(types@, graph_id@, id@, 0) == find_edge_type_by_id_from(
                    types@,
                    graph_id@,
                    id@,
                    i as int,
                ),
            decreases n - i,
        {
            if str_eq(types[i].graph_id.as_str(), graph_id) && str_eq(types[i].id.as_str(), id) {
                return Some(&types[i]);
            }
            i = i + 1;
        }
        None
    }
}

/// A request to declare a node type with its attributes.
#[derive(Debug)]
pub struct CreateNodeTypeRequest {
    pub name: String,
    pub description: String,
    pub attributes: Vec<NewAttributeDefinition>,
}

/// A request to declare an edge type with its attributes.
#[derive(Debug)]
pub struct CreateEdgeTypeRequest {
    pub name: String,
    pub description: String,
    pub attributes: Vec<NewEdgeTypeAttributeDefinition>,
}

/// Plan the declaration of a node type: the name is checked and
/// normalized, a taken normalized name is refused as a duplicate, and a
/// good request yields the type together with one attribute definition per
/// requested attribute, in request order, each bound to the new type's id.
/// Everything the plan yields is persisted together or not at all.
pub fn plan_create_node_type(
    graph_id: &str,
    request: &CreateNodeTypeRequest,
    created_by: &str,
    name_taken: bool,
) -> (r: Result<(NodeType, Vec<AttributeDefinition>), SchemaError>)
    ensures
        match r {
            Ok((t, attrs)) => {
                &&& !name_taken
                &&& type_name_ok(request.name@)
                &&& t.graph_id@ == graph_id@
                &&& t.name@ == request.name@
                &&& t.normalized_name@ == spec_normalize(request.name@)
                &&& t.description@ == request.description@
                &&& t.created_by@ == created_by@
                &&& type_id_ok(t.id@, 'v')
                &&& attrs@.len() == request.attributes@.len()
                &&& forall|i: int|
                    0 <= i < attrs@.len() ==> {
                        &&& (#[trigger] attrs@[i]).type_id@ == t.id@
                        &&& attrs@[i].name@ == request.attributes@[i].name@
                        &&& attrs@[i].normalized_name@ == spec_normalize(
                            request.attributes@[i].name@,
                        )
                        &&& attrs@[i].data_type == request.attributes@[i].data_type
                        &&& attrs@[i].required == request.attributes@[i].required
                        &&& attrs@[i].description@ == request.attributes@[i].description@
                    }
            },
            Err(SchemaError::InvalidCharacters) => !name_chars_ok(request.name@),
            Err(SchemaError::EmptyName) => name_chars_ok(request.name@) && !name_nonblank(
                request.name@,
            ),
            Err(SchemaError::DuplicateType) => type_name_ok(request.name@) && name_taken,
        },
{
    let t = match NodeType::new(graph_id, request.name.as_str(), request.description.clone(),
        created_by) {
        Err(e) => {
            return Err(e);
        },
        Ok(t) => t,
    };
    if name_taken {
        return Err(SchemaError::DuplicateType);
    }
    let n = request.attributes.len();
    let mut attrs: Vec<AttributeDefinition> = Vec::new();
    let mut i: usize = 0;
    while i < n
        invariant
            i <= n,
            n == request.attributes@.len(),
            attrs@.len() == i,
            forall|q: int|
                0 <= q < i ==> {
                    &&& (#[trigger] attrs@[q]).type_id@ == t.id@
                    &&& attrs@[q].name@ == request.attributes@[q].name@
                    &&& attrs@[q].normalized_name@ == spec_normalize(request.attributes@[q].name@)
                    &&& attrs@[q].data_type == request.attributes@[q].data_type
                    &&& attrs@[q].required == request.attributes@[q].required
                    &&& attrs@[q].description@ == request.attributes@[q].description@
                },
        decreases n - i,
    {
        attrs.push(AttributeDefinition::from_request(&request.attributes[i], t.id.as_str()));
        i = i + 1;
    }
    Ok((t, attrs))
}

/// Plan the declaration of an edge type, exactly as a node type is
/// planned, with the edge id prefix.
pub fn plan_create_edge_type(
    graph_id: &str,
    request: &CreateEdgeTypeRequest,
    created_by: &str,
    name_taken: bool,
) -> (r: Result<(EdgeType, Vec<EdgeTypeAttributeDefinition>), SchemaError>)
    ensures
        match r {
            Ok((t, attrs)) => {
                &&& !name_taken
                &&& type_name_ok(request.name@)
                &&& t.graph_id@ == graph_id@
                &&& t.name@ == request.name@
                &&& t.normalized_name@ == spec_normalize(request.name@)
                &&& t.description@ == request.description@
                &&& t.created_by@ == created_by@
                &&& type_id_ok(t.id@, 'e')
                &&& attrs@.len() == request.attributes@.len()
                &&& forall|i: int|
                    0 <= i < attrs@.len() ==> {
                        &&& (#[trigger] attrs@[i]).type_id@ == t.id@
                        &&& attrs@[i].name@ == request.attributes@[i].name@
                        &&& attrs@[i].normalized_name@ == spec_normalize(
                            request.attributes@[i].name@,
                        )
                        &&& attrs@[i].data_type == request.attributes@[i].data_type
                        &&& attrs@[i].required == request.attributes@[i].required
                        &&& attrs@[i].description@ == request.attributes@[i].description@
                    }
            },
            Err(SchemaError::InvalidCharacters) => !name_chars_ok(request.name@),
            Err(SchemaError::EmptyName) => name_chars_ok(request.name@) && !name_nonblank(
                request.name@,
            ),
            Err(SchemaError::DuplicateType) => type_name_ok(request.name@) && name_taken,
        },
{
    let t = match EdgeType::new(graph_id, request.name.as_str(), request.description.clone(),
        created_by) {
        Err(e) => {
            return Err(e);
        },
        Ok(t) => t,
    };
    if name_taken {
        return Err(SchemaError::DuplicateType);
    }
    let n = request.attributes.len();
    let mut attrs: Vec<EdgeTypeAttributeDefinition> = Vec::new();
    let mut i: usize = 0;
    while i < n
        invariant
            i <= n,
            n == request.attributes@.len(),
            attrs@.len() == i,
            forall|q: int|
                0 <= q < i ==> {
                    &&& (#[trigger] attrs@[q]).type_id@ == t.id@
                    &&& attrs@[q].name@ == request.attributes@[q].name@
                    &&& attrs@[q].normalized_name@ == spec_normalize(request.attributes@[q].name@)
                    &&& attrs@[q].data_type == request.attributes@[q].data_type
                    &&& attrs@[q].required == request.attributes@[q].required
                    &&& attrs@[q].description@ == request.attributes@[q].description@
                },
        decreases n - i,
    {
        attrs.push(
            EdgeTypeAttributeDefinition::from_request(&request.attributes[i], t.id.as_str()),
        );
        i = i + 1;
    }
    Ok((t, attrs))
}

/// A summary of a node type for listings.
#[derive(Debug)]
pub struct NodeTypeSummary {
    pub id: String,
    pub name: String,
    pub description: String,
}

impl NodeTypeSummary {
    /// The summary of a node type: its id, name and description.
    pub fn from(node_type: &NodeType) -> (r: NodeTypeSummary)
        ensures
            r.id@ == node_type.id@,
            r.name@ == node_type.name@,
            r.description@ == node_type.description@,
    {
        NodeTypeSummary {
            id: node_type.id.clone(),
            name: node_type.name.clone(),
            description: node_type.description.clone(),
        }
    }
}

} // verus!
