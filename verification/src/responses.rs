//! The read-side shapes handed back to callers: a type with its attribute
//! definitions, and the summaries used by listings.

use vstd::prelude::*;
use crate::schema::{NodeType, EdgeType, AttributeDefinition, EdgeTypeAttributeDefinition,
    AttributeDataType, EdgeTypeAttributeDataType, NodeTypeSummary};

verus! {

/// One attribute of a node type, as a caller sees it.
#[derive(Debug)]
pub struct NodeTypeAttributeResponse {
    pub id: String,
    pub name: String,
    pub data_type: AttributeDataType,
    pub required: bool,
    pub description: String,
}

impl NodeTypeAttributeResponse {
    /// The caller's view of one attribute definition.
    pub fn from(attr: &AttributeDefinition) -> (r: NodeTypeAttributeResponse)
        ensures
            r.id@ == attr.id@,
            r.name@ == attr.name@,
            r.data_type == attr.data_type,
            r.required == attr.required,
            r.description@ == attr.description@,
    {
        NodeTypeAttributeResponse {
            id: attr.id.clone(),
            name: attr.name.clone(),
            data_type: attr.data_type,
            required: attr.required,
            description: attr.description.clone(),
        }
    }
}

/// A node type with its attributes, as a caller sees it.
#[derive(Debug)]
pub struct NodeTypeResponse {
    pub id: String,
    pub graph_id: String,
    pub name: String,
    pub description: String,
    pub created_at: String,
    pub created_by: String,
    pub attributes: Vec<NodeTypeAttributeResponse>,
}

impl NodeTypeResponse {
    /// The caller's view of a node type: its fields and one attribute
    /// response per definition, in order.
    pub fn from(node_type: &NodeType, attributes: &Vec<AttributeDefinition>) -> (r:
        NodeTypeResponse)
        ensures
            r.id@ == node_type.id@,
            r.graph_id@ == node_type.graph_id@,
            r.name@ == node_type.name@,
            r.description@ == node_type.description@,
            r.created_at@ == node_type.created_at@,
            r.created_by@ == node_type.created_by@,
            r.attributes@.len() == attributes@.len(),
            forall|i: int|
                0 <= i < attributes@.len() ==> {
                    &&& (#[trigger] r.attributes@[i]).id@ == attributes@[i].id@
                    &&& r.attributes@[i].name@ == attributes@[i].name@
                    &&& r.attributes@[i].data_type == attributes@[i].data_type
                    &&& r.attributes@[i].required == attributes@[i].required
                    &&& r.attributes@[i].description@ == attributes@[i].description@
                },
    {
        let n = attributes.len();
        let mut out: Vec<NodeTypeAttributeResponse> = Vec::new();
        let mut i: usize = 0;
        while i < n
            invariant
                i <= n,
                n == attributes@.len(),
                out@.len() == i,
                forall|q: int|
                    0 <= q < i ==> {
                        &&& (#[trigger] out@[q]).id@ == attributes@[q].id@
                        &&& out@[q].name@ == attributes@[q].name@
                        &&& out@[q].data_type == attributes@[q].data_type
                        &&& out@[q].required == attributes@[q].required
                        &&& out@[q].description@ == attributes@[q].description@
                    },
            decreases n - i,
        {
            out.push(NodeTypeAttributeResponse::from(&attributes[i]));
            i = i + 1;
        }
        NodeTypeResponse {
            id: node_type.id.clone(),
            graph_id: node_type.graph_id.clone(),
            name: node_type.name.clone(),
            description: node_type.description.clone(),
            created_at: node_type.created_at.clone(),
            created_by: node_type.created_by.clone(),
            attributes: out,
        }
    }
}

/// One attribute of an edge type, as a caller sees it.
#[derive(Debug)]
pub struct EdgeTypeAttributeResponse {
    pub id: String,
    pub name: String,
    pub data_type: EdgeTypeAttributeDataType,
    pub required: bool,
    pub description: String,
}

impl EdgeTypeAttributeResponse {
    /// The caller's view of one edge attribute definition.
    pub fn from(attr: &EdgeTypeAttributeDefinition) -> (r: EdgeTypeAttributeResponse)
        ensures
            r.id@ == attr.id@,
            r.name@ == attr.name@,
            r.data_type == attr.data_type,
            r.required == attr.required,
            r.description@ == attr.description@,
    {
        EdgeTypeAttributeResponse {
            id: attr.id.clone(),
            name: attr.name.clone(),
            data_type: attr.data_type,
            required: attr.required,
            description: attr.description.clone(),
        }
    }
}

/// An edge type with its attributes, as a caller sees it.
#[derive(Debug)]
pub struct EdgeTypeResponse {
    pub id: String,
    pub graph_id: String,
    pub name: String,
    pub description: String,
    pub created_at: String,
    pub created_by: String,
    pub attributes: Vec<EdgeTypeAttributeResponse>,
}

impl EdgeTypeResponse {
    /// The caller's view of an edge type: its fields and one attribute
    /// response per definition, in order.
    pub fn from(edge_type: &EdgeType, attributes: &Vec<EdgeTypeAttributeDefinition>) -> (r:
        EdgeTypeResponse)
        ensures
            r.id@ == edge_type.id@,
            r.graph_id@ == edge_type.graph_id@,
            r.name@ == edge_type.name@,
            r.description@ == edge_type.description@,
            r.created_at@ == edge_type.created_at@,
            r.created_by@ == edge_type.created_by@,
            r.attributes@.len() == attributes@.len(),
            forall|i: int|
                0 <= i < attributes@.len() ==> {
                    &&& (#[trigger] r.attributes@[i]).id@ == attributes@[i].id@
                    &&& r.attributes@[i].name@ == attributes@[i].name@
                    &&& r.attributes@[i].data_type == attributes@[i].data_type
                    &&& r.attributes@[i].required == attributes@[i].required
                    &&& r.attributes@[i].description@ == attributes@[i].description@
                },
    {
        let n = attributes.len();
        let mut out: Vec<EdgeTypeAttributeResponse> = Vec::new();
        let mut i: usize = 0;
        while i < n
            invariant
                i <= n,
                n == attributes@.len(),
                out@.len() == i,
                forall|q: int|
                    0 <= q < i ==> {
                        &&& (#[trigger] out@[q]).id@ == attributes@[q].id@
                        &&& out@[q].name@ == attributes@[q].name@
                        &&& out@[q].data_type == attributes@[q].data_type
                        &&& out@[q].required == attributes@[q].required
                        &&& out@[q].description@ == attributes@[q].description@
                    },
            decreases n - i,
        {
            out.push(EdgeTypeAttributeResponse::from(&attributes[i]));
            i = i + 1;
        }
        EdgeTypeResponse {
            id: edge_type.id.clone(),
            graph_id: edge_type.graph_id.clone(),
            name: edge_type.name.clone(),
            description: edge_type.description.clone(),
            created_at: edge_type.created_at.clone(),
            created_by: edge_type.created_by.clone(),
            attributes: out,
        }
    }
}

/// The id, name and description of each node type of one graph, in stored
/// order.
pub open spec fn spec_graph_summaries(types: Seq<NodeType>, gid: Seq<char>) -> Seq<
    (Seq<char>, Seq<char>, Seq<char>),
>
    decreases types.len(),
{
    if types.len() == 0 {
        Seq::empty()
    } else {
        let rest = spec_graph_summaries(types.drop_first(), gid);
        if types[0].graph_id@ == gid {
            seq![(types[0].id@, types[0].name@, types[0].description@)] + rest
        } else {
            rest
        }
    }
}

/// The summaries of the node types that belong to one graph, in their
/// stored order.
pub fn summarize_for_graph(types: &Vec<NodeType>, graph_id: &str) -> (r: Vec<NodeTypeSummary>)
    ensures
        r@.map_values(|s: NodeTypeSummary| (s.id@, s.name@, s.description@))
            == spec_graph_summaries(types@, graph_id@),
{
    let n = types.len();
    let mut out: Vec<NodeTypeSummary> = Vec::new();
    let mut i: usize = 0;
    proof {
        assert(types@.skip(0) =~= types@);
        assert(out@.map_values(|s: NodeTypeSummary| (s.id@, s.name@, s.description@)) =~= Seq::<
            (Seq<char>, Seq<char>, Seq<char>),
        >::empty());
    }
    while i < n
        invariant
            i <= n,
            n == types@.len(),
            spec_graph_summaries(types@, graph_id@) == out@.map_values(
                |s: NodeTypeSummary| (s.id@, s.name@, s.description@),
            ) + spec_graph_summaries(types@.skip(i as int), graph_id@),
        decreases n - i,
    {
        let ghost pre = out@.map_values(|s: NodeTypeSummary| (s.id@, s.name@, s.description@));
        proof {
            assert(types@.skip(i as int)[0] == types@[i as int]);
            assert(types@.skip(i as int).drop_first() =~= types@.skip(i + 1 as int));
        }
        if crate::text::str_eq(types[i].graph_id.as_str(), graph_id) {
            let s = NodeTypeSummary::from(&types[i]);
            let ghost sv = (s.id@, s.name@, s.description@);
            out.push(s);
            proof {
                let f = |x: NodeTypeSummary| (x.id@, x.name@, x.description@);
                assert(out@.map_values(f) =~= pre.push(sv)) by {
                    assert(out@.map_values(f).len() == pre.len() + 1);
                    assert forall|q: int| 0 <= q < out@.len() implies out@.map_values(f)[q]
                        == pre.push(sv)[q] by {
                        assert(out@.map_values(f)[q] == f(out@[q]));
                        if q < pre.len() {
                            assert(pre[q] == f(out@[q]));
                        }
                    }
                }
                assert(pre + (seq![sv] + spec_graph_summaries(types@.skip(i + 1 as int), graph_id@))
                    =~= pre.push(sv) + spec_graph_summaries(types@.skip(i + 1 as int), graph_id@));
            }
        }
        i = i + 1;
    }
    proof {
        assert(types@.skip(n as int) =~= Seq::<NodeType>::empty());
        assert(spec_graph_summaries(types@, graph_id@) =~= out@.map_values(
            |s: NodeTypeSummary| (s.id@, s.name@, s.description@),
        ));
    }
    out
}

} // verus!
