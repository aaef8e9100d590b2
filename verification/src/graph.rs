//! Graphs as the tenancy unit the schema lives in: a graph's engine name
//! is a generated id (the engine wants names that start with a letter and
//! keeps them unique), while the display name is free text.

use vstd::prelude::*;
use crate::text::{is_ascii_alphanumeric, str_chars};
use crate::ids::{create_type_id, type_id_ok, now_rfc3339};

verus! {

/// A member's role within one graph.
#[derive(Debug, PartialEq, Eq, Structural, Clone, Copy)]
pub enum GraphRole {
    Admin,
    Member,
}

impl GraphRole {
    /// The lowercase name under which the role is stored.
    pub open spec fn spec_name(&self) -> Seq<char> {
        match self {
            GraphRole::Admin => "admin"@,
            GraphRole::Member => "member"@,
        }
    }

    /// The stored, lowercase name of the role.
    pub fn as_str(&self) -> (r: &'static str)
        ensures
            r@ == self.spec_name(),
    {
        match self {
            GraphRole::Admin => "admin",
            GraphRole::Member => "member",
        }
    }
}

/// One user's membership of one graph.
#[derive(Debug)]
pub struct GraphMember {
    pub graph_id: String,
    pub user_id: String,
    pub role: GraphRole,
    pub created_at: String,
    pub updated_at: String,
}

impl GraphMember {
    /// A fresh membership: created and updated at the same moment.
    pub fn new(graph_id: String, user_id: String, role: GraphRole) -> (r: GraphMember)
        ensures
            r.graph_id@ == graph_id@,
            r.user_id@ == user_id@,
            r.role == role,
            r.created_at@ == r.updated_at@,
    {
        let now = now_rfc3339();
        let now2 = now.clone();
        GraphMember { graph_id, user_id, role, created_at: now, updated_at: now2 }
    }
}

/// Why a graph could not be made.
#[derive(Debug)]
pub enum GraphError {
    /// The display name broke a rule; the report text says which.
    ValidationError(String),
}

/// A graph: its generated engine name, its owning organization, and its
/// display name.
#[derive(Debug)]
pub struct GraphInfo {
    pub graph_id: String,
    pub org_id: String,
    pub name: String,
    pub description: Option<String>,
    pub created_at: String,
    pub updated_at: String,
}

impl GraphInfo {
    /// A new graph: the display name must not be empty; the engine name is
    /// freshly generated with the graph prefix, so it starts with a letter.
    pub fn new(org_id: &str, name: &str, description: Option<&str>) -> (r: Result<
        GraphInfo,
        GraphError,
    >)
        ensures
            match r {
                Ok(g) => name@.len() > 0 && g.org_id@ == org_id@ && g.name@ == name@
                    && type_id_ok(g.graph_id@, 'g') && (match (g.description, description) {
                    (Some(d), Some(s)) => d@ == s@,
                    (None, None) => true,
                    _ => false,
                }) && g.created_at@ == g.updated_at@,
                Err(GraphError::ValidationError(m)) => name@.len() == 0 && m@
                    == "Name cannot be empty"@,
            },
    {
        if name.is_empty() {
            return Err(GraphError::ValidationError("Name cannot be empty".to_owned()));
        }
        let now = now_rfc3339();
        let now2 = now.clone();
        Ok(
            GraphInfo {
                graph_id: create_type_id('g'),
                org_id: org_id.to_owned(),
                name: name.to_owned(),
                description: match description {
                    Some(d) => Some(d.to_owned()),
                    None => None,
                },
                created_at: now,
                updated_at: now2,
            },
        )
    }
}

/// Why a graph-creation request was refused; each is one broken rule of
/// the request.
#[derive(Debug, PartialEq, Eq, Structural, Clone, Copy)]
pub enum GraphRequestError {
    /// The name holds something besides ASCII letters and digits, or is
    /// empty.
    NameNotAlphanumeric,
    /// The name runs over thirty characters.
    NameTooLong,
    /// The description runs over a hundred characters.
    DescriptionTooLong,
}

/// The name is non-empty ASCII letters and digits only.
pub open spec fn graph_name_ok(s: Seq<char>) -> bool {
    s.len() > 0 && forall|i: int| 0 <= i < s.len() ==> is_ascii_alphanumeric(#[trigger] s[i])
}

/// A request to create a graph.
#[derive(Debug)]
pub struct CreateGraphRequest {
    pub name: String,
    pub description: Option<String>,
}

impl CreateGraphRequest {
    /// Check the request: the name only ASCII letters and digits and at
    /// most thirty characters, the description at most a hundred. Every
    /// broken rule is reported, in that order.
    pub fn validate(&self) -> (r: Result<(), Vec<GraphRequestError>>)
        ensures
            match r {
                Ok(_) => graph_name_ok(self.name@) && self.name@.len() <= 30 && (match self
                    .description {
                    Some(d) => d@.len() <= 100,
                    None => true,
                }),
                Err(es) => es@.len() > 0 && es@ == spec_graph_request_errors(
                    self.name@,
                    match self.description {
                        Some(d) => Some(d@),
                        None => None,
                    },
                ),
            },
    {
        let mut es: Vec<GraphRequestError> = Vec::new();
        let chars = str_chars(self.name.as_str());
        let n = chars.len();
        let mut ok = n > 0;
        let mut i: usize = 0;
        while i < n
            invariant
                i <= n,
                n == chars@.len(),
                chars@ == self.name@,
                ok == (n > 0 && forall|q: int|
                    0 <= q < i ==> is_ascii_alphanumeric(#[trigger] chars@[q])),
            decreases n - i,
        {
            if !crate::text::exec_is_ascii_alphanumeric(chars[i]) {
                ok = false;
            }
            i = i + 1;
        }
        proof {
            assert(ok == graph_name_ok(self.name@));
        }
        if !ok {
            es.push(GraphRequestError::NameNotAlphanumeric);
        }
        if n > 30 {
            es.push(GraphRequestError::NameTooLong);
        }
        match &self.description {
            Some(d) => {
                let dc = str_chars(d.as_str());
                if dc.len() > 100 {
                    es.push(GraphRequestError::DescriptionTooLong);
                }
            },
            None => {},
        }
        proof {
            assert(es@ =~= spec_graph_request_errors(
                self.name@,
                match self.description {
                    Some(d) => Some(d@),
                    None => None,
                },
            ));
        }
        if es.len() == 0 {
            Ok(())
        } else {
            Err(es)
        }
    }
}

/// The rules a graph-creation request breaks, in reporting order.
pub open spec fn spec_graph_request_errors(name: Seq<char>, description: Option<Seq<char>>) -> Seq<
    GraphRequestError,
> {
    let a = if !graph_name_ok(name) {
        seq![GraphRequestError::NameNotAlphanumeric]
    } else {
        Seq::empty()
    };
    let b = if name.len() > 30 {
        seq![GraphRequestError::NameTooLong]
    } else {
        Seq::empty()
    };
    let c = match description {
        Some(d) => if d.len() > 100 {
            seq![GraphRequestError::DescriptionTooLong]
        } else {
            Seq::empty()
        },
        None => Seq::empty(),
    };
    a + b + c
}

} // verus!
