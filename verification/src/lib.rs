//! A typed schema layer for a schema-less property-graph engine.
//!
//! The library decodes the engine's tagged wire encoding of query results,
//! models named node/edge types with attribute definitions, validates
//! property maps against those definitions, and renders injection-safe
//! query text for entity creation and retrieval.

pub mod text;
pub mod json;
pub mod json_parse;
pub mod json_encode;
pub mod wire;
pub mod ids;
pub mod schema;
pub mod validate;
pub mod query;
pub mod node;
pub mod label;
pub mod graph;
pub mod responses;
pub mod roundtrip;
