//! Verified pieces of a GraphQL federation engine.
//!
//! - `query`: the query text sent to a subgraph for an execution plan, with named fragments
//!   deduplicated by body and numbered per fragment name.
//! - `coordinator`: the decisions taken while an operation's plans execute and while a
//!   subscription streams.
//! - `config`: the configuration's interned strings, headers and operation limits.
//! - `ids`: the schema's entity ids, which hold their index plus one.
//! - `kv`: what the key-value store's JSON accessors return for the bytes they read and write.
//! - `merged_object`: the merge chains that the `MergedObject` derive generates.
//! - `text`: decimal rendering, indentation and joining of text.
pub mod config;
pub mod coordinator;
pub mod ids;
pub mod kv;
pub mod merged_object;
pub mod query;
pub mod text;
