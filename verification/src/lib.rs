//! In-memory models for workflow-orchestration description documents:
//! a dynamic value representation, loaders from parsed JSON and YAML
//! trees, and a canonical serializer back to an ordered document tree.
#![verifier::loop_isolation(false)]

pub mod either;
pub mod errors;
pub mod extensions;
pub mod json;
pub mod kv;
pub mod laws;
pub mod nodes;
pub mod numbers;
pub mod payloads;
pub mod serialize;
pub mod text;
pub mod v1_0;
pub mod yaml;
