//! Canonical knowledge-graph construction for binary-analysis artifacts.
//!
//! The library turns extractor output (functions, strings, imports, exports,
//! call edges) into a canonical graph model: it normalizes addresses across
//! heterogeneous encodings, derives deterministic entity keys, resolves call
//! edges through a per-batch address map, and assembles depth-bounded call
//! paths and context summaries from rows returned by a graph store.
//! Persistence and transport are left to the surrounding application.

pub mod addr;
pub mod analyzer;
pub mod call_path;
pub mod config;
pub mod json;
pub mod nodes;
pub mod relationships;
pub mod session;
pub mod stats;
pub mod strmap;
pub mod util;
pub mod uid;
pub mod text;
