//! Requests kept as documents: one request per file, reuse by reference, and
//! all behaviour as an ordered list of pipeline assets.

pub mod auth;
pub mod binding_laws;
pub mod builder;
pub mod diag;
pub mod document_laws;
pub mod gather_laws;
pub mod ir;
pub mod jshost;
pub mod matrix;
pub mod meaning;
pub mod model;
pub mod order;
pub mod outgoing;
pub mod pipeline;
pub mod pipeline_laws;
pub mod preview;
pub mod project_laws;
pub mod redact;
pub mod redact_laws;
pub mod refs;
pub mod run_laws;
pub mod runner;
pub mod send_laws;
pub mod sequence;
pub mod validate;
pub mod vars;
