//! Verified core of an AI-assisted novel writing tool: chapter bookkeeping,
//! prompt assembly, parsing of model replies and the generation session logic.
pub mod text;
pub mod novel;
pub mod realms;
pub mod plan;
pub mod api;
pub mod config;
pub mod session;
pub mod edit;
pub mod worker;
pub mod wizard;
pub mod picture;
pub mod laws;
