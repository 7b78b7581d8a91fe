//! Discovers the content pages of a web domain, decides which of them can be
//! read as served, and turns their HTML into Markdown documents.
pub mod text;
pub mod policy;
pub mod paths;
pub mod discovery;
pub mod dom;
pub mod markdown;
pub mod simple;
pub mod pipeline;
