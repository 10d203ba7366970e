//! Lint dispatching for a language server: which analysis tools a project
//! has, how each is called for a saved file, and how each tool's report
//! becomes one list of diagnostics.

pub mod json;
pub mod lsp;
pub mod plugins;
pub mod text;
