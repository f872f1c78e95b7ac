//! Renders a markdown document through a user-supplied set of rendering
//! hooks. The document is parsed into a syntax tree, which is walked twice:
//! a first pass shows every construct to the `peek_*` hooks, a second pass
//! assembles the output from what the `transform_*` hooks return.

pub mod engine;
pub mod errors;
pub mod grammar;
pub mod hooks;
pub mod inline;
pub mod laws;
pub mod parse;
pub mod scan;
pub mod syntax;
pub mod text;
pub mod transform;
pub mod tree;
pub mod walk;

pub use errors::Errcode;
pub use grammar::MarkdownParser;
pub use hooks::MarkdownTransformer;
pub use transform::{transform_document, transform_markdown_string, transform_tree};
pub use tree::{Node, Rule};
pub use walk::ParseState;
