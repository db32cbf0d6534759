//! A small command grammar ("vocative verb parts") with a position-tracking
//! parser, a semantic pass that attaches hover text, and the logic of an
//! editor-facing language service over it.
//!
//! - `position`: positions and half-open ranges in a document.
//! - `ast`, `grammar`, `parser`: the syntax tree, the grammar stated over
//!   characters, and the parser proved to follow it.
//! - `templates`, `hir`: the template store and the semantic pass.
//! - `server`, `completion`: the document store, hover and completion.
//! - `engine`: attachments, the description, and prompt rendering.

pub mod ast;
pub mod completion;
pub mod engine;
pub mod grammar;
pub mod hir;
pub mod parser;
pub mod position;
pub mod server;
pub mod templates;
mod text;
