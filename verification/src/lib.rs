//! In-memory document model for an editor-integration service.
//!
//! The crate keeps a text buffer synchronized with incremental edits,
//! maintains a line index over it, extracts a symbol table from the parsed
//! top-level statements of the buffer, and resolves "what is at this cursor
//! position" queries against that table.

pub mod document;
pub mod extract;
pub mod hover;
pub mod line_index;
pub mod store;
pub mod symbols;
pub mod syntax;
pub mod text;
