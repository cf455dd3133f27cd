//! Describes one source buffer for an editor: the diagnostics that the parser
//! reported, and an outline of the declarations in the buffer, written as one
//! self-delimiting text document.
//!
//! - `levels`: the parser's severities and the three that the document knows.
//! - `source_model`: positions and ranges, resolved from character indexes.
//! - `token_writer`: the document's tokens: raw text, numbers, escaped strings.
//! - `parse_describe`: element kinds, message lines, the diagnostics collector
//!   and the document's frame.
//! - `structure_visitor`: the outline, written as the syntax tree is walked.

pub mod levels;
pub mod parse_describe;
pub mod source_model;
pub mod structure_visitor;
pub mod token_writer;
