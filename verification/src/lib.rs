//! Canonical source formatter.
//!
//! A parsed module is lowered into a document, and the document is rendered
//! for lines of 80 columns. Comments and blank lines are no part of the
//! syntax tree: they are kept beside it by byte offset and put back while the
//! tree is walked from left to right.
//!
//! - `pretty`: the document algebra and the layout engine.
//! - `trivia`: comments, blank lines and the cursor that hands them out.
//! - `source`: cutting the comments out of the source text.
//! - `ast`: the syntax tree; `valid`: the shape that the lowering asks of it.
//! - `literal`, `types`, `constant`, `guard`, `pattern`, `expr`, `imports`,
//!   `definition`: the lowering, one module for each kind of construct;
//!   `segment` and `wrap`: what they share.
//! - `module`: formatting a whole module.
//! - `comments`: the proof that every comment is printed once; `order`: the
//!   proof that comments are printed in the order of the source.

pub mod ast;
pub mod comments;
pub mod constant;
pub mod definition;
pub mod expr;
pub mod guard;
pub mod imports;
pub mod literal;
pub mod module;
pub mod order;
pub mod pattern;
pub mod pretty;
pub mod segment;
pub mod source;
pub mod trivia;
pub mod types;
pub mod valid;
pub mod wrap;
