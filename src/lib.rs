//! Static analysis of a foreign C node hierarchy: the subtype graph implied by
//! first-field embedding, the node family reachable from tagged roots, the
//! per-struct traversal programs, and an evaluator that walks and renders a
//! node graph by those programs.
//!
//! Alongside it, the word-sized `Datum` and the argument block of a call.

pub mod datum;
pub mod fcinfo;
pub mod schema;
pub mod graph;
pub mod family;
pub mod rules;
pub mod classify;
pub mod generate;
pub mod walk;
pub mod render;
