//! Compilation of SQL expressions for a columnar query engine.
//!
//! The crate turns raw SQL expression text (filter predicates, default-value
//! expressions, computed-column definitions, clustering-key definitions) into
//! type-checked, column-index-bound, optionally constant-folded expression
//! trees, and specializes them for linear and Hilbert-curve data clustering.

pub mod api;
pub mod ast;
pub mod binding;
pub mod cluster;
pub mod expr;
pub mod parser;
pub mod registry;
pub mod render;
pub mod resolver;
pub mod sexpr;
pub mod errors;
pub mod eval;
pub mod scalar;
pub mod schema;
pub mod text;
pub mod token;
pub mod types;
