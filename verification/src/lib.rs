//! Lowering of a small functional language, decoded from a JSON syntax tree,
//! into rule text for a graph-reduction runtime.

pub mod expr;
pub mod text;
pub mod error;
pub mod literal;
pub mod symbols;
pub mod naming;
pub mod lowering;
pub mod codegen;
pub mod json;
pub mod folding;
pub mod parser;
