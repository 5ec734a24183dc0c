//! A syntax tree for the DOT graph description language, with a verified
//! serializer and a verified lowering into a graph structure.

pub mod ast;
pub mod decimal;
pub mod text;
pub mod render;
pub mod tokens;
pub mod attrs;
pub mod flat;
pub mod declared;
pub mod lower;
pub mod laws;
pub mod lexical;
pub mod petgraph;
