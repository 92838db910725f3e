//! Type checking for the resolved intermediate representation of a circuit
//! language: a type algebra, the rules that compose types, and a walker that
//! assigns one type to every expression of a tree held in a node store.

pub mod array;
pub mod call;
pub mod check;
pub mod errors;
pub mod infix;
pub mod ir;
pub mod outcome;
pub mod progress;
pub mod render;
pub mod rules;
pub mod store;
pub mod tree;
pub mod types;
