//! Lowering of a scoped inline-assembly notation: bridge variables and
//! clobbers are collected per scope, the placeholders of each instruction
//! block are rewritten into operand positions, and clobbers that collide with
//! an operand's register are reconciled.

pub mod block;
pub mod decl;
pub mod diag;
pub mod emit;
pub mod grammar;
pub mod host;
pub mod ident;
pub mod instruction;
pub mod invariants;
pub mod laws;
pub mod operand;
pub mod registry;
pub mod resolve;
pub mod text;
pub mod token;
pub mod words;
