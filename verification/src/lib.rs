//! Equational rewriting over symbolic terms: the term model, a token-level
//! term parser, one-directional pattern matching, substitution, single-layer
//! outermost rewriting, and the command session that sequences them.

pub mod error;
pub mod name_map;
pub mod term;
pub mod token;
pub mod matcher;
pub mod subst;
pub mod rewrite;
pub mod soundness;
pub mod parser;
pub mod session;
pub mod grammar;
pub mod render;
