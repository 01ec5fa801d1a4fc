//! Core of the sappho expression language: effect-checked expression trees, their
//! canonical form, the object model, lexical scopes and pattern binding.
pub mod identmap;
pub mod object;
pub mod literal;
pub mod ast;
pub mod east;
pub mod restrict;
pub mod desugar;
pub mod value;
pub mod scope;
pub mod bind;
