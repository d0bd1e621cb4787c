//! A zero-copy parser for PTX modules: comments and whitespace, identifiers,
//! delimited groups, function signatures and bodies, and a cursor that walks
//! the declarations of a module one at a time.

pub mod scan;
pub mod comment;
pub mod function;
pub mod params;
pub mod module;
pub mod laws;
