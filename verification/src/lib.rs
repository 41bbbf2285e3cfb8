//! Extraction of a serializable model of the type declarations (aliases,
//! structures, enumerations, unions) found in one C source or header file.
//!
//! The C front end hands the caller a tree of declaration nodes; the caller
//! renders that tree as [`ast::Node`] values and the verified walker in
//! [`extract`] turns the tree into an ordered sequence of [`model::Types`]
//! entries, resolving anonymous aggregates and forward declarations.

pub mod ast;
pub mod extract;
pub mod laws;
pub mod model;
