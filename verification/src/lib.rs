//! Resolution of structural type annotations into flat property tables.
//!
//! A type annotation (interfaces, aliases, unions/intersections, tuples,
//! indexed access, and a fixed set of built-in utility operators) is
//! evaluated against a read-only declaration index into an ordered table
//! that lists, for each named property, the set of abstract runtime value
//! categories it may hold and whether it is mandatory.

pub mod ast;
pub mod laws;
pub mod model;
pub mod resolver;
pub mod semantics;
pub mod table;
pub mod tagset;
