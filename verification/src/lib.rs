//! The function-execution core of a relational query engine: typed values,
//! function descriptors, argument shapes, a registry of callables and a
//! reducer for expression trees, together with the small pure rules that the
//! surrounding tooling shares (archive destinations, energy requests, view
//! declarations).

pub mod archive;
pub mod energy;
pub mod error;
pub mod eval;
pub mod expr;
pub mod functions;
pub mod laws;
pub mod program;
pub mod registry;
pub mod text;
pub mod value;
pub mod view;
