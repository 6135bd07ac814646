//! Compiles a declarative rendering schema (variants, fields and their
//! directives) into a per-variant rendering plan, and renders values through
//! such a plan into a text sink.

pub mod ident;
pub mod schema;
pub mod plan;
pub mod render;
pub mod laws;
