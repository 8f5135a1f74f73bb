//! Compiles an OpenAPI-style description (schemas, paths, operations,
//! parameters, bodies) into a typed service interface, dispatcher, server
//! skeleton and client binding, all derived from one validated semantic
//! model.
//!
//! The crate builds the model in two passes: schema/type resolution turns
//! possibly self-referential schema definitions into a closed, named type
//! graph, and route analysis turns path templates, parameter lists and
//! response tables into a validated, typed operation model. Reading the raw
//! description format and writing the emitted text are the caller's job; the
//! library works on an already-parsed document.

pub mod builder;
pub mod doc;
pub mod emit;
pub mod gen;
pub mod error;
pub mod ir;
pub mod names;
pub mod omap;
pub mod path;
pub mod refs;
pub mod responses;
pub mod routes;
pub mod status;
pub mod text;
