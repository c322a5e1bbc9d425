//! Turns the rules of a CDDL document (RFC 8610) into a table of the Rust types that
//! represent them.
//!
//! - [`ast`] is the syntax tree that is read.
//! - [`intermediate`] is the table of types that is filled.
//! - [`parsing`] holds the functions that go from one to the other, and [`support`] those
//!   that decide beforehand whether they can.
//! - [`model`] states what the types of a document are, and [`laws`] what follows.
//! - [`utils`], [`text`] and [`table`] are about names, text and tables.

pub mod ast;
pub mod intermediate;
pub mod laws;
pub mod model;
pub mod parsing;
pub mod support;
pub mod table;
pub mod text;
pub mod utils;
