//! A minimal symbolic-expression language: a reader that turns text into
//! objects, and an evaluator that reduces objects against global and local
//! bindings.
//!
//! - [`object`] holds the data model, [`error`] the errors.
//! - [`scan`] says what a text reads as; [`parser`] reads it.
//! - [`semantics`] says what an object evaluates to; [`environment`]
//!   evaluates it, with the bindings of [`bindings`] and the native
//!   operations of [`primatives`].
//! - [`loader`] cuts a source file into blocks, and [`repl`] recognizes the
//!   commands of an interactive session.
//! - [`text`] holds the operations on text that are taken from the standard
//!   library as they are.

pub mod bindings;
pub mod environment;
pub mod error;
pub mod function;
pub mod loader;
pub mod object;
pub mod parser;
pub mod primatives;
pub mod repl;
pub mod scan;
pub mod semantics;
pub mod text;

pub use object::Object;
