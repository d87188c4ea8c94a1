//! Parsers that are described as data, derived from the declarations of
//! datatypes, and run against a buffered stream of tokens.
//!
//! - [`buffer`] holds the token buffer and the cursors that look ahead in it.
//! - [`text`] holds the primitive parsers: literal tags and single characters.
//! - [`parsers`] holds parsers as data ([`parsers::TypeRef`]) and the
//!   procedures that peek and parse with them.
//! - [`grammar`] says what a parser means: the outcome of parsing a sequence
//!   of tokens. Every procedure is specified against it.
//! - [`attr`] and [`builder`] hold the directives of a declaration and turn
//!   them into the steps of a procedure.
//! - [`named_struct`], [`tuple_struct`] and [`enum_impl`] derive the peek and
//!   parse procedures of a struct or an enum.
//! - [`laws`] states what holds of every parser and every input.

pub mod attr;
pub mod buffer;
pub mod builder;
pub mod enum_impl;
pub mod error;
pub mod grammar;
pub mod laws;
pub mod named_struct;
pub mod parsers;
pub mod text;
pub mod tuple_struct;
