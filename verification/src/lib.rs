//! Plans and writes an ergonomic `new` constructor for a struct declaration.
//!
//! A declaration is handed over as plain data: its name, its fields, and for
//! each field the declared type and the attributes on it. The library reads
//! the directives of each `generic_new(..)` block, settles one plan per field
//! (with built-in conversions for `String`, `Vec<T>` and `PathBuf`), and
//! writes the source text of the `impl` block that holds the constructor.
//!
//! - [`syntax`]: identifiers, types and expressions, read by `syn`;
//! - [`attributes`]: one directive;
//! - [`config`]: the directives of a block, and what they ask for together;
//! - [`field`]: the plan for one field, and for all fields of a struct;
//! - [`generate`]: the constructor's text for a declaration;
//! - [`error`]: the findings that end generation;
//! - [`text`]: helpers on text.

pub mod text;
pub mod error;
pub mod syntax;
pub mod attributes;
pub mod config;
pub mod field;
pub mod generate;
