//! Compose existing types into a tagged union.
//!
//! A declaration `[attributes] [visibility] enum Name { Variant [= Type], .. }`
//! is read from a flat token sequence into a union description, which is then
//! turned into declarations: the union type with one case per variant, three
//! accessors per variant and one conversion per variant.

pub mod token;
pub mod casing;
pub mod model;
pub mod generate;
pub mod value;
pub mod syntax;
pub mod parse;
pub mod emit;

pub use crate::emit::unite;
