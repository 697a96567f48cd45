//! The production rules of the translator, one file per semantic category.
//!
//! Each rule is specified by a ghost function giving the exact text it
//! emits for every node, and the executable rule is proved to match it.

pub mod array;
pub mod enums;
pub mod instance_type;
pub mod literal;
pub mod number;
pub mod object;
pub mod schema;
pub mod schema_object;
pub mod string;
pub mod union;
